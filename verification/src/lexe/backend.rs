//! The decisions of the Lexe backend.
//!
//! The node does not accept an idempotency token, so retry safety comes from
//! the quote database: an attempt is recorded before it is submitted, and a
//! recorded attempt is only ever looked up.

use vstd::prelude::*;
use vstd::string::*;

use crate::clock::unix_time;
use crate::encoding::{hex_text, preimage_hex, same_hash};
use crate::lexe::client::{
    check_invoice, invoice_refusal, lexe_amount_from_sats, lexe_amount_sats, parse_payment_index,
    payment_index_read, Payment, PaymentDirection, PaymentStatus, SubmissionError,
};
use crate::lexe::database::{stored, QuoteDatabase, QuoteDatabaseView, reject_error_words};
use crate::payment::{
    msat_to_sat_ceil, result_view, sats_rounded_up, Amount, Bolt11Invoice, Bolt11Settings,
    CreateIncomingPaymentResponse, CreateIncomingPaymentResponseView, CurrencyUnit, Event,
    EventView, IncomingPaymentOptions, MakePaymentResponse, MakePaymentResponseView,
    MeltQuoteState, OutgoingPaymentOptions, PaymentIdentifier, PaymentQuoteResponse,
    SettingsResponse, WaitPaymentResponse, WaitPaymentResponseView, MSAT_IN_SAT,
};
use crate::text::{join2, join3};

verus! {

/// Why an operation of this backend failed.
pub type Error = crate::payment::Error<String, String>;

/// What an [`Error`] says.
pub type ErrorView = crate::payment::Error<Seq<char>, Seq<char>>;

/// The Lexe backend: what it remembers and how it was configured.
#[derive(Debug)]
pub struct LexeBackend {
    /// What the backend remembers.
    pub db: QuoteDatabase,
    /// The estimated fee in millionths of the amount.
    pub fee_reserve_ppm: u32,
    /// The least estimated fee, in satoshis.
    pub fee_reserve_min_sat: u64,
    /// How long to wait for a payment where the mint does not say.
    pub payment_timeout_secs: u64,
}

/// The state of a melt quote that a payment's status stands for.
pub open spec fn melt_state(status: PaymentStatus) -> MeltQuoteState {
    match status {
        PaymentStatus::Completed => MeltQuoteState::Paid,
        PaymentStatus::Failed => MeltQuoteState::Failed,
        PaymentStatus::Pending => MeltQuoteState::Pending,
    }
}

/// The whole satoshis of an invoice amount, where it is a positive number of them.
pub open spec fn whole_sats(amount_msat: Option<u64>) -> Option<u64> {
    match amount_msat {
        Some(msat) => if msat % 1000 == 0 && msat / 1000 != 0 {
            Some((msat / 1000) as u64)
        } else {
            None
        },
        None => None,
    }
}

/// `ppm` millionths of an amount, rounded up and capped to 64 bits, but at
/// least `min_sat`.
pub open spec fn fee_estimate(amount_sats: int, ppm: int, min_sat: int) -> int {
    let estimated = (amount_sats * ppm + 999_999) / 1_000_000;
    let capped = if estimated <= u64::MAX {
        estimated
    } else {
        u64::MAX as int
    };
    if capped >= min_sat {
        capped
    } else {
        min_sat
    }
}

/// What an outgoing payment is answered with.
pub open spec fn outgoing_answer(
    identifier: PaymentIdentifier,
    unit: CurrencyUnit,
    payment: Payment,
) -> Result<MakePaymentResponseView, ErrorView> {
    let status = melt_state(payment.status);
    let proof = match payment.preimage {
        Some(preimage) => Some(hex_text(preimage@)),
        None => None,
    };
    if status != MeltQuoteState::Paid {
        Ok(
            MakePaymentResponseView {
                payment_lookup_id: identifier,
                payment_proof: proof,
                status,
                total_spent: Amount { value: 0, unit },
            },
        )
    } else if payment.amount_msat is None {
        Err(ErrorView::Custom("Completed Lexe payment has no amount"@))
    } else {
        let msat = payment.amount_msat->0 + payment.fees_msat;
        if msat > u64::MAX {
            Err(ErrorView::Custom("Lexe payment total overflow"@))
        } else {
            let total_spent = if unit == CurrencyUnit::Msat {
                Amount { value: msat as u64, unit: CurrencyUnit::Msat }
            } else {
                Amount { value: sats_rounded_up(msat) as u64, unit: CurrencyUnit::Sat }
            };
            Ok(
                MakePaymentResponseView {
                    payment_lookup_id: identifier,
                    payment_proof: proof,
                    status,
                    total_spent,
                },
            )
        }
    }
}

/// What is answered where the node knows of no payment.
pub open spec fn answer_without_payment(
    identifier: PaymentIdentifier,
    unit: CurrencyUnit,
    status: MeltQuoteState,
) -> MakePaymentResponseView {
    MakePaymentResponseView {
        payment_lookup_id: identifier,
        payment_proof: None,
        status,
        total_spent: Amount { value: 0, unit },
    }
}

fn custom(words: &str) -> (error: Error)
    ensures
        error.deep_view() == ErrorView::Custom(words@),
{
    Error::Custom(words.to_owned())
}

/// What the node is asked for when an invoice is created.
#[derive(Debug, PartialEq, Eq)]
pub struct InvoiceRequest {
    /// The amount, in millisatoshis.
    pub amount_msat: u64,
    /// What the payment is for.
    pub description: String,
    /// When the invoice expires, in seconds from now, where the mint says.
    pub expiration_secs: Option<u32>,
}

/// What an [`InvoiceRequest`] says.
pub struct InvoiceRequestView {
    /// The amount, in millisatoshis.
    pub amount_msat: u64,
    /// What the payment is for.
    pub description: Seq<char>,
    /// When the invoice expires, in seconds from now, where the mint says.
    pub expiration_secs: Option<u32>,
}

impl DeepView for InvoiceRequest {
    type V = InvoiceRequestView;

    open spec fn deep_view(&self) -> InvoiceRequestView {
        InvoiceRequestView {
            amount_msat: self.amount_msat,
            description: self.description@,
            expiration_secs: self.expiration_secs,
        }
    }
}

/// What the node is asked for at the moment `now`, or why nothing is asked.
pub open spec fn invoice_request(options: IncomingPaymentOptions, now: u64) -> Result<
    InvoiceRequestView,
    ErrorView,
> {
    match options {
        IncomingPaymentOptions::Bolt11(options) => {
            let sats = options.amount.value;
            if options.amount.unit != CurrencyUnit::Sat {
                Err(ErrorView::UnsupportedUnit)
            } else if sats == 0 {
                Err(ErrorView::AmountMismatch)
            } else if options.unix_expiry matches Some(at) && !(now < at && at - now <= u32::MAX) {
                Err(ErrorView::InvalidExpiry)
            } else if sats * MSAT_IN_SAT > u64::MAX {
                Err(ErrorView::Custom("invalid invoice amount: "@ + "Amount is too large"@))
            } else {
                Ok(
                    InvoiceRequestView {
                        amount_msat: (sats * MSAT_IN_SAT) as u64,
                        description: match options.description {
                            Some(description) => description@,
                            None => Seq::empty(),
                        },
                        expiration_secs: match options.unix_expiry {
                            Some(at) => Some((at - now) as u32),
                            None => None,
                        },
                    },
                )
            }
        },
        _ => Err(ErrorView::UnsupportedPaymentOption),
    }
}

/// What the next step of an outgoing payment is.
#[derive(Debug, PartialEq, Eq)]
pub enum PaymentStep<T> {
    /// The attempt is recorded: submit the invoice now, once.
    Submit {
        /// The payment hash.
        payment_hash: [u8; 32],
        /// The invoice.
        invoice: T,
        /// How long submission and settlement may take together.
        timeout_secs: u64,
    },
    /// There is an attempt already: look it up.
    Reconcile,
}

impl<T: DeepView> DeepView for PaymentStep<T> {
    type V = PaymentStep<T::V>;

    open spec fn deep_view(&self) -> PaymentStep<T::V> {
        match self {
            PaymentStep::Submit { payment_hash, invoice, timeout_secs } => PaymentStep::Submit {
                payment_hash: *payment_hash,
                invoice: invoice.deep_view(),
                timeout_secs: *timeout_secs,
            },
            PaymentStep::Reconcile => PaymentStep::Reconcile,
        }
    }
}

/// The words in which a capped payment is refused.
pub open spec fn capped_words() -> Seq<char> {
    "Lexe SDK cannot enforce max_fee_amount; capped outgoing payments are unsupported"@
}

/// How an outgoing payment begins, and what is remembered then. `refusal` says
/// why the SDK refuses the invoice, where it does.
pub open spec fn payment_begun(
    db: QuoteDatabaseView,
    default_timeout_secs: u64,
    unit: CurrencyUnit,
    options: OutgoingPaymentOptions,
    refusal: Option<Seq<char>>,
) -> (Result<PaymentStep<Seq<char>>, ErrorView>, QuoteDatabaseView) {
    if unit != CurrencyUnit::Sat {
        (Err(ErrorView::UnsupportedUnit), db)
    } else if options !is Bolt11 {
        (Err(ErrorView::UnsupportedPaymentOption), db)
    } else {
        let options = options->Bolt11_0;
        let hash = options.bolt11.payment_hash;
        let quoted = db.with_melt_quote(hash, options.bolt11.text@);
        if whole_sats(options.bolt11.amount_msat) is None {
            (Err(ErrorView::AmountMismatch), db)
        } else if db.melt_attempts.dom().contains(hash) {
            (Ok(PaymentStep::Reconcile), quoted)
        } else if options.max_fee_amount is Some {
            (Err(ErrorView::Custom(capped_words())), quoted)
        } else if options.melt_options is Some {
            (Err(ErrorView::UnsupportedPaymentOption), quoted)
        } else if refusal is Some {
            (
                Err(
                    ErrorView::Custom(
                        "failed to parse outgoing invoice for Lexe: "@ + refusal->0,
                    ),
                ),
                quoted,
            )
        } else {
            (
                Ok(
                    PaymentStep::Submit {
                        payment_hash: hash,
                        invoice: options.bolt11.text@,
                        timeout_secs: match options.timeout_secs {
                            Some(secs) => secs,
                            None => default_timeout_secs,
                        },
                    },
                ),
                quoted.claimed(hash, options.quote_id@, CurrencyUnit::Sat),
            )
        }
    }
}

/// How a submission ended.
#[derive(Debug, PartialEq, Eq)]
pub enum SubmissionOutcome {
    /// The node accepted the payment under this index.
    Accepted(String),
    /// The node reported an error.
    Failed(SubmissionError),
    /// Nothing came back in time.
    TimedOut,
}

/// What follows a submission.
#[derive(Debug, PartialEq, Eq)]
pub enum AfterSubmission<T> {
    /// The acceptance is recorded: wait for the payment to settle.
    AwaitSettlement {
        /// The index of the payment.
        index: T,
    },
    /// Look the attempt up.
    Reconcile,
}

impl<T: DeepView> DeepView for AfterSubmission<T> {
    type V = AfterSubmission<T::V>;

    open spec fn deep_view(&self) -> AfterSubmission<T::V> {
        match self {
            AfterSubmission::AwaitSettlement { index } => AfterSubmission::AwaitSettlement {
                index: index.deep_view(),
            },
            AfterSubmission::Reconcile => AfterSubmission::Reconcile,
        }
    }
}

/// What follows a submission, and what is remembered then: an acceptance and a
/// definite rejection are recorded, anything ambiguous changes nothing.
pub open spec fn submission_concluded(
    db: QuoteDatabaseView,
    hash: [u8; 32],
    outcome: SubmissionOutcome,
) -> (Result<AfterSubmission<Seq<char>>, ErrorView>, QuoteDatabaseView) {
    match outcome {
        SubmissionOutcome::Accepted(index) => (
            Ok(AfterSubmission::AwaitSettlement { index: index@ }),
            db.with_melt_payment_id(hash, index@),
        ),
        SubmissionOutcome::Failed(SubmissionError::Rejected(_)) => if db.can_reject(hash) {
            (Ok(AfterSubmission::Reconcile), db.rejected(hash))
        } else {
            (
                Err(
                    ErrorView::Custom(
                        reject_error_words(
                            if db.melt_payment_ids.dom().contains(hash) {
                                crate::lexe::database::RejectError::RemoteIndexKnown
                            } else {
                                crate::lexe::database::RejectError::AttemptNotFound
                            },
                        ),
                    ),
                ),
                db,
            )
        },
        SubmissionOutcome::Failed(SubmissionError::Ambiguous(_)) => (
            Ok(AfterSubmission::Reconcile),
            db,
        ),
        SubmissionOutcome::TimedOut => (Ok(AfterSubmission::Reconcile), db),
    }
}

/// How the wait for settlement ended.
#[derive(Debug, PartialEq, Eq)]
pub enum SettlementOutcome {
    /// The node reported the payment.
    Reported(Payment),
    /// The node could not be asked. The payment was accepted all the same.
    Failed,
    /// Nothing came back in time.
    TimedOut,
}

/// What follows the wait for settlement.
#[derive(Debug, PartialEq, Eq)]
pub enum AfterSettlement<R> {
    /// This is the answer.
    Answer(R),
    /// Look the attempt up.
    Reconcile,
}

impl<R: DeepView> DeepView for AfterSettlement<R> {
    type V = AfterSettlement<R::V>;

    open spec fn deep_view(&self) -> AfterSettlement<R::V> {
        match self {
            AfterSettlement::Answer(answer) => AfterSettlement::Answer(answer.deep_view()),
            AfterSettlement::Reconcile => AfterSettlement::Reconcile,
        }
    }
}

/// The next step of looking an outgoing payment up.
#[derive(Debug, PartialEq, Eq)]
pub enum CheckStep<R, T> {
    /// This is the answer.
    Answer(R),
    /// Ask the node for the payment with this index.
    Fetch {
        /// The index.
        index: T,
        /// The unit of the attempt.
        unit: CurrencyUnit,
    },
    /// Search the node's history for the payment.
    Search {
        /// The unit of the attempt.
        unit: CurrencyUnit,
    },
}

impl<R: DeepView, T: DeepView> DeepView for CheckStep<R, T> {
    type V = CheckStep<R::V, T::V>;

    open spec fn deep_view(&self) -> CheckStep<R::V, T::V> {
        match self {
            CheckStep::Answer(answer) => CheckStep::Answer(answer.deep_view()),
            CheckStep::Fetch { index, unit } => CheckStep::Fetch {
                index: index.deep_view(),
                unit: *unit,
            },
            CheckStep::Search { unit } => CheckStep::Search { unit: *unit },
        }
    }
}

/// The hash by which this backend looks a payment up.
pub open spec fn lookup_hash(identifier: PaymentIdentifier) -> Result<[u8; 32], ErrorView> {
    match identifier {
        PaymentIdentifier::PaymentHash(hash) => Ok(hash),
        _ => Err(ErrorView::UnsupportedPaymentOption),
    }
}

/// The words in which a stored index is refused.
pub open spec fn bad_index_words(index: Seq<char>, why: Seq<char>) -> Seq<char> {
    "invalid stored Lexe payment index `"@ + index + ("`: "@ + why)
}

/// The index to ask the node for, from a stored index and from what reading it gave.
pub open spec fn fetch_index(index: Seq<char>, read: Result<Seq<char>, Seq<char>>) -> Result<
    Seq<char>,
    ErrorView,
> {
    match read {
        Ok(canonical) => Ok(canonical),
        Err(why) => Err(ErrorView::Custom(bad_index_words(index, why))),
    }
}

/// How looking an outgoing payment up begins.
pub open spec fn check_begun(db: QuoteDatabaseView, identifier: PaymentIdentifier) -> Result<
    CheckStep<MakePaymentResponseView, Seq<char>>,
    ErrorView,
> {
    match lookup_hash(identifier) {
        Err(error) => Err(error),
        Ok(hash) => if !db.melt_attempts.dom().contains(hash) {
            if !db.melt_quotes.dom().contains(hash) {
                Err(ErrorView::Custom("Outgoing payment not found"@))
            } else {
                Ok(
                    CheckStep::Answer(
                        answer_without_payment(
                            identifier,
                            CurrencyUnit::Sat,
                            MeltQuoteState::Unpaid,
                        ),
                    ),
                )
            }
        } else {
            let attempt = db.melt_attempts[hash];
            if db.melt_payment_ids.dom().contains(hash) {
                let index = db.melt_payment_ids[hash];
                match fetch_index(index, payment_index_read(index)) {
                    Ok(index) => Ok(CheckStep::Fetch { index, unit: attempt.unit }),
                    Err(error) => Err(error),
                }
            } else if attempt.submission_rejected {
                Ok(
                    CheckStep::Answer(
                        answer_without_payment(identifier, attempt.unit, MeltQuoteState::Failed),
                    ),
                )
            } else {
                Ok(CheckStep::Search { unit: attempt.unit })
            }
        },
    }
}

/// How a look-up goes on with what the node reported for a stored index.
pub open spec fn fetch_concluded(
    identifier: PaymentIdentifier,
    unit: CurrencyUnit,
    payment: Option<Payment>,
) -> Result<CheckStep<MakePaymentResponseView, Seq<char>>, ErrorView> {
    match payment {
        Some(payment) => match outgoing_answer(identifier, unit, payment) {
            Ok(answer) => Ok(CheckStep::Answer(answer)),
            Err(error) => Err(error),
        },
        None => Ok(CheckStep::Search { unit }),
    }
}

/// How a look-up ends with what the search of the node's history gave.
pub open spec fn search_concluded(
    identifier: PaymentIdentifier,
    unit: CurrencyUnit,
    payment: Option<Payment>,
) -> Result<MakePaymentResponseView, ErrorView> {
    match lookup_hash(identifier) {
        Err(error) => Err(error),
        Ok(_) => match payment {
            Some(payment) => outgoing_answer(identifier, unit, payment),
            None => Ok(answer_without_payment(identifier, unit, MeltQuoteState::Pending)),
        },
    }
}

/// What one page of the node's history gives.
#[derive(Clone, Copy, Debug, PartialEq, Eq, Structural)]
pub enum SearchStep {
    /// The payment is at this position of the page.
    Found(usize),
    /// There are no more pages, and the payment was not found.
    Exhausted,
    /// Go on with the next page.
    Continue,
}

/// Whether a payment in the history is the outgoing payment of a hash.
pub open spec fn is_outbound_match(payment: Payment, hash: [u8; 32]) -> bool {
    payment.direction == PaymentDirection::Outbound && payment.hash == Some(hash)
}

/// The position of the first matching payment of a page.
pub open spec fn is_first_match(page: Seq<Payment>, hash: [u8; 32], at: int) -> bool {
    &&& 0 <= at < page.len()
    &&& is_outbound_match(page[at], hash)
    &&& forall|j: int| 0 <= j < at ==> !is_outbound_match(#[trigger] page[j], hash)
}

/// Whether some payment of a page matches.
pub open spec fn page_matches(page: Seq<Payment>, hash: [u8; 32]) -> bool {
    exists|j: int| 0 <= j < page.len() && is_outbound_match(#[trigger] page[j], hash)
}

/// Whether the cursor of the next page is the cursor of this one.
pub open spec fn cursor_stuck(after: Option<String>, next: String) -> bool {
    after matches Some(after) && after@ == next@
}

/// What an incoming payment is answered with.
pub open spec fn incoming_answer(identifier: PaymentIdentifier, payment: Option<Payment>) -> Result<
    Option<WaitPaymentResponseView>,
    ErrorView,
> {
    match payment {
        None => Ok(None),
        Some(payment) => if payment.status != PaymentStatus::Completed {
            Ok(None)
        } else {
            match payment.amount_msat {
                None => Err(
                    ErrorView::Custom(
                        "inbound payment "@ + payment.index@
                            + " is completed but its amount cannot be determined"@,
                    ),
                ),
                Some(msat) => Ok(
                    Some(
                        WaitPaymentResponseView {
                            payment_identifier: identifier,
                            payment_amount: Amount {
                                value: (msat / MSAT_IN_SAT) as u64,
                                unit: CurrencyUnit::Sat,
                            },
                            payment_id: payment.index@,
                        },
                    ),
                ),
            }
        },
    }
}

/// The event that a payment update stands for, and what is remembered then.
pub open spec fn update_mapped(db: QuoteDatabaseView, payment: Payment) -> (
    Result<Option<EventView>, ErrorView>,
    QuoteDatabaseView,
) {
    match payment.hash {
        None => (Ok(None), db),
        Some(hash) => match payment.direction {
            PaymentDirection::Info => (Ok(None), db),
            PaymentDirection::Inbound => {
                if payment.status != PaymentStatus::Completed || !db.mint_quotes.dom().contains(
                    hash,
                ) {
                    (Ok(None), db)
                } else {
                    match payment.amount_msat {
                        None => (
                            Err(
                                ErrorView::Custom(
                                    "inbound payment "@ + payment.index@
                                        + " completed without an amount"@,
                                ),
                            ),
                            db,
                        ),
                        Some(msat) => (
                            Ok(
                                Some(
                                    EventView::PaymentReceived(
                                        WaitPaymentResponseView {
                                            payment_identifier: PaymentIdentifier::PaymentHash(
                                                hash,
                                            ),
                                            payment_amount: Amount {
                                                value: (msat / MSAT_IN_SAT) as u64,
                                                unit: CurrencyUnit::Sat,
                                            },
                                            payment_id: payment.index@,
                                        },
                                    ),
                                ),
                            ),
                            db,
                        ),
                    }
                }
            },
            PaymentDirection::Outbound => if !db.melt_attempts.dom().contains(hash) {
                (Ok(None), db)
            } else {
                (
                    outbound_event(db.melt_attempts[hash], hash, payment),
                    db.with_melt_payment_id(hash, payment.index@),
                )
            },
        },
    }
}

/// The event that an update of an attempted payment stands for.
pub open spec fn outbound_event(
    attempt: crate::lexe::database::MeltAttemptView,
    hash: [u8; 32],
    payment: Payment,
) -> Result<Option<EventView>, ErrorView> {
    match attempt.quote_id {
        None => Ok(None),
        Some(quote_id) => match payment.status {
            PaymentStatus::Pending => Ok(None),
            PaymentStatus::Failed => Ok(
                Some(EventView::PaymentFailed { quote_id, reason: payment.status_msg@ }),
            ),
            PaymentStatus::Completed => match outgoing_answer(
                PaymentIdentifier::PaymentHash(hash),
                attempt.unit,
                payment,
            ) {
                Ok(details) => Ok(Some(EventView::PaymentSuccessful { quote_id, details })),
                Err(error) => Err(error),
            },
        },
    }
}

/// The event that a payment update stands for, if it is one of this backend's
/// payments. The index of an attempted payment is remembered.
pub fn map_payment_event(db: &mut QuoteDatabase, payment: &Payment) -> (res: Result<
    Option<Event>,
    Error,
>)
    ensures
        result_view(res) == update_mapped(old(db)@, *payment).0,
        final(db)@ == update_mapped(old(db)@, *payment).1,
{
    let hash = match payment.hash {
        Some(hash) => hash,
        None => return Ok(None),
    };
    match payment.direction {
        PaymentDirection::Inbound => {
            if payment.status != PaymentStatus::Completed {
                return Ok(None);
            }
            if db.get_mint_quote(&hash).is_none() {
                return Ok(None);
            }
            match payment.amount_msat {
                None => Err(
                    Error::Custom(
                        join3(
                            "inbound payment ",
                            payment.index.as_str(),
                            " completed without an amount",
                        ),
                    ),
                ),
                Some(msat) => Ok(
                    Some(
                        Event::PaymentReceived(
                            WaitPaymentResponse {
                                payment_identifier: PaymentIdentifier::PaymentHash(hash),
                                payment_amount: Amount::new(
                                    lexe_amount_sats(msat),
                                    CurrencyUnit::Sat,
                                ),
                                payment_id: payment.index.clone(),
                            },
                        ),
                    ),
                ),
            }
        },
        PaymentDirection::Outbound => {
            let attempt = match db.get_melt_attempt(&hash) {
                Some(attempt) => attempt,
                None => return Ok(None),
            };
            db.insert_melt_payment_id(&hash, payment.index.as_str());
            let quote_id = match attempt.quote_id {
                Some(quote_id) => quote_id,
                None => return Ok(None),
            };
            match payment.status {
                PaymentStatus::Completed => match LexeBackend::outgoing_response(
                    PaymentIdentifier::PaymentHash(hash),
                    &attempt.unit,
                    payment,
                ) {
                    Ok(details) => Ok(Some(Event::PaymentSuccessful { quote_id, details })),
                    Err(error) => Err(error),
                },
                PaymentStatus::Failed => Ok(
                    Some(Event::PaymentFailed { quote_id, reason: payment.status_msg.clone() }),
                ),
                PaymentStatus::Pending => Ok(None),
            }
        },
        PaymentDirection::Info => Ok(None),
    }
}

impl LexeBackend {
    /// The hash by which a payment is looked up.
    pub fn payment_hash_of(identifier: &PaymentIdentifier) -> (res: Result<[u8; 32], Error>)
        ensures
            match res {
                Ok(hash) => lookup_hash(*identifier) == Ok::<[u8; 32], ErrorView>(hash),
                Err(error) => lookup_hash(*identifier) == Err::<[u8; 32], ErrorView>(
                    error.deep_view(),
                ),
            },
    {
        match identifier {
            PaymentIdentifier::PaymentHash(hash) => Ok(*hash),
            _ => Err(Error::UnsupportedPaymentOption),
        }
    }

    /// Accepts satoshis and nothing else.
    pub fn ensure_supported_unit(unit: &CurrencyUnit) -> (res: Result<(), Error>)
        ensures
            match res {
                Ok(()) => *unit == CurrencyUnit::Sat,
                Err(error) => *unit != CurrencyUnit::Sat && error == Error::UnsupportedUnit,
            },
    {
        match unit {
            CurrencyUnit::Sat => Ok(()),
            _ => Err(Error::UnsupportedUnit),
        }
    }

    /// The amount of an invoice, which must be a positive number of whole
    /// satoshis: a fraction of one could not be paid exactly.
    pub fn invoice_amount_sats(invoice: &Bolt11Invoice) -> (res: Result<u64, Error>)
        ensures
            match res {
                Ok(sats) => whole_sats(invoice.amount_msat) == Some(sats),
                Err(error) => whole_sats(invoice.amount_msat) is None && error
                    == Error::AmountMismatch,
            },
    {
        let amount_msat: u64 = match invoice.amount_msat {
            Some(amount_msat) => amount_msat,
            None => return Err(Error::AmountMismatch),
        };
        if amount_msat % 1000 != 0 {
            return Err(Error::AmountMismatch);
        }
        let amount_sats: u64 = amount_msat / 1000;
        if amount_sats == 0 {
            return Err(Error::AmountMismatch);
        }
        Ok(amount_sats)
    }

    /// The estimated outgoing fee: `ppm` millionths of the amount, at least
    /// `min_sat`.
    pub fn estimate_fee_sats(amount_sats: u64, ppm: u32, min_sat: u64) -> (fee: u64)
        ensures
            fee == fee_estimate(amount_sats as int, ppm as int, min_sat as int),
    {
        assert(amount_sats * ppm <= u64::MAX * u32::MAX) by (nonlinear_arith)
            requires
                amount_sats <= u64::MAX,
                ppm <= u32::MAX,
        ;
        let product: u128 = amount_sats as u128 * ppm as u128;
        let estimated: u128 = (product + 999_999) / 1_000_000;
        let capped: u64 = if estimated <= u64::MAX as u128 {
            estimated as u64
        } else {
            u64::MAX
        };
        if capped >= min_sat {
            capped
        } else {
            min_sat
        }
    }

    /// The state of a melt quote that a payment's status stands for.
    pub fn melt_status(status: PaymentStatus) -> (state: MeltQuoteState)
        ensures
            state == melt_state(status),
    {
        match status {
            PaymentStatus::Completed => MeltQuoteState::Paid,
            PaymentStatus::Failed => MeltQuoteState::Failed,
            PaymentStatus::Pending => MeltQuoteState::Pending,
        }
    }

    /// What an outgoing payment is answered with. Principal and fees are
    /// summed in millisatoshis and rounded up once; a quote in millisatoshis
    /// is answered exactly.
    pub fn outgoing_response(
        payment_identifier: PaymentIdentifier,
        unit: &CurrencyUnit,
        payment: &Payment,
    ) -> (res: Result<MakePaymentResponse, Error>)
        ensures
            result_view(res) == outgoing_answer(payment_identifier, *unit, *payment),
    {
        let status = Self::melt_status(payment.status);
        let total_spent = if status == MeltQuoteState::Paid {
            let amount_msat: u64 = match payment.amount_msat {
                Some(amount_msat) => amount_msat,
                None => return Err(custom("Completed Lexe payment has no amount")),
            };
            let msat: u64 = match amount_msat.checked_add(payment.fees_msat) {
                Some(msat) => msat,
                None => return Err(custom("Lexe payment total overflow")),
            };
            match unit {
                CurrencyUnit::Msat => Amount::new(msat, CurrencyUnit::Msat),
                _ => Amount::new(msat_to_sat_ceil(msat), CurrencyUnit::Sat),
            }
        } else {
            Amount::new(0, unit.clone())
        };
        let payment_proof = match &payment.preimage {
            Some(preimage) => Some(preimage_hex(preimage)),
            None => None,
        };
        Ok(
            MakePaymentResponse {
                payment_lookup_id: payment_identifier,
                payment_proof,
                status,
                total_spent,
            },
        )
    }

    /// What is answered where the node knows of no payment.
    pub fn response_without_payment(
        identifier: PaymentIdentifier,
        unit: CurrencyUnit,
        status: MeltQuoteState,
    ) -> (response: MakePaymentResponse)
        ensures
            response.deep_view() == answer_without_payment(identifier, unit, status),
    {
        MakePaymentResponse {
            payment_lookup_id: identifier,
            payment_proof: None,
            status,
            total_spent: Amount::new(0, unit),
        }
    }

    /// What the backend can do: BOLT11 in satoshis, with descriptions.
    pub fn get_settings(&self) -> (settings: SettingsResponse)
        ensures
            settings.unit@ == "sat"@,
            settings.bolt11 == Some(
                Bolt11Settings { mpp: false, amountless: false, invoice_description: true },
            ),
            settings.bolt12 is None,
            settings.onchain is None,
            settings.custom@.len() == 0,
    {
        SettingsResponse {
            unit: "sat".to_owned(),
            bolt11: Some(
                Bolt11Settings { mpp: false, amountless: false, invoice_description: true },
            ),
            bolt12: None,
            onchain: None,
            custom: Vec::new(),
        }
    }

    /// What the node is asked for at the moment `now`, or why nothing is asked.
    pub fn invoice_request_at(options: IncomingPaymentOptions, now: u64) -> (res: Result<
        InvoiceRequest,
        Error,
    >)
        ensures
            result_view(res) == invoice_request(options, now),
    {
        let options = match options {
            IncomingPaymentOptions::Bolt11(options) => options,
            _ => return Err(Error::UnsupportedPaymentOption),
        };
        match Self::ensure_supported_unit(&options.amount.unit) {
            Ok(()) => {},
            Err(error) => return Err(error),
        }
        let amount_sats: u64 = match options.amount.to_sat() {
            Ok(amount_sats) => amount_sats,
            Err(error) => return Err(Error::Amount(error)),
        };
        if amount_sats == 0 {
            return Err(Error::AmountMismatch);
        }
        let expiration_secs: Option<u32> = match options.unix_expiry {
            Some(expiry) => {
                if expiry <= now {
                    return Err(Error::InvalidExpiry);
                }
                if expiry - now > u32::MAX as u64 {
                    return Err(Error::InvalidExpiry);
                }
                Some((expiry - now) as u32)
            },
            None => None,
        };
        let amount_msat: u64 = match lexe_amount_from_sats(amount_sats) {
            Ok(amount_msat) => amount_msat,
            Err(words) => {
                return Err(Error::Custom(join2("invalid invoice amount: ", words.as_str())));
            },
        };
        let description = match options.description {
            Some(description) => description,
            None => String::new(),
        };
        Ok(InvoiceRequest { amount_msat, description, expiration_secs })
    }

    /// What the node is asked for to receive a payment. The answer holds for
    /// the moment at which the clock was read.
    pub fn create_incoming_payment_request(&self, options: IncomingPaymentOptions) -> (res: Result<
        InvoiceRequest,
        Error,
    >)
        ensures
            exists|now: u64| result_view(res) == #[trigger] invoice_request(options, now),
    {
        let now: u64 = unix_time();
        Self::invoice_request_at(options, now)
    }

    /// Remembers a created invoice and answers the mint.
    pub fn invoice_created(
        &mut self,
        invoice: &str,
        index: &str,
        unix_expiry: Option<u64>,
    ) -> (res: Result<CreateIncomingPaymentResponse, Error>)
        ensures
            match crate::invoice::bolt11_read(invoice@) {
                Ok((_, hash, _, _)) => {
                    &&& res matches Ok(response)
                    &&& response.request_lookup_id matches PaymentIdentifier::PaymentHash(array)
                    &&& array@ == hash
                    &&& response.deep_view() == created_answer(array, invoice@, unix_expiry)
                    &&& final(self).db@ == old(self).db@.with_mint_mappings(
                        array,
                        invoice@,
                        index@,
                    )
                },
                Err(words) => {
                    &&& result_view(res) == Err::<CreateIncomingPaymentResponseView, ErrorView>(
                        ErrorView::Parse(words),
                    )
                    &&& final(self).db@ == old(self).db@
                },
            },
            final(self).same_configuration(*old(self)),
    {
        match Bolt11Invoice::parse(invoice) {
            Ok(parsed) => {
                let response = self.record_invoice(&parsed.payment_hash, invoice, index, unix_expiry);
                Ok(response)
            },
            Err(words) => Err(Error::Parse(words)),
        }
    }

    /// Remembers an invoice with a known payment hash and answers the mint.
    pub fn record_invoice(
        &mut self,
        payment_hash: &[u8; 32],
        invoice: &str,
        index: &str,
        unix_expiry: Option<u64>,
    ) -> (response: CreateIncomingPaymentResponse)
        ensures
            response.deep_view() == created_answer(*payment_hash, invoice@, unix_expiry),
            final(self).db@ == old(self).db@.with_mint_mappings(*payment_hash, invoice@, index@),
            final(self).same_configuration(*old(self)),
    {
        self.db.insert_mint_quote_and_payment_id(payment_hash, invoice, index);
        CreateIncomingPaymentResponse {
            request_lookup_id: PaymentIdentifier::PaymentHash(*payment_hash),
            request: invoice.to_owned(),
            expiry: unix_expiry,
        }
    }

    /// Whether two backends are configured alike.
    pub open spec fn same_configuration(self, other: LexeBackend) -> bool {
        &&& self.fee_reserve_ppm == other.fee_reserve_ppm
        &&& self.fee_reserve_min_sat == other.fee_reserve_min_sat
        &&& self.payment_timeout_secs == other.payment_timeout_secs
    }

    /// Quotes an outgoing payment and remembers the invoice.
    pub fn get_payment_quote(
        &mut self,
        unit: &CurrencyUnit,
        options: &OutgoingPaymentOptions,
    ) -> (res: Result<PaymentQuoteResponse, Error>)
        ensures
            result_view(res) == quote_answer(*old(self), *unit, *options),
            final(self).db@ == (match (res, *options) {
                (Ok(_), OutgoingPaymentOptions::Bolt11(options)) => {
                    old(self).db@.with_melt_quote(
                        options.bolt11.payment_hash,
                        options.bolt11.text@,
                    )
                },
                _ => old(self).db@,
            }),
            final(self).same_configuration(*old(self)),
    {
        match Self::ensure_supported_unit(unit) {
            Ok(()) => {},
            Err(error) => return Err(error),
        }
        let options = match options {
            OutgoingPaymentOptions::Bolt11(options) => options,
            _ => return Err(Error::UnsupportedPaymentOption),
        };
        let amount_sats: u64 = match Self::invoice_amount_sats(&options.bolt11) {
            Ok(amount_sats) => amount_sats,
            Err(error) => return Err(error),
        };
        let fee_sats: u64 = Self::estimate_fee_sats(
            amount_sats,
            self.fee_reserve_ppm,
            self.fee_reserve_min_sat,
        );
        let payment_hash = options.bolt11.payment_hash;
        self.db.insert_melt_quote(&payment_hash, options.bolt11.text.as_str());
        Ok(
            PaymentQuoteResponse {
                request_lookup_id: Some(PaymentIdentifier::PaymentHash(payment_hash)),
                amount: Amount::new(amount_sats, CurrencyUnit::Sat),
                fee: Amount::new(fee_sats, CurrencyUnit::Sat),
                state: MeltQuoteState::Unpaid,
            },
        )
    }

    /// Begins an outgoing payment: everything that can be refused here is, and
    /// the attempt is recorded before anything is submitted.
    pub fn make_payment(&mut self, unit: &CurrencyUnit, options: &OutgoingPaymentOptions) -> (res:
        Result<PaymentStep<String>, Error>)
        ensures
            ({
                let refusal = match *options {
                    OutgoingPaymentOptions::Bolt11(options) => invoice_refusal(
                        options.bolt11.text@,
                    ),
                    _ => None,
                };
                let begun = payment_begun(
                    old(self).db@,
                    old(self).payment_timeout_secs,
                    *unit,
                    *options,
                    refusal,
                );
                result_view(res) == begun.0 && final(self).db@ == begun.1
            }),
            final(self).same_configuration(*old(self)),
    {
        let refusal = match options {
            OutgoingPaymentOptions::Bolt11(options) => check_invoice(options.bolt11.text.as_str()),
            _ => None,
        };
        self.begin_payment(unit, options, refusal)
    }

    /// Begins an outgoing payment whose invoice was handed to the SDK.
    pub fn begin_payment(
        &mut self,
        unit: &CurrencyUnit,
        options: &OutgoingPaymentOptions,
        refusal: Option<String>,
    ) -> (res: Result<PaymentStep<String>, Error>)
        ensures
            ({
                let begun = payment_begun(
                    old(self).db@,
                    old(self).payment_timeout_secs,
                    *unit,
                    *options,
                    refusal.deep_view(),
                );
                result_view(res) == begun.0 && final(self).db@ == begun.1
            }),
            final(self).same_configuration(*old(self)),
    {
        match Self::ensure_supported_unit(unit) {
            Ok(()) => {},
            Err(error) => return Err(error),
        }
        let options = match options {
            OutgoingPaymentOptions::Bolt11(options) => options,
            _ => return Err(Error::UnsupportedPaymentOption),
        };
        match Self::invoice_amount_sats(&options.bolt11) {
            Ok(_) => {},
            Err(error) => return Err(error),
        }
        let payment_hash = options.bolt11.payment_hash;
        // A payment that is refused below still reads as a known, unpaid quote.
        self.db.insert_melt_quote(&payment_hash, options.bolt11.text.as_str());
        // An attempt is reconciled even if this retry carries other options:
        // neither its owner nor its unit can change.
        if self.db.get_melt_attempt(&payment_hash).is_some() {
            return Ok(PaymentStep::Reconcile);
        }
        // The SDK cannot cap routing fees, and a capped request never turns
        // into an uncapped payment.
        if options.max_fee_amount.is_some() {
            return Err(
                custom(
                    "Lexe SDK cannot enforce max_fee_amount; capped outgoing payments are unsupported",
                ),
            );
        }
        if options.melt_options.is_some() {
            return Err(Error::UnsupportedPaymentOption);
        }
        match refusal {
            Some(words) => {
                return Err(
                    Error::Custom(
                        join2("failed to parse outgoing invoice for Lexe: ", words.as_str()),
                    ),
                );
            },
            None => {},
        }
        let timeout_secs: u64 = match options.timeout_secs {
            Some(secs) => secs,
            None => self.payment_timeout_secs,
        };
        if !self.db.begin_melt_attempt(&payment_hash, options.quote_id.as_str(), unit) {
            return Ok(PaymentStep::Reconcile);
        }
        Ok(
            PaymentStep::Submit {
                payment_hash,
                invoice: options.bolt11.text.clone(),
                timeout_secs,
            },
        )
    }

    /// Records how a submission ended. An acceptance is recorded before any
    /// status is asked for.
    pub fn submission_done(
        &mut self,
        payment_hash: &[u8; 32],
        outcome: SubmissionOutcome,
    ) -> (res: Result<AfterSubmission<String>, Error>)
        ensures
            result_view(res) == submission_concluded(old(self).db@, *payment_hash, outcome).0,
            final(self).db@ == submission_concluded(old(self).db@, *payment_hash, outcome).1,
            final(self).same_configuration(*old(self)),
    {
        match outcome {
            SubmissionOutcome::Accepted(index) => {
                self.db.insert_melt_payment_id(payment_hash, index.as_str());
                Ok(AfterSubmission::AwaitSettlement { index })
            },
            SubmissionOutcome::Failed(SubmissionError::Rejected(_)) => {
                match self.db.reject_melt_attempt(payment_hash) {
                    Ok(()) => Ok(AfterSubmission::Reconcile),
                    Err(error) => Err(Error::Custom(error.message())),
                }
            },
            SubmissionOutcome::Failed(SubmissionError::Ambiguous(_)) => Ok(
                AfterSubmission::Reconcile,
            ),
            SubmissionOutcome::TimedOut => Ok(AfterSubmission::Reconcile),
        }
    }

    /// What follows the wait for settlement. A failure here comes after
    /// acceptance and rejects nothing.
    pub fn settlement_done(
        identifier: PaymentIdentifier,
        unit: &CurrencyUnit,
        outcome: SettlementOutcome,
    ) -> (res: Result<AfterSettlement<MakePaymentResponse>, Error>)
        ensures
            result_view(res) == (match outcome {
                SettlementOutcome::Reported(payment) => match outgoing_answer(
                    identifier,
                    *unit,
                    payment,
                ) {
                    Ok(answer) => Ok(AfterSettlement::Answer(answer)),
                    Err(error) => Err(error),
                },
                _ => Ok(AfterSettlement::Reconcile),
            }),
    {
        match outcome {
            SettlementOutcome::Reported(payment) => match Self::outgoing_response(
                identifier,
                unit,
                &payment,
            ) {
                Ok(answer) => Ok(AfterSettlement::Answer(answer)),
                Err(error) => Err(error),
            },
            _ => Ok(AfterSettlement::Reconcile),
        }
    }

    /// The index to ask the node for.
    pub fn fetch_payment(index: &str) -> (res: Result<String, Error>)
        ensures
            result_view(res) == fetch_index(index@, payment_index_read(index@)),
    {
        let read = parse_payment_index(index);
        Self::index_or_error(index, read)
    }

    /// The index to ask the node for, from what reading a stored index gave.
    pub fn index_or_error(index: &str, read: Result<String, String>) -> (res: Result<
        String,
        Error,
    >)
        ensures
            result_view(res) == fetch_index(index@, result_view(read)),
    {
        match read {
            Ok(canonical) => Ok(canonical),
            Err(why) => {
                let tail = join2("`: ", why.as_str());
                Err(
                    Error::Custom(
                        join3("invalid stored Lexe payment index `", index, tail.as_str()),
                    ),
                )
            },
        }
    }

    /// Begins to look an outgoing payment up. A prepared quote without an
    /// attempt is unpaid; a rejected attempt has failed, whatever the node says.
    pub fn check_outgoing_payment(&self, payment_identifier: &PaymentIdentifier) -> (res: Result<
        CheckStep<MakePaymentResponse, String>,
        Error,
    >)
        ensures
            result_view(res) == check_begun(self.db@, *payment_identifier),
    {
        let payment_hash = match Self::payment_hash_of(payment_identifier) {
            Ok(payment_hash) => payment_hash,
            Err(error) => return Err(error),
        };
        let attempt = match self.db.get_melt_attempt(&payment_hash) {
            Some(attempt) => attempt,
            None => {
                if self.db.get_melt_quote(&payment_hash).is_none() {
                    return Err(custom("Outgoing payment not found"));
                }
                return Ok(
                    CheckStep::Answer(
                        Self::response_without_payment(
                            payment_identifier.clone(),
                            CurrencyUnit::Sat,
                            MeltQuoteState::Unpaid,
                        ),
                    ),
                );
            },
        };
        match self.db.get_melt_payment_id(&payment_hash) {
            Some(index) => match Self::fetch_payment(index.as_str()) {
                Ok(index) => Ok(CheckStep::Fetch { index, unit: attempt.unit }),
                Err(error) => Err(error),
            },
            None => if attempt.submission_rejected {
                Ok(
                    CheckStep::Answer(
                        Self::response_without_payment(
                            payment_identifier.clone(),
                            attempt.unit,
                            MeltQuoteState::Failed,
                        ),
                    ),
                )
            } else {
                Ok(CheckStep::Search { unit: attempt.unit })
            },
        }
    }

    /// Goes on with what the node reported for a stored index. Where it knows
    /// of no such payment, its history is searched.
    pub fn payment_fetched(
        payment_identifier: &PaymentIdentifier,
        unit: CurrencyUnit,
        payment: Option<Payment>,
    ) -> (res: Result<CheckStep<MakePaymentResponse, String>, Error>)
        ensures
            result_view(res) == fetch_concluded(*payment_identifier, unit, payment),
    {
        match payment {
            Some(payment) => match Self::outgoing_response(
                payment_identifier.clone(),
                &unit,
                &payment,
            ) {
                Ok(answer) => Ok(CheckStep::Answer(answer)),
                Err(error) => Err(error),
            },
            None => Ok(CheckStep::Search { unit }),
        }
    }

    /// Looks through one page of the node's history for the outgoing payment
    /// of a hash.
    pub fn find_payment_by_hash(
        hash: &[u8; 32],
        after: &Option<String>,
        page: &Vec<Payment>,
        next: &Option<String>,
    ) -> (res: Result<SearchStep, Error>)
        ensures
            match res {
                Ok(SearchStep::Found(at)) => is_first_match(page@, *hash, at as int),
                Ok(SearchStep::Exhausted) => !page_matches(page@, *hash) && *next is None,
                Ok(SearchStep::Continue) => {
                    &&& !page_matches(page@, *hash)
                    &&& *next matches Some(next)
                    &&& !cursor_stuck(*after, next)
                },
                Err(error) => {
                    &&& !page_matches(page@, *hash)
                    &&& *next matches Some(next)
                    &&& cursor_stuck(*after, next)
                    &&& error.deep_view() == ErrorView::Custom(
                        "Lexe recovery cursor did not advance"@,
                    )
                },
            },
    {
        let mut i: usize = 0;
        while i < page.len()
            invariant
                i <= page@.len(),
                forall|j: int| 0 <= j < i ==> !is_outbound_match(#[trigger] page@[j], *hash),
            decreases page@.len() - i,
        {
            let matches = page[i].direction == PaymentDirection::Outbound && match &page[i].hash {
                Some(other) => same_hash(other, hash),
                None => false,
            };
            if matches {
                assert(is_outbound_match(page@[i as int], *hash));
                return Ok(SearchStep::Found(i));
            }
            i = i + 1;
        }
        match next {
            None => Ok(SearchStep::Exhausted),
            Some(next) => {
                let stuck = match after {
                    Some(after) => *after == *next,
                    None => false,
                };
                if stuck {
                    Err(custom("Lexe recovery cursor did not advance"))
                } else {
                    Ok(SearchStep::Continue)
                }
            },
        }
    }

    /// Answers with what the search of the node's history gave. A payment that
    /// was found is remembered; one that was not may still settle.
    pub fn payment_searched(
        &mut self,
        payment_identifier: &PaymentIdentifier,
        unit: CurrencyUnit,
        payment: Option<Payment>,
    ) -> (res: Result<MakePaymentResponse, Error>)
        ensures
            result_view(res) == search_concluded(*payment_identifier, unit, payment),
            final(self).db@ == (match (lookup_hash(*payment_identifier), payment) {
                (Ok(hash), Some(payment)) => old(self).db@.with_melt_payment_id(
                    hash,
                    payment.index@,
                ),
                _ => old(self).db@,
            }),
            final(self).same_configuration(*old(self)),
    {
        let payment_hash = match Self::payment_hash_of(payment_identifier) {
            Ok(payment_hash) => payment_hash,
            Err(error) => return Err(error),
        };
        match payment {
            Some(payment) => {
                self.db.insert_melt_payment_id(&payment_hash, payment.index.as_str());
                Self::outgoing_response(payment_identifier.clone(), &unit, &payment)
            },
            None => Ok(
                Self::response_without_payment(
                    payment_identifier.clone(),
                    unit,
                    MeltQuoteState::Pending,
                ),
            ),
        }
    }

    /// Begins to look an incoming payment up: the index to ask the node for,
    /// or nothing where no invoice with this hash was created.
    pub fn check_incoming_payment_status(&self, payment_identifier: &PaymentIdentifier) -> (res:
        Result<Option<String>, Error>)
        ensures
            result_view(res) == (match lookup_hash(*payment_identifier) {
                Err(error) => Err(error),
                Ok(hash) => match stored(self.db@.mint_payment_ids, hash) {
                    None => Ok(None),
                    Some(index) => match fetch_index(index, payment_index_read(index)) {
                        Ok(index) => Ok(Some(index)),
                        Err(error) => Err(error),
                    },
                },
            }),
    {
        let payment_hash = match Self::payment_hash_of(payment_identifier) {
            Ok(payment_hash) => payment_hash,
            Err(error) => return Err(error),
        };
        match self.db.get_mint_payment_id(&payment_hash) {
            None => Ok(None),
            Some(index) => match Self::fetch_payment(index.as_str()) {
                Ok(index) => Ok(Some(index)),
                Err(error) => Err(error),
            },
        }
    }

    /// Answers with what the node reported of an incoming payment.
    pub fn incoming_payment_fetched(
        payment_identifier: &PaymentIdentifier,
        payment: Option<Payment>,
    ) -> (res: Result<Option<WaitPaymentResponse>, Error>)
        ensures
            result_view(res) == incoming_answer(*payment_identifier, payment),
    {
        let payment = match payment {
            Some(payment) => payment,
            None => return Ok(None),
        };
        if payment.status != PaymentStatus::Completed {
            return Ok(None);
        }
        match payment.amount_msat {
            None => Err(
                Error::Custom(
                    join3(
                        "inbound payment ",
                        payment.index.as_str(),
                        " is completed but its amount cannot be determined",
                    ),
                ),
            ),
            Some(msat) => Ok(
                Some(
                    WaitPaymentResponse {
                        payment_identifier: payment_identifier.clone(),
                        payment_amount: Amount::new(lexe_amount_sats(msat), CurrencyUnit::Sat),
                        payment_id: payment.index,
                    },
                ),
            ),
        }
    }
}

/// What a created invoice is answered with.
pub open spec fn created_answer(
    hash: [u8; 32],
    invoice: Seq<char>,
    unix_expiry: Option<u64>,
) -> CreateIncomingPaymentResponseView {
    CreateIncomingPaymentResponseView {
        request_lookup_id: PaymentIdentifier::PaymentHash(hash),
        request: invoice,
        expiry: unix_expiry,
    }
}

/// What a request for a quote is answered with.
pub open spec fn quote_answer(
    backend: LexeBackend,
    unit: CurrencyUnit,
    options: OutgoingPaymentOptions,
) -> Result<PaymentQuoteResponse, ErrorView> {
    if unit != CurrencyUnit::Sat {
        Err(ErrorView::UnsupportedUnit)
    } else {
        match options {
            OutgoingPaymentOptions::Bolt11(options) => match whole_sats(
                options.bolt11.amount_msat,
            ) {
                None => Err(ErrorView::AmountMismatch),
                Some(sats) => Ok(
                    PaymentQuoteResponse {
                        request_lookup_id: Some(
                            PaymentIdentifier::PaymentHash(options.bolt11.payment_hash),
                        ),
                        amount: Amount { value: sats, unit: CurrencyUnit::Sat },
                        fee: Amount {
                            value: fee_estimate(
                                sats as int,
                                backend.fee_reserve_ppm as int,
                                backend.fee_reserve_min_sat as int,
                            ) as u64,
                            unit: CurrencyUnit::Sat,
                        },
                        state: MeltQuoteState::Unpaid,
                    },
                ),
            },
            _ => Err(ErrorView::UnsupportedPaymentOption),
        }
    }
}

} // verus!
