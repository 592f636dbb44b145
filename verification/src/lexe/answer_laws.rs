//! What the answers of the Lexe backend mean, in terms of what the mint asked
//! for and of what the node says of a payment.

use vstd::prelude::*;

use crate::encoding::hex_text;
use crate::invoice::bolt11_read;
use crate::lexe::backend::{
    map_payment_event, AfterSettlement, AfterSubmission, CheckStep, Error, InvoiceRequest,
    LexeBackend, PaymentStep, SearchStep, SettlementOutcome, SubmissionOutcome,
};
use crate::lexe::client::{
    base64_bytes, credentials_or_refusal, credentials_read, decode_client_credentials,
    invoice_refusal, parse_payment_index, payment_index_read, wallet_env_config, CredentialsError,
    NodeErrorKind, Payment, PaymentDirection, PaymentStatus, SubmissionError, WalletEnvironment,
};
use crate::lexe::database::{
    MeltAttempt, QuoteDatabase, QuoteDatabaseView, QuoteTables, RejectError,
};
use crate::lexe::events::{EventPoller, PaymentEventStreamActivity};
use crate::lexe::settings;
use crate::lexe::settings::{
    validate, wallet_credentials, BackendConfig, Config, ConfigError, RedactedBackendConfig,
    WalletCredentials,
};
use crate::lexe::wallet::{
    decode_seed_phrase, mnemonic_read, seed_of, seed_or_refusal, wallet_step, WalletEvent,
    WalletStep,
};
use crate::payment::{
    Amount, Bolt11Invoice, CreateIncomingPaymentResponse, CurrencyUnit, Event,
    IncomingPaymentOptions, MakePaymentResponse, MeltQuoteState, OutgoingPaymentOptions,
    PaymentIdentifier, PaymentQuoteResponse, SettingsResponse, WaitPaymentResponse,
};
use crate::payment_laws::{is_rounded_down, is_rounded_up};
use crate::text::{lower, trimmed};

verus! {

/// Whether an error says something in these words.
pub open spec fn says(error: Error, words: Seq<char>) -> bool {
    error matches Error::Custom(text) && text@ == words
}

/// The state of a quote while its payment stands so.
pub open spec fn stands(state: MeltQuoteState, status: PaymentStatus) -> bool {
    match state {
        MeltQuoteState::Paid => status == PaymentStatus::Completed,
        MeltQuoteState::Failed => status == PaymentStatus::Failed,
        MeltQuoteState::Pending => status == PaymentStatus::Pending,
        _ => false,
    }
}

/// Whether an answer tells what became of an outgoing payment: how it stands,
/// its preimage, and what it cost once it is settled, the fees included.
pub open spec fn tells(answer: MakePaymentResponse, unit: CurrencyUnit, payment: Payment) -> bool {
    &&& stands(answer.status, payment.status)
    &&& match (payment.preimage, answer.payment_proof) {
        (Some(preimage), Some(text)) => text@ == hex_text(preimage@),
        (None, None) => true,
        _ => false,
    }
    &&& if payment.status == PaymentStatus::Completed {
        &&& is_rounded_up(answer.total_spent, payment.amount_msat->0 + payment.fees_msat)
        &&& answer.total_spent.unit == (if unit == CurrencyUnit::Msat {
            CurrencyUnit::Msat
        } else {
            CurrencyUnit::Sat
        })
    } else {
        answer.total_spent == (Amount { value: 0, unit })
    }
}

/// Whether what became of an outgoing payment is answered. Only a settled one
/// that says no amount, or that cost too much, cannot be.
pub open spec fn is_told(
    res: Result<MakePaymentResponse, Error>,
    identifier: PaymentIdentifier,
    unit: CurrencyUnit,
    payment: Payment,
) -> bool {
    match res {
        Ok(answer) => {
            &&& payment.status == PaymentStatus::Completed ==> payment.amount_msat is Some
                && payment.amount_msat->0 + payment.fees_msat <= u64::MAX
            &&& answer.payment_lookup_id == identifier
            &&& tells(answer, unit, payment)
        },
        Err(error) => {
            &&& payment.status == PaymentStatus::Completed
            &&& match payment.amount_msat {
                None => says(error, "Completed Lexe payment has no amount"@),
                Some(amount) => amount + payment.fees_msat > u64::MAX && says(
                    error,
                    "Lexe payment total overflow"@,
                ),
            }
        },
    }
}

/// Whether an answer is that nothing is known of a payment but its state.
pub open spec fn is_bare(
    answer: MakePaymentResponse,
    identifier: PaymentIdentifier,
    unit: CurrencyUnit,
    status: MeltQuoteState,
) -> bool {
    &&& answer.payment_lookup_id == identifier
    &&& answer.payment_proof is None
    &&& answer.status == status
    &&& answer.total_spent == (Amount { value: 0, unit })
}

/// The mint is told what became of a payment: paid exactly where the node
/// settled it, with all that it cost.
pub proof fn answers_tell_what_became_of_payments(
    identifier: PaymentIdentifier,
    unit: CurrencyUnit,
    payment: Payment,
    res: Result<MakePaymentResponse, Error>,
)
    requires
        call_ensures(LexeBackend::outgoing_response, (identifier, &unit, &payment), res),
    ensures
        is_told(res, identifier, unit, payment),
{
}

/// A quote is paid, failed or pending as its payment is settled, failed or under
/// way.
pub proof fn quotes_stand_as_their_payments(status: PaymentStatus, state: MeltQuoteState)
    requires
        call_ensures(LexeBackend::melt_status, (status,), state),
    ensures
        stands(state, status),
{
}

/// Where the node knows of no payment, nothing is claimed of it.
pub proof fn missing_payments_spend_nothing(
    identifier: PaymentIdentifier,
    unit: CurrencyUnit,
    status: MeltQuoteState,
    answer: MakePaymentResponse,
)
    requires
        call_ensures(LexeBackend::response_without_payment, (identifier, unit, status), answer),
    ensures
        is_bare(answer, identifier, unit, status),
{
}

/// A payment that was reported while it was waited for is the answer; otherwise
/// the attempt is looked up.
pub proof fn settlements_are_told(
    identifier: PaymentIdentifier,
    unit: CurrencyUnit,
    outcome: SettlementOutcome,
    res: Result<AfterSettlement<MakePaymentResponse>, Error>,
)
    requires
        call_ensures(LexeBackend::settlement_done, (identifier, &unit, outcome), res),
    ensures
        match (outcome, res) {
            (SettlementOutcome::Reported(payment), Ok(AfterSettlement::Answer(answer))) => is_told(
                Ok(answer),
                identifier,
                unit,
                payment,
            ),
            (SettlementOutcome::Reported(payment), Err(error)) => is_told(
                Err(error),
                identifier,
                unit,
                payment,
            ),
            (SettlementOutcome::Failed, Ok(AfterSettlement::Reconcile)) => true,
            (SettlementOutcome::TimedOut, Ok(AfterSettlement::Reconcile)) => true,
            _ => false,
        },
{
}

/// A payment that the node knows under its index is the answer; otherwise its
/// history is searched.
pub proof fn fetched_payments_are_told(
    identifier: PaymentIdentifier,
    unit: CurrencyUnit,
    payment: Option<Payment>,
    res: Result<CheckStep<MakePaymentResponse, String>, Error>,
)
    requires
        call_ensures(LexeBackend::payment_fetched, (&identifier, unit, payment), res),
    ensures
        match (payment, res) {
            (Some(payment), Ok(CheckStep::Answer(answer))) => is_told(
                Ok(answer),
                identifier,
                unit,
                payment,
            ),
            (Some(payment), Err(error)) => is_told(Err(error), identifier, unit, payment),
            (None, Ok(CheckStep::Search { unit: asked })) => asked == unit,
            _ => false,
        },
{
}

/// A payment that was found in the history is the answer and its index is
/// remembered. One that was not found may still settle, and is pending.
pub proof fn searched_payments_are_told(
    identifier: PaymentIdentifier,
    unit: CurrencyUnit,
    payment: Option<Payment>,
)
    ensures
        forall|backend: &mut LexeBackend, res: Result<MakePaymentResponse, Error>| #[trigger]
            call_ensures(LexeBackend::payment_searched, (backend, &identifier, unit, payment), res)
                ==> {
                let before = (*backend).db@;
                let after = (*final(backend)).db@;
                match (identifier, payment) {
                    (PaymentIdentifier::PaymentHash(hash), Some(payment)) => {
                        &&& is_told(res, identifier, unit, payment)
                        &&& after == (QuoteDatabaseView {
                            melt_payment_ids: before.melt_payment_ids.insert(hash, payment.index@),
                            ..before
                        })
                    },
                    (PaymentIdentifier::PaymentHash(hash), None) => {
                        &&& res matches Ok(answer)
                        &&& is_bare(answer, identifier, unit, MeltQuoteState::Pending)
                        &&& after == before
                    },
                    _ => {
                        &&& res matches Err(error)
                        &&& error == Error::UnsupportedPaymentOption
                        &&& after == before
                    },
                }
            },
{
}

/// Whether a payment of the history is the one that went out under a hash.
pub open spec fn went_out(payment: Payment, hash: [u8; 32]) -> bool {
    payment.direction == PaymentDirection::Outbound && payment.hash == Some(hash)
}

/// A page gives the first payment that went out under the hash. Without one the
/// search goes on while there are pages, and a cursor that stands still is an
/// error.
pub proof fn searches_find_what_went_out(
    hash: [u8; 32],
    after: Option<String>,
    page: Vec<Payment>,
    next: Option<String>,
    res: Result<SearchStep, Error>,
)
    requires
        call_ensures(LexeBackend::find_payment_by_hash, (&hash, &after, &page, &next), res),
    ensures
        match res {
            Ok(SearchStep::Found(at)) => {
                &&& at < page@.len()
                &&& went_out(page@[at as int], hash)
                &&& forall|j: int| 0 <= j < at ==> !went_out(#[trigger] page@[j], hash)
            },
            Ok(SearchStep::Exhausted) => next is None,
            Ok(SearchStep::Continue) => next matches Some(next) && (after matches Some(after)
                ==> after@ != next@),
            Err(error) => {
                &&& next matches Some(next)
                &&& after matches Some(after)
                &&& after@ == next@
                &&& says(error, "Lexe recovery cursor did not advance"@)
            },
        },
        !(res matches Ok(SearchStep::Found(_))) ==> forall|j: int|
            0 <= j < page@.len() ==> !went_out(#[trigger] page@[j], hash),
{
}

/// An outgoing payment is looked up by what is remembered of its hash: under its
/// index where there is one, as failed where it was rejected, by a search where
/// an attempt is all there is, and as unpaid where there is only a quote.
pub proof fn lookups_go_by_what_is_remembered(
    backend: LexeBackend,
    identifier: PaymentIdentifier,
    res: Result<CheckStep<MakePaymentResponse, String>, Error>,
)
    requires
        call_ensures(LexeBackend::check_outgoing_payment, (&backend, &identifier), res),
    ensures
        match identifier {
            PaymentIdentifier::PaymentHash(hash) => {
                let attempt = backend.db@.melt_attempts[hash];
                let index = backend.db@.melt_payment_ids[hash];
                if backend.db@.melt_attempts.dom().contains(hash) {
                    if backend.db@.melt_payment_ids.dom().contains(hash) {
                        match res {
                            Ok(CheckStep::Fetch { index: read, unit }) => {
                                &&& payment_index_read(index) == Ok::<Seq<char>, Seq<char>>(read@)
                                &&& unit == attempt.unit
                            },
                            Err(error) => tells_bad_index(error, index),
                            _ => false,
                        }
                    } else if attempt.submission_rejected {
                        res matches Ok(CheckStep::Answer(answer)) && is_bare(
                            answer,
                            identifier,
                            attempt.unit,
                            MeltQuoteState::Failed,
                        )
                    } else {
                        res matches Ok(CheckStep::Search { unit }) && unit == attempt.unit
                    }
                } else if backend.db@.melt_quotes.dom().contains(hash) {
                    res matches Ok(CheckStep::Answer(answer)) && is_bare(
                        answer,
                        identifier,
                        CurrencyUnit::Sat,
                        MeltQuoteState::Unpaid,
                    )
                } else {
                    res matches Err(error) && says(error, "Outgoing payment not found"@)
                }
            },
            _ => res matches Err(error) && error == Error::UnsupportedPaymentOption,
        },
{
}

/// Whether an error says that a stored index cannot be read, and why.
pub open spec fn tells_bad_index(error: Error, index: Seq<char>) -> bool {
    payment_index_read(index) matches Err(why) && says(
        error,
        "invalid stored Lexe payment index `"@ + index + ("`: "@ + why),
    )
}

/// A stored index is asked for as the node writes it, and one that cannot be read
/// is an error that says why.
pub proof fn stored_indexes_are_read(
    index: &str,
    read: Result<String, String>,
    parsed: Result<String, String>,
    fetched: Result<String, Error>,
    given: Result<String, Error>,
)
    requires
        call_ensures(parse_payment_index, (index,), parsed),
        call_ensures(LexeBackend::fetch_payment, (index,), fetched),
        call_ensures(LexeBackend::index_or_error, (index, read), given),
    ensures
        match (payment_index_read(index@), parsed) {
            (Ok(canonical), Ok(text)) => text@ == canonical,
            (Err(why), Err(words)) => words@ == why,
            _ => false,
        },
        match fetched {
            Ok(text) => payment_index_read(index@) == Ok::<Seq<char>, Seq<char>>(text@),
            Err(error) => tells_bad_index(error, index@),
        },
        match (read, given) {
            (Ok(canonical), Ok(text)) => text@ == canonical@,
            (Err(why), Err(error)) => says(
                error,
                "invalid stored Lexe payment index `"@ + index@ + ("`: "@ + why@),
            ),
            _ => false,
        },
{
}

/// An incoming payment is asked for under the index that was stored with its
/// invoice, and there is nothing to ask where no invoice was created.
pub proof fn incoming_lookups_go_by_what_is_remembered(
    backend: LexeBackend,
    identifier: PaymentIdentifier,
    res: Result<Option<String>, Error>,
)
    requires
        call_ensures(LexeBackend::check_incoming_payment_status, (&backend, &identifier), res),
    ensures
        match identifier {
            PaymentIdentifier::PaymentHash(hash) => {
                let index = backend.db@.mint_payment_ids[hash];
                if backend.db@.mint_payment_ids.dom().contains(hash) {
                    match res {
                        Ok(Some(read)) => payment_index_read(index) == Ok::<Seq<char>, Seq<char>>(
                            read@,
                        ),
                        Ok(None) => false,
                        Err(error) => tells_bad_index(error, index),
                    }
                } else {
                    res matches Ok(None)
                }
            },
            _ => res matches Err(error) && error == Error::UnsupportedPaymentOption,
        },
{
}

/// Whether an answer reports a received payment: the whole satoshis that came,
/// under the node's index.
pub open spec fn reports(
    answer: WaitPaymentResponse,
    identifier: PaymentIdentifier,
    payment: Payment,
) -> bool {
    &&& payment.amount_msat matches Some(msat)
    &&& is_rounded_down(answer.payment_amount, msat as int)
    &&& answer.payment_amount.unit == CurrencyUnit::Sat
    &&& answer.payment_identifier == identifier
    &&& answer.payment_id@ == payment.index@
}

/// Exactly a settled payment is reported as received, with the whole satoshis
/// that came. One without an amount is an error.
pub proof fn received_payments_are_reported_in_full(
    identifier: PaymentIdentifier,
    payment: Option<Payment>,
    res: Result<Option<WaitPaymentResponse>, Error>,
)
    requires
        call_ensures(LexeBackend::incoming_payment_fetched, (&identifier, payment), res),
    ensures
        match payment {
            None => res matches Ok(None),
            Some(payment) => if payment.status != PaymentStatus::Completed {
                res matches Ok(None)
            } else {
                match res {
                    Ok(Some(answer)) => reports(answer, identifier, payment),
                    Ok(None) => false,
                    Err(error) => payment.amount_msat is None && says(
                        error,
                        "inbound payment "@ + payment.index@
                            + " is completed but its amount cannot be determined"@,
                    ),
                }
            },
        },
{
}

/// Whether an update of a payment concerns the mint: it came in for an invoice
/// of this backend and is settled, or it went out by an attempt of a known owner
/// and is settled or failed.
pub open spec fn concerns(db: QuoteDatabaseView, payment: Payment) -> bool {
    &&& payment.hash matches Some(hash)
    &&& match payment.direction {
        PaymentDirection::Inbound => payment.status == PaymentStatus::Completed
            && db.mint_quotes.dom().contains(hash),
        PaymentDirection::Outbound => payment.status != PaymentStatus::Pending
            && db.melt_attempts.dom().contains(hash) && db.melt_attempts[hash].quote_id is Some,
        PaymentDirection::Info => false,
    }
}

/// Whether an event says what an update reports: a payment received with the
/// whole satoshis that came, or the quote that owns the payment settled as the
/// payment was.
pub open spec fn announces(event: Event, db: QuoteDatabaseView, payment: Payment) -> bool {
    let hash = payment.hash->0;
    let attempt = db.melt_attempts[hash];
    let identifier = PaymentIdentifier::PaymentHash(hash);
    match (payment.direction, payment.status, event) {
        (
            PaymentDirection::Inbound,
            PaymentStatus::Completed,
            Event::PaymentReceived(answer),
        ) => reports(answer, identifier, payment),
        (
            PaymentDirection::Outbound,
            PaymentStatus::Completed,
            Event::PaymentSuccessful { quote_id, details },
        ) => {
            &&& attempt.quote_id == Some(quote_id@)
            &&& is_told(Ok(details), identifier, attempt.unit, payment)
        },
        (
            PaymentDirection::Outbound,
            PaymentStatus::Failed,
            Event::PaymentFailed { quote_id, reason },
        ) => attempt.quote_id == Some(quote_id@) && reason@ == payment.status_msg@,
        _ => false,
    }
}

/// Whether an error says why a settled payment cannot be announced.
pub open spec fn tells_unannounced(error: Error, db: QuoteDatabaseView, payment: Payment) -> bool {
    let hash = payment.hash->0;
    match payment.direction {
        PaymentDirection::Inbound => payment.amount_msat is None && says(
            error,
            "inbound payment "@ + payment.index@ + " completed without an amount"@,
        ),
        PaymentDirection::Outbound => is_told(
            Err(error),
            PaymentIdentifier::PaymentHash(hash),
            db.melt_attempts[hash].unit,
            payment,
        ),
        PaymentDirection::Info => false,
    }
}

/// Whether an update is answered by the event it stands for, if it concerns the
/// mint.
pub open spec fn is_announced(
    res: Result<Option<Event>, Error>,
    db: QuoteDatabaseView,
    payment: Payment,
) -> bool {
    match res {
        Ok(Some(event)) => concerns(db, payment) && announces(event, db, payment),
        Ok(None) => !concerns(db, payment),
        Err(error) => concerns(db, payment) && tells_unannounced(error, db, payment),
    }
}

/// Whether an update adds the index of an attempted payment to what is
/// remembered, and nothing else.
pub open spec fn adds_index(
    before: QuoteDatabaseView,
    after: QuoteDatabaseView,
    payment: Payment,
) -> bool {
    if payment.direction == PaymentDirection::Outbound && payment.hash is Some
        && before.melt_attempts.dom().contains(payment.hash->0) {
        after == (QuoteDatabaseView {
            melt_payment_ids: before.melt_payment_ids.insert(payment.hash->0, payment.index@),
            ..before
        })
    } else {
        after == before
    }
}

/// A settled payment is announced as a success and a failed one as a failure, for
/// the quote that owns it. A received payment is announced with what came.
/// Nothing else is announced.
pub proof fn updates_become_the_events_they_report(payment: Payment)
    ensures
        forall|db: &mut QuoteDatabase, res: Result<Option<Event>, Error>| #[trigger]
            call_ensures(map_payment_event, (db, &payment), res) ==> {
                &&& is_announced(res, (*db)@, payment)
                &&& adds_index((*db)@, (*final(db))@, payment)
            },
{
}

/// The stream announces updates in the same way, and passes an update at once
/// only where there is nothing to announce.
pub proof fn streams_pass_what_is_dealt_with(payment: Payment)
    ensures
        forall|
            poller: &mut EventPoller,
            db: &mut QuoteDatabase,
            res: Result<Option<Event>, Error>,
        | #[trigger]
            call_ensures(EventPoller::update, (poller, db, &payment), res) ==> {
                &&& is_announced(res, (*db)@, payment)
                &&& adds_index((*db)@, (*final(db))@, payment)
                &&& (*final(poller)).backoff() == (*poller).backoff()
                &&& (*final(poller)).position() == (if concerns((*db)@, payment) {
                    (*poller).position()
                } else {
                    Some(payment.updated_index@)
                })
            },
        forall|poller: EventPoller, cursor: Option<String>| #[trigger]
            call_ensures(EventPoller::cursor, (&poller,), cursor) ==> match (
                cursor,
                poller.position(),
            ) {
                (Some(text), Some(position)) => text@ == position,
                (None, None) => true,
                _ => false,
            },
        forall|poller: &mut EventPoller, done: ()| #[trigger]
            call_ensures(EventPoller::delivered, (poller, &payment), done) ==> {
                &&& (*final(poller)).position() == Some(payment.updated_index@)
                &&& (*final(poller)).backoff() == (*poller).backoff()
            },
{
}

/// A wait doubles from half a second to half a minute with every failure, and a
/// page that was worked off starts it over. Without more updates the next page is
/// fetched after five seconds.
pub proof fn waits_double_while_fetching_fails()
    ensures
        forall|poller: EventPoller| #[trigger]
            call_ensures(EventPoller::new, (), poller) ==> poller.backoff() == 500
                && poller.position() is None,
        forall|poller: &mut EventPoller, delay_ms: u64| #[trigger]
            call_ensures(EventPoller::fetch_failed, (poller,), delay_ms) ==> {
                let next = (*final(poller)).backoff();
                &&& delay_ms == (*poller).backoff()
                &&& 500 <= delay_ms <= 30_000
                &&& next == 2 * delay_ms || (next == 30_000 && 2 * delay_ms > 30_000)
                &&& next <= 30_000
                &&& (*final(poller)).position() == (*poller).position()
            },
        forall|poller: &mut EventPoller, empty: bool, failed: bool, delay_ms: u64| #[trigger]
            call_ensures(EventPoller::page_done, (poller, empty, failed), delay_ms) ==> {
                let next = (*final(poller)).backoff();
                &&& failed ==> delay_ms == (*poller).backoff() && next == (*poller).backoff()
                &&& !failed ==> delay_ms == (if empty {
                    5_000int
                } else {
                    0
                }) && next == 500
                &&& (*final(poller)).position() == (*poller).position()
            },
{
}

/// A stream counts once while it is active.
pub proof fn streams_count_once(count: usize)
    ensures
        forall|streams: &mut usize, activity: PaymentEventStreamActivity| #[trigger]
            call_ensures(PaymentEventStreamActivity::new, (streams,), activity) && *streams
                < usize::MAX ==> *final(streams) == *streams + 1 && activity.is_active(),
        forall|activity: &mut PaymentEventStreamActivity, streams: &mut usize, done: ()| #[trigger]
            call_ensures(PaymentEventStreamActivity::deactivate, (activity, streams), done) ==> {
                &&& !(*final(activity)).is_active()
                &&& !(*activity).is_active() ==> *final(streams) == *streams
                &&& (*activity).is_active() && *streams > 0 ==> *final(streams) == *streams - 1
            },
        forall|active: bool| #[trigger]
            call_ensures(
                crate::lexe::events::is_payment_event_stream_active,
                (count,),
                active,
            ) ==> active == (count != 0),
{
}

/// Whether the node is asked for an invoice over exactly the satoshis that the mint
/// named, with its description, until the moment that it named.
pub open spec fn asks_for(
    res: Result<InvoiceRequest, Error>,
    options: IncomingPaymentOptions,
    now: u64,
) -> bool {
    match (options, res) {
        (IncomingPaymentOptions::Bolt11(asked), Ok(request)) => {
            &&& asked.amount.unit == CurrencyUnit::Sat
            &&& asked.amount.value > 0
            &&& request.amount_msat == 1000 * asked.amount.value
            &&& match asked.description {
                Some(description) => request.description@ == description@,
                None => request.description@.len() == 0,
            }
            &&& match (asked.unix_expiry, request.expiration_secs) {
                (Some(expiry), Some(secs)) => now + secs == expiry && secs > 0,
                (None, None) => true,
                _ => false,
            }
        },
        (IncomingPaymentOptions::Bolt11(asked), Err(error)) => {
            ||| asked.amount.unit != CurrencyUnit::Sat && error == Error::UnsupportedUnit
            ||| asked.amount.value == 0 && error == Error::AmountMismatch
            ||| asked.unix_expiry matches Some(expiry) && (expiry <= now || expiry > now
                + u32::MAX) && error == Error::InvalidExpiry
            ||| 1000 * asked.amount.value > u64::MAX && says(
                error,
                "invalid invoice amount: "@ + "Amount is too large"@,
            )
        },
        (_, Ok(_)) => false,
        (_, Err(error)) => error == Error::UnsupportedPaymentOption,
    }
}

/// The node is asked for an invoice over exactly the satoshis that the mint named,
/// with its description, until the moment that it named.
pub proof fn requests_ask_for_what_was_named(
    backend: LexeBackend,
    options: IncomingPaymentOptions,
    now: u64,
    res: Result<InvoiceRequest, Error>,
    by_clock: Result<InvoiceRequest, Error>,
)
    requires
        call_ensures(LexeBackend::invoice_request_at, (options, now), res),
        call_ensures(
            LexeBackend::create_incoming_payment_request,
            (&backend, options),
            by_clock,
        ),
    ensures
        asks_for(res, options, now),
        exists|at: u64| #[trigger] asks_for(by_clock, options, at),
{
    let at = choose|at: u64|
        crate::payment::result_view(by_clock) == #[trigger] crate::lexe::backend::invoice_request(
            options,
            at,
        );
    assert(asks_for(by_clock, options, at));
}

/// Whether what is remembered was added to by a created invoice and its index,
/// and by nothing else.
pub open spec fn adds_invoice(
    before: QuoteDatabaseView,
    after: QuoteDatabaseView,
    hash: [u8; 32],
    invoice: Seq<char>,
    index: Seq<char>,
) -> bool {
    after == (QuoteDatabaseView {
        mint_quotes: before.mint_quotes.insert(hash, invoice),
        mint_payment_ids: before.mint_payment_ids.insert(hash, index),
        ..before
    })
}

/// A created invoice is handed on as it is, looked up under its hash, and
/// remembered with its index. A text that is no invoice is refused.
pub proof fn created_invoices_are_handed_on(
    hash: [u8; 32],
    invoice: &str,
    index: &str,
    unix_expiry: Option<u64>,
)
    ensures
        forall|backend: &mut LexeBackend, response: CreateIncomingPaymentResponse| #[trigger]
            call_ensures(
                LexeBackend::record_invoice,
                (backend, &hash, invoice, index, unix_expiry),
                response,
            ) ==> {
                &&& response.request_lookup_id == PaymentIdentifier::PaymentHash(hash)
                &&& response.request@ == invoice@
                &&& response.expiry == unix_expiry
                &&& adds_invoice(
                    (*backend).db@,
                    (*final(backend)).db@,
                    hash,
                    invoice@,
                    index@,
                )
            },
        forall|
            backend: &mut LexeBackend,
            res: Result<CreateIncomingPaymentResponse, Error>,
        | #[trigger]
            call_ensures(
                LexeBackend::invoice_created,
                (backend, invoice, index, unix_expiry),
                res,
            ) ==> match (bolt11_read(invoice@), res) {
                (Ok((_, bytes, _, _)), Ok(response)) => {
                    &&& response.request_lookup_id matches PaymentIdentifier::PaymentHash(array)
                    &&& array@ == bytes
                    &&& response.request@ == invoice@
                    &&& response.expiry == unix_expiry
                    &&& adds_invoice(
                        (*backend).db@,
                        (*final(backend)).db@,
                        array,
                        invoice@,
                        index@,
                    )
                },
                (Err(words), Err(Error::Parse(text))) => text@ == words
                    && (*final(backend)).db@ == (*backend).db@,
                _ => false,
            },
{
}

/// Whether an invoice is over so many whole satoshis.
pub open spec fn is_over(amount_msat: Option<u64>, sats: u64) -> bool {
    amount_msat matches Some(msat) && msat == 1000 * sats && sats > 0
}

/// The amount of an invoice is read where it is a positive number of whole
/// satoshis, and nowhere else.
pub proof fn invoices_are_over_whole_satoshis(invoice: Bolt11Invoice, res: Result<u64, Error>)
    requires
        call_ensures(LexeBackend::invoice_amount_sats, (&invoice,), res),
    ensures
        match res {
            Ok(sats) => is_over(invoice.amount_msat, sats),
            Err(error) => error == Error::AmountMismatch && forall|sats: u64|
                !#[trigger] is_over(invoice.amount_msat, sats),
        },
{
}

/// Whether a fee is estimated: no less than the share of the amount in millionths
/// and no less than the minimum, where it fits; the share rounded up or the
/// minimum.
pub open spec fn estimates(fee: u64, amount_sats: u64, ppm: u32, min_sat: u64) -> bool {
    let share = amount_sats * ppm;
    &&& fee >= min_sat
    &&& 1_000_000 * fee >= share || fee == u64::MAX
    &&& fee == min_sat || 1_000_000 * fee < share + 1_000_000
}

/// The estimated fee is the larger of the share, rounded up, and the minimum.
pub proof fn fees_cover_share_and_minimum(amount_sats: u64, ppm: u32, min_sat: u64, fee: u64)
    requires
        call_ensures(LexeBackend::estimate_fee_sats, (amount_sats, ppm, min_sat), fee),
    ensures
        estimates(fee, amount_sats, ppm, min_sat),
{
    lemma_estimate(amount_sats, ppm, min_sat, fee);
}

proof fn lemma_estimate(amount_sats: u64, ppm: u32, min_sat: u64, fee: u64)
    requires
        fee == crate::lexe::backend::fee_estimate(
            amount_sats as int,
            ppm as int,
            min_sat as int,
        ),
    ensures
        estimates(fee, amount_sats, ppm, min_sat),
{
    let share = amount_sats * ppm;
    assert(share >= 0) by (nonlinear_arith)
        requires
            share == amount_sats * ppm,
    ;
    assert(share == amount_sats as int * ppm as int);
}

/// A quote is over exactly the satoshis of the invoice, whose hash it names, with
/// the estimated fee, and the invoice is remembered. It is not paid yet.
pub proof fn quotes_are_over_what_is_due(unit: CurrencyUnit, options: OutgoingPaymentOptions)
    ensures
        forall|backend: &mut LexeBackend, res: Result<PaymentQuoteResponse, Error>| #[trigger]
            call_ensures(LexeBackend::get_payment_quote, (backend, &unit, &options), res) ==> {
                let before = (*backend).db@;
                let after = (*final(backend)).db@;
                match (options, res) {
                    (OutgoingPaymentOptions::Bolt11(asked), Ok(quote)) => {
                        &&& unit == CurrencyUnit::Sat
                        &&& is_over(asked.bolt11.amount_msat, quote.amount.value)
                        &&& quote.amount.unit == CurrencyUnit::Sat
                        &&& estimates(
                            quote.fee.value,
                            quote.amount.value,
                            (*backend).fee_reserve_ppm,
                            (*backend).fee_reserve_min_sat,
                        )
                        &&& quote.fee.unit == CurrencyUnit::Sat
                        &&& quote.request_lookup_id == Some(
                            PaymentIdentifier::PaymentHash(asked.bolt11.payment_hash),
                        )
                        &&& quote.state == MeltQuoteState::Unpaid
                        &&& after == (QuoteDatabaseView {
                            melt_quotes: before.melt_quotes.insert(
                                asked.bolt11.payment_hash,
                                asked.bolt11.text@,
                            ),
                            ..before
                        })
                    },
                    (OutgoingPaymentOptions::Bolt11(asked), Err(error)) => {
                        &&& after == before
                        &&& {
                            ||| unit != CurrencyUnit::Sat && error == Error::UnsupportedUnit
                            ||| error == Error::AmountMismatch && forall|sats: u64|
                                !#[trigger] is_over(asked.bolt11.amount_msat, sats)
                        }
                    },
                    (_, Ok(_)) => false,
                    (_, Err(error)) => after == before && error == (if unit == CurrencyUnit::Sat {
                        Error::UnsupportedPaymentOption
                    } else {
                        Error::UnsupportedUnit
                    }),
                }
            },
{
    assert forall|backend: &mut LexeBackend, res: Result<PaymentQuoteResponse, Error>| #[trigger]
        call_ensures(LexeBackend::get_payment_quote, (backend, &unit, &options), res) && res
            is Ok implies estimates(
        res->Ok_0.fee.value,
        res->Ok_0.amount.value,
        (*backend).fee_reserve_ppm,
        (*backend).fee_reserve_min_sat,
    ) by {
        let quote = res->Ok_0;
        let ppm = (*backend).fee_reserve_ppm;
        let min_sat = (*backend).fee_reserve_min_sat;
        lemma_estimate_fits(quote.amount.value, ppm, min_sat);
        lemma_estimate(quote.amount.value, ppm, min_sat, quote.fee.value);
    }
}

proof fn lemma_estimate_fits(amount_sats: u64, ppm: u32, min_sat: u64)
    ensures
        0 <= crate::lexe::backend::fee_estimate(
            amount_sats as int,
            ppm as int,
            min_sat as int,
        ) <= u64::MAX,
{
    assert(amount_sats as int * ppm as int >= 0) by (nonlinear_arith);
}

/// Whether a payment begins, is looked up or is refused as the mint asked: an
/// invoice over whole satoshis that was never tried is submitted as it is, for
/// as long as the mint says, and recorded first for its quote. One that was tried
/// is looked up. A fee limit, chosen amounts and what the SDK refuses are
/// refused, and the invoice is remembered as quoted.
pub open spec fn begins_as_asked(
    res: Result<PaymentStep<String>, Error>,
    backend: LexeBackend,
    later: LexeBackend,
    unit: CurrencyUnit,
    options: OutgoingPaymentOptions,
    refusal: Option<Seq<char>>,
) -> bool {
    let before = backend.db@;
    let after = later.db@;
    match options {
        OutgoingPaymentOptions::Bolt11(asked) => {
            let hash = asked.bolt11.payment_hash;
            let tried = before.melt_attempts.dom().contains(hash);
            let quoted = QuoteDatabaseView {
                melt_quotes: before.melt_quotes.insert(hash, asked.bolt11.text@),
                ..before
            };
            match res {
                Ok(PaymentStep::Submit { payment_hash, invoice, timeout_secs }) => {
                    &&& unit == CurrencyUnit::Sat
                    &&& exists|sats: u64| #[trigger] is_over(asked.bolt11.amount_msat, sats)
                    &&& !tried
                    &&& asked.max_fee_amount is None
                    &&& asked.melt_options is None
                    &&& refusal is None
                    &&& payment_hash == hash
                    &&& invoice@ == asked.bolt11.text@
                    &&& timeout_secs == (match asked.timeout_secs {
                        Some(secs) => secs,
                        None => backend.payment_timeout_secs,
                    })
                    &&& after.melt_attempts == before.melt_attempts.insert(
                        hash,
                        after.melt_attempts[hash],
                    )
                    &&& after.melt_attempts[hash].quote_id == Some(asked.quote_id@)
                    &&& after.melt_attempts[hash].unit == CurrencyUnit::Sat
                    &&& !after.melt_attempts[hash].submission_rejected
                    &&& after == (QuoteDatabaseView {
                        melt_attempts: after.melt_attempts,
                        ..quoted
                    })
                },
                Ok(PaymentStep::Reconcile) => {
                    &&& unit == CurrencyUnit::Sat
                    &&& tried
                    &&& after == quoted
                },
                Err(error) => {
                    ||| unit != CurrencyUnit::Sat && error == Error::UnsupportedUnit && after
                        == before
                    ||| error == Error::AmountMismatch && after == before && forall|sats: u64|
                        !#[trigger] is_over(asked.bolt11.amount_msat, sats)
                    ||| !tried && after == quoted && asked.max_fee_amount is Some && says(
                        error,
                        "Lexe SDK cannot enforce max_fee_amount; capped outgoing payments are unsupported"@,
                    )
                    ||| !tried && after == quoted && asked.melt_options is Some && error
                        == Error::UnsupportedPaymentOption
                    ||| !tried && after == quoted && refusal is Some && says(
                        error,
                        "failed to parse outgoing invoice for Lexe: "@ + refusal->0,
                    )
                },
            }
        },
        _ => {
            &&& after == before
            &&& res matches Err(error)
            &&& error == (if unit == CurrencyUnit::Sat {
                Error::UnsupportedPaymentOption
            } else {
                Error::UnsupportedUnit
            })
        },
    }
}

/// A payment begins as the mint asked, whatever the SDK says of its invoice.
pub proof fn payments_begin_as_asked(
    unit: CurrencyUnit,
    options: OutgoingPaymentOptions,
    refusal: Option<String>,
)
    ensures
        forall|backend: &mut LexeBackend, res: Result<PaymentStep<String>, Error>| #[trigger]
            call_ensures(LexeBackend::begin_payment, (backend, &unit, &options, refusal), res)
                ==> begins_as_asked(
                res,
                *backend,
                *final(backend),
                unit,
                options,
                match refusal {
                    Some(words) => Some(words@),
                    None => None,
                },
            ),
        forall|backend: &mut LexeBackend, res: Result<PaymentStep<String>, Error>| #[trigger]
            call_ensures(LexeBackend::make_payment, (backend, &unit, &options), res)
                ==> begins_as_asked(
                res,
                *backend,
                *final(backend),
                unit,
                options,
                match options {
                    OutgoingPaymentOptions::Bolt11(asked) => invoice_refusal(asked.bolt11.text@),
                    _ => None,
                },
            ),
{
    assert forall|backend: &mut LexeBackend, res: Result<PaymentStep<String>, Error>| #[trigger]
        call_ensures(
            LexeBackend::begin_payment,
            (backend, &unit, &options, refusal),
            res,
        ) implies begins_as_asked(
        res,
        *backend,
        *final(backend),
        unit,
        options,
        match refusal {
            Some(words) => Some(words@),
            None => None,
        },
    ) by {
        lemma_amount_is_over(options);
    }
    assert forall|backend: &mut LexeBackend, res: Result<PaymentStep<String>, Error>| #[trigger]
        call_ensures(
            LexeBackend::make_payment,
            (backend, &unit, &options),
            res,
        ) implies begins_as_asked(
        res,
        *backend,
        *final(backend),
        unit,
        options,
        match options {
            OutgoingPaymentOptions::Bolt11(asked) => invoice_refusal(asked.bolt11.text@),
            _ => None,
        },
    ) by {
        lemma_amount_is_over(options);
    }
}

proof fn lemma_amount_is_over(options: OutgoingPaymentOptions)
    ensures
        options matches OutgoingPaymentOptions::Bolt11(asked) ==> {
            let whole = crate::lexe::backend::whole_sats(asked.bolt11.amount_msat);
            &&& whole matches Some(sats) ==> is_over(asked.bolt11.amount_msat, sats)
            &&& whole is None ==> forall|sats: u64|
                !#[trigger] is_over(asked.bolt11.amount_msat, sats)
        },
{
}

/// An accepted payment is waited for and its index is remembered. A rejection is
/// recorded for an attempt without an index, and refused for any other. Anything
/// ambiguous changes nothing.
pub proof fn submissions_are_recorded_as_they_end(hash: [u8; 32], outcome: SubmissionOutcome)
    ensures
        forall|backend: &mut LexeBackend, res: Result<AfterSubmission<String>, Error>| #[trigger]
            call_ensures(LexeBackend::submission_done, (backend, &hash, outcome), res) ==> {
                let before = (*backend).db@;
                let after = (*final(backend)).db@;
                let attempts = before.melt_attempts;
                match (outcome, res) {
                    (
                        SubmissionOutcome::Accepted(given),
                        Ok(AfterSubmission::AwaitSettlement { index }),
                    ) => {
                        &&& index@ == given@
                        &&& after == (QuoteDatabaseView {
                            melt_payment_ids: before.melt_payment_ids.insert(hash, given@),
                            ..before
                        })
                    },
                    (
                        SubmissionOutcome::Failed(SubmissionError::Rejected(_)),
                        Ok(AfterSubmission::Reconcile),
                    ) => {
                        &&& attempts.dom().contains(hash)
                        &&& !before.melt_payment_ids.dom().contains(hash)
                        &&& after.melt_attempts[hash].submission_rejected
                        &&& after.melt_attempts[hash].quote_id == attempts[hash].quote_id
                        &&& after.melt_attempts[hash].unit == attempts[hash].unit
                        &&& after == (QuoteDatabaseView {
                            melt_attempts: attempts.insert(hash, after.melt_attempts[hash]),
                            ..before
                        })
                    },
                    (SubmissionOutcome::Failed(SubmissionError::Rejected(_)), Err(error)) => {
                        &&& after == before
                        &&& if before.melt_payment_ids.dom().contains(hash) {
                            says(error, "Cannot reject an attempt with a remote payment index"@)
                        } else {
                            !attempts.dom().contains(hash) && says(
                                error,
                                "Outgoing attempt not found"@,
                            )
                        }
                    },
                    (
                        SubmissionOutcome::Failed(SubmissionError::Ambiguous(_)),
                        Ok(AfterSubmission::Reconcile),
                    ) => after == before,
                    (SubmissionOutcome::TimedOut, Ok(AfterSubmission::Reconcile)) => after
                        == before,
                    _ => false,
                }
            },
{
}

/// Whether two backends are configured alike.
pub open spec fn is_configured_alike(a: LexeBackend, b: LexeBackend) -> bool {
    &&& a.fee_reserve_ppm == b.fee_reserve_ppm
    &&& a.fee_reserve_min_sat == b.fee_reserve_min_sat
    &&& a.payment_timeout_secs == b.payment_timeout_secs
}

/// No operation changes how the backend is configured.
pub proof fn operations_keep_the_configuration(
    hash: [u8; 32],
    invoice: &str,
    index: &str,
    unix_expiry: Option<u64>,
    unit: CurrencyUnit,
    options: OutgoingPaymentOptions,
    refusal: Option<String>,
    outcome: SubmissionOutcome,
    identifier: PaymentIdentifier,
    payment: Option<Payment>,
)
    ensures
        forall|backend: &mut LexeBackend, res: CreateIncomingPaymentResponse| #[trigger]
            call_ensures(
                LexeBackend::record_invoice,
                (backend, &hash, invoice, index, unix_expiry),
                res,
            ) ==> is_configured_alike(*backend, *final(backend)),
        forall|
            backend: &mut LexeBackend,
            res: Result<CreateIncomingPaymentResponse, Error>,
        | #[trigger]
            call_ensures(
                LexeBackend::invoice_created,
                (backend, invoice, index, unix_expiry),
                res,
            ) ==> is_configured_alike(*backend, *final(backend)),
        forall|backend: &mut LexeBackend, res: Result<PaymentQuoteResponse, Error>| #[trigger]
            call_ensures(LexeBackend::get_payment_quote, (backend, &unit, &options), res)
                ==> is_configured_alike(*backend, *final(backend)),
        forall|backend: &mut LexeBackend, res: Result<PaymentStep<String>, Error>| #[trigger]
            call_ensures(LexeBackend::make_payment, (backend, &unit, &options), res)
                ==> is_configured_alike(*backend, *final(backend)),
        forall|backend: &mut LexeBackend, res: Result<PaymentStep<String>, Error>| #[trigger]
            call_ensures(LexeBackend::begin_payment, (backend, &unit, &options, refusal), res)
                ==> is_configured_alike(*backend, *final(backend)),
        forall|backend: &mut LexeBackend, res: Result<AfterSubmission<String>, Error>| #[trigger]
            call_ensures(LexeBackend::submission_done, (backend, &hash, outcome), res)
                ==> is_configured_alike(*backend, *final(backend)),
        forall|backend: &mut LexeBackend, res: Result<MakePaymentResponse, Error>| #[trigger]
            call_ensures(LexeBackend::payment_searched, (backend, &identifier, unit, payment), res)
                ==> is_configured_alike(*backend, *final(backend)),
{
}

/// Exactly the errors that come before a node acts prove a rejection: the request
/// was not built, not connected, malformed, or not authorised. The words are
/// handed on.
pub proof fn only_errors_before_acting_reject(
    kind: NodeErrorKind,
    message: String,
    res: SubmissionError,
)
    requires
        call_ensures(SubmissionError::from_node_error, (kind, message), res),
    ensures
        match kind {
            NodeErrorKind::Building => res == SubmissionError::Rejected(message),
            NodeErrorKind::Connect => res == SubmissionError::Rejected(message),
            NodeErrorKind::Rejection => res == SubmissionError::Rejected(message),
            NodeErrorKind::ClientAuth => res == SubmissionError::Rejected(message),
            NodeErrorKind::InsufficientScope => res == SubmissionError::Rejected(message),
            NodeErrorKind::BadAuth => res == SubmissionError::Rejected(message),
            _ => res == SubmissionError::Ambiguous(message),
        },
{
}

/// The code of an error, where this library knows it.
pub open spec fn code_of(kind: NodeErrorKind) -> u16 {
    match kind {
        NodeErrorKind::Unknown(code) => code,
        NodeErrorKind::UnknownReqwest => 1,
        NodeErrorKind::Building => 2,
        NodeErrorKind::Connect => 3,
        NodeErrorKind::Timeout => 4,
        NodeErrorKind::Decode => 5,
        NodeErrorKind::Server => 6,
        NodeErrorKind::Rejection => 7,
        NodeErrorKind::AtCapacity => 8,
        NodeErrorKind::ClientAuth => 9,
        NodeErrorKind::InsufficientScope => 10,
        NodeErrorKind::General => 11,
        NodeErrorKind::WrongUserPk => 100,
        NodeErrorKind::WrongNodePk => 101,
        NodeErrorKind::WrongMeasurement => 102,
        NodeErrorKind::Provision => 103,
        NodeErrorKind::BadAuth => 104,
        NodeErrorKind::Proxy => 105,
        NodeErrorKind::Command => 106,
        NodeErrorKind::NotFound => 107,
    }
}

/// A code gives the kind that has it, and stays unknown only where no kind has
/// it.
pub proof fn codes_name_their_kinds(code: u16, kind: NodeErrorKind)
    requires
        call_ensures(NodeErrorKind::from_code, (code,), kind),
    ensures
        code_of(kind) == code,
        kind is Unknown ==> !(1 <= code <= 11 || 100 <= code <= 107),
{
}

/// A payment is looked up under its hash and under nothing else.
pub proof fn payments_are_looked_up_by_hash(
    identifier: PaymentIdentifier,
    res: Result<[u8; 32], Error>,
)
    requires
        call_ensures(LexeBackend::payment_hash_of, (&identifier,), res),
    ensures
        match res {
            Ok(hash) => identifier == PaymentIdentifier::PaymentHash(hash),
            Err(error) => !(identifier is PaymentHash) && error == Error::UnsupportedPaymentOption,
        },
{
}

/// The backend works in satoshis and in nothing else, on invoices with an amount,
/// and pays no parts.
pub proof fn settings_name_what_is_supported(
    backend: LexeBackend,
    unit: CurrencyUnit,
    settings: SettingsResponse,
    res: Result<(), Error>,
)
    requires
        call_ensures(LexeBackend::get_settings, (&backend,), settings),
        call_ensures(LexeBackend::ensure_supported_unit, (&unit,), res),
    ensures
        settings.unit@ == "sat"@,
        settings.bolt11 matches Some(bolt11) && !bolt11.mpp && !bolt11.amountless
            && bolt11.invoice_description,
        settings.bolt12 is None,
        settings.onchain is None,
        settings.custom@.len() == 0,
        res is Ok <==> unit == CurrencyUnit::Sat,
        res matches Err(error) ==> error == Error::UnsupportedUnit,
{
}

/// What is stored is stored under its hash, in its own table, and nothing else
/// changes.
pub proof fn writes_go_where_they_belong(
    hash: [u8; 32],
    text: &str,
    index: &str,
    unit: CurrencyUnit,
)
    ensures
        forall|db: &mut QuoteDatabase, done: ()| #[trigger]
            call_ensures(QuoteDatabase::insert_mint_quote, (db, &hash, text), done)
                ==> (*final(db))@ == (QuoteDatabaseView {
                mint_quotes: (*db)@.mint_quotes.insert(hash, text@),
                ..(*db)@
            }),
        forall|db: &mut QuoteDatabase, done: ()| #[trigger]
            call_ensures(QuoteDatabase::insert_mint_payment_id, (db, &hash, text), done)
                ==> (*final(db))@ == (QuoteDatabaseView {
                mint_payment_ids: (*db)@.mint_payment_ids.insert(hash, text@),
                ..(*db)@
            }),
        forall|db: &mut QuoteDatabase, done: ()| #[trigger]
            call_ensures(QuoteDatabase::insert_mint_mappings, (db, &hash, text, index), done)
                ==> adds_invoice((*db)@, (*final(db))@, hash, text@, index@),
        forall|db: &mut QuoteDatabase, done: ()| #[trigger]
            call_ensures(
                QuoteDatabase::insert_mint_quote_and_payment_id,
                (db, &hash, text, index),
                done,
            ) ==> adds_invoice((*db)@, (*final(db))@, hash, text@, index@),
        forall|db: &mut QuoteDatabase, done: ()| #[trigger]
            call_ensures(QuoteDatabase::insert_melt_quote, (db, &hash, text), done)
                ==> (*final(db))@ == (QuoteDatabaseView {
                melt_quotes: (*db)@.melt_quotes.insert(hash, text@),
                ..(*db)@
            }),
        forall|db: &mut QuoteDatabase, done: ()| #[trigger]
            call_ensures(QuoteDatabase::insert_melt_payment_id, (db, &hash, text), done)
                ==> (*final(db))@ == (QuoteDatabaseView {
                melt_payment_ids: (*db)@.melt_payment_ids.insert(hash, text@),
                ..(*db)@
            }),
        forall|db: &mut QuoteDatabase, claimed: bool| #[trigger]
            call_ensures(QuoteDatabase::begin_melt_attempt, (db, &hash, text, &unit), claimed)
                ==> {
                let after = (*final(db))@;
                &&& claimed <==> !(*db)@.melt_attempts.dom().contains(hash)
                &&& !claimed ==> after == (*db)@
                &&& claimed ==> {
                    &&& after.melt_attempts[hash].quote_id == Some(text@)
                    &&& after.melt_attempts[hash].unit == unit
                    &&& !after.melt_attempts[hash].submission_rejected
                    &&& after == (QuoteDatabaseView {
                        melt_attempts: (*db)@.melt_attempts.insert(
                            hash,
                            after.melt_attempts[hash],
                        ),
                        ..(*db)@
                    })
                }
            },
        forall|db: &mut QuoteDatabase, res: Result<(), RejectError>| #[trigger]
            call_ensures(QuoteDatabase::reject_melt_attempt, (db, &hash), res) ==> {
                let before = (*db)@;
                let after = (*final(db))@;
                match res {
                    Ok(_) => {
                        &&& before.melt_attempts.dom().contains(hash)
                        &&& !before.melt_payment_ids.dom().contains(hash)
                        &&& after.melt_attempts[hash].submission_rejected
                        &&& after.melt_attempts[hash].quote_id
                            == before.melt_attempts[hash].quote_id
                        &&& after.melt_attempts[hash].unit == before.melt_attempts[hash].unit
                    },
                    Err(RejectError::RemoteIndexKnown) => {
                        before.melt_payment_ids.dom().contains(hash) && after == before
                    },
                    Err(RejectError::AttemptNotFound) => {
                        &&& !before.melt_payment_ids.dom().contains(hash)
                        &&& !before.melt_attempts.dom().contains(hash)
                        &&& after == before
                    },
                }
            },
{
}

/// Whether a text was read under a hash: the one that is stored, if there is one.
pub open spec fn was_read(
    res: Option<String>,
    table: Map<[u8; 32], Seq<char>>,
    hash: [u8; 32],
) -> bool {
    match res {
        Some(text) => table.dom().contains(hash) && table[hash] == text@,
        None => !table.dom().contains(hash),
    }
}

/// What is stored under a hash is read from its own table.
pub proof fn reads_come_from_where_they_belong(
    db: QuoteDatabase,
    hash: [u8; 32],
    mint_quote: Option<String>,
    mint_payment_id: Option<String>,
    melt_quote: Option<String>,
    melt_payment_id: Option<String>,
    attempt: Option<MeltAttempt>,
)
    requires
        call_ensures(QuoteDatabase::get_mint_quote, (&db, &hash), mint_quote),
        call_ensures(QuoteDatabase::get_mint_payment_id, (&db, &hash), mint_payment_id),
        call_ensures(QuoteDatabase::get_melt_quote, (&db, &hash), melt_quote),
        call_ensures(QuoteDatabase::get_melt_payment_id, (&db, &hash), melt_payment_id),
        call_ensures(QuoteDatabase::get_melt_attempt, (&db, &hash), attempt),
    ensures
        was_read(mint_quote, db@.mint_quotes, hash),
        was_read(mint_payment_id, db@.mint_payment_ids, hash),
        was_read(melt_quote, db@.melt_quotes, hash),
        was_read(melt_payment_id, db@.melt_payment_ids, hash),
        match attempt {
            Some(attempt) => {
                let known = db@.melt_attempts[hash];
                &&& db@.melt_attempts.dom().contains(hash)
                &&& attempt.unit == known.unit
                &&& attempt.submission_rejected == known.submission_rejected
                &&& match attempt.quote_id {
                    Some(quote_id) => known.quote_id == Some(quote_id@),
                    None => known.quote_id is None,
                }
            },
            None => !db@.melt_attempts.dom().contains(hash),
        },
{
}

/// Whether a quote counts as an attempt of its recorded owner, or of nobody in
/// satoshis, and whether any other attempt stays as it was.
pub open spec fn is_migrated(
    before: QuoteDatabaseView,
    after: QuoteDatabaseView,
    hash: [u8; 32],
) -> bool {
    let attempt = after.melt_attempts[hash];
    let has_attempt = after.melt_attempts.dom().contains(hash);
    if before.melt_quotes.dom().contains(hash) {
        if before.melt_owners.dom().contains(hash) {
            has_attempt && attempt == before.melt_owners[hash]
        } else {
            &&& has_attempt
            &&& attempt.quote_id is None
            &&& attempt.unit == CurrencyUnit::Sat
            &&& !attempt.submission_rejected
        }
    } else if before.melt_attempts.dom().contains(hash) {
        has_attempt && attempt == before.melt_attempts[hash]
    } else {
        !has_attempt
    }
}

/// A database that was opened before opens as it is. In an older one every quote
/// counts as an attempt of its recorded owner, or of nobody in satoshis, and
/// nothing else changes.
pub proof fn older_databases_are_migrated_once(tables: QuoteTables, db: QuoteDatabase)
    requires
        call_ensures(QuoteDatabase::new, (tables,), db),
    ensures
        db@.attempts_migrated,
        db@ == (QuoteDatabaseView {
            melt_attempts: db@.melt_attempts,
            attempts_migrated: true,
            ..tables@
        }),
        tables@.attempts_migrated ==> db@.melt_attempts == tables@.melt_attempts,
        !tables@.attempts_migrated ==> forall|hash: [u8; 32]| #[trigger]
            is_migrated(tables@, db@, hash),
{
}

/// An attempt is read as it was stored, and is rejected only where that was stored.
/// Tables begin empty, and are written out as they are.
pub proof fn tables_are_stored_as_they_are(
    quote_id: Option<String>,
    unit: CurrencyUnit,
    submission_rejected: Option<bool>,
    attempts_migrated: bool,
    db: QuoteDatabase,
    attempt: MeltAttempt,
    empty: QuoteTables,
    written: &QuoteTables,
)
    requires
        call_ensures(MeltAttempt::from_stored, (quote_id, unit, submission_rejected), attempt),
        call_ensures(QuoteTables::empty, (attempts_migrated,), empty),
        call_ensures(QuoteDatabase::tables, (&db,), written),
    ensures
        attempt.quote_id == quote_id,
        attempt.unit == unit,
        attempt.submission_rejected <==> submission_rejected == Some(true),
        empty@.attempts_migrated == attempts_migrated,
        forall|hash: [u8; 32]|
            #![trigger empty@.melt_attempts.dom().contains(hash)]
            {
                &&& !empty@.mint_quotes.dom().contains(hash)
                &&& !empty@.mint_payment_ids.dom().contains(hash)
                &&& !empty@.melt_quotes.dom().contains(hash)
                &&& !empty@.melt_payment_ids.dom().contains(hash)
                &&& !empty@.melt_owners.dom().contains(hash)
                &&& !empty@.melt_attempts.dom().contains(hash)
            },
        written@ == db@,
{
}

/// Errors say in words what is wrong.
pub proof fn errors_say_what_is_wrong(
    reject: RejectError,
    rejected: String,
    credentials: CredentialsError,
    refused: String,
    config: ConfigError<String>,
    invalid: String,
)
    requires
        call_ensures(RejectError::message, (&reject,), rejected),
        call_ensures(CredentialsError::message, (&credentials,), refused),
        call_ensures(ConfigError::<String>::message, (&config,), invalid),
    ensures
        match reject {
            RejectError::RemoteIndexKnown => rejected@
                == "Cannot reject an attempt with a remote payment index"@,
            RejectError::AttemptNotFound => rejected@ == "Outgoing attempt not found"@,
        },
        match credentials {
            CredentialsError::NotBase64 => refused@ == "client credentials are not valid base64"@,
            CredentialsError::NotCredentials => refused@
                == "client credentials are not a valid SDK credentials blob"@,
        },
        match config {
            ConfigError::BothCredentials => invalid@
                == "set either LEXE_CLIENT_CREDENTIALS or LEXE_SEED_PHRASE, not both"@,
            ConfigError::MissingCredentials => invalid@
                == "missing credentials: set LEXE_CLIENT_CREDENTIALS (base64 SDK client credentials from the Lexe app, Menu → SDK clients) or LEXE_SEED_PHRASE (BIP39)"@,
            ConfigError::InvalidNetwork(network) => invalid@ == "invalid LEXE_NETWORK `"@ + network@
                + "`; expected one of: mainnet, testnet3, regtest"@,
        },
{
}

/// Whether a secret is given: a text that is more than space.
pub open spec fn is_given(secret: Option<String>) -> bool {
    secret matches Some(text) && trimmed(text@).len() > 0
}

/// A configuration is accepted exactly where it gives one of the two secrets and
/// names a network, in letters of any case.
pub proof fn accepted_configurations_give_one_secret(
    config: Config,
    res: Result<(), ConfigError<String>>,
)
    requires
        call_ensures(validate, (&config,), res),
    ensures
        ({
            let name = lower(config.lexe.network@);
            let known = name == "mainnet"@ || name == "testnet3"@ || name == "regtest"@;
            let client = is_given(config.lexe.client_credentials);
            let seed = is_given(config.lexe.seed_phrase);
            match res {
                Ok(_) => client != seed && known,
                Err(ConfigError::BothCredentials) => client && seed,
                Err(ConfigError::MissingCredentials) => !client && !seed,
                Err(ConfigError::InvalidNetwork(network)) => {
                    client != seed && !known && network@ == config.lexe.network@
                },
            }
        }),
{
}

/// A wallet is opened with the client credentials where they are given, and
/// otherwise with the seed phrase.
pub proof fn wallets_are_opened_with_what_is_given(
    config: BackendConfig,
    res: Result<WalletCredentials, String>,
)
    requires
        call_ensures(wallet_credentials, (&config,), res),
    ensures
        match res {
            Ok(WalletCredentials::Client(text)) => is_given(config.client_credentials) && text@
                == trimmed(config.client_credentials->0@),
            Ok(WalletCredentials::Seed(text)) => !is_given(config.client_credentials)
                && config.seed_phrase is Some && text@ == trimmed(config.seed_phrase->0@),
            Err(words) => !is_given(config.client_credentials) && config.seed_phrase is None
                && words@ == "lexe credentials missing: set client_credentials or seed_phrase"@,
        },
{
}

/// Client credentials are read from a text without the space around it, where it is
/// base64 and the SDK accepts it.
pub proof fn client_credentials_are_read(
    raw: &str,
    is_base64: bool,
    read: Option<lexe::types::auth::ClientCredentials>,
    decoded: Result<lexe::types::auth::ClientCredentials, CredentialsError>,
    given: Result<lexe::types::auth::ClientCredentials, CredentialsError>,
)
    requires
        call_ensures(decode_client_credentials, (raw,), decoded),
        call_ensures(credentials_or_refusal, (is_base64, read), given),
    ensures
        match decoded {
            Ok(credentials) => base64_bytes(trimmed(raw@)) is Some && credentials_read(
                trimmed(raw@),
            ) == Some(credentials),
            Err(CredentialsError::NotBase64) => base64_bytes(trimmed(raw@)) is None,
            Err(CredentialsError::NotCredentials) => base64_bytes(trimmed(raw@)) is Some
                && credentials_read(trimmed(raw@)) is None,
        },
        match given {
            Ok(credentials) => is_base64 && read == Some(credentials),
            Err(CredentialsError::NotBase64) => !is_base64,
            Err(CredentialsError::NotCredentials) => is_base64 && read is None,
        },
{
}

/// A seed is that of the mnemonic which a phrase is, without the space around it,
/// and a phrase that is none is refused in the words of its reader.
pub proof fn seeds_are_those_of_their_phrases(
    raw: &str,
    read: Result<lexe::bip39::Mnemonic, String>,
    decoded: Result<lexe::types::auth::RootSeed, String>,
    given: Result<lexe::types::auth::RootSeed, String>,
)
    requires
        call_ensures(decode_seed_phrase, (raw,), decoded),
        call_ensures(seed_or_refusal, (read,), given),
    ensures
        match (mnemonic_read(trimmed(raw@)), decoded) {
            (Ok(mnemonic), Ok(seed)) => seed_of(mnemonic) == Ok::<_, Seq<char>>(seed),
            (Ok(mnemonic), Err(words)) => seed_of(mnemonic) == Err::<
                lexe::types::auth::RootSeed,
                Seq<char>,
            >(words@),
            (Err(why), Err(words)) => words@ == "invalid BIP39 mnemonic: "@ + why,
            (Err(_), Ok(_)) => false,
        },
        match (read, given) {
            (Ok(mnemonic), Ok(seed)) => seed_of(mnemonic) == Ok::<_, Seq<char>>(seed),
            (Ok(mnemonic), Err(words)) => seed_of(mnemonic) == Err::<
                lexe::types::auth::RootSeed,
                Seq<char>,
            >(words@),
            (Err(why), Err(words)) => words@ == "invalid BIP39 mnemonic: "@ + why@,
            (Err(_), Ok(_)) => false,
        },
{
}

/// Whether a shown secret says whether there is one, and nothing more.
pub open spec fn hides(shown: Option<String>, secret: Option<String>) -> bool {
    match (shown, secret) {
        (Some(text), Some(_)) => text@ == "[REDACTED]"@,
        (None, None) => true,
        _ => false,
    }
}

/// A shown configuration holds no secret, and all the rest.
pub proof fn shown_configurations_hold_no_secret(
    config: BackendConfig,
    shown: RedactedBackendConfig,
)
    requires
        call_ensures(BackendConfig::redacted, (&config,), shown),
    ensures
        hides(shown.client_credentials, config.client_credentials),
        hides(shown.seed_phrase, config.seed_phrase),
        shown.network@ == config.network@,
        shown.data_dir@ == config.data_dir@,
        shown.fee_reserve_ppm == config.fee_reserve_ppm,
        shown.fee_reserve_min_sat == config.fee_reserve_min_sat,
        shown.payment_timeout_secs == config.payment_timeout_secs,
{
}

/// What is not configured has its default: the main network, a hundredth of a
/// percent and one satoshi for fees, five minutes for a payment, this machine on
/// the port that mints expect, and no transport chosen.
pub proof fn defaults_are_safe(backend: BackendConfig, config: Config)
    requires
        call_ensures(BackendConfig::default, (), backend),
        call_ensures(Config::default, (), config),
    ensures
        backend.client_credentials is None && config.lexe.client_credentials is None,
        backend.seed_phrase is None && config.lexe.seed_phrase is None,
        backend.network@ == "mainnet"@ && config.lexe.network@ == "mainnet"@,
        backend.data_dir@ == ".data/lexe"@ && config.lexe.data_dir@ == ".data/lexe"@,
        backend.fee_reserve_ppm == 100 && config.lexe.fee_reserve_ppm == 100,
        backend.fee_reserve_min_sat == 1 && config.lexe.fee_reserve_min_sat == 1,
        backend.payment_timeout_secs == 300 && config.lexe.payment_timeout_secs == 300,
        config.address@ == "127.0.0.1"@,
        config.port == 50051,
        !config.tls_enable,
        !config.allow_insecure,
        config.tls_cert_path@ == "certs/server.crt"@,
        config.tls_key_path@ == "certs/server.key"@,
        config.tls_client_ca_path@ == "certs/ca.pem"@,
{
}

/// Each default is the one that a configuration begins with.
pub proof fn defaults_are_those_of_configurations()
    ensures
        forall|text: String| #[trigger]
            call_ensures(settings::default_network, (), text) ==> text@ == "mainnet"@,
        forall|text: String| #[trigger]
            call_ensures(settings::default_data_dir, (), text) ==> text@ == ".data/lexe"@,
        forall|ppm: u32| #[trigger]
            call_ensures(settings::default_fee_reserve_ppm, (), ppm) ==> ppm == 100,
        forall|sats: u32| #[trigger]
            call_ensures(settings::default_fee_reserve_min_sat, (), sats) ==> sats == 1,
        forall|secs: u64| #[trigger]
            call_ensures(settings::default_payment_timeout_secs, (), secs) ==> secs == 300,
        forall|text: String| #[trigger]
            call_ensures(settings::default_address, (), text) ==> text@ == "127.0.0.1"@,
        forall|port: u16| #[trigger]
            call_ensures(settings::default_port, (), port) ==> port == 50051,
        forall|text: String| #[trigger]
            call_ensures(settings::default_tls_cert_path, (), text) ==> text@
                == "certs/server.crt"@,
        forall|text: String| #[trigger]
            call_ensures(settings::default_tls_key_path, (), text) ==> text@ == "certs/server.key"@,
        forall|text: String| #[trigger]
            call_ensures(settings::default_tls_client_ca_path, (), text) ==> text@
                == "certs/ca.pem"@,
{
}

/// A network's name, in letters of any case, stands for its environment. The
/// third test network goes by two names.
pub proof fn networks_have_their_environments(
    network: &str,
    res: Result<WalletEnvironment, String>,
)
    requires
        call_ensures(wallet_env_config, (network,), res),
    ensures
        ({
            let name = lower(network@);
            match res {
                Ok(WalletEnvironment::Mainnet) => name == "mainnet"@,
                Ok(WalletEnvironment::Testnet3) => name == "testnet3"@ || name == "testnet"@,
                Ok(WalletEnvironment::Regtest) => name == "regtest"@,
                Err(words) => {
                    &&& name != "mainnet"@
                    &&& name != "testnet3"@
                    &&& name != "testnet"@
                    &&& name != "regtest"@
                    &&& words@ == "invalid network `"@ + name + "`"@
                },
            }
        }),
{
}

/// A wallet that is on disk is provisioned. A new one is made, its node is signed
/// up where there is a seed, and then it is provisioned. A provisioned one is
/// ready, and a failure ends the opening in its own words.
pub proof fn wallets_open_step_by_step(
    with_seed: bool,
    event: WalletEvent<String>,
    res: Result<WalletStep, String>,
)
    requires
        call_ensures(wallet_step, (with_seed, event), res),
    ensures
        match (event, res) {
            (WalletEvent::Loaded(Ok(found)), Ok(step)) => step == (if found {
                WalletStep::Provision
            } else {
                WalletStep::Make
            }),
            (WalletEvent::Made(Ok(_)), Ok(step)) => step == (if with_seed {
                WalletStep::SignUp
            } else {
                WalletStep::Provision
            }),
            (WalletEvent::SignedUp(Ok(_)), Ok(step)) => step == WalletStep::Provision,
            (WalletEvent::Provisioned(Ok(_)), Ok(step)) => step == WalletStep::Ready,
            (WalletEvent::Loaded(Err(why)), Err(words)) => words@ == "failed to load Lexe wallet: "@
                + why@,
            (WalletEvent::Made(Err(why)), Err(words)) => words@
                == "failed to initialize Lexe wallet: "@ + why@,
            (WalletEvent::SignedUp(Err(why)), Err(words)) => words@ == "Lexe signup failed: "@
                + why@,
            (WalletEvent::Provisioned(Err(why)), Err(words)) => words@
                == "failed to provision Lexe node: "@ + why@,
            _ => false,
        },
{
}

} // verus!
