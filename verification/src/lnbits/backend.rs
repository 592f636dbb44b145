//! The decisions of the LNbits backend.

use vstd::prelude::*;
use vstd::string::*;

use crate::clock::unix_time;
use crate::encoding::{
    array_of, hex_bytes, hex_decode, hex_encode, hex_text, is_hash_text, lemma_array_of, same_hash,
    to_array,
};
use crate::invoice::bolt11_read;
use crate::lnbits::error::Error;
use crate::lnbits::settings::{config_refusal, BackendConfig};
use crate::payment::{
    msat_to_sat_ceil, result_view, sats_rounded_up, Amount, Bolt11Invoice,
    Bolt11OutgoingPaymentOptions, Bolt11Settings, CreateIncomingPaymentResponse,
    CreateIncomingPaymentResponseView, CurrencyUnit, IncomingPaymentOptions, MakePaymentResponse,
    MakePaymentResponseView, MeltQuoteState, OutgoingPaymentOptions, PaymentIdentifier,
    PaymentQuoteResponse, SettingsResponse, WaitPaymentResponse, WaitPaymentResponseView,
};
use crate::text::{
    has_suffix, join2, lower, same_text, strip_suffix, to_ascii_lowercase, trim, trim_end_char,
    trim_end_matches, trimmed,
};

verus! {

/// Why an operation of this backend failed.
pub type PaymentError = crate::payment::Error<Error<String>, String>;

/// What a [`PaymentError`] says.
pub type PaymentErrorView = crate::payment::Error<Error<Seq<char>>, Seq<char>>;

/// The details of a payment as LNbits reports them.
#[derive(Debug, PartialEq, Eq)]
pub struct PaymentDetails {
    /// The status, in words.
    pub status: String,
    /// The id under which the wallet keeps the payment.
    pub checking_id: String,
    /// The amount in millisatoshis: negative where it was spent.
    pub amount: i64,
    /// The fee in millisatoshis: negative where it was spent.
    pub fee: i64,
    /// The preimage, where it is known.
    pub preimage: Option<String>,
}

/// A payment as LNbits reports it.
#[derive(Debug, PartialEq, Eq)]
pub struct Payment {
    /// Whether the payment was settled.
    pub paid: bool,
    /// The preimage, where it is known.
    pub preimage: Option<String>,
    /// The details.
    pub details: PaymentDetails,
}

/// The state of a melt quote that a payment stands for.
pub open spec fn state_of(payment: Payment) -> MeltQuoteState {
    let status = lower(trimmed(payment.details.status@));
    if payment.paid || status == "success"@ {
        MeltQuoteState::Paid
    } else if status == "failed"@ {
        MeltQuoteState::Failed
    } else if status == "pending"@ {
        MeltQuoteState::Pending
    } else {
        MeltQuoteState::Unknown
    }
}

/// The state of a melt quote that a payment stands for.
pub fn lnbits_payment_state(payment: &Payment) -> (state: MeltQuoteState)
    ensures
        state == state_of(*payment),
{
    if payment.paid {
        return MeltQuoteState::Paid;
    }
    let status = to_ascii_lowercase(trim(payment.details.status.as_str()));
    let paid = same_text(status.as_str(), "success");
    let failed = same_text(status.as_str(), "failed");
    let pending = same_text(status.as_str(), "pending");
    if paid {
        MeltQuoteState::Paid
    } else if failed {
        MeltQuoteState::Failed
    } else if pending {
        MeltQuoteState::Pending
    } else {
        MeltQuoteState::Unknown
    }
}

/// The magnitude of a signed number, where its negation can be represented.
pub open spec fn magnitude(value: i64) -> Result<u64, Error<Seq<char>>> {
    if value == i64::MIN {
        Err(Error::AmountOverflow)
    } else if value < 0 {
        Ok((-value) as u64)
    } else {
        Ok(value as u64)
    }
}

/// The magnitude of a signed number, where its negation can be represented.
pub fn signed_magnitude(value: i64) -> (res: Result<u64, Error<String>>)
    ensures
        match res {
            Ok(size) => magnitude(value) == Ok::<u64, Error<Seq<char>>>(size),
            Err(error) => magnitude(value) == Err::<u64, Error<Seq<char>>>(error.deep_view()),
        },
{
    if value == i64::MIN {
        return Err(Error::AmountOverflow);
    }
    if value < 0 {
        Ok((-value) as u64)
    } else {
        Ok(value as u64)
    }
}

/// The hash that a text stands for, where it stands for one.
pub open spec fn hash_of_text(text: Seq<char>) -> Option<[u8; 32]> {
    if is_hash_text(text) {
        Some(array_of(hex_bytes(text)))
    } else {
        None
    }
}

/// Decodes a payment hash, which has exactly 32 bytes.
pub fn decode_payment_hash(payment_hash: &str) -> (res: Result<[u8; 32], Error<String>>)
    ensures
        match res {
            Ok(hash) => hash_of_text(payment_hash@) == Some(hash) && hash@ == hex_bytes(
                payment_hash@,
            ),
            Err(error) => hash_of_text(payment_hash@) is None && error
                == Error::<String>::InvalidPaymentHash,
        },
{
    match hex_decode(payment_hash) {
        Some(bytes) => match to_array(&bytes) {
            Some(array) => {
                proof {
                    lemma_array_of(array);
                }
                Ok(array)
            },
            None => Err(Error::InvalidPaymentHash),
        },
        None => Err(Error::InvalidPaymentHash),
    }
}

/// The hash by which a payment is looked up, in hexadecimal.
pub fn payment_hash_hex(payment_identifier: &PaymentIdentifier) -> (res: Result<
    String,
    Error<String>,
>)
    ensures
        match *payment_identifier {
            PaymentIdentifier::PaymentHash(hash) => res matches Ok(text) && text@ == hex_text(
                hash@,
            ),
            _ => res == Err::<String, Error<String>>(Error::UnsupportedPaymentIdentifier),
        },
{
    match payment_identifier {
        PaymentIdentifier::PaymentHash(hash) => Ok(hex_encode(hash)),
        _ => Err(Error::UnsupportedPaymentIdentifier),
    }
}

/// The root of an instance, from a URL of the instance or of its API.
pub open spec fn instance_root(url: Seq<char>) -> Seq<char> {
    let text = trim_end_char(trimmed(url), '/');
    let root = if has_suffix(text, "/api/v1"@) {
        text.subrange(0, text.len() - "/api/v1"@.len())
    } else {
        text
    };
    root + "/"@
}

/// The root of an instance, with a slash at its end.
pub fn normalize_api_url(api_url: &str) -> (res: String)
    ensures
        res@ == instance_root(api_url@),
{
    let text = trim_end_matches(trim(api_url), '/');
    let root = match strip_suffix(text, "/api/v1") {
        Some(root) => root,
        None => text,
    };
    join2(root, "/")
}

/// What the backend can do: BOLT11 in satoshis, with descriptions.
pub fn settings_response() -> (settings: SettingsResponse)
    ensures
        settings.unit@ == "sat"@,
        settings.bolt11 == Some(
            Bolt11Settings { mpp: false, amountless: false, invoice_description: true },
        ),
        settings.bolt12 is None,
        settings.onchain is None,
        settings.custom@.len() == 0,
{
    SettingsResponse {
        unit: "sat".to_owned(),
        bolt11: Some(
            Bolt11Settings { mpp: false, amountless: false, invoice_description: true },
        ),
        bolt12: None,
        onchain: None,
        custom: Vec::new(),
    }
}

/// Accepts satoshis and nothing else.
pub fn ensure_sat_unit(unit: &CurrencyUnit) -> (res: Result<(), PaymentError>)
    ensures
        match res {
            Ok(()) => *unit == CurrencyUnit::Sat,
            Err(error) => *unit != CurrencyUnit::Sat && error == PaymentError::UnsupportedUnit,
        },
{
    match unit {
        CurrencyUnit::Sat => Ok(()),
        _ => Err(PaymentError::UnsupportedUnit),
    }
}

/// The amount of an invoice in satoshis, rounded up. It must be paid whole.
pub open spec fn invoice_sats(options: Bolt11OutgoingPaymentOptions) -> Result<
    u64,
    PaymentErrorView,
> {
    if options.melt_options is Some {
        Err(PaymentErrorView::UnsupportedPaymentOption)
    } else {
        match options.bolt11.amount_msat {
            None => Err(PaymentErrorView::Backend(Error::UnknownInvoiceAmount)),
            Some(msat) => if sats_rounded_up(msat as int) == 0 {
                Err(PaymentErrorView::AmountMismatch)
            } else {
                Ok(sats_rounded_up(msat as int) as u64)
            },
        }
    }
}

/// The amount of an invoice in satoshis, rounded up.
pub fn bolt11_amount_sat(options: &Bolt11OutgoingPaymentOptions) -> (res: Result<
    u64,
    PaymentError,
>)
    ensures
        match res {
            Ok(sats) => invoice_sats(*options) == Ok::<u64, PaymentErrorView>(sats),
            Err(error) => invoice_sats(*options) == Err::<u64, PaymentErrorView>(
                error.deep_view(),
            ),
        },
{
    if options.melt_options.is_some() {
        return Err(PaymentError::UnsupportedPaymentOption);
    }
    let amount_msat: u64 = match options.bolt11.amount_msat {
        Some(amount_msat) => amount_msat,
        None => return Err(PaymentError::Backend(Error::UnknownInvoiceAmount)),
    };
    let amount_sat: u64 = msat_to_sat_ceil(amount_msat);
    if amount_sat == 0 {
        return Err(PaymentError::AmountMismatch);
    }
    Ok(amount_sat)
}

/// What a received payment is reported as; nothing where it was not settled.
pub open spec fn incoming_answer(payment_hash: Seq<char>, payment: Payment) -> Result<
    Option<WaitPaymentResponseView>,
    Error<Seq<char>>,
> {
    if state_of(payment) != MeltQuoteState::Paid {
        Ok(None)
    } else if payment.details.amount <= 0 {
        Err(Error::InvalidIncomingAmount)
    } else {
        match hash_of_text(payment_hash) {
            None => Err(Error::InvalidPaymentHash),
            Some(hash) => Ok(
                Some(
                    WaitPaymentResponseView {
                        payment_identifier: PaymentIdentifier::PaymentHash(hash),
                        payment_amount: Amount {
                            value: payment.details.amount as u64,
                            unit: CurrencyUnit::Msat,
                        },
                        payment_id: if payment.details.checking_id@.len() == 0 {
                            payment_hash
                        } else {
                            payment.details.checking_id@
                        },
                    },
                ),
            ),
        }
    }
}

/// What a received payment is reported as.
pub fn incoming_payment_response(payment_hash: &str, payment: &Payment) -> (res: Result<
    Option<WaitPaymentResponse>,
    Error<String>,
>)
    ensures
        result_view(res) == incoming_answer(payment_hash@, *payment),
{
    if lnbits_payment_state(payment) != MeltQuoteState::Paid {
        return Ok(None);
    }
    if payment.details.amount <= 0 {
        return Err(Error::InvalidIncomingAmount);
    }
    let hash = match decode_payment_hash(payment_hash) {
        Ok(hash) => hash,
        Err(error) => return Err(error),
    };
    let amount_msat: u64 = payment.details.amount as u64;
    let payment_id = if payment.details.checking_id.as_str().is_empty() {
        payment_hash.to_owned()
    } else {
        payment.details.checking_id.clone()
    };
    Ok(
        Some(
            WaitPaymentResponse {
                payment_identifier: PaymentIdentifier::PaymentHash(hash),
                payment_amount: Amount::new(amount_msat, CurrencyUnit::Msat),
                payment_id,
            },
        ),
    )
}

/// A text, where there is one and it is not empty.
pub open spec fn non_empty(text: Option<String>) -> Option<Seq<char>> {
    match text {
        Some(text) => if text@.len() == 0 {
            None
        } else {
            Some(text@)
        },
        None => None,
    }
}

/// The proof of a payment: the preimage of the payment, else that of its
/// details.
pub open spec fn proof_of(payment: Payment) -> Option<Seq<char>> {
    match non_empty(payment.preimage) {
        Some(preimage) => Some(preimage),
        None => non_empty(payment.details.preimage),
    }
}

fn filled(text: &Option<String>) -> (res: Option<String>)
    ensures
        res.deep_view() == non_empty(*text),
{
    match text {
        Some(text) => if text.as_str().is_empty() {
            None
        } else {
            Some(text.clone())
        },
        None => None,
    }
}

/// What an outgoing payment is answered with.
pub open spec fn outgoing_answer(identifier: PaymentIdentifier, payment: Payment) -> Result<
    MakePaymentResponseView,
    PaymentErrorView,
> {
    let status = state_of(payment);
    if status != MeltQuoteState::Paid {
        Ok(
            MakePaymentResponseView {
                payment_lookup_id: identifier,
                payment_proof: None,
                status,
                total_spent: Amount { value: 0, unit: CurrencyUnit::Sat },
            },
        )
    } else {
        match (magnitude(payment.details.amount), magnitude(payment.details.fee)) {
            (Err(error), _) => Err(PaymentErrorView::Backend(error)),
            (_, Err(error)) => Err(PaymentErrorView::Backend(error)),
            (Ok(amount), Ok(fee)) => Ok(
                MakePaymentResponseView {
                    payment_lookup_id: identifier,
                    payment_proof: proof_of(payment),
                    status,
                    total_spent: Amount {
                        value: sats_rounded_up(amount + fee) as u64,
                        unit: CurrencyUnit::Sat,
                    },
                },
            ),
        }
    }
}

/// What an outgoing payment is answered with. Only a settled payment reports
/// what was spent, and a proof.
pub fn outgoing_payment_response(payment_identifier: PaymentIdentifier, payment: &Payment) -> (res:
    Result<MakePaymentResponse, PaymentError>)
    ensures
        result_view(res) == outgoing_answer(payment_identifier, *payment),
{
    let status = lnbits_payment_state(payment);
    if status != MeltQuoteState::Paid {
        return Ok(
            MakePaymentResponse {
                payment_lookup_id: payment_identifier,
                payment_proof: None,
                status,
                total_spent: Amount::new(0, CurrencyUnit::Sat),
            },
        );
    }
    let amount_msat: u64 = match signed_magnitude(payment.details.amount) {
        Ok(amount_msat) => amount_msat,
        Err(error) => return Err(PaymentError::Backend(error)),
    };
    let fee_msat: u64 = match signed_magnitude(payment.details.fee) {
        Ok(fee_msat) => fee_msat,
        Err(error) => return Err(PaymentError::Backend(error)),
    };
    let total_msat: u64 = match amount_msat.checked_add(fee_msat) {
        Some(total_msat) => total_msat,
        None => return Err(PaymentError::Backend(Error::AmountOverflow)),
    };
    let payment_proof = match filled(&payment.preimage) {
        Some(preimage) => Some(preimage),
        None => filled(&payment.details.preimage),
    };
    Ok(
        MakePaymentResponse {
            payment_lookup_id: payment_identifier,
            payment_proof,
            status,
            total_spent: Amount::new(msat_to_sat_ceil(total_msat), CurrencyUnit::Sat),
        },
    )
}

/// What LNbits is asked for to receive a payment.
#[derive(Debug, PartialEq, Eq)]
pub struct CreateInvoiceRequest {
    /// The amount, in satoshis.
    pub amount: u64,
    /// The name of the unit.
    pub unit: String,
    /// What the payment is for.
    pub memo: Option<String>,
    /// When the invoice expires, in seconds from now, where the mint says.
    pub expiry: Option<u64>,
    /// Whether the payment stays within the instance, where that is said.
    pub internal: Option<bool>,
    /// Whether the payment is outgoing.
    pub out: bool,
}

/// What a [`CreateInvoiceRequest`] says.
pub struct CreateInvoiceRequestView {
    /// The amount, in satoshis.
    pub amount: u64,
    /// The name of the unit.
    pub unit: Seq<char>,
    /// What the payment is for.
    pub memo: Option<Seq<char>>,
    /// When the invoice expires, in seconds from now, where the mint says.
    pub expiry: Option<u64>,
    /// Whether the payment stays within the instance, where that is said.
    pub internal: Option<bool>,
    /// Whether the payment is outgoing.
    pub out: bool,
}

impl DeepView for CreateInvoiceRequest {
    type V = CreateInvoiceRequestView;

    open spec fn deep_view(&self) -> CreateInvoiceRequestView {
        CreateInvoiceRequestView {
            amount: self.amount,
            unit: self.unit@,
            memo: self.memo.deep_view(),
            expiry: self.expiry,
            internal: self.internal,
            out: self.out,
        }
    }
}

/// What LNbits is asked for at the moment `now`, or why nothing is asked.
pub open spec fn invoice_request(options: IncomingPaymentOptions, now: u64) -> Result<
    CreateInvoiceRequestView,
    PaymentErrorView,
> {
    match options {
        IncomingPaymentOptions::Bolt11(options) => if options.amount.unit != CurrencyUnit::Sat {
            Err(PaymentErrorView::UnsupportedUnit)
        } else if options.amount.value == 0 {
            Err(PaymentErrorView::AmountMismatch)
        } else if options.unix_expiry matches Some(at) && at < now {
            Err(PaymentErrorView::InvalidExpiry)
        } else {
            Ok(
                CreateInvoiceRequestView {
                    amount: options.amount.value,
                    unit: "sat"@,
                    memo: match options.description {
                        Some(description) => Some(description@),
                        None => Some(Seq::empty()),
                    },
                    expiry: match options.unix_expiry {
                        Some(at) => Some((at - now) as u64),
                        None => None,
                    },
                    internal: None,
                    out: false,
                },
            )
        },
        _ => Err(PaymentErrorView::UnsupportedPaymentOption),
    }
}

/// What LNbits is asked for at the moment `now`, or why nothing is asked.
pub fn invoice_request_at(options: IncomingPaymentOptions, now: u64) -> (res: Result<
    CreateInvoiceRequest,
    PaymentError,
>)
    ensures
        result_view(res) == invoice_request(options, now),
{
    let options = match options {
        IncomingPaymentOptions::Bolt11(options) => options,
        _ => return Err(PaymentError::UnsupportedPaymentOption),
    };
    match ensure_sat_unit(&options.amount.unit) {
        Ok(()) => {},
        Err(error) => return Err(error),
    }
    let amount: u64 = match options.amount.to_sat() {
        Ok(amount) => amount,
        Err(error) => return Err(PaymentError::Amount(error)),
    };
    if amount == 0 {
        return Err(PaymentError::AmountMismatch);
    }
    let expiry: Option<u64> = match options.unix_expiry {
        Some(at) => match at.checked_sub(now) {
            Some(secs) => Some(secs),
            None => return Err(PaymentError::InvalidExpiry),
        },
        None => None,
    };
    let memo = match options.description {
        Some(description) => description,
        None => String::new(),
    };
    Ok(
        CreateInvoiceRequest {
            amount,
            unit: "sat".to_owned(),
            memo: Some(memo),
            expiry,
            internal: None,
            out: false,
        },
    )
}

/// What a created invoice is answered with, from the invoice and from the hash
/// that LNbits reports for it.
pub open spec fn created_answer(invoice: Bolt11Invoice, response_hash: Seq<char>) -> Result<
    CreateIncomingPaymentResponseView,
    PaymentErrorView,
> {
    match hash_of_text(response_hash) {
        None => Err(PaymentErrorView::Backend(Error::InvalidPaymentHash)),
        Some(hash) => if hash != invoice.payment_hash {
            Err(PaymentErrorView::Backend(Error::PaymentHashMismatch))
        } else {
            Ok(
                CreateIncomingPaymentResponseView {
                    request_lookup_id: PaymentIdentifier::PaymentHash(hash),
                    request: invoice.text@,
                    expiry: invoice.expires_at,
                },
            )
        },
    }
}

/// Answers with an invoice that LNbits created.
pub fn invoice_matched(invoice: Bolt11Invoice, response_hash: &str) -> (res: Result<
    CreateIncomingPaymentResponse,
    PaymentError,
>)
    ensures
        result_view(res) == created_answer(invoice, response_hash@),
{
    let hash = match decode_payment_hash(response_hash) {
        Ok(hash) => hash,
        Err(error) => return Err(PaymentError::Backend(error)),
    };
    if !same_hash(&hash, &invoice.payment_hash) {
        return Err(PaymentError::Backend(Error::PaymentHashMismatch));
    }
    Ok(
        CreateIncomingPaymentResponse {
            request_lookup_id: PaymentIdentifier::PaymentHash(invoice.payment_hash),
            request: invoice.text,
            expiry: invoice.expires_at,
        },
    )
}

/// The amount of a quote in satoshis.
pub open spec fn quoted_sats(unit: CurrencyUnit, options: OutgoingPaymentOptions) -> Result<
    u64,
    PaymentErrorView,
> {
    if unit != CurrencyUnit::Sat {
        Err(PaymentErrorView::UnsupportedUnit)
    } else {
        match options {
            OutgoingPaymentOptions::Bolt11(options) => invoice_sats(options),
            _ => Err(PaymentErrorView::UnsupportedPaymentOption),
        }
    }
}

/// The amount of a quote in satoshis.
pub fn quote_amount_sat(unit: &CurrencyUnit, options: &OutgoingPaymentOptions) -> (res: Result<
    u64,
    PaymentError,
>)
    ensures
        match res {
            Ok(sats) => quoted_sats(*unit, *options) == Ok::<u64, PaymentErrorView>(sats),
            Err(error) => quoted_sats(*unit, *options) == Err::<u64, PaymentErrorView>(
                error.deep_view(),
            ),
        },
{
    match ensure_sat_unit(unit) {
        Ok(()) => {},
        Err(error) => return Err(error),
    }
    match options {
        OutgoingPaymentOptions::Bolt11(options) => bolt11_amount_sat(options),
        _ => Err(PaymentError::UnsupportedPaymentOption),
    }
}

/// The greater of a share of the amount and the least fee reserve.
pub open spec fn reserved(relative: u64, min_sat: u64) -> u64 {
    if relative >= min_sat {
        relative
    } else {
        min_sat
    }
}

/// What a quote is answered with. `relative` is the share of the amount that
/// is reserved for fees, in satoshis.
pub open spec fn quote_answer(
    unit: CurrencyUnit,
    options: OutgoingPaymentOptions,
    min_sat: u64,
    relative: u64,
) -> Result<PaymentQuoteResponse, PaymentErrorView> {
    match quoted_sats(unit, options) {
        Err(error) => Err(error),
        Ok(sats) => Ok(
            PaymentQuoteResponse {
                request_lookup_id: Some(
                    PaymentIdentifier::PaymentHash(options->Bolt11_0.bolt11.payment_hash),
                ),
                amount: Amount { value: sats, unit: CurrencyUnit::Sat },
                fee: Amount { value: reserved(relative, min_sat), unit: CurrencyUnit::Sat },
                state: MeltQuoteState::Unpaid,
            },
        ),
    }
}

/// What LNbits is asked for to make a payment.
#[derive(Debug, PartialEq, Eq)]
pub struct PayRequest {
    /// The invoice.
    pub invoice: String,
    /// Its payment hash.
    pub payment_hash: [u8; 32],
    /// Its payment hash, in hexadecimal.
    pub payment_hash_hex: String,
}

/// What follows a request to pay.
#[derive(Debug, PartialEq, Eq)]
pub enum PayStep<T> {
    /// Ask for the status of the payment.
    FetchStatus,
    /// The request may have reached LNbits all the same: look the payment up.
    Recover {
        /// What the client reports.
        source: T,
    },
}

/// What follows a request to pay, which ended with the hash that LNbits reports
/// or with an error of the client.
pub fn pay_done(payment_hash: &[u8; 32], outcome: Result<String, String>) -> (res: Result<
    PayStep<String>,
    PaymentError,
>)
    ensures
        match outcome {
            Err(source) => res == Ok::<PayStep<String>, PaymentError>(PayStep::Recover { source }),
            Ok(reported) => match hash_of_text(reported@) {
                None => res == Err::<PayStep<String>, PaymentError>(
                    PaymentError::Backend(Error::InvalidPaymentHash),
                ),
                Some(hash) => if hash == *payment_hash {
                    res == Ok::<PayStep<String>, PaymentError>(PayStep::FetchStatus)
                } else {
                    res == Err::<PayStep<String>, PaymentError>(
                        PaymentError::Backend(Error::PaymentHashMismatch),
                    )
                },
            },
        },
{
    match outcome {
        Err(source) => Ok(PayStep::Recover { source }),
        Ok(reported) => {
            let hash = match decode_payment_hash(reported.as_str()) {
                Ok(hash) => hash,
                Err(error) => return Err(PaymentError::Backend(error)),
            };
            if same_hash(&hash, payment_hash) {
                Ok(PayStep::FetchStatus)
            } else {
                Err(PaymentError::Backend(Error::PaymentHashMismatch))
            }
        },
    }
}

/// What a request to pay that failed is answered with. `found` is what LNbits
/// says of the payment, where it says anything. A payment that is paid, under
/// way or unclear is recovered; otherwise the failure stands.
pub open spec fn recovered_answer(
    payment_hash: [u8; 32],
    source: Seq<char>,
    found: Option<Payment>,
) -> Result<MakePaymentResponseView, PaymentErrorView> {
    if found matches Some(payment) && state_of(payment) != MeltQuoteState::Failed {
        outgoing_answer(PaymentIdentifier::PaymentHash(payment_hash), found->0)
    } else {
        Err(PaymentErrorView::Backend(Error::Api { operation: "pay-invoice"@, source }))
    }
}

/// Answers a request to pay that failed.
pub fn pay_recovered(payment_hash: &[u8; 32], source: String, found: Option<Payment>) -> (res:
    Result<MakePaymentResponse, PaymentError>)
    ensures
        result_view(res) == recovered_answer(*payment_hash, source@, found),
{
    match found {
        Some(payment) => {
            if lnbits_payment_state(&payment) != MeltQuoteState::Failed {
                return outgoing_payment_response(
                    PaymentIdentifier::PaymentHash(*payment_hash),
                    &payment,
                );
            }
        },
        None => {},
    }
    Err(PaymentError::Backend(Error::Api { operation: "pay-invoice".to_owned(), source }))
}

/// What a request for the status of an outgoing payment is answered with.
pub open spec fn status_answer(
    identifier: PaymentIdentifier,
    operation: Seq<char>,
    fetched: Result<Payment, String>,
) -> Result<MakePaymentResponseView, PaymentErrorView> {
    match fetched {
        Ok(payment) => outgoing_answer(identifier, payment),
        Err(source) => Err(PaymentErrorView::Backend(Error::Api { operation, source: source@ })),
    }
}

/// Answers with the status of a payment that was just made.
pub fn pay_status_fetched(payment_hash: &[u8; 32], fetched: Result<Payment, String>) -> (res:
    Result<MakePaymentResponse, PaymentError>)
    ensures
        result_view(res) == status_answer(
            PaymentIdentifier::PaymentHash(*payment_hash),
            "payment-status"@,
            fetched,
        ),
{
    match fetched {
        Ok(payment) => outgoing_payment_response(
            PaymentIdentifier::PaymentHash(*payment_hash),
            &payment,
        ),
        Err(source) => Err(
            PaymentError::Backend(Error::Api { operation: "payment-status".to_owned(), source }),
        ),
    }
}

/// An invoice as LNbits reports it.
#[derive(Debug, PartialEq, Eq)]
pub struct CreatedInvoice {
    /// The invoice.
    pub bolt11: String,
    /// Its payment hash, in hexadecimal.
    pub payment_hash: String,
}

/// What the client needs to reach the wallet.
#[derive(PartialEq, Eq)]
pub struct Connection {
    /// The key that can spend.
    pub admin_api_key: String,
    /// The key that can create invoices and read.
    pub invoice_api_key: String,
    /// The root of the instance.
    pub api_url: String,
}

/// What starting needs next.
#[derive(Clone, Copy, Debug, PartialEq, Eq, Structural)]
pub enum StartStep {
    /// Nothing: the backend has started.
    Ready,
    /// Ask for the details of the wallet, then subscribe to its notifications.
    CheckWallet,
}

/// The backend: its fee policy, how far it has started, and whether its events
/// are read.
#[derive(Clone, Copy, Debug, PartialEq, Eq, Structural)]
pub struct LnbitsBackend {
    /// The least fee reserve of melt quotes, in satoshis.
    pub fee_reserve_min_sat: u64,
    /// The share of the amount that is reserved for fees, as the bits of a
    /// single-precision number.
    pub fee_reserve_percent_bits: u32,
    /// Whether the wallet was reached and its notifications are subscribed to.
    pub started: bool,
    /// Whether an event stream is active.
    pub event_stream_active: bool,
    /// Whether event streams are to end.
    pub events_cancelled: bool,
}

impl LnbitsBackend {
    /// A backend that has not started, and what its client needs. An invalid
    /// configuration is refused.
    pub fn new(config: BackendConfig) -> (res: Result<(LnbitsBackend, Connection), Error<String>>)
        ensures
            match res {
                Ok((backend, connection)) => {
                    &&& config_refusal(config) is None
                    &&& backend.fee_reserve_min_sat == config.fee_reserve_min_sat
                    &&& backend.fee_reserve_percent_bits == config.fee_reserve_percent_bits
                    &&& !backend.started
                    &&& !backend.event_stream_active
                    &&& !backend.events_cancelled
                    &&& connection.admin_api_key == config.admin_api_key
                    &&& connection.invoice_api_key == config.invoice_api_key
                    &&& connection.api_url@ == instance_root(config.api_url@)
                },
                Err(error) => {
                    &&& config_refusal(config) matches Some(refusal)
                    &&& error.deep_view() == Error::InvalidConfiguration(refusal.words())
                },
            },
    {
        match config.validate() {
            Ok(()) => {},
            Err(refusal) => return Err(Error::InvalidConfiguration(refusal.message())),
        }
        let api_url = normalize_api_url(config.api_url.as_str());
        Ok(
            (
                LnbitsBackend {
                    fee_reserve_min_sat: config.fee_reserve_min_sat,
                    fee_reserve_percent_bits: config.fee_reserve_percent_bits,
                    started: false,
                    event_stream_active: false,
                    events_cancelled: false,
                },
                Connection {
                    admin_api_key: config.admin_api_key,
                    invoice_api_key: config.invoice_api_key,
                    api_url,
                },
            ),
        )
    }

    /// What starting needs next.
    pub fn ensure_started(&self) -> (step: StartStep)
        ensures
            step == (if self.started {
                StartStep::Ready
            } else {
                StartStep::CheckWallet
            }),
    {
        if self.started {
            StartStep::Ready
        } else {
            StartStep::CheckWallet
        }
    }

    /// The wallet was asked for its details.
    pub fn wallet_checked(outcome: Result<(), String>) -> (res: Result<(), Error<String>>)
        ensures
            result_view(res) == (match outcome {
                Ok(()) => Ok(()),
                Err(source) => Err(Error::Api { operation: "wallet-info"@, source: source@ }),
            }),
    {
        match outcome {
            Ok(()) => Ok(()),
            Err(source) => Err(Error::Api { operation: "wallet-info".to_owned(), source }),
        }
    }

    /// The subscription was opened or failed: only once it is open has the
    /// backend started. Why it failed is not kept.
    pub fn subscribe_websocket(&mut self, opened: bool) -> (res: Result<(), Error<String>>)
        ensures
            *final(self) == (LnbitsBackend { started: old(self).started || opened, ..*old(self) }),
            res == (if opened {
                Ok::<(), Error<String>>(())
            } else {
                Err::<(), Error<String>>(Error::WebsocketConnection)
            }),
    {
        if opened {
            self.started = true;
            Ok(())
        } else {
            Err(Error::WebsocketConnection)
        }
    }

    /// Ends the event stream, and every later one.
    pub fn stop(&mut self)
        ensures
            *final(self) == (LnbitsBackend {
                event_stream_active: false,
                events_cancelled: true,
                ..*old(self)
            }),
    {
        self.cancel_payment_event_stream();
    }

    /// What the backend can do.
    pub fn get_settings(&self) -> (settings: SettingsResponse)
        ensures
            settings.unit@ == "sat"@,
            settings.bolt11 == Some(
                Bolt11Settings { mpp: false, amountless: false, invoice_description: true },
            ),
            settings.bolt12 is None,
            settings.onchain is None,
            settings.custom@.len() == 0,
    {
        settings_response()
    }

    /// What LNbits is asked for to receive a payment. The answer holds for the
    /// moment at which the clock was read.
    pub fn create_incoming_payment_request(&self, options: IncomingPaymentOptions) -> (res: Result<
        CreateInvoiceRequest,
        PaymentError,
    >)
        ensures
            exists|now: u64| result_view(res) == #[trigger] invoice_request(options, now),
    {
        let now: u64 = unix_time();
        invoice_request_at(options, now)
    }

    /// Answers with an invoice that LNbits was asked for. The invoice is read
    /// before its hash is compared with the one that LNbits reports.
    pub fn invoice_created(&self, outcome: Result<CreatedInvoice, String>) -> (res: Result<
        CreateIncomingPaymentResponse,
        PaymentError,
    >)
        ensures
            match outcome {
                Err(source) => result_view(res) == Err::<
                    CreateIncomingPaymentResponseView,
                    PaymentErrorView,
                >(
                    PaymentErrorView::Backend(
                        Error::Api { operation: "create-invoice"@, source: source@ },
                    ),
                ),
                Ok(created) => match bolt11_read(created.bolt11@) {
                    Err(words) => result_view(res) == Err::<
                        CreateIncomingPaymentResponseView,
                        PaymentErrorView,
                    >(PaymentErrorView::Parse(words)),
                    Ok((text, hash, amount_msat, expires_at)) => exists|invoice: Bolt11Invoice|
                        {
                            &&& invoice.text@ == text
                            &&& invoice.payment_hash@ == hash
                            &&& invoice.amount_msat == amount_msat
                            &&& invoice.expires_at == expires_at
                            &&& result_view(res) == #[trigger] created_answer(
                                invoice,
                                created.payment_hash@,
                            )
                        },
                },
            },
    {
        match outcome {
            Err(source) => Err(
                PaymentError::Backend(
                    Error::Api { operation: "create-invoice".to_owned(), source },
                ),
            ),
            Ok(created) => match Bolt11Invoice::parse(created.bolt11.as_str()) {
                Ok(invoice) => invoice_matched(invoice, created.payment_hash.as_str()),
                Err(words) => Err(PaymentError::Parse(words)),
            },
        }
    }

    /// The fee to reserve: the share of the amount, but at least the minimum.
    pub fn fee_reserve(&self, relative: u64) -> (fee: u64)
        ensures
            fee == reserved(relative, self.fee_reserve_min_sat),
    {
        if relative >= self.fee_reserve_min_sat {
            relative
        } else {
            self.fee_reserve_min_sat
        }
    }

    /// Quotes an outgoing payment. `relative` is the share of the amount that is
    /// reserved for fees, in satoshis.
    pub fn get_payment_quote(
        &self,
        unit: &CurrencyUnit,
        options: &OutgoingPaymentOptions,
        relative: u64,
    ) -> (res: Result<PaymentQuoteResponse, PaymentError>)
        ensures
            result_view(res) == quote_answer(*unit, *options, self.fee_reserve_min_sat, relative),
    {
        let amount_sat: u64 = match quote_amount_sat(unit, options) {
            Ok(amount_sat) => amount_sat,
            Err(error) => return Err(error),
        };
        match options {
            OutgoingPaymentOptions::Bolt11(options) => Ok(
                PaymentQuoteResponse {
                    request_lookup_id: Some(
                        PaymentIdentifier::PaymentHash(options.bolt11.payment_hash),
                    ),
                    amount: Amount::new(amount_sat, CurrencyUnit::Sat),
                    fee: Amount::new(self.fee_reserve(relative), CurrencyUnit::Sat),
                    state: MeltQuoteState::Unpaid,
                },
            ),
            _ => Err(PaymentError::UnsupportedPaymentOption),
        }
    }

    /// Begins an outgoing payment. An invoice without an amount cannot be paid,
    /// and neither can a part of one.
    pub fn make_payment(&self, unit: &CurrencyUnit, options: &OutgoingPaymentOptions) -> (res:
        Result<PayRequest, PaymentError>)
        ensures
            match res {
                Ok(request) => {
                    &&& quoted_sats(*unit, *options) is Ok
                    &&& *options matches OutgoingPaymentOptions::Bolt11(options)
                    &&& request.invoice == options.bolt11.text
                    &&& request.payment_hash == options.bolt11.payment_hash
                    &&& request.payment_hash_hex@ == hex_text(options.bolt11.payment_hash@)
                },
                Err(error) => quoted_sats(*unit, *options) == Err::<u64, PaymentErrorView>(
                    error.deep_view(),
                ),
            },
    {
        match quote_amount_sat(unit, options) {
            Ok(_) => {},
            Err(error) => return Err(error),
        }
        match options {
            OutgoingPaymentOptions::Bolt11(options) => Ok(
                PayRequest {
                    invoice: options.bolt11.text.clone(),
                    payment_hash: options.bolt11.payment_hash,
                    payment_hash_hex: hex_encode(&options.bolt11.payment_hash),
                },
            ),
            _ => Err(PaymentError::UnsupportedPaymentOption),
        }
    }

    /// Begins to read events. Only one stream may do so at a time.
    pub fn wait_payment_event(&mut self) -> (res: Result<(), Error<String>>)
        ensures
            *final(self) == (LnbitsBackend { event_stream_active: true, ..*old(self) }),
            res == (if old(self).event_stream_active {
                Err::<(), Error<String>>(Error::EventStreamAlreadyActive)
            } else {
                Ok::<(), Error<String>>(())
            }),
    {
        if self.event_stream_active {
            return Err(Error::EventStreamAlreadyActive);
        }
        self.event_stream_active = true;
        Ok(())
    }

    /// The event stream ended or was dropped.
    pub fn event_stream_ended(&mut self)
        ensures
            *final(self) == (LnbitsBackend { event_stream_active: false, ..*old(self) }),
    {
        self.event_stream_active = false;
    }

    /// Whether an event stream is active.
    pub fn is_payment_event_stream_active(&self) -> (active: bool)
        ensures
            active == self.event_stream_active,
    {
        self.event_stream_active
    }

    /// Ends the event stream, and every later one.
    pub fn cancel_payment_event_stream(&mut self)
        ensures
            *final(self) == (LnbitsBackend {
                event_stream_active: false,
                events_cancelled: true,
                ..*old(self)
            }),
    {
        self.events_cancelled = true;
        self.event_stream_active = false;
    }

    /// The hash by which an incoming payment is looked up.
    pub fn check_incoming_payment_status(&self, payment_identifier: &PaymentIdentifier) -> (res:
        Result<String, PaymentError>)
        ensures
            result_view(res) == lookup_answer(*payment_identifier),
    {
        match payment_hash_hex(payment_identifier) {
            Ok(payment_hash) => Ok(payment_hash),
            Err(error) => Err(PaymentError::Backend(error)),
        }
    }

    /// Answers with the status of an incoming payment.
    pub fn incoming_payment_fetched(
        &self,
        payment_hash: &str,
        fetched: Result<Payment, String>,
    ) -> (res: Result<Option<WaitPaymentResponse>, PaymentError>)
        ensures
            result_view(res) == (match fetched {
                Ok(payment) => match incoming_answer(payment_hash@, payment) {
                    Ok(answer) => Ok(answer),
                    Err(error) => Err(PaymentErrorView::Backend(error)),
                },
                Err(source) => Err(
                    PaymentErrorView::Backend(
                        Error::Api { operation: "incoming-payment-status"@, source: source@ },
                    ),
                ),
            }),
    {
        match fetched {
            Ok(payment) => match incoming_payment_response(payment_hash, &payment) {
                Ok(answer) => Ok(answer),
                Err(error) => Err(PaymentError::Backend(error)),
            },
            Err(source) => Err(
                PaymentError::Backend(
                    Error::Api { operation: "incoming-payment-status".to_owned(), source },
                ),
            ),
        }
    }

    /// The hash by which an outgoing payment is looked up.
    pub fn check_outgoing_payment(&self, payment_identifier: &PaymentIdentifier) -> (res: Result<
        String,
        PaymentError,
    >)
        ensures
            result_view(res) == lookup_answer(*payment_identifier),
    {
        match payment_hash_hex(payment_identifier) {
            Ok(payment_hash) => Ok(payment_hash),
            Err(error) => Err(PaymentError::Backend(error)),
        }
    }

    /// Answers with the status of an outgoing payment.
    pub fn outgoing_payment_fetched(
        &self,
        payment_identifier: &PaymentIdentifier,
        fetched: Result<Payment, String>,
    ) -> (res: Result<MakePaymentResponse, PaymentError>)
        ensures
            result_view(res) == status_answer(
                *payment_identifier,
                "outgoing-payment-status"@,
                fetched,
            ),
    {
        match fetched {
            Ok(payment) => outgoing_payment_response(payment_identifier.clone(), &payment),
            Err(source) => Err(
                PaymentError::Backend(
                    Error::Api { operation: "outgoing-payment-status".to_owned(), source },
                ),
            ),
        }
    }
}

/// The hash by which a payment is looked up, in hexadecimal. Only a hash can be
/// looked up.
pub open spec fn lookup_answer(identifier: PaymentIdentifier) -> Result<
    Seq<char>,
    PaymentErrorView,
> {
    match identifier {
        PaymentIdentifier::PaymentHash(hash) => Ok(hex_text(hash@)),
        _ => Err(PaymentErrorView::Backend(Error::UnsupportedPaymentIdentifier)),
    }
}

} // verus!
