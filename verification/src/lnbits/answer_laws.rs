//! What the answers of the LNbits backend mean, in terms of what the mint asked
//! for and of what LNbits says of a payment.

use vstd::prelude::*;

use crate::encoding::{array_of, hex_bytes, hex_text, is_hex};
use crate::invoice::bolt11_read;
use crate::lnbits::backend::{
    bolt11_amount_sat, decode_payment_hash, ensure_sat_unit, incoming_payment_response,
    instance_root, invoice_matched, invoice_request_at, lnbits_payment_state, normalize_api_url,
    outgoing_payment_response, pay_done, pay_recovered, pay_status_fetched, payment_hash_hex,
    quote_amount_sat, settings_response, signed_magnitude, Connection, CreateInvoiceRequest,
    CreatedInvoice, LnbitsBackend, PayRequest, PayStep, Payment, PaymentError, StartStep,
};
use crate::lnbits::error::Error;
use crate::lnbits::events::{
    process_websocket_message, EventStreamState, StreamInput, StreamStep,
};
use crate::lnbits::settings;
use crate::lnbits::settings::{
    BackendConfig, BackendConfigRepr, Config, InvalidSetting, RedactedBackendConfig,
};
use crate::payment::{
    Bolt11Invoice, Bolt11OutgoingPaymentOptions, CreateIncomingPaymentResponse,
    CurrencyUnit, Event, IncomingPaymentOptions, MakePaymentResponse, MeltQuoteState,
    OutgoingPaymentOptions, PaymentIdentifier, PaymentQuoteResponse, SettingsResponse,
    WaitPaymentResponse,
};
use crate::payment_laws::is_rounded_up;
use crate::text::{has_suffix, lower, trim_end_char, trimmed};
use crate::text_laws::{lemma_precedes_run, precedes_run};

verus! {

/// Whether LNbits says that a payment is settled: by its flag or in words, in
/// letters of any case.
pub open spec fn is_settled(payment: Payment) -> bool {
    payment.paid || lower(trimmed(payment.details.status@)) == "success"@
}

/// Whether LNbits says in some words how a payment stands, without it being
/// settled.
pub open spec fn is_unsettled(payment: Payment, words: Seq<char>) -> bool {
    !is_settled(payment) && lower(trimmed(payment.details.status@)) == words
}

/// Whether a quote stands as LNbits says of its payment.
pub open spec fn stands(state: MeltQuoteState, payment: Payment) -> bool {
    match state {
        MeltQuoteState::Paid => is_settled(payment),
        MeltQuoteState::Failed => is_unsettled(payment, "failed"@),
        MeltQuoteState::Pending => is_unsettled(payment, "pending"@),
        MeltQuoteState::Unknown => {
            &&& !is_settled(payment)
            &&& !is_unsettled(payment, "failed"@)
            &&& !is_unsettled(payment, "pending"@)
        },
        MeltQuoteState::Unpaid => false,
    }
}

/// A quote stands as LNbits says of its payment.
pub proof fn quotes_stand_as_their_payments(payment: Payment, state: MeltQuoteState)
    requires
        call_ensures(lnbits_payment_state, (&payment,), state),
    ensures
        stands(state, payment),
{
}

/// The distance of a number from zero.
pub open spec fn size(value: i64) -> int {
    if value < 0 {
        -value
    } else {
        value as int
    }
}

/// A number loses its sign and nothing else; the least number there is is
/// refused.
pub proof fn magnitudes_are_distances_from_zero(value: i64, res: Result<u64, Error<String>>)
    requires
        call_ensures(signed_magnitude, (value,), res),
    ensures
        match res {
            Ok(magnitude) => magnitude == size(value),
            Err(error) => value == i64::MIN && error == Error::<String>::AmountOverflow,
        },
        value == i64::MIN ==> res is Err,
{
}

/// Whether a text is the hexadecimal form of 32 bytes.
pub open spec fn is_hash(text: Seq<char>) -> bool {
    is_hex(text) && text.len() == 64
}

/// A hash is read from exactly 64 hexadecimal digits.
pub proof fn hashes_are_sixty_four_digits(text: &str, res: Result<[u8; 32], Error<String>>)
    requires
        call_ensures(decode_payment_hash, (text,), res),
    ensures
        match res {
            Ok(hash) => is_hash(text@) && hash@ == hex_bytes(text@),
            Err(error) => !is_hash(text@) && error == Error::<String>::InvalidPaymentHash,
        },
{
}

/// Whether a proof is the first preimage that is not empty: that of the payment,
/// else that of its details.
pub open spec fn proves(proof_text: Option<String>, payment: Payment) -> bool {
    match proof_text {
        Some(text) => {
            &&& text@.len() > 0
            &&& {
                ||| payment.preimage matches Some(preimage) && preimage@ == text@
                ||| payment.details.preimage matches Some(preimage) && preimage@ == text@
                    && is_blank(payment.preimage)
            }
        },
        None => is_blank(payment.preimage) && is_blank(payment.details.preimage),
    }
}

/// Whether there is no text, or an empty one.
pub open spec fn is_blank(text: Option<String>) -> bool {
    text matches Some(text) ==> text@.len() == 0
}

/// Whether what became of an outgoing payment is answered: how it stands, and
/// once it is settled its proof and all that it cost, the fee included. Only a
/// settled payment whose amount or fee has no distance from zero cannot be.
pub open spec fn is_told(
    res: Result<MakePaymentResponse, PaymentError>,
    identifier: PaymentIdentifier,
    payment: Payment,
) -> bool {
    match res {
        Ok(answer) => {
            &&& answer.payment_lookup_id == identifier
            &&& stands(answer.status, payment)
            &&& answer.total_spent.unit == CurrencyUnit::Sat
            &&& if is_settled(payment) {
                &&& proves(answer.payment_proof, payment)
                &&& is_rounded_up(
                    answer.total_spent,
                    size(payment.details.amount) + size(payment.details.fee),
                )
                &&& payment.details.amount != i64::MIN
                &&& payment.details.fee != i64::MIN
            } else {
                answer.payment_proof is None && answer.total_spent.value == 0
            }
        },
        Err(error) => {
            &&& is_settled(payment)
            &&& payment.details.amount == i64::MIN || payment.details.fee == i64::MIN
            &&& error == PaymentError::Backend(Error::AmountOverflow)
        },
    }
}

/// The mint is told what became of a payment: paid exactly where LNbits settled
/// it, with all that it cost.
pub proof fn answers_tell_what_became_of_payments(
    identifier: PaymentIdentifier,
    payment: Payment,
    res: Result<MakePaymentResponse, PaymentError>,
)
    requires
        call_ensures(outgoing_payment_response, (identifier, &payment), res),
    ensures
        is_told(res, identifier, payment),
{
}

/// Whether an error is that a request failed, and what the client reports of it.
pub open spec fn tells_failure(
    error: PaymentError,
    attempted: Seq<char>,
    reported: String,
) -> bool {
    error matches PaymentError::Backend(Error::Api { operation, source }) && operation@ == attempted
        && source@ == reported@
}

/// The status of a payment is the answer, and a failed request for it is an
/// error that says which request failed.
pub proof fn fetched_payments_are_told(
    backend: LnbitsBackend,
    hash: [u8; 32],
    identifier: PaymentIdentifier,
    fetched: Result<Payment, String>,
    paid: Result<MakePaymentResponse, PaymentError>,
    checked: Result<MakePaymentResponse, PaymentError>,
)
    requires
        call_ensures(pay_status_fetched, (&hash, fetched), paid),
        call_ensures(
            LnbitsBackend::outgoing_payment_fetched,
            (&backend, &identifier, fetched),
            checked,
        ),
    ensures
        match fetched {
            Ok(payment) => {
                &&& is_told(paid, PaymentIdentifier::PaymentHash(hash), payment)
                &&& is_told(checked, identifier, payment)
            },
            Err(source) => {
                &&& paid matches Err(error) && tells_failure(error, "payment-status"@, source)
                &&& checked matches Err(error) && tells_failure(
                    error,
                    "outgoing-payment-status"@,
                    source,
                )
            },
        },
{
}

/// A request to pay that failed is answered by what LNbits says of the payment,
/// unless it knows of none or says that it failed: then the failure stands.
pub proof fn lost_requests_are_recovered(
    hash: [u8; 32],
    source: String,
    found: Option<Payment>,
    res: Result<MakePaymentResponse, PaymentError>,
)
    requires
        call_ensures(pay_recovered, (&hash, source, found), res),
    ensures
        match found {
            Some(payment) => if is_unsettled(payment, "failed"@) {
                res matches Err(error) && tells_failure(error, "pay-invoice"@, source)
            } else {
                is_told(res, PaymentIdentifier::PaymentHash(hash), payment)
            },
            None => res matches Err(error) && tells_failure(error, "pay-invoice"@, source),
        },
{
}

/// A payment whose hash LNbits confirms is asked for, one that ended with an
/// error of the client is looked up, and another hash is an error.
pub proof fn requests_to_pay_are_confirmed(
    hash: [u8; 32],
    outcome: Result<String, String>,
    res: Result<PayStep<String>, PaymentError>,
)
    requires
        call_ensures(pay_done, (&hash, outcome), res),
    ensures
        match (outcome, res) {
            (Err(reported), Ok(PayStep::Recover { source })) => source@ == reported@,
            (Ok(text), Ok(PayStep::FetchStatus)) => is_hash(text@) && array_of(hex_bytes(text@))
                == hash,
            (Ok(text), Err(error)) => if is_hash(text@) {
                &&& array_of(hex_bytes(text@)) != hash
                &&& error == PaymentError::Backend(Error::PaymentHashMismatch)
            } else {
                error == PaymentError::Backend(Error::InvalidPaymentHash)
            },
            _ => false,
        },
{
}

/// Whether a payment is to be reported as received under a hash.
pub open spec fn is_received(text: Seq<char>, payment: Payment) -> bool {
    is_settled(payment) && payment.details.amount > 0 && is_hash(text)
}

/// Whether an answer reports a received payment: with exactly the millisatoshis
/// that came, under its hash, by the id of the wallet or else by its hash.
pub open spec fn reports(answer: WaitPaymentResponse, text: Seq<char>, payment: Payment) -> bool {
    &&& answer.payment_amount.value == payment.details.amount
    &&& answer.payment_amount.unit == CurrencyUnit::Msat
    &&& answer.payment_identifier == PaymentIdentifier::PaymentHash(array_of(hex_bytes(text)))
    &&& answer.payment_id@ == (if payment.details.checking_id@.len() > 0 {
        payment.details.checking_id@
    } else {
        text
    })
}

/// Whether a payment is reported as received, passed over because it is not
/// settled, or why neither.
pub open spec fn is_reported(
    res: Result<Option<WaitPaymentResponse>, Error<String>>,
    text: Seq<char>,
    payment: Payment,
) -> bool {
    match res {
        Ok(Some(answer)) => is_received(text, payment) && reports(answer, text, payment),
        Ok(None) => !is_settled(payment),
        Err(error) => {
            &&& is_settled(payment)
            &&& if payment.details.amount <= 0 {
                error == Error::<String>::InvalidIncomingAmount
            } else {
                !is_hash(text) && error == Error::<String>::InvalidPaymentHash
            }
        },
    }
}

/// Every settled payment that came in under a readable hash is reported with
/// exactly the millisatoshis that came.
pub proof fn received_payments_are_reported_in_full(
    text: &str,
    payment: Payment,
    res: Result<Option<WaitPaymentResponse>, Error<String>>,
)
    requires
        call_ensures(incoming_payment_response, (text, &payment), res),
    ensures
        is_reported(res, text@, payment),
        is_received(text@, payment) ==> (res matches Ok(Some(answer)) && reports(
            answer,
            text@,
            payment,
        )),
{
}

/// An incoming payment that was asked for is reported as any other is, and a
/// failed request for it is an error.
pub proof fn fetched_payments_are_reported_in_full(
    backend: LnbitsBackend,
    text: &str,
    fetched: Result<Payment, String>,
    res: Result<Option<WaitPaymentResponse>, PaymentError>,
)
    requires
        call_ensures(LnbitsBackend::incoming_payment_fetched, (&backend, text, fetched), res),
    ensures
        match (fetched, res) {
            (Ok(payment), Ok(answer)) => is_reported(Ok(answer), text@, payment),
            (Ok(payment), Err(PaymentError::Backend(error))) => is_reported(
                Err(error),
                text@,
                payment,
            ),
            (Err(source), Err(error)) => tells_failure(error, "incoming-payment-status"@, source),
            _ => false,
        },
{
}

/// A notification becomes an event exactly where LNbits says that the payment
/// came in, with what came.
pub proof fn notifications_become_events_of_what_came(
    text: &str,
    fetched: Option<Payment>,
    event: Option<Event>,
)
    requires
        call_ensures(process_websocket_message, (text, &fetched), event),
    ensures
        match (fetched, event) {
            (Some(payment), Some(Event::PaymentReceived(answer))) => is_received(text@, payment)
                && reports(answer, text@, payment),
            (Some(payment), None) => !is_received(text@, payment),
            (None, None) => true,
            _ => false,
        },
{
}

/// Whether LNbits is asked for exactly the satoshis that the mint named, with its
/// description, until the moment that it named.
pub open spec fn asks_for(
    res: Result<CreateInvoiceRequest, PaymentError>,
    options: IncomingPaymentOptions,
    now: u64,
) -> bool {
    match (options, res) {
        (IncomingPaymentOptions::Bolt11(asked), Ok(request)) => {
            &&& asked.amount.unit == CurrencyUnit::Sat
            &&& request.amount == asked.amount.value
            &&& request.amount > 0
            &&& request.unit@ == "sat"@
            &&& request.memo matches Some(memo) && match asked.description {
                Some(description) => memo@ == description@,
                None => memo@.len() == 0,
            }
            &&& match (asked.unix_expiry, request.expiry) {
                (Some(expiry), Some(secs)) => now + secs == expiry,
                (None, None) => true,
                _ => false,
            }
            &&& request.internal is None
            &&& !request.out
        },
        (IncomingPaymentOptions::Bolt11(asked), Err(error)) => {
            ||| asked.amount.unit != CurrencyUnit::Sat && error
                == PaymentError::UnsupportedUnit
            ||| asked.amount.value == 0 && error == PaymentError::AmountMismatch
            ||| asked.unix_expiry matches Some(expiry) && expiry < now && error
                == PaymentError::InvalidExpiry
        },
        (_, Ok(_)) => false,
        (_, Err(error)) => error == PaymentError::UnsupportedPaymentOption,
    }
}

/// LNbits is asked for exactly the satoshis that the mint named, with its
/// description, until the moment that it named.
pub proof fn requests_ask_for_what_was_named(
    backend: LnbitsBackend,
    options: IncomingPaymentOptions,
    now: u64,
    res: Result<CreateInvoiceRequest, PaymentError>,
    by_clock: Result<CreateInvoiceRequest, PaymentError>,
)
    requires
        call_ensures(invoice_request_at, (options, now), res),
        call_ensures(
            LnbitsBackend::create_incoming_payment_request,
            (&backend, options),
            by_clock,
        ),
    ensures
        asks_for(res, options, now),
        exists|at: u64| #[trigger] asks_for(by_clock, options, at),
{
    let at = choose|at: u64|
        crate::payment::result_view(by_clock) == #[trigger] crate::lnbits::backend::invoice_request(
            options,
            at,
        );
    assert(asks_for(by_clock, options, at));
}

/// Whether a created invoice is handed on: as it is, under its own hash, until it
/// expires, where LNbits reports that hash for it.
pub open spec fn is_handed_on(
    res: Result<CreateIncomingPaymentResponse, PaymentError>,
    invoice: Bolt11Invoice,
    text: Seq<char>,
) -> bool {
    match res {
        Ok(response) => {
            &&& is_hash(text)
            &&& array_of(hex_bytes(text)) == invoice.payment_hash
            &&& response.request_lookup_id == PaymentIdentifier::PaymentHash(invoice.payment_hash)
            &&& response.request@ == invoice.text@
            &&& response.expiry == invoice.expires_at
        },
        Err(error) => if is_hash(text) {
            &&& array_of(hex_bytes(text)) != invoice.payment_hash
            &&& error == PaymentError::Backend(Error::PaymentHashMismatch)
        } else {
            error == PaymentError::Backend(Error::InvalidPaymentHash)
        },
    }
}

/// A created invoice is handed on under its own hash.
pub proof fn created_invoices_are_handed_on(
    invoice: Bolt11Invoice,
    text: &str,
    res: Result<CreateIncomingPaymentResponse, PaymentError>,
)
    requires
        call_ensures(invoice_matched, (invoice, text), res),
    ensures
        is_handed_on(res, invoice, text@),
{
}

/// What LNbits created is read as an invoice and handed on; what is none, and a
/// failed request for one, is an error.
pub proof fn created_texts_are_read_and_handed_on(
    backend: LnbitsBackend,
    outcome: Result<CreatedInvoice, String>,
    res: Result<CreateIncomingPaymentResponse, PaymentError>,
)
    requires
        call_ensures(LnbitsBackend::invoice_created, (&backend, outcome), res),
    ensures
        match outcome {
            Err(source) => res matches Err(error) && tells_failure(
                error,
                "create-invoice"@,
                source,
            ),
            Ok(created) => match bolt11_read(created.bolt11@) {
                Err(words) => res matches Err(PaymentError::Parse(text)) && text@ == words,
                Ok((text, hash, _, expires_at)) => exists|invoice: Bolt11Invoice| #[trigger]
                    is_handed_on(res, invoice, created.payment_hash@) && invoice.text@ == text
                        && invoice.payment_hash@ == hash && invoice.expires_at == expires_at,
            },
        },
{
    if outcome is Ok && bolt11_read(outcome->Ok_0.bolt11@) is Ok {
        let created = outcome->Ok_0;
        let (text, hash, amount_msat, expires_at) = bolt11_read(created.bolt11@)->Ok_0;
        let invoice = choose|invoice: Bolt11Invoice|
            {
                &&& invoice.text@ == text
                &&& invoice.payment_hash@ == hash
                &&& invoice.amount_msat == amount_msat
                &&& invoice.expires_at == expires_at
                &&& crate::payment::result_view(res)
                    == #[trigger] crate::lnbits::backend::created_answer(
                    invoice,
                    created.payment_hash@,
                )
            };
        assert(is_handed_on(res, invoice, created.payment_hash@));
    }
}

/// Whether an invoice is due: it names an amount, and is to be paid whole. Its
/// satoshis are those that cover the amount.
pub open spec fn is_due(options: Bolt11OutgoingPaymentOptions, sats: u64) -> bool {
    &&& options.melt_options is None
    &&& options.bolt11.amount_msat matches Some(msat)
    &&& sats > 0
    &&& msat <= 1000 * sats < msat + 1000
}

/// Whether an error says why an invoice is not due.
pub open spec fn tells_not_due(error: PaymentError, options: Bolt11OutgoingPaymentOptions) -> bool {
    match (options.melt_options, options.bolt11.amount_msat) {
        (Some(_), _) => error == PaymentError::UnsupportedPaymentOption,
        (None, None) => error == PaymentError::Backend(Error::UnknownInvoiceAmount),
        (None, Some(msat)) => msat == 0 && error == PaymentError::AmountMismatch,
    }
}

/// Whether a payment is quoted or made: in satoshis, of an invoice that is due.
pub open spec fn tells_not_payable(
    error: PaymentError,
    unit: CurrencyUnit,
    options: OutgoingPaymentOptions,
) -> bool {
    if unit != CurrencyUnit::Sat {
        error == PaymentError::UnsupportedUnit
    } else {
        match options {
            OutgoingPaymentOptions::Bolt11(options) => tells_not_due(error, options),
            _ => error == PaymentError::UnsupportedPaymentOption,
        }
    }
}

/// The satoshis of a quote are the fewest that cover the millisatoshis of the
/// invoice.
pub proof fn quoted_satoshis_cover_the_invoice(
    unit: CurrencyUnit,
    invoice: Bolt11OutgoingPaymentOptions,
    options: OutgoingPaymentOptions,
    read: Result<u64, PaymentError>,
    quoted: Result<u64, PaymentError>,
)
    requires
        call_ensures(bolt11_amount_sat, (&invoice,), read),
        call_ensures(quote_amount_sat, (&unit, &options), quoted),
    ensures
        match read {
            Ok(sats) => is_due(invoice, sats),
            Err(error) => tells_not_due(error, invoice),
        },
        match quoted {
            Ok(sats) => {
                &&& unit == CurrencyUnit::Sat
                &&& options matches OutgoingPaymentOptions::Bolt11(asked)
                &&& is_due(asked, sats)
            },
            Err(error) => tells_not_payable(error, unit, options),
        },
{
}

/// A quote is over the fewest satoshis that cover the invoice, whose hash it
/// names, reserves the larger of the share and the minimum, and is not paid yet.
pub proof fn quotes_are_over_what_is_due(
    backend: LnbitsBackend,
    unit: CurrencyUnit,
    options: OutgoingPaymentOptions,
    relative: u64,
    res: Result<PaymentQuoteResponse, PaymentError>,
)
    requires
        call_ensures(
            LnbitsBackend::get_payment_quote,
            (&backend, &unit, &options, relative),
            res,
        ),
    ensures
        match res {
            Ok(quote) => {
                &&& unit == CurrencyUnit::Sat
                &&& options matches OutgoingPaymentOptions::Bolt11(asked)
                &&& is_due(asked, quote.amount.value)
                &&& quote.amount.unit == CurrencyUnit::Sat
                &&& quote.request_lookup_id == Some(
                    PaymentIdentifier::PaymentHash(asked.bolt11.payment_hash),
                )
                &&& reserves(quote.fee.value, backend, relative)
                &&& quote.fee.unit == CurrencyUnit::Sat
                &&& quote.state == MeltQuoteState::Unpaid
            },
            Err(error) => tells_not_payable(error, unit, options),
        },
{
}

/// Whether a fee is reserved: no less than the share and the minimum, and one of
/// them.
pub open spec fn reserves(fee: u64, backend: LnbitsBackend, relative: u64) -> bool {
    &&& fee >= relative
    &&& fee >= backend.fee_reserve_min_sat
    &&& fee == relative || fee == backend.fee_reserve_min_sat
}

/// The reserve is the larger of the share and the configured minimum.
pub proof fn reserves_are_the_larger_of_share_and_minimum(
    backend: LnbitsBackend,
    relative: u64,
    fee: u64,
)
    requires
        call_ensures(LnbitsBackend::fee_reserve, (&backend, relative), fee),
    ensures
        reserves(fee, backend, relative),
{
}

/// LNbits is asked to pay the invoice as it is, under its own hash, exactly where
/// it could be quoted.
pub proof fn payments_begin_as_asked(
    backend: LnbitsBackend,
    unit: CurrencyUnit,
    options: OutgoingPaymentOptions,
    res: Result<PayRequest, PaymentError>,
)
    requires
        call_ensures(LnbitsBackend::make_payment, (&backend, &unit, &options), res),
    ensures
        match res {
            Ok(request) => {
                &&& unit == CurrencyUnit::Sat
                &&& options matches OutgoingPaymentOptions::Bolt11(asked)
                &&& exists|sats: u64| #[trigger] is_due(asked, sats)
                &&& request.invoice@ == asked.bolt11.text@
                &&& request.payment_hash == asked.bolt11.payment_hash
                &&& request.payment_hash_hex@ == hex_text(asked.bolt11.payment_hash@)
            },
            Err(error) => tells_not_payable(error, unit, options),
        },
{
    if res is Ok {
        let asked = options->Bolt11_0;
        let sats = crate::lnbits::backend::invoice_sats(asked)->Ok_0;
        assert(is_due(asked, sats));
    }
}

/// Payments are looked up under their hash and under nothing else.
pub proof fn payments_are_looked_up_by_hash(
    backend: LnbitsBackend,
    identifier: PaymentIdentifier,
    plain: Result<String, Error<String>>,
    incoming: Result<String, PaymentError>,
    outgoing: Result<String, PaymentError>,
)
    requires
        call_ensures(payment_hash_hex, (&identifier,), plain),
        call_ensures(
            LnbitsBackend::check_incoming_payment_status,
            (&backend, &identifier),
            incoming,
        ),
        call_ensures(LnbitsBackend::check_outgoing_payment, (&backend, &identifier), outgoing),
    ensures
        match identifier {
            PaymentIdentifier::PaymentHash(hash) => {
                &&& plain matches Ok(text) && text@ == hex_text(hash@)
                &&& incoming matches Ok(text) && text@ == hex_text(hash@)
                &&& outgoing matches Ok(text) && text@ == hex_text(hash@)
            },
            _ => {
                &&& plain matches Err(Error::UnsupportedPaymentIdentifier)
                &&& incoming matches Err(
                    PaymentError::Backend(Error::UnsupportedPaymentIdentifier),
                )
                &&& outgoing matches Err(
                    PaymentError::Backend(Error::UnsupportedPaymentIdentifier),
                )
            },
        },
{
}

/// Whether settings name what is supported: satoshis, on invoices with an amount,
/// and no parts.
pub open spec fn names_what_is_supported(settings: SettingsResponse) -> bool {
    &&& settings.unit@ == "sat"@
    &&& settings.bolt11 matches Some(bolt11) && !bolt11.mpp && !bolt11.amountless
        && bolt11.invoice_description
    &&& settings.bolt12 is None
    &&& settings.onchain is None
    &&& settings.custom@.len() == 0
}

/// The backend works in satoshis and in nothing else, on invoices with an amount,
/// and pays no parts.
pub proof fn settings_tell_what_is_supported(
    backend: LnbitsBackend,
    unit: CurrencyUnit,
    plain: SettingsResponse,
    settings: SettingsResponse,
    res: Result<(), PaymentError>,
)
    requires
        call_ensures(settings_response, (), plain),
        call_ensures(LnbitsBackend::get_settings, (&backend,), settings),
        call_ensures(ensure_sat_unit, (&unit,), res),
    ensures
        names_what_is_supported(plain),
        names_what_is_supported(settings),
        res is Ok <==> unit == CurrencyUnit::Sat,
        res matches Err(error) ==> error == PaymentError::UnsupportedUnit,
{
}

/// The backend has started once its subscription was opened, and never stops
/// having started.
pub proof fn backends_start_once_they_are_subscribed(outcome: Result<(), String>)
    ensures
        forall|backend: LnbitsBackend, step: StartStep| #[trigger]
            call_ensures(LnbitsBackend::ensure_started, (&backend,), step) ==> (step
                == StartStep::Ready <==> backend.started),
        forall|res: Result<(), Error<String>>| #[trigger]
            call_ensures(LnbitsBackend::wallet_checked, (outcome,), res) ==> match (outcome, res) {
                (Ok(_), Ok(_)) => true,
                (Err(reported), Err(Error::Api { operation, source })) => operation@
                    == "wallet-info"@ && source@ == reported@,
                _ => false,
            },
        forall|backend: &mut LnbitsBackend, opened: bool, res: Result<(), Error<String>>| #[trigger]
            call_ensures(LnbitsBackend::subscribe_websocket, (backend, opened), res) ==> {
                &&& res is Ok <==> opened
                &&& res matches Err(error) ==> error == Error::<String>::WebsocketConnection
                &&& (*final(backend)).started <==> (*backend).started || opened
                &&& *final(backend) == (LnbitsBackend {
                    started: (*final(backend)).started,
                    ..*backend
                })
            },
{
}

/// One event stream is active at a time, and a second one is refused. Ending one
/// makes room for another; stopping ends them for good.
pub proof fn one_event_stream_is_active_at_a_time()
    ensures
        forall|backend: &mut LnbitsBackend, res: Result<(), Error<String>>| #[trigger]
            call_ensures(LnbitsBackend::wait_payment_event, (backend,), res) ==> {
                &&& res is Ok <==> !(*backend).event_stream_active
                &&& res matches Err(error) ==> error == Error::<String>::EventStreamAlreadyActive
                &&& *final(backend) == (LnbitsBackend { event_stream_active: true, ..*backend })
            },
        forall|backend: &mut LnbitsBackend, done: ()| #[trigger]
            call_ensures(LnbitsBackend::event_stream_ended, (backend,), done) ==> *final(backend)
                == (LnbitsBackend { event_stream_active: false, ..*backend }),
        forall|backend: LnbitsBackend, active: bool| #[trigger]
            call_ensures(LnbitsBackend::is_payment_event_stream_active, (&backend,), active)
                ==> active == backend.event_stream_active,
        forall|backend: &mut LnbitsBackend, done: ()| #[trigger]
            call_ensures(LnbitsBackend::cancel_payment_event_stream, (backend,), done)
                ==> *final(backend) == (LnbitsBackend {
                event_stream_active: false,
                events_cancelled: true,
                ..*backend
            }),
        forall|backend: &mut LnbitsBackend, done: ()| #[trigger]
            call_ensures(LnbitsBackend::stop, (backend,), done) ==> *final(backend) == (
            LnbitsBackend { event_stream_active: false, events_cancelled: true, ..*backend }),
{
}

/// Whether a wait after so many failures is what it should be: it doubles from one
/// second, and is ten seconds at most.
pub open spec fn is_wait(secs: u64, failures: u32) -> bool {
    &&& failures < 4 ==> secs == vstd::arithmetic::power2::pow2(failures as nat)
    &&& failures >= 4 ==> secs == 10
}

/// A stream that hears of a payment asks for it and counts no failures. One whose
/// websocket closed waits the longer the more tries failed, and then subscribes
/// again. One that is to end stops.
pub proof fn streams_ask_for_what_they_hear_of(input: StreamInput, cancelled: bool, ok: bool)
    ensures
        forall|state: EventStreamState| #[trigger]
            call_ensures(EventStreamState::new, (), state) ==> state.retry_count == 0,
        forall|state: EventStreamState, secs: u64| #[trigger]
            call_ensures(EventStreamState::retry_delay, (&state,), secs) ==> is_wait(
                secs,
                state.retry_count,
            ),
        forall|state: &mut EventStreamState, step: StreamStep| #[trigger]
            call_ensures(EventStreamState::heard, (state, input), step) ==> match (input, step) {
                (StreamInput::Cancelled, StreamStep::Stop) => *final(state) == *state,
                (StreamInput::Notification(hash), StreamStep::Fetch(text)) => text@ == hash@
                    && (*final(state)).retry_count == 0,
                (StreamInput::Closed, StreamStep::Pause(secs)) => is_wait(
                    secs,
                    (*state).retry_count,
                ) && *final(state) == *state,
                _ => false,
            },
        forall|state: EventStreamState, step: StreamStep| #[trigger]
            call_ensures(EventStreamState::paused, (&state, cancelled), step) ==> match step {
                StreamStep::Stop => cancelled,
                StreamStep::Subscribe => !cancelled,
                _ => false,
            },
        forall|state: &mut EventStreamState, done: ()| #[trigger]
            call_ensures(EventStreamState::reconnected, (state, ok), done) ==> {
                let failures = (*final(state)).retry_count;
                &&& ok ==> failures == 0
                &&& !ok && (*state).retry_count < u32::MAX ==> failures == (*state).retry_count + 1
                &&& !ok && (*state).retry_count == u32::MAX ==> failures == u32::MAX
            },
{
    vstd::arithmetic::power2::lemma2_to64();
}

/// Whether the bits of a single-precision number are those of a finite number
/// that is not negative: a clear sign and an exponent that is not all ones, or
/// nothing but the sign.
pub open spec fn is_share(bits: u32) -> bool {
    &&& bits < 0x8000_0000 || bits == 0x8000_0000
    &&& bits < 0x8000_0000 ==> bits / 0x80_0000 != 0xFF
}

/// Whether something is wrong with a configuration: the first of its keys, its
/// URL and its share that is not as it should be.
pub open spec fn is_wrong(setting: InvalidSetting, config: BackendConfig) -> bool {
    let admin = trimmed(config.admin_api_key@).len() > 0;
    let invoice = trimmed(config.invoice_api_key@).len() > 0;
    let url = trimmed(config.api_url@).len() > 0;
    match setting {
        InvalidSetting::AdminApiKey => !admin,
        InvalidSetting::InvoiceApiKey => admin && !invoice,
        InvalidSetting::ApiUrl => admin && invoice && !url,
        InvalidSetting::FeeReservePercent => admin && invoice && url && !is_share(
            config.fee_reserve_percent_bits,
        ),
    }
}

/// Whether nothing is wrong with a configuration.
pub open spec fn is_right(config: BackendConfig) -> bool {
    &&& trimmed(config.admin_api_key@).len() > 0
    &&& trimmed(config.invoice_api_key@).len() > 0
    &&& trimmed(config.api_url@).len() > 0
    &&& is_share(config.fee_reserve_percent_bits)
}

/// A configuration is accepted exactly where it has both keys, a URL and a share
/// that is finite and not negative.
pub proof fn accepted_configurations_are_right(
    config: BackendConfig,
    res: Result<(), InvalidSetting>,
)
    requires
        call_ensures(BackendConfig::validate, (&config,), res),
    ensures
        match res {
            Ok(_) => is_right(config),
            Err(setting) => !is_right(config) && is_wrong(setting, config),
        },
{
}

/// Whether a text is the root of an instance, with a slash at its end: its URL
/// without the space around it, without the slashes at its end and without the path
/// of its API.
pub open spec fn is_root(root: Seq<char>, url: Seq<char>) -> bool {
    exists|bare: Seq<char>| #[trigger]
        precedes_run(trimmed(url), bare, '/') && root.len() > 0 && root.last() == '/' && {
            ||| bare == root.drop_last() + "/api/v1"@
            ||| bare == root.drop_last() && !has_suffix(bare, "/api/v1"@)
        }
}

/// An instance is reached under its root, whether its own URL is given or that of
/// its API.
pub proof fn instances_are_reached_under_their_root(url: &str, root: String)
    requires
        call_ensures(normalize_api_url, (url,), root),
    ensures
        is_root(root@, url@),
{
    lemma_root(url@);
}

proof fn lemma_root(url: Seq<char>)
    ensures
        is_root(instance_root(url), url),
{
    let text = trimmed(url);
    let bare = trim_end_char(text, '/');
    let root = instance_root(url);
    lemma_precedes_run(text, '/');
    reveal_strlit("/");
    if has_suffix(bare, "/api/v1"@) {
        let rest = bare.subrange(0, bare.len() - "/api/v1"@.len());
        assert(root.drop_last() =~= rest);
        assert(bare =~= rest + bare.subrange(bare.len() - "/api/v1"@.len(), bare.len() as int));
    } else {
        assert(root.drop_last() =~= bare);
    }
    assert(precedes_run(text, bare, '/'));
}

/// A backend is made of a configuration that is accepted, with its reserve and its
/// keys, and has not started.
pub proof fn backends_are_made_of_accepted_configurations(
    config: BackendConfig,
    res: Result<(LnbitsBackend, Connection), Error<String>>,
)
    requires
        call_ensures(LnbitsBackend::new, (config,), res),
    ensures
        match res {
            Ok(made) => {
                &&& is_right(config)
                &&& made.0.fee_reserve_min_sat == config.fee_reserve_min_sat
                &&& made.0.fee_reserve_percent_bits == config.fee_reserve_percent_bits
                &&& !made.0.started
                &&& !made.0.event_stream_active
                &&& !made.0.events_cancelled
                &&& made.1.admin_api_key@ == config.admin_api_key@
                &&& made.1.invoice_api_key@ == config.invoice_api_key@
                &&& is_root(made.1.api_url@, config.api_url@)
            },
            Err(error) => {
                &&& !is_right(config)
                &&& error matches Error::InvalidConfiguration(words)
                &&& exists|setting: InvalidSetting| #[trigger]
                    is_wrong(setting, config) && words@ == setting.words()
            },
        },
{
    lemma_root(config.api_url@);
    if let Some(setting) = settings::config_refusal(config) {
        assert(is_wrong(setting, config));
    }
}

/// What is not configured has its default: two satoshis and two percent for fees,
/// this machine on the port that mints expect, and no transport chosen. A
/// configuration is the default exactly where nothing is configured.
pub proof fn defaults_are_safe(
    backend: BackendConfig,
    config: Config,
    given: BackendConfig,
    is_default: bool,
)
    requires
        call_ensures(BackendConfig::default, (), backend),
        call_ensures(Config::default, (), config),
        call_ensures(BackendConfig::is_default, (&given,), is_default),
    ensures
        is_unset(backend),
        is_unset(config.lnbits),
        is_default <==> is_unset(given),
        config.address@ == "127.0.0.1"@,
        config.port == 50051,
        !config.tls_enable,
        !config.allow_insecure,
        config.tls_cert_path@ == "certs/server.crt"@,
        config.tls_key_path@ == "certs/server.key"@,
        config.tls_client_ca_path@ == "certs/ca.pem"@,
{
}

/// Each default is the one that a configuration begins with.
pub proof fn defaults_are_those_of_configurations()
    ensures
        forall|sats: u64| #[trigger]
            call_ensures(settings::default_fee_reserve_min_sat, (), sats) ==> sats == 2,
        forall|bits: u32| #[trigger]
            call_ensures(settings::default_fee_reserve_percent_bits, (), bits) ==> bits
                == 0x3CA3_D70A,
        forall|text: String| #[trigger]
            call_ensures(settings::default_address, (), text) ==> text@ == "127.0.0.1"@,
        forall|port: u16| #[trigger]
            call_ensures(settings::default_port, (), port) ==> port == 50051,
        forall|text: String| #[trigger]
            call_ensures(settings::default_tls_cert_path, (), text) ==> text@
                == "certs/server.crt"@,
        forall|text: String| #[trigger]
            call_ensures(settings::default_tls_key_path, (), text) ==> text@ == "certs/server.key"@,
        forall|text: String| #[trigger]
            call_ensures(settings::default_tls_client_ca_path, (), text) ==> text@
                == "certs/ca.pem"@,
{
}

/// Errors say in words what is wrong, with what was attempted and what was reported.
pub proof fn errors_say_what_is_wrong(
    error: Error<String>,
    words: String,
    setting: InvalidSetting,
    named: String,
)
    requires
        call_ensures(Error::<String>::message, (&error,), words),
        call_ensures(InvalidSetting::message, (&setting,), named),
    ensures
        match error {
            Error::InvalidConfiguration(why) => words@ == "invalid LNbits configuration: "@ + why@,
            Error::Client(why) => words@ == "failed to create LNbits client: "@ + why@,
            Error::Api { operation, source } => words@ == "LNbits "@ + operation@ + (
            " request failed: "@ + source@),
            Error::WebsocketConnection => words@ == "failed to connect to the LNbits websocket"@,
            Error::UnknownInvoiceAmount => words@ == "invoice amount is required"@,
            Error::AmountOverflow => words@ == "LNbits payment amount overflow"@,
            Error::InvalidPaymentHash => words@ == "invalid LNbits payment hash"@,
            Error::PaymentHashMismatch => words@
                == "LNbits response payment hash does not match the invoice"@,
            Error::UnsupportedPaymentIdentifier => words@
                == "unsupported LNbits payment identifier type"@,
            Error::EventStreamAlreadyActive => words@
                == "an LNbits payment event stream is already active"@,
            Error::InvalidIncomingAmount => words@
                == "LNbits incoming payment has an invalid amount or direction"@,
        },
        match setting {
            InvalidSetting::AdminApiKey => named@ == "lnbits.admin_api_key is required"@,
            InvalidSetting::InvoiceApiKey => named@ == "lnbits.invoice_api_key is required"@,
            InvalidSetting::ApiUrl => named@ == "lnbits.api_url is required"@,
            InvalidSetting::FeeReservePercent => named@
                == "lnbits.fee_reserve_percent must be a finite, non-negative number"@,
        },
{
}

/// Whether nothing is configured.
pub open spec fn is_unset(config: BackendConfig) -> bool {
    &&& config.admin_api_key@.len() == 0
    &&& config.invoice_api_key@.len() == 0
    &&& config.api_url@.len() == 0
    &&& config.fee_reserve_min_sat == 2
    &&& config.fee_reserve_percent_bits == 0x3CA3_D70A
}

/// A configuration is read by its current names, else by its former ones, else it
/// has its defaults.
pub proof fn current_names_come_before_former_ones(repr: BackendConfigRepr, config: BackendConfig)
    requires
        call_ensures(BackendConfig::from_repr, (repr,), config),
    ensures
        config.admin_api_key@ == repr.admin_api_key@,
        config.invoice_api_key@ == repr.invoice_api_key@,
        repr.api_url matches Some(url) ==> config.api_url@ == url@,
        repr.api_url is None ==> (repr.lnbits_api matches Some(url) ==> config.api_url@ == url@),
        repr.api_url is None && repr.lnbits_api is None ==> config.api_url@.len() == 0,
        repr.fee_reserve_min_sat matches Some(sats) ==> config.fee_reserve_min_sat == sats,
        repr.fee_reserve_min_sat is None ==> (repr.reserve_fee_min matches Some(sats)
            ==> config.fee_reserve_min_sat == sats),
        repr.fee_reserve_min_sat is None && repr.reserve_fee_min is None
            ==> config.fee_reserve_min_sat == 2,
        repr.fee_reserve_percent_bits matches Some(bits) ==> config.fee_reserve_percent_bits
            == bits,
        repr.fee_reserve_percent_bits is None ==> (repr.fee_percent_bits matches Some(bits)
            ==> config.fee_reserve_percent_bits == bits),
        repr.fee_reserve_percent_bits is None && repr.fee_percent_bits is None
            ==> config.fee_reserve_percent_bits == 0x3CA3_D70A,
{
}

/// A shown configuration holds no key, and all the rest.
pub proof fn shown_configurations_hold_no_secret(
    config: BackendConfig,
    shown: RedactedBackendConfig,
)
    requires
        call_ensures(BackendConfig::redacted, (&config,), shown),
    ensures
        shown.admin_api_key@ == "[REDACTED]"@,
        shown.invoice_api_key@ == "[REDACTED]"@,
        shown.api_url@ == config.api_url@,
        shown.fee_reserve_min_sat == config.fee_reserve_min_sat,
        shown.fee_reserve_percent_bits == config.fee_reserve_percent_bits,
{
}

} // verus!
