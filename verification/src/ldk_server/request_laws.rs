//! What the LDK Server backend asks of its node and quotes to the mint, in terms
//! of what the mint asked for.

use vstd::prelude::*;

use crate::encoding::{array_of, hex_bytes};
use crate::ldk_server::answer_laws::{is_id, tells_no_id};
use crate::ldk_server::backend::{
    bare_address, bolt11_amount_msat_for_quote, bolt11_amount_msat_for_send,
    bolt12_amount_msat_for_quote, bolt12_amount_msat_for_send, bolt12_melt_options_amount_msat,
    create_incoming_payment_request, expiry_after, expiry_secs, expiry_secs_at,
    expiry_secs_or_default, expiry_secs_or_default_at, invoice_created, invoice_created_at,
    invoice_expiry_after, make_payment, normalize_address, offer_created, receive_request_at,
    route_parameters_from_max_fee, validate_bolt12_amount_msat, Config, Connection,
    LdkServerBackend, PaymentStart, ReceiveRequest, RedactedConfig, RouteParametersConfig,
    SendRequest,
};
use crate::ldk_server::correlator::{
    OutgoingPaymentCorrelator, OUTGOING_CONTEXT_TTL_NS, UNMATCHED_OUTGOING_EVENT_TTL_NS,
};
use crate::ldk_server::error::Error;
use crate::ldk_server::payments::{PaymentError, PaymentErrorView};
use crate::ldk_server::settings;
use crate::ldk_server::settings::{BackendConfig, MissingSetting};
use crate::payment::{
    Amount, AmountError, Bolt11OutgoingPaymentOptions, Bolt12Offer, Bolt12OutgoingPaymentOptions,
    CreateIncomingPaymentResponse, CurrencyUnit, IncomingPaymentOptions, MeltOptions,
    MeltQuoteState, OfferAmount, OutgoingPaymentOptions, PaymentIdentifier, PaymentQuoteResponse,
    SettingsResponse,
};
use crate::payment_laws::{is_rounded_down, worth_msat};
use crate::text::{has_prefix, trimmed};
use crate::text_laws::{lemma_precedes_run, precedes_run};

verus! {

/// Whether a number of millisatoshis is what an amount is worth.
pub open spec fn is_worth(msat: u64, amount: Amount) -> bool {
    worth_msat(amount.value, amount.unit) == Some(msat as int)
}

/// Whether an error says why an amount is no number of millisatoshis: it is too
/// much, or not an amount of Bitcoin.
pub open spec fn tells_worthless(error: PaymentError, amount: Amount) -> bool {
    match worth_msat(amount.value, amount.unit) {
        Some(worth) => worth > u64::MAX && error == PaymentError::Amount(
            AmountError::AmountOverflow,
        ),
        None => error == PaymentError::Amount(AmountError::CannotConvertUnits),
    }
}

/// Whether a moment lies so many seconds after another.
pub open spec fn is_after(unix_expiry: u64, secs: u32, now: u64) -> bool {
    now + secs == unix_expiry
}

/// Whether a moment cannot be reached in a number of seconds that fits.
pub open spec fn is_out_of_reach(unix_expiry: u64, now: u64) -> bool {
    unix_expiry < now || unix_expiry > now + u32::MAX
}

/// Whether a description is the one that the mint gave, or empty.
pub open spec fn describes(text: String, description: Option<String>) -> bool {
    match description {
        Some(description) => text@ == description@,
        None => text@.len() == 0,
    }
}

/// Whether an expiry is kept to the second, or refused because it lies in the past
/// or too far ahead.
pub open spec fn keeps_expiry(res: Result<u32, PaymentError>, unix_expiry: u64, now: u64) -> bool {
    match res {
        Ok(secs) => is_after(unix_expiry, secs, now),
        Err(error) => is_out_of_reach(unix_expiry, now) && error == PaymentError::InvalidExpiry,
    }
}

/// An expiry is kept to the second, and refused where it lies in the past or too
/// far ahead.
pub proof fn expiries_are_kept_to_the_second(
    unix_expiry: u64,
    now: u64,
    res: Result<u32, PaymentError>,
)
    requires
        call_ensures(expiry_secs_at, (unix_expiry, now), res),
    ensures
        keeps_expiry(res, unix_expiry, now),
{
}

/// By the clock an expiry is kept to the second too.
pub proof fn expiries_are_kept_by_the_clock(unix_expiry: u64, res: Result<u32, PaymentError>)
    requires
        call_ensures(expiry_secs, (unix_expiry,), res),
    ensures
        exists|now: u64| #[trigger] keeps_expiry(res, unix_expiry, now),
{
    let now = choose|now: u64|
        match res {
            Ok(secs) => #[trigger] expiry_after(unix_expiry, now) == Ok::<u32, PaymentErrorView>(
                secs,
            ),
            Err(error) => expiry_after(unix_expiry, now) == Err::<u32, PaymentErrorView>(
                error.deep_view(),
            ),
        };
    assert(keeps_expiry(res, unix_expiry, now));
}

/// An invoice expires when the mint says, and in ten hours where it does not.
pub proof fn invoices_expire_when_asked(
    unix_expiry: Option<u64>,
    now: u64,
    res: Result<u32, PaymentError>,
)
    requires
        call_ensures(expiry_secs_or_default_at, (unix_expiry, now), res),
    ensures
        match (unix_expiry, res) {
            (None, res) => res == Ok::<u32, PaymentError>(36_000),
            (Some(unix_expiry), res) => keeps_expiry(res, unix_expiry, now),
        },
{
}

/// By the clock an invoice expires when the mint says too, and in ten hours where
/// it does not.
pub proof fn invoices_expire_by_the_clock(
    unix_expiry: Option<u64>,
    res: Result<u32, PaymentError>,
)
    requires
        call_ensures(expiry_secs_or_default, (unix_expiry,), res),
    ensures
        match unix_expiry {
            None => res == Ok::<u32, PaymentError>(36_000),
            Some(unix_expiry) => exists|now: u64| #[trigger] keeps_expiry(res, unix_expiry, now),
        },
{
    if unix_expiry is Some {
        let now = choose|now: u64|
            match res {
                Ok(secs) => #[trigger] invoice_expiry_after(unix_expiry, now) == Ok::<
                    u32,
                    PaymentErrorView,
                >(secs),
                Err(error) => invoice_expiry_after(unix_expiry, now) == Err::<
                    u32,
                    PaymentErrorView,
                >(error.deep_view()),
            };
        assert(keeps_expiry(res, unix_expiry->0, now));
    }
}

/// Whether the node is asked for what the mint asked for: an invoice over what the
/// amount is worth, an offer over an amount exactly where the mint named one and
/// over what it is worth, with the description and the expiry that were given.
pub open spec fn asks_for(
    res: Result<ReceiveRequest<String>, PaymentError>,
    options: IncomingPaymentOptions,
    now: u64,
) -> bool {
    match (options, res) {
        (
            IncomingPaymentOptions::Bolt11(asked),
            Ok(ReceiveRequest::Bolt11 { amount_msat, description, invoice_expiry_secs }),
        ) => {
            &&& is_worth(amount_msat, asked.amount)
            &&& describes(description, asked.description)
            &&& match asked.unix_expiry {
                Some(unix_expiry) => is_after(unix_expiry, invoice_expiry_secs, now),
                None => invoice_expiry_secs == 36_000,
            }
        },
        (
            IncomingPaymentOptions::Bolt12(asked),
            Ok(
                ReceiveRequest::Bolt12 {
                    offer_amount_msat,
                    offer_description,
                    offer_expiry_secs,
                },
            ),
        ) => {
            &&& match (asked.amount, offer_amount_msat) {
                (Some(amount), Some(msat)) => is_worth(msat, amount),
                (None, None) => true,
                _ => false,
            }
            &&& describes(offer_description, asked.description)
            &&& match (asked.unix_expiry, offer_expiry_secs) {
                (Some(unix_expiry), Some(secs)) => is_after(unix_expiry, secs, now),
                (None, None) => true,
                _ => false,
            }
        },
        (_, Ok(_)) => false,
        (IncomingPaymentOptions::Bolt11(asked), Err(error)) => {
            ||| tells_worthless(error, asked.amount)
            ||| asked.unix_expiry matches Some(unix_expiry) && is_out_of_reach(unix_expiry, now)
                && error == PaymentError::InvalidExpiry
        },
        (IncomingPaymentOptions::Bolt12(asked), Err(error)) => {
            ||| asked.amount matches Some(amount) && tells_worthless(error, amount)
            ||| asked.unix_expiry matches Some(unix_expiry) && is_out_of_reach(unix_expiry, now)
                && error == PaymentError::InvalidExpiry
        },
        (_, Err(error)) => error == PaymentError::UnsupportedPaymentOption,
    }
}

/// The node is asked for what the mint asked for: for an amount exactly where the
/// mint named one, and for what it is worth.
pub proof fn requests_ask_for_what_was_named(
    options: IncomingPaymentOptions,
    now: u64,
    res: Result<ReceiveRequest<String>, PaymentError>,
)
    requires
        call_ensures(receive_request_at, (options, now), res),
    ensures
        asks_for(res, options, now),
        res matches Ok(ReceiveRequest::Bolt12 { offer_amount_msat, .. }) ==> (
        offer_amount_msat is Some <==> (options matches IncomingPaymentOptions::Bolt12(asked)
            && asked.amount is Some)),
{
}

/// What the clock says does not change what is asked for but the expiry.
pub proof fn requests_now_ask_for_what_was_named(
    options: IncomingPaymentOptions,
    res: Result<ReceiveRequest<String>, PaymentError>,
)
    requires
        call_ensures(create_incoming_payment_request, (options,), res),
    ensures
        exists|now: u64| #[trigger] asks_for(res, options, now),
{
    let now = choose|now: u64|
        crate::payment::result_view(res) == #[trigger] crate::ldk_server::backend::receive_request(
            options,
            now,
        );
    assert(asks_for(res, options, now));
}

/// Whether a created invoice is handed on as it is, looked up under its hash, until
/// it expires.
pub open spec fn hands_on_invoice(
    res: Result<CreateIncomingPaymentResponse, PaymentError>,
    payment_hash: Seq<char>,
    invoice: Seq<char>,
    expiry_secs: u32,
    now: u64,
) -> bool {
    match res {
        Ok(response) => {
            &&& is_id(payment_hash)
            &&& response.request_lookup_id == PaymentIdentifier::PaymentHash(
                array_of(hex_bytes(payment_hash)),
            )
            &&& response.request@ == invoice
            &&& response.expiry matches Some(expiry)
            &&& is_after(expiry, expiry_secs, now) || (expiry == u64::MAX && now + expiry_secs
                > u64::MAX)
        },
        Err(error) => error matches PaymentError::Backend(error) && tells_no_id(
            error,
            payment_hash,
        ),
    }
}

/// A created invoice is handed on as it is, looked up under its hash, until it
/// expires.
pub proof fn created_invoices_are_handed_on(
    payment_hash: &str,
    invoice: String,
    expiry_secs: u32,
    now: u64,
    res: Result<CreateIncomingPaymentResponse, PaymentError>,
    by_clock: Result<CreateIncomingPaymentResponse, PaymentError>,
)
    requires
        call_ensures(invoice_created_at, (payment_hash, invoice, expiry_secs, now), res),
        call_ensures(invoice_created, (payment_hash, invoice, expiry_secs), by_clock),
    ensures
        hands_on_invoice(res, payment_hash@, invoice@, expiry_secs, now),
        exists|at: u64| #[trigger]
            hands_on_invoice(by_clock, payment_hash@, invoice@, expiry_secs, at),
{
    let at = choose|at: u64|
        crate::payment::result_view(by_clock)
            == #[trigger] crate::ldk_server::backend::invoice_answer(
            payment_hash@,
            invoice@,
            expiry_secs,
            at,
        );
    assert(hands_on_invoice(by_clock, payment_hash@, invoice@, expiry_secs, at));
}

/// A created offer is handed on as it is, looked up under its id, until it
/// expires.
pub proof fn created_offers_are_handed_on(
    offer_id: String,
    offer: String,
    unix_expiry: Option<u64>,
    response: CreateIncomingPaymentResponse,
)
    requires
        call_ensures(offer_created, (offer_id, offer, unix_expiry), response),
    ensures
        response.request_lookup_id == PaymentIdentifier::OfferId(offer_id),
        response.request@ == offer@,
        response.expiry == unix_expiry,
{
}

/// The millisatoshis that an invoice names, and those that an offer names.
pub open spec fn named_msat(options: OutgoingPaymentOptions) -> Option<u64> {
    match options {
        OutgoingPaymentOptions::Bolt11(options) => options.bolt11.amount_msat,
        OutgoingPaymentOptions::Bolt12(options) => match options.offer.amount {
            Some(OfferAmount::Bitcoin { amount_msats }) => Some(amount_msats),
            _ => None,
        },
        _ => None,
    }
}

/// How a quote asks to be paid.
pub open spec fn melt_options_of(options: OutgoingPaymentOptions) -> Option<MeltOptions> {
    match options {
        OutgoingPaymentOptions::Bolt11(options) => options.melt_options,
        OutgoingPaymentOptions::Bolt12(options) => options.melt_options,
        _ => None,
    }
}

/// Whether an offer names an amount that is none of Bitcoin.
pub open spec fn names_currency(options: OutgoingPaymentOptions) -> bool {
    options matches OutgoingPaymentOptions::Bolt12(options) && options.offer.amount
        == Some(OfferAmount::Currency)
}

/// Whether the amount that the mint chose can be paid: it is the one that the
/// invoice or the offer names, or none is named there.
pub open spec fn may_choose(options: OutgoingPaymentOptions, amount_msat: u64) -> bool {
    !names_currency(options) && (named_msat(options) matches Some(named) ==> named == amount_msat)
}

/// Whether so many millisatoshis are to be paid: those that the mint chose, where
/// it chose, and otherwise those that are named.
pub open spec fn is_due(options: OutgoingPaymentOptions, msat: u64) -> bool {
    match melt_options_of(options) {
        Some(MeltOptions::Amountless { amount_msat }) => msat == amount_msat && may_choose(
            options,
            amount_msat,
        ),
        Some(MeltOptions::Mpp { amount }) => options is Bolt11 && msat == amount,
        None => named_msat(options) == Some(msat),
    }
}

/// Whether an error says why nothing can be quoted: the amount that the mint
/// chose is not the one named, none is named, or a part of an offer is asked
/// for.
pub open spec fn tells_nothing_due(error: PaymentError, options: OutgoingPaymentOptions) -> bool {
    match melt_options_of(options) {
        Some(MeltOptions::Amountless { amount_msat }) => {
            !may_choose(options, amount_msat) && error == PaymentError::AmountMismatch
        },
        Some(MeltOptions::Mpp { .. }) => {
            options is Bolt12 && error == PaymentError::UnsupportedPaymentOption
        },
        None => named_msat(options) is None && match options {
            OutgoingPaymentOptions::Bolt11(_) => error == PaymentError::Backend(
                Error::UnknownInvoiceAmount,
            ),
            OutgoingPaymentOptions::Bolt12(_) => error == PaymentError::AmountMismatch,
            _ => error == PaymentError::UnsupportedPaymentOption,
        },
    }
}

/// Whether a quote is over what is to be paid: exactly in millisatoshis, rounded
/// down in satoshis.
pub open spec fn quotes_what_is_due(
    res: Result<Amount, PaymentError>,
    unit: CurrencyUnit,
    options: OutgoingPaymentOptions,
) -> bool {
    match res {
        Ok(amount) => {
            &&& amount.unit == unit
            &&& exists|msat: u64| #[trigger]
                is_due(options, msat) && is_rounded_down(amount, msat as int)
        },
        Err(error) => {
            ||| tells_nothing_due(error, options)
            ||| unit != CurrencyUnit::Sat && unit != CurrencyUnit::Msat && error
                == PaymentError::Amount(AmountError::CannotConvertUnits)
        },
    }
}

/// What is to be paid is one amount at most, and there is one unless there is a
/// reason why not.
pub proof fn one_amount_is_due(options: OutgoingPaymentOptions, a: u64, b: u64)
    ensures
        is_due(options, a) && is_due(options, b) ==> a == b,
        forall|error: PaymentError|
            is_due(options, a) ==> !#[trigger] tells_nothing_due(error, options),
{
}

/// The amount due, whatever is paid: what the mint chose, or what is named.
spec fn due_msat(options: OutgoingPaymentOptions) -> u64 {
    match melt_options_of(options) {
        Some(MeltOptions::Amountless { amount_msat }) => amount_msat,
        Some(MeltOptions::Mpp { amount }) => amount,
        None => named_msat(options)->0,
    }
}

/// A quote in millisatoshis is over exactly the millisatoshis to be paid, and one
/// in satoshis over that amount rounded down, for an invoice as for an offer.
pub proof fn quotes_are_over_what_is_due(
    unit: CurrencyUnit,
    options: OutgoingPaymentOptions,
    res: Result<Amount, PaymentError>,
)
    requires
        call_ensures(LdkServerBackend::quote_amount, (&unit, &options), res),
    ensures
        quotes_what_is_due(res, unit, options),
        res matches Ok(amount) ==> forall|msat: u64| #[trigger]
            is_due(options, msat) ==> match unit {
                CurrencyUnit::Msat => amount.value == msat,
                CurrencyUnit::Sat => 1000 * amount.value <= msat < 1000 * amount.value + 1000,
                _ => false,
            },
{
    if res is Ok {
        assert(is_due(options, due_msat(options)));
    }
}

/// A whole quote is over what is to be paid, for an invoice as for an offer. It
/// names the hash of the invoice, reserves the larger of the share and the
/// minimum, and is not paid yet.
pub proof fn payment_quotes_are_over_what_is_due(
    backend: LdkServerBackend,
    unit: CurrencyUnit,
    options: OutgoingPaymentOptions,
    relative: u64,
    res: Result<PaymentQuoteResponse, PaymentError>,
)
    requires
        call_ensures(
            LdkServerBackend::get_payment_quote,
            (&backend, &unit, &options, relative),
            res,
        ),
    ensures
        match res {
            Ok(quote) => {
                &&& quotes_what_is_due(Ok(quote.amount), unit, options)
                &&& quote.request_lookup_id == (match options {
                    OutgoingPaymentOptions::Bolt11(options) => Some(
                        PaymentIdentifier::PaymentHash(options.bolt11.payment_hash),
                    ),
                    _ => None,
                })
                &&& reserves(quote.fee, backend, unit, relative)
                &&& quote.state == MeltQuoteState::Unpaid
            },
            Err(error) => quotes_what_is_due(Err(error), unit, options),
        },
{
    if res is Ok {
        assert(is_due(options, due_msat(options)));
    }
}

/// Whether a fee is reserved: no less than the share, no less than the minimum in
/// satoshis that was configured, and no more than one of them.
pub open spec fn reserves(
    fee: Amount,
    backend: LdkServerBackend,
    unit: CurrencyUnit,
    relative: u64,
) -> bool {
    let least = match unit {
        CurrencyUnit::Msat => 1000 * backend.fee_reserve.min_fee_reserve,
        _ => backend.fee_reserve.min_fee_reserve as int,
    };
    &&& fee.unit == unit
    &&& fee.value >= relative
    &&& fee.value >= least || fee.value == u64::MAX
    &&& fee.value == relative || fee.value == least || (fee.value == u64::MAX && least > u64::MAX)
}

/// The reserve is the larger of the share and the configured minimum.
pub proof fn reserves_are_the_larger_of_share_and_minimum(
    backend: LdkServerBackend,
    unit: CurrencyUnit,
    relative: u64,
    fee: Amount,
)
    requires
        call_ensures(LdkServerBackend::fee_reserve_for_amount, (&backend, &unit, relative), fee),
    ensures
        reserves(fee, backend, unit, relative),
{
}

/// The millisatoshis of a quote are those that are to be paid, for an invoice.
pub proof fn invoice_quotes_are_due(
    options: Bolt11OutgoingPaymentOptions,
    res: Result<u64, PaymentError>,
)
    requires
        call_ensures(bolt11_amount_msat_for_quote, (&options,), res),
    ensures
        match res {
            Ok(msat) => is_due(OutgoingPaymentOptions::Bolt11(options), msat),
            Err(error) => tells_nothing_due(error, OutgoingPaymentOptions::Bolt11(options)),
        },
{
}

/// The millisatoshis of a quote are those that are to be paid, for an offer.
pub proof fn offer_quotes_are_due(
    options: Bolt12OutgoingPaymentOptions,
    res: Result<u64, PaymentError>,
)
    requires
        call_ensures(bolt12_amount_msat_for_quote, (&options,), res),
    ensures
        match res {
            Ok(msat) => is_due(OutgoingPaymentOptions::Bolt12(options), msat),
            Err(error) => tells_nothing_due(error, OutgoingPaymentOptions::Bolt12(options)),
        },
{
}

/// An offer takes any amount where it names none, and otherwise exactly the one
/// that it names.
pub proof fn offers_take_what_they_name(
    offer: Bolt12Offer,
    amount_msat: u64,
    res: Result<(), PaymentError>,
)
    requires
        call_ensures(validate_bolt12_amount_msat, (&offer, amount_msat), res),
    ensures
        match offer.amount {
            None => res is Ok,
            Some(OfferAmount::Bitcoin { amount_msats }) => res is Ok <==> amount_msats
                == amount_msat,
            Some(OfferAmount::Currency) => res is Err,
        },
        res matches Err(error) ==> error == PaymentError::AmountMismatch,
{
}

/// Whether an amount is passed on with a payment: exactly the one that the mint
/// chose, where it chose one.
pub open spec fn passes_on(amount_msat: Option<u64>, options: OutgoingPaymentOptions) -> bool {
    match melt_options_of(options) {
        Some(MeltOptions::Amountless { amount_msat: chosen }) => {
            amount_msat == Some(chosen) && may_choose(options, chosen)
        },
        Some(MeltOptions::Mpp { .. }) => false,
        None => amount_msat is None,
    }
}

/// Whether an error says why an amount cannot be passed on: it is not the one
/// named, or only a part is to be paid.
pub open spec fn tells_not_passed_on(error: PaymentError, options: OutgoingPaymentOptions) -> bool {
    match melt_options_of(options) {
        Some(MeltOptions::Amountless { amount_msat }) => {
            !may_choose(options, amount_msat) && error == PaymentError::AmountMismatch
        },
        Some(MeltOptions::Mpp { .. }) => error == PaymentError::UnsupportedPaymentOption,
        None => false,
    }
}

/// The amount that the mint chose is passed on with an invoice.
pub proof fn invoices_are_sent_with_what_was_chosen(
    options: Bolt11OutgoingPaymentOptions,
    res: Result<Option<u64>, PaymentError>,
)
    requires
        call_ensures(bolt11_amount_msat_for_send, (&options,), res),
    ensures
        match res {
            Ok(msat) => passes_on(msat, OutgoingPaymentOptions::Bolt11(options)),
            Err(error) => tells_not_passed_on(error, OutgoingPaymentOptions::Bolt11(options)),
        },
{
}

/// The amount that the mint chose is passed on with an offer.
pub proof fn offers_are_sent_with_what_was_chosen(
    options: Bolt12OutgoingPaymentOptions,
    read: Result<Option<u64>, PaymentError>,
    sent: Result<Option<u64>, PaymentError>,
)
    requires
        call_ensures(bolt12_melt_options_amount_msat, (&options,), read),
        call_ensures(bolt12_amount_msat_for_send, (&options,), sent),
    ensures
        match read {
            Ok(msat) => passes_on(msat, OutgoingPaymentOptions::Bolt12(options)),
            Err(error) => tells_not_passed_on(error, OutgoingPaymentOptions::Bolt12(options)),
        },
        match sent {
            Ok(msat) => passes_on(msat, OutgoingPaymentOptions::Bolt12(options)),
            Err(error) => tells_not_passed_on(error, OutgoingPaymentOptions::Bolt12(options)),
        },
{
}

/// Whether a route is limited to the fee that the mint allows, and to nothing
/// where it allows any.
pub open spec fn limits(route: Option<RouteParametersConfig>, max_fee: Option<Amount>) -> bool {
    match (max_fee, route) {
        (None, None) => true,
        (Some(limit), Some(route)) => {
            &&& route.max_total_routing_fee_msat matches Some(msat)
            &&& is_worth(msat, limit)
            &&& route.max_total_cltv_expiry_delta == 1008
            &&& route.max_path_count == 10
            &&& route.max_channel_saturation_power_of_half == 2
        },
        _ => false,
    }
}

/// A fee limit is passed on as what it is worth in millisatoshis.
pub proof fn fee_limits_are_passed_on(
    max_fee: Option<Amount>,
    res: Result<Option<RouteParametersConfig>, PaymentError>,
)
    requires
        call_ensures(route_parameters_from_max_fee, (&max_fee,), res),
    ensures
        match res {
            Ok(route) => limits(route, max_fee),
            Err(error) => max_fee matches Some(limit) && tells_worthless(error, limit),
        },
{
}

/// Whether a payment begins as the mint asked: the node is asked to pay the
/// invoice or the offer, with the amount that the mint chose and under the limit
/// that it set, for its quote in its unit, and it is waited for as long as the
/// mint says.
pub open spec fn begins_as_asked(
    start: PaymentStart,
    unit: CurrencyUnit,
    options: OutgoingPaymentOptions,
) -> bool {
    match (options, start.request) {
        (
            OutgoingPaymentOptions::Bolt11(asked),
            SendRequest::Bolt11 { invoice, amount_msat, route_parameters },
        ) => {
            &&& invoice@ == asked.bolt11.text@
            &&& passes_on(amount_msat, options)
            &&& limits(route_parameters, asked.max_fee_amount)
            &&& start.context.quote_id@ == asked.quote_id@
            &&& start.context.unit == unit
            &&& start.timeout_secs == asked.timeout_secs
        },
        (
            OutgoingPaymentOptions::Bolt12(asked),
            SendRequest::Bolt12 { offer, amount_msat, route_parameters },
        ) => {
            &&& offer@ == asked.offer.text@
            &&& passes_on(amount_msat, options)
            &&& limits(route_parameters, asked.max_fee_amount)
            &&& start.context.quote_id@ == asked.quote_id@
            &&& start.context.unit == unit
            &&& start.timeout_secs == asked.timeout_secs
        },
        _ => false,
    }
}

/// Whether an error says why a payment does not begin: its amount cannot be
/// passed on, its fee limit is worth nothing, or it pays neither an invoice nor
/// an offer.
pub open spec fn tells_why_not_begun(error: PaymentError, options: OutgoingPaymentOptions) -> bool {
    match options {
        OutgoingPaymentOptions::Bolt11(asked) => {
            ||| tells_not_passed_on(error, options)
            ||| asked.max_fee_amount matches Some(limit) && tells_worthless(error, limit)
        },
        OutgoingPaymentOptions::Bolt12(asked) => {
            ||| tells_not_passed_on(error, options)
            ||| asked.max_fee_amount matches Some(limit) && tells_worthless(error, limit)
        },
        _ => error == PaymentError::UnsupportedPaymentOption,
    }
}

/// A payment begins as the mint asked, of an invoice as of an offer: whenever a
/// fee limit is set the request carries what it is worth in millisatoshis, and
/// whenever the mint chose an amount the request carries that amount.
pub proof fn payments_begin_as_asked(
    unit: CurrencyUnit,
    options: OutgoingPaymentOptions,
    now: u64,
)
    ensures
        forall|correlator: &mut OutgoingPaymentCorrelator, res: Result<
            PaymentStart,
            PaymentError,
        >| #[trigger]
            call_ensures(make_payment, (correlator, &unit, &options, now), res) ==> match res {
                Ok(start) => begins_as_asked(start, unit, options),
                Err(error) => tells_why_not_begun(error, options) && (*final(correlator))@
                    == (*correlator)@,
            },
{
}

/// Quotes are remembered for a day, and early reports for a minute.
pub proof fn quotes_last_a_day_and_reports_a_minute()
    ensures
        OUTGOING_CONTEXT_TTL_NS == 24 * 60 * 60 * 1_000_000_000,
        UNMATCHED_OUTGOING_EVENT_TTL_NS == 60 * 1_000_000_000,
{
}

/// The backend works in millisatoshis, on invoices and on offers, with and
/// without an amount, and pays no parts.
pub proof fn settings_name_what_is_supported(
    backend: LdkServerBackend,
    settings: SettingsResponse,
)
    requires
        call_ensures(LdkServerBackend::get_settings, (&backend,), settings),
    ensures
        settings.unit@ == "msat"@,
        settings.bolt11 matches Some(bolt11) && !bolt11.mpp && bolt11.amountless
            && bolt11.invoice_description,
        settings.bolt12 matches Some(bolt12) && bolt12.amountless && bolt12.invoice_description,
        settings.onchain is None,
        settings.custom@.len() == 0,
{
}

/// Whether an address is that of a node: without the space around it, without its
/// scheme and without the slashes at its end.
pub open spec fn is_bare(bare: Seq<char>, address: Seq<char>) -> bool {
    let text = trimmed(address);
    exists|rest: Seq<char>| #[trigger]
        precedes_run(rest, bare, '/') && {
            ||| text == "https://"@ + rest
            ||| text == "http://"@ + rest
            ||| text == rest && !has_prefix(text, "https://"@) && !has_prefix(text, "http://"@)
        }
}

/// An address loses the space around it, its scheme and the slashes at its end.
pub proof fn addresses_are_bare(address: &str, bare: String)
    requires
        call_ensures(normalize_address, (address,), bare),
    ensures
        is_bare(bare@, address@),
{
    lemma_bare(address@);
}

proof fn lemma_bare(address: Seq<char>)
    ensures
        is_bare(bare_address(address), address),
{
    let text = trimmed(address);
    let scheme = if has_prefix(text, "https://"@) {
        "https://"@
    } else if has_prefix(text, "http://"@) {
        "http://"@
    } else {
        Seq::empty()
    };
    let rest = text.subrange(scheme.len() as int, text.len() as int);
    lemma_precedes_run(rest, '/');
    assert(text =~= text.subrange(0, scheme.len() as int) + rest);
    if scheme.len() == 0 {
        assert(rest =~= text);
    }
    if !has_prefix(text, "https://"@) && !has_prefix(text, "http://"@) {
        assert(rest =~= text);
    }
    assert(precedes_run(rest, bare_address(address), '/'));
}

/// A backend takes over its configuration, and 32 pages are read where nothing
/// else is configured.
pub proof fn configurations_are_taken_over(
    config: Config,
    pages: u16,
    made: (LdkServerBackend, Connection),
    other: Config,
    fresh: Config,
)
    requires
        call_ensures(LdkServerBackend::new, (config,), made),
        call_ensures(Config::with_max_payment_scan_pages, (config, pages), other),
        call_ensures(
            Config::new,
            (config.address, config.api_key, config.cert_pem, config.fee_reserve),
            fresh,
        ),
    ensures
        made.0.fee_reserve == config.fee_reserve,
        made.0.max_payment_scan_pages == config.max_payment_scan_pages,
        is_bare(made.1.address@, config.address@),
        made.1.api_key@ == config.api_key@,
        made.1.cert_pem@ == config.cert_pem@,
        other == (Config { max_payment_scan_pages: pages, ..config }),
        fresh == (Config { max_payment_scan_pages: 32, ..config }),
{
    lemma_bare(config.address@);
}

/// A shown configuration holds neither the key nor the certificate.
pub proof fn shown_configurations_hold_no_secret(config: Config, shown: RedactedConfig)
    requires
        call_ensures(Config::redacted, (&config,), shown),
    ensures
        shown.address@ == config.address@,
        shown.api_key@ == "[REDACTED]"@,
        shown.cert_pem_bytes == config.cert_pem@.len(),
        shown.fee_reserve == config.fee_reserve,
        shown.max_payment_scan_pages == config.max_payment_scan_pages,
{
}

/// What is not configured has its default: two satoshis and one percent for fees,
/// 32 pages, this machine on the port that mints expect, and no transport chosen.
pub proof fn defaults_are_safe(backend: BackendConfig, config: settings::Config)
    requires
        call_ensures(BackendConfig::default, (), backend),
        call_ensures(settings::Config::default, (), config),
    ensures
        backend.address@.len() == 0 && config.backend.address@.len() == 0,
        backend.api_key@.len() == 0 && config.backend.api_key@.len() == 0,
        backend.tls_cert_path@.len() == 0 && config.backend.tls_cert_path@.len() == 0,
        backend.fee_reserve_min_sat == 2 && config.backend.fee_reserve_min_sat == 2,
        backend.fee_reserve_percent_bits == 0x3C23_D70A,
        config.backend.fee_reserve_percent_bits == 0x3C23_D70A,
        backend.max_payment_scan_pages == 32 && config.backend.max_payment_scan_pages == 32,
        config.address@ == "127.0.0.1"@,
        config.port == 50051,
        !config.tls_enable,
        !config.allow_insecure,
        config.tls_cert_path@ == "certs/server.crt"@,
        config.tls_key_path@ == "certs/server.key"@,
        config.tls_client_ca_path@ == "certs/ca.pem"@,
{
}

/// Each default is the one that a configuration begins with.
pub proof fn defaults_are_those_of_configurations()
    ensures
        forall|sats: u64| #[trigger]
            call_ensures(settings::default_fee_reserve_min_sat, (), sats) ==> sats == 2,
        forall|bits: u32| #[trigger]
            call_ensures(settings::default_fee_reserve_percent_bits, (), bits) ==> bits
                == 0x3C23_D70A,
        forall|pages: u16| #[trigger]
            call_ensures(settings::default_max_payment_scan_pages, (), pages) ==> pages == 32,
        forall|text: String| #[trigger]
            call_ensures(settings::default_address, (), text) ==> text@ == "127.0.0.1"@,
        forall|port: u16| #[trigger]
            call_ensures(settings::default_port, (), port) ==> port == 50051,
        forall|text: String| #[trigger]
            call_ensures(settings::default_tls_cert_path, (), text) ==> text@
                == "certs/server.crt"@,
        forall|text: String| #[trigger]
            call_ensures(settings::default_tls_key_path, (), text) ==> text@ == "certs/server.key"@,
        forall|text: String| #[trigger]
            call_ensures(settings::default_tls_client_ca_path, (), text) ==> text@
                == "certs/ca.pem"@,
{
}

/// A missing setting is named in words.
pub proof fn missing_settings_are_named(missing: MissingSetting, words: String)
    requires
        call_ensures(MissingSetting::message, (&missing,), words),
    ensures
        match missing {
            MissingSetting::Address => words@ == "backend.address is required"@,
            MissingSetting::ApiKey => words@ == "backend.api_key is required"@,
            MissingSetting::TlsCertPath => words@ == "backend.tls_cert_path is required"@,
        },
{
}

/// A configuration is accepted exactly where it names an address, a key and a
/// certificate.
pub proof fn accepted_configurations_reach_the_node(
    config: BackendConfig,
    res: Result<(), MissingSetting>,
)
    requires
        call_ensures(BackendConfig::validate, (&config,), res),
    ensures
        res is Ok <==> config.address@.len() > 0 && config.api_key@.len() > 0
            && config.tls_cert_path@.len() > 0,
        res matches Err(missing) ==> match missing {
            MissingSetting::Address => config.address@.len() == 0,
            MissingSetting::ApiKey => config.api_key@.len() == 0 && config.address@.len() > 0,
            MissingSetting::TlsCertPath => config.tls_cert_path@.len() == 0
                && config.address@.len() > 0 && config.api_key@.len() > 0,
        },
{
}

} // verus!
