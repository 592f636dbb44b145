//! The decisions of the LDK Server backend.

use vstd::prelude::*;
use vstd::string::*;

use crate::clock::unix_time;
use crate::encoding::{hex_encode, hex_text};
use crate::ldk_server::correlator::{
    normal_key, keys_of, ContextView, CorrelatorView, OutgoingPaymentContext,
    OutgoingPaymentCorrelator,
};
use crate::ldk_server::error::Error;
use crate::ldk_server::payments::{
    direction_of, hex_array, hex_to_array, make_payment_response_from_payment, payment_answer,
    payment_direction, payment_status, received_answer, select_bolt11_payment, status_of,
    wait_payment_response_from_payment, is_selected, Payment, PaymentDirection, PaymentError,
    PaymentErrorView, PaymentKind, PaymentStatus,
};
use crate::payment::{
    converted, result_view, Amount, Bolt11OutgoingPaymentOptions, Bolt11Settings, Bolt12Offer,
    Bolt12OutgoingPaymentOptions, Bolt12Settings, CreateIncomingPaymentResponse,
    CreateIncomingPaymentResponseView, CurrencyUnit, IncomingPaymentOptions, MakePaymentResponse,
    MakePaymentResponseView, MeltOptions, MeltQuoteState, OfferAmount, OutgoingPaymentOptions,
    PaymentIdentifier, PaymentQuoteResponse, SettingsResponse, WaitPaymentResponse,
    WaitPaymentResponseView, MSAT_IN_SAT,
};
use crate::text::{
    eq_ignore_ascii_case, has_prefix, lower, strip_prefix, trim, trim_end_char, trim_end_matches,
    trimmed,
};

verus! {

/// When an invoice expires where the mint does not say, in seconds.
pub const DEFAULT_INVOICE_EXPIRY_SECS: u32 = 36_000;

/// How long to wait for the details of a payment where the mint does not say,
/// in seconds.
pub const DEFAULT_PAYMENT_WAIT_SECS: u64 = 10;

/// How long to wait between two requests for the details, in milliseconds.
pub const PAYMENT_POLL_MS: u64 = 100;

/// How many pages of the history are read where nothing else is configured.
pub const DEFAULT_MAX_PAYMENT_SCAN_PAGES: u16 = 32;

/// The longest route, in blocks until its last hop times out.
pub const ROUTE_DEFAULT_MAX_TOTAL_CLTV_EXPIRY_DELTA: u32 = 1008;

/// The most parts a payment is split into.
pub const ROUTE_DEFAULT_MAX_PATH_COUNT: u32 = 10;

/// The largest share of a channel a payment uses, as a power of one half.
pub const ROUTE_DEFAULT_MAX_CHANNEL_SATURATION_POWER_OF_HALF: u32 = 2;

/// What is reserved for fees.
#[derive(Clone, Copy, Debug, PartialEq, Eq, Structural)]
pub struct FeeReserve {
    /// The least reserve, in satoshis.
    pub min_fee_reserve: u64,
    /// The share of the amount, as the bits of a single-precision number.
    pub percent_fee_reserve_bits: u32,
}

/// Configuration of the backend.
#[derive(PartialEq, Eq)]
pub struct Config {
    /// The address of the node, with or without a scheme.
    pub address: String,
    /// The key that authenticates requests.
    pub api_key: String,
    /// The certificate of the node, in PEM form.
    pub cert_pem: Vec<u8>,
    /// What is reserved for fees.
    pub fee_reserve: FeeReserve,
    /// How many pages of the history are read.
    pub max_payment_scan_pages: u16,
}

impl Config {
    /// A configuration with the default number of pages.
    pub fn new(address: String, api_key: String, cert_pem: Vec<u8>, fee_reserve: FeeReserve) -> (res:
        Config)
        ensures
            res == (Config {
                address,
                api_key,
                cert_pem,
                fee_reserve,
                max_payment_scan_pages: DEFAULT_MAX_PAYMENT_SCAN_PAGES,
            }),
    {
        Config {
            address,
            api_key,
            cert_pem,
            fee_reserve,
            max_payment_scan_pages: DEFAULT_MAX_PAYMENT_SCAN_PAGES,
        }
    }

    /// The configuration with another number of pages.
    pub fn with_max_payment_scan_pages(self, max_payment_scan_pages: u16) -> (res: Config)
        ensures
            res == (Config { max_payment_scan_pages, ..self }),
    {
        Config { max_payment_scan_pages, ..self }
    }

    /// The configuration as it may be shown: without the key and the
    /// certificate.
    pub fn redacted(&self) -> (shown: RedactedConfig)
        ensures
            shown.address == self.address,
            shown.api_key@ == "[REDACTED]"@,
            shown.cert_pem_bytes == self.cert_pem@.len(),
            shown.fee_reserve == self.fee_reserve,
            shown.max_payment_scan_pages == self.max_payment_scan_pages,
    {
        RedactedConfig {
            address: self.address.clone(),
            api_key: "[REDACTED]".to_owned(),
            cert_pem_bytes: self.cert_pem.len(),
            fee_reserve: self.fee_reserve,
            max_payment_scan_pages: self.max_payment_scan_pages,
        }
    }
}

/// A configuration as it may be shown.
#[derive(Debug, PartialEq, Eq)]
pub struct RedactedConfig {
    /// The address of the node.
    pub address: String,
    /// What stands in place of the key.
    pub api_key: String,
    /// How long the certificate is.
    pub cert_pem_bytes: usize,
    /// What is reserved for fees.
    pub fee_reserve: FeeReserve,
    /// How many pages of the history are read.
    pub max_payment_scan_pages: u16,
}

/// How the node is reached.
#[derive(PartialEq, Eq)]
pub struct Connection {
    /// The address, without a scheme.
    pub address: String,
    /// The key that authenticates requests.
    pub api_key: String,
    /// The certificate of the node, in PEM form.
    pub cert_pem: Vec<u8>,
}

/// An address without its scheme and without slashes at its end.
pub open spec fn bare_address(address: Seq<char>) -> Seq<char> {
    let text = trimmed(address);
    let rest = if has_prefix(text, "https://"@) {
        text.subrange("https://"@.len() as int, text.len() as int)
    } else if has_prefix(text, "http://"@) {
        text.subrange("http://"@.len() as int, text.len() as int)
    } else {
        text
    };
    trim_end_char(rest, '/')
}

/// An address without its scheme and without slashes at its end.
pub fn normalize_address(address: &str) -> (res: String)
    ensures
        res@ == bare_address(address@),
{
    let text = trim(address);
    let rest = match strip_prefix(text, "https://") {
        Some(rest) => rest,
        None => match strip_prefix(text, "http://") {
            Some(rest) => rest,
            None => text,
        },
    };
    trim_end_matches(rest, '/').to_owned()
}

/// How many seconds after `now` something expires.
pub open spec fn expiry_after(unix_expiry: u64, now: u64) -> Result<u32, PaymentErrorView> {
    if now <= unix_expiry && unix_expiry - now <= u32::MAX {
        Ok((unix_expiry - now) as u32)
    } else {
        Err(PaymentErrorView::InvalidExpiry)
    }
}

/// How many seconds after `now` an invoice expires.
pub open spec fn invoice_expiry_after(unix_expiry: Option<u64>, now: u64) -> Result<
    u32,
    PaymentErrorView,
> {
    match unix_expiry {
        Some(unix_expiry) => expiry_after(unix_expiry, now),
        None => Ok(DEFAULT_INVOICE_EXPIRY_SECS),
    }
}

/// How many seconds after `now` something expires.
pub fn expiry_secs_at(unix_expiry: u64, now: u64) -> (res: Result<u32, PaymentError>)
    ensures
        match res {
            Ok(secs) => expiry_after(unix_expiry, now) == Ok::<u32, PaymentErrorView>(secs),
            Err(error) => expiry_after(unix_expiry, now) == Err::<u32, PaymentErrorView>(
                error.deep_view(),
            ),
        },
{
    match unix_expiry.checked_sub(now) {
        Some(seconds) => if seconds <= u32::MAX as u64 {
            Ok(seconds as u32)
        } else {
            Err(PaymentError::InvalidExpiry)
        },
        None => Err(PaymentError::InvalidExpiry),
    }
}

/// How many seconds from now something expires. The answer holds for the
/// moment at which the clock was read.
pub fn expiry_secs(unix_expiry: u64) -> (res: Result<u32, PaymentError>)
    ensures
        exists|now: u64|
            match res {
                Ok(secs) => #[trigger] expiry_after(unix_expiry, now) == Ok::<
                    u32,
                    PaymentErrorView,
                >(secs),
                Err(error) => expiry_after(unix_expiry, now) == Err::<u32, PaymentErrorView>(
                    error.deep_view(),
                ),
            },
{
    let now: u64 = unix_time();
    expiry_secs_at(unix_expiry, now)
}

/// How many seconds after `now` an invoice expires.
pub fn expiry_secs_or_default_at(unix_expiry: Option<u64>, now: u64) -> (res: Result<
    u32,
    PaymentError,
>)
    ensures
        match res {
            Ok(secs) => invoice_expiry_after(unix_expiry, now) == Ok::<u32, PaymentErrorView>(
                secs,
            ),
            Err(error) => invoice_expiry_after(unix_expiry, now) == Err::<u32, PaymentErrorView>(
                error.deep_view(),
            ),
        },
{
    match unix_expiry {
        Some(unix_expiry) => expiry_secs_at(unix_expiry, now),
        None => Ok(DEFAULT_INVOICE_EXPIRY_SECS),
    }
}

/// How many seconds from now an invoice expires. Without an expiry the answer
/// is the default; with one it holds for the moment at which the clock was
/// read.
pub fn expiry_secs_or_default(unix_expiry: Option<u64>) -> (res: Result<u32, PaymentError>)
    ensures
        unix_expiry is None ==> res == Ok::<u32, PaymentError>(DEFAULT_INVOICE_EXPIRY_SECS),
        exists|now: u64|
            match res {
                Ok(secs) => #[trigger] invoice_expiry_after(unix_expiry, now) == Ok::<
                    u32,
                    PaymentErrorView,
                >(secs),
                Err(error) => invoice_expiry_after(unix_expiry, now) == Err::<
                    u32,
                    PaymentErrorView,
                >(error.deep_view()),
            },
{
    let now: u64 = unix_time();
    expiry_secs_or_default_at(unix_expiry, now)
}

/// The amount of a BOLT11 quote, in millisatoshis.
pub open spec fn bolt11_quote_msat(options: Bolt11OutgoingPaymentOptions) -> Result<
    u64,
    PaymentErrorView,
> {
    match options.melt_options {
        Some(MeltOptions::Amountless { amount_msat }) => {
            if options.bolt11.amount_msat matches Some(named) && named != amount_msat {
                Err(PaymentErrorView::AmountMismatch)
            } else {
                Ok(amount_msat)
            }
        },
        Some(MeltOptions::Mpp { amount }) => Ok(amount),
        None => match options.bolt11.amount_msat {
            Some(amount_msat) => Ok(amount_msat),
            None => Err(PaymentErrorView::Backend(Error::UnknownInvoiceAmount)),
        },
    }
}

/// The amount to pass on when a BOLT11 invoice is paid, in millisatoshis;
/// nothing where the invoice names it.
pub open spec fn bolt11_send_msat(options: Bolt11OutgoingPaymentOptions) -> Result<
    Option<u64>,
    PaymentErrorView,
> {
    match options.melt_options {
        Some(MeltOptions::Amountless { amount_msat }) => {
            if options.bolt11.amount_msat matches Some(named) && named != amount_msat {
                Err(PaymentErrorView::AmountMismatch)
            } else {
                Ok(Some(amount_msat))
            }
        },
        Some(MeltOptions::Mpp { amount: _ }) => Err(PaymentErrorView::UnsupportedPaymentOption),
        None => Ok(None),
    }
}

/// Whether an offer can be paid with an amount, in millisatoshis.
pub open spec fn offer_takes(offer: Bolt12Offer, amount_msat: u64) -> bool {
    match offer.amount {
        Some(OfferAmount::Bitcoin { amount_msats }) => amount_msats == amount_msat,
        Some(OfferAmount::Currency) => false,
        None => true,
    }
}

/// The amount to pass on when a BOLT12 offer is paid, in millisatoshis; nothing
/// where the offer names it.
pub open spec fn bolt12_send_msat(options: Bolt12OutgoingPaymentOptions) -> Result<
    Option<u64>,
    PaymentErrorView,
> {
    match options.melt_options {
        Some(MeltOptions::Amountless { amount_msat }) => if offer_takes(
            options.offer,
            amount_msat,
        ) {
            Ok(Some(amount_msat))
        } else {
            Err(PaymentErrorView::AmountMismatch)
        },
        Some(MeltOptions::Mpp { amount: _ }) => Err(PaymentErrorView::UnsupportedPaymentOption),
        None => Ok(None),
    }
}

/// The amount of a BOLT12 quote, in millisatoshis.
pub open spec fn bolt12_quote_msat(options: Bolt12OutgoingPaymentOptions) -> Result<
    u64,
    PaymentErrorView,
> {
    match bolt12_send_msat(options) {
        Err(error) => Err(error),
        Ok(Some(amount_msat)) => Ok(amount_msat),
        Ok(None) => match options.offer.amount {
            Some(OfferAmount::Bitcoin { amount_msats }) => Ok(amount_msats),
            _ => Err(PaymentErrorView::AmountMismatch),
        },
    }
}

/// The amount of a BOLT11 quote, in millisatoshis.
pub fn bolt11_amount_msat_for_quote(options: &Bolt11OutgoingPaymentOptions) -> (res: Result<
    u64,
    PaymentError,
>)
    ensures
        match res {
            Ok(msat) => bolt11_quote_msat(*options) == Ok::<u64, PaymentErrorView>(msat),
            Err(error) => bolt11_quote_msat(*options) == Err::<u64, PaymentErrorView>(
                error.deep_view(),
            ),
        },
{
    match &options.melt_options {
        Some(MeltOptions::Amountless { amount_msat }) => {
            match options.bolt11.amount_msat {
                Some(named) => if named != *amount_msat {
                    return Err(PaymentError::AmountMismatch);
                },
                None => {},
            }
            Ok(*amount_msat)
        },
        Some(MeltOptions::Mpp { amount }) => Ok(*amount),
        None => match options.bolt11.amount_msat {
            Some(amount_msat) => Ok(amount_msat),
            None => Err(PaymentError::Backend(Error::UnknownInvoiceAmount)),
        },
    }
}

/// The amount to pass on when a BOLT11 invoice is paid, in millisatoshis.
pub fn bolt11_amount_msat_for_send(options: &Bolt11OutgoingPaymentOptions) -> (res: Result<
    Option<u64>,
    PaymentError,
>)
    ensures
        match res {
            Ok(msat) => bolt11_send_msat(*options) == Ok::<Option<u64>, PaymentErrorView>(msat),
            Err(error) => bolt11_send_msat(*options) == Err::<Option<u64>, PaymentErrorView>(
                error.deep_view(),
            ),
        },
{
    match &options.melt_options {
        Some(MeltOptions::Amountless { amount_msat }) => {
            match options.bolt11.amount_msat {
                Some(named) => if named != *amount_msat {
                    return Err(PaymentError::AmountMismatch);
                },
                None => {},
            }
            Ok(Some(*amount_msat))
        },
        Some(MeltOptions::Mpp { amount: _ }) => Err(PaymentError::UnsupportedPaymentOption),
        None => Ok(None),
    }
}

/// Accepts an amount that an offer can be paid with, in millisatoshis.
pub fn validate_bolt12_amount_msat(offer: &Bolt12Offer, amount_msat: u64) -> (res: Result<
    (),
    PaymentError,
>)
    ensures
        match res {
            Ok(()) => offer_takes(*offer, amount_msat),
            Err(error) => !offer_takes(*offer, amount_msat) && error
                == PaymentError::AmountMismatch,
        },
{
    match &offer.amount {
        Some(OfferAmount::Bitcoin { amount_msats }) => if *amount_msats == amount_msat {
            Ok(())
        } else {
            Err(PaymentError::AmountMismatch)
        },
        Some(OfferAmount::Currency) => Err(PaymentError::AmountMismatch),
        None => Ok(()),
    }
}

/// The amount that melt options name for an offer, in millisatoshis.
pub fn bolt12_melt_options_amount_msat(options: &Bolt12OutgoingPaymentOptions) -> (res: Result<
    Option<u64>,
    PaymentError,
>)
    ensures
        match res {
            Ok(msat) => bolt12_send_msat(*options) == Ok::<Option<u64>, PaymentErrorView>(msat),
            Err(error) => bolt12_send_msat(*options) == Err::<Option<u64>, PaymentErrorView>(
                error.deep_view(),
            ),
        },
{
    match &options.melt_options {
        Some(MeltOptions::Amountless { amount_msat }) => match validate_bolt12_amount_msat(
            &options.offer,
            *amount_msat,
        ) {
            Ok(()) => Ok(Some(*amount_msat)),
            Err(error) => Err(error),
        },
        Some(MeltOptions::Mpp { amount: _ }) => Err(PaymentError::UnsupportedPaymentOption),
        None => Ok(None),
    }
}

/// The amount to pass on when a BOLT12 offer is paid, in millisatoshis.
pub fn bolt12_amount_msat_for_send(options: &Bolt12OutgoingPaymentOptions) -> (res: Result<
    Option<u64>,
    PaymentError,
>)
    ensures
        match res {
            Ok(msat) => bolt12_send_msat(*options) == Ok::<Option<u64>, PaymentErrorView>(msat),
            Err(error) => bolt12_send_msat(*options) == Err::<Option<u64>, PaymentErrorView>(
                error.deep_view(),
            ),
        },
{
    bolt12_melt_options_amount_msat(options)
}

/// The amount of a BOLT12 quote, in millisatoshis.
pub fn bolt12_amount_msat_for_quote(options: &Bolt12OutgoingPaymentOptions) -> (res: Result<
    u64,
    PaymentError,
>)
    ensures
        match res {
            Ok(msat) => bolt12_quote_msat(*options) == Ok::<u64, PaymentErrorView>(msat),
            Err(error) => bolt12_quote_msat(*options) == Err::<u64, PaymentErrorView>(
                error.deep_view(),
            ),
        },
{
    match bolt12_melt_options_amount_msat(options) {
        Err(error) => Err(error),
        Ok(Some(amount_msat)) => Ok(amount_msat),
        Ok(None) => match &options.offer.amount {
            Some(OfferAmount::Bitcoin { amount_msats }) => Ok(*amount_msats),
            _ => Err(PaymentError::AmountMismatch),
        },
    }
}

/// How a payment may be routed.
#[derive(Clone, Copy, Debug, PartialEq, Eq, Structural)]
pub struct RouteParametersConfig {
    /// The most that may be spent on fees, in millisatoshis.
    pub max_total_routing_fee_msat: Option<u64>,
    /// The longest route, in blocks until its last hop times out.
    pub max_total_cltv_expiry_delta: u32,
    /// The most parts a payment is split into.
    pub max_path_count: u32,
    /// The largest share of a channel a payment uses, as a power of one half.
    pub max_channel_saturation_power_of_half: u32,
}

/// How a payment may be routed under a fee limit.
pub open spec fn route_parameters(max_fee_amount: Option<Amount>) -> Result<
    Option<RouteParametersConfig>,
    PaymentErrorView,
> {
    match max_fee_amount {
        None => Ok(None),
        Some(amount) => match converted(amount.value, amount.unit, CurrencyUnit::Msat) {
            Err(error) => Err(PaymentErrorView::Amount(error)),
            Ok(msat) => Ok(
                Some(
                    RouteParametersConfig {
                        max_total_routing_fee_msat: Some(msat),
                        max_total_cltv_expiry_delta: ROUTE_DEFAULT_MAX_TOTAL_CLTV_EXPIRY_DELTA,
                        max_path_count: ROUTE_DEFAULT_MAX_PATH_COUNT,
                        max_channel_saturation_power_of_half:
                            ROUTE_DEFAULT_MAX_CHANNEL_SATURATION_POWER_OF_HALF,
                    },
                ),
            ),
        },
    }
}

/// How a payment may be routed under a fee limit; without one the node decides.
pub fn route_parameters_from_max_fee(max_fee_amount: &Option<Amount>) -> (res: Result<
    Option<RouteParametersConfig>,
    PaymentError,
>)
    ensures
        match res {
            Ok(parameters) => route_parameters(*max_fee_amount) == Ok::<
                Option<RouteParametersConfig>,
                PaymentErrorView,
            >(parameters),
            Err(error) => route_parameters(*max_fee_amount) == Err::<
                Option<RouteParametersConfig>,
                PaymentErrorView,
            >(error.deep_view()),
        },
{
    match max_fee_amount {
        None => Ok(None),
        Some(amount) => match amount.to_msat() {
            Err(error) => Err(PaymentError::Amount(error)),
            Ok(msat) => Ok(
                Some(
                    RouteParametersConfig {
                        max_total_routing_fee_msat: Some(msat),
                        max_total_cltv_expiry_delta: ROUTE_DEFAULT_MAX_TOTAL_CLTV_EXPIRY_DELTA,
                        max_path_count: ROUTE_DEFAULT_MAX_PATH_COUNT,
                        max_channel_saturation_power_of_half:
                            ROUTE_DEFAULT_MAX_CHANNEL_SATURATION_POWER_OF_HALF,
                    },
                ),
            ),
        },
    }
}

/// What the node is asked for to receive a payment.
#[derive(Debug, PartialEq, Eq)]
pub enum ReceiveRequest<T> {
    /// A BOLT11 invoice.
    Bolt11 {
        /// The amount, in millisatoshis.
        amount_msat: u64,
        /// What the payment is for.
        description: T,
        /// When the invoice expires, in seconds from now.
        invoice_expiry_secs: u32,
    },
    /// A BOLT12 offer.
    Bolt12 {
        /// The amount, in millisatoshis, where the offer is not open.
        offer_amount_msat: Option<u64>,
        /// What the payment is for.
        offer_description: T,
        /// When the offer expires, in seconds from now, where it does.
        offer_expiry_secs: Option<u32>,
    },
}

impl<T: DeepView> DeepView for ReceiveRequest<T> {
    type V = ReceiveRequest<T::V>;

    open spec fn deep_view(&self) -> ReceiveRequest<T::V> {
        match self {
            ReceiveRequest::Bolt11 { amount_msat, description, invoice_expiry_secs } => {
                ReceiveRequest::Bolt11 {
                    amount_msat: *amount_msat,
                    description: description.deep_view(),
                    invoice_expiry_secs: *invoice_expiry_secs,
                }
            },
            ReceiveRequest::Bolt12 { offer_amount_msat, offer_description, offer_expiry_secs } => {
                ReceiveRequest::Bolt12 {
                    offer_amount_msat: *offer_amount_msat,
                    offer_description: offer_description.deep_view(),
                    offer_expiry_secs: *offer_expiry_secs,
                }
            },
        }
    }
}

/// A description, or none.
pub open spec fn description_text(description: Option<String>) -> Seq<char> {
    match description {
        Some(description) => description@,
        None => Seq::empty(),
    }
}

/// What the node is asked for at the moment `now`, or why nothing is asked.
pub open spec fn receive_request(options: IncomingPaymentOptions, now: u64) -> Result<
    ReceiveRequest<Seq<char>>,
    PaymentErrorView,
> {
    match options {
        IncomingPaymentOptions::Bolt11(options) => match converted(
            options.amount.value,
            options.amount.unit,
            CurrencyUnit::Msat,
        ) {
            Err(error) => Err(PaymentErrorView::Amount(error)),
            Ok(amount_msat) => match invoice_expiry_after(options.unix_expiry, now) {
                Err(error) => Err(error),
                Ok(invoice_expiry_secs) => Ok(
                    ReceiveRequest::Bolt11 {
                        amount_msat,
                        description: description_text(options.description),
                        invoice_expiry_secs,
                    },
                ),
            },
        },
        IncomingPaymentOptions::Bolt12(options) => {
            let amount = match options.amount {
                None => Ok(None),
                Some(amount) => match converted(amount.value, amount.unit, CurrencyUnit::Msat) {
                    Ok(msat) => Ok(Some(msat)),
                    Err(error) => Err(PaymentErrorView::Amount(error)),
                },
            };
            let expiry = match options.unix_expiry {
                None => Ok(None),
                Some(unix_expiry) => match expiry_after(unix_expiry, now) {
                    Ok(secs) => Ok(Some(secs)),
                    Err(error) => Err(error),
                },
            };
            match (amount, expiry) {
                (Err(error), _) => Err(error),
                (_, Err(error)) => Err(error),
                (Ok(offer_amount_msat), Ok(offer_expiry_secs)) => Ok(
                    ReceiveRequest::Bolt12 {
                        offer_amount_msat,
                        offer_description: description_text(options.description),
                        offer_expiry_secs,
                    },
                ),
            }
        },
        _ => Err(PaymentErrorView::UnsupportedPaymentOption),
    }
}

fn described(description: Option<String>) -> (text: String)
    ensures
        text@ == description_text(description),
{
    match description {
        Some(description) => description,
        None => String::new(),
    }
}

/// What the node is asked for at the moment `now`, or why nothing is asked.
pub fn receive_request_at(options: IncomingPaymentOptions, now: u64) -> (res: Result<
    ReceiveRequest<String>,
    PaymentError,
>)
    ensures
        result_view(res) == receive_request(options, now),
{
    match options {
        IncomingPaymentOptions::Bolt11(options) => {
            let amount_msat: u64 = match options.amount.to_msat() {
                Ok(amount_msat) => amount_msat,
                Err(error) => return Err(PaymentError::Amount(error)),
            };
            let invoice_expiry_secs: u32 = match expiry_secs_or_default_at(
                options.unix_expiry,
                now,
            ) {
                Ok(secs) => secs,
                Err(error) => return Err(error),
            };
            Ok(
                ReceiveRequest::Bolt11 {
                    amount_msat,
                    description: described(options.description),
                    invoice_expiry_secs,
                },
            )
        },
        IncomingPaymentOptions::Bolt12(options) => {
            let offer_amount_msat: Option<u64> = match &options.amount {
                None => None,
                Some(amount) => match amount.to_msat() {
                    Ok(msat) => Some(msat),
                    Err(error) => return Err(PaymentError::Amount(error)),
                },
            };
            let offer_expiry_secs: Option<u32> = match options.unix_expiry {
                None => None,
                Some(unix_expiry) => match expiry_secs_at(unix_expiry, now) {
                    Ok(secs) => Some(secs),
                    Err(error) => return Err(error),
                },
            };
            Ok(
                ReceiveRequest::Bolt12 {
                    offer_amount_msat,
                    offer_description: described(options.description),
                    offer_expiry_secs,
                },
            )
        },
        _ => Err(PaymentError::UnsupportedPaymentOption),
    }
}

/// What the node is asked for to receive a payment. The answer holds for the
/// moment at which the clock was read.
pub fn create_incoming_payment_request(options: IncomingPaymentOptions) -> (res: Result<
    ReceiveRequest<String>,
    PaymentError,
>)
    ensures
        exists|now: u64| result_view(res) == #[trigger] receive_request(options, now),
{
    let now: u64 = unix_time();
    receive_request_at(options, now)
}

/// What a created invoice is answered with: it is looked up by its hash, and
/// expires the given number of seconds after `now`.
pub open spec fn invoice_answer(
    payment_hash: Seq<char>,
    invoice: Seq<char>,
    expiry_secs: u32,
    now: u64,
) -> Result<CreateIncomingPaymentResponseView, PaymentErrorView> {
    match hex_array(payment_hash) {
        Err(error) => Err(PaymentErrorView::Backend(error)),
        Ok(hash) => Ok(
            CreateIncomingPaymentResponseView {
                request_lookup_id: PaymentIdentifier::PaymentHash(hash),
                request: invoice,
                expiry: Some(
                    if now + expiry_secs <= u64::MAX {
                        (now + expiry_secs) as u64
                    } else {
                        u64::MAX
                    },
                ),
            },
        ),
    }
}

/// Answers with an invoice that the node created.
pub fn invoice_created_at(
    payment_hash: &str,
    invoice: String,
    expiry_secs: u32,
    now: u64,
) -> (res: Result<CreateIncomingPaymentResponse, PaymentError>)
    ensures
        result_view(res) == invoice_answer(payment_hash@, invoice@, expiry_secs, now),
{
    match hex_to_array(payment_hash) {
        Err(error) => Err(PaymentError::Backend(error)),
        Ok(hash) => Ok(
            CreateIncomingPaymentResponse {
                request_lookup_id: PaymentIdentifier::PaymentHash(hash),
                request: invoice,
                expiry: Some(now.saturating_add(expiry_secs as u64)),
            },
        ),
    }
}

/// Answers with an invoice that the node created. The answer holds for the
/// moment at which the clock was read.
pub fn invoice_created(payment_hash: &str, invoice: String, expiry_secs: u32) -> (res: Result<
    CreateIncomingPaymentResponse,
    PaymentError,
>)
    ensures
        exists|now: u64|
            result_view(res) == #[trigger] invoice_answer(
                payment_hash@,
                invoice@,
                expiry_secs,
                now,
            ),
{
    let now: u64 = unix_time();
    invoice_created_at(payment_hash, invoice, expiry_secs, now)
}

/// Answers with an offer that the node created.
pub fn offer_created(offer_id: String, offer: String, unix_expiry: Option<u64>) -> (response:
    CreateIncomingPaymentResponse)
    ensures
        response == (CreateIncomingPaymentResponse {
            request_lookup_id: PaymentIdentifier::OfferId(offer_id),
            request: offer,
            expiry: unix_expiry,
        }),
{
    CreateIncomingPaymentResponse {
        request_lookup_id: PaymentIdentifier::OfferId(offer_id),
        request: offer,
        expiry: unix_expiry,
    }
}

/// The amount of a quote in its unit.
pub open spec fn quoted_amount(unit: CurrencyUnit, options: OutgoingPaymentOptions) -> Result<
    Amount,
    PaymentErrorView,
> {
    let msat = match options {
        OutgoingPaymentOptions::Bolt11(options) => bolt11_quote_msat(options),
        OutgoingPaymentOptions::Bolt12(options) => bolt12_quote_msat(options),
        _ => Err(PaymentErrorView::UnsupportedPaymentOption),
    };
    match msat {
        Err(error) => Err(error),
        Ok(msat) => match converted(msat, CurrencyUnit::Msat, unit) {
            Err(error) => Err(PaymentErrorView::Amount(error)),
            Ok(value) => Ok(Amount { value, unit }),
        },
    }
}

/// The least fee reserve in the unit of a quote. It is configured in satoshis.
pub open spec fn least_reserve(unit: CurrencyUnit, min_sat: u64) -> u64 {
    if unit == CurrencyUnit::Msat {
        if min_sat * MSAT_IN_SAT <= u64::MAX {
            (min_sat * MSAT_IN_SAT) as u64
        } else {
            u64::MAX
        }
    } else {
        min_sat
    }
}

/// What a quote is answered with. `relative` is the share of the amount that
/// is reserved, in the unit of the quote.
pub open spec fn quote_answer(
    unit: CurrencyUnit,
    options: OutgoingPaymentOptions,
    min_sat: u64,
    relative: u64,
) -> Result<PaymentQuoteResponse, PaymentErrorView> {
    match quoted_amount(unit, options) {
        Err(error) => Err(error),
        Ok(amount) => Ok(
            PaymentQuoteResponse {
                request_lookup_id: match options {
                    OutgoingPaymentOptions::Bolt11(options) => Some(
                        PaymentIdentifier::PaymentHash(options.bolt11.payment_hash),
                    ),
                    _ => None,
                },
                amount,
                fee: Amount {
                    value: if relative >= least_reserve(unit, min_sat) {
                        relative
                    } else {
                        least_reserve(unit, min_sat)
                    },
                    unit,
                },
                state: MeltQuoteState::Unpaid,
            },
        ),
    }
}

/// What the node is asked for to make a payment.
#[derive(Debug, PartialEq, Eq)]
pub enum SendRequest<T> {
    /// Pay a BOLT11 invoice.
    Bolt11 {
        /// The invoice.
        invoice: T,
        /// The amount, in millisatoshis, where the invoice names none.
        amount_msat: Option<u64>,
        /// How the payment may be routed.
        route_parameters: Option<RouteParametersConfig>,
    },
    /// Pay a BOLT12 offer.
    Bolt12 {
        /// The offer.
        offer: T,
        /// The amount, in millisatoshis, where the offer names none.
        amount_msat: Option<u64>,
        /// How the payment may be routed.
        route_parameters: Option<RouteParametersConfig>,
    },
}

impl<T: DeepView> DeepView for SendRequest<T> {
    type V = SendRequest<T::V>;

    open spec fn deep_view(&self) -> SendRequest<T::V> {
        match self {
            SendRequest::Bolt11 { invoice, amount_msat, route_parameters } => SendRequest::Bolt11 {
                invoice: invoice.deep_view(),
                amount_msat: *amount_msat,
                route_parameters: *route_parameters,
            },
            SendRequest::Bolt12 { offer, amount_msat, route_parameters } => SendRequest::Bolt12 {
                offer: offer.deep_view(),
                amount_msat: *amount_msat,
                route_parameters: *route_parameters,
            },
        }
    }
}

/// How an outgoing payment goes on.
#[derive(Debug, PartialEq, Eq)]
pub struct PaymentStart {
    /// What the node is asked for.
    pub request: SendRequest<String>,
    /// The quote for which the payment is made.
    pub context: OutgoingPaymentContext,
    /// How long to wait for the details of the payment, in seconds.
    pub timeout_secs: Option<u64>,
    /// Whether an event became ready.
    pub notify: bool,
}

/// What a [`PaymentStart`] asks for.
pub struct PaymentPlan {
    /// What the node is asked for.
    pub request: SendRequest<Seq<char>>,
    /// The quote for which the payment is made.
    pub context: ContextView,
    /// How long to wait for the details of the payment, in seconds.
    pub timeout_secs: Option<u64>,
}

/// How an outgoing payment begins, or why it does not.
pub open spec fn payment_plan(unit: CurrencyUnit, options: OutgoingPaymentOptions) -> Result<
    PaymentPlan,
    PaymentErrorView,
> {
    match options {
        OutgoingPaymentOptions::Bolt11(options) => match (
            bolt11_send_msat(options),
            route_parameters(options.max_fee_amount),
        ) {
            (Err(error), _) => Err(error),
            (_, Err(error)) => Err(error),
            (Ok(amount_msat), Ok(route_parameters)) => Ok(
                PaymentPlan {
                    request: SendRequest::Bolt11 {
                        invoice: options.bolt11.text@,
                        amount_msat,
                        route_parameters,
                    },
                    context: ContextView { quote_id: options.quote_id@, unit },
                    timeout_secs: options.timeout_secs,
                },
            ),
        },
        OutgoingPaymentOptions::Bolt12(options) => match (
            bolt12_send_msat(options),
            route_parameters(options.max_fee_amount),
        ) {
            (Err(error), _) => Err(error),
            (_, Err(error)) => Err(error),
            (Ok(amount_msat), Ok(route_parameters)) => Ok(
                PaymentPlan {
                    request: SendRequest::Bolt12 {
                        offer: options.offer.text@,
                        amount_msat,
                        route_parameters,
                    },
                    context: ContextView { quote_id: options.quote_id@, unit },
                    timeout_secs: options.timeout_secs,
                },
            ),
        },
        _ => Err(PaymentErrorView::UnsupportedPaymentOption),
    }
}

/// What is known once an outgoing payment has begun: the quote of an invoice
/// is registered under its hash before anything is sent.
pub open spec fn known_when_begun(
    known: CorrelatorView,
    unit: CurrencyUnit,
    options: OutgoingPaymentOptions,
    now: u64,
) -> CorrelatorView {
    match (options, payment_plan(unit, options)) {
        (OutgoingPaymentOptions::Bolt11(options), Ok(plan)) => known.expired(now).remembering(
            seq![hex_text(options.bolt11.payment_hash@)],
            plan.context,
            now,
        ),
        _ => known,
    }
}

/// Begins an outgoing payment.
pub fn make_payment(
    correlator: &mut OutgoingPaymentCorrelator,
    unit: &CurrencyUnit,
    options: &OutgoingPaymentOptions,
    now: u64,
) -> (res: Result<PaymentStart, PaymentError>)
    ensures
        match res {
            Ok(start) => {
                &&& payment_plan(*unit, *options) == Ok::<PaymentPlan, PaymentErrorView>(
                    PaymentPlan {
                        request: start.request.deep_view(),
                        context: start.context.deep_view(),
                        timeout_secs: start.timeout_secs,
                    },
                )
                &&& start.notify == (match *options {
                    OutgoingPaymentOptions::Bolt11(bolt11) => old(correlator)@.expired(
                        now,
                    ).makes_ready(
                        seq![hex_text(bolt11.bolt11.payment_hash@)],
                        start.context.deep_view(),
                    ),
                    _ => false,
                })
            },
            Err(error) => payment_plan(*unit, *options) == Err::<PaymentPlan, PaymentErrorView>(
                error.deep_view(),
            ),
        },
        final(correlator)@ == known_when_begun(old(correlator)@, *unit, *options, now),
{
    match options {
        OutgoingPaymentOptions::Bolt11(options) => {
            let amount_msat: Option<u64> = match bolt11_amount_msat_for_send(options) {
                Ok(amount_msat) => amount_msat,
                Err(error) => return Err(error),
            };
            let route_parameters = match route_parameters_from_max_fee(&options.max_fee_amount) {
                Ok(route_parameters) => route_parameters,
                Err(error) => return Err(error),
            };
            let context = OutgoingPaymentContext {
                quote_id: options.quote_id.clone(),
                unit: unit.clone(),
            };
            let payment_hash = hex_encode(&options.bolt11.payment_hash);
            proof {
                crate::encoding::lemma_hex_text_is_normal(options.bolt11.payment_hash@);
            }
            let notify = correlator.remember_outgoing_payment_context(
                payment_hash.as_str(),
                context.clone(),
                now,
            );
            Ok(
                PaymentStart {
                    request: SendRequest::Bolt11 {
                        invoice: options.bolt11.text.clone(),
                        amount_msat,
                        route_parameters,
                    },
                    context,
                    timeout_secs: options.timeout_secs,
                    notify,
                },
            )
        },
        OutgoingPaymentOptions::Bolt12(options) => {
            let amount_msat: Option<u64> = match bolt12_amount_msat_for_send(options) {
                Ok(amount_msat) => amount_msat,
                Err(error) => return Err(error),
            };
            let route_parameters = match route_parameters_from_max_fee(&options.max_fee_amount) {
                Ok(route_parameters) => route_parameters,
                Err(error) => return Err(error),
            };
            let context = OutgoingPaymentContext {
                quote_id: options.quote_id.clone(),
                unit: unit.clone(),
            };
            Ok(
                PaymentStart {
                    request: SendRequest::Bolt12 {
                        offer: options.offer.text.clone(),
                        amount_msat,
                        route_parameters,
                    },
                    context,
                    timeout_secs: options.timeout_secs,
                    notify: false,
                },
            )
        },
        _ => Err(PaymentError::UnsupportedPaymentOption),
    }
}

/// What follows when the node has taken a payment.
#[derive(Debug, PartialEq, Eq)]
pub struct PaymentSent {
    /// The payment id, or why there is none.
    pub payment_id: Result<[u8; 32], PaymentError>,
    /// Whether an event became ready.
    pub notify: bool,
}

/// What is known once the node has taken a payment: the quote is registered
/// under the id that the node gave the payment.
pub open spec fn known_when_sent(
    known: CorrelatorView,
    payment_id: Seq<char>,
    context: ContextView,
    now: u64,
) -> CorrelatorView {
    known.expired(now).remembering(seq![normal_key(payment_id)], context, now)
}

/// Registers the quote under the id that the node gave the payment.
pub fn payment_sent(
    correlator: &mut OutgoingPaymentCorrelator,
    payment_id: &str,
    context: &OutgoingPaymentContext,
    now: u64,
) -> (sent: PaymentSent)
    ensures
        match sent.payment_id {
            Ok(id) => hex_array(payment_id@) == Ok::<[u8; 32], Error>(id),
            Err(error) => error matches PaymentError::Backend(error) && hex_array(payment_id@)
                == Err::<[u8; 32], Error>(error),
        },
        sent.notify == old(correlator)@.expired(now).makes_ready(
            seq![normal_key(payment_id@)],
            context.deep_view(),
        ),
        final(correlator)@ == known_when_sent(
            old(correlator)@,
            payment_id@,
            context.deep_view(),
            now,
        ),
{
    let notify = correlator.remember_outgoing_payment_context(payment_id, context.clone(), now);
    let payment_id = match hex_to_array(payment_id) {
        Ok(id) => Ok(id),
        Err(error) => Err(PaymentError::Backend(error)),
    };
    PaymentSent { payment_id, notify }
}

/// What follows a request for the details of a payment.
#[derive(Debug, PartialEq, Eq)]
pub enum WaitStep {
    /// These are the details.
    Found(Payment),
    /// Ask again after a pause, in milliseconds.
    AskAgainAfter(u64),
    /// There are none in time.
    NotFound(Error),
}

/// Waits for the details of a payment: `elapsed_secs` whole seconds have
/// passed since the first request.
pub fn wait_for_payment_details(
    found: Option<Payment>,
    elapsed_secs: u64,
    timeout_secs: Option<u64>,
) -> (step: WaitStep)
    ensures
        step == (match found {
            Some(payment) => WaitStep::Found(payment),
            None => if elapsed_secs >= (match timeout_secs {
                Some(secs) => secs,
                None => DEFAULT_PAYMENT_WAIT_SECS,
            }) {
                WaitStep::NotFound(Error::PaymentNotFound)
            } else {
                WaitStep::AskAgainAfter(PAYMENT_POLL_MS)
            },
        }),
{
    let timeout: u64 = match timeout_secs {
        Some(secs) => secs,
        None => DEFAULT_PAYMENT_WAIT_SECS,
    };
    match found {
        Some(payment) => WaitStep::Found(payment),
        None => if elapsed_secs >= timeout {
            WaitStep::NotFound(Error::PaymentNotFound)
        } else {
            WaitStep::AskAgainAfter(PAYMENT_POLL_MS)
        },
    }
}

/// What follows when the details of a payment are known.
#[derive(Debug, PartialEq, Eq)]
pub struct PaymentConcluded {
    /// What the mint is answered with.
    pub answer: Result<MakePaymentResponse, PaymentError>,
    /// Whether an event became ready.
    pub notify: bool,
}

/// Whether an answer settles a quote for good.
pub open spec fn is_terminal(answer: Result<MakePaymentResponseView, PaymentErrorView>) -> bool {
    answer matches Ok(answer) && (answer.status == MeltQuoteState::Paid || answer.status
        == MeltQuoteState::Failed)
}

/// What is known once a payment was answered: its quote is registered under
/// all its keys, and done with where the answer is final.
pub open spec fn known_when_answered(
    known: CorrelatorView,
    context: ContextView,
    payment: Payment,
    answer: Result<MakePaymentResponseView, PaymentErrorView>,
    now: u64,
) -> CorrelatorView {
    let remembered = known.expired(now).remembering(keys_of(payment), context, now);
    if is_terminal(answer) {
        remembered.expired(now).with_finalized(context.quote_id, now)
    } else {
        remembered
    }
}

/// Answers with the details of a payment.
pub fn payment_found(
    correlator: &mut OutgoingPaymentCorrelator,
    unit: &CurrencyUnit,
    payment_id: &[u8; 32],
    payment: &Payment,
    context: &OutgoingPaymentContext,
    now: u64,
) -> (concluded: PaymentConcluded)
    ensures
        result_view(concluded.answer) == payment_answer(
            *unit,
            PaymentIdentifier::PaymentId(*payment_id),
            *payment,
        ),
        concluded.notify == old(correlator)@.expired(now).makes_ready(
            keys_of(*payment),
            context.deep_view(),
        ),
        final(correlator)@ == known_when_answered(
            old(correlator)@,
            context.deep_view(),
            *payment,
            result_view(concluded.answer),
            now,
        ),
{
    let notify = correlator.remember_outgoing_payment_keys(payment, context.clone(), now);
    let answer = make_payment_response_from_payment(
        unit,
        PaymentIdentifier::PaymentId(*payment_id),
        payment,
    );
    let terminal = match &answer {
        Ok(response) => response.status == MeltQuoteState::Paid || response.status
            == MeltQuoteState::Failed,
        Err(_) => false,
    };
    if terminal {
        correlator.remove_outgoing_payment_context(&context.quote_id, now);
    }
    PaymentConcluded { answer, notify }
}

/// Which payments of the history are looked for.
#[derive(Debug, PartialEq, Eq)]
pub enum PaymentFilter {
    /// Settled payments of an offer.
    IncomingOffer(String),
    /// Settled payments of an invoice of this node, by its hash.
    IncomingHash(String),
    /// Payments of somebody's invoice, by its hash.
    OutgoingHash(String),
}

/// Whether a payment is looked for.
pub open spec fn accepts(filter: PaymentFilter, payment: Payment) -> bool {
    match filter {
        PaymentFilter::IncomingOffer(wanted) => {
            &&& direction_of(payment) == Ok::<PaymentDirection, Error>(PaymentDirection::Inbound)
            &&& status_of(payment) == Ok::<PaymentStatus, Error>(PaymentStatus::Succeeded)
            &&& payment.kind matches Some(PaymentKind::Bolt12Offer { offer_id, .. }) && offer_id@
                == wanted@
        },
        PaymentFilter::IncomingHash(wanted) => {
            &&& direction_of(payment) == Ok::<PaymentDirection, Error>(PaymentDirection::Inbound)
            &&& status_of(payment) == Ok::<PaymentStatus, Error>(PaymentStatus::Succeeded)
            &&& payment.kind matches Some(PaymentKind::Bolt11 { hash, .. }) && lower(hash@)
                == lower(wanted@)
        },
        PaymentFilter::OutgoingHash(wanted) => {
            &&& direction_of(payment) == Ok::<PaymentDirection, Error>(PaymentDirection::Outbound)
            &&& payment.kind matches Some(PaymentKind::Bolt11 { hash, .. }) && lower(hash@)
                == lower(wanted@)
        },
    }
}

impl PaymentFilter {
    /// Whether a payment is looked for.
    pub fn matches_payment(&self, payment: &Payment) -> (res: bool)
        ensures
            res == accepts(*self, *payment),
    {
        match self {
            PaymentFilter::IncomingOffer(wanted) => {
                if !settled_inbound(payment) {
                    return false;
                }
                match &payment.kind {
                    Some(PaymentKind::Bolt12Offer { offer_id, .. }) => *offer_id == *wanted,
                    _ => false,
                }
            },
            PaymentFilter::IncomingHash(wanted) => {
                if !settled_inbound(payment) {
                    return false;
                }
                match &payment.kind {
                    Some(PaymentKind::Bolt11 { hash, .. }) => eq_ignore_ascii_case(
                        hash.as_str(),
                        wanted.as_str(),
                    ),
                    _ => false,
                }
            },
            PaymentFilter::OutgoingHash(wanted) => {
                match payment_direction(payment) {
                    Ok(PaymentDirection::Outbound) => {},
                    _ => return false,
                }
                match &payment.kind {
                    Some(PaymentKind::Bolt11 { hash, .. }) => eq_ignore_ascii_case(
                        hash.as_str(),
                        wanted.as_str(),
                    ),
                    _ => false,
                }
            },
        }
    }
}

fn settled_inbound(payment: &Payment) -> (res: bool)
    ensures
        res == (direction_of(*payment) == Ok::<PaymentDirection, Error>(PaymentDirection::Inbound)
            && status_of(*payment) == Ok::<PaymentStatus, Error>(PaymentStatus::Succeeded)),
{
    match payment_direction(payment) {
        Ok(PaymentDirection::Inbound) => {},
        _ => return false,
    }
    match payment_status(payment) {
        Ok(PaymentStatus::Succeeded) => true,
        _ => false,
    }
}

/// The payments of a page that are looked for, in order.
pub open spec fn accepted(page: Seq<Payment>, filter: PaymentFilter) -> Seq<Payment>
    decreases page.len(),
{
    if page.len() == 0 {
        Seq::empty()
    } else {
        let earlier = accepted(page.drop_last(), filter);
        if accepts(filter, page.last()) {
            earlier.push(page.last())
        } else {
            earlier
        }
    }
}

/// What follows a page of the history.
#[derive(Clone, Copy, Debug, PartialEq, Eq, Structural)]
pub enum ScanStep {
    /// Read the next page.
    NextPage,
    /// The history was read to its end.
    Done,
}

/// Reading the history for payments, page by page.
#[derive(Debug)]
pub struct PaymentScan {
    filter: PaymentFilter,
    max_pages: u16,
    pages: u16,
    payments: Vec<Payment>,
}

impl PaymentScan {
    /// The payments found so far.
    pub closed spec fn found(&self) -> Seq<Payment> {
        self.payments@
    }

    /// Which payments are looked for.
    pub closed spec fn filter(&self) -> PaymentFilter {
        self.filter
    }

    /// How many pages were read.
    pub closed spec fn pages_read(&self) -> u16 {
        self.pages
    }

    /// How many pages may be read.
    pub closed spec fn limit(&self) -> u16 {
        self.max_pages
    }

    /// Begins to read. Where no page may be read, that is an error at once.
    pub fn new(filter: PaymentFilter, max_pages: u16) -> (res: Result<PaymentScan, Error>)
        ensures
            match res {
                Ok(scan) => {
                    &&& max_pages > 0
                    &&& scan.filter() == filter
                    &&& scan.limit() == max_pages
                    &&& scan.pages_read() == 0
                    &&& scan.found().len() == 0
                },
                Err(error) => max_pages == 0 && error == (Error::PaymentScanLimitExceeded {
                    max_pages,
                }),
            },
    {
        if max_pages == 0 {
            return Err(Error::PaymentScanLimitExceeded { max_pages });
        }
        Ok(PaymentScan { filter, max_pages, pages: 0, payments: Vec::new() })
    }

    /// Takes a page. Where there are more pages than may be read, that is an
    /// error, and what was found so far is not an answer.
    pub fn list_matching_payments(&mut self, page: Vec<Payment>, has_next: bool) -> (res: Result<
        ScanStep,
        Error,
    >)
        requires
            old(self).pages_read() < old(self).limit(),
        ensures
            final(self).filter() == old(self).filter(),
            final(self).limit() == old(self).limit(),
            final(self).pages_read() == old(self).pages_read() + 1,
            final(self).found() == old(self).found() + accepted(page@, old(self).filter()),
            res == (if !has_next {
                Ok::<ScanStep, Error>(ScanStep::Done)
            } else if old(self).pages_read() + 1 < old(self).limit() {
                Ok::<ScanStep, Error>(ScanStep::NextPage)
            } else {
                Err::<ScanStep, Error>(
                    Error::PaymentScanLimitExceeded { max_pages: old(self).limit() },
                )
            }),
    {
        let mut left = page;
        let ghost all = left@;
        let total: usize = left.len();
        let mut n: usize = 0;
        assert(all.take(0) =~= Seq::empty());
        assert(all.skip(0) =~= all);
        assert(self.payments@ + Seq::<Payment>::empty() =~= self.payments@);
        while n < total
            invariant
                n <= total,
                total == all.len(),
                left@ == all.skip(n as int),
                self.filter == old(self).filter,
                self.max_pages == old(self).max_pages,
                self.pages == old(self).pages,
                self.payments@ == old(self).payments@ + accepted(all.take(n as int), self.filter),
            decreases total - n,
        {
            let payment = left.remove(0);
            proof {
                let next = all.take(n + 1);
                assert(next.drop_last() =~= all.take(n as int));
                assert(next.last() == payment);
            }
            if self.filter.matches_payment(&payment) {
                self.payments.push(payment);
                assert(self.payments@ =~= old(self).payments@ + accepted(
                    all.take(n + 1),
                    self.filter,
                ));
            }
            n = n + 1;
            assert(left@ =~= all.skip(n as int));
        }
        assert(all.take(n as int) =~= all);
        self.pages = self.pages + 1;
        if !has_next {
            Ok(ScanStep::Done)
        } else if self.pages < self.max_pages {
            Ok(ScanStep::NextPage)
        } else {
            Err(Error::PaymentScanLimitExceeded { max_pages: self.max_pages })
        }
    }

    /// The payments that were found.
    pub fn into_payments(self) -> (payments: Vec<Payment>)
        ensures
            payments@ == self.found(),
    {
        self.payments
    }
}

/// How an incoming payment is looked up.
#[derive(Debug, PartialEq, Eq)]
pub enum IncomingLookup {
    /// By reading the history.
    Scan(PaymentFilter),
    /// By asking for one payment, by its id.
    Fetch(String),
}

/// How an incoming payment is looked up: by reading the history for an offer
/// or a hash, by asking for a payment id, and in no other way.
pub fn check_incoming_payment_status(payment_identifier: &PaymentIdentifier) -> (res: Result<
    IncomingLookup,
    PaymentError,
>)
    ensures
        match *payment_identifier {
            PaymentIdentifier::OfferId(offer_id) => res == Ok::<IncomingLookup, PaymentError>(
                IncomingLookup::Scan(PaymentFilter::IncomingOffer(offer_id)),
            ),
            PaymentIdentifier::PaymentHash(hash) => res matches Ok(
                IncomingLookup::Scan(PaymentFilter::IncomingHash(text)),
            ) && text@ == hex_text(hash@),
            PaymentIdentifier::PaymentId(id) => res matches Ok(IncomingLookup::Fetch(text))
                && text@ == hex_text(id@),
            _ => res == Err::<IncomingLookup, PaymentError>(
                PaymentError::Backend(Error::UnsupportedPaymentIdentifierType),
            ),
        },
{
    match payment_identifier {
        PaymentIdentifier::OfferId(offer_id) => Ok(
            IncomingLookup::Scan(PaymentFilter::IncomingOffer(offer_id.clone())),
        ),
        PaymentIdentifier::PaymentHash(hash) => Ok(
            IncomingLookup::Scan(PaymentFilter::IncomingHash(hex_encode(hash))),
        ),
        PaymentIdentifier::PaymentId(id) => Ok(IncomingLookup::Fetch(hex_encode(id))),
        _ => Err(PaymentError::Backend(Error::UnsupportedPaymentIdentifierType)),
    }
}

/// What the payments of a list are reported as, without those that are not
/// received payments.
pub open spec fn received_answers(payments: Seq<Payment>) -> Seq<WaitPaymentResponseView>
    decreases payments.len(),
{
    if payments.len() == 0 {
        Seq::empty()
    } else {
        let earlier = received_answers(payments.drop_last());
        match received_answer(payments.last()) {
            Ok(Some(response)) => earlier.push(response),
            _ => earlier,
        }
    }
}

/// Answers with the payments that were found. One that cannot be mapped is
/// left out.
pub fn incoming_payments_found(payments: &Vec<Payment>) -> (responses: Vec<WaitPaymentResponse>)
    ensures
        responses.deep_view() == received_answers(payments@),
{
    let mut responses: Vec<WaitPaymentResponse> = Vec::new();
    let mut n: usize = 0;
    assert(payments@.take(0) =~= Seq::empty());
    assert(responses.deep_view() =~= Seq::empty());
    while n < payments.len()
        invariant
            n <= payments@.len(),
            responses.deep_view() == received_answers(payments@.take(n as int)),
        decreases payments@.len() - n,
    {
        let ghost before = responses;
        proof {
            let next = payments@.take(n + 1);
            assert(next.drop_last() =~= payments@.take(n as int));
            assert(next.last() == payments@[n as int]);
        }
        match wait_payment_response_from_payment(&payments[n]) {
            Ok(Some(response)) => {
                responses.push(response);
                assert(responses.deep_view() =~= before.deep_view().push(response.deep_view()));
            },
            _ => {},
        }
        n = n + 1;
    }
    assert(payments@.take(n as int) =~= payments@);
    responses
}

/// Answers with one payment that was asked for by its id, where there is one.
pub fn incoming_payment_fetched(payment: &Option<Payment>) -> (res: Result<
    Option<WaitPaymentResponse>,
    PaymentError,
>)
    ensures
        match *payment {
            None => res == Ok::<Option<WaitPaymentResponse>, PaymentError>(None),
            Some(payment) => result_view(res) == (match received_answer(payment) {
                Ok(answer) => Ok(answer),
                Err(error) => Err(PaymentErrorView::Backend(error)),
            }),
        },
{
    match payment {
        None => Ok(None),
        Some(payment) => match wait_payment_response_from_payment(payment) {
            Ok(answer) => Ok(answer),
            Err(error) => Err(PaymentError::Backend(error)),
        },
    }
}

/// How an outgoing payment is looked up.
#[derive(Debug, PartialEq, Eq)]
pub enum OutgoingLookup {
    /// By reading the history.
    Scan(PaymentFilter),
    /// By asking for one payment, by its id.
    Fetch(String),
    /// Not at all: this is the answer.
    Answer(MakePaymentResponse),
}

/// How an outgoing payment is looked up: by reading the history for a hash, by
/// asking for a payment id. Nothing is known of any other payment.
pub fn check_outgoing_payment(payment_identifier: &PaymentIdentifier) -> (lookup: OutgoingLookup)
    ensures
        match *payment_identifier {
            PaymentIdentifier::PaymentId(id) => lookup matches OutgoingLookup::Fetch(text) && text@
                == hex_text(id@),
            PaymentIdentifier::PaymentHash(hash) => lookup matches OutgoingLookup::Scan(
                PaymentFilter::OutgoingHash(text),
            ) && text@ == hex_text(hash@),
            _ => lookup matches OutgoingLookup::Answer(answer) && answer == (MakePaymentResponse {
                payment_lookup_id: *payment_identifier,
                payment_proof: None,
                status: MeltQuoteState::Unknown,
                total_spent: Amount { value: 0, unit: CurrencyUnit::Msat },
            }),
        },
{
    match payment_identifier {
        PaymentIdentifier::PaymentId(id) => OutgoingLookup::Fetch(hex_encode(id)),
        PaymentIdentifier::PaymentHash(hash) => OutgoingLookup::Scan(
            PaymentFilter::OutgoingHash(hex_encode(hash)),
        ),
        _ => OutgoingLookup::Answer(
            MakePaymentResponse {
                payment_lookup_id: payment_identifier.clone(),
                payment_proof: None,
                status: MeltQuoteState::Unknown,
                total_spent: Amount::new(0, CurrencyUnit::Msat),
            },
        ),
    }
}

/// What one outgoing payment that was asked for by its id is answered with.
pub open spec fn outgoing_answer(identifier: PaymentIdentifier, payment: Option<Payment>) -> Result<
    MakePaymentResponseView,
    PaymentErrorView,
> {
    match payment {
        None => Err(PaymentErrorView::Backend(Error::PaymentNotFound)),
        Some(payment) => match direction_of(payment) {
            Err(error) => Err(PaymentErrorView::Backend(error)),
            Ok(PaymentDirection::Inbound) => Err(
                PaymentErrorView::Backend(Error::InvalidPaymentDirection),
            ),
            Ok(PaymentDirection::Outbound) => payment_answer(
                CurrencyUnit::Msat,
                identifier,
                payment,
            ),
        },
    }
}

/// Answers with one outgoing payment that was asked for by its id.
pub fn outgoing_payment_fetched(
    payment_identifier: &PaymentIdentifier,
    payment: &Option<Payment>,
) -> (res: Result<MakePaymentResponse, PaymentError>)
    ensures
        result_view(res) == outgoing_answer(*payment_identifier, *payment),
{
    let payment = match payment {
        Some(payment) => payment,
        None => return Err(PaymentError::Backend(Error::PaymentNotFound)),
    };
    match payment_direction(payment) {
        Ok(PaymentDirection::Outbound) => {},
        Ok(PaymentDirection::Inbound) => {
            return Err(PaymentError::Backend(Error::InvalidPaymentDirection));
        },
        Err(error) => return Err(PaymentError::Backend(error)),
    }
    make_payment_response_from_payment(&CurrencyUnit::Msat, payment_identifier.clone(), payment)
}

/// Answers with the payments of an invoice that were found: with the one that
/// says the most.
pub fn outgoing_payments_found(
    payment_identifier: &PaymentIdentifier,
    payments: Vec<Payment>,
) -> (res: Result<MakePaymentResponse, PaymentError>)
    ensures
        if payments@.len() == 0 {
            res == Err::<MakePaymentResponse, PaymentError>(
                PaymentError::Backend(Error::PaymentNotFound),
            )
        } else {
            exists|at: int| #[trigger]
                is_selected(payments@, at) && result_view(res) == payment_answer(
                    CurrencyUnit::Msat,
                    *payment_identifier,
                    payments@[at],
                )
        },
{
    match select_bolt11_payment(payments) {
        None => Err(PaymentError::Backend(Error::PaymentNotFound)),
        Some(payment) => make_payment_response_from_payment(
            &CurrencyUnit::Msat,
            payment_identifier.clone(),
            &payment,
        ),
    }
}

/// The LDK Server backend: how it was configured.
#[derive(Clone, Copy, Debug, PartialEq, Eq, Structural)]
pub struct LdkServerBackend {
    /// What is reserved for fees.
    pub fee_reserve: FeeReserve,
    /// How many pages of the history are read.
    pub max_payment_scan_pages: u16,
}

impl LdkServerBackend {
    /// The backend for a configuration, and how the node is reached.
    pub fn new(config: Config) -> (res: (LdkServerBackend, Connection))
        ensures
            res.0.fee_reserve == config.fee_reserve,
            res.0.max_payment_scan_pages == config.max_payment_scan_pages,
            res.1.address@ == bare_address(config.address@),
            res.1.api_key == config.api_key,
            res.1.cert_pem == config.cert_pem,
    {
        let address = normalize_address(config.address.as_str());
        (
            LdkServerBackend {
                fee_reserve: config.fee_reserve,
                max_payment_scan_pages: config.max_payment_scan_pages,
            },
            Connection { address, api_key: config.api_key, cert_pem: config.cert_pem },
        )
    }

    /// What the backend can do: BOLT11 and BOLT12 in millisatoshis.
    pub fn get_settings(&self) -> (settings: SettingsResponse)
        ensures
            settings.unit@ == "msat"@,
            settings.bolt11 == Some(
                Bolt11Settings { mpp: false, amountless: true, invoice_description: true },
            ),
            settings.bolt12 == Some(Bolt12Settings { amountless: true, invoice_description: true }),
            settings.onchain is None,
            settings.custom@.len() == 0,
    {
        SettingsResponse {
            unit: "msat".to_owned(),
            bolt11: Some(
                Bolt11Settings { mpp: false, amountless: true, invoice_description: true },
            ),
            bolt12: Some(Bolt12Settings { amountless: true, invoice_description: true }),
            onchain: None,
            custom: Vec::new(),
        }
    }

    /// The amount of a quote in its unit.
    pub fn quote_amount(unit: &CurrencyUnit, options: &OutgoingPaymentOptions) -> (res: Result<
        Amount,
        PaymentError,
    >)
        ensures
            match res {
                Ok(amount) => quoted_amount(*unit, *options) == Ok::<Amount, PaymentErrorView>(
                    amount,
                ),
                Err(error) => quoted_amount(*unit, *options) == Err::<Amount, PaymentErrorView>(
                    error.deep_view(),
                ),
            },
    {
        let amount_msat: u64 = match options {
            OutgoingPaymentOptions::Bolt11(options) => match bolt11_amount_msat_for_quote(options) {
                Ok(amount_msat) => amount_msat,
                Err(error) => return Err(error),
            },
            OutgoingPaymentOptions::Bolt12(options) => match bolt12_amount_msat_for_quote(options) {
                Ok(amount_msat) => amount_msat,
                Err(error) => return Err(error),
            },
            _ => return Err(PaymentError::UnsupportedPaymentOption),
        };
        match Amount::new(amount_msat, CurrencyUnit::Msat).convert_to(unit) {
            Ok(amount) => Ok(amount),
            Err(error) => Err(PaymentError::Amount(error)),
        }
    }

    /// The fee to reserve: the share of the amount, but at least the minimum.
    pub fn fee_reserve_for_amount(&self, unit: &CurrencyUnit, relative: u64) -> (fee: Amount)
        ensures
            fee.unit == *unit,
            fee.value == (if relative >= least_reserve(*unit, self.fee_reserve.min_fee_reserve) {
                relative
            } else {
                least_reserve(*unit, self.fee_reserve.min_fee_reserve)
            }),
    {
        let min_sat: u64 = self.fee_reserve.min_fee_reserve;
        let least: u64 = match unit {
            CurrencyUnit::Msat => match min_sat.checked_mul(MSAT_IN_SAT) {
                Some(msat) => msat,
                None => u64::MAX,
            },
            _ => min_sat,
        };
        let value: u64 = if relative >= least {
            relative
        } else {
            least
        };
        Amount::new(value, unit.clone())
    }

    /// Quotes an outgoing payment. `relative` is the share of the amount that
    /// is reserved for fees, in the unit of the quote.
    pub fn get_payment_quote(
        &self,
        unit: &CurrencyUnit,
        options: &OutgoingPaymentOptions,
        relative: u64,
    ) -> (res: Result<PaymentQuoteResponse, PaymentError>)
        ensures
            result_view(res) == quote_answer(
                *unit,
                *options,
                self.fee_reserve.min_fee_reserve,
                relative,
            ),
    {
        let amount = match Self::quote_amount(unit, options) {
            Ok(amount) => amount,
            Err(error) => return Err(error),
        };
        let request_lookup_id = match options {
            OutgoingPaymentOptions::Bolt11(options) => Some(
                PaymentIdentifier::PaymentHash(options.bolt11.payment_hash),
            ),
            _ => None,
        };
        Ok(
            PaymentQuoteResponse {
                request_lookup_id,
                amount,
                fee: self.fee_reserve_for_amount(unit, relative),
                state: MeltQuoteState::Unpaid,
            },
        )
    }
}

} // verus!
