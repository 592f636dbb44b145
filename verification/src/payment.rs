//! What a mint asks of a payment backend and what it gets back.

use vstd::prelude::*;

verus! {

/// The number of millisatoshis in one satoshi.
pub const MSAT_IN_SAT: u64 = 1_000;

/// The unit of an amount.
#[derive(Debug, PartialEq, Eq)]
pub enum CurrencyUnit {
    /// Satoshi.
    Sat,
    /// Millisatoshi.
    Msat,
    /// US dollar.
    Usd,
    /// Euro.
    Eur,
    /// Authentication token.
    Auth,
    /// Any other unit, by name.
    Custom(String),
}

impl Clone for CurrencyUnit {
    fn clone(&self) -> (res: Self)
        ensures
            res == *self,
    {
        match self {
            CurrencyUnit::Sat => CurrencyUnit::Sat,
            CurrencyUnit::Msat => CurrencyUnit::Msat,
            CurrencyUnit::Usd => CurrencyUnit::Usd,
            CurrencyUnit::Eur => CurrencyUnit::Eur,
            CurrencyUnit::Auth => CurrencyUnit::Auth,
            CurrencyUnit::Custom(name) => CurrencyUnit::Custom(name.clone()),
        }
    }
}

/// Whether two units are the same: the same variant, and the same name where
/// a name is what tells units apart.
pub open spec fn same_unit(a: CurrencyUnit, b: CurrencyUnit) -> bool {
    match (a, b) {
        (CurrencyUnit::Custom(x), CurrencyUnit::Custom(y)) => x@ == y@,
        _ => a == b,
    }
}

impl CurrencyUnit {
    /// Whether this unit is the same as another.
    pub fn same(&self, other: &CurrencyUnit) -> (res: bool)
        ensures
            res == same_unit(*self, *other),
    {
        match (self, other) {
            (CurrencyUnit::Sat, CurrencyUnit::Sat) => true,
            (CurrencyUnit::Msat, CurrencyUnit::Msat) => true,
            (CurrencyUnit::Usd, CurrencyUnit::Usd) => true,
            (CurrencyUnit::Eur, CurrencyUnit::Eur) => true,
            (CurrencyUnit::Auth, CurrencyUnit::Auth) => true,
            (CurrencyUnit::Custom(a), CurrencyUnit::Custom(b)) => *a == *b,
            _ => false,
        }
    }
}

/// Why an amount could not be converted.
#[derive(Clone, Copy, Debug, PartialEq, Eq, Structural)]
pub enum AmountError {
    /// The converted amount does not fit.
    AmountOverflow,
    /// No rate is known between the two units.
    CannotConvertUnits,
}

/// A number of some unit.
#[derive(Debug, PartialEq, Eq)]
pub struct Amount {
    /// How many.
    pub value: u64,
    /// Of what.
    pub unit: CurrencyUnit,
}

impl Clone for Amount {
    fn clone(&self) -> (res: Self)
        ensures
            res == *self,
    {
        Amount { value: self.value, unit: self.unit.clone() }
    }
}

/// The number of `to` units that `value` units of `from` make: satoshis and
/// millisatoshis convert, rounding down, and nothing else does.
pub open spec fn converted(value: u64, from: CurrencyUnit, to: CurrencyUnit) -> Result<
    u64,
    AmountError,
> {
    if same_unit(from, to) {
        Ok(value)
    } else {
        match (from, to) {
            (CurrencyUnit::Sat, CurrencyUnit::Msat) => if value * MSAT_IN_SAT <= u64::MAX {
                Ok((value * MSAT_IN_SAT) as u64)
            } else {
                Err(AmountError::AmountOverflow)
            },
            (CurrencyUnit::Msat, CurrencyUnit::Sat) => Ok((value / MSAT_IN_SAT) as u64),
            _ => Err(AmountError::CannotConvertUnits),
        }
    }
}

/// The least number of satoshis that is worth at least `msat` millisatoshis.
pub open spec fn sats_rounded_up(msat: int) -> int {
    (msat + MSAT_IN_SAT - 1) / MSAT_IN_SAT as int
}

impl Amount {
    /// An amount of `value` units.
    pub fn new(value: u64, unit: CurrencyUnit) -> (res: Amount)
        ensures
            res == (Amount { value, unit }),
    {
        Amount { value, unit }
    }

    /// The same amount in another unit.
    pub fn convert_to(&self, target_unit: &CurrencyUnit) -> (res: Result<Amount, AmountError>)
        ensures
            match res {
                Ok(amount) => {
                    &&& converted(self.value, self.unit, *target_unit) == Ok::<u64, AmountError>(
                        amount.value,
                    )
                    &&& amount.unit == *target_unit
                },
                Err(error) => converted(self.value, self.unit, *target_unit) == Err::<
                    u64,
                    AmountError,
                >(error),
            },
    {
        if self.unit.same(target_unit) {
            return Ok(Amount { value: self.value, unit: target_unit.clone() });
        }
        match (&self.unit, target_unit) {
            (CurrencyUnit::Sat, CurrencyUnit::Msat) => match self.value.checked_mul(MSAT_IN_SAT) {
                Some(value) => Ok(Amount { value, unit: CurrencyUnit::Msat }),
                None => Err(AmountError::AmountOverflow),
            },
            (CurrencyUnit::Msat, CurrencyUnit::Sat) => Ok(
                Amount { value: self.value / MSAT_IN_SAT, unit: CurrencyUnit::Sat },
            ),
            _ => Err(AmountError::CannotConvertUnits),
        }
    }

    /// The amount as a number of millisatoshis.
    pub fn to_msat(&self) -> (res: Result<u64, AmountError>)
        ensures
            res == converted(self.value, self.unit, CurrencyUnit::Msat),
    {
        match self.convert_to(&CurrencyUnit::Msat) {
            Ok(amount) => Ok(amount.value),
            Err(error) => Err(error),
        }
    }

    /// The amount as a number of satoshis, rounded down.
    pub fn to_sat(&self) -> (res: Result<u64, AmountError>)
        ensures
            res == converted(self.value, self.unit, CurrencyUnit::Sat),
    {
        match self.convert_to(&CurrencyUnit::Sat) {
            Ok(amount) => Ok(amount.value),
            Err(error) => Err(error),
        }
    }
}

/// The least number of satoshis that is worth at least `msat` millisatoshis.
pub fn msat_to_sat_ceil(msat: u64) -> (sats: u64)
    ensures
        sats == sats_rounded_up(msat as int),
        sats * MSAT_IN_SAT >= msat,
        sats > 0 ==> (sats - 1) * MSAT_IN_SAT < msat,
{
    if msat % MSAT_IN_SAT == 0 {
        msat / MSAT_IN_SAT
    } else {
        msat / MSAT_IN_SAT + 1
    }
}

/// Converting satoshis to millisatoshis and back gives the satoshis.
pub proof fn sat_to_msat_and_back(value: u64)
    requires
        value * MSAT_IN_SAT <= u64::MAX,
    ensures
        converted(value, CurrencyUnit::Sat, CurrencyUnit::Msat) matches Ok(msat) && converted(
            msat,
            CurrencyUnit::Msat,
            CurrencyUnit::Sat,
        ) == Ok::<u64, AmountError>(value),
{
}

/// Rounding a sum up once never reports more than rounding each part up.
pub proof fn rounding_once_is_never_more(a: int, b: int)
    requires
        0 <= a,
        0 <= b,
    ensures
        sats_rounded_up(a + b) <= sats_rounded_up(a) + sats_rounded_up(b),
        sats_rounded_up(a + b) * MSAT_IN_SAT >= a + b,
        sats_rounded_up(a + b) * MSAT_IN_SAT < a + b + MSAT_IN_SAT,
{
}

/// The state of a melt quote.
#[derive(Clone, Copy, Debug, PartialEq, Eq, Structural)]
pub enum MeltQuoteState {
    /// Not paid, and no attempt to pay is under way.
    Unpaid,
    /// Paid.
    Paid,
    /// An attempt to pay is under way.
    Pending,
    /// Nothing is known.
    Unknown,
    /// The attempt to pay failed for good.
    Failed,
}

/// How a melt quote asks to be paid.
#[derive(Clone, Copy, Debug, PartialEq, Eq, Structural)]
pub enum MeltOptions {
    /// Pay part of a multi-part payment.
    Mpp {
        /// The part, in millisatoshis.
        amount: u64,
    },
    /// Pay a request that names no amount.
    Amountless {
        /// The amount, in millisatoshis.
        amount_msat: u64,
    },
}

/// How a payment is looked up.
#[derive(Debug, PartialEq, Eq)]
pub enum PaymentIdentifier {
    /// By label.
    Label(String),
    /// By BOLT12 offer.
    OfferId(String),
    /// By BOLT11 payment hash.
    PaymentHash([u8; 32]),
    /// By BOLT12 payment hash.
    Bolt12PaymentHash([u8; 32]),
    /// By payment id.
    PaymentId([u8; 32]),
    /// By an id of the backend's own.
    CustomId(String),
    /// By quote.
    QuoteId(String),
}

impl Clone for PaymentIdentifier {
    fn clone(&self) -> (res: Self)
        ensures
            res == *self,
    {
        match self {
            PaymentIdentifier::Label(text) => PaymentIdentifier::Label(text.clone()),
            PaymentIdentifier::OfferId(text) => PaymentIdentifier::OfferId(text.clone()),
            PaymentIdentifier::PaymentHash(hash) => PaymentIdentifier::PaymentHash(*hash),
            PaymentIdentifier::Bolt12PaymentHash(hash) => PaymentIdentifier::Bolt12PaymentHash(
                *hash,
            ),
            PaymentIdentifier::PaymentId(id) => PaymentIdentifier::PaymentId(*id),
            PaymentIdentifier::CustomId(text) => PaymentIdentifier::CustomId(text.clone()),
            PaymentIdentifier::QuoteId(text) => PaymentIdentifier::QuoteId(text.clone()),
        }
    }
}

/// Options for a BOLT11 incoming payment.
#[derive(Debug, PartialEq, Eq)]
pub struct Bolt11IncomingPaymentOptions {
    /// What the payment is for.
    pub description: Option<String>,
    /// How much to ask for.
    pub amount: Amount,
    /// When the request expires, in seconds since the Unix epoch.
    pub unix_expiry: Option<u64>,
}

/// Options for a BOLT12 incoming payment.
#[derive(Debug, PartialEq, Eq)]
pub struct Bolt12IncomingPaymentOptions {
    /// What the payment is for.
    pub description: Option<String>,
    /// How much to ask for, where the offer is not open.
    pub amount: Option<Amount>,
    /// When the offer expires, in seconds since the Unix epoch.
    pub unix_expiry: Option<u64>,
}

/// Options for an incoming payment.
#[derive(Debug, PartialEq, Eq)]
pub enum IncomingPaymentOptions {
    /// A BOLT11 invoice.
    Bolt11(Bolt11IncomingPaymentOptions),
    /// A BOLT12 offer.
    Bolt12(Bolt12IncomingPaymentOptions),
    /// A method of the backend's own.
    Custom,
    /// An on-chain payment.
    Onchain,
}

/// What a mint reads of a BOLT11 invoice.
#[derive(Debug, PartialEq, Eq)]
pub struct Bolt11Invoice {
    /// The invoice in its canonical text form.
    pub text: String,
    /// The payment hash.
    pub payment_hash: [u8; 32],
    /// The amount in millisatoshis, where the invoice names one.
    pub amount_msat: Option<u64>,
    /// When the invoice expires, in seconds since the Unix epoch, where that
    /// moment can be represented.
    pub expires_at: Option<u64>,
}

/// The amount of a BOLT12 offer.
#[derive(Clone, Copy, Debug, PartialEq, Eq, Structural)]
pub enum OfferAmount {
    /// A number of millisatoshis.
    Bitcoin {
        /// How many.
        amount_msats: u64,
    },
    /// An amount in some other currency.
    Currency,
}

/// What a mint reads of a BOLT12 offer.
#[derive(Debug, PartialEq, Eq)]
pub struct Bolt12Offer {
    /// The offer in its canonical text form.
    pub text: String,
    /// The amount, where the offer names one.
    pub amount: Option<OfferAmount>,
}

/// Options for a BOLT11 outgoing payment.
#[derive(Debug, PartialEq, Eq)]
pub struct Bolt11OutgoingPaymentOptions {
    /// The invoice to pay.
    pub bolt11: Bolt11Invoice,
    /// The most that may be spent on fees.
    pub max_fee_amount: Option<Amount>,
    /// How long to wait, in seconds.
    pub timeout_secs: Option<u64>,
    /// How the quote asks to be paid.
    pub melt_options: Option<MeltOptions>,
    /// The melt quote.
    pub quote_id: String,
}

/// Options for a BOLT12 outgoing payment.
#[derive(Debug, PartialEq, Eq)]
pub struct Bolt12OutgoingPaymentOptions {
    /// The offer to pay.
    pub offer: Bolt12Offer,
    /// The most that may be spent on fees.
    pub max_fee_amount: Option<Amount>,
    /// How long to wait, in seconds.
    pub timeout_secs: Option<u64>,
    /// How the quote asks to be paid.
    pub melt_options: Option<MeltOptions>,
    /// The melt quote.
    pub quote_id: String,
}

/// Options for an outgoing payment.
#[derive(Debug, PartialEq, Eq)]
pub enum OutgoingPaymentOptions {
    /// Pay a BOLT11 invoice.
    Bolt11(Bolt11OutgoingPaymentOptions),
    /// Pay a BOLT12 offer.
    Bolt12(Bolt12OutgoingPaymentOptions),
    /// Pay by a method of the backend's own.
    Custom,
    /// Pay on chain.
    Onchain,
}

/// A payment request was created.
#[derive(Debug, PartialEq, Eq)]
pub struct CreateIncomingPaymentResponse {
    /// How the payment is looked up.
    pub request_lookup_id: PaymentIdentifier,
    /// The request to hand to the payer.
    pub request: String,
    /// When the request expires, in seconds since the Unix epoch.
    pub expiry: Option<u64>,
}

/// What paying would cost.
#[derive(Debug, PartialEq, Eq)]
pub struct PaymentQuoteResponse {
    /// How the payment is looked up, where that is known before it is made.
    pub request_lookup_id: Option<PaymentIdentifier>,
    /// The amount to pay.
    pub amount: Amount,
    /// The fee to reserve.
    pub fee: Amount,
    /// The state of the quote.
    pub state: MeltQuoteState,
}

/// The state of an outgoing payment.
#[derive(Debug, PartialEq, Eq)]
pub struct MakePaymentResponse {
    /// How the payment is looked up.
    pub payment_lookup_id: PaymentIdentifier,
    /// The proof of payment, where there is one.
    pub payment_proof: Option<String>,
    /// The state of the payment.
    pub status: MeltQuoteState,
    /// What was spent, fees included; zero unless the payment is paid.
    pub total_spent: Amount,
}

/// An incoming payment was received.
#[derive(Debug, PartialEq, Eq)]
pub struct WaitPaymentResponse {
    /// How the request is looked up.
    pub payment_identifier: PaymentIdentifier,
    /// What was received.
    pub payment_amount: Amount,
    /// The id of this payment.
    pub payment_id: String,
}

/// What a payment stream delivers.
#[derive(Debug, PartialEq, Eq)]
pub enum Event {
    /// An incoming payment was received.
    PaymentReceived(WaitPaymentResponse),
    /// An outgoing payment was settled.
    PaymentSuccessful {
        /// The melt quote that was paid.
        quote_id: String,
        /// The payment.
        details: MakePaymentResponse,
    },
    /// An outgoing payment failed for good.
    PaymentFailed {
        /// The melt quote that was not paid.
        quote_id: String,
        /// Why.
        reason: String,
    },
}

/// What a backend can do with BOLT11 invoices.
#[derive(Clone, Copy, Debug, PartialEq, Eq, Structural)]
pub struct Bolt11Settings {
    /// Pay part of a multi-part payment.
    pub mpp: bool,
    /// Pay invoices that name no amount.
    pub amountless: bool,
    /// Put a description into invoices.
    pub invoice_description: bool,
}

/// What a backend can do with BOLT12 offers.
#[derive(Clone, Copy, Debug, PartialEq, Eq, Structural)]
pub struct Bolt12Settings {
    /// Pay offers that name no amount.
    pub amountless: bool,
    /// Put a description into offers.
    pub invoice_description: bool,
}

/// What a backend can do on chain.
#[derive(Clone, Copy, Debug, PartialEq, Eq, Structural)]
pub struct OnchainSettings {
    /// How many confirmations a payment needs.
    pub confirmations: u32,
    /// The least amount received, in satoshis.
    pub min_receive_amount_sat: u64,
    /// The least amount sent, in satoshis.
    pub min_send_amount_sat: u64,
}

/// What a backend can do.
#[derive(Debug, PartialEq, Eq)]
pub struct SettingsResponse {
    /// The name of the unit the backend works in.
    pub unit: String,
    /// BOLT11 invoices, where they are supported.
    pub bolt11: Option<Bolt11Settings>,
    /// BOLT12 offers, where they are supported.
    pub bolt12: Option<Bolt12Settings>,
    /// On-chain payments, where they are supported.
    pub onchain: Option<OnchainSettings>,
    /// Methods of the backend's own, by name.
    pub custom: Vec<(String, String)>,
}

/// Why a payment operation failed. `B` is what the backend reports itself; `T`
/// is how words are held: a `String` when the library runs, a sequence of
/// characters in contracts.
#[derive(Debug, PartialEq, Eq)]
pub enum Error<B, T> {
    /// The backend does not work in this unit.
    UnsupportedUnit,
    /// The backend cannot do this.
    UnsupportedPaymentOption,
    /// The amount is not what is expected.
    AmountMismatch,
    /// The expiry lies in the past or too far ahead.
    InvalidExpiry,
    /// An amount could not be converted.
    Amount(AmountError),
    /// A payment request could not be read.
    Parse(T),
    /// Something else, in words.
    Custom(T),
    /// The backend failed.
    Backend(B),
}

impl<B: DeepView, T: DeepView> DeepView for Error<B, T> {
    type V = Error<B::V, T::V>;

    open spec fn deep_view(&self) -> Error<B::V, T::V> {
        match self {
            Error::UnsupportedUnit => Error::UnsupportedUnit,
            Error::UnsupportedPaymentOption => Error::UnsupportedPaymentOption,
            Error::AmountMismatch => Error::AmountMismatch,
            Error::InvalidExpiry => Error::InvalidExpiry,
            Error::Amount(error) => Error::Amount(*error),
            Error::Parse(words) => Error::Parse(words.deep_view()),
            Error::Custom(words) => Error::Custom(words.deep_view()),
            Error::Backend(error) => Error::Backend(error.deep_view()),
        }
    }
}

/// A result by the views of what it holds.
pub open spec fn result_view<T: DeepView, E: DeepView>(res: Result<T, E>) -> Result<T::V, E::V> {
    match res {
        Ok(value) => Ok(value.deep_view()),
        Err(error) => Err(error.deep_view()),
    }
}

/// What a [`MakePaymentResponse`] says.
pub struct MakePaymentResponseView {
    /// How the payment is looked up.
    pub payment_lookup_id: PaymentIdentifier,
    /// The proof of payment, where there is one.
    pub payment_proof: Option<Seq<char>>,
    /// The state of the payment.
    pub status: MeltQuoteState,
    /// What was spent, fees included.
    pub total_spent: Amount,
}

impl DeepView for MakePaymentResponse {
    type V = MakePaymentResponseView;

    open spec fn deep_view(&self) -> MakePaymentResponseView {
        MakePaymentResponseView {
            payment_lookup_id: self.payment_lookup_id,
            payment_proof: self.payment_proof.deep_view(),
            status: self.status,
            total_spent: self.total_spent,
        }
    }
}

impl MakePaymentResponseView {
    /// Whether the response keeps the promise that only a settled payment
    /// spends anything.
    pub open spec fn spends_only_when_paid(self) -> bool {
        self.status != MeltQuoteState::Paid ==> self.total_spent.value == 0
    }
}

/// What a [`WaitPaymentResponse`] says.
pub struct WaitPaymentResponseView {
    /// How the request is looked up.
    pub payment_identifier: PaymentIdentifier,
    /// What was received.
    pub payment_amount: Amount,
    /// The id of this payment.
    pub payment_id: Seq<char>,
}

impl DeepView for WaitPaymentResponse {
    type V = WaitPaymentResponseView;

    open spec fn deep_view(&self) -> WaitPaymentResponseView {
        WaitPaymentResponseView {
            payment_identifier: self.payment_identifier,
            payment_amount: self.payment_amount,
            payment_id: self.payment_id@,
        }
    }
}

/// What an [`Event`] says.
pub enum EventView {
    /// An incoming payment was received.
    PaymentReceived(WaitPaymentResponseView),
    /// An outgoing payment was settled.
    PaymentSuccessful {
        /// The melt quote that was paid.
        quote_id: Seq<char>,
        /// The payment.
        details: MakePaymentResponseView,
    },
    /// An outgoing payment failed for good.
    PaymentFailed {
        /// The melt quote that was not paid.
        quote_id: Seq<char>,
        /// Why.
        reason: Seq<char>,
    },
}

impl DeepView for Event {
    type V = EventView;

    open spec fn deep_view(&self) -> EventView {
        match self {
            Event::PaymentReceived(response) => EventView::PaymentReceived(response.deep_view()),
            Event::PaymentSuccessful { quote_id, details } => EventView::PaymentSuccessful {
                quote_id: quote_id@,
                details: details.deep_view(),
            },
            Event::PaymentFailed { quote_id, reason } => EventView::PaymentFailed {
                quote_id: quote_id@,
                reason: reason@,
            },
        }
    }
}

/// What a [`CreateIncomingPaymentResponse`] says.
pub struct CreateIncomingPaymentResponseView {
    /// How the payment is looked up.
    pub request_lookup_id: PaymentIdentifier,
    /// The request to hand to the payer.
    pub request: Seq<char>,
    /// When the request expires, in seconds since the Unix epoch.
    pub expiry: Option<u64>,
}

impl DeepView for CreateIncomingPaymentResponse {
    type V = CreateIncomingPaymentResponseView;

    open spec fn deep_view(&self) -> CreateIncomingPaymentResponseView {
        CreateIncomingPaymentResponseView {
            request_lookup_id: self.request_lookup_id,
            request: self.request@,
            expiry: self.expiry,
        }
    }
}

impl DeepView for PaymentQuoteResponse {
    type V = PaymentQuoteResponse;

    open spec fn deep_view(&self) -> PaymentQuoteResponse {
        *self
    }
}

} // verus!
