//! Payments as the LDK Server node reports them.

use vstd::prelude::*;
use vstd::string::*;

use crate::encoding::{array_of, hex_bytes, hex_decode, is_hex, lemma_array_of, to_array};
use crate::ldk_server::error::Error;
use crate::payment::{
    converted, msat_to_sat_ceil, result_view, sats_rounded_up, Amount, CurrencyUnit,
    MakePaymentResponse, MakePaymentResponseView, MeltQuoteState, PaymentIdentifier,
    WaitPaymentResponse, WaitPaymentResponseView,
};

verus! {

/// Why an operation of this backend failed.
pub type PaymentError = crate::payment::Error<Error, String>;

/// What a [`PaymentError`] says.
pub type PaymentErrorView = crate::payment::Error<Error, Seq<char>>;

/// Which way a payment goes.
#[derive(Clone, Copy, Debug, PartialEq, Eq, Structural)]
pub enum PaymentDirection {
    /// To this node.
    Inbound,
    /// From this node.
    Outbound,
}

/// How far a payment has come.
#[derive(Clone, Copy, Debug, PartialEq, Eq, Structural)]
pub enum PaymentStatus {
    /// Under way.
    Pending,
    /// Settled.
    Succeeded,
    /// Failed for good.
    Failed,
}

/// A value that travels as a number.
#[derive(Clone, Copy, Debug, PartialEq, Eq, Structural)]
pub enum Coded<T> {
    /// A number with a meaning.
    Known(T),
    /// A number without one.
    Unknown(i32),
}

/// What a payment is for.
#[derive(Debug, PartialEq, Eq)]
#[allow(inconsistent_fields)]
pub enum PaymentKind {
    /// A BOLT11 invoice.
    Bolt11 {
        /// The payment hash, in hexadecimal.
        hash: String,
        /// The preimage, in hexadecimal, where it is known.
        preimage: Option<String>,
    },
    /// A BOLT12 offer.
    Bolt12Offer {
        /// The payment hash, in hexadecimal, where it is known.
        hash: Option<String>,
        /// The preimage, in hexadecimal, where it is known.
        preimage: Option<String>,
        /// The offer.
        offer_id: String,
    },
    /// Something else.
    Other,
}

/// A payment.
#[derive(Debug, PartialEq, Eq)]
pub struct Payment {
    /// The payment id, in hexadecimal.
    pub id: String,
    /// What the payment is for, where it says.
    pub kind: Option<PaymentKind>,
    /// The amount in millisatoshis, where it is known.
    pub amount_msat: Option<u64>,
    /// The fee in millisatoshis, where it is known.
    pub fee_paid_msat: Option<u64>,
    /// Which way the payment goes.
    pub direction: Coded<PaymentDirection>,
    /// How far the payment has come.
    pub status: Coded<PaymentStatus>,
    /// When the payment was last updated, in seconds since the Unix epoch.
    pub latest_update_timestamp: u64,
}

fn copied(text: &Option<String>) -> (res: Option<String>)
    ensures
        res == *text,
{
    match text {
        Some(text) => Some(text.clone()),
        None => None,
    }
}

/// What a payment is for.
pub open spec fn kind_of(payment: Payment) -> Result<PaymentKind, Error> {
    match payment.kind {
        Some(kind) => Ok(kind),
        None => Err(Error::MissingPaymentKind),
    }
}

/// Which way a payment goes.
pub open spec fn direction_of(payment: Payment) -> Result<PaymentDirection, Error> {
    match payment.direction {
        Coded::Known(direction) => Ok(direction),
        Coded::Unknown(code) => Err(Error::UnknownPaymentDirection(code)),
    }
}

/// How far a payment has come.
pub open spec fn status_of(payment: Payment) -> Result<PaymentStatus, Error> {
    match payment.status {
        Coded::Known(status) => Ok(status),
        Coded::Unknown(code) => Err(Error::UnknownPaymentStatus(code)),
    }
}

/// What a payment is for.
pub fn payment_kind(payment: &Payment) -> (res: Result<&PaymentKind, Error>)
    ensures
        match res {
            Ok(kind) => kind_of(*payment) == Ok::<PaymentKind, Error>(*kind),
            Err(error) => kind_of(*payment) == Err::<PaymentKind, Error>(error),
        },
{
    match &payment.kind {
        Some(kind) => Ok(kind),
        None => Err(Error::MissingPaymentKind),
    }
}

/// Which way a payment goes.
pub fn payment_direction(payment: &Payment) -> (res: Result<PaymentDirection, Error>)
    ensures
        res == direction_of(*payment),
{
    match payment.direction {
        Coded::Known(direction) => Ok(direction),
        Coded::Unknown(code) => Err(Error::UnknownPaymentDirection(code)),
    }
}

/// How far a payment has come.
pub fn payment_status(payment: &Payment) -> (res: Result<PaymentStatus, Error>)
    ensures
        res == status_of(*payment),
{
    match payment.status {
        Coded::Known(status) => Ok(status),
        Coded::Unknown(code) => Err(Error::UnknownPaymentStatus(code)),
    }
}

/// The 32 bytes that a hexadecimal text stands for.
pub open spec fn hex_array(text: Seq<char>) -> Result<[u8; 32], Error> {
    if !is_hex(text) {
        Err(Error::Hex)
    } else if text.len() != 64 {
        Err(Error::InvalidPaymentId)
    } else {
        Ok(array_of(hex_bytes(text)))
    }
}

/// The 32 bytes that a hexadecimal text stands for.
pub fn hex_to_array(hex_value: &str) -> (res: Result<[u8; 32], Error>)
    ensures
        res == hex_array(hex_value@),
        res matches Ok(array) ==> array@ == hex_bytes(hex_value@),
{
    match hex_decode(hex_value) {
        Some(bytes) => match to_array(&bytes) {
            Some(array) => {
                proof {
                    lemma_array_of(array);
                }
                Ok(array)
            },
            None => Err(Error::InvalidPaymentId),
        },
        None => Err(Error::Hex),
    }
}

/// What was spent, in the unit of a quote: millisatoshis exactly, satoshis
/// rounded up, and no other unit.
pub open spec fn spent_in_unit(total_msat: u64, unit: CurrencyUnit) -> Result<
    Amount,
    PaymentErrorView,
> {
    match unit {
        CurrencyUnit::Msat => Ok(Amount { value: total_msat, unit: CurrencyUnit::Msat }),
        CurrencyUnit::Sat => Ok(
            Amount { value: sats_rounded_up(total_msat as int) as u64, unit: CurrencyUnit::Sat },
        ),
        _ => match converted(total_msat, CurrencyUnit::Msat, unit) {
            Ok(value) => Ok(Amount { value, unit }),
            Err(error) => Err(PaymentErrorView::Amount(error)),
        },
    }
}

/// What was spent, in the unit of a quote.
pub fn msat_total_spent_for_unit(total_msat: u64, unit: &CurrencyUnit) -> (res: Result<
    Amount,
    PaymentError,
>)
    ensures
        match res {
            Ok(amount) => spent_in_unit(total_msat, *unit) == Ok::<Amount, PaymentErrorView>(
                amount,
            ),
            Err(error) => spent_in_unit(total_msat, *unit) == Err::<Amount, PaymentErrorView>(
                error.deep_view(),
            ),
        },
{
    match unit {
        CurrencyUnit::Msat => Ok(Amount::new(total_msat, CurrencyUnit::Msat)),
        CurrencyUnit::Sat => Ok(Amount::new(msat_to_sat_ceil(total_msat), CurrencyUnit::Sat)),
        _ => match Amount::new(total_msat, CurrencyUnit::Msat).convert_to(unit) {
            Ok(amount) => Ok(amount),
            Err(error) => Err(PaymentError::Amount(error)),
        },
    }
}

/// The state of a melt quote that a payment's status stands for.
pub open spec fn melt_state(status: PaymentStatus) -> MeltQuoteState {
    match status {
        PaymentStatus::Pending => MeltQuoteState::Pending,
        PaymentStatus::Succeeded => MeltQuoteState::Paid,
        PaymentStatus::Failed => MeltQuoteState::Failed,
    }
}

/// The proof that a payment of some kind carries, where the kind can be answered.
pub open spec fn proof_of(kind: PaymentKind) -> Result<Option<Seq<char>>, Error> {
    match kind {
        PaymentKind::Bolt11 { preimage, .. } => Ok(preimage.deep_view()),
        PaymentKind::Bolt12Offer { preimage, .. } => Ok(preimage.deep_view()),
        PaymentKind::Other => Err(Error::UnexpectedPaymentKind),
    }
}

/// What a settled payment spent altogether, in millisatoshis.
pub open spec fn total_msat(payment: Payment) -> Result<u64, Error> {
    match payment.amount_msat {
        None => Err(Error::CouldNotGetAmountSpent),
        Some(amount) => {
            let total = amount + (match payment.fee_paid_msat {
                Some(fee) => fee,
                None => 0,
            });
            if total <= u64::MAX {
                Ok(total as u64)
            } else {
                Err(Error::AmountOverflow)
            }
        },
    }
}

/// What an outgoing payment is answered with.
pub open spec fn payment_answer(
    unit: CurrencyUnit,
    identifier: PaymentIdentifier,
    payment: Payment,
) -> Result<MakePaymentResponseView, PaymentErrorView> {
    match (status_of(payment), kind_of(payment)) {
        (Err(error), _) => Err(PaymentErrorView::Backend(error)),
        (_, Err(error)) => Err(PaymentErrorView::Backend(error)),
        (Ok(status), Ok(kind)) => match proof_of(kind) {
            Err(error) => Err(PaymentErrorView::Backend(error)),
            Ok(payment_proof) => {
                let spent = if status != PaymentStatus::Succeeded {
                    Ok(Amount { value: 0, unit })
                } else {
                    match total_msat(payment) {
                        Ok(total) => spent_in_unit(total, unit),
                        Err(error) => Err(PaymentErrorView::Backend(error)),
                    }
                };
                match spent {
                    Err(error) => Err(error),
                    Ok(total_spent) => Ok(
                        MakePaymentResponseView {
                            payment_lookup_id: identifier,
                            payment_proof,
                            status: melt_state(status),
                            total_spent,
                        },
                    ),
                }
            },
        },
    }
}

/// What an outgoing payment is answered with. Only a settled payment needs an
/// amount.
pub fn make_payment_response_from_payment(
    unit: &CurrencyUnit,
    payment_lookup_id: PaymentIdentifier,
    payment: &Payment,
) -> (res: Result<MakePaymentResponse, PaymentError>)
    ensures
        result_view(res) == payment_answer(*unit, payment_lookup_id, *payment),
{
    let status = match payment_status(payment) {
        Ok(status) => status,
        Err(error) => return Err(PaymentError::Backend(error)),
    };
    let status = match status {
        PaymentStatus::Pending => MeltQuoteState::Pending,
        PaymentStatus::Succeeded => MeltQuoteState::Paid,
        PaymentStatus::Failed => MeltQuoteState::Failed,
    };
    let kind = match payment_kind(payment) {
        Ok(kind) => kind,
        Err(error) => return Err(PaymentError::Backend(error)),
    };
    let payment_proof = match kind {
        PaymentKind::Bolt11 { preimage, .. } => copied(preimage),
        PaymentKind::Bolt12Offer { preimage, .. } => copied(preimage),
        PaymentKind::Other => return Err(PaymentError::Backend(Error::UnexpectedPaymentKind)),
    };
    let total_spent = if status == MeltQuoteState::Paid {
        let amount: u64 = match payment.amount_msat {
            Some(amount) => amount,
            None => return Err(PaymentError::Backend(Error::CouldNotGetAmountSpent)),
        };
        let fee: u64 = match payment.fee_paid_msat {
            Some(fee) => fee,
            None => 0,
        };
        let total: u64 = match amount.checked_add(fee) {
            Some(total) => total,
            None => return Err(PaymentError::Backend(Error::AmountOverflow)),
        };
        match msat_total_spent_for_unit(total, unit) {
            Ok(total_spent) => total_spent,
            Err(error) => return Err(error),
        }
    } else {
        Amount::new(0, unit.clone())
    };
    Ok(MakePaymentResponse { payment_lookup_id, payment_proof, status, total_spent })
}

/// What a received payment is reported as; nothing where it is not a settled
/// incoming payment of an invoice or an offer.
pub open spec fn received_answer(payment: Payment) -> Result<
    Option<WaitPaymentResponseView>,
    Error,
> {
    match direction_of(payment) {
        Err(error) => Err(error),
        Ok(PaymentDirection::Outbound) => Ok(None),
        Ok(PaymentDirection::Inbound) => match status_of(payment) {
            Err(error) => Err(error),
            Ok(status) => if status != PaymentStatus::Succeeded {
                Ok(None)
            } else {
                match (payment.amount_msat, kind_of(payment)) {
                    (None, _) => Err(Error::CouldNotGetPaymentAmount),
                    (_, Err(error)) => Err(error),
                    (Some(amount_msat), Ok(kind)) => {
                        let payment_amount = Amount {
                            value: amount_msat,
                            unit: CurrencyUnit::Msat,
                        };
                        match kind {
                            PaymentKind::Bolt11 { hash, .. } => match hex_array(hash@) {
                                Err(error) => Err(error),
                                Ok(array) => Ok(
                                    Some(
                                        WaitPaymentResponseView {
                                            payment_identifier: PaymentIdentifier::PaymentHash(
                                                array,
                                            ),
                                            payment_amount,
                                            payment_id: hash@,
                                        },
                                    ),
                                ),
                            },
                            PaymentKind::Bolt12Offer { hash, offer_id, .. } => Ok(
                                Some(
                                    WaitPaymentResponseView {
                                        payment_identifier: PaymentIdentifier::OfferId(offer_id),
                                        payment_amount,
                                        payment_id: match hash {
                                            Some(hash) => hash@,
                                            None => payment.id@,
                                        },
                                    },
                                ),
                            ),
                            PaymentKind::Other => Ok(None),
                        }
                    },
                }
            },
        },
    }
}

/// What a received payment is reported as.
pub fn wait_payment_response_from_payment(payment: &Payment) -> (res: Result<
    Option<WaitPaymentResponse>,
    Error,
>)
    ensures
        result_view(res) == received_answer(*payment),
{
    match payment_direction(payment) {
        Ok(PaymentDirection::Inbound) => {},
        Ok(PaymentDirection::Outbound) => return Ok(None),
        Err(error) => return Err(error),
    }
    match payment_status(payment) {
        Ok(PaymentStatus::Succeeded) => {},
        Ok(_) => return Ok(None),
        Err(error) => return Err(error),
    }
    let payment_amount = match payment.amount_msat {
        Some(amount_msat) => Amount::new(amount_msat, CurrencyUnit::Msat),
        None => return Err(Error::CouldNotGetPaymentAmount),
    };
    let kind = match payment_kind(payment) {
        Ok(kind) => kind,
        Err(error) => return Err(error),
    };
    match kind {
        PaymentKind::Bolt11 { hash, .. } => match hex_to_array(hash.as_str()) {
            Ok(array) => Ok(
                Some(
                    WaitPaymentResponse {
                        payment_identifier: PaymentIdentifier::PaymentHash(array),
                        payment_amount,
                        payment_id: hash.clone(),
                    },
                ),
            ),
            Err(error) => Err(error),
        },
        PaymentKind::Bolt12Offer { hash, offer_id, .. } => {
            let payment_id = match hash {
                Some(hash) => hash.clone(),
                None => payment.id.clone(),
            };
            Ok(
                Some(
                    WaitPaymentResponse {
                        payment_identifier: PaymentIdentifier::OfferId(offer_id.clone()),
                        payment_amount,
                        payment_id,
                    },
                ),
            )
        },
        PaymentKind::Other => Ok(None),
    }
}

/// The rank of a payment among those of one invoice: settled before pending
/// before failed.
pub open spec fn status_rank(payment: Payment) -> int {
    match status_of(payment) {
        Ok(PaymentStatus::Succeeded) => 0,
        Ok(PaymentStatus::Pending) => 1,
        _ => 2,
    }
}

/// Whether one payment of an invoice says more than another: by its rank, and
/// by its latest update where the ranks are equal.
pub open spec fn says_more(a: Payment, b: Payment) -> bool {
    status_rank(a) < status_rank(b) || (status_rank(a) == status_rank(b)
        && a.latest_update_timestamp > b.latest_update_timestamp)
}

/// Whether the payment at a position says the most, and is the first to.
pub open spec fn is_selected(payments: Seq<Payment>, at: int) -> bool {
    &&& 0 <= at < payments.len()
    &&& forall|j: int| 0 <= j < at ==> says_more(payments[at], #[trigger] payments[j])
    &&& forall|j: int|
        at < j < payments.len() ==> !says_more(#[trigger] payments[j], payments[at])
}

fn rank(payment: &Payment) -> (res: u8)
    ensures
        res == status_rank(*payment),
{
    match payment_status(payment) {
        Ok(PaymentStatus::Succeeded) => 0,
        Ok(PaymentStatus::Pending) => 1,
        _ => 2,
    }
}

/// The payment of an invoice that says the most about it.
pub fn select_bolt11_payment(payments: Vec<Payment>) -> (res: Option<Payment>)
    ensures
        match res {
            Some(payment) => exists|at: int| #[trigger] is_selected(payments@, at) && payments@[at]
                == payment,
            None => payments@.len() == 0,
        },
{
    let mut payments = payments;
    let ghost all = payments@;
    if payments.len() == 0 {
        return None;
    }
    let mut best: usize = 0;
    let mut i: usize = 1;
    while i < payments.len()
        invariant
            payments@ == all,
            best < i <= all.len(),
            forall|j: int| 0 <= j < best ==> says_more(all[best as int], #[trigger] all[j]),
            forall|j: int| best < j < i ==> !says_more(#[trigger] all[j], all[best as int]),
        decreases all.len() - i,
    {
        let candidate: u8 = rank(&payments[i]);
        let current: u8 = rank(&payments[best]);
        if candidate < current || (candidate == current && payments[i].latest_update_timestamp
            > payments[best].latest_update_timestamp) {
            best = i;
        }
        i = i + 1;
    }
    assert(is_selected(all, best as int));
    Some(payments.swap_remove(best))
}

} // verus!
