//! Errors of the LDK Server backend.

use vstd::prelude::*;

verus! {

/// What this backend reports itself.
#[derive(Clone, Copy, Debug, PartialEq, Eq, Structural)]
pub enum Error {
    /// A hexadecimal text could not be decoded.
    Hex,
    /// A payment id or hash does not have 32 bytes.
    InvalidPaymentId,
    /// A payment says nothing of its kind.
    MissingPaymentKind,
    /// A payment is neither for an invoice nor for an offer.
    UnexpectedPaymentKind,
    /// A payment goes in a direction that is not known.
    UnknownPaymentDirection(i32),
    /// A payment goes the wrong way.
    InvalidPaymentDirection,
    /// A payment has a status that is not known.
    UnknownPaymentStatus(i32),
    /// There is no such payment.
    PaymentNotFound,
    /// A settled payment does not say what was spent.
    CouldNotGetAmountSpent,
    /// A received payment does not say how much it was.
    CouldNotGetPaymentAmount,
    /// Amount and fee do not fit together.
    AmountOverflow,
    /// An invoice names no amount.
    UnknownInvoiceAmount,
    /// Payments cannot be looked up in this way.
    UnsupportedPaymentIdentifierType,
    /// The history has more pages than may be read.
    PaymentScanLimitExceeded {
        /// How many pages may be read.
        max_pages: u16,
    },
}

impl DeepView for Error {
    type V = Error;

    open spec fn deep_view(&self) -> Error {
        *self
    }
}

} // verus!
