//! Errors of the LNbits backend.

use vstd::prelude::*;
use vstd::string::*;

use crate::text::{join2, join3};

verus! {

/// What this backend reports itself. `T` is how words are held: a `String`
/// when the library runs, a sequence of characters in contracts.
#[derive(Debug, PartialEq, Eq)]
pub enum Error<T> {
    /// The configuration is invalid.
    InvalidConfiguration(T),
    /// The client could not be constructed.
    Client(T),
    /// A request failed.
    Api {
        /// What was attempted.
        operation: T,
        /// What the client reports.
        source: T,
    },
    /// The websocket connection could not be established. What the client
    /// reports is left out, because the URL contains the invoice key.
    WebsocketConnection,
    /// An invoice names no amount.
    UnknownInvoiceAmount,
    /// An amount cannot be represented.
    AmountOverflow,
    /// A payment hash is malformed.
    InvalidPaymentHash,
    /// A payment hash is not the one of the invoice.
    PaymentHashMismatch,
    /// Payments cannot be looked up in this way.
    UnsupportedPaymentIdentifier,
    /// There is an event stream already.
    EventStreamAlreadyActive,
    /// An incoming payment has an amount that is not positive.
    InvalidIncomingAmount,
}

impl<T: DeepView> DeepView for Error<T> {
    type V = Error<T::V>;

    open spec fn deep_view(&self) -> Error<T::V> {
        match self {
            Error::InvalidConfiguration(words) => Error::InvalidConfiguration(words.deep_view()),
            Error::Client(words) => Error::Client(words.deep_view()),
            Error::Api { operation, source } => Error::Api {
                operation: operation.deep_view(),
                source: source.deep_view(),
            },
            Error::WebsocketConnection => Error::WebsocketConnection,
            Error::UnknownInvoiceAmount => Error::UnknownInvoiceAmount,
            Error::AmountOverflow => Error::AmountOverflow,
            Error::InvalidPaymentHash => Error::InvalidPaymentHash,
            Error::PaymentHashMismatch => Error::PaymentHashMismatch,
            Error::UnsupportedPaymentIdentifier => Error::UnsupportedPaymentIdentifier,
            Error::EventStreamAlreadyActive => Error::EventStreamAlreadyActive,
            Error::InvalidIncomingAmount => Error::InvalidIncomingAmount,
        }
    }
}

impl Error<Seq<char>> {
    /// The error in words.
    pub open spec fn words(self) -> Seq<char> {
        match self {
            Error::InvalidConfiguration(words) => "invalid LNbits configuration: "@ + words,
            Error::Client(words) => "failed to create LNbits client: "@ + words,
            Error::Api { operation, source } => "LNbits "@ + operation + (" request failed: "@
                + source),
            Error::WebsocketConnection => "failed to connect to the LNbits websocket"@,
            Error::UnknownInvoiceAmount => "invoice amount is required"@,
            Error::AmountOverflow => "LNbits payment amount overflow"@,
            Error::InvalidPaymentHash => "invalid LNbits payment hash"@,
            Error::PaymentHashMismatch => {
                "LNbits response payment hash does not match the invoice"@
            },
            Error::UnsupportedPaymentIdentifier => "unsupported LNbits payment identifier type"@,
            Error::EventStreamAlreadyActive => "an LNbits payment event stream is already active"@,
            Error::InvalidIncomingAmount => {
                "LNbits incoming payment has an invalid amount or direction"@
            },
        }
    }
}

impl Error<String> {
    /// The error in words.
    pub fn message(&self) -> (words: String)
        ensures
            words@ == self.deep_view().words(),
    {
        match self {
            Error::InvalidConfiguration(words) => join2(
                "invalid LNbits configuration: ",
                words.as_str(),
            ),
            Error::Client(words) => join2("failed to create LNbits client: ", words.as_str()),
            Error::Api { operation, source } => {
                let tail = join2(" request failed: ", source.as_str());
                join3("LNbits ", operation.as_str(), tail.as_str())
            },
            Error::WebsocketConnection => "failed to connect to the LNbits websocket".to_owned(),
            Error::UnknownInvoiceAmount => "invoice amount is required".to_owned(),
            Error::AmountOverflow => "LNbits payment amount overflow".to_owned(),
            Error::InvalidPaymentHash => "invalid LNbits payment hash".to_owned(),
            Error::PaymentHashMismatch => {
                "LNbits response payment hash does not match the invoice".to_owned()
            },
            Error::UnsupportedPaymentIdentifier => {
                "unsupported LNbits payment identifier type".to_owned()
            },
            Error::EventStreamAlreadyActive => {
                "an LNbits payment event stream is already active".to_owned()
            },
            Error::InvalidIncomingAmount => {
                "LNbits incoming payment has an invalid amount or direction".to_owned()
            },
        }
    }
}

} // verus!
