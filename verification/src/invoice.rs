//! Reading BOLT11 invoices and BOLT12 offers.

use core::str::FromStr;
use vstd::prelude::*;

use cdk_common::bitcoin::hashes::Hash as _;

use crate::payment::{Bolt11Invoice, Bolt12Offer, OfferAmount};

verus! {

/// What reading a BOLT11 invoice gives: its canonical text, its payment hash,
/// its amount in millisatoshis and the second it expires at, or the words in
/// which it is refused.
pub uninterp spec fn bolt11_read(text: Seq<char>) -> Result<
    (Seq<char>, Seq<u8>, Option<u64>, Option<u64>),
    Seq<char>,
>;

/// What reading a BOLT12 offer gives: its canonical text and its amount, where
/// it names one (in millisatoshis, or without a number where it is in some
/// other currency), or nothing where it is refused.
pub uninterp spec fn bolt12_read(text: Seq<char>) -> Option<(Seq<char>, Option<Option<u64>>)>;

/// Reads a BOLT11 invoice.
///
/// `Bolt11Invoice::from_str` of `lightning_invoice` is trusted to depend on the
/// text alone; the fields are those its accessors report.
#[verifier::external_body]
fn read_bolt11(text: &str) -> (res: Result<Bolt11Invoice, String>)
    ensures
        match res {
            Ok(invoice) => bolt11_read(text@) == Ok::<
                (Seq<char>, Seq<u8>, Option<u64>, Option<u64>),
                Seq<char>,
            >(
                (invoice.text@, invoice.payment_hash@, invoice.amount_msat, invoice.expires_at),
            ),
            Err(words) => bolt11_read(text@) == Err::<
                (Seq<char>, Seq<u8>, Option<u64>, Option<u64>),
                Seq<char>,
            >(words@),
        },
{
    match cdk_common::Bolt11Invoice::from_str(text) {
        Ok(invoice) => Ok(Bolt11Invoice {
            text: invoice.to_string(),
            payment_hash: invoice.payment_hash().to_byte_array(),
            amount_msat: invoice.amount_milli_satoshis(),
            expires_at: invoice.expires_at().map(|at| at.as_secs()),
        }),
        Err(error) => Err(error.to_string()),
    }
}

/// An offer's amount as plain values: a number of millisatoshis, or no number
/// where the amount is in some other currency.
pub open spec fn offer_amount_plain(amount: Option<OfferAmount>) -> Option<Option<u64>> {
    match amount {
        Some(OfferAmount::Bitcoin { amount_msats }) => Some(Some(amount_msats)),
        Some(OfferAmount::Currency) => Some(None),
        None => None,
    }
}

/// Reads a BOLT12 offer.
///
/// `Offer::from_str` of `lightning` is trusted to depend on the text alone; the
/// amount is the one that `Offer::amount` reports.
#[verifier::external_body]
fn read_bolt12(text: &str) -> (res: Option<Bolt12Offer>)
    ensures
        match res {
            Some(offer) => bolt12_read(text@) == Some(
                (offer.text@, offer_amount_plain(offer.amount)),
            ),
            None => bolt12_read(text@) is None,
        },
{
    let offer = lightning::offers::offer::Offer::from_str(text).ok()?;
    let amount = offer.amount().map(|amount| match amount {
        lightning::offers::offer::Amount::Bitcoin { amount_msats } => {
            OfferAmount::Bitcoin { amount_msats }
        },
        lightning::offers::offer::Amount::Currency { .. } => OfferAmount::Currency,
    });
    Some(Bolt12Offer { text: offer.to_string(), amount })
}

impl Bolt11Invoice {
    /// Reads an invoice from its text form.
    pub fn parse(text: &str) -> (res: Result<Bolt11Invoice, String>)
        ensures
            match res {
                Ok(invoice) => bolt11_read(text@) == Ok::<
                    (Seq<char>, Seq<u8>, Option<u64>, Option<u64>),
                    Seq<char>,
                >(
                    (invoice.text@, invoice.payment_hash@, invoice.amount_msat, invoice.expires_at),
                ),
                Err(words) => bolt11_read(text@) == Err::<
                    (Seq<char>, Seq<u8>, Option<u64>, Option<u64>),
                    Seq<char>,
                >(words@),
            },
    {
        read_bolt11(text)
    }
}

impl Clone for Bolt11Invoice {
    fn clone(&self) -> (res: Self)
        ensures
            res == *self,
    {
        Bolt11Invoice {
            text: self.text.clone(),
            payment_hash: self.payment_hash,
            amount_msat: self.amount_msat,
            expires_at: self.expires_at,
        }
    }
}

impl Bolt12Offer {
    /// Reads an offer from its text form.
    pub fn parse(text: &str) -> (res: Option<Bolt12Offer>)
        ensures
            match res {
                Some(offer) => bolt12_read(text@) == Some(
                    (offer.text@, offer_amount_plain(offer.amount)),
                ),
                None => bolt12_read(text@) is None,
            },
    {
        read_bolt12(text)
    }
}

} // verus!
