//! What amounts are worth, whatever unit they are in.

use vstd::prelude::*;

use crate::invoice::{bolt11_read, bolt12_read};
use crate::payment::{
    msat_to_sat_ceil, Amount, AmountError, Bolt11Invoice, Bolt12Offer, CurrencyUnit, OfferAmount,
};

verus! {

/// What a number of units is worth in millisatoshis, where that is known.
pub open spec fn worth_msat(value: u64, unit: CurrencyUnit) -> Option<int> {
    match unit {
        CurrencyUnit::Sat => Some(1000 * value),
        CurrencyUnit::Msat => Some(value as int),
        _ => None,
    }
}

/// Whether an amount is the most of its unit that some millisatoshis pay for:
/// nothing is lost in millisatoshis, less than one satoshi in satoshis.
pub open spec fn is_rounded_down(amount: Amount, msat: int) -> bool {
    match worth_msat(amount.value, amount.unit) {
        Some(worth) => worth <= msat && (amount.unit == CurrencyUnit::Msat ==> worth == msat)
            && msat < worth + 1000,
        None => false,
    }
}

/// Whether an amount is the least of its unit that covers some millisatoshis:
/// nothing is added in millisatoshis, less than one satoshi in satoshis.
pub open spec fn is_rounded_up(amount: Amount, msat: int) -> bool {
    match worth_msat(amount.value, amount.unit) {
        Some(worth) => msat <= worth && (amount.unit == CurrencyUnit::Msat ==> worth == msat)
            && worth < msat + 1000,
        None => false,
    }
}

/// Whether a unit is one of Bitcoin.
pub open spec fn is_bitcoin(unit: CurrencyUnit) -> bool {
    unit == CurrencyUnit::Sat || unit == CurrencyUnit::Msat
}

/// Whether two units go by the same name.
pub open spec fn is_same(a: CurrencyUnit, b: CurrencyUnit) -> bool {
    a == b || (a matches CurrencyUnit::Custom(x) && b matches CurrencyUnit::Custom(y) && x@ == y@)
}

/// A converted amount is worth what it was, up to a part of a satoshi that is
/// dropped. An amount keeps its number in its own unit. Otherwise satoshis and
/// millisatoshis convert into each other, unless the number grows too large, and
/// nothing else converts.
pub proof fn conversions_keep_worth(
    amount: Amount,
    target: CurrencyUnit,
    res: Result<Amount, AmountError>,
)
    requires
        call_ensures(Amount::convert_to, (&amount, &target), res),
    ensures
        res matches Ok(converted) ==> converted.unit == target,
        amount.unit == target ==> res == Ok::<Amount, AmountError>(amount),
        is_bitcoin(amount.unit) && is_bitcoin(target) ==> match res {
            Ok(converted) => is_rounded_down(converted, worth_msat(amount.value, amount.unit)->0),
            Err(error) => error == AmountError::AmountOverflow && target == CurrencyUnit::Msat
                && worth_msat(amount.value, amount.unit)->0 > u64::MAX,
        },
        !is_bitcoin(amount.unit) || !is_bitcoin(target) ==> match res {
            Ok(converted) => is_same(amount.unit, target) && converted.value == amount.value,
            Err(error) => !is_same(amount.unit, target) && error
                == AmountError::CannotConvertUnits,
        },
{
}

/// The number of millisatoshis of an amount is what it is worth.
pub proof fn millisatoshis_are_exact(amount: Amount, res: Result<u64, AmountError>)
    requires
        call_ensures(Amount::to_msat, (&amount,), res),
    ensures
        match worth_msat(amount.value, amount.unit) {
            Some(worth) => if worth <= u64::MAX {
                res matches Ok(msat) && msat == worth
            } else {
                res == Err::<u64, AmountError>(AmountError::AmountOverflow)
            },
            None => res == Err::<u64, AmountError>(AmountError::CannotConvertUnits),
        },
{
}

/// The number of satoshis of an amount drops a part of a satoshi at most.
pub proof fn satoshis_are_rounded_down(amount: Amount, res: Result<u64, AmountError>)
    requires
        call_ensures(Amount::to_sat, (&amount,), res),
    ensures
        match worth_msat(amount.value, amount.unit) {
            Some(worth) => res matches Ok(sats) && 1000 * sats <= worth < 1000 * sats + 1000,
            None => res == Err::<u64, AmountError>(AmountError::CannotConvertUnits),
        },
{
}

/// Millisatoshis rounded up to satoshis add a part of a satoshi at most.
pub proof fn rounding_up_covers(msat: u64, sats: u64)
    requires
        call_ensures(msat_to_sat_ceil, (msat,), sats),
    ensures
        msat <= 1000 * sats < msat + 1000,
{
}

/// An invoice and an offer hold what their text says, and a text that says neither
/// is refused.
pub proof fn requests_hold_what_their_text_says(
    text: &str,
    invoice: Result<Bolt11Invoice, String>,
    offer: Option<Bolt12Offer>,
)
    requires
        call_ensures(Bolt11Invoice::parse, (text,), invoice),
        call_ensures(Bolt12Offer::parse, (text,), offer),
    ensures
        match (bolt11_read(text@), invoice) {
            (Ok((canonical, hash, amount_msat, expires_at)), Ok(invoice)) => {
                &&& invoice.text@ == canonical
                &&& invoice.payment_hash@ == hash
                &&& invoice.amount_msat == amount_msat
                &&& invoice.expires_at == expires_at
            },
            (Err(why), Err(words)) => words@ == why,
            _ => false,
        },
        match (bolt12_read(text@), offer) {
            (Some((canonical, amount)), Some(offer)) => {
                &&& offer.text@ == canonical
                &&& match (amount, offer.amount) {
                    (Some(Some(msat)), Some(OfferAmount::Bitcoin { amount_msats })) => msat
                        == amount_msats,
                    (Some(None), Some(OfferAmount::Currency)) => true,
                    (None, None) => true,
                    _ => false,
                }
            },
            (None, None) => true,
            _ => false,
        },
{
}

/// A unit is the same as itself, and as no other.
pub proof fn units_are_told_apart(a: CurrencyUnit, b: CurrencyUnit, same: bool)
    requires
        call_ensures(CurrencyUnit::same, (&a, &b), same),
    ensures
        same == is_same(a, b),
{
}

} // verus!
