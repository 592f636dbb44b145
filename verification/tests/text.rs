use cdk_payment_processors::payment::{msat_to_sat_ceil, Amount, AmountError, CurrencyUnit};
use cdk_payment_processors::text::{
    decimal, eq_ignore_ascii_case, is_before, is_whitespace, join2, join3, same_text, strip_prefix,
    strip_suffix, to_ascii_lowercase, trim, trim_end_matches,
};

const SAMPLES: [&str; 14] = [
    "",
    " ",
    "a",
    " a b ",
    "\u{2003}x\u{3000}",
    "\u{200b}x\u{200b}",
    "ÄbC\n",
    "///",
    "a/b//",
    "https://x",
    "http",
    "tail/api/v1",
    "Zz9",
    "\u{1F600} smile",
];

#[test]
fn white_space_is_what_std_says() {
    for code in 0..=0x10FFFF_u32 {
        if let Some(c) = char::from_u32(code) {
            assert_eq!(is_whitespace(c), c.is_whitespace(), "{code:x}");
        }
    }
}

#[test]
fn texts_are_cut_and_lowered_as_std_does_it() {
    for text in SAMPLES {
        assert_eq!(trim(text), text.trim());
        assert_eq!(trim_end_matches(text, '/'), text.trim_end_matches('/'));
        assert_eq!(to_ascii_lowercase(text), text.to_ascii_lowercase());
        for other in SAMPLES {
            assert_eq!(same_text(text, other), text == other);
            assert_eq!(is_before(text, other), text < other, "{text:?} {other:?}");
            assert_eq!(eq_ignore_ascii_case(text, other), text.eq_ignore_ascii_case(other));
            assert_eq!(strip_prefix(text, other), text.strip_prefix(other));
            assert_eq!(strip_suffix(text, other), text.strip_suffix(other));
            assert_eq!(join2(text, other), format!("{text}{other}"));
            assert_eq!(join3(text, other, text), format!("{text}{other}{text}"));
        }
    }
    assert!(eq_ignore_ascii_case("aBc", "AbC"));
}

#[test]
fn numbers_are_written_in_decimal() {
    for n in [0, 7, 10, 99, 50051, u64::MAX] {
        assert_eq!(decimal(n), n.to_string());
    }
}

fn outside_unit(unit: &CurrencyUnit) -> cdk_common::CurrencyUnit {
    match unit {
        CurrencyUnit::Sat => cdk_common::CurrencyUnit::Sat,
        CurrencyUnit::Msat => cdk_common::CurrencyUnit::Msat,
        CurrencyUnit::Usd => cdk_common::CurrencyUnit::Usd,
        CurrencyUnit::Eur => cdk_common::CurrencyUnit::Eur,
        CurrencyUnit::Auth => cdk_common::CurrencyUnit::Auth,
        CurrencyUnit::Custom(name) => cdk_common::CurrencyUnit::Custom(name.clone().into()),
    }
}

fn units() -> Vec<CurrencyUnit> {
    vec![
        CurrencyUnit::Sat,
        CurrencyUnit::Msat,
        CurrencyUnit::Usd,
        CurrencyUnit::Eur,
        CurrencyUnit::Auth,
        CurrencyUnit::Custom("gold".to_string()),
    ]
}

#[test]
fn amounts_convert_as_the_mint_library_converts_them() {
    for value in [0, 1, 999, 1_000, 1_500, u64::MAX / 1_000, u64::MAX / 1_000 + 1, u64::MAX] {
        for from in units() {
            for to in units() {
                let outside = cdk_common::Amount::new(value, outside_unit(&from))
                    .convert_to(&outside_unit(&to));
                let ours = Amount::new(value, from.clone()).convert_to(&to);
                assert_eq!(
                    ours.as_ref().map(|amount| amount.value).ok(),
                    outside.as_ref().map(|amount| amount.value()).ok(),
                    "{value} {from:?} {to:?}"
                );
                if let Ok(amount) = ours {
                    assert_eq!(amount.unit, to);
                }
            }
        }
    }
    assert_eq!(
        Amount::new(u64::MAX, CurrencyUnit::Sat).to_msat(),
        Err(AmountError::AmountOverflow)
    );
    assert_eq!(
        Amount::new(1, CurrencyUnit::Usd).to_sat(),
        Err(AmountError::CannotConvertUnits)
    );
}

#[test]
fn partial_satoshis_count_as_whole_ones() {
    for msat in [0, 1, 999, 1_000, 1_001, u64::MAX] {
        assert_eq!(msat_to_sat_ceil(msat), msat.div_ceil(1_000));
    }
    let sats = Amount::new(7, CurrencyUnit::Sat);
    let msat = Amount::new(sats.to_msat().unwrap(), CurrencyUnit::Msat);
    assert_eq!(msat.to_sat(), Ok(7));
}
