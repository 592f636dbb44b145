use cdk_common::bitcoin::secp256k1::{Keypair, PublicKey, Secp256k1, SecretKey};
use cdk_payment_processors::ldk_server::backend::{
    bolt11_amount_msat_for_quote, bolt11_amount_msat_for_send, bolt12_amount_msat_for_quote,
    bolt12_amount_msat_for_send, check_incoming_payment_status, check_outgoing_payment,
    create_incoming_payment_request, expiry_secs, expiry_secs_at, expiry_secs_or_default,
    incoming_payment_fetched, incoming_payments_found, invoice_created, invoice_created_at,
    make_payment, normalize_address, offer_created, outgoing_payment_fetched,
    outgoing_payments_found, payment_found, payment_sent, receive_request_at,
    route_parameters_from_max_fee, validate_bolt12_amount_msat, wait_for_payment_details, Config,
    FeeReserve, IncomingLookup, LdkServerBackend, OutgoingLookup, PaymentFilter, PaymentScan,
    ReceiveRequest, ScanStep, SendRequest, WaitStep,
};
use cdk_payment_processors::ldk_server::correlator::{
    normalize_payment_correlation_key, outgoing_payment_correlation_keys, OutgoingPaymentContext,
    OutgoingPaymentCorrelator, OutgoingPaymentOutcome, OUTGOING_CONTEXT_TTL_NS,
    UNMATCHED_OUTGOING_EVENT_TTL_NS,
};
use cdk_payment_processors::ldk_server::error::Error;
use cdk_payment_processors::ldk_server::events::{
    event_from_envelope, EventStreamState, NodeEvent, StreamInput, StreamStep,
};
use cdk_payment_processors::ldk_server::payments::{
    hex_to_array, make_payment_response_from_payment, payment_status, select_bolt11_payment,
    wait_payment_response_from_payment, Coded, Payment, PaymentDirection, PaymentError,
    PaymentKind, PaymentStatus,
};
use cdk_payment_processors::ldk_server::settings::{
    BackendConfig, Config as Settings, MissingSetting,
};
use cdk_payment_processors::payment::{
    Amount, AmountError, Bolt11IncomingPaymentOptions, Bolt11Invoice,
    Bolt11OutgoingPaymentOptions, Bolt11Settings, Bolt12IncomingPaymentOptions, Bolt12Offer,
    Bolt12OutgoingPaymentOptions, Bolt12Settings, CurrencyUnit, Event, IncomingPaymentOptions,
    MakePaymentResponse, MeltOptions, MeltQuoteState, OfferAmount, OutgoingPaymentOptions,
    PaymentIdentifier,
};
use lightning::offers::offer::OfferBuilder;

const SECOND: u64 = 1_000_000_000;

fn test_bolt11_payment(status: PaymentStatus, amount_msat: Option<u64>) -> Payment {
    Payment {
        id: "02".repeat(32),
        kind: Some(PaymentKind::Bolt11 {
            hash: "01".repeat(32),
            preimage: Some("03".repeat(32)),
        }),
        amount_msat,
        fee_paid_msat: None,
        direction: Coded::Known(PaymentDirection::Outbound),
        status: Coded::Known(status),
        latest_update_timestamp: 0,
    }
}

fn test_bolt11_payment_with_id(
    id_byte: u8,
    status: PaymentStatus,
    latest_update_timestamp: u64,
) -> Payment {
    Payment {
        id: format!("{id_byte:02x}").repeat(32),
        latest_update_timestamp,
        ..test_bolt11_payment(status, None)
    }
}

fn test_offer(amount_msats: Option<u64>) -> Bolt12Offer {
    let secp_ctx = Secp256k1::new();
    let secret_key = SecretKey::from_slice(&[42; 32]).expect("test secret key should be valid");
    let keys = Keypair::from_secret_key(&secp_ctx, &secret_key);
    let pubkey = PublicKey::from(keys);
    let builder = OfferBuilder::new(pubkey);
    let offer = match amount_msats {
        Some(amount_msats) => builder
            .amount_msats(amount_msats)
            .build()
            .expect("fixed test offer should build"),
        None => builder.build().expect("variable test offer should build"),
    };
    Bolt12Offer::parse(&offer.to_string()).expect("test offer should parse")
}

fn bolt12_options(
    offer: Bolt12Offer,
    melt_options: Option<MeltOptions>,
) -> Bolt12OutgoingPaymentOptions {
    Bolt12OutgoingPaymentOptions {
        offer,
        max_fee_amount: None,
        timeout_secs: None,
        melt_options,
        quote_id: "quote".to_string(),
    }
}

fn test_invoice(amount_msat: Option<u64>) -> Bolt11Invoice {
    Bolt11Invoice {
        text: "lnbc1test".to_string(),
        payment_hash: [1; 32],
        amount_msat,
        expires_at: None,
    }
}

fn bolt11_options(
    amount_msat: Option<u64>,
    melt_options: Option<MeltOptions>,
) -> Bolt11OutgoingPaymentOptions {
    Bolt11OutgoingPaymentOptions {
        bolt11: test_invoice(amount_msat),
        max_fee_amount: None,
        timeout_secs: None,
        melt_options,
        quote_id: "quote".to_string(),
    }
}

fn context(quote_id: &str, unit: CurrencyUnit) -> OutgoingPaymentContext {
    OutgoingPaymentContext { quote_id: quote_id.to_string(), unit }
}

fn settled(amount_msat: u64, fee_paid_msat: u64) -> Payment {
    Payment {
        fee_paid_msat: Some(fee_paid_msat),
        ..test_bolt11_payment(PaymentStatus::Succeeded, Some(amount_msat))
    }
}

#[test]
fn normalize_address_removes_scheme() {
    assert_eq!(
        normalize_address("https://127.0.0.1:3536/"),
        "127.0.0.1:3536"
    );
    assert_eq!(normalize_address("127.0.0.1:3536"), "127.0.0.1:3536");
}

#[test]
fn normalize_address_handles_plain_http_spaces_and_slashes() {
    assert_eq!(normalize_address(" http://node:1// \n"), "node:1");
    assert_eq!(normalize_address("node"), "node");
    assert_eq!(normalize_address("  "), "");
    assert_eq!(normalize_address("https://http://node"), "http://node");
}

#[test]
fn successful_outgoing_event_includes_quote_and_payment_details() {
    let mut correlations = OutgoingPaymentCorrelator::new();
    let quote_id = "018f8b3e-8c1a-7d2e-9f4b-6a1c3e5d7f90";
    correlations.remember_outgoing_payment_context(
        &"02".repeat(32),
        context(quote_id, CurrencyUnit::Sat),
        SECOND,
    );
    let payment = Payment {
        fee_paid_msat: Some(1),
        ..test_bolt11_payment(PaymentStatus::Succeeded, Some(1_000))
    };

    let event = event_from_envelope(
        Some(NodeEvent::PaymentSuccessful(Some(payment))),
        &mut correlations,
        2 * SECOND,
    )
    .expect("successful event should map")
    .expect("successful event should be emitted");
    let Event::PaymentSuccessful { quote_id: event_quote_id, details } = event else {
        panic!("expected outgoing payment success event");
    };

    assert_eq!(event_quote_id, quote_id);
    assert_eq!(
        details.payment_lookup_id,
        PaymentIdentifier::PaymentId([2; 32])
    );
    assert_eq!(details.status, MeltQuoteState::Paid);
    assert_eq!(details.total_spent, Amount::new(2, CurrencyUnit::Sat));
    assert!(correlations.is_idle());
}

#[test]
fn failed_outgoing_event_can_correlate_by_bolt11_hash() {
    let mut correlations = OutgoingPaymentCorrelator::new();
    let quote_id = "018f8b3e-8c1a-7d2e-9f4b-6a1c3e5d7f91";
    correlations.remember_outgoing_payment_context(
        &"01".repeat(32),
        context(quote_id, CurrencyUnit::Msat),
        SECOND,
    );

    let event = event_from_envelope(
        Some(NodeEvent::PaymentFailed(Some(test_bolt11_payment(
            PaymentStatus::Failed,
            None,
        )))),
        &mut correlations,
        2 * SECOND,
    )
    .expect("failed event should map")
    .expect("failed event should be emitted");
    let Event::PaymentFailed { quote_id: event_quote_id, reason } = event else {
        panic!("expected outgoing payment failure event");
    };

    assert_eq!(event_quote_id, quote_id);
    assert!(reason.contains(&"02".repeat(32)));
    assert!(correlations.is_idle());
}

#[test]
fn uncorrelated_outgoing_event_is_buffered_without_blocking() {
    let mut correlations = OutgoingPaymentCorrelator::new();
    let started = std::time::Instant::now();
    let event = event_from_envelope(
        Some(NodeEvent::PaymentSuccessful(Some(test_bolt11_payment(
            PaymentStatus::Succeeded,
            Some(1_000),
        )))),
        &mut correlations,
        SECOND,
    )
    .expect("uncorrelated event should map");
    assert!(event.is_none());
    assert!(started.elapsed() < std::time::Duration::from_millis(50));
    assert!(correlations.take_ready_outgoing_event(SECOND).is_none());
    assert_eq!(correlations.buffered(), 1);
}

#[test]
fn remembering_quote_replays_buffered_outgoing_success() {
    let mut correlations = OutgoingPaymentCorrelator::new();
    let quote_id = "018f8b3e-8c1a-7d2e-9f4b-6a1c3e5d7f92";
    let event = event_from_envelope(
        Some(NodeEvent::PaymentSuccessful(Some(Payment {
            fee_paid_msat: Some(1),
            ..test_bolt11_payment(PaymentStatus::Succeeded, Some(1_000))
        }))),
        &mut correlations,
        SECOND,
    )
    .expect("buffered event should map");
    assert!(event.is_none());

    let matched = correlations.remember_outgoing_payment_context(
        &"02".repeat(32),
        context(quote_id, CurrencyUnit::Sat),
        2 * SECOND,
    );
    assert!(matched);

    let event = correlations
        .take_ready_outgoing_event(2 * SECOND)
        .expect("buffered success should become ready after remember");
    let Event::PaymentSuccessful { quote_id: event_quote_id, details } = event else {
        panic!("expected outgoing payment success event");
    };
    assert_eq!(event_quote_id, quote_id);
    assert_eq!(details.status, MeltQuoteState::Paid);
    assert_eq!(details.total_spent, Amount::new(2, CurrencyUnit::Sat));
    assert!(correlations.is_idle());
}

#[test]
fn failed_payment_response_does_not_require_amount() {
    let payment = test_bolt11_payment(PaymentStatus::Failed, None);

    let response = make_payment_response_from_payment(
        &CurrencyUnit::Msat,
        PaymentIdentifier::PaymentId([2; 32]),
        &payment,
    )
    .expect("failed payment details should map without amount");

    assert_eq!(response.status, MeltQuoteState::Failed);
    assert_eq!(response.total_spent, Amount::new(0, CurrencyUnit::Msat));
}

#[test]
fn paid_payment_response_requires_amount() {
    let payment = test_bolt11_payment(PaymentStatus::Succeeded, None);

    let err = make_payment_response_from_payment(
        &CurrencyUnit::Msat,
        PaymentIdentifier::PaymentId([2; 32]),
        &payment,
    )
    .expect_err("paid payment details without amount should fail");

    assert!(matches!(err, PaymentError::Backend(_)));
}

#[test]
fn paid_payment_response_rounds_msats_up_for_sat_unit() {
    let payment = Payment {
        fee_paid_msat: Some(1),
        ..test_bolt11_payment(PaymentStatus::Succeeded, Some(1000))
    };

    let response = make_payment_response_from_payment(
        &CurrencyUnit::Sat,
        PaymentIdentifier::PaymentId([2; 32]),
        &payment,
    )
    .expect("paid payment details should map");

    assert_eq!(response.status, MeltQuoteState::Paid);
    assert_eq!(response.total_spent, Amount::new(2, CurrencyUnit::Sat));
}

#[test]
fn bolt12_amountless_quote_rejects_mismatched_fixed_offer() {
    let offer = test_offer(Some(10_000));
    let options = bolt12_options(offer, Some(MeltOptions::Amountless { amount_msat: 1_000 }));

    let err = bolt12_amount_msat_for_quote(&options)
        .expect_err("mismatched fixed offer amount should fail");

    assert!(matches!(err, PaymentError::AmountMismatch));
}

#[test]
fn bolt12_amountless_send_rejects_mismatched_fixed_offer() {
    let offer = test_offer(Some(10_000));
    let options = bolt12_options(offer, Some(MeltOptions::Amountless { amount_msat: 1_000 }));

    let err = bolt12_amount_msat_for_send(&options)
        .expect_err("mismatched fixed offer amount should fail");

    assert!(matches!(err, PaymentError::AmountMismatch));
}

#[test]
fn bolt12_amountless_accepts_matching_fixed_offer() {
    let offer = test_offer(Some(10_000));
    let options = bolt12_options(offer, Some(MeltOptions::Amountless { amount_msat: 10_000 }));

    let amount_msat =
        bolt12_amount_msat_for_quote(&options).expect("matching fixed offer amount is valid");

    assert_eq!(amount_msat, 10_000);
}

#[test]
fn bolt12_amountless_accepts_variable_offer() {
    let offer = test_offer(None);
    let options = bolt12_options(offer, Some(MeltOptions::Amountless { amount_msat: 10_000 }));

    let amount_msat =
        bolt12_amount_msat_for_send(&options).expect("variable offer amount is valid");

    assert_eq!(amount_msat, Some(10_000));
}

#[test]
fn bolt11_payment_selection_prefers_pending_over_failed() {
    let failed = test_bolt11_payment_with_id(1, PaymentStatus::Failed, 2);
    let pending = test_bolt11_payment_with_id(2, PaymentStatus::Pending, 1);

    let selected = select_bolt11_payment(vec![failed, pending])
        .expect("payment details should be selected");

    assert_eq!(selected.id, "02".repeat(32));
    assert_eq!(
        payment_status(&selected).expect("valid status"),
        PaymentStatus::Pending
    );
}

#[test]
fn bolt11_payment_selection_prefers_succeeded_over_pending() {
    let pending = test_bolt11_payment_with_id(1, PaymentStatus::Pending, 2);
    let succeeded = Payment {
        amount_msat: Some(1000),
        ..test_bolt11_payment_with_id(2, PaymentStatus::Succeeded, 1)
    };

    let selected = select_bolt11_payment(vec![pending, succeeded])
        .expect("payment details should be selected");

    assert_eq!(selected.id, "02".repeat(32));
    assert_eq!(
        payment_status(&selected).expect("valid status"),
        PaymentStatus::Succeeded
    );
}

#[test]
fn bolt11_payment_selection_prefers_the_latest_and_then_the_first() {
    let chosen = select_bolt11_payment(vec![
        test_bolt11_payment_with_id(1, PaymentStatus::Failed, 5),
        test_bolt11_payment_with_id(2, PaymentStatus::Failed, 7),
        test_bolt11_payment_with_id(3, PaymentStatus::Failed, 7),
    ])
    .unwrap();
    assert_eq!(chosen.id, "02".repeat(32));
    let unknown = Payment {
        status: Coded::Unknown(9),
        ..test_bolt11_payment_with_id(4, PaymentStatus::Failed, 9)
    };
    let chosen = select_bolt11_payment(vec![
        test_bolt11_payment_with_id(1, PaymentStatus::Failed, 5),
        unknown,
    ])
    .unwrap();
    assert_eq!(chosen.id, "04".repeat(32));
    assert!(select_bolt11_payment(vec![]).is_none());
}

#[test]
fn quotes_have_one_event_whatever_is_reported() {
    let mut correlations = OutgoingPaymentCorrelator::new();
    correlations.remember_outgoing_payment_context(
        &"02".repeat(32),
        context("quote", CurrencyUnit::Sat),
        SECOND,
    );
    let first = correlations
        .take_correlated_outgoing_event(
            settled(1_000, 0),
            OutgoingPaymentOutcome::Succeeded,
            2 * SECOND,
        )
        .unwrap();
    assert!(first.is_some());
    let second = correlations
        .take_correlated_outgoing_event(
            settled(1_000, 0),
            OutgoingPaymentOutcome::Succeeded,
            3 * SECOND,
        )
        .unwrap();
    assert!(second.is_none());
    assert_eq!(correlations.buffered(), 1);
    // The quote is done with, so registering it again discards the report.
    assert!(!correlations.remember_outgoing_payment_context(
        &"01".repeat(32),
        context("quote", CurrencyUnit::Sat),
        4 * SECOND,
    ));
    assert!(correlations.is_idle());
}

#[test]
fn buffered_reports_expire_after_a_minute_and_contexts_after_a_day() {
    let mut correlations = OutgoingPaymentCorrelator::new();
    correlations
        .take_correlated_outgoing_event(settled(1_000, 0), OutgoingPaymentOutcome::Succeeded, SECOND)
        .unwrap();
    correlations.expire_correlator_state(SECOND + UNMATCHED_OUTGOING_EVENT_TTL_NS - 1);
    assert_eq!(correlations.buffered(), 1);
    correlations.expire_correlator_state(SECOND + UNMATCHED_OUTGOING_EVENT_TTL_NS);
    assert_eq!(correlations.buffered(), 0);

    correlations.remember_outgoing_payment_context(
        &"02".repeat(32),
        context("quote", CurrencyUnit::Sat),
        SECOND,
    );
    correlations.expire_correlator_state(SECOND + OUTGOING_CONTEXT_TTL_NS - 1);
    assert!(!correlations.is_idle());
    correlations.expire_correlator_state(SECOND + OUTGOING_CONTEXT_TTL_NS);
    assert!(correlations.is_idle());
}

#[test]
fn ready_events_are_read_in_order() {
    let mut correlations = OutgoingPaymentCorrelator::new();
    for n in [7_u8, 8] {
        let report = Payment {
            kind: Some(PaymentKind::Bolt11 { hash: format!("{n:02x}").repeat(32), preimage: None }),
            ..test_bolt11_payment_with_id(n, PaymentStatus::Failed, 0)
        };
        correlations
            .take_correlated_outgoing_event(report, OutgoingPaymentOutcome::Failed, SECOND)
            .unwrap();
    }
    for n in [8_u8, 7] {
        assert!(correlations.remember_outgoing_payment_context(
            &format!("{n:02x}").repeat(32),
            context(&format!("quote-{n}"), CurrencyUnit::Sat),
            SECOND,
        ));
    }
    for n in [8_u8, 7] {
        let event = correlations.take_ready_outgoing_event(SECOND).unwrap();
        assert_eq!(
            event,
            Event::PaymentFailed {
                quote_id: format!("quote-{n}"),
                reason: format!("LDK Server payment {} failed", format!("{n:02x}").repeat(32)),
            }
        );
    }
    assert!(correlations.take_ready_outgoing_event(SECOND).is_none());
}

#[test]
fn a_report_that_cannot_be_mapped_leaves_the_quote_registered() {
    let mut correlations = OutgoingPaymentCorrelator::new();
    let broken = test_bolt11_payment(PaymentStatus::Succeeded, None);
    correlations
        .take_correlated_outgoing_event(broken, OutgoingPaymentOutcome::Succeeded, SECOND)
        .unwrap();
    assert!(!correlations.remember_outgoing_payment_context(
        &"02".repeat(32),
        context("quote", CurrencyUnit::Sat),
        SECOND,
    ));
    let event = correlations
        .take_correlated_outgoing_event(
            settled(5_000, 0),
            OutgoingPaymentOutcome::Succeeded,
            SECOND,
        )
        .unwrap();
    assert!(event.is_some());
    // A registered quote whose report cannot be mapped is done with all the same.
    correlations.remember_outgoing_payment_context(
        &"02".repeat(32),
        context("other", CurrencyUnit::Sat),
        SECOND,
    );
    let error = correlations
        .take_correlated_outgoing_event(
            test_bolt11_payment(PaymentStatus::Succeeded, None),
            OutgoingPaymentOutcome::Succeeded,
            SECOND,
        )
        .unwrap_err();
    assert_eq!(error, PaymentError::Backend(Error::CouldNotGetAmountSpent));
    assert!(correlations.is_idle());
}

#[test]
fn correlation_keys_are_normal_sorted_and_distinct() {
    assert_eq!(normalize_payment_correlation_key("  AbC\t"), "abc");
    let payment = Payment {
        id: " FF".to_string(),
        ..test_bolt11_payment(PaymentStatus::Pending, None)
    };
    assert_eq!(
        outgoing_payment_correlation_keys(&payment),
        vec!["01".repeat(32), "ff".to_string()]
    );
    let same = Payment {
        id: "01".repeat(32),
        ..test_bolt11_payment(PaymentStatus::Pending, None)
    };
    assert_eq!(outgoing_payment_correlation_keys(&same), vec!["01".repeat(32)]);
    let offer = Payment {
        kind: Some(PaymentKind::Bolt12Offer {
            hash: None,
            preimage: None,
            offer_id: "offer".to_string(),
        }),
        ..test_bolt11_payment(PaymentStatus::Pending, None)
    };
    assert_eq!(outgoing_payment_correlation_keys(&offer), vec!["02".repeat(32)]);
}

#[test]
fn received_payments_are_reported_under_their_hash_or_offer() {
    let received = Payment {
        direction: Coded::Known(PaymentDirection::Inbound),
        ..settled(21_000, 0)
    };
    let response = wait_payment_response_from_payment(&received).unwrap().unwrap();
    assert_eq!(response.payment_identifier, PaymentIdentifier::PaymentHash([1; 32]));
    assert_eq!(response.payment_amount, Amount::new(21_000, CurrencyUnit::Msat));
    assert_eq!(response.payment_id, "01".repeat(32));

    let offer = Payment {
        kind: Some(PaymentKind::Bolt12Offer {
            hash: None,
            preimage: None,
            offer_id: "offer".to_string(),
        }),
        direction: Coded::Known(PaymentDirection::Inbound),
        ..settled(21_000, 0)
    };
    let response = wait_payment_response_from_payment(&offer).unwrap().unwrap();
    assert_eq!(response.payment_identifier, PaymentIdentifier::OfferId("offer".to_string()));
    assert_eq!(response.payment_id, "02".repeat(32));

    assert_eq!(wait_payment_response_from_payment(&settled(1, 0)), Ok(None));
    let pending = Payment {
        direction: Coded::Known(PaymentDirection::Inbound),
        ..test_bolt11_payment(PaymentStatus::Pending, Some(1))
    };
    assert_eq!(wait_payment_response_from_payment(&pending), Ok(None));
    let other = Payment {
        kind: Some(PaymentKind::Other),
        direction: Coded::Known(PaymentDirection::Inbound),
        ..settled(1, 0)
    };
    assert_eq!(wait_payment_response_from_payment(&other), Ok(None));
}

#[test]
fn malformed_payments_are_errors() {
    let inbound = || Payment {
        direction: Coded::Known(PaymentDirection::Inbound),
        ..settled(1_000, 0)
    };
    let wait = |payment: Payment| wait_payment_response_from_payment(&payment);
    assert_eq!(
        wait(Payment { direction: Coded::Unknown(7), ..inbound() }),
        Err(Error::UnknownPaymentDirection(7))
    );
    assert_eq!(
        wait(Payment { status: Coded::Unknown(8), ..inbound() }),
        Err(Error::UnknownPaymentStatus(8))
    );
    assert_eq!(
        wait(Payment { amount_msat: None, ..inbound() }),
        Err(Error::CouldNotGetPaymentAmount)
    );
    assert_eq!(
        wait(Payment { kind: None, ..inbound() }),
        Err(Error::MissingPaymentKind)
    );
    let hashed = |hash: &str| Payment {
        kind: Some(PaymentKind::Bolt11 { hash: hash.to_string(), preimage: None }),
        ..inbound()
    };
    assert_eq!(wait(hashed("zz")), Err(Error::Hex));
    assert_eq!(wait(hashed("0102")), Err(Error::InvalidPaymentId));

    let make = |payment: Payment, unit: CurrencyUnit| {
        make_payment_response_from_payment(&unit, PaymentIdentifier::PaymentId([2; 32]), &payment)
    };
    assert_eq!(
        make(Payment { kind: Some(PaymentKind::Other), ..settled(1, 0) }, CurrencyUnit::Sat),
        Err(PaymentError::Backend(Error::UnexpectedPaymentKind))
    );
    assert_eq!(
        make(settled(u64::MAX, 1), CurrencyUnit::Msat),
        Err(PaymentError::Backend(Error::AmountOverflow))
    );
    assert_eq!(
        make(settled(1, 0), CurrencyUnit::Usd),
        Err(PaymentError::Amount(AmountError::CannotConvertUnits))
    );
    assert_eq!(
        make(settled(1_500, 1), CurrencyUnit::Msat).unwrap().total_spent,
        Amount::new(1_501, CurrencyUnit::Msat)
    );
}

#[test]
fn hexadecimal_hashes_of_either_case_are_read() {
    assert_eq!(hex_to_array(&"aB".repeat(32)), Ok([0xab; 32]));
    assert_eq!(hex_to_array("ab"), Err(Error::InvalidPaymentId));
    assert_eq!(hex_to_array("abc"), Err(Error::Hex));
    assert_eq!(hex_to_array(&"g0".repeat(32)), Err(Error::Hex));
}

#[test]
fn expiries_are_counted_from_now() {
    assert_eq!(expiry_secs_at(1_100, 1_000), Ok(100));
    assert_eq!(expiry_secs_at(1_000, 1_000), Ok(0));
    assert_eq!(expiry_secs_at(999, 1_000), Err(PaymentError::InvalidExpiry));
    assert_eq!(
        expiry_secs_at(1_000 + u64::from(u32::MAX), 1_000),
        Ok(u32::MAX)
    );
    assert_eq!(
        expiry_secs_at(1_001 + u64::from(u32::MAX), 1_000),
        Err(PaymentError::InvalidExpiry)
    );
    assert_eq!(expiry_secs_or_default(None), Ok(36_000));
    assert_eq!(expiry_secs(1), Err(PaymentError::InvalidExpiry));
    let now = cdk_common::util::unix_time();
    let secs = expiry_secs(now + 1_000).unwrap();
    assert!(990 <= secs && secs <= 1_000);
}

#[test]
fn bolt11_amounts_follow_the_melt_options() {
    let amountless = |amount_msat| Some(MeltOptions::Amountless { amount_msat });
    let mpp = Some(MeltOptions::Mpp { amount: 7 });
    assert_eq!(bolt11_amount_msat_for_quote(&bolt11_options(Some(9_000), None)), Ok(9_000));
    assert_eq!(
        bolt11_amount_msat_for_quote(&bolt11_options(None, None)),
        Err(PaymentError::Backend(Error::UnknownInvoiceAmount))
    );
    assert_eq!(bolt11_amount_msat_for_quote(&bolt11_options(None, amountless(5))), Ok(5));
    assert_eq!(
        bolt11_amount_msat_for_quote(&bolt11_options(Some(4), amountless(5))),
        Err(PaymentError::AmountMismatch)
    );
    assert_eq!(bolt11_amount_msat_for_quote(&bolt11_options(Some(9_000), mpp)), Ok(7));
    assert_eq!(
        bolt11_amount_msat_for_send(&bolt11_options(Some(9_000), Some(MeltOptions::Mpp { amount: 7 }))),
        Err(PaymentError::UnsupportedPaymentOption)
    );
    assert_eq!(bolt11_amount_msat_for_send(&bolt11_options(Some(9_000), None)), Ok(None));
    assert_eq!(bolt11_amount_msat_for_send(&bolt11_options(None, amountless(5))), Ok(Some(5)));
    assert_eq!(
        bolt11_amount_msat_for_send(&bolt11_options(Some(4), amountless(5))),
        Err(PaymentError::AmountMismatch)
    );
}

#[test]
fn bolt12_amounts_follow_the_offer_and_the_melt_options() {
    assert_eq!(
        test_offer(Some(10_000)).amount,
        Some(OfferAmount::Bitcoin { amount_msats: 10_000 })
    );
    assert_eq!(test_offer(None).amount, None);
    assert!(Bolt12Offer::parse("not an offer").is_none());
    let foreign = || Bolt12Offer { text: "offer".to_string(), amount: Some(OfferAmount::Currency) };
    assert_eq!(
        validate_bolt12_amount_msat(&foreign(), 1),
        Err(PaymentError::AmountMismatch)
    );
    assert_eq!(
        bolt12_amount_msat_for_quote(&bolt12_options(foreign(), None)),
        Err(PaymentError::AmountMismatch)
    );
    assert_eq!(
        bolt12_amount_msat_for_quote(&bolt12_options(test_offer(None), None)),
        Err(PaymentError::AmountMismatch)
    );
    assert_eq!(
        bolt12_amount_msat_for_quote(&bolt12_options(test_offer(Some(10_000)), None)),
        Ok(10_000)
    );
    assert_eq!(
        bolt12_amount_msat_for_send(&bolt12_options(
            test_offer(None),
            Some(MeltOptions::Mpp { amount: 1 })
        )),
        Err(PaymentError::UnsupportedPaymentOption)
    );
    assert_eq!(
        bolt12_amount_msat_for_send(&bolt12_options(test_offer(Some(10_000)), None)),
        Ok(None)
    );
}

#[test]
fn fee_limits_become_route_parameters() {
    assert_eq!(route_parameters_from_max_fee(&None), Ok(None));
    let parameters =
        route_parameters_from_max_fee(&Some(Amount::new(3, CurrencyUnit::Sat))).unwrap().unwrap();
    assert_eq!(parameters.max_total_routing_fee_msat, Some(3_000));
    assert_eq!(parameters.max_total_cltv_expiry_delta, 1008);
    assert_eq!(parameters.max_path_count, 10);
    assert_eq!(parameters.max_channel_saturation_power_of_half, 2);
    assert_eq!(
        route_parameters_from_max_fee(&Some(Amount::new(u64::MAX, CurrencyUnit::Sat))),
        Err(PaymentError::Amount(AmountError::AmountOverflow))
    );
}

#[test]
fn receiving_asks_the_node_for_an_invoice_or_an_offer() {
    let bolt11 = |amount: Amount, unix_expiry: Option<u64>| {
        IncomingPaymentOptions::Bolt11(Bolt11IncomingPaymentOptions {
            description: Some("coffee".to_string()),
            amount,
            unix_expiry,
        })
    };
    assert_eq!(
        receive_request_at(bolt11(Amount::new(21, CurrencyUnit::Sat), Some(1_060)), 1_000),
        Ok(ReceiveRequest::Bolt11 {
            amount_msat: 21_000,
            description: "coffee".to_string(),
            invoice_expiry_secs: 60,
        })
    );
    assert_eq!(
        create_incoming_payment_request(bolt11(Amount::new(21, CurrencyUnit::Sat), None)),
        Ok(ReceiveRequest::Bolt11 {
            amount_msat: 21_000,
            description: "coffee".to_string(),
            invoice_expiry_secs: 36_000,
        })
    );
    assert_eq!(
        receive_request_at(bolt11(Amount::new(1, CurrencyUnit::Eur), None), 0),
        Err(PaymentError::Amount(AmountError::CannotConvertUnits))
    );
    assert_eq!(
        receive_request_at(
            IncomingPaymentOptions::Bolt12(Bolt12IncomingPaymentOptions {
                description: None,
                amount: None,
                unix_expiry: None,
            }),
            0
        ),
        Ok(ReceiveRequest::Bolt12 {
            offer_amount_msat: None,
            offer_description: String::new(),
            offer_expiry_secs: None,
        })
    );
    assert_eq!(
        receive_request_at(
            IncomingPaymentOptions::Bolt12(Bolt12IncomingPaymentOptions {
                description: None,
                amount: Some(Amount::new(5, CurrencyUnit::Msat)),
                unix_expiry: Some(9),
            }),
            10
        ),
        Err(PaymentError::InvalidExpiry)
    );
    for unsupported in [IncomingPaymentOptions::Custom, IncomingPaymentOptions::Onchain] {
        assert_eq!(
            receive_request_at(unsupported, 0),
            Err(PaymentError::UnsupportedPaymentOption)
        );
    }

    let created = invoice_created_at(&"0a".repeat(32), "lnbc1".to_string(), 60, 1_000).unwrap();
    assert_eq!(created.request_lookup_id, PaymentIdentifier::PaymentHash([10; 32]));
    assert_eq!(created.request, "lnbc1");
    assert_eq!(created.expiry, Some(1_060));
    assert_eq!(
        invoice_created("xx", "lnbc1".to_string(), 60),
        Err(PaymentError::Backend(Error::Hex))
    );
    let offer = offer_created("id".to_string(), "lno1".to_string(), Some(5));
    assert_eq!(offer.request_lookup_id, PaymentIdentifier::OfferId("id".to_string()));
    assert_eq!(offer.expiry, Some(5));
}

fn backend(min_fee_reserve: u64) -> LdkServerBackend {
    let config = Config::new(
        "https://127.0.0.1:3536/".to_string(),
        "secret-key".to_string(),
        vec![1, 2, 3],
        FeeReserve { min_fee_reserve, percent_fee_reserve_bits: 0.01_f32.to_bits() },
    )
    .with_max_payment_scan_pages(2);
    let shown = config.redacted();
    assert_eq!(shown.api_key, "[REDACTED]");
    assert_eq!(shown.cert_pem_bytes, 3);
    assert_eq!(shown.max_payment_scan_pages, 2);
    let (backend, connection) = LdkServerBackend::new(config);
    assert_eq!(connection.address, "127.0.0.1:3536");
    assert_eq!(connection.api_key, "secret-key");
    assert_eq!(connection.cert_pem, vec![1, 2, 3]);
    backend
}

#[test]
fn quotes_reserve_the_share_and_at_least_the_minimum() {
    let backend = backend(2);
    let options = OutgoingPaymentOptions::Bolt11(bolt11_options(Some(9_000_000), None));
    let amount = LdkServerBackend::quote_amount(&CurrencyUnit::Sat, &options).unwrap();
    assert_eq!(amount, Amount::new(9_000, CurrencyUnit::Sat));
    let percent = f32::from_bits(backend.fee_reserve.percent_fee_reserve_bits);
    let relative = (percent * amount.value as f32) as u64;
    let quote = backend.get_payment_quote(&CurrencyUnit::Sat, &options, relative).unwrap();
    assert_eq!(quote.amount, Amount::new(9_000, CurrencyUnit::Sat));
    assert_eq!(quote.fee, Amount::new(90, CurrencyUnit::Sat));
    assert_eq!(quote.state, MeltQuoteState::Unpaid);
    assert_eq!(quote.request_lookup_id, Some(PaymentIdentifier::PaymentHash([1; 32])));

    let fee = |unit: CurrencyUnit, relative| backend.fee_reserve_for_amount(&unit, relative);
    assert_eq!(fee(CurrencyUnit::Sat, 1), Amount::new(2, CurrencyUnit::Sat));
    // The minimum is configured in satoshis, whatever the unit of the quote.
    assert_eq!(fee(CurrencyUnit::Msat, 1), Amount::new(2_000, CurrencyUnit::Msat));
    assert_eq!(fee(CurrencyUnit::Msat, 2_001), Amount::new(2_001, CurrencyUnit::Msat));

    let offer = OutgoingPaymentOptions::Bolt12(bolt12_options(test_offer(Some(10_000)), None));
    let quote = backend.get_payment_quote(&CurrencyUnit::Msat, &offer, 100).unwrap();
    assert_eq!(quote.amount, Amount::new(10_000, CurrencyUnit::Msat));
    assert_eq!(quote.request_lookup_id, None);
    for unsupported in [OutgoingPaymentOptions::Custom, OutgoingPaymentOptions::Onchain] {
        assert_eq!(
            backend.get_payment_quote(&CurrencyUnit::Sat, &unsupported, 0),
            Err(PaymentError::UnsupportedPaymentOption)
        );
    }
    let settings = backend.get_settings();
    assert_eq!(settings.unit, "msat");
    assert_eq!(
        settings.bolt11,
        Some(Bolt11Settings { mpp: false, amountless: true, invoice_description: true })
    );
    assert_eq!(
        settings.bolt12,
        Some(Bolt12Settings { amountless: true, invoice_description: true })
    );
    assert!(settings.onchain.is_none());
    assert!(settings.custom.is_empty());
}

#[test]
fn a_payment_registers_before_it_is_sent_and_is_done_with_when_settled() {
    let mut correlations = OutgoingPaymentCorrelator::new();
    let options = OutgoingPaymentOptions::Bolt11(bolt11_options(Some(9_000), None));
    let start = make_payment(&mut correlations, &CurrencyUnit::Sat, &options, SECOND).unwrap();
    assert_eq!(
        start.request,
        SendRequest::Bolt11 {
            invoice: "lnbc1test".to_string(),
            amount_msat: None,
            route_parameters: None,
        }
    );
    assert!(!start.notify);
    assert!(!correlations.is_idle());
    let sent = payment_sent(&mut correlations, &"02".repeat(32), &start.context, 2 * SECOND);
    assert_eq!(sent.payment_id, Ok([2; 32]));
    let concluded = payment_found(
        &mut correlations,
        &CurrencyUnit::Sat,
        &[2; 32],
        &settled(9_000, 10),
        &start.context,
        3 * SECOND,
    );
    let answer = concluded.answer.unwrap();
    assert_eq!(answer.status, MeltQuoteState::Paid);
    assert_eq!(answer.total_spent, Amount::new(10, CurrencyUnit::Sat));
    assert_eq!(answer.payment_proof, Some("03".repeat(32)));
    assert!(correlations.is_idle());
    // The event that the node reports later belongs to a quote that is done with.
    let late = event_from_envelope(
        Some(NodeEvent::PaymentSuccessful(Some(settled(9_000, 10)))),
        &mut correlations,
        4 * SECOND,
    )
    .unwrap();
    assert!(late.is_none());
}

#[test]
fn a_pending_payment_stays_registered_until_its_event() {
    let mut correlations = OutgoingPaymentCorrelator::new();
    let options = OutgoingPaymentOptions::Bolt12(bolt12_options(test_offer(Some(10_000)), None));
    let start = make_payment(&mut correlations, &CurrencyUnit::Msat, &options, SECOND).unwrap();
    assert!(correlations.is_idle());
    assert!(matches!(start.request, SendRequest::Bolt12 { amount_msat: None, .. }));
    payment_sent(&mut correlations, &"02".repeat(32), &start.context, SECOND);
    let concluded = payment_found(
        &mut correlations,
        &CurrencyUnit::Msat,
        &[2; 32],
        &test_bolt11_payment(PaymentStatus::Pending, None),
        &start.context,
        SECOND,
    );
    assert_eq!(concluded.answer.unwrap().status, MeltQuoteState::Pending);
    assert!(!correlations.is_idle());
    let event = event_from_envelope(
        Some(NodeEvent::PaymentSuccessful(Some(settled(10_000, 5)))),
        &mut correlations,
        2 * SECOND,
    )
    .unwrap();
    assert!(matches!(event, Some(Event::PaymentSuccessful { .. })));
    assert!(correlations.is_idle());
    let sent = payment_sent(&mut correlations, "nonsense", &start.context, SECOND);
    assert_eq!(sent.payment_id, Err(PaymentError::Backend(Error::Hex)));
    for unsupported in [OutgoingPaymentOptions::Custom, OutgoingPaymentOptions::Onchain] {
        assert_eq!(
            make_payment(&mut correlations, &CurrencyUnit::Sat, &unsupported, SECOND),
            Err(PaymentError::UnsupportedPaymentOption)
        );
    }
}

/// Makes a payment of an invoice for the quote `quote` while another quote is
/// registered and reported.
fn flow(
    correlations: &mut OutgoingPaymentCorrelator,
    details: &Payment,
) -> Result<MakePaymentResponse, PaymentError> {
    let options = OutgoingPaymentOptions::Bolt11(bolt11_options(Some(9_000), None));
    let start = make_payment(correlations, &CurrencyUnit::Sat, &options, SECOND).unwrap();
    let other = context("other", CurrencyUnit::Sat);
    correlations.remember_outgoing_payment_context(&"0a".repeat(32), other, 2 * SECOND);
    let sent = payment_sent(correlations, &"02".repeat(32), &start.context, 3 * SECOND);
    let of_other = Payment {
        id: "0A".repeat(32),
        kind: Some(PaymentKind::Bolt11 { hash: "0b".repeat(32), preimage: None }),
        ..test_bolt11_payment(PaymentStatus::Failed, None)
    };
    let event = event_from_envelope(
        Some(NodeEvent::PaymentFailed(Some(of_other))),
        correlations,
        4 * SECOND,
    );
    assert!(matches!(
        event,
        Ok(Some(Event::PaymentFailed { quote_id, .. })) if quote_id == "other"
    ));
    let concluded = payment_found(
        correlations,
        &CurrencyUnit::Sat,
        &sent.payment_id.unwrap(),
        details,
        &start.context,
        5 * SECOND,
    );
    assert!(!start.notify && !sent.notify && !concluded.notify);
    concluded.answer
}

#[test]
fn a_pending_payment_has_one_event_by_its_id_or_its_hash_in_either_case() {
    let by_id = Payment {
        id: "02".repeat(32).to_uppercase(),
        kind: Some(PaymentKind::Bolt11 { hash: "0c".repeat(32), preimage: None }),
        ..settled(9_000, 10)
    };
    let by_hash = Payment {
        id: "0d".repeat(32),
        kind: Some(PaymentKind::Bolt11 { hash: "01".repeat(32).to_uppercase(), preimage: None }),
        ..settled(9_000, 10)
    };
    for (report, repeated) in [(by_id, settled(9_000, 10)), (by_hash, settled(9_000, 10))] {
        let mut correlations = OutgoingPaymentCorrelator::new();
        let pending = test_bolt11_payment(PaymentStatus::Pending, None);
        let answer = flow(&mut correlations, &pending).unwrap();
        assert_eq!(answer.status, MeltQuoteState::Pending);
        assert_eq!(answer.payment_lookup_id, PaymentIdentifier::PaymentId([2; 32]));
        let event = event_from_envelope(
            Some(NodeEvent::PaymentSuccessful(Some(report))),
            &mut correlations,
            SECOND + OUTGOING_CONTEXT_TTL_NS - 1,
        );
        assert!(matches!(
            event,
            Ok(Some(Event::PaymentSuccessful { quote_id, .. })) if quote_id == "quote"
        ));
        let again = event_from_envelope(
            Some(NodeEvent::PaymentFailed(Some(repeated))),
            &mut correlations,
            SECOND + OUTGOING_CONTEXT_TTL_NS,
        );
        assert_eq!(again, Ok(None));
    }
}

#[test]
fn a_pending_payment_that_is_tried_again_has_one_event() {
    let mut correlations = OutgoingPaymentCorrelator::new();
    let pending = test_bolt11_payment(PaymentStatus::Pending, None);
    flow(&mut correlations, &pending).unwrap();
    let options = OutgoingPaymentOptions::Bolt11(bolt11_options(Some(9_000), None));
    let again = make_payment(&mut correlations, &CurrencyUnit::Sat, &options, 7 * SECOND).unwrap();
    let sent = payment_sent(&mut correlations, &"0e".repeat(32), &again.context, 8 * SECOND);
    assert!(!again.notify && !sent.notify);
    let event = event_from_envelope(
        Some(NodeEvent::PaymentSuccessful(Some(settled(9_000, 10)))),
        &mut correlations,
        9 * SECOND,
    );
    assert!(matches!(
        event,
        Ok(Some(Event::PaymentSuccessful { quote_id, .. })) if quote_id == "quote"
    ));
    for id in ["02", "0e"] {
        let late = Payment { id: id.repeat(32), ..settled(9_000, 10) };
        let late = event_from_envelope(
            Some(NodeEvent::PaymentFailed(Some(late))),
            &mut correlations,
            10 * SECOND,
        );
        assert_eq!(late, Ok(None));
    }
}

#[test]
fn an_early_report_is_replayed_whatever_happens_meanwhile() {
    let mut correlations = OutgoingPaymentCorrelator::new();
    let mut stream = EventStreamState::new();
    let early = NodeEvent::PaymentSuccessful(Some(settled(9_000, 10)));
    assert_eq!(
        stream.heard(StreamInput::Message(Some(early)), &mut correlations, SECOND),
        StreamStep::Continue
    );
    // The stream looks again, another quote registers, and it is reported.
    assert_eq!(stream.next_step(&mut correlations, 2 * SECOND), StreamStep::Listen);
    let other = context("other", CurrencyUnit::Sat);
    correlations.remember_outgoing_payment_context(&"0a".repeat(32), other, 3 * SECOND);
    let of_other = Payment {
        id: "0a".repeat(32),
        kind: Some(PaymentKind::Bolt11 { hash: "0b".repeat(32), preimage: None }),
        ..test_bolt11_payment(PaymentStatus::Failed, None)
    };
    assert!(matches!(
        stream.heard(
            StreamInput::Message(Some(NodeEvent::PaymentFailed(Some(of_other)))),
            &mut correlations,
            4 * SECOND
        ),
        StreamStep::Emit(Event::PaymentFailed { quote_id, .. }) if quote_id == "other"
    ));
    assert_eq!(stream.next_step(&mut correlations, 5 * SECOND), StreamStep::Listen);
    let options = OutgoingPaymentOptions::Bolt11(bolt11_options(Some(9_000), None));
    let registered = SECOND + UNMATCHED_OUTGOING_EVENT_TTL_NS - 1;
    let start = make_payment(&mut correlations, &CurrencyUnit::Sat, &options, registered).unwrap();
    assert!(start.notify);
    assert!(matches!(
        stream.next_step(&mut correlations, registered),
        StreamStep::Emit(Event::PaymentSuccessful { quote_id, .. }) if quote_id == "quote"
    ));
    assert_eq!(correlations.buffered(), 0);
}

#[test]
fn a_concluded_payment_has_no_event() {
    for (details, status) in [
        (settled(9_000, 10), MeltQuoteState::Paid),
        (test_bolt11_payment(PaymentStatus::Failed, None), MeltQuoteState::Failed),
    ] {
        let mut correlations = OutgoingPaymentCorrelator::new();
        let answer = flow(&mut correlations, &details).unwrap();
        assert_eq!(answer.status, status);
        assert_eq!(answer.payment_lookup_id, PaymentIdentifier::PaymentId([2; 32]));
        for report in [
            NodeEvent::PaymentSuccessful(Some(settled(9_000, 10))),
            NodeEvent::PaymentFailed(Some(settled(9_000, 10))),
        ] {
            let event = event_from_envelope(Some(report), &mut correlations, 6 * SECOND);
            assert_eq!(event, Ok(None));
        }
    }
}

#[test]
fn streams_hand_out_the_events_of_reports_in_order() {
    let received = |amount_msat: u64| Payment {
        direction: Coded::Known(PaymentDirection::Inbound),
        ..settled(amount_msat, 0)
    };
    let unmappable = Payment { amount_msat: None, ..received(1) };
    let inputs = [
        StreamInput::Message(Some(NodeEvent::PaymentReceived(Some(received(1_000))))),
        StreamInput::Message(Some(NodeEvent::PaymentReceived(Some(unmappable)))),
        StreamInput::Message(Some(NodeEvent::PaymentForwarded)),
        StreamInput::Disconnected,
        StreamInput::Notified,
        StreamInput::Message(Some(NodeEvent::PaymentReceived(Some(received(2_000))))),
        StreamInput::Disconnected,
        StreamInput::Message(Some(NodeEvent::PaymentReceived(Some(received(3_000))))),
    ];
    let mut correlations = OutgoingPaymentCorrelator::new();
    let mut stream = EventStreamState::new();
    let mut amounts = Vec::new();
    let mut subscriptions = 0;
    let mut now = SECOND;
    for input in inputs {
        now += SECOND;
        if stream.next_step(&mut correlations, now) == StreamStep::Subscribe {
            subscriptions += 1;
            assert_eq!(stream.subscribed(true), StreamStep::Continue);
            assert_eq!(stream.next_step(&mut correlations, now), StreamStep::Listen);
        }
        match stream.heard(input, &mut correlations, now) {
            StreamStep::Emit(Event::PaymentReceived(response)) => {
                amounts.push(response.payment_amount.value);
            }
            StreamStep::Pause(_) => assert_eq!(stream.paused(false), StreamStep::Continue),
            step => assert_eq!(step, StreamStep::Continue),
        }
    }
    assert_eq!(amounts, [1_000, 2_000, 3_000]);
    assert_eq!(subscriptions, 2);
    assert!(stream.active);
}

#[test]
fn payment_details_are_awaited_until_the_timeout() {
    assert_eq!(
        wait_for_payment_details(Some(settled(1, 0)), 99, Some(1)),
        WaitStep::Found(settled(1, 0))
    );
    assert_eq!(wait_for_payment_details(None, 9, None), WaitStep::AskAgainAfter(100));
    assert_eq!(
        wait_for_payment_details(None, 10, None),
        WaitStep::NotFound(Error::PaymentNotFound)
    );
    assert_eq!(
        wait_for_payment_details(None, 0, Some(0)),
        WaitStep::NotFound(Error::PaymentNotFound)
    );
}

#[test]
fn scans_read_the_whole_history_or_fail() {
    let inbound = || Payment {
        direction: Coded::Known(PaymentDirection::Inbound),
        ..settled(1_000, 0)
    };
    let mut scan = PaymentScan::new(PaymentFilter::IncomingHash("01".repeat(32)), 2).unwrap();
    assert_eq!(
        scan.list_matching_payments(vec![settled(1, 0), inbound()], true),
        Ok(ScanStep::NextPage)
    );
    assert_eq!(scan.list_matching_payments(vec![inbound()], false), Ok(ScanStep::Done));
    let found = scan.into_payments();
    assert_eq!(found.len(), 2);
    assert_eq!(incoming_payments_found(&found).len(), 2);

    let mut scan = PaymentScan::new(PaymentFilter::OutgoingHash("01".repeat(32)), 1).unwrap();
    assert_eq!(
        scan.list_matching_payments(vec![settled(1, 0)], true),
        Err(Error::PaymentScanLimitExceeded { max_pages: 1 })
    );
    assert!(matches!(
        PaymentScan::new(PaymentFilter::IncomingOffer("offer".to_string()), 0),
        Err(Error::PaymentScanLimitExceeded { max_pages: 0 })
    ));
}

#[test]
fn filters_match_offers_and_hashes_in_their_direction() {
    let inbound = || Payment {
        direction: Coded::Known(PaymentDirection::Inbound),
        ..settled(1_000, 0)
    };
    let hash = PaymentFilter::IncomingHash("AB".repeat(32));
    let with_hash = |hash: &str| Payment {
        kind: Some(PaymentKind::Bolt11 { hash: hash.repeat(32), preimage: None }),
        ..inbound()
    };
    assert!(hash.matches_payment(&with_hash("ab")));
    assert!(!hash.matches_payment(&with_hash("ac")));
    assert!(!hash.matches_payment(&settled(1, 0)));
    let offer = PaymentFilter::IncomingOffer("offer".to_string());
    let with_offer = |offer_id: &str| Payment {
        kind: Some(PaymentKind::Bolt12Offer {
            hash: None,
            preimage: None,
            offer_id: offer_id.to_string(),
        }),
        ..inbound()
    };
    assert!(offer.matches_payment(&with_offer("offer")));
    assert!(!offer.matches_payment(&with_offer("Offer")));
    let outgoing = PaymentFilter::OutgoingHash("01".repeat(32));
    assert!(outgoing.matches_payment(&test_bolt11_payment(PaymentStatus::Failed, None)));
    assert!(!outgoing.matches_payment(&inbound()));
    // What cannot be mapped is left out of the answer.
    let broken = Payment { amount_msat: None, ..inbound() };
    assert_eq!(incoming_payments_found(&vec![broken, inbound()]).len(), 1);
}

#[test]
fn lookups_go_by_the_kind_of_identifier() {
    assert_eq!(
        check_incoming_payment_status(&PaymentIdentifier::OfferId("offer".to_string())),
        Ok(IncomingLookup::Scan(PaymentFilter::IncomingOffer("offer".to_string())))
    );
    assert_eq!(
        check_incoming_payment_status(&PaymentIdentifier::PaymentHash([0xab; 32])),
        Ok(IncomingLookup::Scan(PaymentFilter::IncomingHash("ab".repeat(32))))
    );
    assert_eq!(
        check_incoming_payment_status(&PaymentIdentifier::PaymentId([1; 32])),
        Ok(IncomingLookup::Fetch("01".repeat(32)))
    );
    assert_eq!(
        check_incoming_payment_status(&PaymentIdentifier::Label("x".to_string())),
        Err(PaymentError::Backend(Error::UnsupportedPaymentIdentifierType))
    );
    assert_eq!(
        check_outgoing_payment(&PaymentIdentifier::PaymentId([1; 32])),
        OutgoingLookup::Fetch("01".repeat(32))
    );
    assert_eq!(
        check_outgoing_payment(&PaymentIdentifier::PaymentHash([1; 32])),
        OutgoingLookup::Scan(PaymentFilter::OutgoingHash("01".repeat(32)))
    );
    let label = PaymentIdentifier::Label("x".to_string());
    assert_eq!(
        check_outgoing_payment(&label),
        OutgoingLookup::Answer(MakePaymentResponse {
            payment_lookup_id: label.clone(),
            payment_proof: None,
            status: MeltQuoteState::Unknown,
            total_spent: Amount::new(0, CurrencyUnit::Msat),
        })
    );

    assert_eq!(incoming_payment_fetched(&None), Ok(None));
    assert_eq!(
        incoming_payment_fetched(&Some(Payment {
            direction: Coded::Known(PaymentDirection::Inbound),
            kind: None,
            ..settled(1, 0)
        })),
        Err(PaymentError::Backend(Error::MissingPaymentKind))
    );
    let id = PaymentIdentifier::PaymentId([2; 32]);
    assert_eq!(
        outgoing_payment_fetched(&id, &None),
        Err(PaymentError::Backend(Error::PaymentNotFound))
    );
    let inbound = Payment {
        direction: Coded::Known(PaymentDirection::Inbound),
        ..settled(1, 0)
    };
    assert_eq!(
        outgoing_payment_fetched(&id, &Some(inbound)),
        Err(PaymentError::Backend(Error::InvalidPaymentDirection))
    );
    let answer = outgoing_payment_fetched(&id, &Some(settled(9_000, 1))).unwrap();
    assert_eq!(answer.total_spent, Amount::new(9_001, CurrencyUnit::Msat));
    let hash = PaymentIdentifier::PaymentHash([1; 32]);
    assert_eq!(
        outgoing_payments_found(&hash, vec![]),
        Err(PaymentError::Backend(Error::PaymentNotFound))
    );
    let answer = outgoing_payments_found(
        &hash,
        vec![test_bolt11_payment(PaymentStatus::Failed, None), settled(9_000, 1)],
    )
    .unwrap();
    assert_eq!(answer.status, MeltQuoteState::Paid);
    assert_eq!(answer.payment_lookup_id, hash);
}

#[test]
fn event_streams_reconnect_with_growing_pauses() {
    let mut correlations = OutgoingPaymentCorrelator::new();
    let mut stream = EventStreamState::new();
    assert_eq!(stream.next_step(&mut correlations, SECOND), StreamStep::Listen);
    assert_eq!(
        stream.heard(StreamInput::Disconnected, &mut correlations, SECOND),
        StreamStep::Pause(1)
    );
    for pause in [2, 4, 8, 10, 10] {
        assert_eq!(stream.paused(false), StreamStep::Continue);
        assert_eq!(stream.next_step(&mut correlations, SECOND), StreamStep::Subscribe);
        assert_eq!(stream.subscribed(false), StreamStep::Pause(pause));
    }
    assert_eq!(stream.paused(false), StreamStep::Continue);
    assert_eq!(stream.subscribed(true), StreamStep::Continue);
    assert_eq!(stream.retry_count, 0);
    assert!(stream.connected);
    assert_eq!(
        stream.heard(StreamInput::Notified, &mut correlations, SECOND),
        StreamStep::Continue
    );
    let received = Payment {
        direction: Coded::Known(PaymentDirection::Inbound),
        ..settled(21_000, 0)
    };
    assert!(matches!(
        stream.heard(
            StreamInput::Message(Some(NodeEvent::PaymentReceived(Some(received)))),
            &mut correlations,
            SECOND
        ),
        StreamStep::Emit(Event::PaymentReceived(_))
    ));
    for ignored in [
        None,
        Some(NodeEvent::PaymentForwarded),
        Some(NodeEvent::PaymentClaimable),
        Some(NodeEvent::PaymentReceived(None)),
        Some(NodeEvent::PaymentSuccessful(None)),
        Some(NodeEvent::PaymentFailed(None)),
    ] {
        assert_eq!(
            stream.heard(StreamInput::Message(ignored), &mut correlations, SECOND),
            StreamStep::Continue
        );
    }
    assert_eq!(
        stream.heard(StreamInput::Cancelled, &mut correlations, SECOND),
        StreamStep::Stop
    );
    assert!(!stream.active);
    assert_eq!(stream.paused(true), StreamStep::Stop);
}

#[test]
fn ldk_settings_have_the_documented_defaults_and_requirements() {
    let settings = Settings::default();
    assert_eq!(settings.address, "127.0.0.1");
    assert_eq!(settings.port, 50051);
    assert!(!settings.tls_enable);
    assert!(!settings.allow_insecure);
    assert_eq!(settings.tls_cert_path, "certs/server.crt");
    assert_eq!(settings.tls_key_path, "certs/server.key");
    assert_eq!(settings.tls_client_ca_path, "certs/ca.pem");
    assert_eq!(settings.backend.fee_reserve_min_sat, 2);
    assert_eq!(f32::from_bits(settings.backend.fee_reserve_percent_bits), 0.01);
    assert_eq!(settings.backend.max_payment_scan_pages, 32);
    let mut config = BackendConfig::default();
    assert_eq!(config.validate(), Err(MissingSetting::Address));
    config.address = "node".to_string();
    assert_eq!(config.validate(), Err(MissingSetting::ApiKey));
    config.api_key = "key".to_string();
    assert_eq!(config.validate(), Err(MissingSetting::TlsCertPath));
    assert_eq!(
        MissingSetting::TlsCertPath.message(),
        "backend.tls_cert_path is required"
    );
    config.tls_cert_path = "cert".to_string();
    assert_eq!(config.validate(), Ok(()));
}
