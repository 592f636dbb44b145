use cdk_payment_processors::lnbits::backend::{
    bolt11_amount_sat, decode_payment_hash, ensure_sat_unit, incoming_payment_response,
    invoice_matched, invoice_request_at, lnbits_payment_state, normalize_api_url,
    outgoing_payment_response, pay_done, pay_recovered, pay_status_fetched, payment_hash_hex,
    quote_amount_sat, settings_response, signed_magnitude, CreateInvoiceRequest, CreatedInvoice,
    LnbitsBackend, PayStep, Payment, PaymentDetails, PaymentError, StartStep,
};
use cdk_payment_processors::lnbits::error::Error;
use cdk_payment_processors::lnbits::events::{
    process_websocket_message, EventStreamState, StreamInput, StreamStep,
};
use cdk_payment_processors::lnbits::settings::{
    BackendConfig, BackendConfigRepr, Config, InvalidSetting,
};
use cdk_payment_processors::payment::{
    Amount, Bolt11IncomingPaymentOptions, Bolt11Invoice, Bolt11OutgoingPaymentOptions,
    Bolt11Settings, CurrencyUnit, Event, IncomingPaymentOptions, MeltOptions, MeltQuoteState,
    OutgoingPaymentOptions, PaymentIdentifier,
};

const INVOICE: &str = "lnbc100n1p5z3a63pp56854ytysg7e5z9fl3w5mgvrlqjfcytnjv8ff5hm5qt6gl6alxesqdqqcqzzsxqyz5vqsp5p0x0dlhn27s63j4emxnk26p7f94u0lyarnfp5yqmac9gzy4ngdss9qxpqysgqne3v0hnzt2lp0hc69xpzckk0cdcar7glvjhq60lsrfe8gejdm8c564prrnsft6ctxxyrewp4jtezrq3gxxqnfjj0f9tw2qs9y0lslmqpfu7et9";

fn payment(paid: bool, status: &str, amount: i64, fee: i64) -> Payment {
    Payment {
        paid,
        preimage: Some("top-level-preimage".to_string()),
        details: PaymentDetails {
            status: status.to_string(),
            checking_id: "checking-id".to_string(),
            amount,
            fee,
            preimage: Some("details-preimage".to_string()),
        },
    }
}

fn valid_backend_config() -> BackendConfig {
    BackendConfig {
        admin_api_key: "admin-key".to_string(),
        invoice_api_key: "invoice-key".to_string(),
        api_url: "https://lnbits.example.com".to_string(),
        ..BackendConfig::default()
    }
}

fn backend() -> LnbitsBackend {
    match LnbitsBackend::new(valid_backend_config()) {
        Ok((backend, connection)) => {
            assert_eq!(connection.api_url, "https://lnbits.example.com/");
            assert_eq!(connection.admin_api_key, "admin-key");
            assert_eq!(connection.invoice_api_key, "invoice-key");
            backend
        }
        Err(error) => panic!("{}", error.message()),
    }
}

fn options(amount_msat: Option<u64>) -> Bolt11OutgoingPaymentOptions {
    Bolt11OutgoingPaymentOptions {
        bolt11: Bolt11Invoice {
            text: "lnbc1test".to_string(),
            payment_hash: [0x11; 32],
            amount_msat,
            expires_at: Some(99),
        },
        max_fee_amount: None,
        timeout_secs: None,
        melt_options: None,
        quote_id: "quote".to_string(),
    }
}

fn incoming(amount: Amount, unix_expiry: Option<u64>) -> IncomingPaymentOptions {
    IncomingPaymentOptions::Bolt11(Bolt11IncomingPaymentOptions {
        description: None,
        amount,
        unix_expiry,
    })
}

fn api<T>(operation: &str, source: &str) -> Result<T, PaymentError> {
    Err(PaymentError::Backend(Error::Api {
        operation: operation.to_string(),
        source: source.to_string(),
    }))
}

#[test]
fn settings_advertise_only_supported_capabilities() {
    let settings = settings_response();
    assert_eq!(settings.unit, "sat");
    assert_eq!(
        settings.bolt11,
        Some(Bolt11Settings {
            mpp: false,
            amountless: false,
            invoice_description: true,
        })
    );
    assert!(settings.bolt12.is_none());
    assert!(settings.onchain.is_none());
    assert!(settings.custom.is_empty());
    assert_eq!(backend().get_settings().unit, "sat");
}

#[test]
fn api_urls_are_normalized_for_the_lnbits_client() {
    assert_eq!(
        normalize_api_url(" https://lnbits.example.com "),
        "https://lnbits.example.com/"
    );
    assert_eq!(
        normalize_api_url("https://lnbits.example.com/api/v1/"),
        "https://lnbits.example.com/"
    );
    assert_eq!(
        normalize_api_url("https://example.com/lnbits/api/v1"),
        "https://example.com/lnbits/"
    );
}

#[test]
fn payment_hashes_require_exactly_32_bytes() {
    let hash = "11".repeat(32);
    assert_eq!(decode_payment_hash(&hash).unwrap(), [0x11; 32]);
    assert!(decode_payment_hash("11").is_err());
    assert!(decode_payment_hash(&"zz".repeat(32)).is_err());
}

#[test]
fn signed_magnitude_rejects_the_unrepresentable_edge_case() {
    assert_eq!(signed_magnitude(-42).unwrap(), 42);
    assert_eq!(signed_magnitude(42).unwrap(), 42);
    assert!(signed_magnitude(i64::MIN).is_err());
    assert_eq!(signed_magnitude(i64::MIN + 1).unwrap(), i64::MAX as u64);
}

#[test]
fn paid_outgoing_response_uses_preimage_and_rounds_up_to_sats() {
    let identifier = PaymentIdentifier::PaymentHash([0x11; 32]);
    let mut payment = payment(true, "success", -100_001, -1_001);
    let response = outgoing_payment_response(identifier.clone(), &payment).unwrap();

    assert_eq!(response.payment_lookup_id, identifier);
    assert_eq!(
        response.payment_proof.as_deref(),
        Some("top-level-preimage")
    );
    assert_eq!(response.status, MeltQuoteState::Paid);
    assert_eq!(response.total_spent, Amount::new(102, CurrencyUnit::Sat));

    payment.preimage = Some(String::new());
    let response =
        outgoing_payment_response(PaymentIdentifier::PaymentHash([0x11; 32]), &payment).unwrap();
    assert_eq!(response.payment_proof.as_deref(), Some("details-preimage"));
}

#[test]
fn unsettled_outgoing_responses_never_report_spend_or_proof() {
    for (lnbits_status, expected) in [
        ("pending", MeltQuoteState::Pending),
        ("failed", MeltQuoteState::Failed),
        ("unexpected", MeltQuoteState::Unknown),
    ] {
        let response = outgoing_payment_response(
            PaymentIdentifier::PaymentHash([0x11; 32]),
            &payment(false, lnbits_status, -100_000, -1_000),
        )
        .unwrap();

        assert_eq!(response.status, expected);
        assert!(response.payment_proof.is_none());
        assert_eq!(response.total_spent, Amount::new(0, CurrencyUnit::Sat));
    }
}

#[test]
fn incoming_response_requires_a_paid_positive_payment() {
    let payment_hash = "11".repeat(32);
    let response = incoming_payment_response(&payment_hash, &payment(true, "success", 100_001, 0))
        .unwrap()
        .unwrap();

    assert_eq!(
        response.payment_identifier,
        PaymentIdentifier::PaymentHash([0x11; 32])
    );
    assert_eq!(
        response.payment_amount,
        Amount::new(100_001, CurrencyUnit::Msat)
    );
    assert_eq!(response.payment_id, "checking-id");
    assert!(
        incoming_payment_response(&payment_hash, &payment(false, "pending", 100_001, 0))
            .unwrap()
            .is_none()
    );
    assert!(
        incoming_payment_response(&payment_hash, &payment(true, "success", -100_001, 0)).is_err()
    );
}

#[test]
fn retry_backoff_is_bounded() {
    let mut state = EventStreamState { retry_count: 0 };

    assert_eq!(state.retry_delay(), 1);
    state.retry_count = 3;
    assert_eq!(state.retry_delay(), 8);
    state.retry_count = u32::MAX;
    assert_eq!(state.retry_delay(), 10);
}

#[test]
fn defaults_match_the_documented_fee_reserve() {
    let config = BackendConfig::default();
    assert_eq!(config.fee_reserve_min_sat, 2);
    assert_eq!(f32::from_bits(config.fee_reserve_percent_bits), 0.02);
}

#[test]
fn debug_output_redacts_both_api_keys() {
    let config = valid_backend_config();
    let debug = format!("{:?}", config.redacted());

    assert!(!debug.contains("admin-key"));
    assert!(!debug.contains("invoice-key"));
    assert!(debug.contains("[REDACTED]"));
}

#[test]
fn validation_rejects_missing_credentials() {
    let error = BackendConfig::default().validate().unwrap_err();
    assert!(error.message().contains("admin_api_key"));
}

#[test]
fn validation_rejects_invalid_fee_percentages() {
    let mut config = valid_backend_config();
    config.fee_reserve_percent_bits = f32::NAN.to_bits();
    assert!(config.validate().is_err());

    config.fee_reserve_percent_bits = (-0.01_f32).to_bits();
    assert!(config.validate().is_err());
}

#[test]
fn fee_percentages_are_judged_as_numbers() {
    for percent in [
        0.0_f32,
        -0.0,
        0.02,
        1.0,
        f32::MAX,
        f32::MIN_POSITIVE,
        f32::from_bits(1),
        f32::INFINITY,
        f32::NEG_INFINITY,
        f32::MIN,
        -f32::MIN_POSITIVE,
        f32::from_bits(0x8000_0001),
        f32::from_bits(0x7F80_0001),
        f32::from_bits(0xFFFF_FFFF),
    ] {
        let mut config = valid_backend_config();
        config.fee_reserve_percent_bits = percent.to_bits();
        assert_eq!(
            config.validate().is_ok(),
            percent.is_finite() && percent >= 0.0,
            "{percent}"
        );
    }
}

fn unwritten() -> BackendConfigRepr {
    BackendConfigRepr {
        admin_api_key: "admin".to_string(),
        invoice_api_key: "invoice".to_string(),
        api_url: None,
        lnbits_api: None,
        fee_reserve_min_sat: None,
        reserve_fee_min: None,
        fee_reserve_percent_bits: None,
        fee_percent_bits: None,
    }
}

#[test]
fn legacy_backend_field_names_remain_accepted() {
    let config = BackendConfig::from_repr(BackendConfigRepr {
        lnbits_api: Some("https://lnbits.example.com/api/v1".to_string()),
        reserve_fee_min: Some(7),
        fee_percent_bits: Some(0.03_f32.to_bits()),
        ..unwritten()
    });
    assert_eq!(config.api_url, "https://lnbits.example.com/api/v1");
    assert_eq!(config.fee_reserve_min_sat, 7);
    assert_eq!(f32::from_bits(config.fee_reserve_percent_bits), 0.03);
}

#[test]
fn canonical_backend_fields_use_fee_defaults() {
    let config = BackendConfig::from_repr(BackendConfigRepr {
        api_url: Some("https://lnbits.example.com".to_string()),
        ..unwritten()
    });
    assert_eq!(config.fee_reserve_min_sat, 2);
    assert_eq!(f32::from_bits(config.fee_reserve_percent_bits), 0.02);
}

#[test]
fn canonical_backend_fields_take_precedence() {
    let config = BackendConfig::from_repr(BackendConfigRepr {
        api_url: Some("current".to_string()),
        lnbits_api: Some("former".to_string()),
        fee_reserve_min_sat: Some(1),
        reserve_fee_min: Some(2),
        fee_reserve_percent_bits: Some(3),
        fee_percent_bits: Some(4),
        ..unwritten()
    });
    assert_eq!(config.api_url, "current");
    assert_eq!(config.fee_reserve_min_sat, 1);
    assert_eq!(config.fee_reserve_percent_bits, 3);
    assert_eq!(BackendConfig::from_repr(unwritten()).api_url, "");
}

#[test]
fn only_an_untouched_configuration_is_default() {
    assert!(BackendConfig::default().is_default());
    assert!(!valid_backend_config().is_default());
    assert!(!BackendConfig { fee_reserve_min_sat: 3, ..BackendConfig::default() }.is_default());
    assert!(!BackendConfig { fee_reserve_percent_bits: 0, ..BackendConfig::default() }.is_default());
    let config = Config::default();
    assert!(config.lnbits.is_default());
    assert_eq!(config.port, 50051);
}

#[test]
fn each_missing_setting_is_named() {
    let mut config = valid_backend_config();
    config.api_url = " \t".to_string();
    assert_eq!(config.validate(), Err(InvalidSetting::ApiUrl));
    config.invoice_api_key = " ".to_string();
    assert_eq!(config.validate(), Err(InvalidSetting::InvoiceApiKey));
    assert_eq!(InvalidSetting::InvoiceApiKey.message(), "lnbits.invoice_api_key is required");
    let error = match LnbitsBackend::new(config) {
        Ok(_) => panic!("an invalid configuration must be refused"),
        Err(error) => error,
    };
    assert_eq!(
        error.message(),
        "invalid LNbits configuration: lnbits.invoice_api_key is required"
    );
    assert_eq!(
        InvalidSetting::FeeReservePercent.message(),
        "lnbits.fee_reserve_percent must be a finite, non-negative number"
    );
}

#[test]
fn statuses_are_read_whatever_their_case() {
    assert_eq!(lnbits_payment_state(&payment(false, " Success\n", 1, 0)), MeltQuoteState::Paid);
    assert_eq!(lnbits_payment_state(&payment(false, "FAILED", 1, 0)), MeltQuoteState::Failed);
    assert_eq!(lnbits_payment_state(&payment(true, "failed", 1, 0)), MeltQuoteState::Paid);
    assert_eq!(lnbits_payment_state(&payment(false, "", 1, 0)), MeltQuoteState::Unknown);
}

#[test]
fn amounts_that_cannot_be_represented_are_errors() {
    let id = PaymentIdentifier::PaymentHash([0x11; 32]);
    for (amount, fee) in [(i64::MIN, 0), (0, i64::MIN)] {
        assert_eq!(
            outgoing_payment_response(id.clone(), &payment(true, "success", amount, fee)),
            Err(PaymentError::Backend(Error::AmountOverflow))
        );
    }
    let most =
        outgoing_payment_response(id, &payment(true, "success", i64::MAX, i64::MAX)).unwrap();
    assert_eq!(most.total_spent.value, (2 * i64::MAX as u64).div_ceil(1000));
    assert_eq!(
        incoming_payment_response(&"11".repeat(32), &payment(true, "success", 0, 0)),
        Err(Error::InvalidIncomingAmount)
    );
    assert_eq!(
        incoming_payment_response("11", &payment(true, "success", 1, 0)),
        Err(Error::InvalidPaymentHash)
    );
    let mut unnamed = payment(true, "success", 1, 0);
    unnamed.details.checking_id = String::new();
    let response = incoming_payment_response(&"11".repeat(32), &unnamed).unwrap().unwrap();
    assert_eq!(response.payment_id, "11".repeat(32));
}

#[test]
fn invoices_are_asked_for_in_whole_satoshis() {
    assert_eq!(
        invoice_request_at(incoming(Amount::new(21, CurrencyUnit::Sat), Some(1_060)), 1_000),
        Ok(CreateInvoiceRequest {
            amount: 21,
            unit: "sat".to_string(),
            memo: Some(String::new()),
            expiry: Some(60),
            internal: None,
            out: false,
        })
    );
    let sat = |value| Amount::new(value, CurrencyUnit::Sat);
    assert_eq!(
        invoice_request_at(incoming(Amount::new(21, CurrencyUnit::Msat), None), 0),
        Err(PaymentError::UnsupportedUnit)
    );
    assert_eq!(
        invoice_request_at(incoming(sat(0), None), 0),
        Err(PaymentError::AmountMismatch)
    );
    assert_eq!(
        invoice_request_at(incoming(sat(1), Some(9)), 10),
        Err(PaymentError::InvalidExpiry)
    );
    assert_eq!(invoice_request_at(incoming(sat(1), Some(10)), 10).unwrap().expiry, Some(0));
    assert_eq!(
        invoice_request_at(IncomingPaymentOptions::Onchain, 0),
        Err(PaymentError::UnsupportedPaymentOption)
    );
    let now = cdk_common::util::unix_time();
    let request = backend()
        .create_incoming_payment_request(incoming(sat(5), Some(now + 100)))
        .unwrap();
    let expiry = request.expiry.unwrap();
    assert!(90 <= expiry && expiry <= 100);
    assert_eq!(
        backend().create_incoming_payment_request(incoming(sat(5), Some(1))),
        Err(PaymentError::InvalidExpiry)
    );
}

#[test]
fn created_invoices_must_match_the_reported_hash() {
    let parsed: cdk_common::Bolt11Invoice = INVOICE.parse().unwrap();
    let hash = parsed.payment_hash().to_string();
    let backend = backend();
    let created = backend
        .invoice_created(Ok(CreatedInvoice {
            bolt11: INVOICE.to_string(),
            payment_hash: hash.to_uppercase(),
        }))
        .unwrap();
    assert_eq!(created.request, INVOICE);
    assert_eq!(
        payment_hash_hex(&created.request_lookup_id),
        Ok(hash)
    );
    assert_eq!(created.expiry, parsed.expires_at().map(|at| at.as_secs()));
    let other = |bolt11: &str, payment_hash: &str| {
        backend.invoice_created(Ok(CreatedInvoice {
            bolt11: bolt11.to_string(),
            payment_hash: payment_hash.to_string(),
        }))
    };
    assert_eq!(
        other(INVOICE, &"11".repeat(32)),
        Err(PaymentError::Backend(Error::PaymentHashMismatch))
    );
    assert_eq!(other(INVOICE, "11"), Err(PaymentError::Backend(Error::InvalidPaymentHash)));
    assert!(matches!(other("lnbc", "11"), Err(PaymentError::Parse(_))));
    assert_eq!(
        backend.invoice_created(Err("refused".to_string())),
        api("create-invoice", "refused")
    );
    let matched = invoice_matched(options(Some(1)).bolt11, &"11".repeat(32)).unwrap();
    assert_eq!(matched.request, "lnbc1test");
    assert_eq!(matched.expiry, Some(99));
}

#[test]
fn quotes_reserve_the_greater_of_share_and_minimum() {
    let backend = backend();
    assert_eq!(backend.fee_reserve(1), 2);
    assert_eq!(backend.fee_reserve(200), 200);
    let quoted = OutgoingPaymentOptions::Bolt11(options(Some(10_000_000)));
    let amount = quote_amount_sat(&CurrencyUnit::Sat, &quoted).unwrap();
    assert_eq!(amount, 10_000);
    let percent = f32::from_bits(backend.fee_reserve_percent_bits);
    let relative = (percent * amount as f32) as u64;
    let quote = backend.get_payment_quote(&CurrencyUnit::Sat, &quoted, relative).unwrap();
    assert_eq!(quote.amount, Amount::new(10_000, CurrencyUnit::Sat));
    assert_eq!(quote.fee, Amount::new(200, CurrencyUnit::Sat));
    assert_eq!(quote.state, MeltQuoteState::Unpaid);
    assert_eq!(quote.request_lookup_id, Some(PaymentIdentifier::PaymentHash([0x11; 32])));
    assert_eq!(
        backend.get_payment_quote(&CurrencyUnit::Msat, &OutgoingPaymentOptions::Custom, 0),
        Err(PaymentError::UnsupportedUnit)
    );
    assert_eq!(
        backend.get_payment_quote(&CurrencyUnit::Sat, &OutgoingPaymentOptions::Custom, 0),
        Err(PaymentError::UnsupportedPaymentOption)
    );
    assert_eq!(ensure_sat_unit(&CurrencyUnit::Sat), Ok(()));
}

#[test]
fn invoices_must_name_an_amount_and_be_paid_whole() {
    assert_eq!(bolt11_amount_sat(&options(Some(1_001))), Ok(2));
    assert_eq!(
        bolt11_amount_sat(&options(None)),
        Err(PaymentError::Backend(Error::UnknownInvoiceAmount))
    );
    assert_eq!(bolt11_amount_sat(&options(Some(0))), Err(PaymentError::AmountMismatch));
    let mut partial = options(Some(1_000));
    partial.melt_options = Some(MeltOptions::Mpp { amount: 1 });
    assert_eq!(bolt11_amount_sat(&partial), Err(PaymentError::UnsupportedPaymentOption));
    assert_eq!(
        backend().make_payment(&CurrencyUnit::Sat, &OutgoingPaymentOptions::Bolt11(partial)),
        Err(PaymentError::UnsupportedPaymentOption)
    );
}

#[test]
fn payments_are_made_and_recovered() {
    let request = backend()
        .make_payment(
            &CurrencyUnit::Sat,
            &OutgoingPaymentOptions::Bolt11(options(Some(1_000))),
        )
        .unwrap();
    assert_eq!(request.invoice, "lnbc1test");
    assert_eq!(request.payment_hash_hex, "11".repeat(32));
    let hash = request.payment_hash;
    assert_eq!(pay_done(&hash, Ok("11".repeat(32))), Ok(PayStep::FetchStatus));
    assert_eq!(
        pay_done(&hash, Ok("12".repeat(32))),
        Err(PaymentError::Backend(Error::PaymentHashMismatch))
    );
    assert_eq!(
        pay_done(&hash, Ok("12".to_string())),
        Err(PaymentError::Backend(Error::InvalidPaymentHash))
    );
    assert_eq!(
        pay_done(&hash, Err("lost".to_string())),
        Ok(PayStep::Recover { source: "lost".to_string() })
    );
    for (status, expected) in [
        ("success", MeltQuoteState::Paid),
        ("pending", MeltQuoteState::Pending),
        ("unexpected", MeltQuoteState::Unknown),
    ] {
        let found = Some(payment(false, status, -1_000, 0));
        let answer = pay_recovered(&hash, "lost".to_string(), found).unwrap();
        assert_eq!(answer.status, expected);
        let asked = pay_status_fetched(&hash, Ok(payment(false, status, -1_000, 0))).unwrap();
        assert_eq!(answer, asked);
    }
    let failed = Some(payment(false, "failed", -1_000, 0));
    assert_eq!(pay_recovered(&hash, "lost".to_string(), failed), api("pay-invoice", "lost"));
    assert_eq!(pay_recovered(&hash, "lost".to_string(), None), api("pay-invoice", "lost"));
    assert_eq!(
        pay_status_fetched(&hash, Err("down".to_string())),
        api("payment-status", "down")
    );
}

#[test]
fn statuses_are_looked_up_by_hash() {
    let backend = backend();
    let id = PaymentIdentifier::PaymentHash([0x11; 32]);
    assert_eq!(backend.check_incoming_payment_status(&id), Ok("11".repeat(32)));
    assert_eq!(backend.check_outgoing_payment(&id), Ok("11".repeat(32)));
    for other in [
        PaymentIdentifier::PaymentId([1; 32]),
        PaymentIdentifier::Label("x".to_string()),
    ] {
        assert_eq!(
            backend.check_incoming_payment_status(&other),
            Err(PaymentError::Backend(Error::UnsupportedPaymentIdentifier))
        );
        assert_eq!(
            backend.check_outgoing_payment(&other),
            Err(PaymentError::Backend(Error::UnsupportedPaymentIdentifier))
        );
    }
    let hash = "11".repeat(32);
    let answer = backend
        .incoming_payment_fetched(&hash, Ok(payment(true, "success", 8_000_000, 0)))
        .unwrap()
        .unwrap();
    assert_eq!(answer.payment_identifier, id);
    assert_eq!(answer.payment_amount, Amount::new(8_000_000, CurrencyUnit::Msat));
    assert_eq!(
        backend.incoming_payment_fetched(&hash, Err("down".to_string())),
        api("incoming-payment-status", "down")
    );
    assert_eq!(
        backend.incoming_payment_fetched(&hash, Ok(payment(true, "success", -1, 0))),
        Err(PaymentError::Backend(Error::InvalidIncomingAmount))
    );
    let answer =
        backend.outgoing_payment_fetched(&id, Ok(payment(true, "", -6_000_000, 0))).unwrap();
    assert_eq!(answer.total_spent, Amount::new(6_000, CurrencyUnit::Sat));
    assert_eq!(
        backend.outgoing_payment_fetched(&id, Err("down".to_string())),
        api("outgoing-payment-status", "down")
    );
}

#[test]
fn one_stream_reads_events_at_a_time() {
    let mut backend = backend();
    assert_eq!(backend.ensure_started(), StartStep::CheckWallet);
    assert_eq!(
        LnbitsBackend::wallet_checked(Err("no".to_string())),
        Err(Error::Api { operation: "wallet-info".to_string(), source: "no".to_string() })
    );
    assert_eq!(LnbitsBackend::wallet_checked(Ok(())), Ok(()));
    assert_eq!(backend.subscribe_websocket(false), Err(Error::WebsocketConnection));
    assert!(!backend.started);
    assert_eq!(backend.subscribe_websocket(true), Ok(()));
    assert_eq!(backend.ensure_started(), StartStep::Ready);
    assert_eq!(backend.wait_payment_event(), Ok(()));
    assert!(backend.is_payment_event_stream_active());
    assert_eq!(backend.wait_payment_event(), Err(Error::EventStreamAlreadyActive));
    backend.event_stream_ended();
    assert_eq!(backend.wait_payment_event(), Ok(()));
    backend.stop();
    assert!(!backend.is_payment_event_stream_active());
    assert!(backend.events_cancelled);
}

#[test]
fn closed_websockets_are_reopened_with_growing_pauses() {
    let mut stream = EventStreamState::new();
    for pause in [1, 2, 4, 8, 10, 10] {
        assert_eq!(stream.heard(StreamInput::Closed), StreamStep::Pause(pause));
        assert_eq!(stream.paused(false), StreamStep::Subscribe);
        stream.reconnected(false);
    }
    stream.reconnected(true);
    assert_eq!(stream.retry_count, 0);
    stream.reconnected(false);
    assert_eq!(
        stream.heard(StreamInput::Notification("hash".to_string())),
        StreamStep::Fetch("hash".to_string())
    );
    assert_eq!(stream.retry_count, 0);
    assert_eq!(stream.paused(true), StreamStep::Stop);
    assert_eq!(stream.heard(StreamInput::Cancelled), StreamStep::Stop);
    let mut worn = EventStreamState { retry_count: u32::MAX };
    worn.reconnected(false);
    assert_eq!(worn.retry_count, u32::MAX);
}

#[test]
fn notifications_of_settled_incoming_payments_are_events() {
    let hash = "11".repeat(32);
    let event =
        process_websocket_message(&hash, &Some(payment(true, "success", 5_000, 0))).unwrap();
    let Event::PaymentReceived(response) = event else { panic!("expected incoming") };
    assert_eq!(response.payment_amount, Amount::new(5_000, CurrencyUnit::Msat));
    assert!(process_websocket_message(&hash, &None).is_none());
    assert!(
        process_websocket_message(&hash, &Some(payment(false, "pending", 5_000, 0))).is_none()
    );
    assert!(
        process_websocket_message(&hash, &Some(payment(true, "success", -5_000, 0))).is_none()
    );
}

#[test]
fn errors_are_put_into_words() {
    let words = |error: Error<String>| error.message();
    assert_eq!(words(Error::Client("bad".to_string())), "failed to create LNbits client: bad");
    assert_eq!(
        words(Error::Api { operation: "pay-invoice".to_string(), source: "lost".to_string() }),
        "LNbits pay-invoice request failed: lost"
    );
    assert_eq!(words(Error::WebsocketConnection), "failed to connect to the LNbits websocket");
    assert_eq!(words(Error::UnknownInvoiceAmount), "invoice amount is required");
    assert_eq!(words(Error::AmountOverflow), "LNbits payment amount overflow");
    assert_eq!(words(Error::InvalidPaymentHash), "invalid LNbits payment hash");
    assert_eq!(
        words(Error::PaymentHashMismatch),
        "LNbits response payment hash does not match the invoice"
    );
    assert_eq!(
        words(Error::UnsupportedPaymentIdentifier),
        "unsupported LNbits payment identifier type"
    );
    assert_eq!(
        words(Error::EventStreamAlreadyActive),
        "an LNbits payment event stream is already active"
    );
    assert_eq!(
        words(Error::InvalidIncomingAmount),
        "LNbits incoming payment has an invalid amount or direction"
    );
}
