use base64::Engine;
use cdk_payment_processors::lexe::backend::{map_payment_event, Error, InvoiceRequest, LexeBackend};
use cdk_payment_processors::lexe::client::{
    decode_client_credentials, parse_payment_index, wallet_env_config, CredentialsError,
    NodeErrorKind, Payment, PaymentDirection, PaymentStatus, SubmissionError, WalletEnvironment,
};
use cdk_payment_processors::lexe::database::{QuoteDatabase, QuoteTables};
use cdk_payment_processors::lexe::settings::{
    validate, wallet_credentials, BackendConfig, Config, ConfigError, WalletCredentials,
};
use cdk_payment_processors::payment::{
    Amount, Bolt11IncomingPaymentOptions, Bolt11Invoice, Bolt11Settings, CurrencyUnit, Event,
    IncomingPaymentOptions, MeltQuoteState, PaymentIdentifier,
};
use lexe::types::bitcoin::Amount as LexeAmount;
use lexe_api_core::error::{ApiErrorKind, NodeErrorKind as ApiNodeErrorKind};

const INVOICE: &str = "lnbc100n1p5z3a63pp56854ytysg7e5z9fl3w5mgvrlqjfcytnjv8ff5hm5qt6gl6alxesqdqqcqzzsxqyz5vqsp5p0x0dlhn27s63j4emxnk26p7f94u0lyarnfp5yqmac9gzy4ngdss9qxpqysgqne3v0hnzt2lp0hc69xpzckk0cdcar7glvjhq60lsrfe8gejdm8c564prrnsft6ctxxyrewp4jtezrq3gxxqnfjj0f9tw2qs9y0lslmqpfu7et9";
const INDEX: &str =
    "0002683862736062841-ln_3ddc5b1e2a9c8f0e1d2b4a6c8e0f1d3b5a7c9e1f2d4b6a8c0e2f4a6c8d0b2e4f";

fn database() -> QuoteDatabase {
    QuoteDatabase::new(QuoteTables::empty(true))
}

fn backend() -> LexeBackend {
    LexeBackend {
        db: database(),
        fee_reserve_ppm: 10_000,
        fee_reserve_min_sat: 2,
        payment_timeout_secs: 10,
    }
}

fn test_payment(
    direction: PaymentDirection,
    status: PaymentStatus,
    hash: [u8; 32],
    amount_sats: u64,
    fees_sats: u64,
    status_msg: &str,
) -> Payment {
    Payment {
        index: INDEX.to_string(),
        updated_index: INDEX.to_string(),
        direction,
        hash: Some(hash),
        preimage: Some([9; 32]),
        amount_msat: Some(amount_sats * 1_000),
        fees_msat: fees_sats * 1_000,
        status,
        status_msg: status_msg.to_string(),
    }
}

#[test]
fn fee_estimate_uses_ppm_and_minimum() {
    // 100 ppm of 1000 sats = 0.1 sats -> ceil to 1.
    assert_eq!(LexeBackend::estimate_fee_sats(1000, 100, 1), 1);
    // 100 ppm of 50000 sats = 5 sats.
    assert_eq!(LexeBackend::estimate_fee_sats(50000, 100, 1), 5);
    // Minimum applies below the computed value.
    assert_eq!(LexeBackend::estimate_fee_sats(10, 100, 1), 1);
    // 1000 ppm (0.1%) of 100 sats = 0.1 -> rounds up to 1.
    assert_eq!(LexeBackend::estimate_fee_sats(100, 1000, 1), 1);
    // 1000 ppm of 10000 sats = 10.
    assert_eq!(LexeBackend::estimate_fee_sats(10000, 1000, 1), 10);
    // Zero amount still costs at least the minimum.
    assert_eq!(LexeBackend::estimate_fee_sats(0, 100, 2), 2);
}

#[test]
fn fee_estimates_saturate() {
    assert_eq!(LexeBackend::estimate_fee_sats(u64::MAX, u32::MAX, 0), u64::MAX);
    assert_eq!(LexeBackend::estimate_fee_sats(u64::MAX, 1_000_000, 0), u64::MAX);
    assert_eq!(LexeBackend::estimate_fee_sats(1, 1, 0), 1);
}

#[test]
fn invoice_amount_is_whole_sats() {
    // lnbc100n = 10 sats = 10_000 msat.
    let invoice = Bolt11Invoice::parse(INVOICE).expect("valid invoice");
    assert_eq!(
        LexeBackend::invoice_amount_sats(&invoice).expect("whole-sat amount"),
        10
    );
}

#[test]
fn fractional_absent_and_zero_amounts_are_refused() {
    let mut invoice = Bolt11Invoice::parse(INVOICE).unwrap();
    for amount_msat in [None, Some(0), Some(999), Some(10_001)] {
        invoice.amount_msat = amount_msat;
        assert_eq!(
            LexeBackend::invoice_amount_sats(&invoice),
            Err(Error::AmountMismatch)
        );
    }
}

#[test]
fn invoices_are_read_as_their_crate_reads_them() {
    let invoice = Bolt11Invoice::parse(INVOICE).unwrap();
    let parsed: cdk_common::Bolt11Invoice = INVOICE.parse().unwrap();
    assert_eq!(invoice.text, parsed.to_string());
    assert_eq!(hex::encode(invoice.payment_hash), parsed.payment_hash().to_string());
    assert_eq!(invoice.amount_msat, parsed.amount_milli_satoshis());
    assert_eq!(invoice.expires_at, parsed.expires_at().map(|at| at.as_secs()));
    assert!(Bolt11Invoice::parse("not an invoice").is_err());
}

#[test]
fn maps_lex_statuses_to_melt_states() {
    assert_eq!(
        LexeBackend::melt_status(PaymentStatus::Completed),
        MeltQuoteState::Paid
    );
    assert_eq!(
        LexeBackend::melt_status(PaymentStatus::Failed),
        MeltQuoteState::Failed
    );
    assert_eq!(
        LexeBackend::melt_status(PaymentStatus::Pending),
        MeltQuoteState::Pending
    );
}

#[test]
fn payment_index_round_trips_through_string() {
    // Index strings are "<19-digit-timestamp>-ln_<64-hex>".
    let raw = "0002683862736062841-ln_3ddc5b1e2a9c8f0e1d2b4a6c8e0f1d3b5a7c9e1f2d4b6a8c0e2f4a6c8d0b2e4f";
    let index = parse_payment_index(raw).expect("valid index string");
    assert_eq!(index.to_string(), raw);
}

#[test]
fn malformed_payment_index_rejected() {
    assert!(parse_payment_index("not-an-index").is_err());
    assert!(parse_payment_index("0002683862736062841-").is_err());
}

#[test]
fn malformed_stored_indexes_are_named() {
    let error = LexeBackend::fetch_payment("not-an-index").unwrap_err();
    let Error::Custom(words) = error else { panic!("expected words") };
    assert!(words.starts_with("invalid stored Lexe payment index `not-an-index`: "));
    assert_eq!(LexeBackend::fetch_payment(INDEX), Ok(INDEX.to_string()));
    assert_eq!(
        LexeBackend::index_or_error("x", Err("why".to_string())),
        Err(Error::Custom("invalid stored Lexe payment index `x`: why".to_string()))
    );
}

#[test]
fn client_credentials_reject_invalid_base64() {
    assert!(decode_client_credentials("!!!not-base64!!!").is_err());
    assert_eq!(
        decode_client_credentials("!!!not-base64!!!").err(),
        Some(CredentialsError::NotBase64)
    );
}

#[test]
fn client_credentials_reject_non_json_payload() {
    let b64 = base64::engine::general_purpose::STANDARD.encode("this is not json");
    assert!(decode_client_credentials(&b64).is_err());
    assert_eq!(
        decode_client_credentials(&b64).err(),
        Some(CredentialsError::NotCredentials)
    );
}

#[test]
fn client_credentials_are_read_from_a_trimmed_padded_blob() {
    // The first key pair of the test vectors of RFC 8032.
    let seed = "9d61b19deffd5a60ba844af492ec2cc44449c5697b326919703bac031cae7f60";
    let public = "d75a980182b10ab7d54bfed3c964073a0ee172f3daa62325af021a68f707511a";
    let der = format!("3051020101300506032b657004220420{seed}812100{public}");
    let json = format!(
        "{{\"client_pk\":\"{public}\",\"rev_client_key_der\":\"{der}\",\
         \"rev_client_cert_der\":\"00\",\"eph_ca_cert_der\":\"01\"}}"
    );
    let blob = base64::engine::general_purpose::STANDARD.encode(json);
    let credentials = match decode_client_credentials(&format!("  {blob}\n")) {
        Ok(credentials) => credentials,
        Err(error) => panic!("{}", error.message()),
    };
    assert_eq!(credentials.client_pk().to_string(), public);
}

#[test]
fn inbound_completed_payment_becomes_payment_received() {
    let mut db = database();
    let hash = [7_u8; 32];
    db.insert_mint_quote_and_payment_id(&hash, "lnbc1incoming-invoice", "0001-ln_test");

    let payment = test_payment(
        PaymentDirection::Inbound,
        PaymentStatus::Completed,
        hash,
        21_000,
        0,
        "received",
    );
    match map_payment_event(&mut db, &payment)
        .unwrap()
        .expect("event for our completed inbound payment")
    {
        Event::PaymentReceived(response) => {
            assert_eq!(
                response.payment_identifier,
                PaymentIdentifier::PaymentHash(hash)
            );
            assert_eq!(
                response.payment_amount.to_sat().expect("sat amount"),
                21_000
            );
        }
        other => panic!("expected PaymentReceived, got {other:?}"),
    }
}

#[test]
fn inbound_payments_we_did_not_create_or_pending_are_ignored() {
    let mut db = database();
    let ours = [10_u8; 32];
    let foreign = [11_u8; 32];
    db.insert_mint_quote_and_payment_id(&ours, "lnbc1incoming-invoice", "0001-ln_test");

    // Settled, but for an invoice this processor did not create.
    let foreign_payment = test_payment(
        PaymentDirection::Inbound,
        PaymentStatus::Completed,
        foreign,
        21_000,
        0,
        "received",
    );
    assert!(map_payment_event(&mut db, &foreign_payment).unwrap().is_none());

    // Our invoice, but not settled yet.
    let pending = test_payment(
        PaymentDirection::Inbound,
        PaymentStatus::Pending,
        ours,
        21_000,
        0,
        "pending",
    );
    assert!(map_payment_event(&mut db, &pending).unwrap().is_none());
}

#[test]
fn outbound_completed_payment_becomes_payment_successful() {
    let mut db = database();
    let hash = [8_u8; 32];
    let quote_id = "018f8b3e-8c1a-7d2e-9f4b-6a1c3e5d7f90";
    assert!(db.begin_melt_attempt(&hash, quote_id, &CurrencyUnit::Sat));

    let payment = test_payment(
        PaymentDirection::Outbound,
        PaymentStatus::Completed,
        hash,
        5_000,
        3,
        "settled",
    );
    match map_payment_event(&mut db, &payment)
        .unwrap()
        .expect("event for our settled outbound payment")
    {
        Event::PaymentSuccessful { quote_id: event_quote_id, details } => {
            assert_eq!(event_quote_id, quote_id);
            assert_eq!(details.status, MeltQuoteState::Paid);
            // 5000 sats principal + 3 sats fee
            assert_eq!(details.total_spent.to_sat().expect("sat amount"), 5_003);
            assert!(details.payment_proof.is_some());
        }
        other => panic!("expected PaymentSuccessful, got {other:?}"),
    }
    assert_eq!(db.get_melt_payment_id(&hash), Some(INDEX.to_string()));
}

#[test]
fn outbound_failed_payment_becomes_payment_failed() {
    let mut db = database();
    let hash = [9_u8; 32];
    let quote_id = "018f8b3e-8c1a-7d2e-9f4b-6a1c3e5d7f91";
    assert!(db.begin_melt_attempt(&hash, quote_id, &CurrencyUnit::Sat));

    let payment = test_payment(
        PaymentDirection::Outbound,
        PaymentStatus::Failed,
        hash,
        5_000,
        0,
        "timed out",
    );
    match map_payment_event(&mut db, &payment)
        .unwrap()
        .expect("event for our failed outbound payment")
    {
        Event::PaymentFailed { quote_id: event_quote_id, reason } => {
            assert_eq!(event_quote_id, quote_id);
            assert_eq!(reason, "timed out");
        }
        other => panic!("expected PaymentFailed, got {other:?}"),
    }
}

#[test]
fn outbound_pending_payment_is_ignored_until_terminal() {
    let mut db = database();
    let hash = [12_u8; 32];
    let quote_id = "018f8b3e-8c1a-7d2e-9f4b-6a1c3e5d7f92";
    assert!(db.begin_melt_attempt(&hash, quote_id, &CurrencyUnit::Sat));

    let payment = test_payment(
        PaymentDirection::Outbound,
        PaymentStatus::Pending,
        hash,
        5_000,
        0,
        "in flight",
    );
    assert!(map_payment_event(&mut db, &payment).unwrap().is_none());
}

#[test]
fn completed_inbound_without_amount_is_an_error() {
    let mut db = database();
    let hash = [14_u8; 32];
    db.insert_mint_quote_and_payment_id(&hash, "lnbc1incoming-invoice", "0001-ln_test");

    let mut payment = test_payment(
        PaymentDirection::Inbound,
        PaymentStatus::Completed,
        hash,
        21_000,
        0,
        "received",
    );
    payment.amount_msat = None;

    assert!(
        map_payment_event(&mut db, &payment).is_err(),
        "a settled inbound payment without an amount must not be emitted as zero"
    );
}

#[test]
fn completed_outbound_without_amount_is_an_error() {
    let mut db = database();
    let hash = [15_u8; 32];
    let quote_id = "018f8b3e-8c1a-7d2e-9f4b-6a1c3e5d7f92";
    assert!(db.begin_melt_attempt(&hash, quote_id, &CurrencyUnit::Sat));

    let mut payment = test_payment(
        PaymentDirection::Outbound,
        PaymentStatus::Completed,
        hash,
        5_000,
        3,
        "settled",
    );
    payment.amount_msat = None;

    assert!(
        map_payment_event(&mut db, &payment).is_err(),
        "a settled outbound payment without an amount must not settle at zero"
    );
}

#[test]
fn payments_without_hash_or_of_information_are_ignored() {
    let mut db = database();
    let mut payment = test_payment(
        PaymentDirection::Info,
        PaymentStatus::Completed,
        [1; 32],
        1,
        0,
        "",
    );
    assert_eq!(map_payment_event(&mut db, &payment), Ok(None));
    payment.direction = PaymentDirection::Outbound;
    assert_eq!(map_payment_event(&mut db, &payment), Ok(None));
    payment.hash = None;
    assert_eq!(map_payment_event(&mut db, &payment), Ok(None));
}

#[test]
fn outgoing_response_paid_reports_amount_plus_fees() {
    let payment = test_payment(
        PaymentDirection::Outbound,
        PaymentStatus::Completed,
        [16_u8; 32],
        5_000,
        3,
        "settled",
    );
    let response = LexeBackend::outgoing_response(
        PaymentIdentifier::PaymentHash([16_u8; 32]),
        &CurrencyUnit::Sat,
        &payment,
    )
    .expect("paid melt with an amount is reported");
    assert_eq!(response.status, MeltQuoteState::Paid);
    assert_eq!(response.total_spent.to_sat().expect("sat unit"), 5_003);
    assert!(response.payment_proof.is_some());
    assert_eq!(response.payment_proof, Some("09".repeat(32)));
}

#[test]
fn outgoing_response_paid_without_amount_is_an_error() {
    let mut payment = test_payment(
        PaymentDirection::Outbound,
        PaymentStatus::Completed,
        [17_u8; 32],
        5_000,
        3,
        "settled",
    );
    payment.amount_msat = None;

    assert!(LexeBackend::outgoing_response(
        PaymentIdentifier::PaymentHash([17_u8; 32]),
        &CurrencyUnit::Sat,
        &payment,
    )
    .is_err());
    payment.amount_msat = Some(u64::MAX);
    assert_eq!(
        LexeBackend::outgoing_response(
            PaymentIdentifier::PaymentHash([17_u8; 32]),
            &CurrencyUnit::Sat,
            &payment,
        ),
        Err(Error::Custom("Lexe payment total overflow".to_string()))
    );
}

#[test]
fn fractional_principal_and_fee_are_summed_before_rounding() {
    let mut paid = test_payment(
        PaymentDirection::Outbound,
        PaymentStatus::Completed,
        [1; 32],
        10,
        0,
        "settled",
    );
    for (principal, fee, sats) in [(10_000, 500, 11), (10_500, 500, 11), (10_500, 600, 12)] {
        paid.amount_msat = Some(principal);
        paid.fees_msat = fee;
        let result = LexeBackend::outgoing_response(
            PaymentIdentifier::PaymentHash([1; 32]),
            &CurrencyUnit::Sat,
            &paid,
        )
        .unwrap();
        assert_eq!(result.total_spent, Amount::new(sats, CurrencyUnit::Sat));
        let legacy = LexeBackend::outgoing_response(
            PaymentIdentifier::PaymentHash([1; 32]),
            &CurrencyUnit::Msat,
            &paid,
        )
        .unwrap();
        assert_eq!(
            legacy.total_spent,
            Amount::new(principal + fee, CurrencyUnit::Msat)
        );
    }
}

fn incoming(amount: Amount, unix_expiry: Option<u64>) -> IncomingPaymentOptions {
    IncomingPaymentOptions::Bolt11(Bolt11IncomingPaymentOptions {
        description: Some("tea".to_string()),
        amount,
        unix_expiry,
    })
}

#[test]
fn invoices_are_requested_with_a_future_expiry() {
    let sat = |value| Amount::new(value, CurrencyUnit::Sat);
    assert_eq!(
        LexeBackend::invoice_request_at(incoming(sat(21), Some(1_060)), 1_000),
        Ok(InvoiceRequest {
            amount_msat: 21_000,
            description: "tea".to_string(),
            expiration_secs: Some(60),
        })
    );
    for expiry in [999, 1_000, 1_001 + u64::from(u32::MAX)] {
        assert_eq!(
            LexeBackend::invoice_request_at(incoming(sat(21), Some(expiry)), 1_000),
            Err(Error::InvalidExpiry)
        );
    }
    assert_eq!(
        LexeBackend::invoice_request_at(incoming(sat(0), None), 0),
        Err(Error::AmountMismatch)
    );
    assert_eq!(
        LexeBackend::invoice_request_at(incoming(Amount::new(1, CurrencyUnit::Msat), None), 0),
        Err(Error::UnsupportedUnit)
    );
    assert_eq!(
        LexeBackend::invoice_request_at(IncomingPaymentOptions::Custom, 0),
        Err(Error::UnsupportedPaymentOption)
    );
    let error = LexeBackend::invoice_request_at(incoming(sat(u64::MAX), None), 0).unwrap_err();
    let Error::Custom(words) = error else { panic!("expected words") };
    assert!(words.starts_with("invalid invoice amount: "));
    let now = cdk_common::util::unix_time();
    let request = backend()
        .create_incoming_payment_request(incoming(sat(5), Some(now + 100)))
        .unwrap();
    let secs = request.expiration_secs.unwrap();
    assert!(90 <= secs && secs <= 100);
}

#[test]
fn amounts_are_counted_as_the_sdk_counts_them() {
    for sats in [1_u64, 21, 2_100_000_000_000_000, 2_100_000_000_000_001] {
        let expected = LexeAmount::try_from_sats_u64(sats).map(|amount| amount.msat()).ok();
        let options = incoming(Amount::new(sats, CurrencyUnit::Sat), None);
        let got = LexeBackend::invoice_request_at(options, 0).map(|request| request.amount_msat);
        assert_eq!(got.ok(), expected);
    }
    let mut db = database();
    db.insert_mint_quote(&[1; 32], "invoice");
    for msat in [1_u64, 999, 1_000, 1_999, 21_500] {
        let mut payment = test_payment(
            PaymentDirection::Inbound,
            PaymentStatus::Completed,
            [1; 32],
            0,
            0,
            "",
        );
        payment.amount_msat = Some(msat);
        let Some(Event::PaymentReceived(response)) = map_payment_event(&mut db, &payment).unwrap()
        else {
            panic!("expected incoming")
        };
        assert_eq!(response.payment_amount.value, LexeAmount::from_msat(msat).sats_u64());
    }
}

#[test]
fn created_invoices_are_remembered_under_their_hash() {
    let mut backend = backend();
    let created = backend.invoice_created(INVOICE, INDEX, Some(5)).unwrap();
    let hash = Bolt11Invoice::parse(INVOICE).unwrap().payment_hash;
    assert_eq!(created.request_lookup_id, PaymentIdentifier::PaymentHash(hash));
    assert_eq!(created.request, INVOICE);
    assert_eq!(created.expiry, Some(5));
    assert_eq!(backend.db.get_mint_quote(&hash), Some(INVOICE.to_string()));
    assert_eq!(backend.db.get_mint_payment_id(&hash), Some(INDEX.to_string()));
    assert!(matches!(
        backend.invoice_created("nonsense", INDEX, None),
        Err(Error::Parse(_))
    ));

    let id = PaymentIdentifier::PaymentHash(hash);
    assert_eq!(backend.check_incoming_payment_status(&id), Ok(Some(INDEX.to_string())));
    assert_eq!(
        backend.check_incoming_payment_status(&PaymentIdentifier::PaymentHash([1; 32])),
        Ok(None)
    );
    assert_eq!(
        backend.check_incoming_payment_status(&PaymentIdentifier::Label("x".to_string())),
        Err(Error::UnsupportedPaymentOption)
    );
    let payment = test_payment(
        PaymentDirection::Inbound,
        PaymentStatus::Completed,
        hash,
        10,
        0,
        "",
    );
    let answer = LexeBackend::incoming_payment_fetched(&id, Some(payment)).unwrap().unwrap();
    assert_eq!(answer.payment_amount, Amount::new(10, CurrencyUnit::Sat));
    assert_eq!(answer.payment_id, INDEX);
    assert_eq!(LexeBackend::incoming_payment_fetched(&id, None), Ok(None));
    let mut unknown = test_payment(
        PaymentDirection::Inbound,
        PaymentStatus::Completed,
        hash,
        10,
        0,
        "",
    );
    unknown.amount_msat = None;
    assert_eq!(
        LexeBackend::incoming_payment_fetched(&id, Some(unknown)),
        Err(Error::Custom(format!(
            "inbound payment {INDEX} is completed but its amount cannot be determined"
        )))
    );
}

#[test]
fn lexe_settings_advertise_bolt11_in_satoshis() {
    let settings = backend().get_settings();
    assert_eq!(settings.unit, "sat");
    assert_eq!(
        settings.bolt11,
        Some(Bolt11Settings { mpp: false, amountless: false, invoice_description: true })
    );
    assert!(settings.bolt12.is_none());
    assert!(settings.onchain.is_none());
    assert!(settings.custom.is_empty());
}

#[test]
fn only_some_node_errors_prove_a_rejection() {
    for code in 0..300_u16 {
        let kind = ApiNodeErrorKind::from_code(code);
        let rejected = matches!(
            kind,
            ApiNodeErrorKind::Building
                | ApiNodeErrorKind::Connect
                | ApiNodeErrorKind::Rejection
                | ApiNodeErrorKind::ClientAuth
                | ApiNodeErrorKind::InsufficientScope
                | ApiNodeErrorKind::BadAuth
        );
        let ours = NodeErrorKind::from_code(code);
        let words = "words".to_string();
        let expected = if rejected {
            SubmissionError::Rejected(words)
        } else {
            SubmissionError::Ambiguous(words)
        };
        assert_eq!(SubmissionError::from_node_error(ours, "words".to_string()), expected);
        let known = !matches!(kind, ApiNodeErrorKind::Unknown(_));
        assert_eq!(known, !matches!(ours, NodeErrorKind::Unknown(_)), "{code}");
    }
}

#[test]
fn networks_name_their_environment() {
    assert_eq!(wallet_env_config("MainNet"), Ok(WalletEnvironment::Mainnet));
    assert_eq!(wallet_env_config("testnet3"), Ok(WalletEnvironment::Testnet3));
    assert_eq!(wallet_env_config("testnet"), Ok(WalletEnvironment::Testnet3));
    assert_eq!(wallet_env_config("regtest"), Ok(WalletEnvironment::Regtest));
    assert_eq!(wallet_env_config("Signet"), Err("invalid network `signet`".to_string()));
}

const SEED: &str = "abandon abandon abandon abandon abandon abandon abandon abandon abandon abandon abandon about";

fn config(credentials: Option<&str>, seed: Option<&str>, network: &str) -> Config {
    Config {
        lexe: BackendConfig {
            client_credentials: credentials.map(str::to_string),
            seed_phrase: seed.map(str::to_string),
            network: network.to_string(),
            ..BackendConfig::default()
        },
        ..Config::default()
    }
}

#[test]
fn load_defaults_without_credentials_fails_validation() {
    let err = validate(&Config::default()).unwrap_err().message();
    assert!(err.contains("missing credentials"), "unexpected error: {err}");
}

#[test]
fn client_credentials_accepted() {
    let cfg = config(Some("dGVzdA=="), None, "mainnet");
    validate(&cfg).expect("should load with client credentials");
    assert_eq!(cfg.lexe.client_credentials.as_deref(), Some("dGVzdA=="));
    assert_eq!(Config::default().lexe.network, "mainnet");
    assert_eq!(cfg.lexe.data_dir, ".data/lexe");
    assert_eq!(cfg.lexe.fee_reserve_ppm, 100);
    assert_eq!(cfg.lexe.fee_reserve_min_sat, 1);
    assert_eq!(cfg.lexe.payment_timeout_secs, 300);
    assert!(matches!(
        wallet_credentials(&cfg.lexe),
        Ok(WalletCredentials::Client(blob)) if blob == "dGVzdA=="
    ));
}

#[test]
fn seed_phrase_accepted() {
    let cfg = config(None, Some(SEED), "mainnet");
    validate(&cfg).expect("should load with seed phrase");
    assert!(cfg.lexe.client_credentials.is_none());
    assert!(cfg.lexe.seed_phrase.is_some());
    assert!(matches!(
        wallet_credentials(&cfg.lexe),
        Ok(WalletCredentials::Seed(seed)) if seed == SEED
    ));
}

#[test]
fn both_credentials_rejected() {
    let err = validate(&config(Some("dGVzdA=="), Some(SEED), "mainnet")).unwrap_err().message();
    assert!(err.contains("not both"), "unexpected error: {err}");
}

#[test]
fn invalid_network_rejected() {
    let err = validate(&config(Some("dGVzdA=="), None, "signet")).unwrap_err();
    assert_eq!(err, ConfigError::InvalidNetwork("signet".to_string()));
    let err = err.message();
    assert!(err.contains("invalid LEXE_NETWORK"), "unexpected error: {err}");
    assert_eq!(
        err,
        "invalid LEXE_NETWORK `signet`; expected one of: mainnet, testnet3, regtest"
    );
}

#[test]
fn blank_credentials_are_missing_and_shown_configurations_hold_none() {
    let blank = config(Some(" \n"), Some(""), "mainnet");
    assert_eq!(validate(&blank), Err(ConfigError::MissingCredentials));
    assert_eq!(validate(&config(Some("x"), Some(" "), "REGTEST")), Ok(()));
    let shown = format!("{:?}", config(Some("dGVzdA=="), Some(SEED), "mainnet").lexe.redacted());
    assert!(!shown.contains("dGVzdA=="));
    assert!(!shown.contains("abandon"));
}
