use cdk_payment_processors::lexe::backend::{
    map_payment_event, AfterSettlement, AfterSubmission, CheckStep, Error, LexeBackend,
    PaymentStep, SearchStep, SettlementOutcome, SubmissionOutcome,
};
use cdk_payment_processors::lexe::client::{
    NodeErrorKind, Payment, PaymentDirection, PaymentStatus, SubmissionError,
};
use cdk_payment_processors::lexe::database::{MeltAttempt, QuoteDatabase, QuoteTables, Table};
use cdk_payment_processors::lexe::events::{
    is_payment_event_stream_active, EventPoller, PaymentEventStreamActivity, EVENT_PAGE_SIZE,
    RECOVERY_PAGE_SIZE,
};
use cdk_payment_processors::payment::{
    Amount, Bolt11IncomingPaymentOptions, Bolt11Invoice, Bolt11OutgoingPaymentOptions,
    CurrencyUnit, Event, IncomingPaymentOptions, MakePaymentResponse, MeltOptions, MeltQuoteState,
    OutgoingPaymentOptions, PaymentIdentifier,
};

const INVOICE: &str = "lnbc100n1p5z3a63pp56854ytysg7e5z9fl3w5mgvrlqjfcytnjv8ff5hm5qt6gl6alxesqdqqcqzzsxqyz5vqsp5p0x0dlhn27s63j4emxnk26p7f94u0lyarnfp5yqmac9gzy4ngdss9qxpqysgqne3v0hnzt2lp0hc69xpzckk0cdcar7glvjhq60lsrfe8gejdm8c564prrnsft6ctxxyrewp4jtezrq3gxxqnfjj0f9tw2qs9y0lslmqpfu7et9";

/// A node that answers as it is told.
#[derive(Default)]
struct MockClient {
    payments: Vec<Payment>,
    outcome: Option<Payment>,
    submission_error: Option<NodeErrorKind>,
    settlement_fails: bool,
    block_submission: bool,
    block_settlement: bool,
    submissions: usize,
    settlement_polls: usize,
    lookups: usize,
    syncs: usize,
    pages: usize,
    update_pages: usize,
}

fn copy(payment: &Payment) -> Payment {
    Payment {
        index: payment.index.clone(),
        updated_index: payment.updated_index.clone(),
        direction: payment.direction,
        hash: payment.hash,
        preimage: payment.preimage,
        amount_msat: payment.amount_msat,
        fees_msat: payment.fees_msat,
        status: payment.status,
        status_msg: payment.status_msg.clone(),
    }
}

impl MockClient {
    fn submit_invoice(&mut self) -> SubmissionOutcome {
        self.submissions += 1;
        if self.block_submission {
            return SubmissionOutcome::TimedOut;
        }
        if let Some(kind) = self.submission_error {
            return SubmissionOutcome::Failed(SubmissionError::from_node_error(
                kind,
                "Payment already exists".to_string(),
            ));
        }
        match &self.outcome {
            Some(payment) => {
                self.payments.push(copy(payment));
                SubmissionOutcome::Accepted(payment.index.clone())
            }
            None => SubmissionOutcome::Failed(SubmissionError::Ambiguous(
                "connection lost after submission".to_string(),
            )),
        }
    }

    fn wait_for_payment(&mut self, index: &str) -> SettlementOutcome {
        self.settlement_polls += 1;
        if self.block_settlement {
            return SettlementOutcome::TimedOut;
        }
        if self.settlement_fails {
            return SettlementOutcome::Failed;
        }
        match self.payments.iter().find(|p| p.index == index) {
            Some(payment) => SettlementOutcome::Reported(copy(payment)),
            None => SettlementOutcome::Failed,
        }
    }

    fn list_payments(&mut self, limit: usize, after: &Option<String>) -> (Vec<Payment>, Option<String>) {
        self.pages += 1;
        let mut payments: Vec<Payment> = self.payments.iter().map(copy).collect();
        payments.sort_by(|a, b| b.index.cmp(&a.index));
        payments.retain(|p| after.as_ref().is_none_or(|after| p.index < *after));
        let more = payments.len() > limit;
        payments.truncate(limit);
        let next = if more { payments.last().map(|p| p.index.clone()) } else { None };
        (payments, next)
    }

    fn get_payment(&mut self, index: &str) -> Option<Payment> {
        self.lookups += 1;
        self.payments.iter().find(|p| p.index == index).map(copy)
    }

    fn get_updated_payments(&mut self, start: &Option<String>, limit: usize) -> Vec<Payment> {
        self.update_pages += 1;
        let mut payments: Vec<Payment> = self.payments.iter().map(copy).collect();
        payments.sort_by(|a, b| a.updated_index.cmp(&b.updated_index));
        payments.retain(|p| start.as_ref().is_none_or(|after| p.updated_index > *after));
        payments.truncate(limit);
        payments
    }
}

fn backend_with(db: QuoteDatabase) -> LexeBackend {
    LexeBackend {
        db,
        fee_reserve_ppm: 10_000,
        fee_reserve_min_sat: 2,
        payment_timeout_secs: 10,
    }
}

fn fixture() -> (LexeBackend, MockClient) {
    (
        backend_with(QuoteDatabase::new(QuoteTables::empty(false))),
        MockClient::default(),
    )
}

fn copy_texts(from: &Table<String>, to: &mut Table<String>) {
    for i in 0..from.len() {
        let key = from.key_at(i);
        to.insert(&key, from.get(&key).unwrap().clone());
    }
}

fn copy_attempts(from: &Table<MeltAttempt>, to: &mut Table<MeltAttempt>) {
    for i in 0..from.len() {
        let key = from.key_at(i);
        to.insert(&key, from.get(&key).unwrap().clone());
    }
}

/// What a new process finds: what was stored, and nothing else.
fn restart(backend: LexeBackend) -> LexeBackend {
    let old = backend.db.tables();
    let mut new = QuoteTables::empty(old.attempts_migrated);
    copy_texts(&old.mint_quotes, &mut new.mint_quotes);
    copy_texts(&old.mint_payment_ids, &mut new.mint_payment_ids);
    copy_texts(&old.melt_quotes, &mut new.melt_quotes);
    copy_texts(&old.melt_payment_ids, &mut new.melt_payment_ids);
    copy_attempts(&old.melt_owners, &mut new.melt_owners);
    copy_attempts(&old.melt_attempts, &mut new.melt_attempts);
    backend_with(QuoteDatabase::new(new))
}

fn options(quote_id: &str) -> Bolt11OutgoingPaymentOptions {
    Bolt11OutgoingPaymentOptions {
        bolt11: Bolt11Invoice::parse(INVOICE).unwrap(),
        max_fee_amount: None,
        timeout_secs: None,
        melt_options: None,
        quote_id: quote_id.to_string(),
    }
}

fn outgoing(quote_id: &str) -> OutgoingPaymentOptions {
    OutgoingPaymentOptions::Bolt11(options(quote_id))
}

fn hash() -> [u8; 32] {
    Bolt11Invoice::parse(INVOICE).unwrap().payment_hash
}

fn identifier() -> PaymentIdentifier {
    PaymentIdentifier::PaymentHash(hash())
}

fn payment(n: u32, direction: PaymentDirection, hash: [u8; 32]) -> Payment {
    let index = format!(
        "{:019}-ln_{}",
        1_700_000_000_000u64 + u64::from(n) * 1000,
        hex::encode(hash)
    );
    Payment {
        index: index.clone(),
        updated_index: index,
        direction,
        hash: Some(hash),
        preimage: Some([9; 32]),
        amount_msat: Some(10_000),
        fees_msat: 0,
        status: PaymentStatus::Completed,
        status_msg: "settled".to_string(),
    }
}

fn check(
    backend: &mut LexeBackend,
    client: &mut MockClient,
    id: &PaymentIdentifier,
) -> Result<MakePaymentResponse, Error> {
    let step = backend.check_outgoing_payment(id)?;
    let unit = match step {
        CheckStep::Answer(answer) => return Ok(answer),
        CheckStep::Search { unit } => unit,
        CheckStep::Fetch { index, unit } => {
            let found = client.get_payment(&index);
            match LexeBackend::payment_fetched(id, unit, found)? {
                CheckStep::Answer(answer) => return Ok(answer),
                CheckStep::Search { unit } => unit,
                CheckStep::Fetch { .. } => panic!("fetched once already"),
            }
        }
    };
    client.syncs += 1;
    let hash = LexeBackend::payment_hash_of(id)?;
    let mut after: Option<String> = None;
    loop {
        let (mut page, next) = client.list_payments(RECOVERY_PAGE_SIZE, &after);
        match LexeBackend::find_payment_by_hash(&hash, &after, &page, &next)? {
            SearchStep::Found(at) => {
                return backend.payment_searched(id, unit, Some(page.swap_remove(at)))
            }
            SearchStep::Exhausted => return backend.payment_searched(id, unit, None),
            SearchStep::Continue => after = next,
        }
    }
}

fn pay_with(
    backend: &mut LexeBackend,
    client: &mut MockClient,
    unit: &CurrencyUnit,
    options: &OutgoingPaymentOptions,
) -> Result<MakePaymentResponse, Error> {
    let id = identifier();
    let payment_hash = match backend.make_payment(unit, options)? {
        PaymentStep::Reconcile => return check(backend, client, &id),
        PaymentStep::Submit { payment_hash, invoice, .. } => {
            assert_eq!(invoice, INVOICE);
            payment_hash
        }
    };
    let outcome = client.submit_invoice();
    let index = match backend.submission_done(&payment_hash, outcome)? {
        AfterSubmission::Reconcile => return check(backend, client, &id),
        AfterSubmission::AwaitSettlement { index } => index,
    };
    let outcome = client.wait_for_payment(&index);
    match LexeBackend::settlement_done(identifier(), unit, outcome)? {
        AfterSettlement::Answer(answer) => Ok(answer),
        AfterSettlement::Reconcile => check(backend, client, &id),
    }
}

fn pay(backend: &mut LexeBackend, client: &mut MockClient, quote_id: &str) -> MakePaymentResponse {
    pay_with(backend, client, &CurrencyUnit::Sat, &outgoing(quote_id)).unwrap()
}

fn status(backend: &mut LexeBackend, client: &mut MockClient) -> MeltQuoteState {
    check(backend, client, &identifier()).unwrap().status
}

#[test]
fn unsupported_units_are_rejected_before_backend_calls() {
    let (mut backend, mut client) = fixture();
    for unit in [CurrencyUnit::Msat, CurrencyUnit::Usd] {
        assert!(matches!(
            backend.get_payment_quote(&unit, &outgoing("quote")),
            Err(Error::UnsupportedUnit)
        ));
        assert!(matches!(
            pay_with(&mut backend, &mut client, &unit, &outgoing("quote")),
            Err(Error::UnsupportedUnit)
        ));
        assert!(matches!(
            backend.create_incoming_payment_request(IncomingPaymentOptions::Bolt11(
                Bolt11IncomingPaymentOptions {
                    description: None,
                    amount: Amount::new(10_000, unit),
                    unix_expiry: None,
                }
            )),
            Err(Error::UnsupportedUnit)
        ));
    }
    assert_eq!(client.submissions, 0);
    let quote = backend.get_payment_quote(&CurrencyUnit::Sat, &outgoing("quote")).unwrap();
    assert_eq!(quote.amount, Amount::new(10, CurrencyUnit::Sat));
    assert_eq!(quote.fee, Amount::new(2, CurrencyUnit::Sat));
}

#[test]
fn capped_payments_are_rejected_without_creating_an_attempt() {
    let (mut backend, mut client) = fixture();
    for limit in [0, 1, 1000] {
        let mut opts = options("quote");
        opts.max_fee_amount = Some(Amount::new(limit, CurrencyUnit::Sat));
        let error = pay_with(
            &mut backend,
            &mut client,
            &CurrencyUnit::Sat,
            &OutgoingPaymentOptions::Bolt11(opts),
        )
        .unwrap_err();
        let Error::Custom(words) = error else { panic!("expected words") };
        assert!(words.contains("cannot enforce max_fee_amount"));
        assert_eq!(status(&mut backend, &mut client), MeltQuoteState::Unpaid);
    }
    assert_eq!(client.submissions, 0);
    assert_eq!(client.syncs, 0);
}

#[test]
fn payments_that_cannot_be_submitted_are_refused() {
    let (mut backend, mut client) = fixture();
    let mut partial = options("quote");
    partial.melt_options = Some(MeltOptions::Mpp { amount: 1 });
    assert_eq!(
        pay_with(
            &mut backend,
            &mut client,
            &CurrencyUnit::Sat,
            &OutgoingPaymentOptions::Bolt11(partial)
        ),
        Err(Error::UnsupportedPaymentOption)
    );
    let mut unreadable = options("quote");
    unreadable.bolt11.text = "not an invoice".to_string();
    let error = pay_with(
        &mut backend,
        &mut client,
        &CurrencyUnit::Sat,
        &OutgoingPaymentOptions::Bolt11(unreadable),
    )
    .unwrap_err();
    let Error::Custom(words) = error else { panic!("expected words") };
    assert!(words.starts_with("failed to parse outgoing invoice for Lexe: "));
    for unsupported in [OutgoingPaymentOptions::Custom, OutgoingPaymentOptions::Onchain] {
        assert_eq!(
            pay_with(&mut backend, &mut client, &CurrencyUnit::Sat, &unsupported),
            Err(Error::UnsupportedPaymentOption)
        );
    }
    assert!(backend.db.get_melt_attempt(&hash()).is_none());
    assert_eq!(client.submissions, 0);
    assert_eq!(
        check(&mut backend, &mut client, &PaymentIdentifier::PaymentHash([1; 32])),
        Err(Error::Custom("Outgoing payment not found".to_string()))
    );
    assert_eq!(
        check(&mut backend, &mut client, &PaymentIdentifier::Label("x".to_string())),
        Err(Error::UnsupportedPaymentOption)
    );
}

#[test]
fn quoting_again_does_not_reassign_the_attempt_or_event() {
    let (mut backend, mut client) = fixture();
    let paid = payment(0, PaymentDirection::Outbound, hash());
    client.outcome = Some(copy(&paid));
    pay(&mut backend, &mut client, "first");
    backend.get_payment_quote(&CurrencyUnit::Sat, &outgoing("next")).unwrap();
    pay(&mut backend, &mut client, "next");
    let Event::PaymentSuccessful { quote_id, .. } =
        map_payment_event(&mut backend.db, &paid).unwrap().unwrap()
    else {
        panic!("missing success")
    };
    assert_eq!(quote_id, "first");
    assert_eq!(client.submissions, 1);
}

#[test]
fn prepared_quotes_remain_unpaid_across_restart() {
    let (mut backend, mut client) = fixture();
    let quote = backend.get_payment_quote(&CurrencyUnit::Sat, &outgoing("quote")).unwrap();
    let mut backend = restart(backend);
    let answer = check(&mut backend, &mut client, &quote.request_lookup_id.unwrap()).unwrap();
    assert_eq!(answer.status, MeltQuoteState::Unpaid);
    assert_eq!(client.syncs, 0);
}

#[test]
fn definite_submission_rejections_remain_failed_after_restart_and_retry() {
    for kind in [
        NodeErrorKind::Building,
        NodeErrorKind::Connect,
        NodeErrorKind::Rejection,
        NodeErrorKind::ClientAuth,
        NodeErrorKind::InsufficientScope,
        NodeErrorKind::BadAuth,
    ] {
        let (mut backend, mut client) = fixture();
        client.submission_error = Some(kind);
        let response = pay(&mut backend, &mut client, "first");
        assert_eq!(response.status, MeltQuoteState::Failed);
        assert_eq!(response.payment_lookup_id, identifier());
        assert_eq!(response.total_spent, Amount::new(0, CurrencyUnit::Sat));
        assert!(response.payment_proof.is_none());

        let mut backend = restart(backend);
        backend.get_payment_quote(&CurrencyUnit::Sat, &outgoing("retry")).unwrap();
        assert_eq!(status(&mut backend, &mut client), MeltQuoteState::Failed);
        assert_eq!(pay(&mut backend, &mut client, "retry").status, MeltQuoteState::Failed);
        let attempt = backend.db.get_melt_attempt(&hash()).unwrap();
        assert!(attempt.submission_rejected);
        assert_eq!(attempt.quote_id, Some("first".to_string()));
        assert_eq!(client.submissions, 1);
        assert_eq!(client.settlement_polls, 0);
        assert_eq!(client.lookups, 0);
        assert_eq!(client.syncs, 0);
        assert_eq!(client.pages, 0);
    }
}

#[test]
fn command_errors_do_not_prove_rejection_even_without_remote_history() {
    let (mut backend, mut client) = fixture();
    client.submission_error = Some(NodeErrorKind::Command);
    assert_eq!(pay(&mut backend, &mut client, "quote").status, MeltQuoteState::Pending);
    let mut backend = restart(backend);
    assert_eq!(pay(&mut backend, &mut client, "quote").status, MeltQuoteState::Pending);
    client.payments.push(payment(0, PaymentDirection::Outbound, hash()));
    assert_eq!(status(&mut backend, &mut client), MeltQuoteState::Paid);
    assert_eq!(client.submissions, 1);
}

#[test]
fn accepted_payment_polling_errors_are_not_submission_rejections() {
    let (mut backend, mut client) = fixture();
    let mut pending = payment(0, PaymentDirection::Outbound, hash());
    pending.status = PaymentStatus::Pending;
    client.outcome = Some(copy(&pending));
    client.settlement_fails = true;
    assert_eq!(pay(&mut backend, &mut client, "quote").status, MeltQuoteState::Pending);
    let mut backend = restart(backend);
    assert_eq!(backend.db.get_melt_payment_id(&hash()), Some(pending.index));
    assert!(!backend.db.get_melt_attempt(&hash()).unwrap().submission_rejected);
    assert_eq!(pay(&mut backend, &mut client, "quote").status, MeltQuoteState::Pending);
    client.payments[0].status = PaymentStatus::Completed;
    assert_eq!(status(&mut backend, &mut client), MeltQuoteState::Paid);
    assert_eq!(client.submissions, 1);
    assert_eq!(client.settlement_polls, 1);
}

#[test]
fn accepted_index_is_durable_before_a_cancelled_settlement_wait() {
    let (mut backend, mut client) = fixture();
    let mut pending = payment(0, PaymentDirection::Outbound, hash());
    pending.status = PaymentStatus::Pending;
    client.outcome = Some(copy(&pending));
    let step = backend.make_payment(&CurrencyUnit::Sat, &outgoing("quote")).unwrap();
    let PaymentStep::Submit { payment_hash, timeout_secs, .. } = step else {
        panic!("a new payment is submitted")
    };
    assert_eq!(timeout_secs, 10);
    let outcome = client.submit_invoice();
    backend.submission_done(&payment_hash, outcome).unwrap();
    assert_eq!(backend.db.get_melt_payment_id(&hash()), Some(pending.index));
    // The wait for settlement is cancelled here.
    let mut backend = restart(backend);
    assert_eq!(pay(&mut backend, &mut client, "quote").status, MeltQuoteState::Pending);
    assert_eq!(client.submissions, 1);
}

#[test]
fn settlement_timeout_preserves_acceptance_for_recovery() {
    let (mut backend, mut client) = fixture();
    let mut pending = payment(0, PaymentDirection::Outbound, hash());
    pending.status = PaymentStatus::Pending;
    client.outcome = Some(copy(&pending));
    client.block_settlement = true;
    assert_eq!(pay(&mut backend, &mut client, "quote").status, MeltQuoteState::Pending);
    let mut backend = restart(backend);
    assert_eq!(backend.db.get_melt_payment_id(&hash()), Some(pending.index));
    client.payments[0].status = PaymentStatus::Completed;
    assert_eq!(pay(&mut backend, &mut client, "quote").status, MeltQuoteState::Paid);
    assert_eq!(client.submissions, 1);
    assert_eq!(client.settlement_polls, 1);
}

#[test]
fn timeout_is_recovered_after_restart_without_resubmission() {
    let (mut backend, mut client) = fixture();
    client.block_submission = true;
    assert_eq!(pay(&mut backend, &mut client, "quote").status, MeltQuoteState::Pending);
    let mut backend = restart(backend);
    assert_eq!(pay(&mut backend, &mut client, "quote").status, MeltQuoteState::Pending);
    client.payments.push(payment(0, PaymentDirection::Outbound, hash()));
    assert_eq!(pay(&mut backend, &mut client, "quote").status, MeltQuoteState::Paid);
    assert_eq!(client.submissions, 1);
}

#[test]
fn ambiguous_sdk_error_remains_pending_but_terminal_failure_is_recorded() {
    let (mut backend, mut client) = fixture();
    assert_eq!(pay(&mut backend, &mut client, "quote").status, MeltQuoteState::Pending);
    assert_eq!(pay(&mut backend, &mut client, "quote").status, MeltQuoteState::Pending);
    let mut failed = payment(0, PaymentDirection::Outbound, hash());
    failed.status = PaymentStatus::Failed;
    client.payments.push(failed);
    assert_eq!(status(&mut backend, &mut client), MeltQuoteState::Failed);
    assert_eq!(pay(&mut backend, &mut client, "quote").status, MeltQuoteState::Failed);
    assert_eq!(client.submissions, 1);
}

#[test]
fn concurrent_retry_and_cancelled_rpc_do_not_submit_twice() {
    let (mut backend, mut client) = fixture();
    client.block_submission = true;
    // The first call is under way: it has submitted and has no answer yet.
    let step = backend.make_payment(&CurrencyUnit::Sat, &outgoing("quote")).unwrap();
    assert!(matches!(step, PaymentStep::Submit { .. }));
    client.submit_invoice();
    assert_eq!(pay(&mut backend, &mut client, "quote").status, MeltQuoteState::Pending);
    // It is cancelled without an outcome.
    assert_eq!(pay(&mut backend, &mut client, "quote").status, MeltQuoteState::Pending);
    assert_eq!(client.submissions, 1);
}

#[test]
fn recovery_searches_past_500_records_and_ignores_inbound_matches() {
    let (mut backend, mut client) = fixture();
    assert!(backend.db.begin_melt_attempt(&hash(), "quote", &CurrencyUnit::Sat));
    let paid = payment(0, PaymentDirection::Outbound, hash());
    let paid_index = paid.index.clone();
    client.payments = vec![paid, payment(600, PaymentDirection::Inbound, hash())];
    for n in 1..=550u32 {
        let mut other = [0; 32];
        other[..4].copy_from_slice(&n.to_be_bytes());
        client.payments.push(payment(n, PaymentDirection::Outbound, other));
    }
    assert_eq!(status(&mut backend, &mut client), MeltQuoteState::Paid);
    assert_eq!(backend.db.get_melt_payment_id(&hash()), Some(paid_index));
    assert_eq!(client.pages, 2);
}

#[test]
fn a_stuck_recovery_cursor_is_an_error() {
    let cursor = Some("cursor".to_string());
    assert_eq!(
        LexeBackend::find_payment_by_hash(&hash(), &cursor, &vec![], &cursor),
        Err(Error::Custom("Lexe recovery cursor did not advance".to_string()))
    );
    assert_eq!(
        LexeBackend::find_payment_by_hash(&hash(), &None, &vec![], &cursor),
        Ok(SearchStep::Continue)
    );
    assert_eq!(
        LexeBackend::find_payment_by_hash(&hash(), &cursor, &vec![], &None),
        Ok(SearchStep::Exhausted)
    );
}

/// Polls once and returns the events of the page, as far as `room` allows.
fn poll(
    poller: &mut EventPoller,
    backend: &mut LexeBackend,
    client: &mut MockClient,
    room: usize,
) -> (Vec<Event>, Option<u64>) {
    let page = client.get_updated_payments(&poller.cursor(), EVENT_PAGE_SIZE);
    let empty = page.is_empty();
    let mut events = Vec::new();
    for payment in page {
        match poller.update(&mut backend.db, &payment) {
            Ok(Some(event)) => {
                if events.len() == room {
                    return (events, None);
                }
                events.push(event);
                poller.delivered(&payment);
            }
            Ok(None) => poller.delivered(&payment),
            Err(_) => return (events, Some(poller.page_done(empty, true))),
        }
    }
    let delay = poller.page_done(empty, false);
    (events, Some(delay))
}

#[test]
fn reconnect_replays_cached_payments_including_the_unconsumed_batch() {
    let (mut backend, mut client) = fixture();
    for n in 1..=3u8 {
        backend.db.insert_mint_quote(&[n; 32], "invoice");
        client.payments.push(payment(u32::from(n), PaymentDirection::Inbound, [n; 32]));
    }
    let mut streams: usize = 0;
    let mut activity = PaymentEventStreamActivity::new(&mut streams);
    let mut first = EventPoller::new();
    assert_eq!(poll(&mut first, &mut backend, &mut client, 1).0.len(), 1);
    activity.deactivate(&mut streams);
    let mut activity = PaymentEventStreamActivity::new(&mut streams);
    assert!(is_payment_event_stream_active(streams));
    let mut second = EventPoller::new();
    let (events, delay) = poll(&mut second, &mut backend, &mut client, 100);
    assert_eq!(delay, Some(0));
    for n in 1..=3u8 {
        let Event::PaymentReceived(response) = &events[usize::from(n) - 1] else {
            panic!("expected incoming")
        };
        assert_eq!(
            response.payment_identifier,
            PaymentIdentifier::PaymentHash([n; 32])
        );
    }
    assert_eq!(poll(&mut second, &mut backend, &mut client, 100).1, Some(5_000));
    activity.deactivate(&mut streams);
    activity.deactivate(&mut streams);
    assert!(!is_payment_event_stream_active(streams));
}

#[test]
fn a_failed_mapping_is_never_skipped() {
    let (mut backend, mut client) = fixture();
    for n in 1..=3u8 {
        backend.db.insert_mint_quote(&[n; 32], "invoice");
        client.payments.push(payment(u32::from(n), PaymentDirection::Inbound, [n; 32]));
    }
    client.payments[1].amount_msat = None;
    let mut poller = EventPoller::new();
    let (events, delay) = poll(&mut poller, &mut backend, &mut client, 100);
    assert_eq!(events.len(), 1);
    assert_eq!(delay, Some(500));
    assert_eq!(poller.cursor(), Some(client.payments[0].updated_index.clone()));
    client.payments[1].amount_msat = Some(5_000);
    let (events, _) = poll(&mut poller, &mut backend, &mut client, 100);
    assert_eq!(events.len(), 2);
}

#[test]
fn failed_fetches_back_off_up_to_half_a_minute() {
    let mut poller = EventPoller::new();
    for delay in [500, 1_000, 2_000, 4_000, 8_000, 16_000, 30_000, 30_000] {
        assert_eq!(poller.fetch_failed(), delay);
    }
    assert_eq!(poller.page_done(true, false), 5_000);
    assert_eq!(poller.fetch_failed(), 500);
}
