//! Which melt quote an outgoing payment belongs to.
//!
//! The node reports payments by their own ids and hashes. A quote that makes a
//! payment registers under those keys, and a report is matched to the quote
//! through them. A report that comes before its quote is buffered for a while
//! and replayed when the quote registers, so reading reports never waits.

use vstd::prelude::*;
use vstd::string::*;

use crate::ldk_server::payments::{
    hex_array, hex_to_array, make_payment_response_from_payment, payment_answer, Payment,
    PaymentError, PaymentErrorView, PaymentKind,
};
use crate::payment::{result_view, CurrencyUnit, Event, EventView, PaymentIdentifier};
use crate::text::{
    is_before, join3, lower, text_less, to_ascii_lowercase, trim, trimmed,
};
use crate::textmap::{keeping, Retention, TextMap};

verus! {

/// How long a registered quote is remembered, in nanoseconds: one day.
pub const OUTGOING_CONTEXT_TTL_NS: u64 = 86_400_000_000_000;

/// How long a report without a quote is buffered, in nanoseconds: one minute.
pub const UNMATCHED_OUTGOING_EVENT_TTL_NS: u64 = 60_000_000_000;

/// The quote for which a payment is made.
#[derive(Debug, PartialEq, Eq)]
pub struct OutgoingPaymentContext {
    /// The melt quote.
    pub quote_id: String,
    /// The unit of the quote.
    pub unit: CurrencyUnit,
}

/// What an [`OutgoingPaymentContext`] says.
pub struct ContextView {
    /// The melt quote.
    pub quote_id: Seq<char>,
    /// The unit of the quote.
    pub unit: CurrencyUnit,
}

impl DeepView for OutgoingPaymentContext {
    type V = ContextView;

    open spec fn deep_view(&self) -> ContextView {
        ContextView { quote_id: self.quote_id@, unit: self.unit }
    }
}

impl Clone for OutgoingPaymentContext {
    fn clone(&self) -> (res: Self)
        ensures
            res == *self,
    {
        OutgoingPaymentContext { quote_id: self.quote_id.clone(), unit: self.unit.clone() }
    }
}

/// How a reported payment ended.
#[derive(Clone, Copy, Debug, PartialEq, Eq, Structural)]
pub enum OutgoingPaymentOutcome {
    /// It was settled.
    Succeeded,
    /// It failed for good.
    Failed,
}

/// A registered quote.
#[derive(Debug)]
pub struct PendingOutgoingContext {
    /// The quote.
    pub context: OutgoingPaymentContext,
    /// When it was registered, in nanoseconds.
    pub inserted_at: u64,
}

/// What a [`PendingOutgoingContext`] says.
pub struct PendingView {
    /// The quote.
    pub context: ContextView,
    /// When it was registered.
    pub inserted_at: u64,
}

impl DeepView for PendingOutgoingContext {
    type V = PendingView;

    open spec fn deep_view(&self) -> PendingView {
        PendingView { context: self.context.deep_view(), inserted_at: self.inserted_at }
    }
}

/// A report whose quote is not known yet.
#[derive(Debug)]
pub struct UnmatchedOutgoingPayment {
    /// The keys of the payment.
    pub keys: Vec<String>,
    /// The payment.
    pub payment: Payment,
    /// How it ended.
    pub outcome: OutgoingPaymentOutcome,
    /// When the report came, in nanoseconds.
    pub received_at: u64,
}

/// What an [`UnmatchedOutgoingPayment`] says.
pub struct UnmatchedView {
    /// The keys of the payment.
    pub keys: Seq<Seq<char>>,
    /// The payment.
    pub payment: Payment,
    /// How it ended.
    pub outcome: OutgoingPaymentOutcome,
    /// When the report came.
    pub received_at: u64,
}

impl DeepView for UnmatchedOutgoingPayment {
    type V = UnmatchedView;

    open spec fn deep_view(&self) -> UnmatchedView {
        UnmatchedView {
            keys: self.keys.deep_view(),
            payment: self.payment,
            outcome: self.outcome,
            received_at: self.received_at,
        }
    }
}

/// Registered quotes, buffered reports, and events that wait to be read.
#[derive(Debug)]
pub struct OutgoingPaymentCorrelator {
    by_key: TextMap<PendingOutgoingContext>,
    unmatched: Vec<UnmatchedOutgoingPayment>,
    ready: Vec<Event>,
    finalized: TextMap<u64>,
}

/// What a correlator knows.
pub struct CorrelatorView {
    /// The quotes, by the keys of their payments.
    pub by_key: Map<Seq<char>, PendingView>,
    /// The reports without a quote, oldest first.
    pub unmatched: Seq<UnmatchedView>,
    /// The events that wait to be read, oldest first.
    pub ready: Seq<EventView>,
    /// The quotes that are done with, and since when.
    pub finalized: Map<Seq<char>, u64>,
}

/// How long ago something was, where it was at all.
pub open spec fn age(now: u64, at: u64) -> int {
    if now >= at {
        now - at
    } else {
        0
    }
}

/// The reports without the stale ones at the front.
pub open spec fn without_stale(unmatched: Seq<UnmatchedView>, now: u64) -> Seq<UnmatchedView>
    decreases unmatched.len(),
{
    if unmatched.len() > 0 && age(now, unmatched[0].received_at)
        >= UNMATCHED_OUTGOING_EVENT_TTL_NS {
        without_stale(unmatched.subrange(1, unmatched.len() as int), now)
    } else {
        unmatched
    }
}

/// Whether two lists of keys have a key in common.
pub open spec fn share_key(a: Seq<Seq<char>>, b: Seq<Seq<char>>) -> bool {
    exists|i: int, j: int|
        0 <= i < a.len() && 0 <= j < b.len() && #[trigger] a[i] == #[trigger] b[j]
}

/// The position of the first report that has one of the keys; the number of
/// reports where none has.
pub open spec fn first_sharing(unmatched: Seq<UnmatchedView>, keys: Seq<Seq<char>>) -> int
    decreases unmatched.len(),
{
    if unmatched.len() == 0 || share_key(unmatched[0].keys, keys) {
        0
    } else {
        1 + first_sharing(unmatched.subrange(1, unmatched.len() as int), keys)
    }
}

/// The reports that have none of the keys.
pub open spec fn without_sharing(unmatched: Seq<UnmatchedView>, keys: Seq<Seq<char>>) -> Seq<
    UnmatchedView,
>
    decreases unmatched.len(),
{
    if unmatched.len() == 0 {
        Seq::empty()
    } else {
        let earlier = without_sharing(unmatched.drop_last(), keys);
        if share_key(unmatched.last().keys, keys) {
            earlier
        } else {
            earlier.push(unmatched.last())
        }
    }
}

/// The quotes by key, with one quote registered under each of the keys.
pub open spec fn with_keys(
    by_key: Map<Seq<char>, PendingView>,
    keys: Seq<Seq<char>>,
    pending: PendingView,
) -> Map<Seq<char>, PendingView>
    decreases keys.len(),
{
    if keys.len() == 0 {
        by_key
    } else {
        with_keys(by_key, keys.drop_last(), pending).insert(keys.last(), pending)
    }
}

/// A key in its normal form: trimmed, in lower case.
pub open spec fn normal_key(text: Seq<char>) -> Seq<char> {
    lower(trimmed(text))
}

/// The hash of a payment, where it has one.
pub open spec fn hash_text(payment: Payment) -> Option<Seq<char>> {
    match payment.kind {
        Some(PaymentKind::Bolt11 { hash, .. }) => Some(hash@),
        Some(PaymentKind::Bolt12Offer { hash: Some(hash), .. }) => Some(hash@),
        _ => None,
    }
}

/// The keys of a payment: its id and its hash in normal form, in order, each
/// once.
pub open spec fn keys_of(payment: Payment) -> Seq<Seq<char>> {
    let id = normal_key(payment.id@);
    match hash_text(payment) {
        None => seq![id],
        Some(hash) => {
            let hash = normal_key(hash);
            if id == hash {
                seq![id]
            } else if text_less(id, hash) {
                seq![id, hash]
            } else {
                seq![hash, id]
            }
        },
    }
}

/// The event that a report stands for, once its quote is known.
pub open spec fn event_answer(
    context: ContextView,
    payment: Payment,
    outcome: OutgoingPaymentOutcome,
) -> Result<EventView, PaymentErrorView> {
    match outcome {
        OutgoingPaymentOutcome::Succeeded => match hex_array(payment.id@) {
            Err(error) => Err(PaymentErrorView::Backend(error)),
            Ok(id) => match payment_answer(
                context.unit,
                PaymentIdentifier::PaymentId(id),
                payment,
            ) {
                Err(error) => Err(error),
                Ok(details) => Ok(
                    EventView::PaymentSuccessful { quote_id: context.quote_id, details },
                ),
            },
        },
        OutgoingPaymentOutcome::Failed => Ok(
            EventView::PaymentFailed {
                quote_id: context.quote_id,
                reason: "LDK Server payment "@ + payment.id@ + " failed"@,
            },
        ),
    }
}

/// The position of the first key under which a quote is registered; the number
/// of keys where there is none.
pub open spec fn first_registered(
    by_key: Map<Seq<char>, PendingView>,
    keys: Seq<Seq<char>>,
) -> int
    decreases keys.len(),
{
    if keys.len() == 0 || by_key.dom().contains(keys[0]) {
        0
    } else {
        1 + first_registered(by_key, keys.subrange(1, keys.len() as int))
    }
}

impl CorrelatorView {
    /// What is known at the beginning.
    pub open spec fn empty() -> CorrelatorView {
        CorrelatorView {
            by_key: Map::empty(),
            unmatched: Seq::empty(),
            ready: Seq::empty(),
            finalized: Map::empty(),
        }
    }

    /// What is still known at some moment.
    pub open spec fn expired(self, now: u64) -> CorrelatorView {
        CorrelatorView {
            by_key: keeping(
                self.by_key,
                |pending: PendingView| age(now, pending.inserted_at) < OUTGOING_CONTEXT_TTL_NS,
            ),
            finalized: keeping(self.finalized, |at: u64| age(now, at) < OUTGOING_CONTEXT_TTL_NS),
            unmatched: without_stale(self.unmatched, now),
            ready: self.ready,
        }
    }

    /// A quote is done with: none of its keys is registered any more.
    pub open spec fn with_finalized(self, quote_id: Seq<char>, now: u64) -> CorrelatorView {
        CorrelatorView {
            by_key: keeping(
                self.by_key,
                |pending: PendingView| pending.context.quote_id != quote_id,
            ),
            finalized: self.finalized.insert(quote_id, now),
            ..self
        }
    }

    /// A quote is registered under some keys.
    pub open spec fn registered(
        self,
        keys: Seq<Seq<char>>,
        context: ContextView,
        now: u64,
    ) -> CorrelatorView {
        CorrelatorView {
            by_key: with_keys(self.by_key, keys, PendingView { context, inserted_at: now }),
            ..self
        }
    }

    /// What follows when a quote registers, of what is still known then. A
    /// quote that is done with discards the reports that are its own; a quote
    /// that is awaited by a report is done with and its event is ready; any
    /// other quote is registered.
    pub open spec fn remembering(
        self,
        keys: Seq<Seq<char>>,
        context: ContextView,
        now: u64,
    ) -> CorrelatorView {
        let at = first_sharing(self.unmatched, keys);
        if self.finalized.dom().contains(context.quote_id) {
            CorrelatorView { unmatched: without_sharing(self.unmatched, keys), ..self }
        } else if at < self.unmatched.len() {
            let report = self.unmatched[at];
            let taken = CorrelatorView { unmatched: self.unmatched.remove(at), ..self };
            match event_answer(context, report.payment, report.outcome) {
                Ok(event) => {
                    let done = taken.with_finalized(context.quote_id, now);
                    CorrelatorView { ready: done.ready.push(event), ..done }
                },
                Err(_) => taken.registered(keys, context, now),
            }
        } else {
            self.registered(keys, context, now)
        }
    }

    /// Whether a quote that registers makes an event ready.
    pub open spec fn makes_ready(self, keys: Seq<Seq<char>>, context: ContextView) -> bool {
        let at = first_sharing(self.unmatched, keys);
        &&& !self.finalized.dom().contains(context.quote_id)
        &&& at < self.unmatched.len()
        &&& event_answer(
            context,
            self.unmatched[at].payment,
            self.unmatched[at].outcome,
        ) is Ok
    }

    /// What a report is answered with, of what is still known when it comes,
    /// and what is known then.
    pub open spec fn reporting(
        self,
        payment: Payment,
        outcome: OutgoingPaymentOutcome,
        now: u64,
    ) -> (Result<Option<EventView>, PaymentErrorView>, CorrelatorView) {
        let keys = keys_of(payment);
        let at = first_registered(self.by_key, keys);
        if at < keys.len() {
            let context = self.by_key[keys[at]].context;
            let done = self.with_finalized(context.quote_id, now);
            match event_answer(context, payment, outcome) {
                Ok(event) => (Ok(Some(event)), done),
                Err(error) => (Err(error), done),
            }
        } else {
            (
                Ok(None),
                CorrelatorView {
                    unmatched: self.unmatched.push(
                        UnmatchedView { keys, payment, outcome, received_at: now },
                    ),
                    ..self
                },
            )
        }
    }
}

/// A key in its normal form: trimmed, in lower case.
pub fn normalize_payment_correlation_key(payment_id: &str) -> (key: String)
    ensures
        key@ == normal_key(payment_id@),
{
    to_ascii_lowercase(trim(payment_id))
}

/// The keys of a payment, in order, each once.
pub fn outgoing_payment_correlation_keys(payment: &Payment) -> (keys: Vec<String>)
    ensures
        keys.deep_view() == keys_of(*payment),
{
    let id = normalize_payment_correlation_key(payment.id.as_str());
    let hash = match &payment.kind {
        Some(PaymentKind::Bolt11 { hash, .. }) => {
            Some(normalize_payment_correlation_key(hash.as_str()))
        },
        Some(PaymentKind::Bolt12Offer { hash: Some(hash), .. }) => {
            Some(normalize_payment_correlation_key(hash.as_str()))
        },
        _ => None,
    };
    let mut keys: Vec<String> = Vec::new();
    match hash {
        None => {
            keys.push(id);
        },
        Some(hash) => {
            if id == hash {
                keys.push(id);
            } else if is_before(id.as_str(), hash.as_str()) {
                keys.push(id);
                keys.push(hash);
            } else {
                keys.push(hash);
                keys.push(id);
            }
        },
    }
    assert(keys.deep_view() =~= keys_of(*payment));
    keys
}

/// The event that a report stands for, once its quote is known.
pub fn map_outgoing_payment_event(
    context: &OutgoingPaymentContext,
    payment: &Payment,
    outcome: OutgoingPaymentOutcome,
) -> (res: Result<Event, PaymentError>)
    ensures
        result_view(res) == event_answer(context.deep_view(), *payment, outcome),
{
    match outcome {
        OutgoingPaymentOutcome::Succeeded => {
            let id = match hex_to_array(payment.id.as_str()) {
                Ok(id) => id,
                Err(error) => return Err(PaymentError::Backend(error)),
            };
            match make_payment_response_from_payment(
                &context.unit,
                PaymentIdentifier::PaymentId(id),
                payment,
            ) {
                Ok(details) => Ok(
                    Event::PaymentSuccessful { quote_id: context.quote_id.clone(), details },
                ),
                Err(error) => Err(error),
            }
        },
        OutgoingPaymentOutcome::Failed => Ok(
            Event::PaymentFailed {
                quote_id: context.quote_id.clone(),
                reason: join3("LDK Server payment ", payment.id.as_str(), " failed"),
            },
        ),
    }
}

fn any_shared(a: &Vec<String>, b: &Vec<String>) -> (res: bool)
    ensures
        res == share_key(a.deep_view(), b.deep_view()),
{
    let mut i: usize = 0;
    while i < a.len()
        invariant
            i <= a@.len(),
            forall|x: int, y: int|
                0 <= x < i && 0 <= y < b@.len() ==> #[trigger] a.deep_view()[x]
                    != #[trigger] b.deep_view()[y],
        decreases a@.len() - i,
    {
        let mut j: usize = 0;
        while j < b.len()
            invariant
                i < a@.len(),
                j <= b@.len(),
                forall|x: int, y: int|
                    0 <= x < i && 0 <= y < b@.len() ==> #[trigger] a.deep_view()[x]
                        != #[trigger] b.deep_view()[y],
                forall|y: int|
                    0 <= y < j ==> a.deep_view()[i as int] != #[trigger] b.deep_view()[y],
            decreases b@.len() - j,
        {
            if a[i] == b[j] {
                assert(a.deep_view()[i as int] == b.deep_view()[j as int]);
                return true;
            }
            assert(a.deep_view()[i as int] != b.deep_view()[j as int]);
            j = j + 1;
        }
        i = i + 1;
    }
    false
}

/// The views of the reports in a list.
spec fn reports(unmatched: Seq<UnmatchedOutgoingPayment>) -> Seq<UnmatchedView> {
    Seq::new(unmatched.len(), |i: int| unmatched[i].deep_view())
}

/// The views of the events in a list.
spec fn events(ready: Seq<Event>) -> Seq<EventView> {
    Seq::new(ready.len(), |i: int| ready[i].deep_view())
}

/// The first report that has one of the keys is the only one before which none
/// has.
pub proof fn lemma_first_sharing(unmatched: Seq<UnmatchedView>, keys: Seq<Seq<char>>, n: int)
    requires
        0 <= n <= unmatched.len(),
        forall|i: int| 0 <= i < n ==> !share_key((#[trigger] unmatched[i]).keys, keys),
        n < unmatched.len() ==> share_key(unmatched[n].keys, keys),
    ensures
        first_sharing(unmatched, keys) == n,
    decreases unmatched.len(),
{
    if n > 0 {
        assert(!share_key(unmatched[0].keys, keys));
        let rest = unmatched.subrange(1, unmatched.len() as int);
        assert forall|i: int| 0 <= i < n - 1 implies !share_key((#[trigger] rest[i]).keys, keys) by {
            assert(rest[i] == unmatched[i + 1]);
        }
        if n < unmatched.len() {
            assert(rest[n - 1] == unmatched[n]);
        }
        lemma_first_sharing(rest, keys, n - 1);
    }
}

/// The first key under which a quote is registered is the only one before which
/// there is none.
pub proof fn lemma_first_registered(
    by_key: Map<Seq<char>, PendingView>,
    keys: Seq<Seq<char>>,
    n: int,
)
    requires
        0 <= n <= keys.len(),
        forall|i: int| 0 <= i < n ==> !by_key.dom().contains(#[trigger] keys[i]),
        n < keys.len() ==> by_key.dom().contains(keys[n]),
    ensures
        first_registered(by_key, keys) == n,
    decreases keys.len(),
{
    if n > 0 {
        assert(!by_key.dom().contains(keys[0]));
        let rest = keys.subrange(1, keys.len() as int);
        assert forall|i: int| 0 <= i < n - 1 implies !by_key.dom().contains(
            #[trigger] rest[i],
        ) by {
            assert(rest[i] == keys[i + 1]);
        }
        if n < keys.len() {
            assert(rest[n - 1] == keys[n]);
        }
        lemma_first_registered(by_key, rest, n - 1);
    }
}

/// Keeps what is less than a day old.
struct FreshOnly {
    now: u64,
}

impl Retention<PendingOutgoingContext> for FreshOnly {
    closed spec fn keeps(&self, pending: PendingView) -> bool {
        age(self.now, pending.inserted_at) < OUTGOING_CONTEXT_TTL_NS
    }

    fn keep(&self, pending: &PendingOutgoingContext) -> (res: bool) {
        self.now.saturating_sub(pending.inserted_at) < OUTGOING_CONTEXT_TTL_NS
    }
}

impl Retention<u64> for FreshOnly {
    closed spec fn keeps(&self, at: u64) -> bool {
        age(self.now, at) < OUTGOING_CONTEXT_TTL_NS
    }

    fn keep(&self, at: &u64) -> (res: bool) {
        self.now.saturating_sub(*at) < OUTGOING_CONTEXT_TTL_NS
    }
}

/// Keeps what belongs to other quotes than one.
struct OtherQuotes<'a> {
    quote_id: &'a String,
}

impl<'a> Retention<PendingOutgoingContext> for OtherQuotes<'a> {
    closed spec fn keeps(&self, pending: PendingView) -> bool {
        pending.context.quote_id != self.quote_id@
    }

    fn keep(&self, pending: &PendingOutgoingContext) -> (res: bool) {
        !(pending.context.quote_id == *self.quote_id)
    }
}

impl OutgoingPaymentCorrelator {
    /// What the correlator knows.
    pub closed spec fn view(&self) -> CorrelatorView {
        CorrelatorView {
            by_key: self.by_key@,
            unmatched: reports(self.unmatched@),
            ready: events(self.ready@),
            finalized: self.finalized@,
        }
    }

    /// A correlator that knows nothing.
    pub fn new() -> (correlator: OutgoingPaymentCorrelator)
        ensures
            correlator@ == CorrelatorView::empty(),
    {
        let correlator = OutgoingPaymentCorrelator {
            by_key: TextMap::new(),
            unmatched: Vec::new(),
            ready: Vec::new(),
            finalized: TextMap::new(),
        };
        assert(correlator@.unmatched =~= Seq::empty());
        assert(correlator@.ready =~= Seq::empty());
        correlator
    }

    /// Whether no quote is registered, no report buffered and no event ready.
    pub fn is_idle(&self) -> (res: bool)
        ensures
            res == {
                &&& self@.by_key == Map::<Seq<char>, PendingView>::empty()
                &&& self@.unmatched.len() == 0
                &&& self@.ready.len() == 0
            },
    {
        self.by_key.is_empty() && self.unmatched.len() == 0 && self.ready.len() == 0
    }

    /// How many reports are buffered.
    pub fn buffered(&self) -> (n: usize)
        ensures
            n == self@.unmatched.len(),
    {
        self.unmatched.len()
    }

    /// Forgets what is too old.
    pub fn expire_correlator_state(&mut self, now: u64)
        ensures
            final(self)@ == old(self)@.expired(now),
    {
        self.by_key.retain(&FreshOnly { now });
        self.finalized.retain(&FreshOnly { now });
        assert(self.by_key@ =~= old(self)@.expired(now).by_key);
        assert(self.finalized@ =~= old(self)@.expired(now).finalized);
        let ghost before = reports(self.unmatched@);
        let ghost by_key = self.by_key@;
        let ghost finalized = self.finalized@;
        while self.unmatched.len() > 0 && now.saturating_sub(self.unmatched[0].received_at)
            >= UNMATCHED_OUTGOING_EVENT_TTL_NS
            invariant
                without_stale(reports(self.unmatched@), now) == without_stale(before, now),
                self.by_key@ == by_key,
                self.finalized@ == finalized,
                self.ready@ == old(self).ready@,
            decreases self.unmatched@.len(),
        {
            let ghost current = self.unmatched@;
            self.unmatched.remove(0);
            assert(reports(self.unmatched@) =~= reports(current).subrange(
                1,
                current.len() as int,
            ));
        }
    }

    fn finalize_quote(&mut self, quote_id: &String, now: u64)
        ensures
            final(self)@ == old(self)@.with_finalized(quote_id@, now),
    {
        self.by_key.retain(&OtherQuotes { quote_id });
        assert(self.by_key@ =~= old(self)@.with_finalized(quote_id@, now).by_key);
        self.finalized.insert(quote_id, now);
    }

    fn insert_outgoing_context_keys(
        &mut self,
        keys: &Vec<String>,
        context: OutgoingPaymentContext,
        now: u64,
    )
        ensures
            final(self)@ == old(self)@.registered(keys.deep_view(), context.deep_view(), now),
    {
        let ghost pending = PendingView { context: context.deep_view(), inserted_at: now };
        let ghost all = keys.deep_view();
        let mut i: usize = 0;
        assert(all.take(0) =~= Seq::empty());
        while i < keys.len()
            invariant
                i <= keys@.len(),
                all == keys.deep_view(),
                pending == (PendingView { context: context.deep_view(), inserted_at: now }),
                self@ == (CorrelatorView {
                    by_key: with_keys(old(self)@.by_key, all.take(i as int), pending),
                    ..old(self)@
                }),
            decreases keys@.len() - i,
        {
            self.by_key.insert(
                &keys[i],
                PendingOutgoingContext { context: context.clone(), inserted_at: now },
            );
            proof {
                let next = all.take(i + 1);
                assert(next.drop_last() =~= all.take(i as int));
                assert(next.last() == keys@[i as int]@);
            }
            i = i + 1;
        }
        assert(all.take(i as int) =~= all);
    }

    fn drop_unmatched_for_keys(&mut self, keys: &Vec<String>)
        ensures
            final(self)@ == (CorrelatorView {
                unmatched: without_sharing(old(self)@.unmatched, keys.deep_view()),
                ..old(self)@
            }),
    {
        let ghost all = reports(self.unmatched@);
        let ghost shared = keys.deep_view();
        let mut left: Vec<UnmatchedOutgoingPayment> = Vec::new();
        std::mem::swap(&mut left, &mut self.unmatched);
        let ghost held = left@;
        let mut kept: Vec<UnmatchedOutgoingPayment> = Vec::new();
        let mut n: usize = 0;
        let total: usize = left.len();
        assert(all.take(0) =~= Seq::empty());
        assert(reports(kept@) =~= Seq::empty());
        assert(left@ =~= held.skip(0));
        while n < total
            invariant
                n <= total,
                total == held.len(),
                all == reports(held),
                shared == keys.deep_view(),
                left@ == held.skip(n as int),
                reports(kept@) == without_sharing(all.take(n as int), shared),
                self@.by_key == old(self)@.by_key,
                self@.ready == old(self)@.ready,
                self@.finalized == old(self)@.finalized,
            decreases total - n,
        {
            let report = left.remove(0);
            let shares = any_shared(&report.keys, keys);
            let ghost kept_before = kept@;
            proof {
                let next = all.take(n + 1);
                assert(next.drop_last() =~= all.take(n as int));
                assert(next.last() == report.deep_view());
            }
            if !shares {
                kept.push(report);
                assert(reports(kept@) =~= reports(kept_before).push(report.deep_view()));
            }
            n = n + 1;
            assert(left@ =~= held.skip(n as int));
        }
        assert(all.take(n as int) =~= all);
        self.unmatched = kept;
    }

    fn find_unmatched(&self, keys: &Vec<String>) -> (at: usize)
        ensures
            at == first_sharing(self@.unmatched, keys.deep_view()),
            at <= self.unmatched@.len(),
    {
        let mut i: usize = 0;
        while i < self.unmatched.len()
            invariant
                i <= self.unmatched@.len(),
                forall|j: int|
                    0 <= j < i ==> !share_key(
                        (#[trigger] self@.unmatched[j]).keys,
                        keys.deep_view(),
                    ),
            decreases self.unmatched@.len() - i,
        {
            if any_shared(&self.unmatched[i].keys, keys) {
                assert(share_key(self@.unmatched[i as int].keys, keys.deep_view()));
                proof {
                    lemma_first_sharing(self@.unmatched, keys.deep_view(), i as int);
                }
                return i;
            }
            assert(!share_key(self@.unmatched[i as int].keys, keys.deep_view()));
            i = i + 1;
        }
        proof {
            lemma_first_sharing(self@.unmatched, keys.deep_view(), i as int);
        }
        i
    }

    /// Registers a quote under some keys. Says whether an event became ready.
    pub fn remember_outgoing_payment_context_keys(
        &mut self,
        keys: Vec<String>,
        context: OutgoingPaymentContext,
        now: u64,
    ) -> (matched: bool)
        ensures
            final(self)@ == old(self)@.expired(now).remembering(
                keys.deep_view(),
                context.deep_view(),
                now,
            ),
            matched == old(self)@.expired(now).makes_ready(keys.deep_view(), context.deep_view()),
    {
        self.expire_correlator_state(now);
        if self.finalized.get(&context.quote_id).is_some() {
            self.drop_unmatched_for_keys(&keys);
            return false;
        }
        let at: usize = self.find_unmatched(&keys);
        if at < self.unmatched.len() {
            let ghost known = self@;
            let ghost waiting = self.unmatched@;
            let report = self.unmatched.remove(at);
            assert(reports(self.unmatched@) =~= reports(waiting).remove(at as int));
            match map_outgoing_payment_event(&context, &report.payment, report.outcome) {
                Ok(event) => {
                    self.finalize_quote(&context.quote_id, now);
                    let ghost ready = self.ready@;
                    self.ready.push(event);
                    assert(events(self.ready@) =~= events(ready).push(event.deep_view()));
                    true
                },
                Err(_) => {
                    self.insert_outgoing_context_keys(&keys, context, now);
                    false
                },
            }
        } else {
            self.insert_outgoing_context_keys(&keys, context, now);
            false
        }
    }

    /// Registers a quote under one payment id or hash.
    pub fn remember_outgoing_payment_context(
        &mut self,
        payment_id: &str,
        context: OutgoingPaymentContext,
        now: u64,
    ) -> (matched: bool)
        ensures
            final(self)@ == old(self)@.expired(now).remembering(
                seq![normal_key(payment_id@)],
                context.deep_view(),
                now,
            ),
            matched == old(self)@.expired(now).makes_ready(
                seq![normal_key(payment_id@)],
                context.deep_view(),
            ),
    {
        let mut keys: Vec<String> = Vec::new();
        keys.push(normalize_payment_correlation_key(payment_id));
        assert(keys.deep_view() =~= seq![normal_key(payment_id@)]);
        self.remember_outgoing_payment_context_keys(keys, context, now)
    }

    /// Registers a quote under the keys of a payment.
    pub fn remember_outgoing_payment_keys(
        &mut self,
        payment: &Payment,
        context: OutgoingPaymentContext,
        now: u64,
    ) -> (matched: bool)
        ensures
            final(self)@ == old(self)@.expired(now).remembering(
                keys_of(*payment),
                context.deep_view(),
                now,
            ),
            matched == old(self)@.expired(now).makes_ready(keys_of(*payment), context.deep_view()),
    {
        let keys = outgoing_payment_correlation_keys(payment);
        self.remember_outgoing_payment_context_keys(keys, context, now)
    }

    /// A quote is done with.
    pub fn remove_outgoing_payment_context(&mut self, quote_id: &String, now: u64)
        ensures
            final(self)@ == old(self)@.expired(now).with_finalized(quote_id@, now),
    {
        self.expire_correlator_state(now);
        self.finalize_quote(quote_id, now);
    }

    fn find_registered(&self, keys: &Vec<String>) -> (at: usize)
        ensures
            at == first_registered(self@.by_key, keys.deep_view()),
            at <= keys@.len(),
            at < keys@.len() ==> self@.by_key.dom().contains(keys@[at as int]@),
    {
        let mut i: usize = 0;
        while i < keys.len()
            invariant
                i <= keys@.len(),
                forall|j: int|
                    0 <= j < i ==> !self@.by_key.dom().contains(#[trigger] keys.deep_view()[j]),
            decreases keys@.len() - i,
        {
            if self.by_key.get(&keys[i]).is_some() {
                proof {
                    assert(keys.deep_view()[i as int] == keys@[i as int]@);
                    lemma_first_registered(self@.by_key, keys.deep_view(), i as int);
                }
                return i;
            }
            assert(!self@.by_key.dom().contains(keys.deep_view()[i as int]));
            i = i + 1;
        }
        proof {
            lemma_first_registered(self@.by_key, keys.deep_view(), i as int);
        }
        i
    }

    /// Takes a report: the event it stands for where its quote is registered,
    /// else nothing, and the report is buffered.
    pub fn take_correlated_outgoing_event(
        &mut self,
        payment: Payment,
        outcome: OutgoingPaymentOutcome,
        now: u64,
    ) -> (res: Result<Option<Event>, PaymentError>)
        ensures
            result_view(res) == old(self)@.expired(now).reporting(payment, outcome, now).0,
            final(self)@ == old(self)@.expired(now).reporting(payment, outcome, now).1,
    {
        self.expire_correlator_state(now);
        let keys = outgoing_payment_correlation_keys(&payment);
        let at: usize = self.find_registered(&keys);
        if at < keys.len() {
            assert(keys.deep_view()[at as int] == keys@[at as int]@);
            let found = match self.by_key.get(&keys[at]) {
                Some(pending) => Some(pending.context.clone()),
                None => None,
            };
            match found {
                Some(context) => {
                    self.finalize_quote(&context.quote_id, now);
                    return match map_outgoing_payment_event(&context, &payment, outcome) {
                        Ok(event) => Ok(Some(event)),
                        Err(error) => Err(error),
                    };
                },
                None => {},
            }
        }
        let ghost waiting = self.unmatched@;
        let report = UnmatchedOutgoingPayment { keys, payment, outcome, received_at: now };
        self.unmatched.push(report);
        assert(reports(self.unmatched@) =~= reports(waiting).push(report.deep_view()));
        Ok(None)
    }

    /// Takes the oldest event that is ready.
    pub fn take_ready_outgoing_event(&mut self, now: u64) -> (res: Option<Event>)
        ensures
            match res {
                Some(event) => {
                    &&& old(self)@.ready.len() > 0
                    &&& event.deep_view() == old(self)@.ready[0]
                    &&& final(self)@ == (CorrelatorView {
                        ready: old(self)@.ready.subrange(1, old(self)@.ready.len() as int),
                        ..old(self)@.expired(now)
                    })
                },
                None => old(self)@.ready.len() == 0 && final(self)@ == old(self)@.expired(now),
            },
    {
        self.expire_correlator_state(now);
        if self.ready.len() == 0 {
            return None;
        }
        let ghost ready = self.ready@;
        let event = self.ready.remove(0);
        assert(events(self.ready@) =~= events(ready).subrange(1, ready.len() as int));
        Some(event)
    }
}

} // verus!
