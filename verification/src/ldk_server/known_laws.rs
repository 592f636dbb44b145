//! What the LDK Server backend knows of outgoing payments, and how each
//! operation changes it.

use vstd::prelude::*;

use crate::encoding::{array_of, hex_bytes, hex_text};
use crate::ldk_server::answer_laws::{
    can_be_told, can_settle, cost_msat, is_key, is_reported, preimage_of, settles,
};
use crate::ldk_server::backend::{
    make_payment, payment_found, payment_sent, PaymentConcluded, PaymentSent, PaymentStart,
};
use crate::ldk_server::correlator::{
    event_answer, first_registered, first_sharing, keys_of, share_key, without_sharing,
    without_stale, ContextView, CorrelatorView, OutgoingPaymentContext, OutgoingPaymentCorrelator,
    OutgoingPaymentOutcome, PendingView, UnmatchedView,
};
use crate::ldk_server::events::{
    envelope_answer, event_from_envelope, EventStreamState, NodeEvent, StreamInput, StreamStep,
};
use crate::ldk_server::laws::{
    lemma_first_registered_found, lemma_none_registered, lemma_with_keys, young_reports_are_kept,
};
use crate::ldk_server::payments::{
    payment_answer, Coded, Payment, PaymentError, PaymentErrorView, PaymentStatus,
};
use crate::payment::{
    CurrencyUnit, Event, EventView, MakePaymentResponse, MakePaymentResponseView, MeltQuoteState,
    OutgoingPaymentOptions, PaymentIdentifier,
};
use crate::payment_laws::is_rounded_up;
use crate::text::{lower, trimmed};

verus! {

/// Whether the view of an answer tells what became of a payment.
pub open spec fn tells_said(
    answer: MakePaymentResponseView,
    unit: CurrencyUnit,
    payment: Payment,
) -> bool {
    &&& match (answer.payment_proof, preimage_of(payment)) {
        (Some(text), Some(preimage)) => text == preimage@,
        (None, None) => true,
        _ => false,
    }
    &&& answer.total_spent.unit == unit
    &&& match payment.status {
        Coded::Known(PaymentStatus::Succeeded) => {
            &&& answer.status == MeltQuoteState::Paid
            &&& is_rounded_up(answer.total_spent, cost_msat(payment))
        },
        Coded::Known(PaymentStatus::Pending) => {
            answer.status == MeltQuoteState::Pending && answer.total_spent.value == 0
        },
        Coded::Known(PaymentStatus::Failed) => {
            answer.status == MeltQuoteState::Failed && answer.total_spent.value == 0
        },
        Coded::Unknown(_) => false,
    }
}

/// Whether the view of an event settles a quote as a report says.
pub open spec fn settles_said(
    event: EventView,
    quote: Seq<char>,
    unit: CurrencyUnit,
    payment: Payment,
    outcome: OutgoingPaymentOutcome,
) -> bool {
    match (outcome, event) {
        (
            OutgoingPaymentOutcome::Succeeded,
            EventView::PaymentSuccessful { quote_id, details },
        ) => {
            &&& quote_id == quote
            &&& details.payment_lookup_id == PaymentIdentifier::PaymentId(
                array_of(hex_bytes(payment.id@)),
            )
            &&& tells_said(details, unit, payment)
        },
        (OutgoingPaymentOutcome::Failed, EventView::PaymentFailed { quote_id, reason }) => {
            &&& quote_id == quote
            &&& reason == "LDK Server payment "@ + payment.id@ + " failed"@
        },
        _ => false,
    }
}

/// What is said of an event is what the event says.
pub proof fn events_say_what_they_hold(event: Event)
    ensures
        match (event, event.deep_view()) {
            (Event::PaymentReceived(held), EventView::PaymentReceived(said)) => {
                &&& said.payment_identifier == held.payment_identifier
                &&& said.payment_amount == held.payment_amount
                &&& said.payment_id == held.payment_id@
            },
            (
                Event::PaymentSuccessful { quote_id, details: held },
                EventView::PaymentSuccessful { quote_id: quote, details: said },
            ) => quote == quote_id@ && says_same(held, said),
            (
                Event::PaymentFailed { quote_id, reason },
                EventView::PaymentFailed { quote_id: quote, reason: words },
            ) => quote == quote_id@ && words == reason@,
            _ => false,
        },
{
}

/// Whether an answer is said as it is.
pub open spec fn says_same(held: MakePaymentResponse, said: MakePaymentResponseView) -> bool {
    &&& said.payment_lookup_id == held.payment_lookup_id
    &&& said.status == held.status
    &&& said.total_spent == held.total_spent
    &&& match (held.payment_proof, said.payment_proof) {
        (Some(text), Some(words)) => words == text@,
        (None, None) => true,
        _ => false,
    }
}

/// What is said of an answer is what the answer says.
pub proof fn answers_say_what_they_hold(held: MakePaymentResponse)
    ensures
        says_same(held, held.deep_view()),
{
}

/// The event that a report stands for settles its quote as the report says, and
/// there is one exactly where the report says enough.
pub proof fn events_settle_as_reported(
    context: ContextView,
    payment: Payment,
    outcome: OutgoingPaymentOutcome,
)
    ensures
        match event_answer(context, payment, outcome) {
            Ok(event) => {
                &&& can_settle(context.unit, payment, outcome)
                &&& settles_said(event, context.quote_id, context.unit, payment, outcome)
            },
            Err(_) => !can_settle(context.unit, payment, outcome),
        },
{
}

/// What a payment is answered with tells what became of it, and there is an
/// answer exactly where that can be told.
pub proof fn payment_answers_tell(
    unit: CurrencyUnit,
    identifier: PaymentIdentifier,
    payment: Payment,
)
    ensures
        match payment_answer(unit, identifier, payment) {
            Ok(answer) => {
                &&& can_be_told(unit, payment)
                &&& answer.payment_lookup_id == identifier
                &&& tells_said(answer, unit, payment)
            },
            Err(_) => !can_be_told(unit, payment),
        },
{
}

/// Whether something is as old as it may get, in nanoseconds.
pub open spec fn is_old(now: u64, at: u64, ttl: int) -> bool {
    now - at >= ttl
}

/// Whether what is too old was forgotten, and nothing else: quotes that were
/// registered or done with a day ago, and from the oldest on the reports that came
/// a minute ago.
pub open spec fn forgets(before: CorrelatorView, after: CorrelatorView, now: u64) -> bool {
    let day = 24 * 60 * 60 * 1_000_000_000int;
    let minute = 60 * 1_000_000_000int;
    &&& forall|key: Seq<char>|
        #![trigger after.by_key.dom().contains(key)]
        #![trigger before.by_key.dom().contains(key)]
        after.by_key.dom().contains(key) <==> before.by_key.dom().contains(key) && !is_old(
            now,
            before.by_key[key].inserted_at,
            day,
        )
    &&& forall|key: Seq<char>| #[trigger]
        after.by_key.dom().contains(key) ==> after.by_key[key] == before.by_key[key]
    &&& forall|quote: Seq<char>|
        #![trigger after.finalized.dom().contains(quote)]
        #![trigger before.finalized.dom().contains(quote)]
        after.finalized.dom().contains(quote) <==> before.finalized.dom().contains(quote)
            && !is_old(now, before.finalized[quote], day)
    &&& forall|quote: Seq<char>| #[trigger]
        after.finalized.dom().contains(quote) ==> after.finalized[quote] == before.finalized[quote]
    &&& after.ready == before.ready
    &&& exists|n: int| #[trigger] drops_first(before.unmatched, after.unmatched, n, now, minute)
}

/// Whether the first reports of a list are dropped, all of them old, up to one
/// that is not.
pub open spec fn drops_first(
    before: Seq<UnmatchedView>,
    after: Seq<UnmatchedView>,
    n: int,
    now: u64,
    ttl: int,
) -> bool {
    &&& 0 <= n <= before.len()
    &&& after == before.skip(n)
    &&& forall|i: int| 0 <= i < n ==> is_old(now, (#[trigger] before[i]).received_at, ttl)
    &&& n < before.len() ==> !is_old(now, before[n].received_at, ttl)
}

proof fn lemma_forgets(known: CorrelatorView, now: u64)
    ensures
        forgets(known, known.expired(now), now),
{
    lemma_drops_first(known.unmatched, now);
    let n = young_reports_are_kept(known.unmatched, now) as int;
    let after = known.expired(now).unmatched;
    assert(after == known.unmatched.skip(n));
    if n < known.unmatched.len() {
        assert(after[0] == known.unmatched[n]);
    }
    assert(drops_first(known.unmatched, after, n, now, 60 * 1_000_000_000int));
}

proof fn lemma_drops_first(unmatched: Seq<UnmatchedView>, now: u64)
    ensures
        ({
            let after = without_stale(unmatched, now);
            after.len() > 0 ==> !is_old(now, after[0].received_at, 60 * 1_000_000_000int)
        }),
    decreases unmatched.len(),
{
    if unmatched.len() > 0 && is_old(now, unmatched[0].received_at, 60 * 1_000_000_000int) {
        lemma_drops_first(unmatched.subrange(1, unmatched.len() as int), now);
    }
}

/// Whether a quote was done with, and nothing else changed: none of its keys is
/// registered any more, and every other key is as it was.
pub open spec fn finishes(
    before: CorrelatorView,
    after: CorrelatorView,
    quote: Seq<char>,
    now: u64,
) -> bool {
    &&& leaves_others(before, after, quote)
    &&& after.finalized == before.finalized.insert(quote, now)
    &&& after.unmatched == before.unmatched
    &&& after.ready == before.ready
}

/// Whether the keys of one quote are no longer registered, and all others are.
pub open spec fn leaves_others(
    before: CorrelatorView,
    after: CorrelatorView,
    quote: Seq<char>,
) -> bool {
    &&& forall|key: Seq<char>|
        #![trigger after.by_key.dom().contains(key)]
        #![trigger before.by_key.dom().contains(key)]
        after.by_key.dom().contains(key) <==> before.by_key.dom().contains(key)
            && before.by_key[key].context.quote_id != quote
    &&& forall|key: Seq<char>| #[trigger]
        after.by_key.dom().contains(key) ==> after.by_key[key] == before.by_key[key]
}

/// Whether a quote stands under each of some keys since some moment, and every
/// other key is as it was.
pub open spec fn stands_under(
    before: CorrelatorView,
    after: CorrelatorView,
    keys: Seq<Seq<char>>,
    quote: Seq<char>,
    unit: CurrencyUnit,
    now: u64,
) -> bool {
    &&& forall|key: Seq<char>|
        #![trigger after.by_key.dom().contains(key)]
        #![trigger keys.contains(key)]
        after.by_key.dom().contains(key) <==> before.by_key.dom().contains(key) || keys.contains(
            key,
        )
    &&& forall|key: Seq<char>| #[trigger]
        after.by_key.dom().contains(key) ==> if keys.contains(key) {
            &&& after.by_key[key].context.quote_id == quote
            &&& after.by_key[key].context.unit == unit
            &&& after.by_key[key].inserted_at == now
        } else {
            after.by_key[key] == before.by_key[key]
        }
}

/// Whether a report has one of some keys.
pub open spec fn has_one_of(report: UnmatchedView, keys: Seq<Seq<char>>) -> bool {
    exists|key: Seq<char>| #[trigger] report.keys.contains(key) && keys.contains(key)
}

/// Whether a report is the first of a list that has one of some keys.
pub open spec fn is_first_with(
    unmatched: Seq<UnmatchedView>,
    keys: Seq<Seq<char>>,
    at: int,
) -> bool {
    &&& 0 <= at < unmatched.len()
    &&& has_one_of(unmatched[at], keys)
    &&& forall|i: int| 0 <= i < at ==> !has_one_of(#[trigger] unmatched[i], keys)
}

/// Whether no report of a list has one of some keys.
pub open spec fn none_has(unmatched: Seq<UnmatchedView>, keys: Seq<Seq<char>>) -> bool {
    forall|i: int| 0 <= i < unmatched.len() ==> !has_one_of(#[trigger] unmatched[i], keys)
}

/// Whether the first report with one of the keys settles the quote: its event is
/// the last that is ready, the quote is done with, and the report is taken. Where
/// it does not say enough it is taken, and the quote stands under the keys.
pub open spec fn takes_report(
    before: CorrelatorView,
    after: CorrelatorView,
    keys: Seq<Seq<char>>,
    quote: Seq<char>,
    unit: CurrencyUnit,
    now: u64,
    notify: bool,
    at: int,
) -> bool {
    let report = before.unmatched[at];
    &&& is_first_with(before.unmatched, keys, at)
    &&& after.unmatched == before.unmatched.remove(at)
    &&& notify == can_settle(unit, report.payment, report.outcome)
    &&& if notify {
        &&& leaves_others(before, after, quote)
        &&& after.finalized == before.finalized.insert(quote, now)
        &&& after.ready.len() == before.ready.len() + 1
        &&& after.ready.drop_last() == before.ready
        &&& settles_said(after.ready.last(), quote, unit, report.payment, report.outcome)
    } else {
        &&& stands_under(before, after, keys, quote, unit, now)
        &&& after.finalized == before.finalized
        &&& after.ready == before.ready
    }
}

/// Whether a quote registered under some keys. One that is done with drops the
/// reports that have them. One that a report waits for is settled by it. Any
/// other stands under the keys from then on.
pub open spec fn registers(
    before: CorrelatorView,
    after: CorrelatorView,
    keys: Seq<Seq<char>>,
    quote: Seq<char>,
    unit: CurrencyUnit,
    now: u64,
    notify: bool,
) -> bool {
    if before.finalized.dom().contains(quote) {
        &&& !notify
        &&& after.by_key == before.by_key
        &&& after.finalized == before.finalized
        &&& after.ready == before.ready
        &&& forall|report: UnmatchedView| #[trigger]
            after.unmatched.contains(report) <==> before.unmatched.contains(report)
                && !has_one_of(report, keys)
    } else if none_has(before.unmatched, keys) {
        &&& !notify
        &&& stands_under(before, after, keys, quote, unit, now)
        &&& after.finalized == before.finalized
        &&& after.ready == before.ready
        &&& after.unmatched == before.unmatched
    } else {
        exists|at: int| #[trigger]
            takes_report(before, after, keys, quote, unit, now, notify, at)
    }
}

/// Whether a quote registered, of what was still known then.
pub open spec fn is_registered(
    before: CorrelatorView,
    after: CorrelatorView,
    keys: Seq<Seq<char>>,
    quote: Seq<char>,
    unit: CurrencyUnit,
    now: u64,
    notify: bool,
) -> bool {
    exists|fresh: CorrelatorView| #[trigger]
        forgets(before, fresh, now) && registers(fresh, after, keys, quote, unit, now, notify)
}

/// Whether a quote was done with, of what was still known then.
pub open spec fn is_finished(
    before: CorrelatorView,
    after: CorrelatorView,
    quote: Seq<char>,
    now: u64,
) -> bool {
    exists|fresh: CorrelatorView| #[trigger]
        forgets(before, fresh, now) && finishes(fresh, after, quote, now)
}

/// Whether a list holds exactly the keys of a payment.
pub open spec fn are_keys(payment: Payment, keys: Seq<Seq<char>>) -> bool {
    forall|key: Seq<char>| #[trigger] keys.contains(key) <==> is_key(payment, key)
}

proof fn lemma_keys(payment: Payment)
    ensures
        are_keys(payment, keys_of(payment)),
{
    let keys = keys_of(payment);
    assert forall|key: Seq<char>| #[trigger] keys.contains(key) <==> is_key(payment, key) by {
        if is_key(payment, key) {
            let i = if keys[0] == key {
                0int
            } else {
                1
            };
            assert(keys[i] == key);
        }
    }
}

proof fn lemma_shares(report: UnmatchedView, keys: Seq<Seq<char>>)
    ensures
        share_key(report.keys, keys) <==> has_one_of(report, keys),
{
    if share_key(report.keys, keys) {
        let (i, j) = choose|i: int, j: int|
            0 <= i < report.keys.len() && 0 <= j < keys.len() && #[trigger] report.keys[i]
                == #[trigger] keys[j];
        assert(report.keys.contains(report.keys[i]));
        assert(keys.contains(keys[j]));
    }
    if has_one_of(report, keys) {
        let key = choose|key: Seq<char>| #[trigger] report.keys.contains(key) && keys.contains(key);
        let i = choose|i: int| 0 <= i < report.keys.len() && report.keys[i] == key;
        let j = choose|j: int| 0 <= j < keys.len() && keys[j] == key;
        assert(report.keys[i] == keys[j]);
    }
}

proof fn lemma_first_with(unmatched: Seq<UnmatchedView>, keys: Seq<Seq<char>>)
    ensures
        ({
            let at = first_sharing(unmatched, keys);
            &&& 0 <= at <= unmatched.len()
            &&& at < unmatched.len() ==> is_first_with(unmatched, keys, at)
            &&& at >= unmatched.len() ==> none_has(unmatched, keys)
        }),
    decreases unmatched.len(),
{
    if unmatched.len() > 0 {
        lemma_shares(unmatched[0], keys);
        if !share_key(unmatched[0].keys, keys) {
            let rest = unmatched.subrange(1, unmatched.len() as int);
            lemma_first_with(rest, keys);
            let at = first_sharing(rest, keys);
            assert forall|i: int| 0 <= i < at + 1 implies !has_one_of(
                #[trigger] unmatched[i],
                keys,
            ) by {
                if i > 0 {
                    assert(rest[i - 1] == unmatched[i]);
                }
            }
            if at < rest.len() {
                assert(rest[at] == unmatched[at + 1]);
            }
        }
    }
}

proof fn lemma_drops_sharing(unmatched: Seq<UnmatchedView>, keys: Seq<Seq<char>>)
    ensures
        forall|report: UnmatchedView| #[trigger]
            without_sharing(unmatched, keys).contains(report) <==> unmatched.contains(report)
                && !has_one_of(report, keys),
    decreases unmatched.len(),
{
    if unmatched.len() > 0 {
        let earlier = without_sharing(unmatched.drop_last(), keys);
        let kept = without_sharing(unmatched, keys);
        lemma_drops_sharing(unmatched.drop_last(), keys);
        lemma_shares(unmatched.last(), keys);
        assert forall|report: UnmatchedView| unmatched.contains(report) <==> report
            == unmatched.last() || #[trigger] unmatched.drop_last().contains(report) by {
            lemma_member(unmatched, report);
        }
        assert forall|report: UnmatchedView| #[trigger]
            kept.contains(report) <==> unmatched.contains(report) && !has_one_of(report, keys) by {
            assert(unmatched.drop_last().contains(report) || !unmatched.drop_last().contains(
                report,
            ));
            assert(earlier.contains(report) || !earlier.contains(report));
            if !has_one_of(unmatched.last(), keys) {
                lemma_member(kept, report);
                assert(kept.drop_last() =~= earlier);
            }
        }
    }
}

proof fn lemma_member(list: Seq<UnmatchedView>, report: UnmatchedView)
    requires
        list.len() > 0,
    ensures
        list.contains(report) <==> report == list.last() || list.drop_last().contains(report),
{
    if list.contains(report) && report != list.last() {
        let i = choose|i: int| 0 <= i < list.len() && list[i] == report;
        assert(list.drop_last()[i] == report);
    }
    if list.drop_last().contains(report) {
        let i = choose|i: int| 0 <= i < list.len() - 1 && list.drop_last()[i] == report;
        assert(list[i] == report);
    }
    assert(list[list.len() - 1] == list.last());
}

proof fn lemma_registers(
    known: CorrelatorView,
    keys: Seq<Seq<char>>,
    context: ContextView,
    now: u64,
)
    ensures
        registers(
            known,
            known.remembering(keys, context, now),
            keys,
            context.quote_id,
            context.unit,
            now,
            known.makes_ready(keys, context),
        ),
{
    let after = known.remembering(keys, context, now);
    let at = first_sharing(known.unmatched, keys);
    let pending = PendingView { context, inserted_at: now };
    lemma_first_with(known.unmatched, keys);
    lemma_drops_sharing(known.unmatched, keys);
    lemma_with_keys(known.by_key, keys, pending);
    if !known.finalized.dom().contains(context.quote_id) && at < known.unmatched.len() {
        let report = known.unmatched[at];
        let notify = known.makes_ready(keys, context);
        events_settle_as_reported(context, report.payment, report.outcome);
        if notify {
            assert(after.ready.drop_last() =~= known.ready);
        }
        assert(has_one_of(known.unmatched[at], keys));
        assert(takes_report(
            known,
            after,
            keys,
            context.quote_id,
            context.unit,
            now,
            notify,
            at,
        ));
    }
}

proof fn lemma_is_registered(
    known: CorrelatorView,
    keys: Seq<Seq<char>>,
    context: ContextView,
    now: u64,
)
    ensures
        is_registered(
            known,
            known.expired(now).remembering(keys, context, now),
            keys,
            context.quote_id,
            context.unit,
            now,
            known.expired(now).makes_ready(keys, context),
        ),
{
    lemma_forgets(known, now);
    lemma_registers(known.expired(now), keys, context, now);
}

/// A correlator begins with nothing, and is idle while no quote is registered, no
/// report is buffered and no event is ready.
pub proof fn correlators_begin_with_nothing(
    fresh: OutgoingPaymentCorrelator,
    correlator: OutgoingPaymentCorrelator,
    idle: bool,
    n: usize,
)
    requires
        call_ensures(OutgoingPaymentCorrelator::new, (), fresh),
        call_ensures(OutgoingPaymentCorrelator::is_idle, (&correlator,), idle),
        call_ensures(OutgoingPaymentCorrelator::buffered, (&correlator,), n),
    ensures
        fresh@.by_key.dom() == Set::<Seq<char>>::empty(),
        fresh@.finalized.dom() == Set::<Seq<char>>::empty(),
        fresh@.unmatched.len() == 0,
        fresh@.ready.len() == 0,
        idle <==> correlator@.by_key.dom() == Set::<Seq<char>>::empty()
            && correlator@.unmatched.len() == 0 && correlator@.ready.len() == 0,
        n == correlator@.unmatched.len(),
{
    if correlator@.by_key.dom() == Set::<Seq<char>>::empty() {
        assert(correlator@.by_key =~= Map::<Seq<char>, PendingView>::empty());
    }
}

/// What is too old is forgotten, and nothing else.
pub proof fn only_what_is_old_is_forgotten(now: u64)
    ensures
        forall|correlator: &mut OutgoingPaymentCorrelator, done: ()| #[trigger]
            call_ensures(
                OutgoingPaymentCorrelator::expire_correlator_state,
                (correlator, now),
                done,
            ) ==> forgets((*correlator)@, (*final(correlator))@, now),
{
    assert forall|correlator: &mut OutgoingPaymentCorrelator, done: ()| #[trigger]
        call_ensures(
            OutgoingPaymentCorrelator::expire_correlator_state,
            (correlator, now),
            done,
        ) implies forgets((*correlator)@, (*final(correlator))@, now) by {
        lemma_forgets((*correlator)@, now);
    }
}

/// A quote that registers under keys, under an id or a hash, or under the keys of
/// a payment, stands under them from then on, unless it is done with or a report
/// waits for it.
pub proof fn quotes_stand_under_their_keys(
    keys: Vec<String>,
    id: &str,
    payment: Payment,
    context: OutgoingPaymentContext,
    now: u64,
)
    ensures
        forall|correlator: &mut OutgoingPaymentCorrelator, notify: bool| #[trigger]
            call_ensures(
                OutgoingPaymentCorrelator::remember_outgoing_payment_context_keys,
                (correlator, keys, context, now),
                notify,
            ) ==> is_registered(
                (*correlator)@,
                (*final(correlator))@,
                keys.deep_view(),
                context.quote_id@,
                context.unit,
                now,
                notify,
            ),
        forall|correlator: &mut OutgoingPaymentCorrelator, notify: bool| #[trigger]
            call_ensures(
                OutgoingPaymentCorrelator::remember_outgoing_payment_context,
                (correlator, id, context, now),
                notify,
            ) ==> is_registered(
                (*correlator)@,
                (*final(correlator))@,
                seq![lower(trimmed(id@))],
                context.quote_id@,
                context.unit,
                now,
                notify,
            ),
        forall|correlator: &mut OutgoingPaymentCorrelator, notify: bool| #[trigger]
            call_ensures(
                OutgoingPaymentCorrelator::remember_outgoing_payment_keys,
                (correlator, &payment, context, now),
                notify,
            ) ==> is_registered_for(
                (*correlator)@,
                (*final(correlator))@,
                payment,
                context,
                now,
                notify,
            ),
{
    let said = context.deep_view();
    assert forall|correlator: &mut OutgoingPaymentCorrelator, notify: bool| #[trigger]
        call_ensures(
            OutgoingPaymentCorrelator::remember_outgoing_payment_context_keys,
            (correlator, keys, context, now),
            notify,
        ) implies is_registered(
        (*correlator)@,
        (*final(correlator))@,
        keys.deep_view(),
        context.quote_id@,
        context.unit,
        now,
        notify,
    ) by {
        lemma_is_registered((*correlator)@, keys.deep_view(), said, now);
    }
    assert forall|correlator: &mut OutgoingPaymentCorrelator, notify: bool| #[trigger]
        call_ensures(
            OutgoingPaymentCorrelator::remember_outgoing_payment_context,
            (correlator, id, context, now),
            notify,
        ) implies is_registered(
        (*correlator)@,
        (*final(correlator))@,
        seq![lower(trimmed(id@))],
        context.quote_id@,
        context.unit,
        now,
        notify,
    ) by {
        lemma_is_registered((*correlator)@, seq![lower(trimmed(id@))], said, now);
    }
    assert forall|correlator: &mut OutgoingPaymentCorrelator, notify: bool| #[trigger]
        call_ensures(
            OutgoingPaymentCorrelator::remember_outgoing_payment_keys,
            (correlator, &payment, context, now),
            notify,
        ) implies is_registered_for(
        (*correlator)@,
        (*final(correlator))@,
        payment,
        context,
        now,
        notify,
    ) by {
        lemma_keys(payment);
        lemma_is_registered((*correlator)@, keys_of(payment), said, now);
    }
}

/// Whether a quote registered under exactly the keys of a payment.
pub open spec fn is_registered_for(
    before: CorrelatorView,
    after: CorrelatorView,
    payment: Payment,
    context: OutgoingPaymentContext,
    now: u64,
    notify: bool,
) -> bool {
    exists|keys: Seq<Seq<char>>| #[trigger]
        are_keys(payment, keys) && is_registered(
            before,
            after,
            keys,
            context.quote_id@,
            context.unit,
            now,
            notify,
        )
}

/// A quote that is removed is done with.
pub proof fn removed_quotes_are_done_with(quote: String, now: u64)
    ensures
        forall|correlator: &mut OutgoingPaymentCorrelator, done: ()| #[trigger]
            call_ensures(
                OutgoingPaymentCorrelator::remove_outgoing_payment_context,
                (correlator, &quote, now),
                done,
            ) ==> is_finished((*correlator)@, (*final(correlator))@, quote@, now),
{
    assert forall|correlator: &mut OutgoingPaymentCorrelator, done: ()| #[trigger]
        call_ensures(
            OutgoingPaymentCorrelator::remove_outgoing_payment_context,
            (correlator, &quote, now),
            done,
        ) implies is_finished((*correlator)@, (*final(correlator))@, quote@, now) by {
        lemma_forgets((*correlator)@, now);
        assert(finishes((*correlator)@.expired(now), (*final(correlator))@, quote@, now));
    }
}

/// The oldest ready event is handed out and the others stay, and what is too old
/// is forgotten.
pub proof fn ready_events_are_handed_out(now: u64)
    ensures
        forall|correlator: &mut OutgoingPaymentCorrelator, res: Option<Event>| #[trigger]
            call_ensures(
                OutgoingPaymentCorrelator::take_ready_outgoing_event,
                (correlator, now),
                res,
            ) ==> hands_out(res, (*correlator)@, (*final(correlator))@, now),
{
    assert forall|correlator: &mut OutgoingPaymentCorrelator, res: Option<Event>| #[trigger]
        call_ensures(
            OutgoingPaymentCorrelator::take_ready_outgoing_event,
            (correlator, now),
            res,
        ) implies hands_out(res, (*correlator)@, (*final(correlator))@, now) by {
        lemma_forgets((*correlator)@, now);
    }
}

/// Whether the oldest ready event was handed out, where there is one.
pub open spec fn hands_out(
    res: Option<Event>,
    before: CorrelatorView,
    after: CorrelatorView,
    now: u64,
) -> bool {
    &&& forgets(before, CorrelatorView { ready: before.ready, ..after }, now)
    &&& match res {
        Some(event) => {
            &&& before.ready.len() > 0
            &&& event.deep_view() == before.ready[0]
            &&& after.ready == before.ready.skip(1)
        },
        None => before.ready.len() == 0 && after.ready.len() == 0,
    }
}

/// Whether a report was taken. Where a quote stands under a key of the payment it
/// is settled by the report and done with. Otherwise the report is buffered last,
/// under the keys of the payment.
pub open spec fn takes(
    res: Result<Option<Event>, PaymentError>,
    before: CorrelatorView,
    after: CorrelatorView,
    payment: Payment,
    outcome: OutgoingPaymentOutcome,
    now: u64,
) -> bool {
    ||| exists|key: Seq<char>| #[trigger]
        is_key(payment, key) && before.by_key.dom().contains(key) && settles_under(
            res,
            before,
            after,
            key,
            payment,
            outcome,
            now,
        )
    ||| {
        &&& forall|key: Seq<char>| #[trigger]
            is_key(payment, key) ==> !before.by_key.dom().contains(key)
        &&& res matches Ok(None)
        &&& after.by_key == before.by_key
        &&& after.finalized == before.finalized
        &&& after.ready == before.ready
        &&& after.unmatched.len() == before.unmatched.len() + 1
        &&& after.unmatched.drop_last() == before.unmatched
        &&& are_keys(payment, after.unmatched.last().keys)
        &&& after.unmatched.last().payment == payment
        &&& after.unmatched.last().outcome == outcome
        &&& after.unmatched.last().received_at == now
    }
}

/// Whether a report settles the quote that stands under a key.
pub open spec fn settles_under(
    res: Result<Option<Event>, PaymentError>,
    before: CorrelatorView,
    after: CorrelatorView,
    key: Seq<char>,
    payment: Payment,
    outcome: OutgoingPaymentOutcome,
    now: u64,
) -> bool {
    let context = before.by_key[key].context;
    &&& finishes(before, after, context.quote_id, now)
    &&& match res {
        Ok(Some(event)) => {
            &&& can_settle(context.unit, payment, outcome)
            &&& settles(event, context.quote_id, context.unit, payment, outcome)
        },
        Ok(None) => false,
        Err(_) => !can_settle(context.unit, payment, outcome),
    }
}

/// Whether a report was taken, of what was still known then.
pub open spec fn is_taken(
    res: Result<Option<Event>, PaymentError>,
    before: CorrelatorView,
    after: CorrelatorView,
    payment: Payment,
    outcome: OutgoingPaymentOutcome,
    now: u64,
) -> bool {
    exists|fresh: CorrelatorView| #[trigger]
        forgets(before, fresh, now) && takes(res, fresh, after, payment, outcome, now)
}

proof fn lemma_taken(
    res: Result<Option<Event>, PaymentError>,
    known: CorrelatorView,
    payment: Payment,
    outcome: OutgoingPaymentOutcome,
    now: u64,
)
    requires
        crate::payment::result_view(res) == known.expired(now).reporting(payment, outcome, now).0,
    ensures
        is_taken(
            res,
            known,
            known.expired(now).reporting(payment, outcome, now).1,
            payment,
            outcome,
            now,
        ),
{
    let fresh = known.expired(now);
    let after = fresh.reporting(payment, outcome, now).1;
    let keys = keys_of(payment);
    let at = first_registered(fresh.by_key, keys);
    lemma_forgets(known, now);
    lemma_keys(payment);
    lemma_first_registered_found(fresh.by_key, keys);
    if at < keys.len() {
        let key = keys[at];
        assert(keys.contains(key));
        assert(is_key(payment, key));
        assert(settles_under(res, fresh, after, key, payment, outcome, now));
    } else {
        lemma_none_registered(fresh.by_key, keys);
        assert forall|key: Seq<char>| #[trigger]
            is_key(payment, key) implies !fresh.by_key.dom().contains(key) by {
            assert(keys.contains(key));
        }
        assert(after.unmatched.drop_last() =~= fresh.unmatched);
    }
    assert(takes(res, fresh, after, payment, outcome, now));
}

/// A report settles the quote that stands under a key of its payment, or is
/// buffered.
pub proof fn reports_settle_quotes_or_wait(
    payment: Payment,
    outcome: OutgoingPaymentOutcome,
    now: u64,
)
    ensures
        forall|correlator: &mut OutgoingPaymentCorrelator, res: Result<
            Option<Event>,
            PaymentError,
        >| #[trigger]
            call_ensures(
                OutgoingPaymentCorrelator::take_correlated_outgoing_event,
                (correlator, payment, outcome, now),
                res,
            ) ==> is_taken(
                res,
                (*correlator)@,
                (*final(correlator))@,
                payment,
                outcome,
                now,
            ),
{
    assert forall|correlator: &mut OutgoingPaymentCorrelator, res: Result<
        Option<Event>,
        PaymentError,
    >| #[trigger]
        call_ensures(
            OutgoingPaymentCorrelator::take_correlated_outgoing_event,
            (correlator, payment, outcome, now),
            res,
        ) implies is_taken(
        res,
        (*correlator)@,
        (*final(correlator))@,
        payment,
        outcome,
        now,
    ) by {
        lemma_taken(res, (*correlator)@, payment, outcome, now);
    }
}

/// Whether a report of the node is answered: a received payment with what came, an
/// outgoing one that succeeded by a success of its quote, one that failed by its
/// failure. Other reports become nothing and change nothing.
pub open spec fn is_heard(
    res: Result<Option<Event>, PaymentError>,
    before: CorrelatorView,
    after: CorrelatorView,
    report: Option<NodeEvent>,
    now: u64,
) -> bool {
    match report {
        Some(NodeEvent::PaymentReceived(Some(payment))) => {
            &&& after == before
            &&& match res {
                Ok(Some(Event::PaymentReceived(answer))) => is_reported(Ok(Some(answer)), payment),
                Ok(None) => is_reported(Ok(None), payment),
                Err(PaymentError::Backend(error)) => is_reported(Err(error), payment),
                _ => false,
            }
        },
        Some(NodeEvent::PaymentSuccessful(Some(payment))) => is_taken(
            res,
            before,
            after,
            payment,
            OutgoingPaymentOutcome::Succeeded,
            now,
        ),
        Some(NodeEvent::PaymentFailed(Some(payment))) => is_taken(
            res,
            before,
            after,
            payment,
            OutgoingPaymentOutcome::Failed,
            now,
        ),
        _ => res == Ok::<Option<Event>, PaymentError>(None) && after == before,
    }
}

proof fn lemma_heard(
    res: Result<Option<Event>, PaymentError>,
    known: CorrelatorView,
    report: Option<NodeEvent>,
    now: u64,
)
    requires
        crate::payment::result_view(res) == envelope_answer(known, report, now).0,
    ensures
        is_heard(res, known, envelope_answer(known, report, now).1, report, now),
{
    match report {
        Some(NodeEvent::PaymentSuccessful(Some(payment))) => {
            lemma_taken(res, known, payment, OutgoingPaymentOutcome::Succeeded, now);
        },
        Some(NodeEvent::PaymentFailed(Some(payment))) => {
            lemma_taken(res, known, payment, OutgoingPaymentOutcome::Failed, now);
        },
        _ => {},
    }
}

/// Reports of the node become the events that they name.
pub proof fn reports_become_the_events_they_name(report: Option<NodeEvent>, now: u64)
    ensures
        forall|correlator: &mut OutgoingPaymentCorrelator, res: Result<
            Option<Event>,
            PaymentError,
        >| #[trigger]
            call_ensures(event_from_envelope, (report, correlator, now), res) ==> is_heard(
                res,
                (*correlator)@,
                (*final(correlator))@,
                report,
                now,
            ),
{
    assert forall|correlator: &mut OutgoingPaymentCorrelator, res: Result<
        Option<Event>,
        PaymentError,
    >| #[trigger]
        call_ensures(event_from_envelope, (report, correlator, now), res) implies is_heard(
        res,
        (*correlator)@,
        (*final(correlator))@,
        report,
        now,
    ) by {
        lemma_heard(res, (*correlator)@, report, now);
    }
}

/// A payment of an invoice registers its quote under the hash before anything is
/// sent; one of an offer, whose hash is not known yet, registers nothing.
pub proof fn begun_payments_register_their_hash(
    unit: CurrencyUnit,
    options: OutgoingPaymentOptions,
    now: u64,
)
    ensures
        forall|correlator: &mut OutgoingPaymentCorrelator, res: Result<
            PaymentStart,
            PaymentError,
        >| #[trigger]
            call_ensures(make_payment, (correlator, &unit, &options, now), res) ==> match (
                options,
                res,
            ) {
                (OutgoingPaymentOptions::Bolt11(asked), Ok(start)) => is_registered(
                    (*correlator)@,
                    (*final(correlator))@,
                    seq![hex_text(asked.bolt11.payment_hash@)],
                    asked.quote_id@,
                    unit,
                    now,
                    start.notify,
                ),
                (_, Ok(start)) => !start.notify && (*final(correlator))@ == (*correlator)@,
                (_, Err(_)) => (*final(correlator))@ == (*correlator)@,
            },
{
    assert forall|correlator: &mut OutgoingPaymentCorrelator, res: Result<
        PaymentStart,
        PaymentError,
    >| #[trigger]
        call_ensures(make_payment, (correlator, &unit, &options, now), res) && res is Ok && options
            is Bolt11 implies is_registered(
        (*correlator)@,
        (*final(correlator))@,
        seq![hex_text(options->Bolt11_0.bolt11.payment_hash@)],
        options->Bolt11_0.quote_id@,
        unit,
        now,
        res->Ok_0.notify,
    ) by {
        let asked = options->Bolt11_0;
        lemma_is_registered(
            (*correlator)@,
            seq![hex_text(asked.bolt11.payment_hash@)],
            ContextView { quote_id: asked.quote_id@, unit },
            now,
        );
    }
}

/// A payment that was sent registers its quote under the id that the node gave it.
pub proof fn sent_payments_register_their_id(
    id: &str,
    context: OutgoingPaymentContext,
    now: u64,
)
    ensures
        forall|correlator: &mut OutgoingPaymentCorrelator, sent: PaymentSent| #[trigger]
            call_ensures(payment_sent, (correlator, id, &context, now), sent) ==> is_registered(
                (*correlator)@,
                (*final(correlator))@,
                seq![lower(trimmed(id@))],
                context.quote_id@,
                context.unit,
                now,
                sent.notify,
            ),
{
    assert forall|correlator: &mut OutgoingPaymentCorrelator, sent: PaymentSent| #[trigger]
        call_ensures(payment_sent, (correlator, id, &context, now), sent) implies is_registered(
        (*correlator)@,
        (*final(correlator))@,
        seq![lower(trimmed(id@))],
        context.quote_id@,
        context.unit,
        now,
        sent.notify,
    ) by {
        lemma_is_registered((*correlator)@, seq![lower(trimmed(id@))], context.deep_view(), now);
    }
}

/// Whether a payment whose details are known registers its quote under all its
/// keys, and is done with it exactly where it is answered as paid or failed.
pub open spec fn is_concluded(
    concluded: PaymentConcluded,
    before: CorrelatorView,
    after: CorrelatorView,
    payment: Payment,
    context: OutgoingPaymentContext,
    now: u64,
) -> bool {
    let is_final = concluded.answer matches Ok(answer) && (answer.status == MeltQuoteState::Paid
        || answer.status == MeltQuoteState::Failed);
    if is_final {
        exists|between: CorrelatorView| #[trigger]
            is_registered_for(before, between, payment, context, now, concluded.notify)
                && is_finished(between, after, context.quote_id@, now)
    } else {
        is_registered_for(before, after, payment, context, now, concluded.notify)
    }
}

/// A payment whose details are known registers its quote under all its keys, and
/// is done with it once it is paid or failed.
pub proof fn found_payments_register_their_keys(
    unit: CurrencyUnit,
    id: [u8; 32],
    payment: Payment,
    context: OutgoingPaymentContext,
    now: u64,
)
    ensures
        forall|correlator: &mut OutgoingPaymentCorrelator, concluded: PaymentConcluded| #[trigger]
            call_ensures(
                payment_found,
                (correlator, &unit, &id, &payment, &context, now),
                concluded,
            ) ==> is_concluded(
                concluded,
                (*correlator)@,
                (*final(correlator))@,
                payment,
                context,
                now,
            ),
{
    assert forall|
        correlator: &mut OutgoingPaymentCorrelator,
        concluded: PaymentConcluded,
    | #[trigger]
        call_ensures(
            payment_found,
            (correlator, &unit, &id, &payment, &context, now),
            concluded,
        ) implies is_concluded(
        concluded,
        (*correlator)@,
        (*final(correlator))@,
        payment,
        context,
        now,
    ) by {
        let keys = keys_of(payment);
        let between = (*correlator)@.expired(now).remembering(keys, context.deep_view(), now);
        lemma_keys(payment);
        lemma_is_registered((*correlator)@, keys, context.deep_view(), now);
        lemma_forgets(between, now);
        assert(is_registered_for(
            (*correlator)@,
            between,
            payment,
            context,
            now,
            concluded.notify,
        ));
        assert(finishes(
            between.expired(now),
            between.expired(now).with_finalized(context.quote_id@, now),
            context.quote_id@,
            now,
        ));
    }
}

/// Whether a wait after so many failures is what it should be: it doubles from one
/// second, and is ten seconds at most.
pub open spec fn is_wait(secs: u64, failures: u32) -> bool {
    &&& failures < 4 ==> secs == vstd::arithmetic::power2::pow2(failures as nat)
    &&& failures >= 4 ==> secs == 10
}

/// A stream hands out the oldest ready event before anything else, then
/// subscribes where it has no subscription, and otherwise listens.
pub proof fn streams_hand_out_ready_events_first(now: u64)
    ensures
        forall|state: EventStreamState| #[trigger]
            call_ensures(EventStreamState::new, (), state) ==> state.connected && state.active
                && state.retry_count == 0,
        forall|
            state: &mut EventStreamState,
            correlator: &mut OutgoingPaymentCorrelator,
            step: StreamStep<Event>,
        | #[trigger]
            call_ensures(EventStreamState::next_step, (state, correlator, now), step) ==> {
                let before = (*correlator)@;
                let after = (*final(correlator))@;
                &&& *final(state) == (EventStreamState { active: true, ..*state })
                &&& match step {
                    StreamStep::Emit(event) => hands_out(Some(event), before, after, now),
                    StreamStep::Subscribe => !(*state).connected && hands_out(
                        None,
                        before,
                        after,
                        now,
                    ),
                    StreamStep::Listen => (*state).connected && hands_out(
                        None,
                        before,
                        after,
                        now,
                    ),
                    _ => false,
                }
            },
{
    assert forall|
        state: &mut EventStreamState,
        correlator: &mut OutgoingPaymentCorrelator,
        step: StreamStep<Event>,
    | #[trigger]
        call_ensures(
            EventStreamState::next_step,
            (state, correlator, now),
            step,
        ) implies match step {
        StreamStep::Emit(event) => hands_out(
            Some(event),
            (*correlator)@,
            (*final(correlator))@,
            now,
        ),
        _ => hands_out(None, (*correlator)@, (*final(correlator))@, now),
    } by {
        lemma_forgets((*correlator)@, now);
    }
}

/// A stream that subscribed goes on and counts no failures. One that could not, or
/// whose subscription broke, waits the longer the more tries failed. A wait counts
/// as one more, unless the stream is to end.
pub proof fn streams_wait_while_subscribing_fails(ok: bool, cancelled: bool)
    ensures
        forall|state: &mut EventStreamState, step: StreamStep<Event>| #[trigger]
            call_ensures(EventStreamState::subscribed, (state, ok), step) ==> match step {
                StreamStep::Continue => ok && *final(state) == (EventStreamState {
                    connected: true,
                    retry_count: 0,
                    ..*state
                }),
                StreamStep::Pause(secs) => !ok && is_wait(secs, (*state).retry_count)
                    && *final(state) == *state,
                _ => false,
            },
        forall|state: &mut EventStreamState, step: StreamStep<Event>| #[trigger]
            call_ensures(EventStreamState::paused, (state, cancelled), step) ==> match step {
                StreamStep::Stop => cancelled && *final(state) == (EventStreamState {
                    active: false,
                    ..*state
                }),
                StreamStep::Continue => {
                    let failures = (*final(state)).retry_count;
                    &&& !cancelled
                    &&& failures == (*state).retry_count + 1 || (failures == u32::MAX && failures
                        == (*state).retry_count)
                    &&& *final(state) == (EventStreamState { retry_count: failures, ..*state })
                },
                _ => false,
            },
{
    vstd::arithmetic::power2::lemma2_to64();
}

/// A stream hands out the event that a report becomes, and goes on where it
/// becomes none. It goes on where an event became ready, waits where its
/// subscription broke, and stops where it is to end.
pub proof fn streams_hand_out_what_they_hear(input: StreamInput, now: u64)
    ensures
        forall|
            state: &mut EventStreamState,
            correlator: &mut OutgoingPaymentCorrelator,
            step: StreamStep<Event>,
        | #[trigger]
            call_ensures(EventStreamState::heard, (state, input, correlator, now), step) ==> {
                let before = (*correlator)@;
                let after = (*final(correlator))@;
                match (input, step) {
                    (StreamInput::Cancelled, StreamStep::Stop) => {
                        &&& *final(state) == (EventStreamState { active: false, ..*state })
                        &&& after == before
                    },
                    (StreamInput::Notified, StreamStep::Continue) => {
                        *final(state) == *state && after == before
                    },
                    (StreamInput::Message(report), StreamStep::Emit(event)) => {
                        &&& *final(state) == *state
                        &&& is_heard(Ok(Some(event)), before, after, report, now)
                    },
                    (StreamInput::Message(report), StreamStep::Continue) => {
                        &&& *final(state) == *state
                        &&& is_passed_over(before, after, report, now)
                    },
                    (StreamInput::Disconnected, StreamStep::Pause(secs)) => {
                        &&& is_wait(secs, (*state).retry_count)
                        &&& *final(state) == (EventStreamState { connected: false, ..*state })
                        &&& after == before
                    },
                    _ => false,
                }
            },
{
    vstd::arithmetic::power2::lemma2_to64();
    if let StreamInput::Message(report) = input {
        assert forall|
            state: &mut EventStreamState,
            correlator: &mut OutgoingPaymentCorrelator,
            step: StreamStep<Event>,
        | #[trigger]
            call_ensures(
                EventStreamState::heard,
                (state, input, correlator, now),
                step,
            ) implies match step {
            StreamStep::Emit(event) => is_heard(
                Ok(Some(event)),
                (*correlator)@,
                (*final(correlator))@,
                report,
                now,
            ),
            StreamStep::Continue => is_passed_over(
                (*correlator)@,
                (*final(correlator))@,
                report,
                now,
            ),
            _ => false,
        } by {
            let said = envelope_answer((*correlator)@, report, now).0;
            let res: Result<Option<Event>, PaymentError> = match (step, said) {
                (StreamStep::Emit(event), _) => Ok(Some(event)),
                (_, Err(PaymentErrorView::Amount(error))) => Err(PaymentError::Amount(error)),
                (_, Err(PaymentErrorView::Backend(error))) => Err(PaymentError::Backend(error)),
                _ => Ok(None),
            };
            assert(crate::payment::result_view(res) == said);
            lemma_heard(res, (*correlator)@, report, now);
        }
    }
}

/// Whether a report of the node becomes no event.
pub open spec fn is_passed_over(
    before: CorrelatorView,
    after: CorrelatorView,
    report: Option<NodeEvent>,
    now: u64,
) -> bool {
    exists|res: Result<Option<Event>, PaymentError>| #[trigger]
        is_heard(res, before, after, report, now) && !(res matches Ok(Some(_)))
}

} // verus!
