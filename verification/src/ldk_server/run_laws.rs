//! What holds of the correlator over runs of operations: a report that comes
//! before its quote, and a quote that waits for its report.

use vstd::prelude::*;

use crate::ldk_server::correlator::{
    age, event_answer, first_registered, first_sharing, keys_of, lemma_first_registered,
    lemma_first_sharing, share_key, with_keys, without_sharing, ContextView, CorrelatorView,
    OutgoingPaymentOutcome, PendingView, UnmatchedView, OUTGOING_CONTEXT_TTL_NS,
    UNMATCHED_OUTGOING_EVENT_TTL_NS,
};
use crate::ldk_server::laws::{
    after, events_finish_their_quotes, events_of, gives_rise, is_about, is_settled,
    lemma_first_registered_found, lemma_none_registered, lemma_with_keys,
    operations_keep_correlators_settled, within_a_day, young_reports_are_kept, Operation, Step,
};
use crate::ldk_server::payments::Payment;

verus! {

/// What is known after a run of operations.
pub open spec fn after_run(known: CorrelatorView, run: Seq<Step>) -> CorrelatorView
    decreases run.len(),
{
    if run.len() == 0 {
        known
    } else {
        after_run(after(known, run[0].operation, run[0].now), run.subrange(1, run.len() as int))
    }
}

/// Whether a run of operations gives rise to no event about a quote.
pub open spec fn is_silent(known: CorrelatorView, run: Seq<Step>, quote_id: Seq<char>) -> bool {
    forall|i: int|
        0 <= i < events_of(known, run).len() ==> !is_about(
            #[trigger] events_of(known, run)[i],
            quote_id,
        )
}

/// Whether all of some keys are among others.
pub open spec fn are_among(some: Seq<Seq<char>>, all: Seq<Seq<char>>) -> bool {
    forall|i: int| 0 <= i < some.len() ==> all.contains(#[trigger] some[i])
}

/// Whether an operation has nothing to do with a quote or with its keys.
pub open spec fn stays_apart(
    operation: Operation,
    keys: Seq<Seq<char>>,
    quote_id: Seq<char>,
) -> bool {
    match operation {
        Operation::Remember { keys: others, context } => context.quote_id != quote_id
            && !share_key(others, keys),
        Operation::Remove { quote_id: other } => other != quote_id,
        Operation::Report { payment, .. } => !share_key(keys_of(payment), keys),
        Operation::TakeReady => true,
    }
}

/// Whether no operation of a run has to do with a quote or with its keys.
pub open spec fn run_stays_apart(
    run: Seq<Step>,
    keys: Seq<Seq<char>>,
    quote_id: Seq<char>,
) -> bool {
    forall|i: int|
        0 <= i < run.len() ==> stays_apart((#[trigger] run[i]).operation, keys, quote_id)
}

/// Whether an operation leaves a quote waiting for its report: it has nothing to
/// do with the quote or with its keys, or the quote itself registers once more
/// under keys of its own.
pub open spec fn goes_on(
    operation: Operation,
    keys: Seq<Seq<char>>,
    context: ContextView,
) -> bool {
    ||| stays_apart(operation, keys, context.quote_id)
    ||| match operation {
        Operation::Remember { keys: mine, context: own } => own == context && are_among(mine, keys),
        _ => false,
    }
}

/// Whether every operation of a run leaves a quote waiting for its report.
pub open spec fn run_goes_on(
    run: Seq<Step>,
    keys: Seq<Seq<char>>,
    context: ContextView,
) -> bool {
    forall|i: int| 0 <= i < run.len() ==> goes_on((#[trigger] run[i]).operation, keys, context)
}

/// Whether an operation takes none of a quote's keys: nobody registers under
/// them but the quote, in its unit.
pub open spec fn takes_no_key(
    operation: Operation,
    keys: Seq<Seq<char>>,
    context: ContextView,
) -> bool {
    match operation {
        Operation::Remember { keys: others, context: other } => other == context || !share_key(
            others,
            keys,
        ),
        _ => true,
    }
}

/// Whether a quote goes on waiting all through a run: its keys are not taken,
/// and after no operation is it done with.
pub open spec fn leaves_waiting(
    known: CorrelatorView,
    run: Seq<Step>,
    keys: Seq<Seq<char>>,
    context: ContextView,
) -> bool
    decreases run.len(),
{
    if run.len() == 0 {
        true
    } else {
        let next = after(known, run[0].operation, run[0].now);
        &&& takes_no_key(run[0].operation, keys, context)
        &&& !next.finalized.dom().contains(context.quote_id)
        &&& leaves_waiting(next, run.subrange(1, run.len() as int), keys, context)
    }
}

/// Whether some other quote than one, or the same quote in another unit, is
/// registered under a key of a payment.
pub open spec fn is_claimed_by_another(
    known: CorrelatorView,
    payment: Payment,
    context: ContextView,
) -> bool {
    exists|i: int|
        0 <= i < keys_of(payment).len() && known.by_key.dom().contains(
            #[trigger] keys_of(payment)[i],
        ) && known.by_key[keys_of(payment)[i]].context != context
}

/// Lists that both hold a key share it.
pub proof fn lemma_shared(a: Seq<Seq<char>>, b: Seq<Seq<char>>, key: Seq<char>)
    requires
        a.contains(key),
        b.contains(key),
    ensures
        share_key(a, b),
{
    let i = choose|i: int| 0 <= i < a.len() && a[i] == key;
    let j = choose|j: int| 0 <= j < b.len() && b[j] == key;
    assert(a[i] == b[j]);
}

/// What shares no key with some keys shares none with a part of them.
proof fn lemma_part_shared(a: Seq<Seq<char>>, part: Seq<Seq<char>>, all: Seq<Seq<char>>)
    requires
        are_among(part, all),
        share_key(a, part),
    ensures
        share_key(a, all),
{
    let (i, j) = choose|i: int, j: int|
        0 <= i < a.len() && 0 <= j < part.len() && #[trigger] a[i] == #[trigger] part[j];
    assert(all.contains(part[j]));
    assert(a.contains(a[i]));
    lemma_shared(a, all, a[i]);
}

/// What holds of the moments and operations of a run holds of the rest of it.
proof fn lemma_rest_of_run(run: Seq<Step>, start: u64)
    requires
        run.len() > 0,
        within_a_day(run, start),
    ensures
        within_a_day(run.subrange(1, run.len() as int), start),
{
    let rest = run.subrange(1, run.len() as int);
    assert forall|i: int| 0 <= i < rest.len() implies start <= (#[trigger] rest[i]).now < start
        + OUTGOING_CONTEXT_TTL_NS by {
        assert(rest[i] == run[i + 1]);
    }
}

/// A run of operations keeps the quotes that are done with unregistered.
pub proof fn runs_keep_correlators_settled(known: CorrelatorView, run: Seq<Step>)
    requires
        is_settled(known),
    ensures
        is_settled(after_run(known, run)),
    decreases run.len(),
{
    if run.len() > 0 {
        operations_keep_correlators_settled(known, run[0].operation, run[0].now);
        runs_keep_correlators_settled(
            after(known, run[0].operation, run[0].now),
            run.subrange(1, run.len() as int),
        );
    }
}

// A quote that waits for its report.

/// Whether a quote is registered under the held keys since some moment.
pub open spec fn holds_keys(
    known: CorrelatorView,
    held: Seq<Seq<char>>,
    context: ContextView,
    start: u64,
) -> bool {
    forall|i: int|
        0 <= i < held.len() ==> {
            &&& known.by_key.dom().contains(#[trigger] held[i])
            &&& known.by_key[held[i]].context == context
            &&& start <= known.by_key[held[i]].inserted_at
        }
}

proof fn lemma_holds_expired(
    known: CorrelatorView,
    held: Seq<Seq<char>>,
    context: ContextView,
    start: u64,
    now: u64,
)
    requires
        holds_keys(known, held, context, start),
        age(now, start) < OUTGOING_CONTEXT_TTL_NS,
    ensures
        holds_keys(known.expired(now), held, context, start),
{
    let fresh = known.expired(now);
    assert forall|i: int| 0 <= i < held.len() implies fresh.by_key.dom().contains(
        #[trigger] held[i],
    ) && fresh.by_key[held[i]] == known.by_key[held[i]] by {
        assert(known.by_key.dom().contains(held[i]));
    }
}

/// A quote that registers and is not done with then holds its keys from then on,
/// besides those that it holds already, and makes no event ready.
pub proof fn lemma_holds_own(
    known: CorrelatorView,
    mine: Seq<Seq<char>>,
    now: u64,
    held: Seq<Seq<char>>,
    context: ContextView,
    start: u64,
)
    requires
        holds_keys(known, held, context, start),
        start <= now < start + OUTGOING_CONTEXT_TTL_NS,
        !after(known, Operation::Remember { keys: mine, context }, now).finalized.dom().contains(
            context.quote_id,
        ),
    ensures
        holds_keys(
            after(known, Operation::Remember { keys: mine, context }, now),
            held + mine,
            context,
            start,
        ),
        after(known, Operation::Remember { keys: mine, context }, now).ready == known.ready,
{
    lemma_holds_expired(known, held, context, start, now);
    let fresh = known.expired(now);
    let pending = PendingView { context, inserted_at: now };
    lemma_with_keys(fresh.by_key, mine, pending);
    let next = after(known, Operation::Remember { keys: mine, context }, now);
    assert(next.by_key == with_keys(fresh.by_key, mine, pending));
    let both = held + mine;
    assert forall|i: int| 0 <= i < both.len() implies {
        &&& next.by_key.dom().contains(#[trigger] both[i])
        &&& next.by_key[both[i]].context == context
        &&& start <= next.by_key[both[i]].inserted_at
    } by {
        if i < held.len() {
            assert(both[i] == held[i]);
            assert(fresh.by_key.dom().contains(held[i]));
        } else {
            assert(both[i] == mine[i - held.len()]);
            assert(mine.contains(both[i]));
        }
    }
}

proof fn lemma_holds_step(
    known: CorrelatorView,
    operation: Operation,
    now: u64,
    keys: Seq<Seq<char>>,
    held: Seq<Seq<char>>,
    context: ContextView,
    start: u64,
)
    requires
        holds_keys(known, held, context, start),
        are_among(held, keys),
        takes_no_key(operation, keys, context),
        start <= now < start + OUTGOING_CONTEXT_TTL_NS,
        !after(known, operation, now).finalized.dom().contains(context.quote_id),
    ensures
        holds_keys(after(known, operation, now), held, context, start),
{
    lemma_holds_expired(known, held, context, start, now);
    let fresh = known.expired(now);
    let next = after(known, operation, now);
    match operation {
        Operation::Remember { keys: others, context: other } => {
            if other == context {
                lemma_holds_own(known, others, now, held, context, start);
                let both = held + others;
                assert forall|i: int| 0 <= i < held.len() implies #[trigger] held[i]
                    == both[i] by {}
            } else {
                let pending = PendingView { context: other, inserted_at: now };
                lemma_with_keys(fresh.by_key, others, pending);
                assert forall|i: int| 0 <= i < held.len() implies !others.contains(
                    #[trigger] held[i],
                ) && fresh.by_key.dom().contains(held[i]) by {
                    if others.contains(held[i]) {
                        lemma_shared(others, keys, held[i]);
                    }
                }
            }
        },
        _ => {},
    }
}

/// A quote that is left waiting keeps its keys, and no event is about it.
pub proof fn lemma_holds_run(
    known: CorrelatorView,
    run: Seq<Step>,
    keys: Seq<Seq<char>>,
    held: Seq<Seq<char>>,
    context: ContextView,
    start: u64,
)
    requires
        holds_keys(known, held, context, start),
        are_among(held, keys),
        leaves_waiting(known, run, keys, context),
        within_a_day(run, start),
    ensures
        holds_keys(after_run(known, run), held, context, start),
        is_silent(known, run, context.quote_id),
    decreases run.len(),
{
    if run.len() > 0 {
        let Step { operation, now } = run[0];
        let next = after(known, operation, now);
        let rest = run.subrange(1, run.len() as int);
        assert(start <= run[0].now < start + OUTGOING_CONTEXT_TTL_NS);
        lemma_holds_step(known, operation, now, keys, held, context, start);
        lemma_rest_of_run(run, start);
        lemma_holds_run(next, rest, keys, held, context, start);
        events_finish_their_quotes(known, operation, now);
        let later = events_of(next, rest);
        match gives_rise(known, operation, now) {
            Some(event) => {
                let all = seq![event] + later;
                assert forall|i: int| 0 <= i < all.len() implies !is_about(
                    #[trigger] all[i],
                    context.quote_id,
                ) by {
                    if i > 0 {
                        assert(all[i] == later[i - 1]);
                    }
                }
            },
            None => {},
        }
    }
}

/// A report that shares a held key is one of the quote that holds it.
pub proof fn lemma_held_is_first(
    known: CorrelatorView,
    payment: Payment,
    held: Seq<Seq<char>>,
    context: ContextView,
    start: u64,
    now: u64,
)
    requires
        holds_keys(known, held, context, start),
        age(now, start) < OUTGOING_CONTEXT_TTL_NS,
        share_key(keys_of(payment), held),
        !is_claimed_by_another(known, payment, context),
    ensures
        ({
            let fresh = known.expired(now);
            let mine = keys_of(payment);
            let at = first_registered(fresh.by_key, mine);
            &&& 0 <= at < mine.len()
            &&& fresh.by_key[mine[at]].context == context
        }),
{
    lemma_holds_expired(known, held, context, start, now);
    let fresh = known.expired(now);
    let mine = keys_of(payment);
    let (i, j) = choose|i: int, j: int|
        0 <= i < mine.len() && 0 <= j < held.len() && #[trigger] mine[i] == #[trigger] held[j];
    assert(fresh.by_key.dom().contains(held[j]));
    lemma_first_registered_found(fresh.by_key, mine);
    let at = first_registered(fresh.by_key, mine);
    if at >= mine.len() {
        lemma_none_registered(fresh.by_key, mine);
        assert(!fresh.by_key.dom().contains(mine[i]));
    }
    assert(known.by_key.dom().contains(mine[at]));
}

/// A report of a quote that registered within the last day, and that has gone on
/// waiting since, is answered at once with the event of that quote, which is
/// then done with. Meanwhile anything may happen that neither takes the keys of
/// the quote nor is done with it; the quote may register again.
pub proof fn known_quotes_are_reported_at_once(
    known: CorrelatorView,
    keys: Seq<Seq<char>>,
    context: ContextView,
    registered: u64,
    meanwhile: Seq<Step>,
    payment: Payment,
    outcome: OutgoingPaymentOutcome,
    reported: u64,
)
    requires
        !after(
            known,
            Operation::Remember { keys, context },
            registered,
        ).finalized.dom().contains(context.quote_id),
        leaves_waiting(
            after(known, Operation::Remember { keys, context }, registered),
            meanwhile,
            keys,
            context,
        ),
        within_a_day(meanwhile, registered),
        share_key(keys_of(payment), keys),
        !is_claimed_by_another(
            after_run(
                after(known, Operation::Remember { keys, context }, registered),
                meanwhile,
            ),
            payment,
            context,
        ),
        age(reported, registered) < OUTGOING_CONTEXT_TTL_NS,
    ensures
        ({
            let remember = Operation::Remember { keys, context };
            let report = Operation::Report { payment, outcome };
            let begun = after(known, remember, registered);
            let waiting = after_run(begun, meanwhile);
            &&& gives_rise(known, remember, registered) is None
            &&& is_silent(begun, meanwhile, context.quote_id)
            &&& gives_rise(waiting, report, reported) == (match event_answer(
                context,
                payment,
                outcome,
            ) {
                Ok(event) => Some(event),
                Err(_) => None,
            })
            &&& after(waiting, report, reported).finalized.dom().contains(context.quote_id)
        }),
{
    let remember = Operation::Remember { keys, context };
    let none = Seq::<Seq<char>>::empty();
    assert(holds_keys(known, none, context, registered));
    lemma_holds_own(known, keys, registered, none, context, registered);
    assert(none + keys =~= keys);
    let begun = after(known, remember, registered);
    assert(are_among(keys, keys));
    lemma_holds_run(begun, meanwhile, keys, keys, context, registered);
    let waiting = after_run(begun, meanwhile);
    lemma_held_is_first(waiting, payment, keys, context, registered, reported);
    events_finish_their_quotes(known, remember, registered);
}

// When a quote goes on waiting.

/// Whether nothing stands in the way of a quote: it is not done with, it is
/// registered under no keys but its own, and no report with one of its keys is
/// buffered.
pub open spec fn is_free(
    known: CorrelatorView,
    keys: Seq<Seq<char>>,
    quote_id: Seq<char>,
) -> bool {
    &&& !known.finalized.dom().contains(quote_id)
    &&& forall|key: Seq<char>| #[trigger]
        known.by_key.dom().contains(key) && known.by_key[key].context.quote_id == quote_id
            ==> keys.contains(key)
    &&& forall|i: int|
        0 <= i < known.unmatched.len() ==> !share_key((#[trigger] known.unmatched[i]).keys, keys)
}

proof fn lemma_free_expired(
    known: CorrelatorView,
    keys: Seq<Seq<char>>,
    quote_id: Seq<char>,
    now: u64,
)
    requires
        is_free(known, keys, quote_id),
    ensures
        is_free(known.expired(now), keys, quote_id),
{
    let fresh = known.expired(now);
    let dropped = young_reports_are_kept(known.unmatched, now);
    assert forall|i: int| 0 <= i < fresh.unmatched.len() implies !share_key(
        (#[trigger] fresh.unmatched[i]).keys,
        keys,
    ) by {
        assert(fresh.unmatched[i] == known.unmatched[i + dropped]);
    }
}

/// Where nothing stands in its way, a quote registers under keys of its own, and
/// nothing stands in its way afterwards.
pub proof fn lemma_free_own(
    known: CorrelatorView,
    mine: Seq<Seq<char>>,
    now: u64,
    keys: Seq<Seq<char>>,
    context: ContextView,
)
    requires
        is_free(known, keys, context.quote_id),
        are_among(mine, keys),
    ensures
        is_free(
            after(known, Operation::Remember { keys: mine, context }, now),
            keys,
            context.quote_id,
        ),
{
    lemma_free_expired(known, keys, context.quote_id, now);
    let fresh = known.expired(now);
    assert forall|i: int| 0 <= i < fresh.unmatched.len() implies !share_key(
        (#[trigger] fresh.unmatched[i]).keys,
        mine,
    ) by {
        if share_key(fresh.unmatched[i].keys, mine) {
            lemma_part_shared(fresh.unmatched[i].keys, mine, keys);
        }
    }
    lemma_first_sharing(fresh.unmatched, mine, fresh.unmatched.len() as int);
    lemma_with_keys(fresh.by_key, mine, PendingView { context, inserted_at: now });
    let next = after(known, Operation::Remember { keys: mine, context }, now);
    assert(next == fresh.registered(mine, context, now));
    assert forall|key: Seq<char>| #[trigger]
        next.by_key.dom().contains(key) && next.by_key[key].context.quote_id
            == context.quote_id implies keys.contains(key) by {
        if mine.contains(key) {
            let i = choose|i: int| 0 <= i < mine.len() && mine[i] == key;
            assert(keys.contains(mine[i]));
        } else {
            assert(fresh.by_key.dom().contains(key));
        }
    }
}

proof fn lemma_free_step(
    known: CorrelatorView,
    operation: Operation,
    now: u64,
    keys: Seq<Seq<char>>,
    context: ContextView,
)
    requires
        is_free(known, keys, context.quote_id),
        goes_on(operation, keys, context),
    ensures
        is_free(after(known, operation, now), keys, context.quote_id),
{
    if stays_apart(operation, keys, context.quote_id) {
        lemma_free_expired(known, keys, context.quote_id, now);
        let fresh = known.expired(now);
        match operation {
            Operation::Remember { keys: others, context: other } => {
                let pending = PendingView { context: other, inserted_at: now };
                lemma_with_keys(fresh.by_key, others, pending);
                lemma_fewer_reports(fresh, others, keys);
            },
            Operation::Report { payment, .. } => {
                let mine = keys_of(payment);
                lemma_first_registered_found(fresh.by_key, mine);
                let at = first_registered(fresh.by_key, mine);
                if at < mine.len() && fresh.by_key[mine[at]].context.quote_id
                    == context.quote_id {
                    assert(mine.contains(mine[at]));
                    lemma_shared(mine, keys, mine[at]);
                }
            },
            _ => {},
        }
    } else {
        lemma_free_own(known, operation->Remember_keys, now, keys, context);
    }
}

/// A quote in whose way nothing stands goes on waiting through every run that
/// has nothing to do with it and in which it registers again.
pub proof fn quotes_go_on_waiting(
    known: CorrelatorView,
    run: Seq<Step>,
    keys: Seq<Seq<char>>,
    held: Seq<Seq<char>>,
    context: ContextView,
)
    requires
        is_free(known, keys, context.quote_id),
        run_goes_on(run, keys, context),
        are_among(held, keys),
    ensures
        leaves_waiting(known, run, held, context),
        is_free(after_run(known, run), keys, context.quote_id),
    decreases run.len(),
{
    if run.len() > 0 {
        let Step { operation, now } = run[0];
        let rest = run.subrange(1, run.len() as int);
        assert(goes_on(run[0].operation, keys, context));
        lemma_free_step(known, operation, now, keys, context);
        assert(takes_no_key(operation, held, context)) by {
            if operation is Remember && share_key(operation->Remember_keys, held) {
                lemma_part_shared(operation->Remember_keys, held, keys);
            }
        }
        assert forall|i: int| 0 <= i < rest.len() implies goes_on(
            (#[trigger] rest[i]).operation,
            keys,
            context,
        ) by {
            assert(rest[i] == run[i + 1]);
        }
        quotes_go_on_waiting(after(known, operation, now), rest, keys, held, context);
    }
}

/// A registration buffers no report.
proof fn lemma_fewer_reports(
    fresh: CorrelatorView,
    others: Seq<Seq<char>>,
    keys: Seq<Seq<char>>,
)
    requires
        forall|i: int|
            0 <= i < fresh.unmatched.len() ==> !share_key(
                (#[trigger] fresh.unmatched[i]).keys,
                keys,
            ),
    ensures
        forall|context: ContextView, now: u64, i: int|
            0 <= i < fresh.remembering(others, context, now).unmatched.len() ==> !share_key(
                (#[trigger] fresh.remembering(others, context, now).unmatched[i]).keys,
                keys,
            ),
{
    lemma_without_sharing(fresh.unmatched, others, keys);
    let at = first_sharing(fresh.unmatched, others);
    lemma_first_sharing_found(fresh.unmatched, others);
    if at < fresh.unmatched.len() {
        let left = fresh.unmatched.remove(at);
        assert forall|i: int| 0 <= i < left.len() implies !share_key(
            (#[trigger] left[i]).keys,
            keys,
        ) by {
            assert(left[i] == fresh.unmatched[if i < at {
                i
            } else {
                i + 1
            }]);
        }
    }
}

proof fn lemma_first_sharing_found(unmatched: Seq<UnmatchedView>, keys: Seq<Seq<char>>)
    ensures
        0 <= first_sharing(unmatched, keys) <= unmatched.len(),
        first_sharing(unmatched, keys) < unmatched.len() ==> share_key(
            unmatched[first_sharing(unmatched, keys)].keys,
            keys,
        ),
    decreases unmatched.len(),
{
    if unmatched.len() > 0 && !share_key(unmatched[0].keys, keys) {
        lemma_first_sharing_found(unmatched.subrange(1, unmatched.len() as int), keys);
    }
}

proof fn lemma_without_sharing(
    unmatched: Seq<UnmatchedView>,
    others: Seq<Seq<char>>,
    keys: Seq<Seq<char>>,
)
    requires
        forall|i: int|
            0 <= i < unmatched.len() ==> !share_key((#[trigger] unmatched[i]).keys, keys),
    ensures
        forall|i: int|
            0 <= i < without_sharing(unmatched, others).len() ==> !share_key(
                (#[trigger] without_sharing(unmatched, others)[i]).keys,
                keys,
            ),
    decreases unmatched.len(),
{
    if unmatched.len() > 0 {
        assert forall|i: int| 0 <= i < unmatched.drop_last().len() implies !share_key(
            (#[trigger] unmatched.drop_last()[i]).keys,
            keys,
        ) by {
            assert(unmatched.drop_last()[i] == unmatched[i]);
        }
        lemma_without_sharing(unmatched.drop_last(), others, keys);
    }
}

// A report that comes before its quote.

/// Whether a report is buffered at some place, and none with one of the keys
/// before it.
spec fn is_buffered(
    known: CorrelatorView,
    report: UnmatchedView,
    keys: Seq<Seq<char>>,
    n: int,
) -> bool {
    &&& 0 <= n < known.unmatched.len()
    &&& known.unmatched[n] == report
    &&& forall|i: int| 0 <= i < n ==> !share_key((#[trigger] known.unmatched[i]).keys, keys)
}

/// Whether nobody registers under one of the keys in a run.
pub open spec fn registers_none_of(run: Seq<Step>, keys: Seq<Seq<char>>) -> bool {
    forall|i: int|
        0 <= i < run.len() ==> match (#[trigger] run[i]).operation {
            Operation::Remember { keys: others, .. } => !share_key(keys, others),
            _ => true,
        }
}

/// Whether all moments of a run lie within the minute after some moment.
pub open spec fn within_a_minute(run: Seq<Step>, start: u64) -> bool {
    forall|i: int|
        0 <= i < run.len() ==> age((#[trigger] run[i]).now, start)
            < UNMATCHED_OUTGOING_EVENT_TTL_NS
}

proof fn lemma_buffered_expired(
    known: CorrelatorView,
    report: UnmatchedView,
    keys: Seq<Seq<char>>,
    n: int,
    now: u64,
) -> (m: int)
    requires
        is_buffered(known, report, keys, n),
        age(now, report.received_at) < UNMATCHED_OUTGOING_EVENT_TTL_NS,
    ensures
        is_buffered(known.expired(now), report, keys, m),
{
    let fresh = known.expired(now);
    let dropped = young_reports_are_kept(known.unmatched, now);
    if dropped > n {
        assert(age(now, known.unmatched[n].received_at) >= UNMATCHED_OUTGOING_EVENT_TTL_NS);
    }
    let m = n - dropped;
    assert(fresh.unmatched[m] == known.unmatched[n]);
    assert forall|i: int| 0 <= i < m implies !share_key(
        (#[trigger] fresh.unmatched[i]).keys,
        keys,
    ) by {
        assert(fresh.unmatched[i] == known.unmatched[i + dropped]);
    }
    m
}

/// A report that has none of the keys that are discarded stays where it is among
/// the others.
proof fn lemma_buffered_discard(
    unmatched: Seq<UnmatchedView>,
    others: Seq<Seq<char>>,
    keys: Seq<Seq<char>>,
    n: int,
) -> (m: int)
    requires
        0 <= n < unmatched.len(),
        !share_key(unmatched[n].keys, others),
        forall|i: int| 0 <= i < n ==> !share_key((#[trigger] unmatched[i]).keys, keys),
    ensures
        0 <= m < without_sharing(unmatched, others).len(),
        without_sharing(unmatched, others)[m] == unmatched[n],
        forall|i: int|
            0 <= i < m ==> !share_key(
                (#[trigger] without_sharing(unmatched, others)[i]).keys,
                keys,
            ),
    decreases unmatched.len(),
{
    let rest = unmatched.drop_last();
    let earlier = without_sharing(rest, others);
    if n == unmatched.len() - 1 {
        assert forall|i: int| 0 <= i < rest.len() implies !share_key(
            (#[trigger] rest[i]).keys,
            keys,
        ) by {
            assert(rest[i] == unmatched[i]);
        }
        lemma_without_sharing(rest, others, keys);
        let all = without_sharing(unmatched, others);
        assert(all == earlier.push(unmatched.last()));
        earlier.len() as int
    } else {
        assert forall|i: int| 0 <= i < n implies !share_key((#[trigger] rest[i]).keys, keys) by {
            assert(rest[i] == unmatched[i]);
        }
        assert(rest[n] == unmatched[n]);
        let m = lemma_buffered_discard(rest, others, keys, n);
        let all = without_sharing(unmatched, others);
        assert forall|i: int| 0 <= i < m implies !share_key((#[trigger] all[i]).keys, keys) by {
            assert(all[i] == earlier[i]);
        }
        m
    }
}

proof fn lemma_buffered_step(
    known: CorrelatorView,
    operation: Operation,
    now: u64,
    report: UnmatchedView,
    keys: Seq<Seq<char>>,
    n: int,
) -> (m: int)
    requires
        is_buffered(known, report, keys, n),
        age(now, report.received_at) < UNMATCHED_OUTGOING_EVENT_TTL_NS,
        operation matches Operation::Remember { keys: others, .. } ==> !share_key(
            report.keys,
            others,
        ),
    ensures
        is_buffered(after(known, operation, now), report, keys, m),
{
    let n = lemma_buffered_expired(known, report, keys, n, now);
    let fresh = known.expired(now);
    let next = after(known, operation, now);
    match operation {
        Operation::Remember { keys: others, context } => {
            lemma_first_sharing_found(fresh.unmatched, others);
            let at = first_sharing(fresh.unmatched, others);
            if fresh.finalized.dom().contains(context.quote_id) {
                lemma_buffered_discard(fresh.unmatched, others, keys, n)
            } else if at < fresh.unmatched.len() {
                let m = if at < n {
                    n - 1
                } else {
                    n
                };
                assert(next.unmatched == fresh.unmatched.remove(at));
                assert(next.unmatched[m] == fresh.unmatched[n]);
                assert forall|i: int| 0 <= i < m implies !share_key(
                    (#[trigger] next.unmatched[i]).keys,
                    keys,
                ) by {
                    assert(next.unmatched[i] == fresh.unmatched[if i < at {
                        i
                    } else {
                        i + 1
                    }]);
                }
                m
            } else {
                n
            }
        },
        Operation::Report { payment, outcome } => {
            assert forall|i: int| 0 <= i <= n implies #[trigger] next.unmatched[i]
                == fresh.unmatched[i] by {}
            n
        },
        _ => n,
    }
}

proof fn lemma_buffered_run(
    known: CorrelatorView,
    run: Seq<Step>,
    report: UnmatchedView,
    keys: Seq<Seq<char>>,
    n: int,
) -> (m: int)
    requires
        is_buffered(known, report, keys, n),
        within_a_minute(run, report.received_at),
        registers_none_of(run, report.keys),
    ensures
        is_buffered(after_run(known, run), report, keys, m),
    decreases run.len(),
{
    if run.len() == 0 {
        n
    } else {
        let Step { operation, now } = run[0];
        let rest = run.subrange(1, run.len() as int);
        assert(age(run[0].now, report.received_at) < UNMATCHED_OUTGOING_EVENT_TTL_NS);
        let m = lemma_buffered_step(known, operation, now, report, keys, n);
        assert forall|i: int| 0 <= i < rest.len() implies #[trigger] rest[i] == run[i + 1] by {}
        lemma_buffered_run(after(known, operation, now), rest, report, keys, m)
    }
}

/// A report that comes before its quote is not lost. It is buffered, and
/// whatever else is registered, reported, done with and read meanwhile, where
/// the quote registers under one of its keys within a minute, its event is
/// ready then and the quote is done with. Meanwhile nobody registers under a key
/// of the report, and the quote is not done with when it registers.
pub proof fn buffered_reports_are_replayed(
    known: CorrelatorView,
    payment: Payment,
    outcome: OutgoingPaymentOutcome,
    reported: u64,
    meanwhile: Seq<Step>,
    keys: Seq<Seq<char>>,
    context: ContextView,
    registered: u64,
)
    requires
        forall|i: int|
            0 <= i < keys_of(payment).len() ==> !known.expired(reported).by_key.dom().contains(
                #[trigger] keys_of(payment)[i],
            ),
        forall|i: int|
            0 <= i < known.unmatched.len() ==> !share_key(
                (#[trigger] known.unmatched[i]).keys,
                keys,
            ),
        share_key(keys_of(payment), keys),
        registers_none_of(meanwhile, keys_of(payment)),
        within_a_minute(meanwhile, reported),
        age(registered, reported) < UNMATCHED_OUTGOING_EVENT_TTL_NS,
        !after_run(
            after(known, Operation::Report { payment, outcome }, reported),
            meanwhile,
        ).expired(registered).finalized.dom().contains(context.quote_id),
        event_answer(context, payment, outcome) is Ok,
    ensures
        ({
            let report = Operation::Report { payment, outcome };
            let remember = Operation::Remember { keys, context };
            let heard = after(known, report, reported);
            let waiting = after_run(heard, meanwhile);
            let done = after(waiting, remember, registered);
            &&& gives_rise(known, report, reported) is None
            &&& gives_rise(waiting, remember, registered) == Some(
                event_answer(context, payment, outcome)->Ok_0,
            )
            &&& done.ready == waiting.ready.push(event_answer(context, payment, outcome)->Ok_0)
            &&& done.finalized.dom().contains(context.quote_id)
        }),
{
    let report = Operation::Report { payment, outcome };
    let fresh = known.expired(reported);
    let mine = keys_of(payment);
    lemma_first_registered(fresh.by_key, mine, mine.len() as int);
    let heard = after(known, report, reported);
    let dropped = young_reports_are_kept(known.unmatched, reported);
    let last = heard.unmatched.len() - 1;
    let buffered = UnmatchedView { keys: mine, payment, outcome, received_at: reported };
    assert(heard.unmatched == fresh.unmatched.push(buffered));
    assert forall|i: int| 0 <= i < last implies !share_key(
        (#[trigger] heard.unmatched[i]).keys,
        keys,
    ) by {
        assert(heard.unmatched[i] == known.unmatched[i + dropped]);
    }
    let n = lemma_buffered_run(heard, meanwhile, buffered, keys, last);
    let waiting = after_run(heard, meanwhile);
    let m = lemma_buffered_expired(waiting, buffered, keys, n, registered);
    lemma_first_sharing(waiting.expired(registered).unmatched, keys, m);
}

/// A report that comes before its quote is replayed: where the quote is not done
/// with and registers under one of the report's keys within a minute, its event
/// is ready then and the quote is done with. Meanwhile anything may happen that
/// has nothing to do with the quote or with these keys. Where something does
/// happen, the quote is not registered yet.
pub proof fn early_reports_are_replayed(
    known: CorrelatorView,
    payment: Payment,
    outcome: OutgoingPaymentOutcome,
    reported: u64,
    meanwhile: Seq<Step>,
    keys: Seq<Seq<char>>,
    context: ContextView,
    registered: u64,
)
    requires
        forall|i: int|
            0 <= i < keys_of(payment).len() ==> !known.expired(reported).by_key.dom().contains(
                #[trigger] keys_of(payment)[i],
            ),
        forall|i: int|
            0 <= i < known.unmatched.len() ==> !share_key(
                (#[trigger] known.unmatched[i]).keys,
                keys,
            ),
        share_key(keys_of(payment), keys),
        !known.finalized.dom().contains(context.quote_id),
        meanwhile.len() == 0 || is_unregistered(known, context.quote_id),
        run_stays_apart(meanwhile, keys_of(payment) + keys, context.quote_id),
        within_a_minute(meanwhile, reported),
        age(registered, reported) < UNMATCHED_OUTGOING_EVENT_TTL_NS,
        event_answer(context, payment, outcome) is Ok,
    ensures
        ({
            let report = Operation::Report { payment, outcome };
            let remember = Operation::Remember { keys, context };
            let heard = after(known, report, reported);
            let waiting = after_run(heard, meanwhile);
            let done = after(waiting, remember, registered);
            &&& gives_rise(known, report, reported) is None
            &&& gives_rise(waiting, remember, registered) == Some(
                event_answer(context, payment, outcome)->Ok_0,
            )
            &&& done.ready == waiting.ready.push(event_answer(context, payment, outcome)->Ok_0)
            &&& done.finalized.dom().contains(context.quote_id)
        }),
{
    let mine = keys_of(payment);
    let all = mine + keys;
    let fresh = known.expired(reported);
    lemma_first_registered(fresh.by_key, mine, mine.len() as int);
    let heard = after(known, Operation::Report { payment, outcome }, reported);
    assert(!heard.finalized.dom().contains(context.quote_id));
    if meanwhile.len() > 0 {
        lemma_unregistered_run(heard, meanwhile, all, context.quote_id);
    }
    assert forall|i: int| 0 <= i < mine.len() implies all.contains(#[trigger] mine[i]) by {
        assert(all[i] == mine[i]);
    }
    assert forall|i: int| 0 <= i < meanwhile.len() implies match (
    #[trigger] meanwhile[i]).operation {
        Operation::Remember { keys: others, .. } => !share_key(mine, others),
        _ => true,
    } by {
        assert(stays_apart(meanwhile[i].operation, all, context.quote_id));
        if meanwhile[i].operation is Remember {
            let others = meanwhile[i].operation->Remember_keys;
            if share_key(mine, others) {
                let (x, y) = choose|x: int, y: int|
                    0 <= x < mine.len() && 0 <= y < others.len() && #[trigger] mine[x]
                        == #[trigger] others[y];
                assert(others.contains(others[y]));
                lemma_shared(others, all, others[y]);
            }
        }
    }
    buffered_reports_are_replayed(
        known,
        payment,
        outcome,
        reported,
        meanwhile,
        keys,
        context,
        registered,
    );
}

/// Whether a quote is registered under no key.
pub open spec fn is_unregistered(known: CorrelatorView, quote_id: Seq<char>) -> bool {
    forall|key: Seq<char>| #[trigger]
        known.by_key.dom().contains(key) ==> known.by_key[key].context.quote_id != quote_id
}

proof fn lemma_unregistered_run(
    known: CorrelatorView,
    run: Seq<Step>,
    keys: Seq<Seq<char>>,
    quote_id: Seq<char>,
)
    requires
        !known.finalized.dom().contains(quote_id),
        is_unregistered(known, quote_id),
        run_stays_apart(run, keys, quote_id),
    ensures
        !after_run(known, run).finalized.dom().contains(quote_id),
    decreases run.len(),
{
    if run.len() > 0 {
        let Step { operation, now } = run[0];
        let rest = run.subrange(1, run.len() as int);
        let fresh = known.expired(now);
        let next = after(known, operation, now);
        assert(stays_apart(run[0].operation, keys, quote_id));
        assert(is_unregistered(fresh, quote_id));
        match operation {
            Operation::Remember { keys: others, context } => {
                lemma_with_keys(fresh.by_key, others, PendingView { context, inserted_at: now });
            },
            Operation::Report { payment, .. } => {
                lemma_first_registered_found(fresh.by_key, keys_of(payment));
            },
            _ => {},
        }
        assert forall|i: int| 0 <= i < rest.len() implies stays_apart(
            (#[trigger] rest[i]).operation,
            keys,
            quote_id,
        ) by {
            assert(rest[i] == run[i + 1]);
        }
        lemma_unregistered_run(next, rest, keys, quote_id);
    }
}

} // verus!
