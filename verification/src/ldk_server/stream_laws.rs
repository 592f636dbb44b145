//! What holds of an event stream from its beginning on.

use vstd::prelude::*;

use crate::ldk_server::correlator::{
    age, without_stale, CorrelatorView, UnmatchedView, UNMATCHED_OUTGOING_EVENT_TTL_NS,
};
use crate::ldk_server::events::{envelope_answer, EventStreamState, StreamInput, StreamStep};
use crate::ldk_server::laws::{after, Operation};
use crate::payment::EventView;
use crate::server::retry_delay_secs;

verus! {

/// What happens to a stream.
pub enum Happening {
    /// It looks what comes next.
    Looked,
    /// A try to subscribe ended, well or not.
    Subscribed(bool),
    /// A pause ended, by itself or because the stream is to end.
    Paused(bool),
    /// It heard something.
    Heard(StreamInput),
    /// Elsewhere, a payment registers its quote or is done with it.
    Elsewhere(Operation),
}

/// Something that happens at some moment, in nanoseconds.
pub struct Turn {
    /// What happens.
    pub happening: Happening,
    /// When.
    pub now: u64,
}

/// Where a stream stands: what it was told to do, its state, and what is known.
pub struct Standing {
    /// What the stream does next.
    pub step: StreamStep<EventView>,
    /// The stream.
    pub state: EventStreamState,
    /// What is known of outgoing payments.
    pub known: CorrelatorView,
}

/// Where a stream stands that has a fresh subscription.
pub open spec fn stands_fresh(known: CorrelatorView) -> Standing {
    Standing {
        step: StreamStep::Continue,
        state: EventStreamState { connected: true, retry_count: 0, active: true },
        known,
    }
}

/// Whether something can happen to a stream that was told to take a step.
/// Payments go on elsewhere at any time.
pub open spec fn is_due(step: StreamStep<EventView>, happening: Happening) -> bool {
    match happening {
        Happening::Looked => step is Continue || step is Emit,
        Happening::Subscribed(_) => step is Subscribe,
        Happening::Paused(_) => step is Pause,
        Happening::Heard(_) => step is Listen,
        Happening::Elsewhere(operation) => operation is Remember || operation is Remove,
    }
}

/// Where a stream stands after something happened.
pub open spec fn stands_after(standing: Standing, turn: Turn) -> Standing {
    let Standing { step, state, known } = standing;
    match turn.happening {
        Happening::Looked => {
            let (step, state, known) = state.looking(known, turn.now);
            Standing { step, state, known }
        },
        Happening::Subscribed(ok) => {
            let (step, state) = state.subscribing(ok);
            Standing { step, state, known }
        },
        Happening::Paused(cancelled) => {
            let (step, state) = state.pausing(cancelled);
            Standing { step, state, known }
        },
        Happening::Heard(input) => {
            let (step, state, known) = state.hearing(input, known, turn.now);
            Standing { step, state, known }
        },
        Happening::Elsewhere(operation) => Standing {
            known: after(known, operation, turn.now),
            ..standing
        },
    }
}

/// Where a stream stands after a run of turns.
pub open spec fn stands_after_run(standing: Standing, run: Seq<Turn>) -> Standing
    decreases run.len(),
{
    if run.len() == 0 {
        standing
    } else {
        stands_after(stands_after_run(standing, run.drop_last()), run.last())
    }
}

/// The events that a stream hands out in a run of turns, in order.
pub open spec fn emitted(standing: Standing, run: Seq<Turn>) -> Seq<EventView>
    decreases run.len(),
{
    if run.len() == 0 {
        Seq::empty()
    } else {
        let earlier = emitted(standing, run.drop_last());
        let next = stands_after_run(standing, run);
        match (run.last().happening, next.step) {
            (Happening::Elsewhere(_), _) => earlier,
            (_, StreamStep::Emit(event)) => earlier.push(event),
            _ => earlier,
        }
    }
}

/// Whether each turn of a run is due, nobody ends the stream, and time does not
/// run backwards from some moment on.
pub open spec fn is_uncancelled_run(standing: Standing, run: Seq<Turn>, start: u64) -> bool
    decreases run.len(),
{
    if run.len() == 0 {
        true
    } else {
        let earlier = run.drop_last();
        &&& is_uncancelled_run(standing, earlier, start)
        &&& is_due(stands_after_run(standing, earlier).step, run.last().happening)
        &&& run.last().happening != Happening::Paused(true)
        &&& run.last().happening != Happening::Heard(StreamInput::Cancelled)
        &&& latest(earlier, start) <= run.last().now
    }
}

/// The last moment of a run, or the moment at which it begins.
pub open spec fn latest(run: Seq<Turn>, start: u64) -> u64 {
    if run.len() == 0 {
        start
    } else {
        run.last().now
    }
}

/// What is known after the reports and the registrations of a run, as if the
/// stream had done nothing but answer the reports.
pub open spec fn known_of_reports(known: CorrelatorView, run: Seq<Turn>) -> CorrelatorView
    decreases run.len(),
{
    if run.len() == 0 {
        known
    } else {
        let earlier = known_of_reports(known, run.drop_last());
        match run.last().happening {
            Happening::Heard(StreamInput::Message(message)) => envelope_answer(
                earlier,
                message,
                run.last().now,
            ).1,
            Happening::Elsewhere(operation) => after(earlier, operation, run.last().now),
            _ => earlier,
        }
    }
}

/// The events that the reports of a run stand for, in order. Reports that stand
/// for none, and those that cannot be mapped, are passed over.
pub open spec fn events_of_reports(known: CorrelatorView, run: Seq<Turn>) -> Seq<EventView>
    decreases run.len(),
{
    if run.len() == 0 {
        Seq::empty()
    } else {
        let earlier = events_of_reports(known, run.drop_last());
        match run.last().happening {
            Happening::Heard(StreamInput::Message(message)) => match envelope_answer(
                known_of_reports(known, run.drop_last()),
                message,
                run.last().now,
            ).0 {
                Ok(Some(event)) => earlier.push(event),
                _ => earlier,
            },
            _ => earlier,
        }
    }
}

/// Whether no event waits to be read at any time of a run.
pub open spec fn nothing_is_replayed(known: CorrelatorView, run: Seq<Turn>) -> bool
    decreases run.len(),
{
    &&& known_of_reports(known, run).ready.len() == 0
    &&& run.len() > 0 ==> nothing_is_replayed(known, run.drop_last())
}

/// Whether two records agree on everything that counts from some moment on.
spec fn agree(a: CorrelatorView, b: CorrelatorView, start: u64) -> bool {
    &&& a.ready == b.ready
    &&& forall|now: u64| start <= now ==> #[trigger] a.expired(now) == b.expired(now)
}

proof fn lemma_stale_twice(unmatched: Seq<UnmatchedView>, earlier: u64, now: u64)
    requires
        earlier <= now,
    ensures
        without_stale(without_stale(unmatched, earlier), now) == without_stale(unmatched, now),
    decreases unmatched.len(),
{
    if unmatched.len() > 0 && age(earlier, unmatched[0].received_at)
        >= UNMATCHED_OUTGOING_EVENT_TTL_NS {
        lemma_stale_twice(unmatched.subrange(1, unmatched.len() as int), earlier, now);
    }
}

/// Forgetting early makes no difference later.
proof fn lemma_expired_twice(known: CorrelatorView, earlier: u64, now: u64)
    requires
        earlier <= now,
    ensures
        known.expired(earlier).expired(now) == known.expired(now),
{
    lemma_stale_twice(known.unmatched, earlier, now);
    let twice = known.expired(earlier).expired(now);
    let once = known.expired(now);
    assert(twice.by_key =~= once.by_key);
    assert(twice.finalized =~= once.finalized);
}

proof fn lemma_agree(known: CorrelatorView, reports_only: CorrelatorView, start: u64, now: u64)
    requires
        agree(known, reports_only, start),
        start <= now,
    ensures
        agree(known.expired(now), reports_only, now),
        agree(known, reports_only, now),
{
    assert forall|later: u64| now <= later implies #[trigger] known.expired(now).expired(later)
        == reports_only.expired(later) by {
        lemma_expired_twice(known, now, later);
        assert(known.expired(later) == reports_only.expired(later));
    }
}

proof fn lemma_stream(known: CorrelatorView, run: Seq<Turn>, start: u64)
    requires
        is_uncancelled_run(stands_fresh(known), run, start),
        nothing_is_replayed(known, run),
    ensures
        emitted(stands_fresh(known), run) == events_of_reports(known, run),
        !(stands_after_run(stands_fresh(known), run).step is Stop),
        stands_after_run(stands_fresh(known), run).step is Listen ==> stands_after_run(
            stands_fresh(known),
            run,
        ).state.connected,
        stands_after_run(stands_fresh(known), run).step is Subscribe ==> !stands_after_run(
            stands_fresh(known),
            run,
        ).state.connected,
        agree(
            stands_after_run(stands_fresh(known), run).known,
            known_of_reports(known, run),
            latest(run, start),
        ),
    decreases run.len(),
{
    if run.len() > 0 {
        let earlier = run.drop_last();
        lemma_stream(known, earlier, start);
        let before = stands_after_run(stands_fresh(known), earlier);
        let heard = known_of_reports(known, earlier);
        let now = run.last().now;
        lemma_agree(before.known, heard, latest(earlier, start), now);
        assert(before.known.expired(now) == heard.expired(now));
    }
}

/// An event stream hands out exactly the events of the reports that it hears,
/// in the order of the reports, as long as no event is replayed and nobody ends
/// it. Reports that stand for no event, reports that cannot be mapped, and
/// broken subscriptions neither end the stream nor lose what comes after. It
/// listens only while it has a subscription, and subscribes only while it has
/// none.
pub proof fn streams_hand_out_the_events_of_reports(
    known: CorrelatorView,
    run: Seq<Turn>,
    start: u64,
)
    requires
        is_uncancelled_run(stands_fresh(known), run, start),
        nothing_is_replayed(known, run),
    ensures
        emitted(stands_fresh(known), run) == events_of_reports(known, run),
        !(stands_after_run(stands_fresh(known), run).step is Stop),
        stands_after_run(stands_fresh(known), run).step is Listen ==> stands_after_run(
            stands_fresh(known),
            run,
        ).state.connected,
        stands_after_run(stands_fresh(known), run).step is Subscribe ==> !stands_after_run(
            stands_fresh(known),
            run,
        ).state.connected,
{
    lemma_stream(known, run, start);
}

/// A stream whose subscription broke pauses and subscribes again, and once it
/// has a subscription it listens. How long it pauses depends on how often it
/// has tried; it never ends by itself.
pub proof fn broken_subscriptions_are_renewed(
    state: EventStreamState,
    known: CorrelatorView,
    now: u64,
)
    requires
        known.ready.len() == 0,
    ensures
        ({
            let (pause, broken, _) = state.hearing(StreamInput::Disconnected, known, now);
            let (go_on, rested) = broken.pausing(false);
            let (subscribe, looked, _) = rested.looking(known, now);
            let (pause_again, failed) = looked.subscribing(false);
            let (go_on_again, renewed) = looked.subscribing(true);
            let (listen, _, _) = renewed.looking(known, now);
            &&& pause == StreamStep::<EventView>::Pause(retry_delay_secs(state.retry_count))
            &&& go_on is Continue
            &&& subscribe is Subscribe
            &&& pause_again == StreamStep::<EventView>::Pause(retry_delay_secs(rested.retry_count))
            &&& !failed.connected
            &&& go_on_again is Continue
            &&& renewed.connected && renewed.retry_count == 0
            &&& listen is Listen
        }),
{
}

} // verus!
