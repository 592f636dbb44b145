//! The stream of events that the node reports.

use vstd::prelude::*;

use crate::ldk_server::correlator::{
    CorrelatorView, OutgoingPaymentCorrelator, OutgoingPaymentOutcome,
};
use crate::ldk_server::payments::{
    received_answer, wait_payment_response_from_payment, Payment, PaymentError, PaymentErrorView,
};
use crate::payment::{result_view, Event, EventView};
use crate::server::{retry_delay, retry_delay_secs};

verus! {

/// What the node reports.
#[derive(Debug, PartialEq, Eq)]
pub enum NodeEvent {
    /// A payment was received.
    PaymentReceived(Option<Payment>),
    /// An outgoing payment was settled.
    PaymentSuccessful(Option<Payment>),
    /// An outgoing payment failed for good.
    PaymentFailed(Option<Payment>),
    /// A payment passed through.
    PaymentForwarded,
    /// A payment can be claimed.
    PaymentClaimable,
}

/// What a report of the node is answered with, and what is known then.
pub open spec fn envelope_answer(known: CorrelatorView, event: Option<NodeEvent>, now: u64) -> (
    Result<Option<EventView>, PaymentErrorView>,
    CorrelatorView,
) {
    match event {
        Some(NodeEvent::PaymentReceived(Some(payment))) => (
            match received_answer(payment) {
                Ok(Some(response)) => Ok(Some(EventView::PaymentReceived(response))),
                Ok(None) => Ok(None),
                Err(error) => Err(PaymentErrorView::Backend(error)),
            },
            known,
        ),
        Some(NodeEvent::PaymentSuccessful(Some(payment))) => known.expired(now).reporting(
            payment,
            OutgoingPaymentOutcome::Succeeded,
            now,
        ),
        Some(NodeEvent::PaymentFailed(Some(payment))) => known.expired(now).reporting(
            payment,
            OutgoingPaymentOutcome::Failed,
            now,
        ),
        _ => (Ok(None), known),
    }
}

/// The event that a report of the node stands for.
pub fn event_from_envelope(
    event: Option<NodeEvent>,
    correlator: &mut OutgoingPaymentCorrelator,
    now: u64,
) -> (res: Result<Option<Event>, PaymentError>)
    ensures
        result_view(res) == envelope_answer(old(correlator)@, event, now).0,
        final(correlator)@ == envelope_answer(old(correlator)@, event, now).1,
{
    match event {
        Some(NodeEvent::PaymentReceived(Some(payment))) => {
            match wait_payment_response_from_payment(&payment) {
                Ok(Some(response)) => Ok(Some(Event::PaymentReceived(response))),
                Ok(None) => Ok(None),
                Err(error) => Err(PaymentError::Backend(error)),
            }
        },
        Some(NodeEvent::PaymentSuccessful(Some(payment))) => {
            correlator.take_correlated_outgoing_event(
                payment,
                OutgoingPaymentOutcome::Succeeded,
                now,
            )
        },
        Some(NodeEvent::PaymentFailed(Some(payment))) => {
            correlator.take_correlated_outgoing_event(payment, OutgoingPaymentOutcome::Failed, now)
        },
        _ => Ok(None),
    }
}

/// What an event stream does next.
#[derive(Debug, PartialEq, Eq)]
pub enum StreamStep<E> {
    /// Hand this event out.
    Emit(E),
    /// Subscribe to the node again.
    Subscribe,
    /// Wait for the node, for a ready event or for the end.
    Listen,
    /// Pause, in seconds, unless the stream ends meanwhile.
    Pause(u64),
    /// Look what comes next.
    Continue,
    /// End the stream.
    Stop,
}

impl<E: DeepView> DeepView for StreamStep<E> {
    type V = StreamStep<E::V>;

    open spec fn deep_view(&self) -> StreamStep<E::V> {
        match self {
            StreamStep::Emit(event) => StreamStep::Emit(event.deep_view()),
            StreamStep::Subscribe => StreamStep::Subscribe,
            StreamStep::Listen => StreamStep::Listen,
            StreamStep::Pause(secs) => StreamStep::Pause(*secs),
            StreamStep::Continue => StreamStep::Continue,
            StreamStep::Stop => StreamStep::Stop,
        }
    }
}

/// What a listening stream hears.
#[derive(Debug, PartialEq, Eq)]
pub enum StreamInput {
    /// The stream is to end.
    Cancelled,
    /// An event became ready.
    Notified,
    /// The node reported something.
    Message(Option<NodeEvent>),
    /// The subscription broke or ended.
    Disconnected,
}

/// An event stream.
#[derive(Clone, Copy, Debug, PartialEq, Eq, Structural)]
pub struct EventStreamState {
    /// Whether there is a subscription.
    pub connected: bool,
    /// How many tries to reconnect have failed in a row.
    pub retry_count: u32,
    /// Whether the stream is active.
    pub active: bool,
}

impl EventStreamState {
    /// What comes next, of the stream and of what is known: a ready event
    /// before anything else, then a subscription where there is none.
    pub open spec fn looking(self, known: CorrelatorView, now: u64) -> (
        StreamStep<EventView>,
        EventStreamState,
        CorrelatorView,
    ) {
        let state = EventStreamState { active: true, ..self };
        let fresh = known.expired(now);
        if known.ready.len() > 0 {
            let ready = known.ready.subrange(1, known.ready.len() as int);
            (StreamStep::Emit(known.ready[0]), state, CorrelatorView { ready, ..fresh })
        } else if !self.connected {
            (StreamStep::Subscribe, state, fresh)
        } else {
            (StreamStep::Listen, state, fresh)
        }
    }

    /// What follows a try to subscribe.
    pub open spec fn subscribing(self, ok: bool) -> (StreamStep<EventView>, EventStreamState) {
        if ok {
            (
                StreamStep::Continue,
                EventStreamState { connected: true, retry_count: 0, ..self },
            )
        } else {
            (StreamStep::Pause(retry_delay_secs(self.retry_count)), self)
        }
    }

    /// What follows a pause.
    pub open spec fn pausing(self, cancelled: bool) -> (StreamStep<EventView>, EventStreamState) {
        if cancelled {
            (StreamStep::Stop, EventStreamState { active: false, ..self })
        } else {
            (
                StreamStep::Continue,
                EventStreamState {
                    retry_count: if self.retry_count == u32::MAX {
                        u32::MAX
                    } else {
                        (self.retry_count + 1) as u32
                    },
                    ..self
                },
            )
        }
    }

    /// What follows when the stream heard something, and what is known then. A
    /// report that cannot be mapped is passed over.
    pub open spec fn hearing(self, input: StreamInput, known: CorrelatorView, now: u64) -> (
        StreamStep<EventView>,
        EventStreamState,
        CorrelatorView,
    ) {
        match input {
            StreamInput::Cancelled => (
                StreamStep::Stop,
                EventStreamState { active: false, ..self },
                known,
            ),
            StreamInput::Notified => (StreamStep::Continue, self, known),
            StreamInput::Message(event) => {
                let (answer, next) = envelope_answer(known, event, now);
                match answer {
                    Ok(Some(event)) => (StreamStep::Emit(event), self, next),
                    _ => (StreamStep::Continue, self, next),
                }
            },
            StreamInput::Disconnected => (
                StreamStep::Pause(retry_delay_secs(self.retry_count)),
                EventStreamState { connected: false, ..self },
                known,
            ),
        }
    }

    /// A stream with a fresh subscription.
    pub fn new() -> (state: EventStreamState)
        ensures
            state == (EventStreamState { connected: true, retry_count: 0, active: true }),
    {
        EventStreamState { connected: true, retry_count: 0, active: true }
    }

    /// What comes next.
    pub fn next_step(&mut self, correlator: &mut OutgoingPaymentCorrelator, now: u64) -> (step:
        StreamStep<Event>)
        ensures
            (step.deep_view(), *final(self), final(correlator)@) == old(self).looking(
                old(correlator)@,
                now,
            ),
    {
        self.active = true;
        match correlator.take_ready_outgoing_event(now) {
            Some(event) => StreamStep::Emit(event),
            None => if !self.connected {
                StreamStep::Subscribe
            } else {
                StreamStep::Listen
            },
        }
    }

    /// A try to subscribe ended.
    pub fn subscribed(&mut self, ok: bool) -> (step: StreamStep<Event>)
        ensures
            (step.deep_view(), *final(self)) == old(self).subscribing(ok),
    {
        if ok {
            self.connected = true;
            self.retry_count = 0;
            StreamStep::Continue
        } else {
            StreamStep::Pause(retry_delay(self.retry_count))
        }
    }

    /// A pause ended, by itself or because the stream is to end.
    pub fn paused(&mut self, cancelled: bool) -> (step: StreamStep<Event>)
        ensures
            (step.deep_view(), *final(self)) == old(self).pausing(cancelled),
    {
        if cancelled {
            self.active = false;
            StreamStep::Stop
        } else {
            self.retry_count = self.retry_count.saturating_add(1);
            StreamStep::Continue
        }
    }

    /// The stream heard something.
    pub fn heard(
        &mut self,
        input: StreamInput,
        correlator: &mut OutgoingPaymentCorrelator,
        now: u64,
    ) -> (step: StreamStep<Event>)
        ensures
            (step.deep_view(), *final(self), final(correlator)@) == old(self).hearing(
                input,
                old(correlator)@,
                now,
            ),
    {
        match input {
            StreamInput::Cancelled => {
                self.active = false;
                StreamStep::Stop
            },
            StreamInput::Notified => StreamStep::Continue,
            StreamInput::Message(event) => match event_from_envelope(event, correlator, now) {
                Ok(Some(event)) => StreamStep::Emit(event),
                _ => StreamStep::Continue,
            },
            StreamInput::Disconnected => {
                self.connected = false;
                StreamStep::Pause(retry_delay(self.retry_count))
            },
        }
    }
}

} // verus!
