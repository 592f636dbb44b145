//! The stream of websocket notifications.

use vstd::prelude::*;
use vstd::string::*;

use crate::lnbits::backend::{incoming_answer, incoming_payment_response, Payment};
use crate::payment::{Event, EventView};
use crate::server::{retry_delay, retry_delay_secs};

verus! {

/// What an event stream hears.
#[derive(Debug, PartialEq, Eq)]
pub enum StreamInput {
    /// The stream is to end.
    Cancelled,
    /// LNbits announces a payment by its hash.
    Notification(String),
    /// The websocket was closed.
    Closed,
}

/// What an event stream does next.
#[derive(Debug, PartialEq, Eq)]
pub enum StreamStep {
    /// Ask for the payment with this hash.
    Fetch(String),
    /// Pause, in seconds, unless the stream ends meanwhile.
    Pause(u64),
    /// Subscribe again.
    Subscribe,
    /// End the stream.
    Stop,
}

/// An event stream.
#[derive(Clone, Copy, Debug, PartialEq, Eq, Structural)]
pub struct EventStreamState {
    /// How many tries to reconnect have failed in a row.
    pub retry_count: u32,
}

impl EventStreamState {
    /// A stream whose websocket is open.
    pub fn new() -> (state: EventStreamState)
        ensures
            state.retry_count == 0,
    {
        EventStreamState { retry_count: 0 }
    }

    /// How long to wait before the next try to reconnect, in seconds.
    pub fn retry_delay(&self) -> (secs: u64)
        ensures
            secs == retry_delay_secs(self.retry_count),
    {
        retry_delay(self.retry_count)
    }

    /// The stream heard something.
    pub fn heard(&mut self, input: StreamInput) -> (step: StreamStep)
        ensures
            match input {
                StreamInput::Cancelled => {
                    &&& step == StreamStep::Stop
                    &&& *final(self) == *old(self)
                },
                StreamInput::Notification(payment_hash) => {
                    &&& step == StreamStep::Fetch(payment_hash)
                    &&& final(self).retry_count == 0
                },
                StreamInput::Closed => {
                    &&& step == StreamStep::Pause(retry_delay_secs(old(self).retry_count))
                    &&& *final(self) == *old(self)
                },
            },
    {
        match input {
            StreamInput::Cancelled => StreamStep::Stop,
            StreamInput::Notification(payment_hash) => {
                self.retry_count = 0;
                StreamStep::Fetch(payment_hash)
            },
            StreamInput::Closed => StreamStep::Pause(self.retry_delay()),
        }
    }

    /// A pause ended, by itself or because the stream is to end.
    pub fn paused(&self, cancelled: bool) -> (step: StreamStep)
        ensures
            step == (if cancelled {
                StreamStep::Stop
            } else {
                StreamStep::Subscribe
            }),
    {
        if cancelled {
            StreamStep::Stop
        } else {
            StreamStep::Subscribe
        }
    }

    /// A try to reconnect ended.
    pub fn reconnected(&mut self, ok: bool)
        ensures
            final(self).retry_count == (if ok {
                0
            } else if old(self).retry_count == u32::MAX {
                u32::MAX
            } else {
                (old(self).retry_count + 1) as u32
            }),
    {
        if ok {
            self.retry_count = 0;
        } else {
            self.retry_count = self.retry_count.saturating_add(1);
        }
    }
}

/// The event that a notification stands for, from what LNbits says of the
/// payment. Where it says nothing, or nothing of a settled incoming payment,
/// the notification is passed over.
pub fn process_websocket_message(payment_hash: &str, fetched: &Option<Payment>) -> (event: Option<
    Event,
>)
    ensures
        event.deep_view() == (match *fetched {
            Some(payment) => match incoming_answer(payment_hash@, payment) {
                Ok(Some(response)) => Some(EventView::PaymentReceived(response)),
                _ => None,
            },
            None => None,
        }),
{
    match fetched {
        Some(payment) => match incoming_payment_response(payment_hash, payment) {
            Ok(Some(response)) => Some(Event::PaymentReceived(response)),
            _ => None,
        },
        None => None,
    }
}

} // verus!
