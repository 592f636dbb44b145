//! The stream of payment updates.

use vstd::prelude::*;

use crate::lexe::backend::{map_payment_event, update_mapped, Error};
use crate::lexe::client::Payment;
use crate::lexe::database::{QuoteDatabase, QuoteDatabaseView};
use crate::payment::{result_view, Event, EventView};

verus! {

/// How long fetching updates may take, in seconds.
pub const POLL_TIMEOUT_SECS: u64 = 30;

/// How long to wait when there are no more updates, in milliseconds.
pub const POLL_INTERVAL_MS: u64 = 5_000;

/// How many updates to fetch at a time.
pub const EVENT_PAGE_SIZE: usize = 100;

/// How many events may wait to be read.
pub const EVENT_QUEUE_SIZE: usize = 100;

/// How long to wait after the first failure, in milliseconds.
pub const POLL_BACKOFF_INITIAL_MS: u64 = 500;

/// The longest wait after a failure, in milliseconds.
pub const POLL_BACKOFF_MAX_MS: u64 = 30_000;

/// How many payments to read at a time when the history is searched.
pub const RECOVERY_PAGE_SIZE: usize = 500;

/// One subscription to payment updates. It starts at the beginning of the
/// history, and its cursor never passes an update that was not dealt with.
#[derive(Debug)]
pub struct EventPoller {
    cursor: Option<String>,
    backoff_ms: u64,
}

/// The wait that follows a wait after another failure.
pub open spec fn next_backoff(backoff_ms: u64) -> u64 {
    if 2 * backoff_ms <= POLL_BACKOFF_MAX_MS {
        (2 * backoff_ms) as u64
    } else {
        POLL_BACKOFF_MAX_MS
    }
}

impl EventPoller {
    /// The latest update that was dealt with.
    pub closed spec fn position(&self) -> Option<Seq<char>> {
        self.cursor.deep_view()
    }

    /// How long to wait after the next failure, in milliseconds.
    pub closed spec fn backoff(&self) -> u64 {
        self.backoff_ms
    }

    #[verifier::type_invariant]
    spec fn backoff_in_bounds(self) -> bool {
        POLL_BACKOFF_INITIAL_MS <= self.backoff_ms <= POLL_BACKOFF_MAX_MS
    }

    /// A subscription that replays the history from its beginning.
    pub fn new() -> (poller: EventPoller)
        ensures
            poller.position() is None,
            poller.backoff() == POLL_BACKOFF_INITIAL_MS,
    {
        EventPoller { cursor: None, backoff_ms: POLL_BACKOFF_INITIAL_MS }
    }

    /// Where to go on fetching updates.
    pub fn cursor(&self) -> (cursor: Option<String>)
        ensures
            cursor.deep_view() == self.position(),
    {
        match &self.cursor {
            Some(cursor) => Some(cursor.clone()),
            None => None,
        }
    }

    /// Maps the next update. An update that stands for no event is dealt with
    /// at once; one that stands for an event is dealt with when the event was
    /// delivered; one that cannot be mapped comes again.
    pub fn update(&mut self, db: &mut QuoteDatabase, payment: &Payment) -> (res: Result<
        Option<Event>,
        Error,
    >)
        ensures
            result_view(res) == update_mapped(old(db)@, *payment).0,
            final(db)@ == update_mapped(old(db)@, *payment).1,
            final(self).position() == (if res matches Ok(None) {
                Some(payment.updated_index@)
            } else {
                old(self).position()
            }),
            final(self).backoff() == old(self).backoff(),
    {
        proof {
            use_type_invariant(&*self);
        }
        let res = map_payment_event(db, payment);
        match &res {
            Ok(None) => {
                self.cursor = Some(payment.updated_index.clone());
            },
            _ => {},
        }
        res
    }

    /// The event of an update was delivered.
    pub fn delivered(&mut self, payment: &Payment)
        ensures
            final(self).position() == Some(payment.updated_index@),
            final(self).backoff() == old(self).backoff(),
    {
        proof {
            use_type_invariant(&*self);
        }
        self.cursor = Some(payment.updated_index.clone());
    }

    /// A page of updates was worked off: how long to wait now, in
    /// milliseconds. `failed` says that an update could not be mapped.
    pub fn page_done(&mut self, empty: bool, failed: bool) -> (delay_ms: u64)
        ensures
            delay_ms == (if failed {
                old(self).backoff()
            } else if empty {
                POLL_INTERVAL_MS
            } else {
                0
            }),
            final(self).backoff() == (if failed {
                old(self).backoff()
            } else {
                POLL_BACKOFF_INITIAL_MS
            }),
            final(self).position() == old(self).position(),
    {
        proof {
            use_type_invariant(&*self);
        }
        if failed {
            return self.backoff_ms;
        }
        self.backoff_ms = POLL_BACKOFF_INITIAL_MS;
        if empty {
            POLL_INTERVAL_MS
        } else {
            0
        }
    }

    /// Updates could not be fetched: how long to wait now, in milliseconds.
    pub fn fetch_failed(&mut self) -> (delay_ms: u64)
        ensures
            delay_ms == old(self).backoff(),
            POLL_BACKOFF_INITIAL_MS <= delay_ms <= POLL_BACKOFF_MAX_MS,
            final(self).backoff() == next_backoff(old(self).backoff()),
            final(self).position() == old(self).position(),
    {
        proof {
            use_type_invariant(&*self);
        }
        let delay_ms: u64 = self.backoff_ms;
        let doubled: u64 = delay_ms * 2;
        self.backoff_ms = if doubled <= POLL_BACKOFF_MAX_MS {
            doubled
        } else {
            POLL_BACKOFF_MAX_MS
        };
        delay_ms
    }
}

/// What working off some updates leaves.
pub struct PageRun {
    /// What is remembered.
    pub db: QuoteDatabaseView,
    /// The events, in order.
    pub events: Seq<EventView>,
}

/// What working off the first `n` updates of a page leaves; `None` where one of
/// them could not be mapped.
pub open spec fn page_run(db: QuoteDatabaseView, page: Seq<Payment>, n: nat) -> Option<PageRun>
    decreases n,
{
    if n == 0 {
        Some(PageRun { db, events: Seq::empty() })
    } else {
        match page_run(db, page, (n - 1) as nat) {
            None => None,
            Some(run) => {
                let (mapped, db) = update_mapped(run.db, page[n - 1]);
                match mapped {
                    Ok(Some(event)) => Some(PageRun { db, events: run.events.push(event) }),
                    Ok(None) => Some(PageRun { db, events: run.events }),
                    Err(_) => None,
                }
            },
        }
    }
}

/// An update that cannot be mapped holds back everything behind it: where the
/// first `n` updates of a page are worked off, so are all shorter prefixes, and
/// the events of a prefix are a prefix of the events.
pub proof fn updates_are_never_skipped(
    db: QuoteDatabaseView,
    page: Seq<Payment>,
    m: nat,
    n: nat,
)
    requires
        m <= n <= page.len(),
        page_run(db, page, n) is Some,
    ensures
        page_run(db, page, m) is Some,
        page_run(db, page, m)->0.events.is_prefix_of(page_run(db, page, n)->0.events),
    decreases n,
{
    if m < n {
        updates_are_never_skipped(db, page, m, (n - 1) as nat);
    }
}

/// One event stream, counted among those that are active.
#[derive(Debug)]
pub struct PaymentEventStreamActivity {
    active: bool,
}

impl PaymentEventStreamActivity {
    /// Whether this stream counts as active.
    pub closed spec fn is_active(&self) -> bool {
        self.active
    }

    /// Counts a new stream.
    pub fn new(active_streams: &mut usize) -> (activity: PaymentEventStreamActivity)
        ensures
            activity.is_active(),
            *final(active_streams) == (if *old(active_streams) == usize::MAX {
                0
            } else {
                *old(active_streams) + 1
            }),
    {
        *active_streams = active_streams.wrapping_add(1);
        PaymentEventStreamActivity { active: true }
    }

    /// Stops counting the stream. Doing so again changes nothing.
    pub fn deactivate(&mut self, active_streams: &mut usize)
        ensures
            !final(self).is_active(),
            *final(active_streams) == (if !old(self).is_active() {
                *old(active_streams) as int
            } else if *old(active_streams) == 0 {
                usize::MAX as int
            } else {
                *old(active_streams) - 1
            }),
    {
        if self.active {
            self.active = false;
            *active_streams = active_streams.wrapping_sub(1);
        }
    }
}

/// Whether some stream is active.
pub fn is_payment_event_stream_active(active_streams: usize) -> (res: bool)
    ensures
        res == (active_streams > 0),
{
    active_streams > 0
}

} // verus!
