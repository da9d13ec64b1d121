//! The bounded buffer of recent hardware events that the interface reads.

use vstd::prelude::*;
use std::collections::VecDeque;
use crate::models::{EventCategory, EventSeverity};

verus! {

/// How many events the buffer keeps; the oldest goes first.
pub const EVENT_BUFFER_CAPACITY: usize = 500;

/// A hardware event; its time is in milliseconds since the Unix epoch.
#[derive(Clone, Debug)]
pub struct HardwareEvent {
    pub timestamp_ms: i64,
    pub category: EventCategory,
    pub severity: EventSeverity,
    pub message: String,
    pub source: String,
}

impl HardwareEvent {
    pub open spec fn with_severity(
        timestamp_ms: i64,
        category: EventCategory,
        severity: EventSeverity,
        message: String,
        source: String,
    ) -> HardwareEvent {
        HardwareEvent { timestamp_ms, category, severity, message, source }
    }

    /// An informational event at `timestamp_ms`.
    pub fn info(timestamp_ms: i64, category: EventCategory, message: String, source: String) -> (r: HardwareEvent)
        ensures
            r == Self::with_severity(timestamp_ms, category, EventSeverity::Info, message, source),
    {
        HardwareEvent { timestamp_ms, category, severity: EventSeverity::Info, message, source }
    }

    /// A warning event at `timestamp_ms`.
    pub fn warning(timestamp_ms: i64, category: EventCategory, message: String, source: String) -> (r: HardwareEvent)
        ensures
            r == Self::with_severity(timestamp_ms, category, EventSeverity::Warning, message, source),
    {
        HardwareEvent { timestamp_ms, category, severity: EventSeverity::Warning, message, source }
    }

    /// An error event at `timestamp_ms`.
    pub fn error(timestamp_ms: i64, category: EventCategory, message: String, source: String) -> (r: HardwareEvent)
        ensures
            r == Self::with_severity(timestamp_ms, category, EventSeverity::Error, message, source),
    {
        HardwareEvent { timestamp_ms, category, severity: EventSeverity::Error, message, source }
    }

    /// A copy of the event.
    pub fn duplicate(&self) -> (r: HardwareEvent)
        ensures
            r == *self,
    {
        HardwareEvent {
            timestamp_ms: self.timestamp_ms,
            category: self.category,
            severity: self.severity,
            message: self.message.clone(),
            source: self.source.clone(),
        }
    }
}

/// The recent events, oldest first.
pub struct EventBuffer {
    events: VecDeque<HardwareEvent>,
}

impl View for EventBuffer {
    type V = Seq<HardwareEvent>;

    closed spec fn view(&self) -> Seq<HardwareEvent> {
        self.events@
    }
}

/// The buffer after `e` arrives: a full buffer drops its oldest event first.
pub open spec fn pushed(events: Seq<HardwareEvent>, e: HardwareEvent) -> Seq<HardwareEvent> {
    if events.len() >= EVENT_BUFFER_CAPACITY {
        events.subrange(1, events.len() as int).push(e)
    } else {
        events.push(e)
    }
}

/// The newest `count` events (all of them where there are fewer), oldest first.
pub open spec fn recent(events: Seq<HardwareEvent>, count: nat) -> Seq<HardwareEvent> {
    if count >= events.len() {
        events
    } else {
        events.subrange(events.len() - count, events.len() as int)
    }
}

/// An empty buffer.
pub fn create_event_buffer() -> (r: EventBuffer)
    ensures
        r@ == Seq::<HardwareEvent>::empty(),
{
    EventBuffer { events: VecDeque::new() }
}

/// Adds an event, dropping the oldest one when the buffer is full.
pub fn push_event(buffer: &mut EventBuffer, event: HardwareEvent)
    ensures
        final(buffer)@ == pushed(old(buffer)@, event),
        old(buffer)@.len() <= EVENT_BUFFER_CAPACITY ==> final(buffer)@.len() <= EVENT_BUFFER_CAPACITY,
{
    if buffer.events.len() >= EVENT_BUFFER_CAPACITY {
        let _ = buffer.events.pop_front();
    }
    buffer.events.push_back(event);
}

/// The newest `count` events, oldest first.
pub fn get_recent_events(buffer: &EventBuffer, count: usize) -> (r: Vec<HardwareEvent>)
    ensures
        r@ == recent(buffer@, count as nat),
{
    let n = buffer.events.len();
    let start = if count >= n {
        0
    } else {
        n - count
    };
    let mut out: Vec<HardwareEvent> = Vec::new();
    let mut i: usize = start;
    while i < n
        invariant
            n == buffer@.len(),
            start <= i <= n,
            start == (if count >= n { 0 } else { n - count }),
            out@ == buffer@.subrange(start as int, i as int),
        decreases n - i,
    {
        let e = buffer.events[i].duplicate();
        out.push(e);
        assert(out@ =~= buffer@.subrange(start as int, i + 1));
        i = i + 1;
    }
    assert(buffer@.subrange(0, n as int) =~= buffer@);
    out
}

} // verus!
