use vstd::prelude::*;

use crate::event::{Envelope, Event, EventView, events_view};
use crate::events::{Snapshot, Tracker, changes};
use crate::overlay::{Hud, HudView, ingested, unexpired};

verus! {

/// The display after `events`, in order, all on frame `frame`.
pub open spec fn ingested_all(h: HudView, frame: u64, events: Seq<EventView>) -> HudView
    decreases events.len(),
{
    if events.len() == 0 {
        h
    } else {
        ingested(ingested_all(h, frame, events.drop_last()), frame, events.last())
    }
}

/// The display once the rows that outlived their time on frame `frame` are gone.
pub open spec fn expired(h: HudView, frame: u64) -> HudView {
    HudView { feed: unexpired(h.feed, frame), ..h }
}

/// What the game side watches each frame: the tracker that turns samples into
/// events, and the display they are shown on.
pub struct Monitor {
    pub tracker: Tracker,
    pub hud: Hud,
}

impl Default for Monitor {
    fn default() -> (m: Monitor)
        ensures
            !m.tracker.has_sample(),
    {
        Monitor { tracker: Tracker::default(), hud: Hud::default() }
    }
}

impl Monitor {
    /// One frame: the events since the last sample are worked out, shown in
    /// order, and then the rows that are too old are dropped.
    pub fn observe(&mut self, frame: u64, now: Snapshot) -> (events: Vec<Event>)
        ensures
            events_view(events@) == changes(old(self).tracker.last(), now),
            final(self).tracker.last() == now,
            final(self).hud@ == expired(ingested_all(old(self).hud@, frame, events_view(events@)), frame),
    {
        let events = self.tracker.update(now);
        let ghost all = events_view(events@);
        let mut i: usize = 0;
        while i < events.len()
            invariant
                i <= events@.len(),
                all == events_view(events@),
                self.tracker.last() == now,
                self.hud@ == ingested_all(old(self).hud@, frame, all.take(i as int)),
            decreases events@.len() - i,
        {
            self.hud.ingest(frame, &events[i]);
            i += 1;
            assert(all.take(i as int).drop_last() =~= all.take(i - 1));
        }
        assert(all.take(events@.len() as int) =~= all);
        self.hud.expire(frame);
        events
    }
}

/// Numbers the events sent to the collector, one after another.
pub struct Sequence {
    pub next: u64,
}

impl Sequence {
    /// `event` as sent: numbered with the next number, with the frame and time
    /// it was seen at and how many lines the shipper has dropped so far.
    pub fn stamp(&mut self, frame: u64, time_ms: u64, dropped: u64, event: Event) -> (e: Envelope)
        requires
            old(self).next < u64::MAX,
        ensures
            e == (Envelope { seq: old(self).next, frame, time_ms, dropped, event }),
            final(self).next == old(self).next + 1,
    {
        let e = Envelope { seq: self.next, frame, time_ms, dropped, event };
        self.next = self.next + 1;
        e
    }
}

} // verus!
