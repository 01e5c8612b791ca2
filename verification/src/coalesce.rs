//! The coalescing window of the dispatcher. An editor that saves a file
//! often causes several notifications, each of them a `Rebuild`; within a
//! short window only the first one is let through, so that one save is one
//! build. The clock is the program's: it hands over the time of each event
//! in milliseconds.

use crate::event::{Event, EventView};
use vstd::prelude::*;

verus! {

/// The length of the window in milliseconds, unless another is chosen.
pub const COALESCE_MILLIS: u64 = 300;

/// The state of the window as a mathematical value.
pub ghost struct CoalescerView {
    /// The length of the window in milliseconds.
    pub window: u64,
    /// When the last `Rebuild` was let through.
    pub last: Option<u64>,
}

/// An event at the time `now` falls into the window: it is a `Rebuild`, and
/// the last `Rebuild` that was let through is less than the window's length
/// in the past.
pub open spec fn collapses(c: CoalescerView, event: EventView, now: u64) -> bool {
    &&& event == EventView::Rebuild
    &&& c.last matches Some(last)
    &&& last <= now
    &&& now - last < c.window
}

/// The state after an event at the time `now`, and whether the event is let
/// through. Only a `Rebuild` that is let through moves the window.
pub open spec fn accept_spec(c: CoalescerView, event: EventView, now: u64) -> (CoalescerView, bool) {
    if collapses(c, event, now) {
        (c, false)
    } else if event == EventView::Rebuild {
        (CoalescerView { window: c.window, last: Some(now) }, true)
    } else {
        (c, true)
    }
}

/// How many of the `Rebuild` events at the times `times` are let through,
/// one after the other.
pub open spec fn accepted(c: CoalescerView, times: Seq<u64>) -> nat
    decreases times.len(),
{
    if times.len() == 0 {
        0
    } else {
        let first = accept_spec(c, EventView::Rebuild, times[0]);
        (if first.1 {
            1nat
        } else {
            0nat
        }) + accepted(first.0, times.drop_first())
    }
}

/// The coalescing window.
#[derive(Debug)]
pub struct Coalescer {
    window: u64,
    last: Option<u64>,
}

impl View for Coalescer {
    type V = CoalescerView;

    closed spec fn view(&self) -> CoalescerView {
        CoalescerView { window: self.window, last: self.last }
    }
}

impl Coalescer {
    /// A window of `window` milliseconds that has seen nothing yet. A window
    /// of no length lets everything through.
    pub fn new(window: u64) -> (r: Coalescer)
        ensures
            r@ == (CoalescerView { window, last: None }),
    {
        Coalescer { window, last: None }
    }

    /// Takes in an event that happened at `now` and says whether it is let
    /// through.
    pub fn accept(&mut self, event: &Event, now: u64) -> (r: bool)
        ensures
            final(self)@ == accept_spec(old(self)@, event@, now).0,
            r == accept_spec(old(self)@, event@, now).1,
    {
        let rebuild = match event {
            Event::Rebuild => true,
            _ => false,
        };
        if !rebuild {
            return true;
        }
        let inside = match self.last {
            Some(last) => last <= now && now - last < self.window,
            None => false,
        };
        if inside {
            false
        } else {
            self.last = Some(now);
            true
        }
    }
}

/// Whatever the window holds, an event that is no `Rebuild` is let through
/// and leaves the window as it was.
pub proof fn only_rebuilds_are_collapsed(c: CoalescerView, event: EventView, now: u64)
    requires
        event != EventView::Rebuild,
    ensures
        accept_spec(c, event, now) == (c, true),
{
}

/// After a first one, a burst collapses: of the `Rebuild` events at growing
/// times that all lie less than the window's length after `start`, the time
/// of the last `Rebuild` that was let through, none is let through.
pub proof fn burst_is_collapsed(c: CoalescerView, start: u64, times: Seq<u64>)
    requires
        c.last == Some(start),
        forall|i: int| 0 <= i < times.len() ==> start <= #[trigger] times[i] < start + c.window,
    ensures
        accepted(c, times) == 0,
    decreases times.len(),
{
    if times.len() > 0 {
        assert(start <= times[0] < start + c.window);
        let rest = times.drop_first();
        assert forall|i: int| 0 <= i < rest.len() implies start <= #[trigger] rest[i] < start
            + c.window by {
            assert(rest[i] == times[i + 1]);
        }
        burst_is_collapsed(c, start, rest);
    }
}

/// One save is one build: of a burst of `Rebuild` events that all lie less
/// than the window's length after the first of them, exactly one is let
/// through, the first, by a window that has seen no `Rebuild` yet or whose
/// last one lies at least its length before the burst.
pub proof fn burst_lets_one_through(c: CoalescerView, times: Seq<u64>)
    requires
        times.len() > 0,
        c.last matches Some(last) ==> last + c.window <= times[0],
        forall|i: int| 0 <= i < times.len() ==> times[0] <= #[trigger] times[i] < times[0] + c.window,
    ensures
        accept_spec(c, EventView::Rebuild, times[0]).1,
        accepted(c, times) == 1,
{
    let first = accept_spec(c, EventView::Rebuild, times[0]);
    assert(times[0] < times[0] + c.window);
    let rest = times.drop_first();
    assert forall|i: int| 0 <= i < rest.len() implies times[0] <= #[trigger] rest[i] < times[0]
        + first.0.window by {
        assert(rest[i] == times[i + 1]);
    }
    burst_is_collapsed(first.0, times[0], rest);
}

} // verus!
