//! The event bus: fan-out of lifecycle events to the clients that are
//! subscribed when an event is published.
//!
//! Each subscriber has a delivery queue of its own, bounded by the capacity
//! of the bus. Publishing never waits: a subscriber whose queue is full when
//! an event arrives is dropped, the others are not affected. Nothing is
//! replayed: a queue starts empty.

use crate::event::{views, Event, EventView};
use vstd::prelude::*;

verus! {

/// The bus as a mathematical value.
pub ghost struct BusView {
    /// The most events a subscriber may have waiting.
    pub capacity: nat,
    /// The identity that the next subscriber gets.
    pub next_id: u64,
    /// The events waiting for each subscriber, oldest first, by identity.
    pub queues: Map<u64, Seq<EventView>>,
}

/// The subscriber `id` is present and its queue is full.
pub open spec fn saturated(bus: BusView, id: u64) -> bool {
    bus.queues.contains_key(id) && bus.queues[id].len() >= bus.capacity
}

/// The bus after `event` was published: every subscriber with room has it at
/// the end of its queue, every other subscriber is gone.
pub open spec fn publish_spec(bus: BusView, event: EventView) -> BusView {
    BusView {
        capacity: bus.capacity,
        next_id: bus.next_id,
        queues: Map::new(
            |id: u64| bus.queues.contains_key(id) && bus.queues[id].len() < bus.capacity,
            |id: u64| bus.queues[id].push(event),
        ),
    }
}

/// The bus after `events` were published, in order.
pub open spec fn publish_all_spec(bus: BusView, events: Seq<EventView>) -> BusView
    decreases events.len(),
{
    if events.len() == 0 {
        bus
    } else {
        publish_spec(publish_all_spec(bus, events.drop_last()), events.last())
    }
}

/// One subscriber: the identity of its connection and its delivery queue.
#[derive(Debug)]
struct Subscriber {
    id: u64,
    pending: Vec<Event>,
}

/// The subscribers as pairs of identity and queue.
spec fn entries(subscribers: Seq<Subscriber>) -> Seq<(u64, Seq<EventView>)> {
    subscribers.map_values(|s: Subscriber| (s.id, views(s.pending@)))
}

/// Identities grow along the list, so none occurs twice.
spec fn ascending(list: Seq<(u64, Seq<EventView>)>) -> bool {
    forall|i: int, j: int| 0 <= i < j < list.len() ==> list[i].0 < list[j].0
}

spec fn listed(list: Seq<(u64, Seq<EventView>)>, id: u64) -> bool {
    exists|i: int| 0 <= i < list.len() && list[i].0 == id
}

spec fn position(list: Seq<(u64, Seq<EventView>)>, id: u64) -> int {
    choose|i: int| 0 <= i < list.len() && list[i].0 == id
}

/// The mapping from identity to queue that a list of subscribers stands for.
spec fn queues_of(list: Seq<(u64, Seq<EventView>)>) -> Map<u64, Seq<EventView>> {
    Map::new(|id: u64| listed(list, id), |id: u64| list[position(list, id)].1)
}

/// What publishing does to the list of subscribers.
spec fn publish_list(list: Seq<(u64, Seq<EventView>)>, capacity: nat, event: EventView) -> Seq<
    (u64, Seq<EventView>),
>
    decreases list.len(),
{
    if list.len() == 0 {
        seq![]
    } else {
        let before = publish_list(list.drop_last(), capacity, event);
        if list.last().1.len() < capacity {
            before.push((list.last().0, list.last().1.push(event)))
        } else {
            before
        }
    }
}

/// The identities that publishing drops, in the order of the list.
spec fn dropped_list(list: Seq<(u64, Seq<EventView>)>, capacity: nat) -> Seq<u64>
    decreases list.len(),
{
    if list.len() == 0 {
        seq![]
    } else {
        let before = dropped_list(list.drop_last(), capacity);
        if list.last().1.len() < capacity {
            before
        } else {
            before.push(list.last().0)
        }
    }
}

proof fn position_is_unique(list: Seq<(u64, Seq<EventView>)>, i: int)
    requires
        ascending(list),
        0 <= i < list.len(),
    ensures
        listed(list, list[i].0),
        position(list, list[i].0) == i,
{
    let p = position(list, list[i].0);
    assert(0 <= p < list.len() && list[p].0 == list[i].0);
    if p < i {
        assert(list[p].0 < list[i].0);
    }
    if i < p {
        assert(list[i].0 < list[p].0);
    }
}

/// In a list without repeated identities every entry is found at its own
/// place.
proof fn entries_are_found(list: Seq<(u64, Seq<EventView>)>)
    requires
        ascending(list),
    ensures
        forall|i: int|
            0 <= i < list.len() ==> listed(list, (#[trigger] list[i]).0) && position(
                list,
                list[i].0,
            ) == i,
{
    assert forall|i: int| 0 <= i < list.len() implies listed(list, (#[trigger] list[i]).0)
        && position(list, list[i].0) == i by {
        position_is_unique(list, i);
    }
}

/// The list that publishing leaves stands for the published mapping, keeps
/// its order, and the dropped identities are those of the full queues.
proof fn publish_list_is_publish(
    list: Seq<(u64, Seq<EventView>)>,
    capacity: nat,
    event: EventView,
)
    requires
        ascending(list),
    ensures
        ascending(publish_list(list, capacity, event)),
        forall|k: int|
            0 <= k < publish_list(list, capacity, event).len() ==> {
                let kept = #[trigger] publish_list(list, capacity, event)[k];
                &&& listed(list, kept.0)
                &&& list[position(list, kept.0)].1.len() < capacity
                &&& kept.1 == list[position(list, kept.0)].1.push(event)
            },
        forall|i: int|
            0 <= i < list.len() && (#[trigger] list[i]).1.len() < capacity ==> listed(
                publish_list(list, capacity, event),
                list[i].0,
            ),
        forall|k: int|
            0 <= k < dropped_list(list, capacity).len() ==> {
                let id = #[trigger] dropped_list(list, capacity)[k];
                &&& listed(list, id)
                &&& list[position(list, id)].1.len() >= capacity
            },
        forall|i: int|
            0 <= i < list.len() && (#[trigger] list[i]).1.len() >= capacity ==> dropped_list(
                list,
                capacity,
            ).contains(list[i].0),
        forall|a: int, b: int|
            0 <= a < b < dropped_list(list, capacity).len() ==> dropped_list(list, capacity)[a]
                < dropped_list(list, capacity)[b],
    decreases list.len(),
{
    if list.len() > 0 {
        let front = list.drop_last();
        let last = list.last();
        let n = list.len() - 1;
        publish_list_is_publish(front, capacity, event);
        let kept_front = publish_list(front, capacity, event);
        let kept = publish_list(list, capacity, event);
        let gone_front = dropped_list(front, capacity);
        let gone = dropped_list(list, capacity);
        assert forall|i: int| 0 <= i < list.len() implies listed(list, #[trigger] list[i].0)
            && position(list, list[i].0) == i by {
            position_is_unique(list, i);
        }
        assert forall|i: int| 0 <= i < front.len() implies listed(front, #[trigger] front[i].0)
            && position(front, front[i].0) == i by {
            position_is_unique(front, i);
        }
        // Whatever the shorter list holds, the longer one holds in the same place.
        assert forall|id: u64| listed(front, id) implies listed(list, id) && position(list, id)
            == position(front, id) && id < last.0 by {
            let p = position(front, id);
            assert(list[p] == front[p]);
            assert(list[p].0 < list[n].0);
        }
        assert forall|k: int| 0 <= k < kept.len() implies {
            let entry = #[trigger] kept[k];
            &&& listed(list, entry.0)
            &&& list[position(list, entry.0)].1.len() < capacity
            &&& entry.1 == list[position(list, entry.0)].1.push(event)
        } by {
            if k < kept_front.len() {
                assert(kept[k] == kept_front[k]);
            } else {
                assert(kept[k].0 == list[n].0);
            }
        }
        assert forall|a: int, b: int| 0 <= a < b < kept.len() implies kept[a].0 < kept[b].0 by {
            if b < kept_front.len() {
                assert(kept[a] == kept_front[a] && kept[b] == kept_front[b]);
            } else {
                assert(kept[a] == kept_front[a]);
                assert(listed(front, kept_front[a].0));
            }
        }
        assert forall|i: int| 0 <= i < list.len() && (#[trigger] list[i]).1.len()
            < capacity implies listed(kept, list[i].0) by {
            if i < n {
                assert(front[i] == list[i]);
                let k = position(kept_front, front[i].0);
                assert(kept[k] == kept_front[k]);
            } else {
                assert(kept[kept.len() - 1].0 == list[i].0);
            }
        }
        assert forall|k: int| 0 <= k < gone.len() implies {
            let id = #[trigger] gone[k];
            &&& listed(list, id)
            &&& list[position(list, id)].1.len() >= capacity
        } by {
            if k < gone_front.len() {
                assert(gone[k] == gone_front[k]);
            } else {
                assert(gone[k] == list[n].0);
            }
        }
        assert forall|i: int| 0 <= i < list.len() && (#[trigger] list[i]).1.len()
            >= capacity implies gone.contains(list[i].0) by {
            if i < n {
                assert(front[i] == list[i]);
                let k = choose|k: int| 0 <= k < gone_front.len() && gone_front[k] == front[i].0;
                assert(gone[k] == gone_front[k]);
            } else {
                assert(gone[gone.len() - 1] == list[i].0);
            }
        }
        assert forall|a: int, b: int| 0 <= a < b < gone.len() implies gone[a] < gone[b] by {
            if b < gone_front.len() {
                assert(gone[a] == gone_front[a] && gone[b] == gone_front[b]);
            } else {
                assert(gone[a] == gone_front[a]);
                assert(listed(front, gone_front[a]));
            }
        }
    }
}

/// The event bus.
#[derive(Debug)]
pub struct EventBus {
    capacity: usize,
    next_id: u64,
    subscribers: Vec<Subscriber>,
}

impl View for EventBus {
    type V = BusView;

    closed spec fn view(&self) -> BusView {
        BusView {
            capacity: self.capacity as nat,
            next_id: self.next_id,
            queues: queues_of(entries(self.subscribers@)),
        }
    }
}

impl EventBus {
    #[verifier::type_invariant]
    spec fn inv(self) -> bool {
        let list = entries(self.subscribers@);
        &&& ascending(list)
        &&& forall|i: int| 0 <= i < list.len() ==> (#[trigger] list[i]).0 < self.next_id
        &&& forall|i: int| 0 <= i < list.len() ==> (#[trigger] list[i]).1.len() <= self.capacity
    }

    /// A bus without subscribers whose delivery queues hold up to `capacity`
    /// events each.
    pub fn new(capacity: usize) -> (r: EventBus)
        ensures
            r@ == (BusView { capacity: capacity as nat, next_id: 0, queues: Map::empty() }),
    {
        let bus = EventBus { capacity, next_id: 0, subscribers: Vec::new() };
        assert(bus@.queues =~= Map::empty());
        bus
    }

    /// The most events a subscriber may have waiting.
    pub fn capacity(&self) -> (r: usize)
        ensures
            r == self@.capacity,
    {
        self.capacity
    }

    /// Where the subscriber `id` stands in the list, if it is there.
    fn find(&self, id: u64) -> (r: Option<usize>)
        ensures
            ascending(entries(self.subscribers@)),
            match r {
                Some(i) => i < self.subscribers.len() && self.subscribers[i as int].id == id
                    && listed(entries(self.subscribers@), id) && position(
                    entries(self.subscribers@),
                    id,
                ) == i,
                None => !listed(entries(self.subscribers@), id),
            },
    {
        proof {
            use_type_invariant(self);
        }
        let mut i: usize = 0;
        while i < self.subscribers.len()
            invariant
                i <= self.subscribers.len(),
                ascending(entries(self.subscribers@)),
                forall|j: int| 0 <= j < i ==> self.subscribers[j].id != id,
            decreases self.subscribers.len() - i,
        {
            if self.subscribers[i].id == id {
                proof {
                    assert(entries(self.subscribers@)[i as int].0 == id);
                    position_is_unique(entries(self.subscribers@), i as int);
                }
                return Some(i);
            }
            i += 1;
        }
        proof {
            let list = entries(self.subscribers@);
            if listed(list, id) {
                let p = position(list, id);
                assert(self.subscribers[p].id == id);
            }
        }
        None
    }

    /// Whether `id` is a current subscriber.
    pub fn is_subscribed(&self, id: u64) -> (r: bool)
        ensures
            r == self@.queues.contains_key(id),
    {
        self.find(id).is_some()
    }

    /// How many events wait for the subscriber `id`; `None` where `id` is not
    /// subscribed.
    pub fn pending(&self, id: u64) -> (r: Option<usize>)
        ensures
            r == (if self@.queues.contains_key(id) {
                Some(self@.queues[id].len() as usize)
            } else {
                None
            }),
            self@.queues.contains_key(id) ==> self@.queues[id].len() <= self@.capacity,
    {
        proof {
            use_type_invariant(self);
        }
        match self.find(id) {
            Some(i) => {
                assert(entries(self.subscribers@)[i as int].1.len() == self.subscribers[i as int].pending@.len());
                Some(self.subscribers[i].pending.len())
            },
            None => None,
        }
    }

    /// Registers a new subscriber with an empty queue and returns its
    /// identity. Identities are handed out in order and never twice; when
    /// they are used up nothing changes and `None` is returned.
    pub fn subscribe(&mut self) -> (r: Option<u64>)
        ensures
            !old(self)@.queues.contains_key(old(self)@.next_id),
            old(self)@.next_id < u64::MAX ==> r == Some(old(self)@.next_id) && final(self)@ == (
            BusView {
                capacity: old(self)@.capacity,
                next_id: (old(self)@.next_id + 1) as u64,
                queues: old(self)@.queues.insert(old(self)@.next_id, seq![]),
            }),
            old(self)@.next_id == u64::MAX ==> r is None && final(self)@ == old(self)@,
    {
        proof {
            use_type_invariant(&*self);
            let list = entries(self.subscribers@);
            if listed(list, self.next_id) {
                let p = position(list, self.next_id);
                assert(list[p].0 < self.next_id);
            }
        }
        if self.next_id == u64::MAX {
            return None;
        }
        let id = self.next_id;
        let ghost before = entries(self.subscribers@);
        let mut subscribers: Vec<Subscriber> = Vec::new();
        core::mem::swap(&mut self.subscribers, &mut subscribers);
        subscribers.push(Subscriber { id, pending: Vec::new() });
        proof {
            let after = entries(subscribers@);
            assert(after =~= before.push((id, Seq::<EventView>::empty()))) by {
                assert(views(Seq::<Event>::empty()) =~= Seq::<EventView>::empty());
            }
        }
        self.next_id = id + 1;
        self.subscribers = subscribers;
        proof {
            let after = entries(self.subscribers@);
            assert(after =~= before.push((id, seq![])));
            assert(views(Seq::<Event>::empty()) =~= seq![]);
            assert forall|i: int| 0 <= i < after.len() implies listed(after, #[trigger] after[i].0)
                && position(after, after[i].0) == i by {
                position_is_unique(after, i);
            }
            assert forall|i: int| 0 <= i < before.len() implies listed(
                before,
                #[trigger] before[i].0,
            ) && position(before, before[i].0) == i by {
                position_is_unique(before, i);
            }
            assert forall|key: u64| listed(after, key) <==> (key == id || listed(before, key)) by {
                if listed(after, key) {
                    let p = position(after, key);
                    if p < before.len() {
                        assert(before[p].0 == key);
                    }
                }
                if listed(before, key) {
                    let p = position(before, key);
                    assert(after[p].0 == key);
                }
                if key == id {
                    assert(after[after.len() - 1].0 == key);
                }
            }
            assert forall|key: u64| listed(before, key) implies after[position(after, key)].1
                == before[position(before, key)].1 by {
                let p = position(before, key);
                assert(after[p] == before[p]);
            }
            assert(after[position(after, id)].1 == Seq::<EventView>::empty()) by {
                assert(after[after.len() - 1].0 == id);
            }
            assert(queues_of(after) =~= queues_of(before).insert(id, seq![]));
        }
        Some(id)
    }
}

impl EventBus {
    /// Removes the subscriber `id` and what waits for it. Returns whether it
    /// was subscribed.
    pub fn unsubscribe(&mut self, id: u64) -> (r: bool)
        ensures
            r == old(self)@.queues.contains_key(id),
            final(self)@ == (BusView {
                capacity: old(self)@.capacity,
                next_id: old(self)@.next_id,
                queues: old(self)@.queues.remove(id),
            }),
    {
        proof {
            use_type_invariant(&*self);
        }
        let ghost before = entries(self.subscribers@);
        match self.find(id) {
            Some(i) => {
                let mut subscribers: Vec<Subscriber> = Vec::new();
                core::mem::swap(&mut self.subscribers, &mut subscribers);
                let _ = subscribers.remove(i);
                proof {
                    let after = entries(subscribers@);
                    assert(after =~= before.remove(i as int));
                    assert(ascending(after));
                }
                self.subscribers = subscribers;
                proof {
                    let after = entries(self.subscribers@);
                    entries_are_found(before);
                    entries_are_found(after);
                    assert forall|key: u64| listed(after, key) <==> (key != id && listed(
                        before,
                        key,
                    )) by {
                        if listed(after, key) {
                            let p = position(after, key);
                            if p < i {
                                assert(before[p] == after[p]);
                            } else {
                                assert(before[p + 1] == after[p]);
                            }
                        }
                        if key != id && listed(before, key) {
                            let p = position(before, key);
                            if p < i {
                                assert(after[p] == before[p]);
                            } else {
                                assert(after[p - 1] == before[p]);
                            }
                        }
                    }
                    assert forall|key: u64| listed(after, key) implies after[position(after, key)].1
                        == before[position(before, key)].1 by {
                        let p = position(after, key);
                        if p < i {
                            assert(before[p] == after[p]);
                        } else {
                            assert(before[p + 1] == after[p]);
                        }
                    }
                    assert(queues_of(after) =~= queues_of(before).remove(id));
                }
                true
            },
            None => {
                assert(queues_of(before).remove(id) =~= queues_of(before));
                false
            },
        }
    }

    /// Takes the oldest event that waits for the subscriber `id` out of its
    /// queue. Returns `None`, and changes nothing, where `id` is not
    /// subscribed or nothing waits for it.
    pub fn poll(&mut self, id: u64) -> (r: Option<Event>)
        ensures
            old(self)@.queues.contains_key(id) && old(self)@.queues[id].len() > 0 ==> {
                &&& r is Some
                &&& r->0@ == old(self)@.queues[id][0]
                &&& final(self)@ == (BusView {
                    capacity: old(self)@.capacity,
                    next_id: old(self)@.next_id,
                    queues: old(self)@.queues.insert(id, old(self)@.queues[id].drop_first()),
                })
            },
            !(old(self)@.queues.contains_key(id) && old(self)@.queues[id].len() > 0) ==> r is None
                && final(self)@ == old(self)@,
    {
        proof {
            use_type_invariant(&*self);
        }
        let ghost before = entries(self.subscribers@);
        match self.find(id) {
            Some(i) => {
                assert(before[i as int].1.len() == self.subscribers[i as int].pending@.len());
                if self.subscribers[i].pending.len() == 0 {
                    return None;
                }
                let mut subscribers: Vec<Subscriber> = Vec::new();
                core::mem::swap(&mut self.subscribers, &mut subscribers);
                let ghost waiting = subscribers[i as int].pending@;
                let event = subscribers[i].pending.remove(0);
                proof {
                    let after = entries(subscribers@);
                    assert(views(subscribers[i as int].pending@) =~= views(waiting).drop_first());
                    assert(after =~= before.update(
                        i as int,
                        (id, before[i as int].1.drop_first()),
                    ));
                    assert(ascending(after));
                }
                self.subscribers = subscribers;
                proof {
                    let after = entries(self.subscribers@);
                    entries_are_found(before);
                    entries_are_found(after);
                    assert forall|key: u64| listed(after, key) <==> listed(before, key) by {
                        if listed(after, key) {
                            let p = position(after, key);
                            assert(before[p].0 == key);
                        }
                        if listed(before, key) {
                            let p = position(before, key);
                            assert(after[p].0 == key);
                        }
                    }
                    assert forall|key: u64| listed(before, key) implies position(after, key)
                        == position(before, key) by {
                        let p = position(before, key);
                        assert(after[p].0 == key);
                    }
                    assert(queues_of(after) =~= queues_of(before).insert(
                        id,
                        queues_of(before)[id].drop_first(),
                    ));
                }
                Some(event)
            },
            None => None,
        }
    }

    /// Delivers `event` to every subscriber that has room for it and drops
    /// every subscriber that has none. Returns the identities that were
    /// dropped, in growing order.
    pub fn publish(&mut self, event: &Event) -> (dropped: Vec<u64>)
        ensures
            final(self)@ == publish_spec(old(self)@, event@),
            forall|id: u64| dropped@.contains(id) <==> saturated(old(self)@, id),
            forall|a: int, b: int| 0 <= a < b < dropped.len() ==> dropped[a] < dropped[b],
    {
        proof {
            use_type_invariant(&*self);
        }
        let ghost before = entries(self.subscribers@);
        let ghost capacity = self.capacity as nat;
        let limit = self.capacity;
        let mut subscribers: Vec<Subscriber> = Vec::new();
        core::mem::swap(&mut self.subscribers, &mut subscribers);
        let mut dropped: Vec<u64> = Vec::new();
        let mut i: usize = 0;
        let ghost mut seen: int = 0;
        while i < subscribers.len()
            invariant
                0 <= i <= subscribers.len(),
                0 <= seen <= before.len(),
                seen == i + dropped.len(),
                subscribers.len() - i == before.len() - seen,
                capacity == limit,
                entries(subscribers@).take(i as int) == publish_list(
                    before.take(seen),
                    capacity,
                    event@,
                ),
                entries(subscribers@).skip(i as int) == before.skip(seen),
                dropped@ == dropped_list(before.take(seen), capacity),
            decreases subscribers.len() - i,
        {
            let ghost list = entries(subscribers@);
            proof {
                assert(list[i as int] == list.skip(i as int)[0]);
                assert(before.skip(seen)[0] == before[seen]);
                assert(before.take(seen + 1).drop_last() =~= before.take(seen));
                assert(before.take(seen + 1).last() == before[seen]);
                assert(list[i as int].1.len() == subscribers[i as int].pending@.len());
            }
            if subscribers[i].pending.len() < limit {
                subscribers[i].pending.push(event.clone());
                proof {
                    let next = entries(subscribers@);
                    assert(next[i as int].1 =~= list[i as int].1.push(event@));
                    assert(next.take(i + 1) =~= list.take(i as int).push(next[i as int]));
                    assert(next.skip(i + 1) =~= list.skip(i as int).skip(1));
                    assert(before.skip(seen + 1) =~= before.skip(seen).skip(1));
                    seen = seen + 1;
                }
                i += 1;
            } else {
                let gone = subscribers.remove(i);
                dropped.push(gone.id);
                proof {
                    let next = entries(subscribers@);
                    assert(next =~= list.remove(i as int));
                    assert(next.take(i as int) =~= list.take(i as int));
                    assert(next.skip(i as int) =~= list.skip(i as int).skip(1));
                    assert(before.skip(seen + 1) =~= before.skip(seen).skip(1));
                    seen = seen + 1;
                }
            }
        }
        proof {
            let after = entries(subscribers@);
            assert(after.take(i as int) =~= after);
            assert(before.take(seen) =~= before);
            publish_list_is_publish(before, capacity, event@);
        }
        self.subscribers = subscribers;
        proof {
            let after = entries(self.subscribers@);
            entries_are_found(before);
            entries_are_found(after);
            assert forall|key: u64| listed(after, key) <==> (listed(before, key)
                && before[position(before, key)].1.len() < capacity) by {
                if listed(after, key) {
                    let p = position(after, key);
                    assert(after[p].0 == key);
                }
                if listed(before, key) && before[position(before, key)].1.len() < capacity {
                    let p = position(before, key);
                    assert(before[p].1.len() < capacity);
                }
            }
            assert forall|key: u64| listed(after, key) implies after[position(after, key)].1
                == before[position(before, key)].1.push(event@) by {
                let p = position(after, key);
                assert(after[p].0 == key);
            }
            assert(queues_of(after) =~= publish_spec(old(self)@, event@).queues);
            assert forall|id: u64| dropped@.contains(id) <==> saturated(old(self)@, id) by {
                if dropped@.contains(id) {
                    let k = choose|k: int| 0 <= k < dropped@.len() && dropped@[k] == id;
                    assert(dropped_list(before, capacity)[k] == id);
                }
                if saturated(old(self)@, id) {
                    let p = position(before, id);
                    assert(before[p].1.len() >= capacity);
                }
            }
        }
        dropped
    }
}

/// Every event reaches every subscriber that keeps up, in the order of
/// publishing, whatever becomes of the others: a subscriber whose queue has
/// room for all of `events` has exactly these events added to the end of its
/// queue, in order, once they are published. No one else's full queue, and no
/// one else's removal, changes that.
pub proof fn publishing_delivers_in_order(bus: BusView, events: Seq<EventView>, id: u64)
    requires
        bus.queues.contains_key(id),
        bus.queues[id].len() + events.len() <= bus.capacity,
    ensures
        publish_all_spec(bus, events).queues.contains_key(id),
        publish_all_spec(bus, events).queues[id] == bus.queues[id] + events,
        publish_all_spec(bus, events).capacity == bus.capacity,
    decreases events.len(),
{
    if events.len() == 0 {
        assert(bus.queues[id] + events =~= bus.queues[id]);
    } else {
        publishing_delivers_in_order(bus, events.drop_last(), id);
        assert(bus.queues[id] + events =~= (bus.queues[id] + events.drop_last()).push(
            events.last(),
        ));
    }
}

/// Publishing adds no subscriber: whoever is subscribed after `events` were
/// published was subscribed before.
pub proof fn publishing_adds_no_subscriber(bus: BusView, events: Seq<EventView>, id: u64)
    requires
        publish_all_spec(bus, events).queues.contains_key(id),
    ensures
        bus.queues.contains_key(id),
    decreases events.len(),
{
    if events.len() > 0 {
        publishing_adds_no_subscriber(bus, events.drop_last(), id);
    }
}

} // verus!
