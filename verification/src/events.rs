//! The scripted timeline: events that wait for their time and then fire once.

use vstd::prelude::*;
use std::collections::HashMap;
use crate::coords::Point;
use crate::enemy::{Enemy, EnemyType};

verus! {

/// The id that stands for the start of the level. An event that refers to it
/// gets its time when the timeline is set up.
pub const LEVEL_REF: u32 = 0;

/// What an event does when it fires.
#[derive(Clone, Copy, Debug, PartialEq, Eq)]
pub enum EventType {
    /// An enemy of the kind appears at the position.
    SpawnEnemy(Point<i32>, EnemyType),
    /// Reserved; it fires without effect.
    SpawnBoss(Point<i32>),
}

/// One entry of the timeline.
#[derive(Clone, Copy, Debug, PartialEq, Eq)]
pub struct Event {
    pub id: u32,
    /// When the event fires, once that is known.
    pub time: Option<u64>,
    /// The id of the event that this one waits for, and how long it waits
    /// after that one.
    pub ref_evt: Option<(u32, u64)>,
    pub variant: EventType,
}

/// The timeline.
pub struct EventSystem {
    /// The events that have not fired, in the order given.
    pub list: Vec<Event>,
    /// For each event that fired, by id, the time it was set for.
    pub history: HashMap<u32, u64>,
    pub latest_id: u32,
}

/// The time `offset` microseconds after `now`, at most the last the clock can show.
pub open spec fn later(now: u64, offset: u64) -> u64 {
    if now + offset > u64::MAX {
        u64::MAX
    } else {
        (now + offset) as u64
    }
}

impl Event {
    /// The event as the timeline takes it up at `now`: one that waits for the
    /// start of the level gets its time and waits no more; any other is kept
    /// as it is.
    pub open spec fn resolved(self, now: u64) -> Event {
        match self.ref_evt {
            Some((id, offset)) if id == LEVEL_REF => Event {
                time: Some(later(now, offset)),
                ref_evt: None,
                ..self
            },
            _ => self,
        }
    }

    /// Whether the event fires at `now`: it has a time, and that has come.
    pub open spec fn due(self, now: u64) -> bool {
        match self.time {
            Some(t) => t <= now,
            None => false,
        }
    }

    /// The enemy that the event brings, if it brings one.
    pub open spec fn brings(self) -> Option<Enemy> {
        match self.variant {
            EventType::SpawnEnemy(pos, variant) => Some(Enemy::spawned(pos, variant)),
            EventType::SpawnBoss(_) => None,
        }
    }

    /// The event as the timeline takes it up at `now`.
    pub fn resolve(self, now: u64) -> (e: Event)
        ensures
            e == self.resolved(now),
    {
        match self.ref_evt {
            Some((id, offset)) => {
                if id == LEVEL_REF {
                    let time: u64 = if offset <= u64::MAX - now {
                        now + offset
                    } else {
                        u64::MAX
                    };
                    Event { id: self.id, time: Some(time), ref_evt: None, variant: self.variant }
                } else {
                    self
                }
            },
            None => self,
        }
    }

    /// Whether the event fires at `now`.
    pub fn is_due(&self, now: u64) -> (due: bool)
        ensures
            due == self.due(now),
    {
        match self.time {
            Some(t) => t <= now,
            None => false,
        }
    }

    /// The enemy that the event brings, if it brings one.
    pub fn spawn(&self) -> (e: Option<Enemy>)
        ensures
            e == self.brings(),
    {
        match self.variant {
            EventType::SpawnEnemy(pos, variant) => Some(Enemy::spawn(pos, variant)),
            EventType::SpawnBoss(_) => None,
        }
    }
}

/// Taking an event up at `now`, as a function of the event.
pub open spec fn resolving(now: u64) -> spec_fn(Event) -> Event {
    |e: Event| e.resolved(now)
}

/// Being due at `now`, as a predicate on events.
pub open spec fn due_at(now: u64) -> spec_fn(Event) -> bool {
    |e: Event| e.due(now)
}

/// Not being due at `now`, as a predicate on events.
pub open spec fn waiting_at(now: u64) -> spec_fn(Event) -> bool {
    |e: Event| !e.due(now)
}

/// The history with one more event, under its id and with its time.
pub open spec fn logged(history: Map<u32, u64>, e: Event) -> Map<u32, u64> {
    match e.time {
        Some(t) => history.insert(e.id, t),
        None => history,
    }
}

/// The history after the events have fired, first to last.
pub open spec fn recorded(history: Map<u32, u64>, fired: Seq<Event>) -> Map<u32, u64>
    decreases fired.len(),
{
    if fired.len() == 0 {
        history
    } else {
        logged(recorded(history, fired.drop_last()), fired.last())
    }
}

impl EventSystem {
    /// Sets the timeline up at `now`: every event that waits for the start of
    /// the level gets its time. Nothing has fired yet.
    pub fn new(evt_list: Vec<Event>, now: u64) -> (s: EventSystem)
        ensures
            s.list@ == evt_list@.map_values(resolving(now)),
            s.history@ == Map::<u32, u64>::empty(),
            s.latest_id == 0,
    {
        let mut list: Vec<Event> = Vec::new();
        let mut i: usize = 0;
        while i < evt_list.len()
            invariant
                i <= evt_list.len(),
                list@ == evt_list@.take(i as int).map_values(resolving(now)),
            decreases evt_list.len() - i,
        {
            let evt = evt_list[i];
            list.push(evt.resolve(now));
            proof {
                assert(evt_list@.take(i + 1) == evt_list@.take(i as int).push(evt));
            }
            i = i + 1;
        }
        proof {
            assert(evt_list@.take(i as int) == evt_list@);
        }
        EventSystem { list, history: HashMap::new(), latest_id: 0 }
    }

    /// Whether no event is left to fire.
    pub fn is_empty(&self) -> (empty: bool)
        ensures
            empty == (self.list@.len() == 0),
    {
        self.list.len() == 0
    }

    /// Takes the events that are due at `now` out of the timeline and hands
    /// them over in the order they stood in; each is written into the
    /// history. The events that stay keep their order.
    pub fn take_due(&mut self, now: u64) -> (fired: Vec<Event>)
        ensures
            fired@ == old(self).list@.filter(due_at(now)),
            final(self).list@ == old(self).list@.filter(waiting_at(now)),
            final(self).history@ == recorded(old(self).history@, fired@),
            final(self).latest_id == old(self).latest_id,
    {
        broadcast use vstd::std_specs::hash::group_hash_axioms;

        let ghost before = self.list@;
        let ghost history = self.history@;
        let mut fired: Vec<Event> = Vec::new();
        let mut kept: Vec<Event> = Vec::new();
        let mut i: usize = 0;
        while i < self.list.len()
            invariant
                i <= self.list.len(),
                self.list@ == before,
                self.latest_id == old(self).latest_id,
                fired@ == before.take(i as int).filter(due_at(now)),
                kept@ == before.take(i as int).filter(waiting_at(now)),
                self.history@ == recorded(history, fired@),
            decreases self.list.len() - i,
        {
            let evt = self.list[i];
            proof {
                assert(before.take(i + 1) == before.take(i as int).push(evt));
                before.take(i as int).lemma_filter_push(evt, due_at(now));
                before.take(i as int).lemma_filter_push(evt, waiting_at(now));
            }
            match evt.time {
                Some(t) => {
                    if t <= now {
                        proof {
                            assert(fired@.push(evt).drop_last() == fired@);
                        }
                        fired.push(evt);
                        self.history.insert(evt.id, t);
                    } else {
                        kept.push(evt);
                    }
                },
                None => {
                    kept.push(evt);
                },
            }
            i = i + 1;
        }
        proof {
            assert(before.take(i as int) == before);
        }
        self.list = kept;
        fired
    }
}

/// Once the events that are due at `now` are taken out, none of those left
/// is due at `now`.
pub proof fn lemma_none_due_after_firing(pending: Seq<Event>, now: u64)
    ensures
        pending.filter(waiting_at(now)).filter(due_at(now)) == Seq::<Event>::empty(),
        forall|i: int|
            0 <= i < pending.filter(waiting_at(now)).len() ==> !(#[trigger] pending.filter(
                waiting_at(now),
            )[i]).due(now),
    decreases pending.len(),
{
    let left = pending.filter(waiting_at(now));
    assert forall|i: int| 0 <= i < left.len() implies !(#[trigger] left[i]).due(now) by {
        pending.lemma_filter_pred(waiting_at(now), i);
    }
    left.lemma_all_neg_filter_empty(due_at(now));
}

/// An event without a time never fires: whenever the events that are due are
/// taken out, it is among those left.
pub proof fn lemma_untimed_event_stays(pending: Seq<Event>, i: int, now: u64)
    requires
        0 <= i < pending.len(),
        pending[i].time.is_none(),
    ensures
        pending.filter(waiting_at(now)).contains(pending[i]),
        !pending.filter(due_at(now)).contains(pending[i]),
{
    pending.lemma_filter_contains(waiting_at(now), i);
    if pending.filter(due_at(now)).contains(pending[i]) {
        let fired = pending.filter(due_at(now));
        let k = choose|k: int| 0 <= k < fired.len() && fired[k] == pending[i];
        pending.lemma_filter_pred(due_at(now), k);
    }
}

/// Every event either fires at `now` or stays: the two parts make up the
/// whole timeline.
pub proof fn lemma_fired_and_left(pending: Seq<Event>, now: u64)
    ensures
        pending.filter(due_at(now)).len() + pending.filter(waiting_at(now)).len()
            == pending.len(),
    decreases pending.len(),
{
    if pending.len() == 0 {
        pending.lemma_filter_len(due_at(now));
        pending.lemma_filter_len(waiting_at(now));
    } else {
        let earlier = pending.drop_last();
        assert(pending == earlier.push(pending.last()));
        lemma_fired_and_left(earlier, now);
        earlier.lemma_filter_push(pending.last(), due_at(now));
        earlier.lemma_filter_push(pending.last(), waiting_at(now));
    }
}

/// Taking out what is due at `now` and then what is due at a later time
/// leaves the same events as taking out what is due at the later time at
/// once: an event that has fired does not come back.
pub proof fn lemma_left_after_two_firings(pending: Seq<Event>, now: u64, later: u64)
    requires
        now <= later,
    ensures
        pending.filter(waiting_at(now)).filter(waiting_at(later)) == pending.filter(
            waiting_at(later),
        ),
    decreases pending.len(),
{
    if pending.len() == 0 {
        pending.lemma_filter_len(waiting_at(now));
        pending.lemma_filter_len(waiting_at(later));
        pending.filter(waiting_at(now)).lemma_filter_len(waiting_at(later));
        assert(pending.filter(waiting_at(now)).filter(waiting_at(later)) =~= pending.filter(
            waiting_at(later),
        ));
    } else {
        let earlier = pending.drop_last();
        let e = pending.last();
        assert(pending == earlier.push(e));
        lemma_left_after_two_firings(earlier, now, later);
        earlier.lemma_filter_push(e, waiting_at(now));
        earlier.lemma_filter_push(e, waiting_at(later));
        earlier.filter(waiting_at(now)).lemma_filter_push(e, waiting_at(later));
    }
}

} // verus!
