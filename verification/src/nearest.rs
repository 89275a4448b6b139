//! The stack of entities that are near right now, the one that came near last
//! on top. "Nearest" means the most recent arrival, not the smallest distance.

use crate::proximity::{AwayFromObjEvent, NextToObjEvent, ProximityError};
use vstd::prelude::*;

verus! {

/// The stack after `entity` came near: it goes on top, unless it is on the
/// stack already, in which case nothing changes.
pub open spec fn with_arrival(stack: Seq<u64>, entity: u64) -> Seq<u64> {
    if stack.contains(entity) {
        stack
    } else {
        stack.push(entity)
    }
}

/// The stack after every event of `events` was taken as an arrival, in order.
pub open spec fn with_arrivals(stack: Seq<u64>, events: Seq<NextToObjEvent>) -> Seq<u64>
    decreases events.len(),
{
    if events.len() == 0 {
        stack
    } else {
        with_arrival(with_arrivals(stack, events.drop_last()), events.last().entity)
    }
}

/// How far a run of departures gets: the stack it leaves behind, and the
/// entity at which it stopped because that entity was not on the stack.
pub struct Departures {
    pub stack: Seq<u64>,
    pub missing: Option<u64>,
}

/// The outcome of taking every event of `events` as a departure, in order.
/// Each departure removes its entity from the stack. The run stops at the
/// first event whose entity is not on the stack; the events after it are not
/// looked at.
pub open spec fn with_departures(stack: Seq<u64>, events: Seq<AwayFromObjEvent>) -> Departures
    decreases events.len(),
{
    if events.len() == 0 {
        Departures { stack, missing: None }
    } else {
        let before = with_departures(stack, events.drop_last());
        let entity = events.last().entity;
        if before.missing is Some {
            before
        } else if before.stack.contains(entity) {
            Departures { stack: before.stack.remove_value(entity), missing: None }
        } else {
            Departures { stack: before.stack, missing: Some(entity) }
        }
    }
}

/// The entities that are near, in the order in which they came near. No
/// entity is on the stack twice.
pub struct NearestNPCinProximity {
    value: Vec<u64>,
}

impl View for NearestNPCinProximity {
    type V = Seq<u64>;

    closed spec fn view(&self) -> Seq<u64> {
        self.value@
    }
}

impl NearestNPCinProximity {
    /// The stack as it should be: no entity is on it twice. `new` and
    /// `default` make such a stack, and every function here keeps it so.
    pub open spec fn wf(&self) -> bool {
        self@.no_duplicates()
    }

    /// An empty stack.
    pub fn new() -> (nearest: Self)
        ensures
            nearest@ == Seq::<u64>::empty(),
            nearest.wf(),
    {
        NearestNPCinProximity { value: Vec::new() }
    }

    /// The entity that came near last, or `None` where none is near.
    pub fn get(&self) -> (nearest: Option<&u64>)
        ensures
            self@.len() == 0 ==> nearest is None,
            self@.len() > 0 ==> nearest == Some(&self@.last()),
    {
        let len: usize = self.value.len();
        if len == 0 {
            None
        } else {
            Some(&self.value[len - 1])
        }
    }

    /// Whether any entity is near.
    pub fn any(&self) -> (yes: bool)
        ensures
            yes == (self@.len() > 0),
    {
        self.value.len() > 0
    }

    /// Whether `entity` is on the stack.
    pub fn contains(&self, entity: u64) -> (yes: bool)
        ensures
            yes == self@.contains(entity),
    {
        self.position(entity).is_some()
    }

    /// Empties the stack.
    pub fn reset(&mut self)
        ensures
            final(self)@ == Seq::<u64>::empty(),
            final(self).wf(),
    {
        self.value = Vec::new();
    }

    /// The place of `entity` on the stack, counted from the bottom.
    fn position(&self, entity: u64) -> (found: Option<usize>)
        ensures
            found is None <==> !self@.contains(entity),
            found matches Some(i) ==> i < self@.len() && self@[i as int] == entity
                && self@.index_of_first(entity) == Some(i as int),
    {
        let mut i: usize = 0;
        while i < self.value.len()
            invariant
                i <= self.value.len(),
                forall|j: int| 0 <= j < i ==> self.value@[j] != entity,
            decreases self.value.len() - i,
        {
            if self.value[i] == entity {
                proof {
                    self.value@.index_of_first_ensures(entity);
                }
                return Some(i);
            }
            i = i + 1;
        }
        None
    }

    /// Puts `entity` on top of the stack, unless it is on the stack already.
    pub fn arrive(&mut self, entity: u64)
        ensures
            final(self)@ == with_arrival(old(self)@, entity),
            old(self).wf() ==> final(self).wf(),
    {
        if self.position(entity).is_none() {
            self.value.push(entity);
        }
    }

    /// Takes `entity` off the stack. Fails, and changes nothing, where it is
    /// not on the stack.
    pub fn depart(&mut self, entity: u64) -> (result: Result<(), ProximityError>)
        ensures
            old(self)@.contains(entity) ==> result is Ok && final(self)@ == old(self)@.remove_value(
                entity,
            ),
            !old(self)@.contains(entity) ==> result == Err::<(), ProximityError>(
                ProximityError::NotInProximity { entity },
            ) && final(self)@ == old(self)@,
            old(self).wf() ==> final(self).wf() && !final(self)@.contains(entity),
    {
        match self.position(entity) {
            Some(i) => {
                self.value.remove(i);
                Ok(())
            },
            None => Err(ProximityError::NotInProximity { entity }),
        }
    }
}

impl Default for NearestNPCinProximity {
    fn default() -> (nearest: Self)
        ensures
            nearest@ == Seq::<u64>::empty(),
            nearest.wf(),
    {
        NearestNPCinProximity::new()
    }
}

/// Handles the "next to" events of a tick: each entity named goes on top of
/// the stack in turn, unless it is on the stack already.
pub fn next_to_npc_event_handler(
    ev_next_to_obj: &Vec<NextToObjEvent>,
    nearest_npc_in_proximity: &mut NearestNPCinProximity,
)
    ensures
        final(nearest_npc_in_proximity)@ == with_arrivals(
            old(nearest_npc_in_proximity)@,
            ev_next_to_obj@,
        ),
        old(nearest_npc_in_proximity).wf() ==> final(nearest_npc_in_proximity).wf(),
{
    let mut i: usize = 0;
    while i < ev_next_to_obj.len()
        invariant
            i <= ev_next_to_obj.len(),
            nearest_npc_in_proximity@ == with_arrivals(
                old(nearest_npc_in_proximity)@,
                ev_next_to_obj@.take(i as int),
            ),
            old(nearest_npc_in_proximity).wf() ==> nearest_npc_in_proximity.wf(),
        decreases ev_next_to_obj.len() - i,
    {
        assert(ev_next_to_obj@.take(i + 1).drop_last() == ev_next_to_obj@.take(i as int));
        nearest_npc_in_proximity.arrive(ev_next_to_obj[i].entity);
        i = i + 1;
    }
    assert(ev_next_to_obj@.take(i as int) == ev_next_to_obj@);
}

/// Handles the "away from" events of a tick: each entity named comes off the
/// stack in turn. An event whose entity is not on the stack means that the
/// stack and the watcher disagree: the handler stops there and reports the
/// entity, keeping the removals made so far.
pub fn away_from_npc_event_handler(
    ev_away_from_obj: &Vec<AwayFromObjEvent>,
    nearest_npc_in_proximity: &mut NearestNPCinProximity,
) -> (result: Result<(), ProximityError>)
    ensures
        final(nearest_npc_in_proximity)@ == with_departures(
            old(nearest_npc_in_proximity)@,
            ev_away_from_obj@,
        ).stack,
        match with_departures(old(nearest_npc_in_proximity)@, ev_away_from_obj@).missing {
            Some(entity) => result == Err::<(), ProximityError>(
                ProximityError::NotInProximity { entity },
            ),
            None => result is Ok,
        },
        old(nearest_npc_in_proximity).wf() ==> final(nearest_npc_in_proximity).wf(),
{
    let mut i: usize = 0;
    while i < ev_away_from_obj.len()
        invariant
            i <= ev_away_from_obj.len(),
            with_departures(old(nearest_npc_in_proximity)@, ev_away_from_obj@.take(i as int))
                == (Departures { stack: nearest_npc_in_proximity@, missing: None }),
            old(nearest_npc_in_proximity).wf() ==> nearest_npc_in_proximity.wf(),
        decreases ev_away_from_obj.len() - i,
    {
        assert(ev_away_from_obj@.take(i + 1).drop_last() == ev_away_from_obj@.take(i as int));
        let entity: u64 = ev_away_from_obj[i].entity;
        match nearest_npc_in_proximity.depart(entity) {
            Ok(()) => {},
            Err(e) => {
                proof {
                    lemma_departures_stop(
                        old(nearest_npc_in_proximity)@,
                        ev_away_from_obj@,
                        i + 1,
                    );
                }
                return Err(e);
            },
        }
        i = i + 1;
    }
    assert(ev_away_from_obj@.take(i as int) == ev_away_from_obj@);
    Ok(())
}

/// Once a run of departures has stopped, more events change nothing.
pub proof fn lemma_departures_stop(stack: Seq<u64>, events: Seq<AwayFromObjEvent>, n: int)
    requires
        0 <= n <= events.len(),
        with_departures(stack, events.take(n)).missing is Some,
    ensures
        with_departures(stack, events) == with_departures(stack, events.take(n)),
    decreases events.len() - n,
{
    if n < events.len() {
        assert(events.take(n + 1).drop_last() == events.take(n));
        lemma_departures_stop(stack, events, n + 1);
    } else {
        assert(events.take(n) == events);
    }
}

} // verus!
