//! One session of gameplay: the proximity values and the stack of near
//! entities, kept in step tick by tick and emptied when the game is entered
//! or exited.

use crate::navigation::{LifecycleHook, Navigation, TransitionRequest};
use crate::nearest::{
    away_from_npc_event_handler, next_to_npc_event_handler, with_arrival, with_arrivals,
    with_departures, NearestNPCinProximity,
};
use crate::proximity::{
    crossing, near, next_to_obj_watcher, AwayFromObjEvent, Crossing, Measurement, NextToObjEvent,
    ProximityError, ProximityToObjResource, ProximityValues, Watch,
};
use crate::screen::AppState;
use vstd::prelude::*;

verus! {

/// The events of one tick, each queue in the order in which its events arose.
#[derive(Debug)]
pub struct TickEvents {
    pub next_to: Vec<NextToObjEvent>,
    pub away_from: Vec<AwayFromObjEvent>,
}

/// A session as a mathematical value.
#[verifier::ext_equal]
pub struct Session {
    pub values: ProximityValues,
    pub nearest: Seq<u64>,
}

/// Whether no entity is measured twice in `measurements`.
pub open spec fn each_measured_once(measurements: Seq<Measurement>) -> bool {
    forall|i: int, j: int|
        0 <= i < j < measurements.len() ==> measurements[i].entity != measurements[j].entity
}

impl Session {
    /// The session that knows of no entity.
    pub open spec fn start() -> Session {
        Session { values: Map::empty(), nearest: Seq::empty() }
    }

    /// The value stored for `entity`.
    pub open spec fn stored(self, entity: u64) -> Option<(bool, u32)> {
        if self.values.contains_key(entity) {
            Some(self.values[entity])
        } else {
            None
        }
    }

    /// The stack and the values in step: no entity is on the stack twice, and
    /// an entity is on the stack exactly if its stored value says it is near.
    pub open spec fn in_step(self) -> bool {
        &&& self.nearest.no_duplicates()
        &&& forall|entity: u64| #[trigger]
            self.nearest.contains(entity) <==> near(self.stored(entity))
    }

    /// What the watcher makes of the measurements of one tick, starting from
    /// empty event queues.
    pub open spec fn watched(self, measurements: Seq<Measurement>) -> Watch {
        (Watch {
            values: self.values,
            next_to: Seq::empty(),
            away_from: Seq::empty(),
        }).observe_all(measurements)
    }

    /// Why a tick fails, or `None` where it succeeds: there has to be exactly
    /// one player, and every entity that the watcher saw leaving has to be on
    /// the stack when its departure is handled.
    pub open spec fn tick_refusal(self, players: usize, measurements: Seq<Measurement>) -> Option<
        ProximityError,
    > {
        if players == 0 {
            Some(ProximityError::NoPlayer)
        } else if players > 1 {
            Some(ProximityError::MultiplePlayers)
        } else {
            match with_departures(self.nearest, self.watched(measurements).away_from).missing {
                Some(entity) => Some(ProximityError::NotInProximity { entity }),
                None => None,
            }
        }
    }

    /// The session after a tick. Without exactly one player nothing changes.
    /// Otherwise the watcher brings the values up to date, then the departures
    /// are handled, and then, unless a departure failed, the arrivals.
    pub open spec fn ticked(self, players: usize, measurements: Seq<Measurement>) -> Session {
        if players != 1 {
            self
        } else {
            let watch = self.watched(measurements);
            let departed = with_departures(self.nearest, watch.away_from);
            Session {
                values: watch.values,
                nearest: if departed.missing is Some {
                    departed.stack
                } else {
                    with_arrivals(departed.stack, watch.next_to)
                },
            }
        }
    }

    /// The session after a lifecycle hook: entering the game and exiting it
    /// both leave an empty session; no other hook touches it.
    pub open spec fn hooked(self, hook: LifecycleHook) -> Session {
        match hook {
            LifecycleHook::Enter(AppState::InGame) => Session::start(),
            LifecycleHook::Exit(AppState::InGame) => Session::start(),
            _ => self,
        }
    }

    /// The session after a sequence of lifecycle hooks, taken in order.
    pub open spec fn hooked_all(self, hooks: Seq<LifecycleHook>) -> Session
        decreases hooks.len(),
    {
        if hooks.len() == 0 {
            self
        } else {
            self.hooked_all(hooks.drop_last()).hooked(hooks.last())
        }
    }
}

/// The proximity state of one session of gameplay.
pub struct ProximitySession {
    next_to_obj: ProximityToObjResource,
    nearest_npc_in_proximity: NearestNPCinProximity,
}

impl View for ProximitySession {
    type V = Session;

    closed spec fn view(&self) -> Session {
        Session { values: self.next_to_obj@, nearest: self.nearest_npc_in_proximity@ }
    }
}

impl ProximitySession {
    /// A session that knows of no entity.
    pub fn new() -> (session: Self)
        ensures
            session@ == Session::start(),
            session@.in_step(),
    {
        ProximitySession {
            next_to_obj: ProximityToObjResource::new(),
            nearest_npc_in_proximity: NearestNPCinProximity::new(),
        }
    }

    /// The stored values.
    pub fn next_to_obj(&self) -> (resource: &ProximityToObjResource)
        ensures
            resource@ == self@.values,
    {
        &self.next_to_obj
    }

    /// The stack of near entities.
    pub fn nearest_npc_in_proximity(&self) -> (nearest: &NearestNPCinProximity)
        ensures
            nearest@ == self@.nearest,
    {
        &self.nearest_npc_in_proximity
    }

    /// Whether any entity is near.
    pub fn has_any(&self) -> (yes: bool)
        ensures
            yes == (self@.nearest.len() > 0),
    {
        self.nearest_npc_in_proximity.any()
    }

    /// The entity that came near last, or `None` where none is near, as it is
    /// before the first tick of a session.
    pub fn most_recent(&self) -> (entity: Option<u64>)
        ensures
            self@.nearest.len() == 0 ==> entity is None,
            self@.nearest.len() > 0 ==> entity == Some(self@.nearest.last()),
    {
        match self.nearest_npc_in_proximity.get() {
            Some(entity) => Some(*entity),
            None => None,
        }
    }

    /// Empties the session, whatever it held.
    pub fn reset(&mut self)
        ensures
            final(self)@ == Session::start(),
            final(self)@.in_step(),
    {
        self.next_to_obj.reset();
        self.nearest_npc_in_proximity.reset();
    }

    /// One tick: the watcher takes the measurements, then the departures are
    /// handled, then the arrivals.
    ///
    /// `players` is the number of player entities found. Without exactly one
    /// player the tick fails and changes nothing. It also fails where a
    /// departure names an entity that is not on the stack: the values are up
    /// to date then, the departures before the failing one are made, and no
    /// arrival is. Where the session was in step and no entity is measured
    /// twice, the tick succeeds with exactly one player, and leaves the
    /// session in step.
    pub fn tick(&mut self, players: usize, measurements: &Vec<Measurement>) -> (result: Result<
        TickEvents,
        ProximityError,
    >)
        ensures
            final(self)@ == old(self)@.ticked(players, measurements@),
            match old(self)@.tick_refusal(players, measurements@) {
                Some(e) => result == Err::<TickEvents, ProximityError>(e),
                None => result matches Ok(events) && events.next_to@ == old(self)@.watched(
                    measurements@,
                ).next_to && events.away_from@ == old(self)@.watched(measurements@).away_from,
            },
            old(self)@.in_step() && each_measured_once(measurements@) && players == 1 ==> result
                is Ok && final(self)@.in_step(),
    {
        let mut next_to: Vec<NextToObjEvent> = Vec::new();
        let mut away_from: Vec<AwayFromObjEvent> = Vec::new();
        match next_to_obj_watcher(
            players,
            measurements,
            &mut self.next_to_obj,
            &mut next_to,
            &mut away_from,
        ) {
            Ok(()) => {},
            Err(e) => {
                return Err(e);
            },
        }
        proof {
            if old(self)@.in_step() && each_measured_once(measurements@) {
                lemma_tick_keeps_in_step(old(self)@, measurements@);
            }
        }
        match away_from_npc_event_handler(&away_from, &mut self.nearest_npc_in_proximity) {
            Ok(()) => {},
            Err(e) => {
                return Err(e);
            },
        }
        next_to_npc_event_handler(&next_to, &mut self.nearest_npc_in_proximity);
        Ok(TickEvents { next_to, away_from })
    }

    /// Follows one lifecycle hook: the session is emptied when the game is
    /// entered and when it is exited.
    pub fn apply_hook(&mut self, hook: LifecycleHook)
        ensures
            final(self)@ == old(self)@.hooked(hook),
            old(self)@.in_step() ==> final(self)@.in_step(),
    {
        match hook {
            LifecycleHook::Enter(AppState::InGame) => self.reset(),
            LifecycleHook::Exit(AppState::InGame) => self.reset(),
            _ => {},
        }
    }

    /// Follows the lifecycle hooks of a move, in order.
    pub fn apply_hooks(&mut self, hooks: &Vec<LifecycleHook>)
        ensures
            final(self)@ == old(self)@.hooked_all(hooks@),
            old(self)@.in_step() ==> final(self)@.in_step(),
    {
        let mut i: usize = 0;
        while i < hooks.len()
            invariant
                i <= hooks.len(),
                self@ == old(self)@.hooked_all(hooks@.take(i as int)),
                old(self)@.in_step() ==> self@.in_step(),
            decreases hooks.len() - i,
        {
            assert(hooks@.take(i + 1).drop_last() == hooks@.take(i as int));
            self.apply_hook(hooks[i]);
            i = i + 1;
        }
        assert(hooks@.take(i as int) == hooks@);
    }
}

impl Default for ProximitySession {
    fn default() -> (session: Self)
        ensures
            session@ == Session::start(),
            session@.in_step(),
    {
        ProximitySession::new()
    }
}

/// Whether `entity` is measured in `measurements`.
pub open spec fn measured(measurements: Seq<Measurement>, entity: u64) -> bool {
    exists|i: int| 0 <= i < measurements.len() && #[trigger] measurements[i].entity == entity
}

/// What the watcher leaves behind when no entity is measured twice, starting
/// from empty queues: an entity that was not measured keeps its value, an
/// entity is in the queue of arrivals exactly if it was not near and now is,
/// and in the queue of departures exactly if it was near and no longer is.
/// Neither queue names an entity twice.
pub proof fn lemma_watched(session: Session, measurements: Seq<Measurement>)
    requires
        each_measured_once(measurements),
    ensures
        ({
            let watch = session.watched(measurements);
            &&& forall|entity: u64|
                !measured(measurements, entity) ==> #[trigger] watch.stored(entity)
                    == session.stored(entity)
            &&& forall|entity: u64| #[trigger]
                watch.next_to.contains(NextToObjEvent { entity }) <==> !near(
                    session.stored(entity),
                ) && near(watch.stored(entity))
            &&& forall|entity: u64| #[trigger]
                watch.away_from.contains(AwayFromObjEvent { entity }) <==> near(
                    session.stored(entity),
                ) && !near(watch.stored(entity))
            &&& watch.next_to.no_duplicates()
            &&& watch.away_from.no_duplicates()
        }),
    decreases measurements.len(),
{
    if measurements.len() > 0 {
        let watch = session.watched(measurements);
        let earlier = measurements.drop_last();
        let m = measurements.last();
        let before = session.watched(earlier);
        lemma_watched(session, earlier);
        // The entity measured last was not measured before: it has the value
        // that it started with, and neither queue names it yet.
        let was = session.stored(m.entity);
        assert(!before.next_to.contains(NextToObjEvent { entity: m.entity }));
        assert(!before.away_from.contains(AwayFromObjEvent { entity: m.entity }));
        assert forall|entity: u64| #[trigger]
            watch.next_to.contains(NextToObjEvent { entity }) <==> !near(session.stored(entity))
                && near(watch.stored(entity)) by {
            let event = NextToObjEvent { entity };
            if entity == m.entity {
                if crossing(was, m.distance, m.edge_distance) == Some(Crossing::Entered) {
                    assert(watch.next_to[before.next_to.len() as int] == event);
                }
            } else if before.next_to.contains(event) {
                let i = choose|i: int| 0 <= i < before.next_to.len() && before.next_to[i] == event;
                assert(watch.next_to[i] == event);
            }
        }
        assert forall|entity: u64| #[trigger]
            watch.away_from.contains(AwayFromObjEvent { entity }) <==> near(session.stored(entity))
                && !near(watch.stored(entity)) by {
            let event = AwayFromObjEvent { entity };
            if entity == m.entity {
                if crossing(was, m.distance, m.edge_distance) == Some(Crossing::Left) {
                    assert(watch.away_from[before.away_from.len() as int] == event);
                }
            } else if before.away_from.contains(event) {
                let i = choose|i: int|
                    0 <= i < before.away_from.len() && before.away_from[i] == event;
                assert(watch.away_from[i] == event);
            }
        }
    }
}

/// Taking a value that is on a stack without repeats off that stack leaves a
/// stack without repeats that holds the other values, and only them.
pub proof fn lemma_remove_value(stack: Seq<u64>, entity: u64)
    requires
        stack.no_duplicates(),
        stack.contains(entity),
    ensures
        stack.remove_value(entity).no_duplicates(),
        forall|other: u64| #[trigger]
            stack.remove_value(entity).contains(other) <==> stack.contains(other) && other
                != entity,
{
    stack.index_of_first_ensures(entity);
    let i = stack.index_of_first(entity).unwrap();
    let rest = stack.remove(i);
    assert forall|other: u64| #[trigger]
        rest.contains(other) <==> stack.contains(other) && other != entity by {
        if stack.contains(other) && other != entity {
            let k = choose|k: int| 0 <= k < stack.len() && stack[k] == other;
            if k < i {
                assert(rest[k] == other);
            } else {
                assert(rest[k - 1] == other);
            }
        }
    }
}

/// Departures of entities that are all on the stack, none of them named
/// twice, all succeed. They leave the entities that did not depart, and only
/// them, on a stack without repeats.
pub proof fn lemma_departures(stack: Seq<u64>, events: Seq<AwayFromObjEvent>)
    requires
        stack.no_duplicates(),
        events.no_duplicates(),
        forall|i: int| 0 <= i < events.len() ==> stack.contains(#[trigger] events[i].entity),
    ensures
        with_departures(stack, events).missing is None,
        with_departures(stack, events).stack.no_duplicates(),
        forall|entity: u64| #[trigger]
            with_departures(stack, events).stack.contains(entity) <==> stack.contains(entity)
                && !events.contains(AwayFromObjEvent { entity }),
    decreases events.len(),
{
    if events.len() > 0 {
        let done = with_departures(stack, events);
        let earlier = events.drop_last();
        let last = events.last();
        let before = with_departures(stack, earlier);
        lemma_departures(stack, earlier);
        lemma_remove_value(before.stack, last.entity);
        assert forall|entity: u64| #[trigger]
            done.stack.contains(entity) <==> stack.contains(entity) && !events.contains(
                AwayFromObjEvent { entity },
            ) by {
            let event = AwayFromObjEvent { entity };
            if entity != last.entity && events.contains(event) {
                let i = choose|i: int| 0 <= i < events.len() && events[i] == event;
                assert(earlier[i] == event);
            }
        }
    }
}

/// Arrivals leave on the stack what was there and what arrived, and nothing
/// else, and bring no repeats.
pub proof fn lemma_arrivals(stack: Seq<u64>, events: Seq<NextToObjEvent>)
    requires
        stack.no_duplicates(),
    ensures
        with_arrivals(stack, events).no_duplicates(),
        forall|entity: u64| #[trigger]
            with_arrivals(stack, events).contains(entity) <==> stack.contains(entity)
                || events.contains(NextToObjEvent { entity }),
    decreases events.len(),
{
    if events.len() > 0 {
        let done = with_arrivals(stack, events);
        let earlier = events.drop_last();
        let last = events.last();
        let before = with_arrivals(stack, earlier);
        lemma_arrivals(stack, earlier);
        assert forall|entity: u64| #[trigger]
            done.contains(entity) <==> stack.contains(entity) || events.contains(
                NextToObjEvent { entity },
            ) by {
            let event = NextToObjEvent { entity };
            if entity == last.entity {
                if !before.contains(entity) {
                    assert(done[before.len() as int] == entity);
                }
            } else {
                if events.contains(event) {
                    let i = choose|i: int| 0 <= i < events.len() && events[i] == event;
                    assert(earlier[i] == event);
                }
                if before.contains(entity) {
                    let i = choose|i: int| 0 <= i < before.len() && before[i] == entity;
                    assert(done[i] == entity);
                }
            }
        }
    }
}

/// The stack of near entities never names an entity twice, and names only
/// entities whose stored value says that they are near: a tick with one
/// player, in which no entity is measured twice, takes a session that is in
/// step to a session that is in step, and no departure fails in it.
pub proof fn lemma_tick_keeps_in_step(session: Session, measurements: Seq<Measurement>)
    requires
        session.in_step(),
        each_measured_once(measurements),
    ensures
        session.tick_refusal(1, measurements) is None,
        session.ticked(1, measurements).in_step(),
{
    let watch = session.watched(measurements);
    lemma_watched(session, measurements);
    assert forall|i: int| 0 <= i < watch.away_from.len() implies session.nearest.contains(
        #[trigger] watch.away_from[i].entity,
    ) by {
        let event = watch.away_from[i];
        assert(watch.away_from.contains(AwayFromObjEvent { entity: event.entity }));
    }
    lemma_departures(session.nearest, watch.away_from);
    let departed = with_departures(session.nearest, watch.away_from);
    lemma_arrivals(departed.stack, watch.next_to);
}

/// Exiting the game empties the session, and so does entering it, whatever
/// the session held: two sessions with different pasts are the same session
/// afterwards, an empty one, and every tick takes them the same way.
pub proof fn lemma_game_hook_forgets(
    a: Session,
    b: Session,
    hook: LifecycleHook,
    players: usize,
    measurements: Seq<Measurement>,
)
    requires
        hook == LifecycleHook::Exit(AppState::InGame) || hook == LifecycleHook::Enter(
            AppState::InGame,
        ),
    ensures
        a.hooked(hook) == Session::start(),
        a.hooked(hook) == b.hooked(hook),
        a.hooked(hook).in_step(),
        a.hooked(hook).ticked(players, measurements) == b.hooked(hook).ticked(
            players,
            measurements,
        ),
{
}

/// A move that enters the game leaves an empty session behind, whatever the
/// session held before: the hooks of the move see to it.
pub proof fn lemma_entering_the_game_starts_afresh(
    nav: Navigation,
    request: TransitionRequest,
    session: Session,
)
    requires
        nav.legal(request),
        nav.after(request).current == Some(AppState::InGame),
        request != TransitionRequest::Pop,
    ensures
        session.hooked_all(nav.hooks(request)) == Session::start(),
{
    let hooks = nav.hooks(request);
}

/// A screen that opens over another or closes again leaves the session as
/// it is: the game waits below with everyone who was near, and resumes with
/// them.
pub proof fn lemma_overlays_keep_the_session(
    nav: Navigation,
    request: TransitionRequest,
    session: Session,
)
    requires
        nav.legal(request),
        request is Push || request is Pop,
    ensures
        session.hooked_all(nav.hooks(request)) == session,
{
    let hooks = nav.hooks(request);
    reveal_with_fuel(Session::hooked_all, 2);
}

} // verus!
