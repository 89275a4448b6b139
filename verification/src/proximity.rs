//! Proximity detection: distances measured once per tick become discrete
//! "next to" and "away from" events, one threshold per entity.
//!
//! Distances and thresholds reach this module as unsigned integers on one
//! common scale. Only their order matters here.

use bevy::utils::HashMap;
use vstd::prelude::*;

verus! {

/// What one tick measured of one proximity-enabled entity.
#[derive(Clone, Copy, Debug, PartialEq, Eq)]
pub struct Measurement {
    /// The identity of the entity.
    pub entity: u64,
    /// Its distance from the player.
    pub distance: u32,
    /// The distance below which it counts as near.
    pub edge_distance: u32,
}

/// The player came within the edge distance of `entity`.
#[derive(Clone, Copy, Debug, PartialEq, Eq)]
pub struct NextToObjEvent {
    pub entity: u64,
}

/// The player left the edge distance of `entity`.
#[derive(Clone, Copy, Debug, PartialEq, Eq)]
pub struct AwayFromObjEvent {
    pub entity: u64,
}

/// Why a step of the proximity system was refused.
#[derive(Clone, Copy, Debug, PartialEq, Eq)]
pub enum ProximityError {
    /// There is no player to measure from.
    NoPlayer,
    /// There is more than one player to measure from.
    MultiplePlayers,
    /// An "away from" event names an entity that is not among the near ones.
    NotInProximity { entity: u64 },
}

/// The direction in which an entity crossed its edge distance.
#[derive(Clone, Copy, Debug, PartialEq, Eq)]
pub enum Crossing {
    Entered,
    Left,
}

/// Whether a stored value says that its entity is near. An entity without a
/// stored value is not near.
pub open spec fn near(stored: Option<(bool, u32)>) -> bool {
    stored matches Some(value) && value.0
}

/// The value to store for an entity after one measurement of it.
///
/// Within the edge distance the entity is near and the distance is stored. At
/// or beyond it, an entity that was near stops being so and the distance is
/// stored; one that was not near keeps what it had, which may be nothing.
pub open spec fn stored_after(stored: Option<(bool, u32)>, distance: u32, edge_distance: u32)
    -> Option<(bool, u32)> {
    if distance < edge_distance {
        Some((true, distance))
    } else if near(stored) {
        Some((false, distance))
    } else {
        stored
    }
}

/// The crossing, if any, that one measurement of an entity reveals.
pub open spec fn crossing(stored: Option<(bool, u32)>, distance: u32, edge_distance: u32)
    -> Option<Crossing> {
    if distance < edge_distance && !near(stored) {
        Some(Crossing::Entered)
    } else if distance >= edge_distance && near(stored) {
        Some(Crossing::Left)
    } else {
        None
    }
}

/// What the proximity resource holds: for each entity that has a stored
/// value, its near flag and its last stored distance.
pub type ProximityValues = Map<u64, (bool, u32)>;

/// The near flag and the last stored distance of every entity seen near at
/// least once.
///
/// The values live in a `bevy::utils::HashMap`, which Verus does not look
/// into. What the map holds goes by the name of `proximity_values`, and the
/// three private functions `empty`, `lookup` and `store` are the only code
/// that touches it. Their contracts are taken on trust.
#[verifier::external_body]
pub struct ProximityToObjResource {
    values: HashMap<u64, (bool, u32)>,
}

/// The key-value pairs that the map inside `resource` holds.
pub uninterp spec fn proximity_values(resource: ProximityToObjResource) -> Map<u64, (bool, u32)>;

impl View for ProximityToObjResource {
    type V = Map<u64, (bool, u32)>;

    open spec fn view(&self) -> Map<u64, (bool, u32)> {
        proximity_values(*self)
    }
}

impl ProximityToObjResource {
    /// Calls `HashMap::default`, which creates an empty map: the result holds
    /// no pair.
    #[verifier::external_body]
    fn empty() -> (created: ProximityToObjResource)
        ensures
            proximity_values(created) == ProximityValues::empty(),
    {
        ProximityToObjResource { values: HashMap::default() }
    }

    /// Calls `HashMap::get`: the value stored under `entity`, or `None` where
    /// the map has no such key.
    #[verifier::external_body]
    fn lookup(&self, entity: u64) -> (stored: Option<(bool, u32)>)
        ensures
            stored == (if proximity_values(*self).contains_key(entity) {
                Some(proximity_values(*self)[entity])
            } else {
                None
            }),
    {
        match self.values.get(&entity) {
            Some(value) => Some(*value),
            None => None,
        }
    }

    /// Calls `HashMap::insert`: afterwards `entity` maps to `value`, whether
    /// or not the key was present, and every other key is as before.
    #[verifier::external_body]
    fn store(&mut self, entity: u64, value: (bool, u32))
        ensures
            proximity_values(*final(self)) == proximity_values(*old(self)).insert(entity, value),
    {
        self.values.insert(entity, value);
    }

    /// The value stored for `entity`, as a ghost value.
    pub open spec fn stored(&self, entity: u64) -> Option<(bool, u32)> {
        if self@.contains_key(entity) {
            Some(self@[entity])
        } else {
            None
        }
    }

    /// A resource that knows of no entity.
    pub fn new() -> (resource: Self)
        ensures
            resource@ == ProximityValues::empty(),
    {
        Self::empty()
    }

    /// The near flag and the stored distance of `entity`, if it has any.
    pub fn get(&self, entity: u64) -> (stored: Option<(bool, u32)>)
        ensures
            stored == self.stored(entity),
    {
        self.lookup(entity)
    }

    /// Whether `entity` is near as of the last measurement of it.
    pub fn is_near(&self, entity: u64) -> (yes: bool)
        ensures
            yes == near(self.stored(entity)),
    {
        match self.lookup(entity) {
            Some(value) => value.0,
            None => false,
        }
    }

    /// Forgets every entity.
    pub fn reset(&mut self)
        ensures
            final(self)@ == ProximityValues::empty(),
    {
        *self = Self::empty();
    }
}

impl Default for ProximityToObjResource {
    fn default() -> (resource: Self)
        ensures
            resource@ == ProximityValues::empty(),
    {
        Self::empty()
    }
}

/// The state that the watcher works on: the stored values and the two event
/// queues.
#[verifier::ext_equal]
pub struct Watch {
    pub values: Map<u64, (bool, u32)>,
    pub next_to: Seq<NextToObjEvent>,
    pub away_from: Seq<AwayFromObjEvent>,
}

impl Watch {
    /// The value stored for `entity`.
    pub open spec fn stored(self, entity: u64) -> Option<(bool, u32)> {
        if self.values.contains_key(entity) {
            Some(self.values[entity])
        } else {
            None
        }
    }

    /// The state after one measurement: the entity's value is brought up to
    /// date, and a crossing is appended to the queue of its kind.
    pub open spec fn observe(self, m: Measurement) -> Watch {
        let before = self.stored(m.entity);
        let after = stored_after(before, m.distance, m.edge_distance);
        let values = match after {
            Some(value) => self.values.insert(m.entity, value),
            None => self.values,
        };
        match crossing(before, m.distance, m.edge_distance) {
            Some(Crossing::Entered) => Watch {
                values,
                next_to: self.next_to.push(NextToObjEvent { entity: m.entity }),
                away_from: self.away_from,
            },
            Some(Crossing::Left) => Watch {
                values,
                next_to: self.next_to,
                away_from: self.away_from.push(AwayFromObjEvent { entity: m.entity }),
            },
            None => Watch { values, next_to: self.next_to, away_from: self.away_from },
        }
    }

    /// The state after a sequence of measurements, taken in order.
    pub open spec fn observe_all(self, measurements: Seq<Measurement>) -> Watch
        decreases measurements.len(),
    {
        if measurements.len() == 0 {
            self
        } else {
            self.observe_all(measurements.drop_last()).observe(measurements.last())
        }
    }
}

/// Brings the stored value of one entity up to date and queues the event that
/// the measurement gives rise to, if any.
pub fn observe(
    m: Measurement,
    next_to_obj: &mut ProximityToObjResource,
    ev_next_to_obj: &mut Vec<NextToObjEvent>,
    ev_away_from_obj: &mut Vec<AwayFromObjEvent>,
)
    ensures
        (Watch {
            values: final(next_to_obj)@,
            next_to: final(ev_next_to_obj)@,
            away_from: final(ev_away_from_obj)@,
        }) == (Watch {
            values: old(next_to_obj)@,
            next_to: old(ev_next_to_obj)@,
            away_from: old(ev_away_from_obj)@,
        }).observe(m),
{
    let was_near = next_to_obj.is_near(m.entity);
    if m.distance < m.edge_distance {
        next_to_obj.store(m.entity, (true, m.distance));
        if !was_near {
            ev_next_to_obj.push(NextToObjEvent { entity: m.entity });
        }
    } else if was_near {
        next_to_obj.store(m.entity, (false, m.distance));
        ev_away_from_obj.push(AwayFromObjEvent { entity: m.entity });
    }
}

/// One pass of the proximity watcher.
///
/// `players` is the number of player entities found this tick, and
/// `measurements` holds the distance from the player to every
/// proximity-enabled entity. The pass runs only where there is exactly one
/// player; otherwise it fails and changes nothing. It takes the measurements
/// in order, and appends the events in the order in which they arise.
pub fn next_to_obj_watcher(
    players: usize,
    measurements: &Vec<Measurement>,
    next_to_obj: &mut ProximityToObjResource,
    ev_next_to_obj: &mut Vec<NextToObjEvent>,
    ev_away_from_obj: &mut Vec<AwayFromObjEvent>,
) -> (result: Result<(), ProximityError>)
    ensures
        players == 0 ==> result == Err::<(), ProximityError>(ProximityError::NoPlayer),
        players > 1 ==> result == Err::<(), ProximityError>(ProximityError::MultiplePlayers),
        players == 1 ==> result is Ok,
        result is Err ==> final(next_to_obj)@ == old(next_to_obj)@ && final(ev_next_to_obj)@
            == old(ev_next_to_obj)@ && final(ev_away_from_obj)@ == old(ev_away_from_obj)@,
        result is Ok ==> (Watch {
            values: final(next_to_obj)@,
            next_to: final(ev_next_to_obj)@,
            away_from: final(ev_away_from_obj)@,
        }) == (Watch {
            values: old(next_to_obj)@,
            next_to: old(ev_next_to_obj)@,
            away_from: old(ev_away_from_obj)@,
        }).observe_all(measurements@),
{
    if players == 0 {
        return Err(ProximityError::NoPlayer);
    }
    if players > 1 {
        return Err(ProximityError::MultiplePlayers);
    }
    let ghost start = Watch {
        values: next_to_obj@,
        next_to: ev_next_to_obj@,
        away_from: ev_away_from_obj@,
    };
    let mut i: usize = 0;
    while i < measurements.len()
        invariant
            i <= measurements.len(),
            (Watch {
                values: next_to_obj@,
                next_to: ev_next_to_obj@,
                away_from: ev_away_from_obj@,
            }) == start.observe_all(measurements@.take(i as int)),
        decreases measurements.len() - i,
    {
        assert(measurements@.take(i + 1).drop_last() == measurements@.take(i as int));
        observe(measurements[i], next_to_obj, ev_next_to_obj, ev_away_from_obj);
        i = i + 1;
    }
    assert(measurements@.take(i as int) == measurements@);
    Ok(())
}

/// The value stored for an entity after successive measurements of it. Each
/// reading is a distance and the edge distance it is held against; `stored`
/// is what was stored for the entity before the first of them.
pub open spec fn stored_through(stored: Option<(bool, u32)>, readings: Seq<(u32, u32)>) -> Option<
    (bool, u32),
>
    decreases readings.len(),
{
    if readings.len() == 0 {
        stored
    } else {
        stored_after(
            stored_through(stored, readings.drop_last()),
            readings.last().0,
            readings.last().1,
        )
    }
}

/// The crossings that successive measurements of one entity reveal, in the
/// order in which they happen.
pub open spec fn crossings(stored: Option<(bool, u32)>, readings: Seq<(u32, u32)>) -> Seq<Crossing>
    decreases readings.len(),
{
    if readings.len() == 0 {
        Seq::empty()
    } else {
        let earlier = crossings(stored, readings.drop_last());
        let before = stored_through(stored, readings.drop_last());
        match crossing(before, readings.last().0, readings.last().1) {
            Some(c) => earlier.push(c),
            None => earlier,
        }
    }
}

/// The crossing that is due at place `i` of a run of crossings which starts
/// from an entity that was near, or was not.
pub open spec fn due(was_near: bool, i: int) -> Crossing {
    if was_near == (i % 2 == 0) {
        Crossing::Left
    } else {
        Crossing::Entered
    }
}

/// An entity that comes within its edge distance enters exactly once, and
/// does not enter again before it has left: whatever is measured of it, its
/// crossings take turns. The first is an entry where the entity was not near,
/// and a departure where it was. So a departure never comes before an entry
/// for an entity that was never near.
pub proof fn lemma_crossings_take_turns(stored: Option<(bool, u32)>, readings: Seq<(u32, u32)>)
    ensures
        forall|i: int|
            0 <= i < crossings(stored, readings).len() ==> #[trigger] crossings(
                stored,
                readings,
            )[i] == due(near(stored), i),
        near(stored_through(stored, readings)) == (near(stored) == (crossings(
            stored,
            readings,
        ).len() % 2 == 0)),
    decreases readings.len(),
{
    if readings.len() > 0 {
        lemma_crossings_take_turns(stored, readings.drop_last());
    }
}

/// A measurement within the edge distance of an entity that was not near
/// gives an entry and leaves the entity near. While it is near, no
/// measurement gives another entry, and while it is not, none gives a
/// departure. After a measurement the entity is near exactly if it was
/// measured within its edge distance.
pub proof fn lemma_entered_once(stored: Option<(bool, u32)>, distance: u32, edge_distance: u32)
    ensures
        !near(stored) && distance < edge_distance ==> crossing(stored, distance, edge_distance)
            == Some(Crossing::Entered) && near(stored_after(stored, distance, edge_distance)),
        near(stored) ==> crossing(stored, distance, edge_distance) != Some(Crossing::Entered),
        !near(stored) ==> crossing(stored, distance, edge_distance) != Some(Crossing::Left),
        near(stored_after(stored, distance, edge_distance)) == (distance < edge_distance),
{
}

/// The readings of `entity` among `measurements`, in order.
pub open spec fn readings_of(measurements: Seq<Measurement>, entity: u64) -> Seq<(u32, u32)>
    decreases measurements.len(),
{
    if measurements.len() == 0 {
        Seq::empty()
    } else {
        let earlier = readings_of(measurements.drop_last(), entity);
        let m = measurements.last();
        if m.entity == entity {
            earlier.push((m.distance, m.edge_distance))
        } else {
            earlier
        }
    }
}

/// How many events of a queue of arrivals name `entity`.
pub open spec fn arrivals_of(queue: Seq<NextToObjEvent>, entity: u64) -> nat
    decreases queue.len(),
{
    if queue.len() == 0 {
        0
    } else if queue.last().entity == entity {
        arrivals_of(queue.drop_last(), entity) + 1
    } else {
        arrivals_of(queue.drop_last(), entity)
    }
}

/// How many events of a queue of departures name `entity`.
pub open spec fn departures_of(queue: Seq<AwayFromObjEvent>, entity: u64) -> nat
    decreases queue.len(),
{
    if queue.len() == 0 {
        0
    } else if queue.last().entity == entity {
        departures_of(queue.drop_last(), entity) + 1
    } else {
        departures_of(queue.drop_last(), entity)
    }
}

/// How many of `crossings` go the way of `way`.
pub open spec fn count(crossings: Seq<Crossing>, way: Crossing) -> nat
    decreases crossings.len(),
{
    if crossings.len() == 0 {
        0
    } else if crossings.last() == way {
        count(crossings.drop_last(), way) + 1
    } else {
        count(crossings.drop_last(), way)
    }
}

/// What the watcher does for one entity is what the readings of that entity
/// call for, whatever else is measured in between: its stored value is the
/// one that its readings lead to, and the watcher queues one arrival for each
/// of its entries and one departure for each time it left.
pub proof fn lemma_watcher_follows_readings(
    watch: Watch,
    measurements: Seq<Measurement>,
    entity: u64,
)
    ensures
        ({
            let after = watch.observe_all(measurements);
            let readings = readings_of(measurements, entity);
            let crossed = crossings(watch.stored(entity), readings);
            &&& after.stored(entity) == stored_through(watch.stored(entity), readings)
            &&& arrivals_of(after.next_to, entity) == arrivals_of(watch.next_to, entity) + count(
                crossed,
                Crossing::Entered,
            )
            &&& departures_of(after.away_from, entity) == departures_of(watch.away_from, entity)
                + count(crossed, Crossing::Left)
        }),
    decreases measurements.len(),
{
    if measurements.len() > 0 {
        let earlier = measurements.drop_last();
        let m = measurements.last();
        let before = watch.observe_all(earlier);
        let after = before.observe(m);
        lemma_watcher_follows_readings(watch, earlier, entity);
        let readings = readings_of(measurements, entity);
        let was = before.stored(m.entity);
        match crossing(was, m.distance, m.edge_distance) {
            Some(Crossing::Entered) => {
                assert(after.next_to.drop_last() == before.next_to);
            },
            Some(Crossing::Left) => {
                assert(after.away_from.drop_last() == before.away_from);
            },
            None => {},
        }
        if m.entity == entity {
            assert(readings.drop_last() == readings_of(earlier, entity));
            let crossed = crossings(watch.stored(entity), readings);
            let crossed_earlier = crossings(watch.stored(entity), readings_of(earlier, entity));
            if crossing(was, m.distance, m.edge_distance) is Some {
                assert(crossed.drop_last() == crossed_earlier);
            }
        }
    }
}

} // verus!
