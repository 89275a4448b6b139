use mistery::navigation::LifecycleHook;
use mistery::nearest::{
    away_from_npc_event_handler, next_to_npc_event_handler, NearestNPCinProximity,
};
use mistery::proximity::{
    next_to_obj_watcher, observe, AwayFromObjEvent, Measurement, NextToObjEvent, ProximityError,
    ProximityToObjResource,
};
use mistery::screen::AppState;
use mistery::session::ProximitySession;

const NPC_1: u64 = 11;
const NPC_2: u64 = 22;
const NPC_3: u64 = 33;
const EDGE: u32 = 150;

fn measured(entity: u64, distance: u32) -> Measurement {
    Measurement { entity, distance, edge_distance: EDGE }
}

fn next_to(entity: u64) -> NextToObjEvent {
    NextToObjEvent { entity }
}

fn away_from(entity: u64) -> AwayFromObjEvent {
    AwayFromObjEvent { entity }
}

/// One pass of the watcher on fresh queues.
fn watch(
    resource: &mut ProximityToObjResource,
    measurements: &[Measurement],
) -> (Vec<NextToObjEvent>, Vec<AwayFromObjEvent>) {
    let mut entered = Vec::new();
    let mut left = Vec::new();
    let result = next_to_obj_watcher(1, &measurements.to_vec(), resource, &mut entered, &mut left);
    assert_eq!(result, Ok(()));
    (entered, left)
}

#[test]
fn a_new_resource_knows_of_no_entity() {
    let resource = ProximityToObjResource::new();
    assert_eq!(resource.get(NPC_1), None);
    assert!(!resource.is_near(NPC_1));
    let resource = ProximityToObjResource::default();
    assert_eq!(resource.get(0), None);
}

#[test]
fn coming_near_is_an_event_and_is_stored() {
    let mut resource = ProximityToObjResource::new();
    let (entered, left) = watch(&mut resource, &[measured(NPC_1, 100)]);
    assert_eq!(entered, vec![next_to(NPC_1)]);
    assert_eq!(left, vec![]);
    assert_eq!(resource.get(NPC_1), Some((true, 100)));
    assert!(resource.is_near(NPC_1));
    assert_eq!(resource.get(NPC_2), None);
}

#[test]
fn staying_near_stores_the_distance_without_an_event() {
    let mut resource = ProximityToObjResource::new();
    watch(&mut resource, &[measured(NPC_1, 100)]);
    let (entered, left) = watch(&mut resource, &[measured(NPC_1, 80)]);
    assert_eq!(entered, vec![]);
    assert_eq!(left, vec![]);
    assert_eq!(resource.get(NPC_1), Some((true, 80)));
}

#[test]
fn leaving_is_an_event_and_is_stored() {
    let mut resource = ProximityToObjResource::new();
    watch(&mut resource, &[measured(NPC_1, 100)]);
    let (entered, left) = watch(&mut resource, &[measured(NPC_1, 300)]);
    assert_eq!(entered, vec![]);
    assert_eq!(left, vec![away_from(NPC_1)]);
    assert_eq!(resource.get(NPC_1), Some((false, 300)));
    assert!(!resource.is_near(NPC_1));
}

#[test]
fn staying_away_changes_nothing() {
    let mut resource = ProximityToObjResource::new();
    let (entered, left) = watch(&mut resource, &[measured(NPC_1, 300)]);
    assert_eq!(entered, vec![]);
    assert_eq!(left, vec![]);
    // An entity that was never near has no stored value.
    assert_eq!(resource.get(NPC_1), None);

    watch(&mut resource, &[measured(NPC_1, 100)]);
    watch(&mut resource, &[measured(NPC_1, 200)]);
    let (entered, left) = watch(&mut resource, &[measured(NPC_1, 400)]);
    assert_eq!(entered, vec![]);
    assert_eq!(left, vec![]);
    // The distance of the departure stays.
    assert_eq!(resource.get(NPC_1), Some((false, 200)));
}

#[test]
fn the_edge_itself_is_not_near() {
    let mut resource = ProximityToObjResource::new();
    let (entered, _) = watch(&mut resource, &[measured(NPC_1, EDGE)]);
    assert_eq!(entered, vec![]);
    let (entered, _) = watch(&mut resource, &[measured(NPC_1, EDGE - 1)]);
    assert_eq!(entered, vec![next_to(NPC_1)]);
    let (_, left) = watch(&mut resource, &[measured(NPC_1, EDGE)]);
    assert_eq!(left, vec![away_from(NPC_1)]);
    // Every entity has its own edge distance.
    let close = Measurement { entity: NPC_2, distance: 100, edge_distance: 100 };
    let (entered, _) = watch(&mut resource, &[close]);
    assert_eq!(entered, vec![]);
    let (entered, _) = watch(&mut resource, &[Measurement { edge_distance: 101, ..close }]);
    assert_eq!(entered, vec![next_to(NPC_2)]);
    // An edge distance of zero keeps everything away.
    let (entered, _) =
        watch(&mut resource, &[Measurement { entity: NPC_3, distance: 0, edge_distance: 0 }]);
    assert_eq!(entered, vec![]);
}

#[test]
fn entries_and_departures_take_turns() {
    let mut resource = ProximityToObjResource::new();
    let distances = [300, 100, 90, 149, 150, 400, 10, 20, 151, 149];
    let mut trace = Vec::new();
    for distance in distances {
        let (entered, left) = watch(&mut resource, &[measured(NPC_1, distance)]);
        assert!(entered.len() + left.len() <= 1);
        if !entered.is_empty() {
            trace.push("entered");
        }
        if !left.is_empty() {
            trace.push("left");
        }
    }
    assert_eq!(trace, vec!["entered", "left", "entered", "left", "entered"]);
}

#[test]
fn events_keep_the_order_of_the_measurements() {
    let mut resource = ProximityToObjResource::new();
    let (entered, left) =
        watch(&mut resource, &[measured(NPC_3, 10), measured(NPC_1, 20), measured(NPC_2, 500)]);
    assert_eq!(entered, vec![next_to(NPC_3), next_to(NPC_1)]);
    assert_eq!(left, vec![]);
    let (entered, left) =
        watch(&mut resource, &[measured(NPC_1, 200), measured(NPC_2, 5), measured(NPC_3, 200)]);
    assert_eq!(entered, vec![next_to(NPC_2)]);
    assert_eq!(left, vec![away_from(NPC_1), away_from(NPC_3)]);
}

#[test]
fn the_watcher_appends_to_the_queues() {
    let mut resource = ProximityToObjResource::new();
    let mut entered = vec![next_to(1)];
    let mut left = vec![away_from(2)];
    let result = next_to_obj_watcher(
        1,
        &vec![measured(NPC_1, 100)],
        &mut resource,
        &mut entered,
        &mut left,
    );
    assert_eq!(result, Ok(()));
    assert_eq!(entered, vec![next_to(1), next_to(NPC_1)]);
    assert_eq!(left, vec![away_from(2)]);
}

#[test]
fn observe_takes_one_measurement() {
    let mut resource = ProximityToObjResource::new();
    let mut entered = Vec::new();
    let mut left = Vec::new();
    observe(measured(NPC_1, 149), &mut resource, &mut entered, &mut left);
    assert_eq!(entered, vec![next_to(NPC_1)]);
    observe(measured(NPC_1, 150), &mut resource, &mut entered, &mut left);
    assert_eq!(left, vec![away_from(NPC_1)]);
    assert_eq!(resource.get(NPC_1), Some((false, 150)));
}

#[test]
fn the_watcher_needs_exactly_one_player() {
    let mut resource = ProximityToObjResource::new();
    let mut entered = Vec::new();
    let mut left = Vec::new();
    let measurements = vec![measured(NPC_1, 100)];
    assert_eq!(
        next_to_obj_watcher(0, &measurements, &mut resource, &mut entered, &mut left),
        Err(ProximityError::NoPlayer)
    );
    assert_eq!(
        next_to_obj_watcher(2, &measurements, &mut resource, &mut entered, &mut left),
        Err(ProximityError::MultiplePlayers)
    );
    assert_eq!(resource.get(NPC_1), None);
    assert!(entered.is_empty());
    assert!(left.is_empty());
}

#[test]
fn reset_forgets_every_entity() {
    let mut resource = ProximityToObjResource::new();
    watch(&mut resource, &[measured(NPC_1, 100), measured(NPC_2, 100)]);
    resource.reset();
    assert_eq!(resource.get(NPC_1), None);
    assert_eq!(resource.get(NPC_2), None);
    // An entity that is still near enters anew.
    let (entered, _) = watch(&mut resource, &[measured(NPC_1, 100)]);
    assert_eq!(entered, vec![next_to(NPC_1)]);
}

#[test]
fn the_nearest_is_the_latest_arrival() {
    let mut nearest = NearestNPCinProximity::new();
    assert_eq!(nearest.get(), None);
    assert!(!nearest.any());
    next_to_npc_event_handler(&vec![next_to(NPC_1), next_to(NPC_2)], &mut nearest);
    assert_eq!(nearest.get(), Some(&NPC_2));
    assert!(nearest.any());
    assert!(nearest.contains(NPC_1));
    assert!(!nearest.contains(NPC_3));
    let nearest = NearestNPCinProximity::default();
    assert_eq!(nearest.get(), None);
}

#[test]
fn an_arrival_is_not_stacked_twice() {
    let mut nearest = NearestNPCinProximity::new();
    next_to_npc_event_handler(&vec![next_to(NPC_1), next_to(NPC_2), next_to(NPC_1)], &mut nearest);
    // NPC_1 stays where it was, below NPC_2.
    assert_eq!(nearest.get(), Some(&NPC_2));
    assert_eq!(away_from_npc_event_handler(&vec![away_from(NPC_2)], &mut nearest), Ok(()));
    assert_eq!(nearest.get(), Some(&NPC_1));
    assert_eq!(away_from_npc_event_handler(&vec![away_from(NPC_1)], &mut nearest), Ok(()));
    assert_eq!(nearest.get(), None);
}

#[test]
fn a_departure_from_the_middle_keeps_the_order() {
    let mut nearest = NearestNPCinProximity::new();
    next_to_npc_event_handler(&vec![next_to(NPC_1), next_to(NPC_2), next_to(NPC_3)], &mut nearest);
    assert_eq!(away_from_npc_event_handler(&vec![away_from(NPC_2)], &mut nearest), Ok(()));
    assert_eq!(nearest.get(), Some(&NPC_3));
    assert_eq!(nearest.depart(NPC_3), Ok(()));
    assert_eq!(nearest.get(), Some(&NPC_1));
}

#[test]
fn a_departure_of_an_unknown_entity_fails() {
    let mut nearest = NearestNPCinProximity::new();
    assert_eq!(
        away_from_npc_event_handler(&vec![away_from(NPC_1)], &mut nearest),
        Err(ProximityError::NotInProximity { entity: NPC_1 })
    );
    next_to_npc_event_handler(&vec![next_to(NPC_1), next_to(NPC_2)], &mut nearest);
    // The handler stops at the unknown entity: NPC_1 has left, NPC_2 has not.
    assert_eq!(
        away_from_npc_event_handler(
            &vec![away_from(NPC_1), away_from(NPC_3), away_from(NPC_2)],
            &mut nearest
        ),
        Err(ProximityError::NotInProximity { entity: NPC_3 })
    );
    assert!(!nearest.contains(NPC_1));
    assert_eq!(nearest.get(), Some(&NPC_2));
    assert_eq!(nearest.depart(NPC_1), Err(ProximityError::NotInProximity { entity: NPC_1 }));
    assert_eq!(nearest.get(), Some(&NPC_2));
}

#[test]
fn the_player_walks_past_three_characters() {
    let mut session = ProximitySession::new();
    assert_eq!(session.most_recent(), None);
    assert!(!session.has_any());

    // Far from all three.
    let events = session
        .tick(1, &vec![measured(NPC_1, 300), measured(NPC_2, 400), measured(NPC_3, 550)])
        .unwrap();
    assert!(events.next_to.is_empty());
    assert!(events.away_from.is_empty());
    assert_eq!(session.most_recent(), None);

    // Into the radius of the first: the distance drops from 300 to 100.
    let events = session
        .tick(1, &vec![measured(NPC_1, 100), measured(NPC_2, 300), measured(NPC_3, 450)])
        .unwrap();
    assert_eq!(events.next_to, vec![next_to(NPC_1)]);
    assert!(events.away_from.is_empty());
    assert_eq!(session.most_recent(), Some(NPC_1));
    assert!(session.has_any());

    // Staying there gives no second event.
    let events = session
        .tick(1, &vec![measured(NPC_1, 90), measured(NPC_2, 290), measured(NPC_3, 440)])
        .unwrap();
    assert!(events.next_to.is_empty());
    assert_eq!(session.most_recent(), Some(NPC_1));

    // Into the radius of the second while still inside that of the first. The
    // second is the nearest now, though the first is closer.
    let events = session
        .tick(1, &vec![measured(NPC_1, 60), measured(NPC_2, 140), measured(NPC_3, 300)])
        .unwrap();
    assert_eq!(events.next_to, vec![next_to(NPC_2)]);
    assert!(events.away_from.is_empty());
    assert_eq!(session.most_recent(), Some(NPC_2));

    // Out of the radius of the first only.
    let events = session
        .tick(1, &vec![measured(NPC_1, 160), measured(NPC_2, 40), measured(NPC_3, 200)])
        .unwrap();
    assert!(events.next_to.is_empty());
    assert_eq!(events.away_from, vec![away_from(NPC_1)]);
    assert_eq!(session.most_recent(), Some(NPC_2));
    assert!(!session.nearest_npc_in_proximity().contains(NPC_1));
    assert_eq!(session.next_to_obj().get(NPC_1), Some((false, 160)));
    assert_eq!(session.next_to_obj().get(NPC_2), Some((true, 40)));
    assert_eq!(session.next_to_obj().get(NPC_3), None);
}

#[test]
fn one_leaves_while_another_arrives() {
    let mut session = ProximitySession::new();
    session.tick(1, &vec![measured(NPC_1, 100), measured(NPC_2, 300)]).unwrap();
    let events = session.tick(1, &vec![measured(NPC_2, 100), measured(NPC_1, 300)]).unwrap();
    assert_eq!(events.next_to, vec![next_to(NPC_2)]);
    assert_eq!(events.away_from, vec![away_from(NPC_1)]);
    assert_eq!(session.most_recent(), Some(NPC_2));
    assert!(!session.nearest_npc_in_proximity().contains(NPC_1));
}

#[test]
fn the_stack_names_the_near_entities_and_no_other() {
    let mut session = ProximitySession::new();
    let ticks: [[u32; 3]; 6] = [
        [100, 100, 100],
        [200, 100, 100],
        [100, 200, 100],
        [100, 100, 200],
        [200, 200, 200],
        [149, 150, 151],
    ];
    for distances in ticks {
        session
            .tick(
                1,
                &vec![
                    measured(NPC_1, distances[0]),
                    measured(NPC_2, distances[1]),
                    measured(NPC_3, distances[2]),
                ],
            )
            .unwrap();
        for (entity, distance) in [NPC_1, NPC_2, NPC_3].into_iter().zip(distances) {
            let near = distance < EDGE;
            assert_eq!(session.next_to_obj().is_near(entity), near);
            assert_eq!(session.nearest_npc_in_proximity().contains(entity), near);
        }
    }
    assert_eq!(session.most_recent(), Some(NPC_1));
}

#[test]
fn a_tick_needs_exactly_one_player() {
    let mut session = ProximitySession::new();
    session.tick(1, &vec![measured(NPC_1, 100)]).unwrap();
    let measurements = vec![measured(NPC_1, 300), measured(NPC_2, 100)];
    assert_eq!(session.tick(0, &measurements).unwrap_err(), ProximityError::NoPlayer);
    assert_eq!(session.tick(3, &measurements).unwrap_err(), ProximityError::MultiplePlayers);
    assert_eq!(session.most_recent(), Some(NPC_1));
    assert_eq!(session.next_to_obj().get(NPC_1), Some((true, 100)));
    assert_eq!(session.next_to_obj().get(NPC_2), None);
}

#[test]
fn an_entity_measured_twice_can_leave_before_it_arrives() {
    let mut session = ProximitySession::new();
    let error = session.tick(1, &vec![measured(NPC_1, 100), measured(NPC_1, 300)]).unwrap_err();
    assert_eq!(error, ProximityError::NotInProximity { entity: NPC_1 });
    assert_eq!(session.most_recent(), None);
    assert_eq!(session.next_to_obj().get(NPC_1), Some((false, 300)));
}

#[test]
fn leaving_the_game_empties_the_session() {
    let mut session = ProximitySession::new();
    session.tick(1, &vec![measured(NPC_1, 100), measured(NPC_2, 100)]).unwrap();
    assert!(session.has_any());

    // Hooks of other screens leave the session alone.
    session.apply_hooks(&vec![
        LifecycleHook::Enter(AppState::PauseScreen),
        LifecycleHook::Exit(AppState::PauseScreen),
        LifecycleHook::Enter(AppState::MainMenu),
    ]);
    assert_eq!(session.most_recent(), Some(NPC_2));
    assert_eq!(session.next_to_obj().get(NPC_1), Some((true, 100)));

    session.apply_hook(LifecycleHook::Exit(AppState::InGame));
    assert_eq!(session.most_recent(), None);
    assert!(!session.has_any());
    assert_eq!(session.next_to_obj().get(NPC_1), None);
    assert_eq!(session.next_to_obj().get(NPC_2), None);

    // The next session starts afresh: who is still near arrives again.
    session.apply_hooks(&vec![
        LifecycleHook::Exit(AppState::MainMenu),
        LifecycleHook::Enter(AppState::InGame),
    ]);
    let events = session.tick(1, &vec![measured(NPC_1, 100), measured(NPC_2, 300)]).unwrap();
    assert_eq!(events.next_to, vec![next_to(NPC_1)]);
    assert!(events.away_from.is_empty());
    assert_eq!(session.most_recent(), Some(NPC_1));
}

#[test]
fn entering_the_game_empties_the_session() {
    let mut session = ProximitySession::default();
    session.tick(1, &vec![measured(NPC_1, 100)]).unwrap();
    session.apply_hook(LifecycleHook::Enter(AppState::InGame));
    assert_eq!(session.most_recent(), None);
    assert_eq!(session.next_to_obj().get(NPC_1), None);
    session.tick(1, &vec![measured(NPC_1, 100)]).unwrap();
    session.reset();
    assert_eq!(session.most_recent(), None);
    assert_eq!(session.next_to_obj().get(NPC_1), None);
}
