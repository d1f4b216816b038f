use mini_ecs::commands::{ApplyError, Commands};
use mini_ecs::entity::Entity;
use mini_ecs::query::{Query, QuerySingleError};
use mini_ecs::world::World;

const POS: u32 = 10;
const EMPLOYED: u32 = 11;

fn two_people() -> (World<u32>, Entity, Entity) {
    let mut w: World<u32> = World::new();
    let a = w.spawn(vec![(POS, 1), (EMPLOYED, 7)]).unwrap();
    let b = w.spawn(vec![(POS, 2)]).unwrap();
    (w, a, b)
}

#[test]
fn with_without_and_unfiltered_queries() {
    let (w, a, b) = two_people();
    assert_eq!(w.query(&Query::new().with(EMPLOYED)), vec![a]);
    assert_eq!(w.query(&Query::new().without(EMPLOYED)), vec![b]);
    assert_eq!(w.query(&Query::new()), vec![a, b]);
    assert_eq!(w.query(&Query::new().read(POS)), vec![a, b]);
    assert_eq!(w.count(&Query::new().read(POS).read(EMPLOYED)), 1);
}

#[test]
fn single_result_outcomes_are_distinct() {
    let (w, a, _b) = two_people();
    assert_eq!(w.single(&Query::new().with(99)), Err(QuerySingleError::NoEntities));
    assert_eq!(w.single(&Query::new().read(POS)), Err(QuerySingleError::MultipleEntities));
    assert_eq!(w.single(&Query::new().with(EMPLOYED)), Ok(a));
}

#[test]
fn spawn_gives_fresh_indices() {
    let (w, a, b) = two_people();
    assert_eq!(a, Entity::new(0, 0));
    assert_eq!(b, Entity::new(1, 0));
    assert_eq!(w.slot_count(), 2);
}

#[test]
fn later_pair_of_same_kind_replaces_earlier() {
    let mut w: World<u32> = World::new();
    let e = w.spawn(vec![(POS, 1), (POS, 5)]).unwrap();
    assert_eq!(w.get(e, POS), Some(&5));
}

#[test]
fn insert_get_remove() {
    let (mut w, a, b) = two_people();
    assert_eq!(w.get(b, EMPLOYED), None);
    assert!(w.insert(b, EMPLOYED, 3));
    assert_eq!(w.get(b, EMPLOYED), Some(&3));
    assert!(w.insert(b, EMPLOYED, 4));
    assert_eq!(w.get(b, EMPLOYED), Some(&4));
    assert_eq!(w.remove(a, EMPLOYED), Some(7));
    assert_eq!(w.remove(a, EMPLOYED), None);
    assert!(!w.has(a, EMPLOYED));
    assert!(w.has(a, POS));
}

#[test]
fn stale_entity_reads_as_absent() {
    let (mut w, a, b) = two_people();
    assert!(w.despawn(a));
    assert!(!w.is_alive(a));
    assert_eq!(w.get(a, POS), None);
    assert!(!w.insert(a, POS, 9));
    assert!(!w.despawn(a));
    let newer = Entity::new(a.index, a.generation + 1);
    assert!(!w.is_alive(newer));
    assert_eq!(w.query(&Query::new()), vec![b]);
}

#[test]
fn query_snapshot_is_stable_and_survives_other_despawn() {
    let (mut w, a, b) = two_people();
    let q = Query::new().read(POS);
    let snapshot = w.query(&q);
    assert_eq!(snapshot, w.query(&q));
    let mut cmds = Commands::new(&w);
    cmds.despawn(b);
    for e in snapshot.iter() {
        assert!(w.is_alive(*e));
    }
    assert_eq!(cmds.apply(&mut w), Ok(()));
    assert_eq!(snapshot, vec![a, b]);
    assert_eq!(w.query(&q), vec![a]);
}

#[test]
fn structural_change_visible_after_sync_point() {
    let (mut w, a, b) = two_people();
    let q = Query::new().with(EMPLOYED);
    let mut cmds = Commands::new(&w);
    cmds.insert(b, EMPLOYED, 1);
    cmds.remove(a, EMPLOYED);
    assert_eq!(w.query(&q), vec![a]);
    assert_eq!(cmds.apply(&mut w), Ok(()));
    assert_eq!(w.query(&q), vec![b]);
    assert_eq!(w.query(&q), vec![b]);
}

#[test]
fn despawn_is_deferred_to_sync_point() {
    let (mut w, a, b) = two_people();
    let q = Query::new().read(POS);
    let mut cmds = Commands::new(&w);
    cmds.despawn(a);
    assert_eq!(w.query(&q), vec![a, b]);
    assert!(w.is_alive(a));
    assert_eq!(cmds.apply(&mut w), Ok(()));
    assert_eq!(w.query(&q), vec![b]);
    assert!(!w.is_alive(a));
}

#[test]
fn deferred_spawn_returns_identifier_at_once() {
    let (mut w, _a, _b) = two_people();
    let mut cmds = Commands::new(&w);
    let c = cmds.spawn(vec![(POS, 3)]).unwrap();
    let d = cmds.spawn(vec![]).unwrap();
    assert_eq!(c, Entity::new(2, 0));
    assert_eq!(d, Entity::new(3, 0));
    cmds.insert(c, EMPLOYED, 8);
    assert!(!w.is_alive(c));
    assert_eq!(cmds.apply(&mut w), Ok(()));
    assert!(w.is_alive(c));
    assert!(w.is_alive(d));
    assert_eq!(w.get(c, EMPLOYED), Some(&8));
    assert_eq!(w.get(c, POS), Some(&3));
}

#[test]
fn stale_reservation_is_refused() {
    let (mut w, _a, _b) = two_people();
    let mut cmds = Commands::new(&w);
    let _ = cmds.spawn(vec![(POS, 3)]);
    let _ = w.spawn(vec![]);
    assert_eq!(cmds.apply(&mut w), Err(ApplyError::StaleReservation));
    assert_eq!(w.slot_count(), 3);
}

#[test]
fn despawned_slot_is_reused_with_next_generation() {
    let (mut w, a, b) = two_people();
    assert!(w.despawn(a));
    let c = w.spawn(vec![(POS, 3)]).unwrap();
    assert_eq!(c, Entity::new(0, 1));
    assert!(!w.is_alive(a));
    assert_eq!(w.get(a, POS), None);
    assert_eq!(w.get(c, POS), Some(&3));
    let d = w.spawn(vec![]).unwrap();
    assert_eq!(d, Entity::new(2, 0));
    assert_eq!(w.query(&Query::new()), vec![c, b, d]);
}

#[test]
fn deferred_spawn_takes_a_new_slot() {
    let (mut w, a, _b) = two_people();
    assert!(w.despawn(a));
    let mut cmds = Commands::new(&w);
    let c = cmds.spawn(vec![(POS, 3)]).unwrap();
    assert_eq!(c, Entity::new(2, 0));
    assert_eq!(cmds.apply(&mut w), Ok(()));
    assert_eq!(w.get(c, POS), Some(&3));
    assert_eq!(w.slot_count(), 3);
}
