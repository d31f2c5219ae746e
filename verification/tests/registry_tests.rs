use levelmap::decode::DecodeError;
use levelmap::rat::Scalar;
use levelmap::registry::{Level, LoadOutcome, Registry, SpawnOutcome};
use levelmap::value::Value;

fn s(t: &str) -> String {
    String::from(t)
}

fn num(n: i32) -> Value {
    Value::Num(Scalar::from_int(n))
}

fn loadable_description() -> Value {
    Value::Obj(vec![
        (
            s("position"),
            Value::Arr(vec![num(1), num(2), num(3)]),
        ),
        (
            s("floors"),
            Value::Arr(vec![Value::Obj(vec![
                (s("height"), num(0)),
                (
                    s("data"),
                    Value::Arr(vec![Value::Arr(vec![num(1), num(0)])]),
                ),
            ])]),
        ),
    ])
}

fn bad_description() -> Value {
    Value::Obj(vec![(s("position"), Value::Arr(vec![num(1)]))])
}

#[test]
fn level_name() {
    assert_eq!(Level::TestMap.name(), "test_map");
}

#[test]
fn new_registry_is_unloaded_and_invisible() {
    let r = Registry::new();
    assert!(!r.test_map.map.is_loaded());
    assert!(!r.test_map.visible);
    assert_eq!(r.test_map.position, levelmap::model::Position::zero());
}

#[test]
fn load_commits_decoded_map() {
    let mut r = Registry::new();
    let outcome = r.load(Level::TestMap, &loadable_description());
    assert_eq!(outcome, LoadOutcome::Loaded);
    assert!(r.test_map.map.is_loaded());
    assert_eq!(r.test_map.position.v.x, Scalar::from_int(1));
    assert!(!r.test_map.visible);
}

#[test]
fn load_twice_skips_decoding_and_keeps_map() {
    let mut r = Registry::new();
    assert_eq!(r.load(Level::TestMap, &loadable_description()), LoadOutcome::Loaded);
    let before = r.test_map.map.clone();
    // even a description that would fail to decode is never looked at
    let outcome = r.load(Level::TestMap, &bad_description());
    assert_eq!(outcome, LoadOutcome::AlreadyLoaded);
    assert_eq!(r.test_map.map, before);
}

#[test]
fn load_failure_leaves_entry_untouched() {
    let mut r = Registry::new();
    let outcome = r.load(Level::TestMap, &bad_description());
    assert_eq!(outcome, LoadOutcome::Failed(DecodeError::Shape));
    assert!(!r.test_map.map.is_loaded());
    assert_eq!(r.test_map.position, levelmap::model::Position::zero());
}

#[test]
fn unload_clears_everything_from_any_state() {
    let mut r = Registry::new();
    r.load(Level::TestMap, &loadable_description());
    match r.spawn(Level::TestMap) {
        SpawnOutcome::Spawned(_) => {},
        _ => panic!("expected geometry"),
    }
    r.unload(Level::TestMap);
    assert!(r.test_map.map.floors.is_empty());
    assert!(r.test_map.map.stairs.is_empty());
    assert!(r.test_map.map.walls.is_empty());
    assert_eq!(r.test_map.position, levelmap::model::Position::zero());
    assert!(!r.test_map.visible);
}

#[test]
fn spawn_generates_once_and_guards_duplicates() {
    let mut r = Registry::new();
    r.load(Level::TestMap, &loadable_description());
    let first = r.spawn(Level::TestMap);
    match first {
        SpawnOutcome::Spawned(prims) => {
            // one tile column and two base slabs
            assert_eq!(prims.len(), 3);
        },
        _ => panic!("expected geometry"),
    }
    assert!(r.test_map.visible);
    assert_eq!(r.spawn(Level::TestMap), SpawnOutcome::AlreadyVisible);
}

#[test]
fn spawn_with_unusable_grid_is_rejected_loudly() {
    // a floor without rows loads fine but cannot drive the generator
    let raw = Value::Obj(vec![(
        s("floors"),
        Value::Arr(vec![Value::Obj(vec![(s("height"), num(1))])]),
    )]);
    let mut r = Registry::new();
    assert_eq!(r.load(Level::TestMap, &raw), LoadOutcome::Loaded);
    match r.spawn(Level::TestMap) {
        SpawnOutcome::Rejected(e) => {
            assert_eq!(e, levelmap::generate::GenError::Precondition);
        },
        _ => panic!("expected a loud precondition failure"),
    }
    assert!(!r.test_map.visible);
}

#[test]
fn spawn_unloaded_is_a_no_op() {
    let mut r = Registry::new();
    assert_eq!(r.spawn(Level::TestMap), SpawnOutcome::NotLoaded);
    assert!(!r.test_map.visible);
}

#[test]
fn spawn_then_despawn_restores_invisibility_and_keeps_map() {
    let mut r = Registry::new();
    r.load(Level::TestMap, &loadable_description());
    let before = r.test_map.map.clone();
    match r.spawn(Level::TestMap) {
        SpawnOutcome::Spawned(_) => {},
        _ => panic!("expected geometry"),
    }
    let removed = r.despawn(Level::TestMap);
    assert!(removed);
    assert!(!r.test_map.visible);
    assert_eq!(r.test_map.map, before);
    // a second despawn has nothing left to remove
    assert!(!r.despawn(Level::TestMap));
}

#[test]
fn despawned_level_can_spawn_again() {
    let mut r = Registry::new();
    r.load(Level::TestMap, &loadable_description());
    match r.spawn(Level::TestMap) {
        SpawnOutcome::Spawned(_) => {},
        _ => panic!("expected geometry"),
    }
    r.despawn(Level::TestMap);
    match r.spawn(Level::TestMap) {
        SpawnOutcome::Spawned(prims) => assert_eq!(prims.len(), 3),
        _ => panic!("expected geometry again"),
    }
}
