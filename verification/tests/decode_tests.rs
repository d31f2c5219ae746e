use levelmap::decode::{decode, DecodeError};
use levelmap::model::Direction;
use levelmap::rat::Scalar;
use levelmap::value::Value;

fn num(n: i32) -> Value {
    Value::Num(Scalar::from_int(n))
}

fn frac(n: i32, d: u32) -> Value {
    Value::Num(Scalar::new(n, d))
}

fn s(t: &str) -> String {
    String::from(t)
}

fn obj(entries: Vec<(&str, Value)>) -> Value {
    Value::Obj(entries.into_iter().map(|(k, v)| (s(k), v)).collect())
}

fn arr(items: Vec<Value>) -> Value {
    Value::Arr(items)
}

fn num3(a: i32, b: i32, c: i32) -> Value {
    arr(vec![num(a), num(b), num(c)])
}

#[test]
fn decode_empty_object_gives_defaults() {
    let raw = obj(vec![]);
    let (map, pos) = decode(&raw).unwrap();
    assert!(map.floors.is_empty());
    assert!(map.stairs.is_empty());
    assert!(map.walls.is_empty());
    assert_eq!(pos.v.x, Scalar::from_int(0));
    assert_eq!(pos.v.y, Scalar::from_int(0));
    assert_eq!(pos.v.z, Scalar::from_int(0));
}

#[test]
fn decode_position() {
    let raw = obj(vec![("position", num3(1, 2, 3))]);
    let (map, pos) = decode(&raw).unwrap();
    assert!(!map.is_loaded());
    assert_eq!(pos.v.x, Scalar::from_int(1));
    assert_eq!(pos.v.y, Scalar::from_int(2));
    assert_eq!(pos.v.z, Scalar::from_int(3));
}

#[test]
fn decode_position_fractional() {
    let raw = obj(vec![("position", arr(vec![frac(1, 2), num(0), frac(-3, 4)]))]);
    let (_, pos) = decode(&raw).unwrap();
    assert_eq!(pos.v.x.num(), 1);
    assert_eq!(pos.v.x.den(), 2);
    assert_eq!(pos.v.z.num(), -3);
    assert_eq!(pos.v.z.den(), 4);
}

#[test]
fn decode_position_too_short_is_shape_error() {
    let raw = obj(vec![("position", arr(vec![num(1), num(2)]))]);
    assert_eq!(decode(&raw).unwrap_err(), DecodeError::Shape);
}

#[test]
fn decode_position_non_numeric_is_shape_error() {
    let raw = obj(vec![("position", arr(vec![num(1), Value::Str(s("two")), num(3)]))]);
    assert_eq!(decode(&raw).unwrap_err(), DecodeError::Shape);
}

#[test]
fn decode_floor() {
    let raw = obj(vec![(
        "floors",
        arr(vec![obj(vec![
            ("height", num(1)),
            ("data", arr(vec![arr(vec![num(1), num(2)]), arr(vec![num(3), num(4)])])),
        ])]),
    )]);
    let (map, _) = decode(&raw).unwrap();
    assert!(map.is_loaded());
    assert_eq!(map.floors.len(), 1);
    assert_eq!(map.floors[0].height, 1);
    assert_eq!(map.floors[0].data, vec![vec![1, 2], vec![3, 4]]);
    assert_eq!(map.width(), 2);
    assert_eq!(map.depth(), 2);
}

#[test]
fn decode_floor_missing_height_defaults_to_zero() {
    let raw = obj(vec![(
        "floors",
        arr(vec![obj(vec![("data", arr(vec![arr(vec![num(5)])]))])]),
    )]);
    let (map, _) = decode(&raw).unwrap();
    assert_eq!(map.floors[0].height, 0);
    assert_eq!(map.floors[0].data, vec![vec![5]]);
}

#[test]
fn decode_floor_missing_data_yields_empty_floor() {
    let raw = obj(vec![("floors", arr(vec![obj(vec![("height", num(3))])]))]);
    let (map, _) = decode(&raw).unwrap();
    assert_eq!(map.floors.len(), 1);
    assert_eq!(map.floors[0].height, 3);
    assert!(map.floors[0].data.is_empty());
}

#[test]
fn decode_jagged_floor_is_shape_error() {
    let raw = obj(vec![(
        "floors",
        arr(vec![obj(vec![(
            "data",
            arr(vec![arr(vec![num(1)]), arr(vec![num(2), num(3)])]),
        )])]),
    )]);
    assert_eq!(decode(&raw).unwrap_err(), DecodeError::Shape);
}

#[test]
fn decode_non_integer_height_is_shape_error() {
    let raw = obj(vec![("floors", arr(vec![obj(vec![("height", frac(1, 2))])]))]);
    assert_eq!(decode(&raw).unwrap_err(), DecodeError::Shape);
}

#[test]
fn decode_non_integer_cell_is_shape_error() {
    let raw = obj(vec![(
        "floors",
        arr(vec![obj(vec![("data", arr(vec![arr(vec![frac(1, 3)])]))])]),
    )]);
    assert_eq!(decode(&raw).unwrap_err(), DecodeError::Shape);
}

#[test]
fn decode_stair() {
    let raw = obj(vec![(
        "stairs",
        arr(vec![obj(vec![
            ("translation", num3(1, 0, 2)),
            ("direction", Value::Str(s("MX"))),
            ("scale", num3(1, 3, 1)),
        ])]),
    )]);
    let (map, _) = decode(&raw).unwrap();
    assert_eq!(map.stairs.len(), 1);
    assert_eq!(map.stairs[0].direction, Direction::MX);
    assert_eq!(map.stairs[0].translation.x, Scalar::from_int(1));
    assert_eq!(map.stairs[0].scale.y, Scalar::from_int(3));
}

#[test]
fn decode_stair_defaults() {
    let raw = obj(vec![("stairs", arr(vec![obj(vec![])]))]);
    let (map, _) = decode(&raw).unwrap();
    assert_eq!(map.stairs[0].direction, Direction::PZ);
    assert_eq!(map.stairs[0].translation.x, Scalar::from_int(0));
    assert_eq!(map.stairs[0].scale.z, Scalar::from_int(0));
}

#[test]
fn decode_wall() {
    let raw = obj(vec![(
        "walls",
        arr(vec![obj(vec![
            ("translation", num3(0, 0, 0)),
            ("direction", Value::Str(s("PX"))),
            ("size", arr(vec![num(2), num(4)])),
        ])]),
    )]);
    let (map, _) = decode(&raw).unwrap();
    assert_eq!(map.walls.len(), 1);
    assert_eq!(map.walls[0].direction, Direction::PX);
    assert_eq!(map.walls[0].size.x, Scalar::from_int(2));
    assert_eq!(map.walls[0].size.y, Scalar::from_int(4));
}

#[test]
fn decode_wall_lowercase_px_defaults_to_pz() {
    let raw = obj(vec![(
        "walls",
        arr(vec![obj(vec![("direction", Value::Str(s("px")))])]),
    )]);
    let (map, _) = decode(&raw).unwrap();
    assert_eq!(map.walls[0].direction, Direction::PZ);
}

#[test]
fn decode_direction_pz_string_maps_to_pz() {
    let raw = obj(vec![(
        "stairs",
        arr(vec![obj(vec![("direction", Value::Str(s("PZ")))])]),
    )]);
    let (map, _) = decode(&raw).unwrap();
    assert_eq!(map.stairs[0].direction, Direction::PZ);
}

#[test]
fn decode_direction_non_string_is_shape_error() {
    let raw = obj(vec![(
        "walls",
        arr(vec![obj(vec![("direction", num(1))])]),
    )]);
    assert_eq!(decode(&raw).unwrap_err(), DecodeError::Shape);
}

#[test]
fn decode_unrecognized_keys_ignored() {
    let raw = obj(vec![
        ("mood", Value::Str(s("gloomy"))),
        ("position", num3(1, 1, 1)),
        ("noise", arr(vec![num(9)])),
    ]);
    let (map, pos) = decode(&raw).unwrap();
    assert!(!map.is_loaded());
    assert_eq!(pos.v.x, Scalar::from_int(1));
}

#[test]
fn decode_top_level_not_keyed_is_shape_error() {
    assert_eq!(decode(&num(7)).unwrap_err(), DecodeError::Shape);
    assert_eq!(decode(&arr(vec![])).unwrap_err(), DecodeError::Shape);
}

#[test]
fn decode_floors_not_array_is_shape_error() {
    let raw = obj(vec![("floors", num(1))]);
    assert_eq!(decode(&raw).unwrap_err(), DecodeError::Shape);
}

#[test]
fn decode_error_leaves_nothing_partially_committed() {
    // a failing key after a good one still rejects the whole call
    let raw = obj(vec![
        ("position", num3(1, 2, 3)),
        ("floors", arr(vec![num(0)])),
    ]);
    assert_eq!(decode(&raw).unwrap_err(), DecodeError::Shape);
}

#[test]
fn decode_repeated_floors_keys_append() {
    let raw = obj(vec![
        ("floors", arr(vec![obj(vec![("height", num(1))])])),
        ("floors", arr(vec![obj(vec![("height", num(2))])])),
    ]);
    let (map, _) = decode(&raw).unwrap();
    assert_eq!(map.floors.len(), 2);
    assert_eq!(map.floors[0].height, 1);
    assert_eq!(map.floors[1].height, 2);
}

#[test]
fn decode_twice_yields_equal_results() {
    let raw = obj(vec![
        ("position", num3(4, 5, 6)),
        (
            "floors",
            arr(vec![obj(vec![
                ("height", num(2)),
                ("data", arr(vec![arr(vec![num(0), num(1)])])),
            ])]),
        ),
        (
            "stairs",
            arr(vec![obj(vec![
                ("direction", Value::Str(s("MZ"))),
                ("scale", num3(1, 2, 3)),
            ])]),
        ),
    ]);
    let first = decode(&raw).unwrap();
    let second = decode(&raw).unwrap();
    assert_eq!(first.0, second.0);
    assert_eq!(first.1, second.1);
}
