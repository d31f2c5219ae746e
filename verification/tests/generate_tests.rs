use levelmap::generate::{
    generate, GenError, MaterialHint, PlacedPrimitive, PrimShape, Rotation,
};
use levelmap::model::{Direction, Floor, LevelMap, Position, Stair, V2, V3, Wall};
use levelmap::rat::{Coord, Scalar};

fn v3(x: i32, y: i32, z: i32) -> V3 {
    V3::new(Scalar::from_int(x), Scalar::from_int(y), Scalar::from_int(z))
}

fn v2(x: i32, y: i32) -> V2 {
    V2::new(Scalar::from_int(x), Scalar::from_int(y))
}

fn empty_map() -> LevelMap {
    LevelMap::new()
}

fn floor_map(height: i32, data: Vec<Vec<i32>>) -> LevelMap {
    let mut m = LevelMap::new();
    m.floors.push(Floor { height, data });
    m
}

/// The coordinate denotes the rational `n/d`.
fn cv(c: &Coord, n: i64, d: i64) -> bool {
    c.same_val(&Coord::new(n, d))
}

fn translation_is(p: &PlacedPrimitive, x: (i64, i64), y: (i64, i64), z: (i64, i64)) -> bool {
    cv(&p.translation.x, x.0, x.1) && cv(&p.translation.y, y.0, y.1) && cv(&p.translation.z, z.0, z.1)
}

fn cuboid_scale(p: &PlacedPrimitive) -> (Coord, Coord, Coord) {
    match p.shape {
        PrimShape::Cuboid(s) => (s.x, s.y, s.z),
        PrimShape::Quad(_) => panic!("expected a cuboid"),
    }
}

#[test]
fn generate_unloaded_map_is_precondition_error() {
    let m = empty_map();
    assert_eq!(generate(&m, &Position::zero()).unwrap_err(), GenError::Precondition);
}

#[test]
fn generate_rowless_first_floor_is_precondition_error() {
    let m = floor_map(0, vec![]);
    assert_eq!(generate(&m, &Position::zero()).unwrap_err(), GenError::Precondition);
}

#[test]
fn generate_undersized_second_floor_is_precondition_error() {
    let mut m = floor_map(0, vec![vec![1, 1], vec![1, 1]]);
    m.floors.push(Floor { height: 1, data: vec![vec![1]] });
    assert_eq!(generate(&m, &Position::zero()).unwrap_err(), GenError::Precondition);
}

#[test]
fn generate_zero_width_grid_emits_only_stairs_and_walls() {
    let mut m = floor_map(0, vec![vec![]]);
    m.walls.push(Wall { translation: v3(0, 0, 0), direction: Direction::MX, size: v2(1, 1) });
    let prims = generate(&m, &Position::zero()).unwrap();
    assert_eq!(prims.len(), 1);
    assert!(matches!(prims[0].shape, PrimShape::Quad(_)));
}

#[test]
fn generate_floor_scenario() {
    // grid rows: [-1, 2] and [0, 1]; two tile columns and three base slabs
    let m = floor_map(0, vec![vec![-1, 2], vec![0, 1]]);
    let prims = generate(&m, &Position::zero()).unwrap();
    assert_eq!(prims.len(), 5);

    // cell i=0, j=1 (value 0): slab only
    assert!(translation_is(&prims[0], (3, 2), (-1, 4), (1, 2)));

    // cell i=1, j=0 (value 2): column then slab
    assert!(translation_is(&prims[1], (1, 2), (1, 1), (3, 2)));
    let (sx, sy, sz) = cuboid_scale(&prims[1]);
    assert!(cv(&sx, 1, 1) && cv(&sy, 2, 1) && cv(&sz, 1, 1));
    assert!(translation_is(&prims[2], (1, 2), (-1, 4), (3, 2)));
    let (_, slab_h, _) = cuboid_scale(&prims[2]);
    assert!(cv(&slab_h, 1, 2));

    // cell i=1, j=1 (value 1): column then slab
    assert!(translation_is(&prims[3], (1, 2), (1, 2), (1, 2)));
    let (_, sy1, _) = cuboid_scale(&prims[3]);
    assert!(cv(&sy1, 1, 1));
    assert!(translation_is(&prims[4], (1, 2), (-1, 4), (1, 2)));

    for p in &prims {
        assert_eq!(p.rotation, Rotation::Identity);
        assert_eq!(p.material, MaterialHint::Light);
        assert!(p.visible_hint);
    }
}

#[test]
fn generate_floor_origin_shifts_tiles_but_not_slab_height() {
    let m = floor_map(7, vec![vec![2]]);
    let origin = Position::new(v3(10, 100, 20));
    let prims = generate(&m, &origin).unwrap();
    assert_eq!(prims.len(), 2);
    // column: x = 0 + 10 + 1/2, y = 2/2 + 7 + 100, z = 0 + 20 + 1/2
    assert!(translation_is(&prims[0], (21, 2), (108, 1), (41, 2)));
    // the base slab ignores both the floor height and the origin height
    assert!(cv(&prims[1].translation.y, -1, 4));
    assert!(cv(&prims[1].translation.x, 21, 2));
}

#[test]
fn generate_stair_scenario() {
    // direction PX, scale (1,3,1), translation zero: exactly three steps
    let mut m = floor_map(0, vec![vec![-1]]);
    m.stairs.push(Stair { translation: v3(0, 0, 0), direction: Direction::PX, scale: v3(1, 3, 1) });
    let prims = generate(&m, &Position::zero()).unwrap();
    assert_eq!(prims.len(), 3);
    for k in 1..=3i64 {
        let p = &prims[(k - 1) as usize];
        // x = (k-1)/3 + 1/6, y = k/6 * 3/1 = k/2, z = 1/2
        assert!(cv(&p.translation.x, 2 * k - 1, 6));
        assert!(cv(&p.translation.y, k, 2));
        assert!(cv(&p.translation.z, 1, 2));
        // scale: (1/3, k/3 * 3/1 = k, 1)
        let (sx, sy, sz) = cuboid_scale(p);
        assert!(cv(&sx, 1, 3));
        assert!(cv(&sy, k, 1));
        assert!(cv(&sz, 1, 1));
    }
}

#[test]
fn generate_stair_mirrored_heights() {
    // direction MX: tallest step first
    let mut m = floor_map(0, vec![vec![-1]]);
    m.stairs.push(Stair { translation: v3(0, 0, 0), direction: Direction::MX, scale: v3(1, 3, 1) });
    let prims = generate(&m, &Position::zero()).unwrap();
    assert_eq!(prims.len(), 3);
    // step k has the height term of step n-k+1
    assert!(cv(&prims[0].translation.y, 3, 2));
    assert!(cv(&prims[1].translation.y, 2, 2));
    assert!(cv(&prims[2].translation.y, 1, 2));
    // positions still advance along +x
    assert!(cv(&prims[0].translation.x, 1, 6));
    assert!(cv(&prims[2].translation.x, 5, 6));
}

#[test]
fn generate_stair_along_z_swaps_axes() {
    let mut m = floor_map(0, vec![vec![-1]]);
    m.stairs.push(Stair { translation: v3(0, 0, 0), direction: Direction::PZ, scale: v3(2, 4, 2) });
    let prims = generate(&m, &Position::zero()).unwrap();
    // 3 * trunc(scale.z) = 6 steps
    assert_eq!(prims.len(), 6);
    let p = &prims[0];
    // x = scale.x/2 = 1, z = 1/6, y = 1/6 * 4/2 = 1/3
    assert!(cv(&p.translation.x, 1, 1));
    assert!(cv(&p.translation.z, 1, 6));
    assert!(cv(&p.translation.y, 1, 3));
    let (sx, _, sz) = cuboid_scale(p);
    assert!(cv(&sx, 2, 1));
    assert!(cv(&sz, 1, 3));
}

#[test]
fn generate_stair_fractional_extent_truncates() {
    // scale.x = 5/2: trunc to 2 whole units, so 6 steps
    let mut m = floor_map(0, vec![vec![-1]]);
    m.stairs.push(Stair {
        translation: v3(0, 0, 0),
        direction: Direction::PX,
        scale: V3::new(Scalar::new(5, 2), Scalar::from_int(3), Scalar::from_int(1)),
    });
    let prims = generate(&m, &Position::zero()).unwrap();
    assert_eq!(prims.len(), 6);
}

#[test]
fn generate_stair_zero_extent_emits_nothing() {
    let mut m = floor_map(0, vec![vec![-1]]);
    m.stairs.push(Stair { translation: v3(0, 0, 0), direction: Direction::PX, scale: v3(0, 3, 1) });
    let prims = generate(&m, &Position::zero()).unwrap();
    assert_eq!(prims.len(), 0);
}

#[test]
fn generate_stair_ignores_map_origin() {
    let mut m = floor_map(0, vec![vec![-1]]);
    m.stairs.push(Stair { translation: v3(5, 0, 0), direction: Direction::PX, scale: v3(1, 1, 1) });
    let far_origin = Position::new(v3(100, 100, 100));
    let prims = generate(&m, &far_origin).unwrap();
    // x = 5 + (k-1)/3 + 1/6, no origin offset
    assert!(cv(&prims[0].translation.x, 31, 6));
}

#[test]
fn generate_wall_directions() {
    let mut m = floor_map(0, vec![vec![-1]]);
    for dir in [Direction::PX, Direction::MX, Direction::PZ, Direction::MZ] {
        m.walls.push(Wall { translation: v3(0, 0, 0), direction: dir, size: v2(2, 4) });
    }
    let prims = generate(&m, &Position::zero()).unwrap();
    assert_eq!(prims.len(), 4);

    let px = &prims[0];
    assert_eq!(px.rotation, Rotation::YawQuarterClockwise);
    assert_eq!(px.material, MaterialHint::Black);
    assert!(px.visible_hint);
    // offset (-0.01, 4/2 - 0.5, 2/2)
    assert!(translation_is(px, (-1, 100), (3, 2), (1, 1)));

    let mx = &prims[1];
    assert_eq!(mx.rotation, Rotation::YawQuarterClockwise);
    assert_eq!(mx.material, MaterialHint::Light);
    assert!(mx.visible_hint);
    assert!(translation_is(mx, (0, 1), (3, 2), (1, 1)));

    let pz = &prims[2];
    assert_eq!(pz.rotation, Rotation::YawHalfTurn);
    assert_eq!(pz.material, MaterialHint::Black);
    assert!(pz.visible_hint);
    assert!(translation_is(pz, (1, 1), (3, 2), (-1, 100)));

    let mz = &prims[3];
    assert_eq!(mz.rotation, Rotation::YawHalfTurn);
    assert_eq!(mz.material, MaterialHint::Light);
    assert!(!mz.visible_hint);
    assert!(translation_is(mz, (1, 1), (3, 2), (0, 1)));

    for p in &prims {
        match p.shape {
            PrimShape::Quad(q) => {
                assert!(cv(&q.x, 2, 1));
                assert!(cv(&q.y, 4, 1));
            },
            PrimShape::Cuboid(_) => panic!("walls are quads"),
        }
    }
}

#[test]
fn generate_wall_ignores_map_origin() {
    let mut m = floor_map(0, vec![vec![-1]]);
    m.walls.push(Wall { translation: v3(7, 0, 0), direction: Direction::MX, size: v2(2, 2) });
    let prims = generate(&m, &Position::new(v3(50, 50, 50))).unwrap();
    // x = 7 + 0, untouched by the origin
    assert!(cv(&prims[0].translation.x, 7, 1));
}

#[test]
fn generate_order_is_floors_then_stairs_then_walls() {
    let mut m = floor_map(0, vec![vec![1]]);
    m.stairs.push(Stair { translation: v3(0, 0, 0), direction: Direction::PX, scale: v3(1, 1, 1) });
    m.walls.push(Wall { translation: v3(0, 0, 0), direction: Direction::MZ, size: v2(1, 1) });
    let prims = generate(&m, &Position::zero()).unwrap();
    // 2 floor prims (column + slab), 3 steps, 1 wall
    assert_eq!(prims.len(), 6);
    assert!(matches!(prims[0].shape, PrimShape::Cuboid(_)));
    assert!(matches!(prims[5].shape, PrimShape::Quad(_)));
    assert_eq!(prims[5].rotation, Rotation::YawHalfTurn);
}

#[test]
fn generate_twice_yields_equal_sequences() {
    let mut m = floor_map(2, vec![vec![-1, 3], vec![0, 1]]);
    m.stairs.push(Stair { translation: v3(1, 0, 2), direction: Direction::MZ, scale: v3(2, 3, 2) });
    m.walls.push(Wall { translation: v3(0, 1, 0), direction: Direction::PX, size: v2(3, 2) });
    let origin = Position::new(v3(4, 5, 6));
    let first = generate(&m, &origin).unwrap();
    let second = generate(&m, &origin).unwrap();
    assert_eq!(first, second);
}

#[test]
fn coord_value_equality_is_by_value() {
    assert!(Coord::new(1, 2).same_val(&Coord::new(2, 4)));
    assert!(!Coord::new(1, 2).same_val(&Coord::new(1, 3)));
    assert!(Coord::new(-1, 4).same_val(&Coord::new(-2, 8)));
}
