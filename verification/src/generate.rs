//! The geometry generator: expands a validated map plus an origin position
//! into a flat, ordered list of placed primitives.
//!
//! Emission order is floors (column-major over the first floor's grid
//! dimensions, in floor order), then stairs, then walls. Floors are offset
//! by the map origin; stairs and walls carry their own absolute
//! translations. Every coordinate is an exact rational, and the whole
//! output sequence is pinned by `gen_spec`.

use vstd::prelude::*;
use crate::model::{
    Direction, FloorS, LevelMap, LevelMapS, Position, Stair, StairS, V2S, V3, V3S, Wall, WallS,
};
use crate::rat::{
    Coord, RatS, Scalar, coord_add, coord_div_pos, coord_mul, coord_sub, lemma_add_fits,
    lemma_mul_fits, rat_bounded,
};

verus! {

/// A coordinate triple of a generated primitive.
#[derive(Clone, Copy, PartialEq, Eq, Structural, Debug)]
pub struct C3 {
    pub x: Coord,
    pub y: Coord,
    pub z: Coord,
}

impl View for C3 {
    type V = V3S;

    open spec fn view(&self) -> V3S {
        V3S { x: self.x@, y: self.y@, z: self.z@ }
    }
}

/// A coordinate pair of a generated primitive.
#[derive(Clone, Copy, PartialEq, Eq, Structural, Debug)]
pub struct C2 {
    pub x: Coord,
    pub y: Coord,
}

impl View for C2 {
    type V = V2S;

    open spec fn view(&self) -> V2S {
        V2S { x: self.x@, y: self.y@ }
    }
}

/// The quantized rotation a primitive carries: walls along the X axis turn
/// a quarter turn clockwise about the vertical axis, walls along the Z
/// axis a half turn, everything else none.
#[derive(Clone, Copy, PartialEq, Eq, Structural, Debug)]
pub enum Rotation {
    Identity,
    YawQuarterClockwise,
    YawHalfTurn,
}

/// The material color hint a primitive carries.
#[derive(Clone, Copy, PartialEq, Eq, Structural, Debug)]
pub enum MaterialHint {
    Light,
    Black,
}

/// Mathematical value of a primitive shape.
pub ghost enum PrimShapeS {
    /// An axis-aligned box with the given non-uniform scale.
    Cuboid(V3S),
    /// A flat panel with the given width and height.
    Quad(V2S),
}

/// Shape of a placed primitive.
#[derive(Clone, Copy, PartialEq, Eq, Structural, Debug)]
pub enum PrimShape {
    Cuboid(C3),
    Quad(C2),
}

impl View for PrimShape {
    type V = PrimShapeS;

    open spec fn view(&self) -> PrimShapeS {
        match self {
            PrimShape::Cuboid(s) => PrimShapeS::Cuboid(s@),
            PrimShape::Quad(s) => PrimShapeS::Quad(s@),
        }
    }
}

/// Mathematical value of a placed primitive.
pub ghost struct PlacedPrimitiveS {
    pub shape: PrimShapeS,
    pub translation: V3S,
    pub rotation: Rotation,
    pub material: MaterialHint,
    pub visible_hint: bool,
}

/// One output primitive: a shape, its transform, a material color hint,
/// and whether the renderer should materialize it visible at once.
#[derive(Clone, Copy, PartialEq, Eq, Structural, Debug)]
pub struct PlacedPrimitive {
    pub shape: PrimShape,
    pub translation: C3,
    pub rotation: Rotation,
    pub material: MaterialHint,
    pub visible_hint: bool,
}

impl View for PlacedPrimitive {
    type V = PlacedPrimitiveS;

    open spec fn view(&self) -> PlacedPrimitiveS {
        PlacedPrimitiveS {
            shape: self.shape@,
            translation: self.translation@,
            rotation: self.rotation,
            material: self.material,
            visible_hint: self.visible_hint,
        }
    }
}

/// The mathematical values a vector of primitives denotes.
pub open spec fn prims_view(s: Seq<PlacedPrimitive>) -> Seq<PlacedPrimitiveS> {
    s.map_values(|p: PlacedPrimitive| p@)
}

pub proof fn lemma_prims_view_push(s: Seq<PlacedPrimitive>, p: PlacedPrimitive)
    ensures
        prims_view(s.push(p)) =~= prims_view(s).push(p@),
{
}

/// Why geometry generation was refused.
#[derive(Clone, Copy, PartialEq, Eq, Structural, Debug)]
pub enum GenError {
    /// The map is not loaded, or its floor grids do not cover the first
    /// floor's dimensions.
    Precondition,
}

/// Short form of an integer-valued scalar in the geometric formulas.
pub open spec fn rs(n: int) -> RatS {
    RatS::from_int(n)
}

pub open spec fn half() -> RatS {
    RatS { num: 1, den: 2 }
}

// ------------------------------------------------------------------
// floors

/// Center of a tile along one grid axis: `m + off + 1/2`, with `m` the
/// mirrored grid index.
pub open spec fn tile_axis(m: int, off: RatS) -> RatS {
    rs(m).add(off).add(half())
}

/// Center height of a tile column: `v/2 + height + off`.
pub open spec fn tile_height(v: int, h: int, off: RatS) -> RatS {
    rs(v).div_pos(rs(2)).add(rs(h)).add(off)
}

/// The tile column cuboid of a grid cell with value `v`: unit footprint,
/// `v` tall, resting on the floor's base height.
pub open spec fn column_prim_s(mx: int, mz: int, v: int, h: int, o: V3S) -> PlacedPrimitiveS {
    PlacedPrimitiveS {
        shape: PrimShapeS::Cuboid(V3S { x: rs(1), y: rs(v), z: rs(1) }),
        translation: V3S {
            x: tile_axis(mx, o.x),
            y: tile_height(v, h, o.y),
            z: tile_axis(mz, o.z),
        },
        rotation: Rotation::Identity,
        material: MaterialHint::Light,
        visible_hint: true,
    }
}

/// The thin base slab of a grid cell. Its height is a fixed `-1/4`,
/// deliberately not offset by the floor height or the origin.
pub open spec fn slab_prim_s(mx: int, mz: int, o: V3S) -> PlacedPrimitiveS {
    PlacedPrimitiveS {
        shape: PrimShapeS::Cuboid(V3S { x: rs(1), y: half(), z: rs(1) }),
        translation: V3S {
            x: tile_axis(mx, o.x),
            y: RatS { num: -1, den: 4 },
            z: tile_axis(mz, o.z),
        },
        rotation: Rotation::Identity,
        material: MaterialHint::Light,
        visible_hint: true,
    }
}

/// What one grid cell emits: nothing for `-1`, the base slab alone for
/// `0`, and a tile column followed by the base slab otherwise.
pub open spec fn cell_prims(f: FloorS, w: int, d: int, o: V3S, i: int, j: int) -> Seq<
    PlacedPrimitiveS,
> {
    let v = f.data[j][i];
    if v == -1 {
        Seq::empty()
    } else {
        let slab = slab_prim_s(w - 1 - i, d - 1 - j, o);
        if v != 0 {
            seq![column_prim_s(w - 1 - i, d - 1 - j, v, f.height, o), slab]
        } else {
            seq![slab]
        }
    }
}

/// Primitives of column `i`, rows `0..m`, in row order.
pub open spec fn col_prims(f: FloorS, w: int, d: int, o: V3S, i: int, m: int) -> Seq<
    PlacedPrimitiveS,
>
    decreases m,
{
    if m <= 0 {
        Seq::empty()
    } else {
        col_prims(f, w, d, o, i, m - 1) + cell_prims(f, w, d, o, i, m - 1)
    }
}

/// Primitives of columns `0..n`, each over all `d` rows.
pub open spec fn cols_prims(f: FloorS, w: int, d: int, o: V3S, n: int) -> Seq<PlacedPrimitiveS>
    decreases n,
{
    if n <= 0 {
        Seq::empty()
    } else {
        cols_prims(f, w, d, o, n - 1) + col_prims(f, w, d, o, n - 1, d)
    }
}

/// All primitives of one floor, over the shared grid dimensions.
pub open spec fn floor_prims(f: FloorS, w: int, d: int, o: V3S) -> Seq<PlacedPrimitiveS> {
    cols_prims(f, w, d, o, w)
}

/// Primitives of floors `0..n`, in floor order.
pub open spec fn floors_prims(fs: Seq<FloorS>, w: int, d: int, o: V3S, n: int) -> Seq<
    PlacedPrimitiveS,
>
    decreases n,
{
    if n <= 0 {
        Seq::empty()
    } else {
        floors_prims(fs, w, d, o, n - 1) + floor_prims(fs[n - 1], w, d, o)
    }
}

// ------------------------------------------------------------------
// stairs

/// The scale component along a stair's climbing axis.
pub open spec fn stair_axis(s: StairS) -> RatS {
    match s.direction {
        Direction::PX => s.scale.x,
        Direction::MX => s.scale.x,
        Direction::PZ => s.scale.z,
        Direction::MZ => s.scale.z,
    }
}

/// A stair is quantized into three steps per whole grid unit of its
/// climbing extent; a non-positive extent yields no steps.
pub open spec fn steps_of(r: RatS) -> int {
    if r.num <= 0 {
        0
    } else {
        3 * (r.num / r.den)
    }
}

/// Rise term of step `k`: `k/q * rise/run`, mirroring the generator's
/// evaluation order.
pub open spec fn rise_term(k: int, q: int, rise: RatS, run: RatS) -> RatS {
    rs(k).div_pos(rs(q)).mul(rise).div_pos(run)
}

/// Offset of step `k` along the climbing axis: `(k-1)/3 + 1/6`.
pub open spec fn step_advance(k: int) -> RatS {
    rs(k - 1).div_pos(rs(3)).add(RatS { num: 1, den: 6 })
}

/// Step `k` (1-indexed) of a stair quantized into `n` steps.
pub open spec fn stair_step_prim(s: StairS, n: int, k: int) -> PlacedPrimitiveS {
    let t = s.translation;
    let sc = s.scale;
    let po: V3S = match s.direction {
        Direction::PX => V3S {
            x: step_advance(k),
            y: rise_term(k, 6, sc.y, sc.x),
            z: sc.z.div_pos(rs(2)),
        },
        Direction::MX => V3S {
            x: step_advance(k),
            y: rise_term(n - k + 1, 6, sc.y, sc.x),
            z: sc.z.div_pos(rs(2)),
        },
        Direction::PZ => V3S {
            x: sc.x.div_pos(rs(2)),
            y: rise_term(k, 6, sc.y, sc.z),
            z: step_advance(k),
        },
        Direction::MZ => V3S {
            x: sc.x.div_pos(rs(2)),
            y: rise_term(n - k + 1, 6, sc.y, sc.z),
            z: step_advance(k),
        },
    };
    let scale: V3S = match s.direction {
        Direction::PX => V3S { x: RatS { num: 1, den: 3 }, y: rise_term(k, 3, sc.y, sc.x), z: sc.z },
        Direction::MX => V3S {
            x: RatS { num: 1, den: 3 },
            y: rise_term(n - k + 1, 3, sc.y, sc.x),
            z: sc.z,
        },
        Direction::PZ => V3S { x: sc.x, y: rise_term(k, 3, sc.y, sc.z), z: RatS { num: 1, den: 3 } },
        Direction::MZ => V3S {
            x: sc.x,
            y: rise_term(n - k + 1, 3, sc.y, sc.z),
            z: RatS { num: 1, den: 3 },
        },
    };
    PlacedPrimitiveS {
        shape: PrimShapeS::Cuboid(scale),
        translation: V3S { x: t.x.add(po.x), y: t.y.add(po.y), z: t.z.add(po.z) },
        rotation: Rotation::Identity,
        material: MaterialHint::Light,
        visible_hint: true,
    }
}

/// Steps `1..=m` of a stair quantized into `n` steps.
pub open spec fn stair_steps(s: StairS, n: int, m: int) -> Seq<PlacedPrimitiveS>
    decreases m,
{
    if m <= 0 {
        Seq::empty()
    } else {
        stair_steps(s, n, m - 1).push(stair_step_prim(s, n, m))
    }
}

/// All steps of one stair.
pub open spec fn stair_prims(s: StairS) -> Seq<PlacedPrimitiveS> {
    stair_steps(s, steps_of(stair_axis(s)), steps_of(stair_axis(s)))
}

/// Primitives of stairs `0..n`, in stair order.
pub open spec fn stairs_prims(ss: Seq<StairS>, n: int) -> Seq<PlacedPrimitiveS>
    decreases n,
{
    if n <= 0 {
        Seq::empty()
    } else {
        stairs_prims(ss, n - 1) + stair_prims(ss[n - 1])
    }
}

// ------------------------------------------------------------------
// walls

/// The offset that centers a wall panel half a unit below its height's
/// midpoint and half its width along the facing axis, with the small
/// nudges and asymmetries each direction carries.
pub open spec fn wall_offset(w: WallS) -> V3S {
    let lift = w.size.y.div_pos(rs(2)).sub(half());
    match w.direction {
        Direction::PX => V3S {
            x: RatS { num: -1, den: 100 },
            y: lift,
            z: w.size.x.div_pos(rs(2)),
        },
        Direction::MX => V3S { x: rs(0), y: lift, z: w.size.x.div_pos(rs(2)) },
        Direction::PZ => V3S {
            x: w.size.x.div_pos(rs(2)),
            y: lift,
            z: RatS { num: -1, den: 100 },
        },
        Direction::MZ => V3S { x: w.size.x.div_pos(rs(2)), y: lift, z: rs(0) },
    }
}

/// The single quad one wall emits.
pub open spec fn wall_prim_s(w: WallS) -> PlacedPrimitiveS {
    let off = wall_offset(w);
    PlacedPrimitiveS {
        shape: PrimShapeS::Quad(w.size),
        translation: V3S {
            x: w.translation.x.add(off.x),
            y: w.translation.y.add(off.y),
            z: w.translation.z.add(off.z),
        },
        rotation: match w.direction {
            Direction::PX => Rotation::YawQuarterClockwise,
            Direction::MX => Rotation::YawQuarterClockwise,
            Direction::PZ => Rotation::YawHalfTurn,
            Direction::MZ => Rotation::YawHalfTurn,
        },
        material: match w.direction {
            Direction::PX => MaterialHint::Black,
            Direction::MX => MaterialHint::Light,
            Direction::PZ => MaterialHint::Black,
            Direction::MZ => MaterialHint::Light,
        },
        visible_hint: !(w.direction is MZ),
    }
}

/// Primitives of walls `0..n`, in wall order.
pub open spec fn walls_prims(ws: Seq<WallS>, n: int) -> Seq<PlacedPrimitiveS>
    decreases n,
{
    if n <= 0 {
        Seq::empty()
    } else {
        walls_prims(ws, n - 1).push(wall_prim_s(ws[n - 1]))
    }
}

// ------------------------------------------------------------------
// the whole map

/// A floor grid covers the shared dimensions: at least `d` rows, each of
/// the first `d` rows at least `w` wide.
pub open spec fn grid_fits(f: FloorS, w: int, d: int) -> bool {
    f.data.len() >= d && (forall|j: int| 0 <= j < d ==> (#[trigger] f.data[j]).len() >= w)
}

/// The generator is defined exactly on loaded maps whose first floor has
/// at least one row and whose floors all cover the first floor's
/// dimensions.
pub open spec fn gen_ready(m: LevelMapS) -> bool {
    &&& m.is_loaded()
    &&& m.floors[0].data.len() > 0
    &&& forall|fi: int|
        0 <= fi < m.floors.len() ==> grid_fits(
            #[trigger] m.floors[fi],
            m.floors[0].data[0].len() as int,
            m.floors[0].data.len() as int,
        )
}

/// Everything `generate` emits for a map and an origin, in order: floors,
/// then stairs, then walls.
pub open spec fn gen_spec(m: LevelMapS, o: V3S) -> Seq<PlacedPrimitiveS> {
    let w = m.floors[0].data[0].len() as int;
    let d = m.floors[0].data.len() as int;
    floors_prims(m.floors, w, d, o, m.floors.len() as int) + stairs_prims(
        m.stairs,
        m.stairs.len() as int,
    ) + walls_prims(m.walls, m.walls.len() as int)
}

/// Generation is deterministic: `generate` pins its output to `gen_spec`
/// of the map and origin, so a fixed input always yields the same
/// sequence, in order and in values.
pub proof fn lemma_generate_deterministic(
    m: LevelMapS,
    o: V3S,
    r1: Seq<PlacedPrimitiveS>,
    r2: Seq<PlacedPrimitiveS>,
)
    requires
        r1 == gen_spec(m, o),
        r2 == gen_spec(m, o),
    ensures
        r1 == r2,
{
}

// ------------------------------------------------------------------
// executable builders

/// `m + off + 1/2` for one tile axis.
fn tile_axis_coord(m: usize, off: &Scalar) -> (r: Coord)
    ensures
        r@ == tile_axis(m as int, off@),
{
    let a = Coord::from_usize(m);
    let b = Coord::from_scalar(off);
    proof {
        off.lemma_bounded();
        lemma_add_fits(a@, b@, 0x1_0000_0000_0000_0000, 0x1_0000_0000);
    }
    let c = coord_add(&a, &b);
    let hf = Coord::new(1, 2);
    proof {
        lemma_add_fits(c@, hf@, 0x2_0000_0000_0000_0000_0000_0000, 2);
    }
    coord_add(&c, &hf)
}

/// `v/2 + h + off` for a tile column's center height.
fn tile_height_coord(v: i32, h: i32, off: &Scalar) -> (r: Coord)
    ensures
        r@ == tile_height(v as int, h as int, off@),
{
    let a = Coord::from_i32(v);
    let two = Coord::new(2, 1);
    proof {
        lemma_mul_fits(a@, two@, 0x1_0000_0000, 2);
    }
    let q = coord_div_pos(&a, &two);
    let b = Coord::from_i32(h);
    proof {
        lemma_add_fits(q@, b@, 0x2_0000_0000, 0x1_0000_0000);
    }
    let c = coord_add(&q, &b);
    let d = Coord::from_scalar(off);
    proof {
        off.lemma_bounded();
        lemma_add_fits(c@, d@, 0x4_0000_0000_0000_0000, 0x1_0000_0000);
    }
    coord_add(&c, &d)
}

fn build_column(mx: usize, mz: usize, v: i32, h: i32, o: &V3) -> (p: PlacedPrimitive)
    ensures
        p@ == column_prim_s(mx as int, mz as int, v as int, h as int, o@),
{
    let x = tile_axis_coord(mx, &o.x);
    let y = tile_height_coord(v, h, &o.y);
    let z = tile_axis_coord(mz, &o.z);
    PlacedPrimitive {
        shape: PrimShape::Cuboid(
            C3 { x: Coord::new(1, 1), y: Coord::from_i32(v), z: Coord::new(1, 1) },
        ),
        translation: C3 { x, y, z },
        rotation: Rotation::Identity,
        material: MaterialHint::Light,
        visible_hint: true,
    }
}

fn build_slab(mx: usize, mz: usize, o: &V3) -> (p: PlacedPrimitive)
    ensures
        p@ == slab_prim_s(mx as int, mz as int, o@),
{
    let x = tile_axis_coord(mx, &o.x);
    let z = tile_axis_coord(mz, &o.z);
    PlacedPrimitive {
        shape: PrimShape::Cuboid(
            C3 { x: Coord::new(1, 1), y: Coord::new(1, 2), z: Coord::new(1, 1) },
        ),
        translation: C3 { x, y: Coord::new(-1, 4), z },
        rotation: Rotation::Identity,
        material: MaterialHint::Light,
        visible_hint: true,
    }
}

/// How many steps a stair with the given climbing extent quantizes into.
fn step_count(s: &Scalar) -> (n: u64)
    ensures
        n as int == steps_of(s@),
        n <= 0x1_8000_0000,
{
    let num = s.num();
    if num <= 0 {
        0
    } else {
        let den = s.den();
        proof {
            s.lemma_bounded();
        }
        let q: u64 = (num as u64) / den;
        proof {
            vstd::arithmetic::div_mod::lemma_fundamental_div_mod(num as int, den as int);
            vstd::arithmetic::div_mod::lemma_mod_bound(num as int, den as int);
            assert(q as int <= num as int) by (nonlinear_arith)
                requires
                    (den as int) * (q as int) <= num as int,
                    1 <= den as int,
                    0 <= q as int,
            ;
        }
        3 * q
    }
}

/// `k` steps never overrun three times the climbing extent's numerator.
proof fn lemma_steps_mul_bound(k: int, num: int, den: int)
    requires
        1 <= den,
        0 < num,
        1 <= k,
        k <= 3 * (num / den),
    ensures
        k * den <= 3 * num,
        k <= 3 * num,
{
    let q = num / den;
    vstd::arithmetic::div_mod::lemma_fundamental_div_mod(num, den);
    vstd::arithmetic::div_mod::lemma_mod_bound(num, den);
    assert(den * q <= num);
    assert(k * den <= 3 * num && k <= 3 * num) by (nonlinear_arith)
        requires
            1 <= den,
            1 <= k,
            k <= 3 * q,
            den * q <= num,
    ;
}

/// Raw magnitude bound for the rise term's numerator and denominator.
proof fn lemma_rise_bound_raw(k: int, rn: int, rd: int, un: int, ud: int, q: int)
    by (nonlinear_arith)
    requires
        1 <= q <= 6,
        1 <= k,
        -0x1_0000_0000 <= rn <= 0x1_0000_0000,
        1 <= rd <= 0x1_0000_0000,
        0 < un <= 0x1_0000_0000,
        1 <= ud <= 0x1_0000_0000,
        k * ud <= 3 * un,
    ensures
        -0x8_0000_0000_0000_0000 <= (k * rn) * ud <= 0x8_0000_0000_0000_0000,
        1 <= (q * rd) * un <= 0x8_0000_0000_0000_0000,
{
}

/// `k/q * rise/run`, the height term of a staircase step.
fn rise_coord(k: u64, q: u64, rise: &Scalar, run: &Scalar) -> (r: Coord)
    requires
        1 <= q <= 6,
        1 <= k,
        k <= 0x4_0000_0000,
        run@.num > 0,
        k as int * run@.den <= 3 * run@.num,
    ensures
        r@ == rise_term(k as int, q as int, rise@, run@),
        rat_bounded(r@, 0x8_0000_0000_0000_0000),
{
    let a = Coord::from_u64(k);
    let qq = Coord::new(q as i64, 1);
    proof {
        lemma_mul_fits(a@, qq@, 0x4_0000_0000, 6);
    }
    let t1 = coord_div_pos(&a, &qq);
    let rc = Coord::from_scalar(rise);
    proof {
        rise.lemma_bounded();
        lemma_mul_fits(t1@, rc@, 0x18_0000_0000, 0x1_0000_0000);
    }
    let t2 = coord_mul(&t1, &rc);
    let uc = Coord::from_scalar(run);
    proof {
        run.lemma_bounded();
        lemma_mul_fits(t2@, uc@, 0x18_0000_0000_0000_0000, 0x1_0000_0000);
    }
    let t3 = coord_div_pos(&t2, &uc);
    proof {
        lemma_rise_bound_raw(k as int, rise@.num, rise@.den, run@.num, run@.den, q as int);
    }
    t3
}

/// `(k-1)/3 + 1/6`, the advance of step `k` along the climbing axis.
fn advance_coord(k: u64) -> (r: Coord)
    requires
        1 <= k,
        k <= 0x4_0000_0000,
    ensures
        r@ == step_advance(k as int),
        rat_bounded(r@, 0x90_0000_0000),
{
    let a = Coord::from_u64(k - 1);
    let three = Coord::new(3, 1);
    proof {
        lemma_mul_fits(a@, three@, 0x4_0000_0000, 3);
    }
    let t = coord_div_pos(&a, &three);
    let sixth = Coord::new(1, 6);
    proof {
        lemma_add_fits(t@, sixth@, 0xC_0000_0000, 6);
    }
    coord_add(&t, &sixth)
}

/// Half of a scalar extent.
fn half_coord(s: &Scalar) -> (r: Coord)
    ensures
        r@ == s@.div_pos(rs(2)),
        rat_bounded(r@, 0x2_0000_0000),
{
    let a = Coord::from_scalar(s);
    let two = Coord::new(2, 1);
    proof {
        s.lemma_bounded();
        lemma_mul_fits(a@, two@, 0x1_0000_0000, 2);
    }
    coord_div_pos(&a, &two)
}

/// The sum of a translation component and a bounded offset component.
fn place_coord(t: &Scalar, off: &Coord) -> (r: Coord)
    requires
        off@.wf(),
        rat_bounded(off@, 0x8_0000_0000_0000_0000),
    ensures
        r@ == t@.add(off@),
{
    let a = Coord::from_scalar(t);
    proof {
        t.lemma_bounded();
        lemma_add_fits(a@, off@, 0x1_0000_0000, 0x8_0000_0000_0000_0000);
    }
    coord_add(&a, off)
}

fn build_step(s: &Stair, n: u64, k: u64) -> (p: PlacedPrimitive)
    requires
        n as int == steps_of(stair_axis(s@)),
        1 <= k <= n,
    ensures
        p@ == stair_step_prim(s@, n as int, k as int),
{
    let mirrored = match s.direction {
        Direction::PX => false,
        Direction::MX => true,
        Direction::PZ => false,
        Direction::MZ => true,
    };
    let along_x = match s.direction {
        Direction::PX => true,
        Direction::MX => true,
        Direction::PZ => false,
        Direction::MZ => false,
    };
    let run = if along_x {
        &s.scale.x
    } else {
        &s.scale.z
    };
    proof {
        assert(run@ == stair_axis(s@));
        assert(run@.num > 0);
        run.lemma_bounded();
        lemma_steps_mul_bound(k as int, run@.num, run@.den);
        lemma_steps_mul_bound(n as int, run@.num, run@.den);
    }
    let kk: u64 = if mirrored {
        n - k + 1
    } else {
        k
    };
    proof {
        lemma_steps_mul_bound(kk as int, run@.num, run@.den);
    }
    let rise6 = rise_coord(kk, 6, &s.scale.y, run);
    let rise3 = rise_coord(kk, 3, &s.scale.y, run);
    let adv = advance_coord(k);
    let cross = if along_x {
        half_coord(&s.scale.z)
    } else {
        half_coord(&s.scale.x)
    };
    let x = if along_x {
        place_coord(&s.translation.x, &adv)
    } else {
        place_coord(&s.translation.x, &cross)
    };
    let y = place_coord(&s.translation.y, &rise6);
    let z = if along_x {
        place_coord(&s.translation.z, &cross)
    } else {
        place_coord(&s.translation.z, &adv)
    };
    let scale = if along_x {
        C3 { x: Coord::new(1, 3), y: rise3, z: Coord::from_scalar(&s.scale.z) }
    } else {
        C3 { x: Coord::from_scalar(&s.scale.x), y: rise3, z: Coord::new(1, 3) }
    };
    PlacedPrimitive {
        shape: PrimShape::Cuboid(scale),
        translation: C3 { x, y, z },
        rotation: Rotation::Identity,
        material: MaterialHint::Light,
        visible_hint: true,
    }
}

fn build_wall(w: &Wall) -> (p: PlacedPrimitive)
    ensures
        p@ == wall_prim_s(w@),
{
    let sy2 = half_coord(&w.size.y);
    let hf = Coord::new(1, 2);
    proof {
        lemma_add_fits(sy2@, hf@, 0x2_0000_0000, 2);
    }
    let lift = coord_sub(&sy2, &hf);
    let sx2 = half_coord(&w.size.x);
    let nudge = Coord::new(-1, 100);
    let zero = Coord::new(0, 1);
    let off_x = match w.direction {
        Direction::PX => nudge,
        Direction::MX => zero,
        Direction::PZ => sx2,
        Direction::MZ => sx2,
    };
    let off_z = match w.direction {
        Direction::PX => sx2,
        Direction::MX => sx2,
        Direction::PZ => nudge,
        Direction::MZ => zero,
    };
    proof {
        assert(rat_bounded(off_x@, 0x8_0000_0000_0000_0000));
        assert(rat_bounded(lift@, 0x8_0000_0000_0000_0000));
        assert(rat_bounded(off_z@, 0x8_0000_0000_0000_0000));
    }
    let x = place_coord(&w.translation.x, &off_x);
    let y = place_coord(&w.translation.y, &lift);
    let z = place_coord(&w.translation.z, &off_z);
    PlacedPrimitive {
        shape: PrimShape::Quad(
            C2 { x: Coord::from_scalar(&w.size.x), y: Coord::from_scalar(&w.size.y) },
        ),
        translation: C3 { x, y, z },
        rotation: match w.direction {
            Direction::PX => Rotation::YawQuarterClockwise,
            Direction::MX => Rotation::YawQuarterClockwise,
            Direction::PZ => Rotation::YawHalfTurn,
            Direction::MZ => Rotation::YawHalfTurn,
        },
        material: match w.direction {
            Direction::PX => MaterialHint::Black,
            Direction::MX => MaterialHint::Light,
            Direction::PZ => MaterialHint::Black,
            Direction::MZ => MaterialHint::Light,
        },
        visible_hint: match w.direction {
            Direction::MZ => false,
            _ => true,
        },
    }
}

/// Whether one floor grid covers the shared dimensions.
fn grid_fits_check(f: &crate::model::Floor, w: usize, d: usize) -> (r: bool)
    ensures
        r == grid_fits(f@, w as int, d as int),
{
    if f.data.len() < d {
        return false;
    }
    let mut j: usize = 0;
    while j < d
        invariant
            j <= d,
            d <= f.data@.len(),
            forall|jj: int| 0 <= jj < j ==> (#[trigger] f@.data[jj]).len() >= w as int,
        decreases d - j,
    {
        if f.data[j].len() < w {
            proof {
                assert(f@.data[j as int].len() < w as int);
            }
            return false;
        }
        j += 1;
    }
    true
}

/// Whether every floor grid covers the shared dimensions.
fn grids_fit_check(map: &LevelMap, w: usize, d: usize) -> (r: bool)
    ensures
        r == (forall|fi: int|
            0 <= fi < map@.floors.len() ==> grid_fits(
                #[trigger] map@.floors[fi],
                w as int,
                d as int,
            )),
{
    let nf: usize = map.floors.len();
    let mut fi: usize = 0;
    while fi < nf
        invariant
            nf == map.floors@.len(),
            fi <= nf,
            forall|k: int| 0 <= k < fi ==> grid_fits(#[trigger] map@.floors[k], w as int, d as int),
        decreases nf - fi,
    {
        if !grid_fits_check(&map.floors[fi], w, d) {
            proof {
                assert(map@.floors[fi as int] == map.floors@[fi as int]@);
            }
            return false;
        }
        fi += 1;
    }
    true
}

/// Expands a map and an origin into the full ordered primitive list.
///
/// Succeeds exactly on the inputs `gen_ready` accepts; then the output
/// sequence equals `gen_spec` of the inputs, which pins order and values
/// completely. An unloaded or dimension-incompatible map is refused with
/// a precondition error instead.
#[verifier::loop_isolation(false)]
pub fn generate(map: &LevelMap, origin: &Position) -> (r: Result<Vec<PlacedPrimitive>, GenError>)
    ensures
        r is Ok <==> gen_ready(map@),
        (r matches Ok(v) ==> prims_view(v@) == gen_spec(map@, origin@)),
        (r matches Err(e) ==> e == GenError::Precondition),
{
    if !map.is_loaded() {
        return Err(GenError::Precondition);
    }
    let d: usize = map.depth();
    if d == 0 {
        return Err(GenError::Precondition);
    }
    let w: usize = map.width();
    if !grids_fit_check(map, w, d) {
        return Err(GenError::Precondition);
    }
    let ghost o = origin@;
    let ghost fs = map@.floors;
    let mut out: Vec<PlacedPrimitive> = Vec::new();
    let nf: usize = map.floors.len();
    let mut fi: usize = 0;
    while fi < nf
        invariant
            fi <= nf,
            prims_view(out@) == floors_prims(fs, w as int, d as int, o, fi as int),
        decreases nf - fi,
    {
        let floor = &map.floors[fi];
        proof {
            assert(floor@ == fs[fi as int]);
            assert(grid_fits(fs[fi as int], w as int, d as int));
        }
        let h: i32 = floor.height;
        let mut i: usize = 0;
        while i < w
            invariant
                i <= w,
                fi < nf,
                prims_view(out@) == floors_prims(fs, w as int, d as int, o, fi as int)
                    + cols_prims(floor@, w as int, d as int, o, i as int),
            decreases w - i,
        {
            let mut j: usize = 0;
            while j < d
                invariant
                    j <= d,
                    i < w,
                    fi < nf,
                    prims_view(out@) == floors_prims(fs, w as int, d as int, o, fi as int)
                        + cols_prims(floor@, w as int, d as int, o, i as int) + col_prims(
                        floor@,
                        w as int,
                        d as int,
                        o,
                        i as int,
                        j as int,
                    ),
                decreases d - j,
            {
                let ghost before = prims_view(out@);
                let ghost cell = cell_prims(floor@, w as int, d as int, o, i as int, j as int);
                let v: i32 = floor.data[j][i];
                proof {
                    assert(floor@.data[j as int] == crate::model::row_view(
                        floor.data@[j as int]@,
                    ));
                    assert(v as int == floor@.data[j as int][i as int]);
                }
                if v != -1 {
                    let mx: usize = w - 1 - i;
                    let mz: usize = d - 1 - j;
                    if v != 0 {
                        let p = build_column(mx, mz, v, h, &origin.v);
                        proof {
                            lemma_prims_view_push(out@, p);
                        }
                        out.push(p);
                    }
                    let p2 = build_slab(mx, mz, &origin.v);
                    proof {
                        lemma_prims_view_push(out@, p2);
                    }
                    out.push(p2);
                    proof {
                        assert(prims_view(out@) =~= before + cell);
                    }
                } else {
                    proof {
                        assert(prims_view(out@) =~= before + cell);
                    }
                }
                proof {
                    assert(col_prims(floor@, w as int, d as int, o, i as int, j as int + 1)
                        == col_prims(floor@, w as int, d as int, o, i as int, j as int) + cell);
                    assert(prims_view(out@) =~= floors_prims(fs, w as int, d as int, o, fi as int)
                        + cols_prims(floor@, w as int, d as int, o, i as int) + col_prims(
                        floor@,
                        w as int,
                        d as int,
                        o,
                        i as int,
                        j as int + 1,
                    ));
                }
                j += 1;
            }
            proof {
                assert(cols_prims(floor@, w as int, d as int, o, i as int + 1) == cols_prims(
                    floor@,
                    w as int,
                    d as int,
                    o,
                    i as int,
                ) + col_prims(floor@, w as int, d as int, o, i as int, d as int));
                assert(prims_view(out@) =~= floors_prims(fs, w as int, d as int, o, fi as int)
                    + cols_prims(floor@, w as int, d as int, o, i as int + 1));
            }
            i += 1;
        }
        proof {
            assert(floors_prims(fs, w as int, d as int, o, fi as int + 1) == floors_prims(
                fs,
                w as int,
                d as int,
                o,
                fi as int,
            ) + floor_prims(fs[fi as int], w as int, d as int, o));
            assert(prims_view(out@) =~= floors_prims(fs, w as int, d as int, o, fi as int + 1));
        }
        fi += 1;
    }
    let ghost floors_all = floors_prims(fs, w as int, d as int, o, fs.len() as int);
    let ghost ss = map@.stairs;
    let ns: usize = map.stairs.len();
    let mut si: usize = 0;
    while si < ns
        invariant
            si <= ns,
            prims_view(out@) == floors_all + stairs_prims(ss, si as int),
        decreases ns - si,
    {
        let stair = &map.stairs[si];
        proof {
            assert(stair@ == ss[si as int]);
        }
        let n: u64 = match stair.direction {
            Direction::PX => step_count(&stair.scale.x),
            Direction::MX => step_count(&stair.scale.x),
            Direction::PZ => step_count(&stair.scale.z),
            Direction::MZ => step_count(&stair.scale.z),
        };
        proof {
            assert(n as int == steps_of(stair_axis(stair@)));
        }
        let mut k: u64 = 1;
        while k <= n
            invariant
                si < ns,
                1 <= k,
                k <= n + 1,
                n as int == steps_of(stair_axis(stair@)),
                prims_view(out@) == floors_all + stairs_prims(ss, si as int) + stair_steps(
                    stair@,
                    n as int,
                    k as int - 1,
                ),
            decreases n + 1 - k,
        {
            let p = build_step(stair, n, k);
            proof {
                lemma_prims_view_push(out@, p);
                assert(stair_steps(stair@, n as int, k as int) == stair_steps(
                    stair@,
                    n as int,
                    k as int - 1,
                ).push(stair_step_prim(stair@, n as int, k as int)));
                assert(prims_view(out@).push(p@) =~= floors_all + stairs_prims(ss, si as int)
                    + stair_steps(stair@, n as int, k as int));
            }
            out.push(p);
            k += 1;
        }
        proof {
            assert(stairs_prims(ss, si as int + 1) == stairs_prims(ss, si as int) + stair_prims(
                ss[si as int],
            ));
            assert(stair_prims(stair@) == stair_steps(
                stair@,
                steps_of(stair_axis(stair@)),
                steps_of(stair_axis(stair@)),
            ));
            assert(prims_view(out@) =~= floors_all + stairs_prims(ss, si as int + 1));
        }
        si += 1;
    }
    let ghost stairs_all = stairs_prims(ss, ss.len() as int);
    let ghost ws = map@.walls;
    let nw: usize = map.walls.len();
    let mut wi: usize = 0;
    while wi < nw
        invariant
            wi <= nw,
            prims_view(out@) == floors_all + stairs_all + walls_prims(ws, wi as int),
        decreases nw - wi,
    {
        let p = build_wall(&map.walls[wi]);
        proof {
            assert(map.walls@[wi as int]@ == ws[wi as int]);
            lemma_prims_view_push(out@, p);
            assert(prims_view(out@).push(p@) =~= floors_all + stairs_all + walls_prims(
                ws,
                wi as int + 1,
            ));
        }
        out.push(p);
        wi += 1;
    }
    proof {
        assert(prims_view(out@) =~= gen_spec(map@, origin@));
    }
    Ok(out)
}

} // verus!
