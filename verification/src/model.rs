//! The validated map model: floors, stairs, walls, positions.

use vstd::prelude::*;
use crate::rat::{RatS, Scalar};

verus! {

/// Axis-aligned cardinal direction a stair climbs along or a wall faces.
#[derive(Clone, Copy, PartialEq, Eq, Structural, Debug)]
pub enum Direction {
    PX,
    MX,
    PZ,
    MZ,
}

/// Mathematical value of a 3-vector of scalars.
pub ghost struct V3S {
    pub x: RatS,
    pub y: RatS,
    pub z: RatS,
}

/// Mathematical value of a 2-vector of scalars.
pub ghost struct V2S {
    pub x: RatS,
    pub y: RatS,
}

impl V3S {
    pub open spec fn zero() -> V3S {
        V3S { x: RatS::from_int(0), y: RatS::from_int(0), z: RatS::from_int(0) }
    }
}

impl V2S {
    pub open spec fn zero() -> V2S {
        V2S { x: RatS::from_int(0), y: RatS::from_int(0) }
    }
}

/// A 3-vector of bounded scalars.
#[derive(Clone, Copy, PartialEq, Eq, Structural, Debug)]
pub struct V3 {
    pub x: Scalar,
    pub y: Scalar,
    pub z: Scalar,
}

impl View for V3 {
    type V = V3S;

    open spec fn view(&self) -> V3S {
        V3S { x: self.x@, y: self.y@, z: self.z@ }
    }
}

impl V3 {
    pub fn new(x: Scalar, y: Scalar, z: Scalar) -> (r: V3)
        ensures
            r@ == (V3S { x: x@, y: y@, z: z@ }),
    {
        V3 { x, y, z }
    }

    pub fn zero() -> (r: V3)
        ensures
            r@ == V3S::zero(),
    {
        V3 { x: Scalar::zero(), y: Scalar::zero(), z: Scalar::zero() }
    }
}

/// A 2-vector of bounded scalars.
#[derive(Clone, Copy, PartialEq, Eq, Structural, Debug)]
pub struct V2 {
    pub x: Scalar,
    pub y: Scalar,
}

impl View for V2 {
    type V = V2S;

    open spec fn view(&self) -> V2S {
        V2S { x: self.x@, y: self.y@ }
    }
}

impl V2 {
    pub fn new(x: Scalar, y: Scalar) -> (r: V2)
        ensures
            r@ == (V2S { x: x@, y: y@ }),
    {
        V2 { x, y }
    }

    pub fn zero() -> (r: V2)
        ensures
            r@ == V2S::zero(),
    {
        V2 { x: Scalar::zero(), y: Scalar::zero() }
    }
}

/// World-space origin offset applied to an entire map's floors.
#[derive(Clone, Copy, PartialEq, Eq, Structural, Debug)]
pub struct Position {
    pub v: V3,
}

impl View for Position {
    type V = V3S;

    open spec fn view(&self) -> V3S {
        self.v@
    }
}

impl Position {
    pub fn new(v: V3) -> (r: Position)
        ensures
            r@ == v@,
    {
        Position { v }
    }

    pub fn zero() -> (r: Position)
        ensures
            r@ == V3S::zero(),
    {
        Position { v: V3::zero() }
    }
}

/// Mathematical value of a floor: base height plus a grid of cell values.
#[verifier::ext_equal]
pub ghost struct FloorS {
    pub height: int,
    pub data: Seq<Seq<int>>,
}

impl FloorS {
    /// All rows have the same length.
    pub open spec fn rectangular(self) -> bool {
        forall|j: int|
            0 <= j < self.data.len() ==> (#[trigger] self.data[j]).len() == self.data[0].len()
    }
}

/// A floor: a vertical offset plus a 2-D grid of cell values. A cell is
/// `-1` (no tile), `0` (base slab only) or a tile column height.
#[derive(Clone, PartialEq, Eq, Debug)]
pub struct Floor {
    pub height: i32,
    pub data: Vec<Vec<i32>>,
}

/// The mathematical row a vector of cells denotes.
pub open spec fn row_view(row: Seq<i32>) -> Seq<int> {
    row.map_values(|c: i32| c as int)
}

/// The mathematical grid a vector of rows denotes.
pub open spec fn grid_view(data: Seq<Vec<i32>>) -> Seq<Seq<int>> {
    Seq::new(data.len(), |j: int| row_view(data[j]@))
}

pub proof fn lemma_grid_view_push(data: Seq<Vec<i32>>, row: Vec<i32>)
    ensures
        grid_view(data.push(row)) =~= grid_view(data).push(row_view(row@)),
{
}

impl View for Floor {
    type V = FloorS;

    open spec fn view(&self) -> FloorS {
        FloorS { height: self.height as int, data: grid_view(self.data@) }
    }
}

impl Floor {
    pub fn new() -> (r: Floor)
        ensures
            r@.height == 0,
            r@.data == Seq::<Seq<int>>::empty(),
    {
        let r = Floor { height: 0, data: Vec::new() };
        proof {
            assert(r@.data =~= Seq::<Seq<int>>::empty());
        }
        r
    }
}

/// Mathematical value of a stair.
pub ghost struct StairS {
    pub translation: V3S,
    pub direction: Direction,
    pub scale: V3S,
}

/// A stair: a ramp of discrete steps climbing along `direction`, placed at
/// `translation`, with `scale` giving width, rise and depth.
#[derive(Clone, Copy, PartialEq, Eq, Structural, Debug)]
pub struct Stair {
    pub translation: V3,
    pub direction: Direction,
    pub scale: V3,
}

impl View for Stair {
    type V = StairS;

    open spec fn view(&self) -> StairS {
        StairS { translation: self.translation@, direction: self.direction, scale: self.scale@ }
    }
}

impl Stair {
    pub fn new() -> (r: Stair)
        ensures
            r@ == (StairS {
                translation: V3S::zero(),
                direction: Direction::PZ,
                scale: V3S::zero(),
            }),
    {
        Stair { translation: V3::zero(), direction: Direction::PZ, scale: V3::zero() }
    }
}

/// Mathematical value of a wall.
pub ghost struct WallS {
    pub translation: V3S,
    pub direction: Direction,
    pub size: V2S,
}

/// A wall: a single flat panel at `translation`, facing `direction`, with
/// `size` giving width and height.
#[derive(Clone, Copy, PartialEq, Eq, Structural, Debug)]
pub struct Wall {
    pub translation: V3,
    pub direction: Direction,
    pub size: V2,
}

impl View for Wall {
    type V = WallS;

    open spec fn view(&self) -> WallS {
        WallS { translation: self.translation@, direction: self.direction, size: self.size@ }
    }
}

impl Wall {
    pub fn new() -> (r: Wall)
        ensures
            r@ == (WallS {
                translation: V3S::zero(),
                direction: Direction::PZ,
                size: V2S::zero(),
            }),
    {
        Wall { translation: V3::zero(), direction: Direction::PZ, size: V2::zero() }
    }
}

/// Mathematical value of a map.
#[verifier::ext_equal]
pub ghost struct LevelMapS {
    pub floors: Seq<FloorS>,
    pub stairs: Seq<StairS>,
    pub walls: Seq<WallS>,
}

impl LevelMapS {
    pub open spec fn empty() -> LevelMapS {
        LevelMapS { floors: Seq::empty(), stairs: Seq::empty(), walls: Seq::empty() }
    }

    pub open spec fn is_loaded(self) -> bool {
        self.floors.len() > 0
    }
}

/// Aggregate of everything a level description holds.
#[derive(Clone, PartialEq, Eq, Debug)]
pub struct LevelMap {
    pub floors: Vec<Floor>,
    pub stairs: Vec<Stair>,
    pub walls: Vec<Wall>,
}

pub open spec fn floors_view(s: Seq<Floor>) -> Seq<FloorS> {
    s.map_values(|f: Floor| f@)
}

pub open spec fn stairs_view(s: Seq<Stair>) -> Seq<StairS> {
    s.map_values(|t: Stair| t@)
}

pub open spec fn walls_view(s: Seq<Wall>) -> Seq<WallS> {
    s.map_values(|w: Wall| w@)
}

pub proof fn lemma_floors_view_push(s: Seq<Floor>, f: Floor)
    ensures
        floors_view(s.push(f)) =~= floors_view(s).push(f@),
{
}

pub proof fn lemma_stairs_view_push(s: Seq<Stair>, t: Stair)
    ensures
        stairs_view(s.push(t)) =~= stairs_view(s).push(t@),
{
}

pub proof fn lemma_walls_view_push(s: Seq<Wall>, w: Wall)
    ensures
        walls_view(s.push(w)) =~= walls_view(s).push(w@),
{
}

impl View for LevelMap {
    type V = LevelMapS;

    open spec fn view(&self) -> LevelMapS {
        LevelMapS {
            floors: floors_view(self.floors@),
            stairs: stairs_view(self.stairs@),
            walls: walls_view(self.walls@),
        }
    }
}

impl LevelMap {
    pub fn new() -> (r: LevelMap)
        ensures
            r@ =~~= LevelMapS::empty(),
    {
        LevelMap { floors: Vec::new(), stairs: Vec::new(), walls: Vec::new() }
    }

    /// Number of grid columns, read from the first floor.
    pub fn width(&self) -> (r: usize)
        requires
            self@.is_loaded(),
            self@.floors[0].data.len() > 0,
        ensures
            r as int == self@.floors[0].data[0].len(),
    {
        self.floors[0].data[0].len()
    }

    /// Number of grid rows, read from the first floor.
    pub fn depth(&self) -> (r: usize)
        requires
            self@.is_loaded(),
        ensures
            r as int == self@.floors[0].data.len(),
    {
        self.floors[0].data.len()
    }

    pub fn is_loaded(&self) -> (r: bool)
        ensures
            r == self@.is_loaded(),
    {
        self.floors.len() > 0
    }

    /// Resets all three sequences together.
    pub fn clear(&mut self)
        ensures
            final(self)@ =~~= LevelMapS::empty(),
    {
        self.floors = Vec::new();
        self.stairs = Vec::new();
        self.walls = Vec::new();
    }
}

} // verus!
