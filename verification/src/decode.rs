//! The map decoder: walks an untyped, keyed level description and produces
//! a validated `LevelMap` plus an origin `Position`.
//!
//! Recognized top-level keys are `position`, `floors`, `stairs` and
//! `walls`; unrecognized keys are ignored and absent keys leave the
//! corresponding field at its default. Any arity or type mismatch rejects
//! the whole call with a shape error, so a caller never commits a partial
//! result.

use vstd::prelude::*;
use crate::model::{
    Direction, FloorS, Floor, LevelMap, LevelMapS, Position, StairS, Stair, V2, V2S, V3, V3S,
    WallS, Wall, floors_view, grid_view, lemma_floors_view_push, lemma_grid_view_push,
    lemma_stairs_view_push, lemma_walls_view_push, row_view, stairs_view, walls_view,
};
use crate::rat::{RatS, Scalar};
use crate::value::{Value, ValueS, entries_view, vals_view};

verus! {

/// Why a decode was rejected.
#[derive(Clone, Copy, PartialEq, Eq, Structural, Debug)]
pub enum DecodeError {
    /// The input value has the wrong arity or type at some key.
    Shape,
}

pub open spec fn vs_is_num(v: ValueS) -> bool {
    match v {
        ValueS::Num(_) => true,
        _ => false,
    }
}

pub open spec fn vs_num(v: ValueS) -> RatS {
    match v {
        ValueS::Num(r) => r,
        _ => arbitrary(),
    }
}

/// An integer leaf: a number written with denominator one.
pub open spec fn vs_is_int(v: ValueS) -> bool {
    vs_is_num(v) && vs_num(v).den == 1
}

/// A numeric array of at least three elements, read as a 3-vector.
pub open spec fn vec3_of(v: ValueS) -> Option<V3S> {
    match v {
        ValueS::Arr(items) => if items.len() >= 3 && (forall|i: int|
            0 <= i < items.len() ==> vs_is_num(#[trigger] items[i])) {
            Some(V3S { x: vs_num(items[0]), y: vs_num(items[1]), z: vs_num(items[2]) })
        } else {
            None
        },
        _ => None,
    }
}

/// A numeric array of at least two elements, read as a 2-vector.
pub open spec fn vec2_of(v: ValueS) -> Option<V2S> {
    match v {
        ValueS::Arr(items) => if items.len() >= 2 && (forall|i: int|
            0 <= i < items.len() ==> vs_is_num(#[trigger] items[i])) {
            Some(V2S { x: vs_num(items[0]), y: vs_num(items[1]) })
        } else {
            None
        },
        _ => None,
    }
}

/// Direction strings are matched case-sensitively; any unrecognized
/// string, `"PZ"` itself included, falls back to the default `PZ`.
pub open spec fn dir_of_str(s: Seq<char>) -> Direction {
    if s == "PX"@ {
        Direction::PX
    } else if s == "MX"@ {
        Direction::MX
    } else if s == "MZ"@ {
        Direction::MZ
    } else {
        Direction::PZ
    }
}

/// An array of integer leaves, read as one grid row.
pub open spec fn row_of(v: ValueS) -> Option<Seq<int>> {
    match v {
        ValueS::Arr(cells) => if forall|i: int|
            0 <= i < cells.len() ==> vs_is_int(#[trigger] cells[i]) {
            Some(Seq::new(cells.len(), |i: int| vs_num(cells[i]).num))
        } else {
            None
        },
        _ => None,
    }
}

/// All rows have the length of the first row.
pub open spec fn rows_rectangular(rows: Seq<Seq<int>>) -> bool {
    forall|j: int| 0 <= j < rows.len() ==> (#[trigger] rows[j]).len() == rows[0].len()
}

/// Parses the first `n` elements of a grid array as rows.
pub open spec fn grid_fold(items: Seq<ValueS>, n: int) -> Option<Seq<Seq<int>>>
    decreases n,
{
    if n <= 0 {
        Some(Seq::empty())
    } else {
        match grid_fold(items, n - 1) {
            None => None,
            Some(rows) => match row_of(items[n - 1]) {
                None => None,
                Some(r) => Some(rows.push(r)),
            },
        }
    }
}

pub proof fn lemma_grid_fold_none(items: Seq<ValueS>, i: int, j: int)
    requires
        grid_fold(items, i) is None,
        0 <= i <= j,
    ensures
        grid_fold(items, j) is None,
    decreases j,
{
    if i < j {
        lemma_grid_fold_none(items, i, j - 1);
    }
}

/// An array of rows of equal length, read as a floor grid. A jagged
/// source is rejected because the generator relies on uniform width.
pub open spec fn grid_of(v: ValueS) -> Option<Seq<Seq<int>>> {
    match v {
        ValueS::Arr(items) => match grid_fold(items, items.len() as int) {
            Some(rows) => if rows_rectangular(rows) {
                Some(rows)
            } else {
                None
            },
            None => None,
        },
        _ => None,
    }
}

pub open spec fn floor_default() -> FloorS {
    FloorS { height: 0, data: Seq::empty() }
}

/// One keyed field of a floor description: `height` must be an integer,
/// `data` a rectangular grid; other keys are ignored.
pub open spec fn floor_step(st: FloorS, entry: (Seq<char>, ValueS)) -> Option<FloorS> {
    if entry.0 == "height"@ {
        if vs_is_int(entry.1) {
            Some(FloorS { height: vs_num(entry.1).num, ..st })
        } else {
            None
        }
    } else if entry.0 == "data"@ {
        match grid_of(entry.1) {
            Some(g) => Some(FloorS { data: g, ..st }),
            None => None,
        }
    } else {
        Some(st)
    }
}

pub open spec fn floor_fold(entries: Seq<(Seq<char>, ValueS)>, n: int) -> Option<FloorS>
    decreases n,
{
    if n <= 0 {
        Some(floor_default())
    } else {
        match floor_fold(entries, n - 1) {
            None => None,
            Some(st) => floor_step(st, entries[n - 1]),
        }
    }
}

pub proof fn lemma_floor_fold_none(entries: Seq<(Seq<char>, ValueS)>, i: int, j: int)
    requires
        floor_fold(entries, i) is None,
        0 <= i <= j,
    ensures
        floor_fold(entries, j) is None,
    decreases j,
{
    if i < j {
        lemma_floor_fold_none(entries, i, j - 1);
    }
}

pub open spec fn floor_of(v: ValueS) -> Option<FloorS> {
    match v {
        ValueS::Obj(entries) => floor_fold(entries, entries.len() as int),
        _ => None,
    }
}

/// Parses the first `n` elements of a floors array, appending to `init`.
pub open spec fn floors_fold(init: Seq<FloorS>, items: Seq<ValueS>, n: int) -> Option<
    Seq<FloorS>,
>
    decreases n,
{
    if n <= 0 {
        Some(init)
    } else {
        match floors_fold(init, items, n - 1) {
            None => None,
            Some(fs) => match floor_of(items[n - 1]) {
                None => None,
                Some(f) => Some(fs.push(f)),
            },
        }
    }
}

pub proof fn lemma_floors_fold_none(init: Seq<FloorS>, items: Seq<ValueS>, i: int, j: int)
    requires
        floors_fold(init, items, i) is None,
        0 <= i <= j,
    ensures
        floors_fold(init, items, j) is None,
    decreases j,
{
    if i < j {
        lemma_floors_fold_none(init, items, i, j - 1);
    }
}

pub open spec fn stair_default() -> StairS {
    StairS { translation: V3S::zero(), direction: Direction::PZ, scale: V3S::zero() }
}

/// One keyed field of a stair description; other keys are ignored.
pub open spec fn stair_step(st: StairS, entry: (Seq<char>, ValueS)) -> Option<StairS> {
    if entry.0 == "translation"@ {
        match vec3_of(entry.1) {
            Some(t) => Some(StairS { translation: t, ..st }),
            None => None,
        }
    } else if entry.0 == "direction"@ {
        match entry.1 {
            ValueS::Str(s) => Some(StairS { direction: dir_of_str(s), ..st }),
            _ => None,
        }
    } else if entry.0 == "scale"@ {
        match vec3_of(entry.1) {
            Some(t) => Some(StairS { scale: t, ..st }),
            None => None,
        }
    } else {
        Some(st)
    }
}

pub open spec fn stair_fold(entries: Seq<(Seq<char>, ValueS)>, n: int) -> Option<StairS>
    decreases n,
{
    if n <= 0 {
        Some(stair_default())
    } else {
        match stair_fold(entries, n - 1) {
            None => None,
            Some(st) => stair_step(st, entries[n - 1]),
        }
    }
}

pub proof fn lemma_stair_fold_none(entries: Seq<(Seq<char>, ValueS)>, i: int, j: int)
    requires
        stair_fold(entries, i) is None,
        0 <= i <= j,
    ensures
        stair_fold(entries, j) is None,
    decreases j,
{
    if i < j {
        lemma_stair_fold_none(entries, i, j - 1);
    }
}

pub open spec fn stair_of(v: ValueS) -> Option<StairS> {
    match v {
        ValueS::Obj(entries) => stair_fold(entries, entries.len() as int),
        _ => None,
    }
}

pub open spec fn stairs_fold(init: Seq<StairS>, items: Seq<ValueS>, n: int) -> Option<
    Seq<StairS>,
>
    decreases n,
{
    if n <= 0 {
        Some(init)
    } else {
        match stairs_fold(init, items, n - 1) {
            None => None,
            Some(ss) => match stair_of(items[n - 1]) {
                None => None,
                Some(s) => Some(ss.push(s)),
            },
        }
    }
}

pub proof fn lemma_stairs_fold_none(init: Seq<StairS>, items: Seq<ValueS>, i: int, j: int)
    requires
        stairs_fold(init, items, i) is None,
        0 <= i <= j,
    ensures
        stairs_fold(init, items, j) is None,
    decreases j,
{
    if i < j {
        lemma_stairs_fold_none(init, items, i, j - 1);
    }
}

pub open spec fn wall_default() -> WallS {
    WallS { translation: V3S::zero(), direction: Direction::PZ, size: V2S::zero() }
}

/// One keyed field of a wall description; other keys are ignored.
pub open spec fn wall_step(st: WallS, entry: (Seq<char>, ValueS)) -> Option<WallS> {
    if entry.0 == "translation"@ {
        match vec3_of(entry.1) {
            Some(t) => Some(WallS { translation: t, ..st }),
            None => None,
        }
    } else if entry.0 == "direction"@ {
        match entry.1 {
            ValueS::Str(s) => Some(WallS { direction: dir_of_str(s), ..st }),
            _ => None,
        }
    } else if entry.0 == "size"@ {
        match vec2_of(entry.1) {
            Some(t) => Some(WallS { size: t, ..st }),
            None => None,
        }
    } else {
        Some(st)
    }
}

pub open spec fn wall_fold(entries: Seq<(Seq<char>, ValueS)>, n: int) -> Option<WallS>
    decreases n,
{
    if n <= 0 {
        Some(wall_default())
    } else {
        match wall_fold(entries, n - 1) {
            None => None,
            Some(st) => wall_step(st, entries[n - 1]),
        }
    }
}

pub proof fn lemma_wall_fold_none(entries: Seq<(Seq<char>, ValueS)>, i: int, j: int)
    requires
        wall_fold(entries, i) is None,
        0 <= i <= j,
    ensures
        wall_fold(entries, j) is None,
    decreases j,
{
    if i < j {
        lemma_wall_fold_none(entries, i, j - 1);
    }
}

pub open spec fn wall_of(v: ValueS) -> Option<WallS> {
    match v {
        ValueS::Obj(entries) => wall_fold(entries, entries.len() as int),
        _ => None,
    }
}

pub open spec fn walls_fold(init: Seq<WallS>, items: Seq<ValueS>, n: int) -> Option<Seq<WallS>>
    decreases n,
{
    if n <= 0 {
        Some(init)
    } else {
        match walls_fold(init, items, n - 1) {
            None => None,
            Some(ws) => match wall_of(items[n - 1]) {
                None => None,
                Some(w) => Some(ws.push(w)),
            },
        }
    }
}

pub proof fn lemma_walls_fold_none(init: Seq<WallS>, items: Seq<ValueS>, i: int, j: int)
    requires
        walls_fold(init, items, i) is None,
        0 <= i <= j,
    ensures
        walls_fold(init, items, j) is None,
    decreases j,
{
    if i < j {
        lemma_walls_fold_none(init, items, i, j - 1);
    }
}

/// Decoder state: the map being filled and the origin position.
#[verifier::ext_equal]
pub ghost struct DecStateS {
    pub map: LevelMapS,
    pub pos: V3S,
}

pub open spec fn dec_init() -> DecStateS {
    DecStateS { map: LevelMapS::empty(), pos: V3S::zero() }
}

/// One recognized top-level key. A repeated `position` key is overwritten;
/// repeated `floors`, `stairs` or `walls` keys append, in input order.
pub open spec fn top_step(st: DecStateS, entry: (Seq<char>, ValueS)) -> Option<DecStateS> {
    if entry.0 == "position"@ {
        match vec3_of(entry.1) {
            Some(p) => Some(DecStateS { pos: p, ..st }),
            None => None,
        }
    } else if entry.0 == "floors"@ {
        match entry.1 {
            ValueS::Arr(items) => match floors_fold(st.map.floors, items, items.len() as int) {
                Some(fs) => Some(DecStateS { map: LevelMapS { floors: fs, ..st.map }, ..st }),
                None => None,
            },
            _ => None,
        }
    } else if entry.0 == "stairs"@ {
        match entry.1 {
            ValueS::Arr(items) => match stairs_fold(st.map.stairs, items, items.len() as int) {
                Some(ss) => Some(DecStateS { map: LevelMapS { stairs: ss, ..st.map }, ..st }),
                None => None,
            },
            _ => None,
        }
    } else if entry.0 == "walls"@ {
        match entry.1 {
            ValueS::Arr(items) => match walls_fold(st.map.walls, items, items.len() as int) {
                Some(ws) => Some(DecStateS { map: LevelMapS { walls: ws, ..st.map }, ..st }),
                None => None,
            },
            _ => None,
        }
    } else {
        Some(st)
    }
}

pub open spec fn top_fold(entries: Seq<(Seq<char>, ValueS)>, n: int) -> Option<DecStateS>
    decreases n,
{
    if n <= 0 {
        Some(dec_init())
    } else {
        match top_fold(entries, n - 1) {
            None => None,
            Some(st) => top_step(st, entries[n - 1]),
        }
    }
}

pub proof fn lemma_top_fold_none(entries: Seq<(Seq<char>, ValueS)>, i: int, j: int)
    requires
        top_fold(entries, i) is None,
        0 <= i <= j,
    ensures
        top_fold(entries, j) is None,
    decreases j,
{
    if i < j {
        lemma_top_fold_none(entries, i, j - 1);
    }
}

/// What `decode` returns: the map and position decoded from `v`, or
/// nothing exactly when `v` has a shape error.
pub open spec fn spec_decode(v: ValueS) -> Option<(LevelMapS, V3S)> {
    match v {
        ValueS::Obj(entries) => match top_fold(entries, entries.len() as int) {
            Some(st) => Some((st.map, st.pos)),
            None => None,
        },
        _ => None,
    }
}

/// Decoding is pure: `decode` pins its result to `spec_decode` of the
/// input, so two calls on identical input yield structurally equal maps
/// and positions.
pub proof fn lemma_decode_deterministic(
    v: ValueS,
    r1: Option<(LevelMapS, V3S)>,
    r2: Option<(LevelMapS, V3S)>,
)
    requires
        r1 == spec_decode(v),
        r2 == spec_decode(v),
    ensures
        r1 == r2,
{
}

/// Matches a direction string, defaulting every unrecognized string,
/// lowercase variants included, to `PZ`.
fn parse_dir(s: &String) -> (d: Direction)
    ensures
        d == dir_of_str(s@),
{
    if *s == String::from_str("PX") {
        Direction::PX
    } else if *s == String::from_str("MX") {
        Direction::MX
    } else if *s == String::from_str("MZ") {
        Direction::MZ
    } else {
        Direction::PZ
    }
}

fn parse_vec3(v: &Value) -> (r: Result<V3, DecodeError>)
    ensures
        match r {
            Ok(t) => vec3_of(v@) == Some(t@),
            Err(_) => vec3_of(v@) is None,
        },
{
    match v {
        Value::Arr(items) => {
            let ghost vs = vals_view(items@);
            proof {
                assert(v@ == ValueS::Arr(vs));
            }
            let n: usize = items.len();
            let mut nums: Vec<Scalar> = Vec::new();
            let mut i: usize = 0;
            while i < n
                invariant
                    n == items@.len(),
                    vs == vals_view(items@),
                    v@ == ValueS::Arr(vs),
                    i <= n,
                    nums@.len() == i as int,
                    forall|k: int| 0 <= k < i ==> vs_is_num(#[trigger] vs[k]),
                    forall|k: int| 0 <= k < i ==> (#[trigger] nums@[k])@ == vs_num(vs[k]),
                decreases n - i,
            {
                match &items[i] {
                    Value::Num(s) => {
                        nums.push(*s);
                    },
                    _ => {
                        proof {
                            assert(!vs_is_num(vs[i as int]));
                        }
                        return Err(DecodeError::Shape);
                    },
                }
                i += 1;
            }
            if n < 3 {
                return Err(DecodeError::Shape);
            }
            let t = V3::new(nums[0], nums[1], nums[2]);
            Ok(t)
        },
        _ => Err(DecodeError::Shape),
    }
}

fn parse_vec2(v: &Value) -> (r: Result<V2, DecodeError>)
    ensures
        match r {
            Ok(t) => vec2_of(v@) == Some(t@),
            Err(_) => vec2_of(v@) is None,
        },
{
    match v {
        Value::Arr(items) => {
            let ghost vs = vals_view(items@);
            proof {
                assert(v@ == ValueS::Arr(vs));
            }
            let n: usize = items.len();
            let mut nums: Vec<Scalar> = Vec::new();
            let mut i: usize = 0;
            while i < n
                invariant
                    n == items@.len(),
                    vs == vals_view(items@),
                    v@ == ValueS::Arr(vs),
                    i <= n,
                    nums@.len() == i as int,
                    forall|k: int| 0 <= k < i ==> vs_is_num(#[trigger] vs[k]),
                    forall|k: int| 0 <= k < i ==> (#[trigger] nums@[k])@ == vs_num(vs[k]),
                decreases n - i,
            {
                match &items[i] {
                    Value::Num(s) => {
                        nums.push(*s);
                    },
                    _ => {
                        proof {
                            assert(!vs_is_num(vs[i as int]));
                        }
                        return Err(DecodeError::Shape);
                    },
                }
                i += 1;
            }
            if n < 2 {
                return Err(DecodeError::Shape);
            }
            let t = V2::new(nums[0], nums[1]);
            Ok(t)
        },
        _ => Err(DecodeError::Shape),
    }
}

fn parse_row(v: &Value) -> (r: Result<Vec<i32>, DecodeError>)
    ensures
        match r {
            Ok(row) => row_of(v@) == Some(row_view(row@)),
            Err(_) => row_of(v@) is None,
        },
{
    match v {
        Value::Arr(cells) => {
            let ghost vs = vals_view(cells@);
            proof {
                assert(v@ == ValueS::Arr(vs));
            }
            let n: usize = cells.len();
            let mut row: Vec<i32> = Vec::new();
            let mut i: usize = 0;
            while i < n
                invariant
                    n == cells@.len(),
                    vs == vals_view(cells@),
                    v@ == ValueS::Arr(vs),
                    i <= n,
                    row@.len() == i as int,
                    forall|k: int| 0 <= k < i ==> vs_is_int(#[trigger] vs[k]),
                    forall|k: int| 0 <= k < i ==> (#[trigger] row@[k]) as int == vs_num(vs[k]).num,
                decreases n - i,
            {
                match &cells[i] {
                    Value::Num(s) => {
                        if s.den() == 1 {
                            row.push(s.num());
                        } else {
                            proof {
                                assert(!vs_is_int(vs[i as int]));
                            }
                            return Err(DecodeError::Shape);
                        }
                    },
                    _ => {
                        proof {
                            assert(!vs_is_int(vs[i as int]));
                        }
                        return Err(DecodeError::Shape);
                    },
                }
                i += 1;
            }
            proof {
                assert(row_view(row@) =~= Seq::new(vs.len(), |k: int| vs_num(vs[k]).num));
            }
            Ok(row)
        },
        _ => Err(DecodeError::Shape),
    }
}

fn parse_grid(v: &Value) -> (r: Result<Vec<Vec<i32>>, DecodeError>)
    ensures
        match r {
            Ok(g) => grid_of(v@) == Some(grid_view(g@)),
            Err(_) => grid_of(v@) is None,
        },
{
    match v {
        Value::Arr(items) => {
            let ghost vs = vals_view(items@);
            proof {
                assert(v@ == ValueS::Arr(vs));
            }
            let n: usize = items.len();
            let mut rows: Vec<Vec<i32>> = Vec::new();
            let mut i: usize = 0;
            while i < n
                invariant
                    n == items@.len(),
                    vs == vals_view(items@),
                    v@ == ValueS::Arr(vs),
                    i <= n,
                    grid_fold(vs, i as int) == Some(grid_view(rows@)),
                decreases n - i,
            {
                match parse_row(&items[i]) {
                    Ok(row) => {
                        proof {
                            lemma_grid_view_push(rows@, row);
                        }
                        rows.push(row);
                    },
                    Err(e) => {
                        proof {
                            lemma_grid_fold_none(vs, i as int + 1, n as int);
                        }
                        return Err(e);
                    },
                }
                i += 1;
            }
            // every row must match the first row's length
            let m: usize = rows.len();
            if m > 0 {
                let w0: usize = rows[0].len();
                let mut j: usize = 1;
                while j < m
                    invariant
                        m == rows@.len(),
                        m > 0,
                        1 <= j <= m,
                        v@ == ValueS::Arr(vs),
                        vs == vals_view(items@),
                        grid_fold(vs, items@.len() as int) == Some(grid_view(rows@)),
                        w0 as int == grid_view(rows@)[0].len(),
                        forall|k: int|
                            0 <= k < j ==> (#[trigger] grid_view(rows@)[k]).len() == w0 as int,
                    decreases m - j,
                {
                    if rows[j].len() != w0 {
                        proof {
                            let g = grid_view(rows@);
                            assert(g[j as int] == row_view(rows@[j as int]@));
                            assert(g[j as int].len() != g[0].len());
                            assert(!rows_rectangular(g));
                        }
                        return Err(DecodeError::Shape);
                    }
                    j += 1;
                }
            }
            proof {
                assert(rows_rectangular(grid_view(rows@)));
            }
            Ok(rows)
        },
        _ => Err(DecodeError::Shape),
    }
}

fn parse_floor(v: &Value) -> (r: Result<Floor, DecodeError>)
    ensures
        match r {
            Ok(f) => floor_of(v@) == Some(f@),
            Err(_) => floor_of(v@) is None,
        },
{
    match v {
        Value::Obj(entries) => {
            let ghost es = entries_view(entries@);
            proof {
                assert(v@ == ValueS::Obj(es));
            }
            let n: usize = entries.len();
            let k_height = String::from_str("height");
            let k_data = String::from_str("data");
            let mut height: i32 = 0;
            let mut data: Vec<Vec<i32>> = Vec::new();
            let mut i: usize = 0;
            while i < n
                invariant
                    n == entries@.len(),
                    es == entries_view(entries@),
                    i <= n,
                    k_height@ == "height"@,
                    k_data@ == "data"@,
                    v@ == ValueS::Obj(es),
                    floor_fold(es, i as int) == Some(
                        FloorS { height: height as int, data: grid_view(data@) },
                    ),
                decreases n - i,
            {
                let entry = &entries[i];
                if entry.0 == k_height {
                    match &entry.1 {
                        Value::Num(s) => {
                            if s.den() == 1 {
                                height = s.num();
                            } else {
                                proof {
                                    lemma_floor_fold_none(es, i as int + 1, n as int);
                                }
                                return Err(DecodeError::Shape);
                            }
                        },
                        _ => {
                            proof {
                                lemma_floor_fold_none(es, i as int + 1, n as int);
                            }
                            return Err(DecodeError::Shape);
                        },
                    }
                } else if entry.0 == k_data {
                    match parse_grid(&entry.1) {
                        Ok(g) => {
                            data = g;
                        },
                        Err(e) => {
                            proof {
                                lemma_floor_fold_none(es, i as int + 1, n as int);
                            }
                            return Err(e);
                        },
                    }
                }
                i += 1;
            }
            Ok(Floor { height, data })
        },
        _ => Err(DecodeError::Shape),
    }
}

fn parse_floors_into(items: &Vec<Value>, floors: &mut Vec<Floor>) -> (r: Result<
    (),
    DecodeError,
>)
    ensures
        match r {
            Ok(_) => floors_fold(
                floors_view(old(floors)@),
                vals_view(items@),
                items@.len() as int,
            ) == Some(floors_view(final(floors)@)),
            Err(_) => floors_fold(
                floors_view(old(floors)@),
                vals_view(items@),
                items@.len() as int,
            ) is None,
        },
{
    let ghost init = floors_view(old(floors)@);
    let ghost vs = vals_view(items@);
    let n: usize = items.len();
    let mut i: usize = 0;
    while i < n
        invariant
            n == items@.len(),
            vs == vals_view(items@),
            init == floors_view(old(floors)@),
            i <= n,
            floors_fold(init, vs, i as int) == Some(floors_view(floors@)),
        decreases n - i,
    {
        match parse_floor(&items[i]) {
            Ok(f) => {
                proof {
                    lemma_floors_view_push(floors@, f);
                }
                floors.push(f);
            },
            Err(e) => {
                proof {
                    lemma_floors_fold_none(init, vs, i as int + 1, n as int);
                }
                return Err(e);
            },
        }
        i += 1;
    }
    Ok(())
}

fn parse_stair(v: &Value) -> (r: Result<Stair, DecodeError>)
    ensures
        match r {
            Ok(s) => stair_of(v@) == Some(s@),
            Err(_) => stair_of(v@) is None,
        },
{
    match v {
        Value::Obj(entries) => {
            let ghost es = entries_view(entries@);
            proof {
                assert(v@ == ValueS::Obj(es));
            }
            let n: usize = entries.len();
            let k_translation = String::from_str("translation");
            let k_direction = String::from_str("direction");
            let k_scale = String::from_str("scale");
            let mut translation = V3::zero();
            let mut direction = Direction::PZ;
            let mut scale = V3::zero();
            let mut i: usize = 0;
            while i < n
                invariant
                    n == entries@.len(),
                    es == entries_view(entries@),
                    i <= n,
                    k_translation@ == "translation"@,
                    k_direction@ == "direction"@,
                    k_scale@ == "scale"@,
                    v@ == ValueS::Obj(es),
                    stair_fold(es, i as int) == Some(
                        StairS { translation: translation@, direction, scale: scale@ },
                    ),
                decreases n - i,
            {
                let entry = &entries[i];
                if entry.0 == k_translation {
                    match parse_vec3(&entry.1) {
                        Ok(t) => {
                            translation = t;
                        },
                        Err(e) => {
                            proof {
                                lemma_stair_fold_none(es, i as int + 1, n as int);
                            }
                            return Err(e);
                        },
                    }
                } else if entry.0 == k_direction {
                    match &entry.1 {
                        Value::Str(s) => {
                            direction = parse_dir(s);
                        },
                        _ => {
                            proof {
                                lemma_stair_fold_none(es, i as int + 1, n as int);
                            }
                            return Err(DecodeError::Shape);
                        },
                    }
                } else if entry.0 == k_scale {
                    match parse_vec3(&entry.1) {
                        Ok(t) => {
                            scale = t;
                        },
                        Err(e) => {
                            proof {
                                lemma_stair_fold_none(es, i as int + 1, n as int);
                            }
                            return Err(e);
                        },
                    }
                }
                i += 1;
            }
            Ok(Stair { translation, direction, scale })
        },
        _ => Err(DecodeError::Shape),
    }
}

fn parse_stairs_into(items: &Vec<Value>, stairs: &mut Vec<Stair>) -> (r: Result<
    (),
    DecodeError,
>)
    ensures
        match r {
            Ok(_) => stairs_fold(
                stairs_view(old(stairs)@),
                vals_view(items@),
                items@.len() as int,
            ) == Some(stairs_view(final(stairs)@)),
            Err(_) => stairs_fold(
                stairs_view(old(stairs)@),
                vals_view(items@),
                items@.len() as int,
            ) is None,
        },
{
    let ghost init = stairs_view(old(stairs)@);
    let ghost vs = vals_view(items@);
    let n: usize = items.len();
    let mut i: usize = 0;
    while i < n
        invariant
            n == items@.len(),
            vs == vals_view(items@),
            init == stairs_view(old(stairs)@),
            i <= n,
            stairs_fold(init, vs, i as int) == Some(stairs_view(stairs@)),
        decreases n - i,
    {
        match parse_stair(&items[i]) {
            Ok(s) => {
                proof {
                    lemma_stairs_view_push(stairs@, s);
                }
                stairs.push(s);
            },
            Err(e) => {
                proof {
                    lemma_stairs_fold_none(init, vs, i as int + 1, n as int);
                }
                return Err(e);
            },
        }
        i += 1;
    }
    Ok(())
}

fn parse_wall(v: &Value) -> (r: Result<Wall, DecodeError>)
    ensures
        match r {
            Ok(w) => wall_of(v@) == Some(w@),
            Err(_) => wall_of(v@) is None,
        },
{
    match v {
        Value::Obj(entries) => {
            let ghost es = entries_view(entries@);
            proof {
                assert(v@ == ValueS::Obj(es));
            }
            let n: usize = entries.len();
            let k_translation = String::from_str("translation");
            let k_direction = String::from_str("direction");
            let k_size = String::from_str("size");
            let mut translation = V3::zero();
            let mut direction = Direction::PZ;
            let mut size = V2::zero();
            let mut i: usize = 0;
            while i < n
                invariant
                    n == entries@.len(),
                    es == entries_view(entries@),
                    i <= n,
                    k_translation@ == "translation"@,
                    k_direction@ == "direction"@,
                    k_size@ == "size"@,
                    v@ == ValueS::Obj(es),
                    wall_fold(es, i as int) == Some(
                        WallS { translation: translation@, direction, size: size@ },
                    ),
                decreases n - i,
            {
                let entry = &entries[i];
                if entry.0 == k_translation {
                    match parse_vec3(&entry.1) {
                        Ok(t) => {
                            translation = t;
                        },
                        Err(e) => {
                            proof {
                                lemma_wall_fold_none(es, i as int + 1, n as int);
                            }
                            return Err(e);
                        },
                    }
                } else if entry.0 == k_direction {
                    match &entry.1 {
                        Value::Str(s) => {
                            direction = parse_dir(s);
                        },
                        _ => {
                            proof {
                                lemma_wall_fold_none(es, i as int + 1, n as int);
                            }
                            return Err(DecodeError::Shape);
                        },
                    }
                } else if entry.0 == k_size {
                    match parse_vec2(&entry.1) {
                        Ok(t) => {
                            size = t;
                        },
                        Err(e) => {
                            proof {
                                lemma_wall_fold_none(es, i as int + 1, n as int);
                            }
                            return Err(e);
                        },
                    }
                }
                i += 1;
            }
            Ok(Wall { translation, direction, size })
        },
        _ => Err(DecodeError::Shape),
    }
}

fn parse_walls_into(items: &Vec<Value>, walls: &mut Vec<Wall>) -> (r: Result<(), DecodeError>)
    ensures
        match r {
            Ok(_) => walls_fold(
                walls_view(old(walls)@),
                vals_view(items@),
                items@.len() as int,
            ) == Some(walls_view(final(walls)@)),
            Err(_) => walls_fold(
                walls_view(old(walls)@),
                vals_view(items@),
                items@.len() as int,
            ) is None,
        },
{
    let ghost init = walls_view(old(walls)@);
    let ghost vs = vals_view(items@);
    let n: usize = items.len();
    let mut i: usize = 0;
    while i < n
        invariant
            n == items@.len(),
            vs == vals_view(items@),
            init == walls_view(old(walls)@),
            i <= n,
            walls_fold(init, vs, i as int) == Some(walls_view(walls@)),
        decreases n - i,
    {
        match parse_wall(&items[i]) {
            Ok(w) => {
                proof {
                    lemma_walls_view_push(walls@, w);
                }
                walls.push(w);
            },
            Err(e) => {
                proof {
                    lemma_walls_fold_none(init, vs, i as int + 1, n as int);
                }
                return Err(e);
            },
        }
        i += 1;
    }
    Ok(())
}

/// Decodes an untyped level description into a map and an origin
/// position.
///
/// Succeeds exactly when `spec_decode` accepts the input, and then pins
/// the whole result; any arity or type mismatch yields a shape error
/// instead, so the caller can leave its previous state untouched.
pub fn decode(raw: &Value) -> (r: Result<(LevelMap, Position), DecodeError>)
    ensures
        match r {
            Ok(mp) => spec_decode(raw@) == Some((mp.0@, mp.1@)),
            Err(_) => spec_decode(raw@) is None,
        },
{
    match raw {
        Value::Obj(entries) => {
            let ghost es = entries_view(entries@);
            proof {
                assert(raw@ == ValueS::Obj(es));
            }
            let n: usize = entries.len();
            let k_position = String::from_str("position");
            let k_floors = String::from_str("floors");
            let k_stairs = String::from_str("stairs");
            let k_walls = String::from_str("walls");
            let mut pos = V3::zero();
            let mut floors: Vec<Floor> = Vec::new();
            let mut stairs: Vec<Stair> = Vec::new();
            let mut walls: Vec<Wall> = Vec::new();
            let mut i: usize = 0;
            while i < n
                invariant
                    n == entries@.len(),
                    es == entries_view(entries@),
                    i <= n,
                    k_position@ == "position"@,
                    k_floors@ == "floors"@,
                    k_stairs@ == "stairs"@,
                    k_walls@ == "walls"@,
                    raw@ == ValueS::Obj(es),
                    top_fold(es, i as int) == Some(
                        DecStateS {
                            map: LevelMapS {
                                floors: floors_view(floors@),
                                stairs: stairs_view(stairs@),
                                walls: walls_view(walls@),
                            },
                            pos: pos@,
                        },
                    ),
                decreases n - i,
            {
                let entry = &entries[i];
                if entry.0 == k_position {
                    match parse_vec3(&entry.1) {
                        Ok(p) => {
                            pos = p;
                        },
                        Err(e) => {
                            proof {
                                lemma_top_fold_none(es, i as int + 1, n as int);
                            }
                            return Err(e);
                        },
                    }
                } else if entry.0 == k_floors {
                    match &entry.1 {
                        Value::Arr(items) => {
                            match parse_floors_into(items, &mut floors) {
                                Ok(_) => {},
                                Err(e) => {
                                    proof {
                                        lemma_top_fold_none(es, i as int + 1, n as int);
                                    }
                                    return Err(e);
                                },
                            }
                        },
                        _ => {
                            proof {
                                lemma_top_fold_none(es, i as int + 1, n as int);
                            }
                            return Err(DecodeError::Shape);
                        },
                    }
                } else if entry.0 == k_stairs {
                    match &entry.1 {
                        Value::Arr(items) => {
                            match parse_stairs_into(items, &mut stairs) {
                                Ok(_) => {},
                                Err(e) => {
                                    proof {
                                        lemma_top_fold_none(es, i as int + 1, n as int);
                                    }
                                    return Err(e);
                                },
                            }
                        },
                        _ => {
                            proof {
                                lemma_top_fold_none(es, i as int + 1, n as int);
                            }
                            return Err(DecodeError::Shape);
                        },
                    }
                } else if entry.0 == k_walls {
                    match &entry.1 {
                        Value::Arr(items) => {
                            match parse_walls_into(items, &mut walls) {
                                Ok(_) => {},
                                Err(e) => {
                                    proof {
                                        lemma_top_fold_none(es, i as int + 1, n as int);
                                    }
                                    return Err(e);
                                },
                            }
                        },
                        _ => {
                            proof {
                                lemma_top_fold_none(es, i as int + 1, n as int);
                            }
                            return Err(DecodeError::Shape);
                        },
                    }
                }
                i += 1;
            }
            let map = LevelMap { floors, stairs, walls };
            let position = Position::new(pos);
            Ok((map, position))
        },
        _ => Err(DecodeError::Shape),
    }
}

} // verus!
