//! Exact rational scalars.
//!
//! Level descriptions carry fractional offsets (half tiles, thirds of a
//! step, hundredth-unit wall nudges), so coordinates are modelled as exact
//! rationals rather than floating point. `Scalar` is the bounded form that
//! decoded map data holds; `Coord` is the wider form that generated
//! geometry holds. Both are viewed as the mathematical pair `RatS`.

use vstd::prelude::*;

verus! {

/// Mathematical value of a scalar: a rational number as a
/// numerator/denominator pair. Well-formed values keep `den` positive.
/// Pairs are not reduced; two pairs denote the same rational exactly when
/// `same_val` holds.
pub ghost struct RatS {
    pub num: int,
    pub den: int,
}

impl RatS {
    pub open spec fn wf(self) -> bool {
        self.den > 0
    }

    pub open spec fn from_int(n: int) -> RatS {
        RatS { num: n, den: 1 }
    }

    pub open spec fn add(self, o: RatS) -> RatS {
        RatS { num: self.num * o.den + o.num * self.den, den: self.den * o.den }
    }

    pub open spec fn sub(self, o: RatS) -> RatS {
        RatS { num: self.num * o.den - o.num * self.den, den: self.den * o.den }
    }

    pub open spec fn mul(self, o: RatS) -> RatS {
        RatS { num: self.num * o.num, den: self.den * o.den }
    }

    /// Division by a scalar whose numerator is positive, the only form the
    /// geometry formulas need; keeps the denominator positive.
    pub open spec fn div_pos(self, o: RatS) -> RatS {
        RatS { num: self.num * o.den, den: self.den * o.num }
    }

    /// The two pairs denote the same rational number.
    pub open spec fn same_val(self, o: RatS) -> bool {
        self.num * o.den == o.num * self.den
    }
}

/// A bounded exact scalar, the numeric leaf of a decoded level
/// description: numerator in `i32`, denominator in `1 ..= u32::MAX`.
/// The denominator is stored offset by one, so every representable value
/// has a positive denominator.
#[derive(Clone, Copy, PartialEq, Eq, Structural, Debug)]
pub struct Scalar {
    num: i32,
    den_minus_one: u32,
}

impl View for Scalar {
    type V = RatS;

    closed spec fn view(&self) -> RatS {
        RatS { num: self.num as int, den: self.den_minus_one as int + 1 }
    }
}

/// Magnitude bound that every `Scalar` satisfies by construction.
pub open spec fn scalar_bounded(r: RatS) -> bool {
    rat_bounded(r, 0x1_0000_0000)
}

impl Scalar {
    pub fn new(num: i32, den: u32) -> (r: Scalar)
        requires
            den >= 1,
        ensures
            r@ == (RatS { num: num as int, den: den as int }),
    {
        Scalar { num, den_minus_one: den - 1 }
    }

    pub fn from_int(num: i32) -> (r: Scalar)
        ensures
            r@ == RatS::from_int(num as int),
    {
        Scalar { num, den_minus_one: 0 }
    }

    pub fn zero() -> (r: Scalar)
        ensures
            r@ == RatS::from_int(0),
    {
        Scalar { num: 0, den_minus_one: 0 }
    }

    pub fn num(&self) -> (r: i32)
        ensures
            r as int == self@.num,
    {
        self.num
    }

    pub fn den(&self) -> (r: u64)
        ensures
            r as int == self@.den,
    {
        self.den_minus_one as u64 + 1
    }

    pub proof fn lemma_bounded(&self)
        ensures
            self@.wf(),
            scalar_bounded(self@),
    {
    }
}

/// An exact rational coordinate of a generated primitive. Wider than
/// `Scalar` because geometric formulas multiply several scalars together.
#[derive(Clone, Copy, PartialEq, Eq, Structural, Debug)]
pub struct Coord {
    num: i128,
    den: i128,
}

impl View for Coord {
    type V = RatS;

    closed spec fn view(&self) -> RatS {
        RatS { num: self.num as int, den: self.den as int }
    }
}

/// `x` is representable as an `i128`.
pub open spec fn fits_i128(x: int) -> bool {
    i128::MIN <= x <= i128::MAX
}

/// `|r.num| <= b` and `1 <= r.den <= b`.
pub open spec fn rat_bounded(r: RatS, b: int) -> bool {
    -b <= r.num <= b && 1 <= r.den <= b
}

impl Coord {
    pub fn new(num: i64, den: i64) -> (r: Coord)
        requires
            den >= 1,
        ensures
            r@ == (RatS { num: num as int, den: den as int }),
    {
        Coord { num: num as i128, den: den as i128 }
    }

    pub fn from_scalar(s: &Scalar) -> (r: Coord)
        ensures
            r@ == s@,
    {
        Coord { num: s.num as i128, den: s.den_minus_one as i128 + 1 }
    }

    pub fn from_i32(n: i32) -> (r: Coord)
        ensures
            r@ == RatS::from_int(n as int),
    {
        Coord { num: n as i128, den: 1 }
    }

    pub fn from_usize(n: usize) -> (r: Coord)
        ensures
            r@ == RatS::from_int(n as int),
    {
        Coord { num: n as i128, den: 1 }
    }

    pub fn from_u64(n: u64) -> (r: Coord)
        ensures
            r@ == RatS::from_int(n as int),
    {
        Coord { num: n as i128, den: 1 }
    }

    pub fn num(&self) -> (r: i128)
        ensures
            r as int == self@.num,
    {
        self.num
    }

    pub fn den(&self) -> (r: i128)
        ensures
            r as int == self@.den,
    {
        self.den
    }

    /// Whether the two coordinates denote the same rational number,
    /// decided by cross multiplication.
    pub fn same_val(&self, o: &Coord) -> (r: bool)
        requires
            fits_i128(self@.num * o@.den),
            fits_i128(o@.num * self@.den),
        ensures
            r == self@.same_val(o@),
    {
        self.num * o.den == o.num * self.den
    }
}

pub(crate) fn coord_add(a: &Coord, b: &Coord) -> (r: Coord)
    requires
        a@.wf(),
        b@.wf(),
        fits_i128(a@.num * b@.den),
        fits_i128(b@.num * a@.den),
        fits_i128(a@.num * b@.den + b@.num * a@.den),
        fits_i128(a@.den * b@.den),
    ensures
        r@ == a@.add(b@),
        r@.wf(),
{
    proof {
        lemma_pos_mul_pos(a@.den, b@.den);
    }
    Coord { num: a.num * b.den + b.num * a.den, den: a.den * b.den }
}

pub(crate) fn coord_sub(a: &Coord, b: &Coord) -> (r: Coord)
    requires
        a@.wf(),
        b@.wf(),
        fits_i128(a@.num * b@.den),
        fits_i128(b@.num * a@.den),
        fits_i128(a@.num * b@.den - b@.num * a@.den),
        fits_i128(a@.den * b@.den),
    ensures
        r@ == a@.sub(b@),
        r@.wf(),
{
    proof {
        lemma_pos_mul_pos(a@.den, b@.den);
    }
    Coord { num: a.num * b.den - b.num * a.den, den: a.den * b.den }
}

pub(crate) fn coord_mul(a: &Coord, b: &Coord) -> (r: Coord)
    requires
        a@.wf(),
        b@.wf(),
        fits_i128(a@.num * b@.num),
        fits_i128(a@.den * b@.den),
    ensures
        r@ == a@.mul(b@),
        r@.wf(),
{
    proof {
        lemma_pos_mul_pos(a@.den, b@.den);
    }
    Coord { num: a.num * b.num, den: a.den * b.den }
}

pub(crate) fn coord_div_pos(a: &Coord, b: &Coord) -> (r: Coord)
    requires
        a@.wf(),
        b@.wf(),
        b@.num > 0,
        fits_i128(a@.num * b@.den),
        fits_i128(a@.den * b@.num),
    ensures
        r@ == a@.div_pos(b@),
        r@.wf(),
{
    proof {
        lemma_pos_mul_pos(a@.den, b@.num);
    }
    Coord { num: a.num * b.den, den: a.den * b.num }
}

proof fn lemma_pos_mul_pos(x: int, y: int)
    by (nonlinear_arith)
    requires
        x > 0,
        y > 0,
    ensures
        x * y > 0,
{
}

/// Magnitude bound for a product of bounded factors.
pub proof fn lemma_mul_bound(x: int, y: int, bx: int, by: int)
    by (nonlinear_arith)
    requires
        -bx <= x <= bx,
        -by <= y <= by,
        0 <= bx,
        0 <= by,
    ensures
        -(bx * by) <= x * y <= bx * by,
{
}

/// Adding scalars bounded by `ba` and `bb` stays within `2 * ba * bb`, and
/// every intermediate product of the sum formula fits those bounds.
pub proof fn lemma_add_bounded(a: RatS, b: RatS, ba: int, bb: int)
    by (nonlinear_arith)
    requires
        rat_bounded(a, ba),
        rat_bounded(b, bb),
    ensures
        -(ba * bb) <= a.num * b.den <= ba * bb,
        -(ba * bb) <= b.num * a.den <= ba * bb,
        1 <= a.den * b.den <= ba * bb,
        rat_bounded(a.add(b), 2 * ba * bb),
        rat_bounded(a.sub(b), 2 * ba * bb),
{
}

/// Multiplying scalars bounded by `ba` and `bb` stays within `ba * bb`.
pub proof fn lemma_mul_bounded(a: RatS, b: RatS, ba: int, bb: int)
    by (nonlinear_arith)
    requires
        rat_bounded(a, ba),
        rat_bounded(b, bb),
    ensures
        rat_bounded(a.mul(b), ba * bb),
        b.num > 0 ==> rat_bounded(a.div_pos(b), ba * bb),
{
}

/// Everything an addition or subtraction of bounded scalars computes fits
/// an `i128`, provided `2 * ba * bb` does.
pub proof fn lemma_add_fits(a: RatS, b: RatS, ba: int, bb: int)
    requires
        rat_bounded(a, ba),
        rat_bounded(b, bb),
        2 * ba * bb <= i128::MAX as int,
    ensures
        fits_i128(a.num * b.den),
        fits_i128(b.num * a.den),
        fits_i128(a.num * b.den + b.num * a.den),
        fits_i128(a.num * b.den - b.num * a.den),
        fits_i128(a.den * b.den),
        rat_bounded(a.add(b), 2 * ba * bb),
        rat_bounded(a.sub(b), 2 * ba * bb),
{
    lemma_add_bounded(a, b, ba, bb);
}

/// Everything a multiplication or positive division of bounded scalars
/// computes fits an `i128`, provided `ba * bb` does.
pub proof fn lemma_mul_fits(a: RatS, b: RatS, ba: int, bb: int)
    requires
        rat_bounded(a, ba),
        rat_bounded(b, bb),
        ba * bb <= i128::MAX as int,
    ensures
        fits_i128(a.num * b.num),
        fits_i128(a.den * b.den),
        fits_i128(a.num * b.den),
        fits_i128(a.den * b.num),
        rat_bounded(a.mul(b), ba * bb),
        b.num > 0 ==> rat_bounded(a.div_pos(b), ba * bb),
{
    lemma_mul_bounded(a, b, ba, bb);
    lemma_mul_bound(a.num, b.den, ba, bb);
    lemma_mul_bound(a.den, b.num, ba, bb);
}

} // verus!
