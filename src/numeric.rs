//! Fixed-point primitives shared by the engine.

use vstd::prelude::*;

verus! {

/// A signed 2.14 fixed-point number, held as its raw 16-bit value.
#[derive(Clone, Copy, Debug, PartialEq, Eq, Structural)]
pub struct F2Dot14(pub i16);

impl F2Dot14 {
    /// The number whose raw 16-bit value is `raw`.
    pub fn from_raw(raw: i16) -> (r: F2Dot14)
        ensures
            r.0 == raw,
    {
        F2Dot14(raw)
    }

    /// The raw 16-bit value.
    pub fn raw_value(self) -> (r: i16)
        ensures
            r == self.0,
    {
        self.0
    }
}

/// The raw values of a tuple.
pub open spec fn raw_values(t: Seq<F2Dot14>) -> Seq<i16> {
    t.map_values(|c: F2Dot14| c.0)
}

/// The value 1 of a region scalar, which carries 30 fractional bits.
pub const SCALAR_ONE: u64 = 0x4000_0000;

/// The value 1 of a delta, which is a 16.16 fixed-point number.
pub const DELTA_ONE: i64 = 0x10000;

/// `v` saturated to the range of `i16`.
pub open spec fn clamp_i16(v: int) -> int {
    if v < -32768 {
        -32768
    } else if v > 32767 {
        32767
    } else {
        v
    }
}

/// A 16.16 value rounded to the nearest integer, halves away from zero.
pub open spec fn round_fixed(v: int) -> int {
    if v >= 0 {
        (v + 0x8000) / 0x10000
    } else {
        -((-v + 0x8000) / 0x10000)
    }
}

/// The quotient `a / b` rounded toward zero.
pub open spec fn div_toward_zero(a: int, b: int) -> int {
    if (a >= 0) == (b > 0) {
        abs(a) / abs(b)
    } else {
        -(abs(a) / abs(b))
    }
}

/// The magnitude of `a`.
pub open spec fn abs(a: int) -> int {
    if a >= 0 {
        a
    } else {
        -a
    }
}

/// A 16.16 delta `d` weighted by the region scalar `s`, rounded toward zero.
pub open spec fn scale_delta(d: int, s: int) -> int {
    div_toward_zero(d * s, SCALAR_ONE as int)
}

/// The integer coordinate `v` moved by the 16.16 delta `d`, rounded and
/// saturated to `i16`.
pub open spec fn moved_coordinate(v: int, d: int) -> int {
    clamp_i16(round_fixed(v * DELTA_ONE + d))
}

/// Moves the coordinate `v` by the 16.16 delta `d`: the sum is rounded half
/// away from zero and saturated to the range of `i16`.
pub fn add_rounded(v: i32, d: i64) -> (r: i16)
    ensures
        r == moved_coordinate(v as int, d as int),
{
    let sum: i128 = v as i128 * 0x10000 + d as i128;
    let rounded: i128 = if sum >= 0 {
        (sum + 0x8000) / 0x10000
    } else {
        -((-sum + 0x8000) / 0x10000)
    };
    if rounded < -32768 {
        -32768
    } else if rounded > 32767 {
        32767
    } else {
        rounded as i16
    }
}

/// Weights the 16.16 delta `d` by the region scalar `s`, rounding toward zero.
pub fn scale(d: i64, s: u64) -> (r: i64)
    requires
        d > i64::MIN,
        s <= SCALAR_ONE,
    ensures
        r == scale_delta(d as int, s as int),
        abs(r as int) <= abs(d as int),
{
    let m: u128 = if d >= 0 { d as u128 } else { (-(d as i128)) as u128 };
    proof {
        assert(m * s <= 0x8000_0000_0000_0000 * 0x4000_0000) by (nonlinear_arith)
            requires m <= 0x8000_0000_0000_0000, s <= 0x4000_0000;
    }
    let q: u128 = m * (s as u128) / (SCALAR_ONE as u128);
    proof {
        assert(m * s <= m * SCALAR_ONE) by (nonlinear_arith)
            requires s <= SCALAR_ONE;
        assert((m as int) * (s as int) / (SCALAR_ONE as int) <= m) by (nonlinear_arith)
            requires (m as int) * (s as int) <= (m as int) * (SCALAR_ONE as int), SCALAR_ONE > 0;
        let di = d as int;
        let si = s as int;
        let mi = m as int;
        if di >= 0 {
            assert(mi == di);
            assert(di * si >= 0) by (nonlinear_arith)
                requires di >= 0, si >= 0;
            assert(abs(di * si) == mi * si);
        } else if si == 0 {
            assert(di * si == 0) by (nonlinear_arith)
                requires si == 0;
            assert(mi * si == 0) by (nonlinear_arith)
                requires si == 0;
        } else {
            assert(mi == -di);
            assert(di * si < 0) by (nonlinear_arith)
                requires di < 0, si > 0;
            assert(-(di * si) == mi * si) by (nonlinear_arith)
                requires mi == -di;
            assert(abs(di * si) == mi * si);
        }
        assert(q == mi * si / (SCALAR_ONE as int));
        assert(abs(SCALAR_ONE as int) == SCALAR_ONE);
        if di >= 0 || si == 0 {
            assert(scale_delta(di, si) == q);
        } else {
            assert(scale_delta(di, si) == -q);
        }
    }
    if d >= 0 {
        q as i64
    } else {
        -(q as i64)
    }
}

/// A delta vector whose coordinates are 16.16 fixed-point values.
#[derive(Clone, Copy, Debug, PartialEq, Eq, Structural)]
pub struct Delta {
    pub x: i64,
    pub y: i64,
}

impl Delta {
    /// The zero vector.
    pub fn zero() -> (r: Delta)
        ensures
            r.x == 0 && r.y == 0,
    {
        Delta { x: 0, y: 0 }
    }

    /// The vector holds the pair `v`.
    pub open spec fn is(self, v: (int, int)) -> bool {
        self.x == v.0 && self.y == v.1
    }
}

/// The quotient `a / b` rounded toward zero.
pub fn quotient_toward_zero(a: i64, b: i64) -> (r: i64)
    requires
        b != 0,
        a != i64::MIN,
    ensures
        r == div_toward_zero(a as int, b as int),
        abs(r as int) <= abs(a as int),
{
    let ma: u64 = if a >= 0 { a as u64 } else { (-a) as u64 };
    let mb: u64 = if b >= 0 { b as u64 } else { (-(b as i128)) as u64 };
    let q: u64 = ma / mb;
    proof {
        assert(q <= ma) by (nonlinear_arith)
            requires q == ma / mb, mb >= 1;
    }
    if (a >= 0) == (b > 0) {
        q as i64
    } else {
        -(q as i64)
    }
}

} // verus!
