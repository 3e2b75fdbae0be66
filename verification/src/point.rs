//! Grid points in the signed and the unsigned integer domain.

use vstd::prelude::*;

verus! {

/// A point of the signed integer grid.
#[derive(Debug, Copy, Clone, PartialEq, Eq, Structural, Hash)]
pub struct IVec2 {
    pub x: i32,
    pub y: i32,
}

/// A point of the unsigned integer grid.
#[derive(Debug, Copy, Clone, PartialEq, Eq, Structural, Hash)]
pub struct UVec2 {
    pub x: u32,
    pub y: u32,
}

/// A point with 64-bit signed coordinates: wide enough for every point of
/// the signed and the unsigned grid scaled by two.
#[derive(Debug, Copy, Clone, PartialEq, Eq, Structural, Hash)]
pub struct I64Vec2 {
    pub x: i64,
    pub y: i64,
}

impl View for I64Vec2 {
    type V = (int, int);

    open spec fn view(&self) -> (int, int) {
        (self.x as int, self.y as int)
    }
}

impl View for IVec2 {
    type V = (int, int);

    open spec fn view(&self) -> (int, int) {
        (self.x as int, self.y as int)
    }
}

impl View for UVec2 {
    type V = (int, int);

    open spec fn view(&self) -> (int, int) {
        (self.x as int, self.y as int)
    }
}

/// The smaller of two integers.
pub open spec fn min_int(a: int, b: int) -> int {
    if a <= b { a } else { b }
}

/// The larger of two integers.
pub open spec fn max_int(a: int, b: int) -> int {
    if a >= b { a } else { b }
}

/// A signed 32-bit value read as an unsigned one: negative values wrap
/// around to the upper half of the unsigned range.
pub open spec fn wrap_to_unsigned(v: int) -> int {
    if v < 0 { v + 0x1_0000_0000 } else { v }
}

/// An unsigned 32-bit value read as a signed one: values of the upper half
/// of the unsigned range wrap around to the negative numbers.
pub open spec fn wrap_to_signed(v: int) -> int {
    if v > i32::MAX { v - 0x1_0000_0000 } else { v }
}

/// Reading a signed 32-bit value as unsigned and back, or an unsigned one as
/// signed and back, gives the value itself.
pub proof fn lemma_wrap_round_trip(v: int)
    ensures
        i32::MIN <= v <= i32::MAX ==> wrap_to_signed(wrap_to_unsigned(v)) == v,
        0 <= v <= u32::MAX ==> wrap_to_unsigned(wrap_to_signed(v)) == v,
{
}

/// Whether `r` is the square root of `n` rounded down.
pub open spec fn is_floor_sqrt(r: int, n: int) -> bool {
    0 <= r && r * r <= n < (r + 1) * (r + 1)
}

/// There is one square root rounded down: squares grow with their roots.
pub proof fn lemma_floor_sqrt_is_unique(a: int, b: int, n: int)
    requires
        is_floor_sqrt(a, n),
        is_floor_sqrt(b, n),
    ensures
        a == b,
{
    if a < b {
        assert((a + 1) * (a + 1) <= b * b) by (nonlinear_arith)
            requires
                0 <= a + 1 <= b,
        ;
    } else if b < a {
        assert((b + 1) * (b + 1) <= a * a) by (nonlinear_arith)
            requires
                0 <= b + 1 <= a,
        ;
    }
}

/// The square root of `n` rounded down.
pub(crate) fn floor_sqrt(n: u128) -> (r: u64)
    requires
        n < 0x4_0000_0000_0000_0000,
    ensures
        is_floor_sqrt(r as int, n as int),
{
    let mut lo: u128 = 0;
    let mut hi: u128 = 0x2_0000_0000;
    assert(0x2_0000_0000 * 0x2_0000_0000 == 0x4_0000_0000_0000_0000) by (nonlinear_arith);
    while hi - lo > 1
        invariant
            lo < hi <= 0x2_0000_0000,
            lo * lo <= n < hi * hi,
        decreases hi - lo,
    {
        let mid = lo + (hi - lo) / 2;
        assert(mid * mid <= 0x2_0000_0000 * 0x2_0000_0000) by (nonlinear_arith)
            requires
                0 <= mid <= 0x2_0000_0000,
        ;
        if mid * mid <= n {
            lo = mid;
        } else {
            hi = mid;
        }
    }
    lo as u64
}

impl IVec2 {
    pub fn new(x: i32, y: i32) -> (p: IVec2)
        ensures
            p.x == x,
            p.y == y,
    {
        IVec2 { x, y }
    }

    /// The point with both coordinates equal to `v`.
    pub fn splat(v: i32) -> (p: IVec2)
        ensures
            p.x == v,
            p.y == v,
    {
        IVec2 { x: v, y: v }
    }

    /// Component-wise minimum.
    pub fn min(self, rhs: IVec2) -> (p: IVec2)
        ensures
            p.x == min_int(self.x as int, rhs.x as int),
            p.y == min_int(self.y as int, rhs.y as int),
    {
        IVec2 {
            x: if self.x <= rhs.x { self.x } else { rhs.x },
            y: if self.y <= rhs.y { self.y } else { rhs.y },
        }
    }

    /// Component-wise maximum.
    pub fn max(self, rhs: IVec2) -> (p: IVec2)
        ensures
            p.x == max_int(self.x as int, rhs.x as int),
            p.y == max_int(self.y as int, rhs.y as int),
    {
        IVec2 {
            x: if self.x >= rhs.x { self.x } else { rhs.x },
            y: if self.y >= rhs.y { self.y } else { rhs.y },
        }
    }
}

impl IVec2 {
    /// The point with both coordinates read as unsigned: negative ones wrap
    /// around.
    pub fn as_uvec2(self) -> (p: UVec2)
        ensures
            p.x == wrap_to_unsigned(self.x as int),
            p.y == wrap_to_unsigned(self.y as int),
    {
        UVec2 { x: signed_as_unsigned(self.x), y: signed_as_unsigned(self.y) }
    }
}

fn signed_as_unsigned(v: i32) -> (r: u32)
    ensures
        r == wrap_to_unsigned(v as int),
{
    if v >= 0 {
        v as u32
    } else {
        (v as i64 + 0x1_0000_0000) as u32
    }
}

/// The coordinate `v`, or the largest signed coordinate where `v` lies
/// beyond it.
pub(crate) fn within_signed(v: u32) -> (r: i32)
    ensures
        r == min_int(v as int, i32::MAX as int),
{
    if v <= 0x7fff_ffff {
        v as i32
    } else {
        i32::MAX
    }
}

fn unsigned_as_signed(v: u32) -> (r: i32)
    ensures
        r == wrap_to_signed(v as int),
{
    if v <= 0x7fff_ffff {
        v as i32
    } else {
        (v as i64 - 0x1_0000_0000) as i32
    }
}

impl UVec2 {
    pub fn new(x: u32, y: u32) -> (p: UVec2)
        ensures
            p.x == x,
            p.y == y,
    {
        UVec2 { x, y }
    }

    /// The point with both coordinates equal to `v`.
    pub fn splat(v: u32) -> (p: UVec2)
        ensures
            p.x == v,
            p.y == v,
    {
        UVec2 { x: v, y: v }
    }

    /// Component-wise minimum.
    pub fn min(self, rhs: UVec2) -> (p: UVec2)
        ensures
            p.x == min_int(self.x as int, rhs.x as int),
            p.y == min_int(self.y as int, rhs.y as int),
    {
        UVec2 {
            x: if self.x <= rhs.x { self.x } else { rhs.x },
            y: if self.y <= rhs.y { self.y } else { rhs.y },
        }
    }

    /// Component-wise maximum.
    pub fn max(self, rhs: UVec2) -> (p: UVec2)
        ensures
            p.x == max_int(self.x as int, rhs.x as int),
            p.y == max_int(self.y as int, rhs.y as int),
    {
        UVec2 {
            x: if self.x >= rhs.x { self.x } else { rhs.x },
            y: if self.y >= rhs.y { self.y } else { rhs.y },
        }
    }

    /// The point with both coordinates read as signed: those beyond the
    /// signed range wrap around.
    pub fn as_ivec2(self) -> (p: IVec2)
        ensures
            p.x == wrap_to_signed(self.x as int),
            p.y == wrap_to_signed(self.y as int),
    {
        IVec2 { x: unsigned_as_signed(self.x), y: unsigned_as_signed(self.y) }
    }
}

impl Default for UVec2 {
    fn default() -> (p: UVec2)
        ensures
            p.x == 0,
            p.y == 0,
    {
        UVec2 { x: 0, y: 0 }
    }
}

impl Default for IVec2 {
    fn default() -> (p: IVec2)
        ensures
            p.x == 0,
            p.y == 0,
    {
        IVec2 { x: 0, y: 0 }
    }
}

} // verus!
