//! Fixed-point planar and spatial vectors and the exact integer helpers
//! (clamping, truncating division, integer square root) that the snap
//! resolver and the authority validator build on.

use vstd::prelude::*;

verus! {

/// Fixed-point scale: this many coordinate counts stand for one world unit.
pub const MILLI: i64 = 1000;

/// Magnitude bound for coordinates of committed world data (wall edges,
/// container centers, lot vertices). Keeping these within the bound lets the
/// snap resolver run its rational arithmetic in `i128` without overflow.
pub const COORD_LIMIT: i64 = 500_000;

/// Magnitude bound for preview positions. A snapped position may leave the
/// segment it snapped to by the footprint offset plus rounding, so previews
/// get a slightly wider band than committed data.
pub const POS_LIMIT: i64 = 501_000;

/// Mathematical planar vector, used only in specifications.
pub struct V2 {
    pub x: int,
    pub y: int,
}

impl V2 {
    pub open spec fn minus(self, o: V2) -> V2 {
        V2 { x: self.x - o.x, y: self.y - o.y }
    }

    pub open spec fn scale(self, k: int) -> V2 {
        V2 { x: k * self.x, y: k * self.y }
    }

    pub open spec fn dot(self, o: V2) -> int {
        self.x * o.x + self.y * o.y
    }

    /// The planar cross product: positive when `o` lies counter-clockwise
    /// from `self`.
    pub open spec fn perp_dot(self, o: V2) -> int {
        self.x * o.y - self.y * o.x
    }

    pub open spec fn len_sq(self) -> int {
        self.dot(self)
    }

    pub open spec fn in_band(self, limit: int) -> bool {
        -limit <= self.x <= limit && -limit <= self.y <= limit
    }
}

/// Executable planar vector in fixed-point world coordinates (the lateral
/// plane of the world: the first component runs along the row of cities,
/// the second across it).
#[derive(Clone, Copy, PartialEq, Eq, Structural, Debug)]
pub struct Vec2 {
    pub x: i64,
    pub y: i64,
}

impl View for Vec2 {
    type V = V2;

    open spec fn view(&self) -> V2 {
        V2 { x: self.x as int, y: self.y as int }
    }
}

impl Vec2 {
    pub open spec fn in_bounds(self) -> bool {
        self@.in_band(COORD_LIMIT as int)
    }

    pub open spec fn in_pos_bounds(self) -> bool {
        self@.in_band(POS_LIMIT as int)
    }
}

/// Executable spatial vector in fixed-point world coordinates; `y` points up.
#[derive(Clone, Copy, PartialEq, Eq, Structural, Debug)]
pub struct Vec3 {
    pub x: i64,
    pub y: i64,
    pub z: i64,
}

impl Vec3 {
    /// The lateral (ground-plane) part of the vector.
    pub open spec fn spec_lateral(self) -> V2 {
        V2 { x: self.x as int, y: self.z as int }
    }

    pub fn lateral(self) -> (r: Vec2)
        ensures
            r@ == self.spec_lateral(),
    {
        Vec2 { x: self.x, y: self.z }
    }

    /// Lifts a lateral position back onto the ground plane.
    pub fn from_lateral(p: Vec2) -> (r: Vec3)
        ensures
            r == (Vec3 { x: p.x, y: 0i64, z: p.y }),
    {
        Vec3 { x: p.x, y: 0, z: p.y }
    }
}

pub open spec fn clamp_int(v: int, lo: int, hi: int) -> int {
    if v < lo {
        lo
    } else if v > hi {
        hi
    } else {
        v
    }
}

/// Clamps a wide intermediate value into the preview coordinate band.
pub fn clamp_pos(v: i128) -> (r: i64)
    ensures
        r as int == clamp_int(v as int, -POS_LIMIT as int, POS_LIMIT as int),
{
    if v < -POS_LIMIT as i128 {
        -POS_LIMIT
    } else if v > POS_LIMIT as i128 {
        POS_LIMIT
    } else {
        v as i64
    }
}

/// Division truncating toward zero, defined for positive divisors.
pub open spec fn div_trunc(a: int, b: int) -> int
    recommends
        b > 0,
{
    if a >= 0 {
        a / b
    } else {
        -((-a) / b)
    }
}

pub fn div_trunc_i128(a: i128, b: i128) -> (r: i128)
    requires
        b > 0,
        a > i128::MIN,
    ensures
        r as int == div_trunc(a as int, b as int),
{
    if a >= 0 {
        let q: u128 = (a as u128) / (b as u128);
        q as i128
    } else {
        let q: u128 = ((-a) as u128) / (b as u128);
        assert(q <= (-a) as u128) by {
            assert((-a) as u128 / (b as u128) <= (-a) as u128) by (nonlinear_arith)
                requires
                    b > 0,
                    a < 0,
            ;
        };
        -(q as i128)
    }
}

pub open spec fn is_sqrt_floor(n: int, r: int) -> bool {
    0 <= r && r * r <= n < (r + 1) * (r + 1)
}

/// The integer square root, as the unique witness of `is_sqrt_floor`.
pub open spec fn sqrt_floor(n: int) -> int {
    choose|r: int| is_sqrt_floor(n, r)
}

pub proof fn lemma_sqrt_floor_exists(n: int) -> (r: int)
    requires
        n >= 0,
    ensures
        is_sqrt_floor(n, r),
        r == sqrt_floor(n),
    decreases n,
{
    let w: int = if n == 0 {
        assert(is_sqrt_floor(0, 0)) by (nonlinear_arith);
        0
    } else {
        let p = lemma_sqrt_floor_exists(n - 1);
        if (p + 1) * (p + 1) <= n {
            assert(is_sqrt_floor(n, p + 1)) by (nonlinear_arith)
                requires
                    is_sqrt_floor(n - 1, p),
                    (p + 1) * (p + 1) <= n,
            ;
            p + 1
        } else {
            assert(is_sqrt_floor(n, p)) by (nonlinear_arith)
                requires
                    is_sqrt_floor(n - 1, p),
                    !((p + 1) * (p + 1) <= n),
                    n >= 1,
            ;
            p
        }
    };
    assert(is_sqrt_floor(n, w));
    let c = sqrt_floor(n);
    assert(is_sqrt_floor(n, c));
    lemma_sqrt_floor_unique(n, w, c);
    w
}

pub proof fn lemma_sqrt_floor_unique(n: int, r1: int, r2: int)
    requires
        is_sqrt_floor(n, r1),
        is_sqrt_floor(n, r2),
    ensures
        r1 == r2,
{
    assert(r1 == r2) by (nonlinear_arith)
        requires
            is_sqrt_floor(n, r1),
            is_sqrt_floor(n, r2),
    ;
}

/// Integer square root by bisection.
pub fn isqrt_u64(n: u64) -> (r: u64)
    ensures
        is_sqrt_floor(n as int, r as int),
        r as int == sqrt_floor(n as int),
{
    let mut lo: u64 = 0;
    let mut hi: u64 = if n >= 4_294_967_295 {
        4_294_967_296
    } else {
        n + 1
    };
    assert((hi as int) * (hi as int) > n as int) by (nonlinear_arith)
        requires
            hi as int == if n as int >= 4_294_967_295 {
                4_294_967_296int
            } else {
                n as int + 1
            },
            n <= u64::MAX,
    ;
    while lo + 1 < hi
        invariant
            lo < hi,
            hi <= 4_294_967_296,
            (lo as int) * (lo as int) <= n as int,
            (hi as int) * (hi as int) > n as int,
        decreases hi - lo,
    {
        let mid = lo + (hi - lo) / 2;
        assert((mid as int) * (mid as int) <= 0xFFFF_FFFE_0000_0001) by (nonlinear_arith)
            requires
                0 <= mid as int <= 4_294_967_295,
        ;
        if mid * mid <= n {
            lo = mid;
        } else {
            hi = mid;
        }
    }
    proof {
        let w = lemma_sqrt_floor_exists(n as int);
        lemma_sqrt_floor_unique(n as int, lo as int, w);
    }
    lo
}

/// Truncating division of a numerator between `lo * b` and `hi * b` lands
/// between `lo` and `hi`, for `lo <= 0 <= hi`.
pub proof fn lemma_div_trunc_between(a: int, b: int, lo: int, hi: int)
    requires
        b > 0,
        lo <= 0 <= hi,
        lo * b <= a <= hi * b,
    ensures
        lo <= div_trunc(a, b) <= hi,
{
    if a >= 0 {
        vstd::arithmetic::div_mod::lemma_div_pos_is_pos(a, b);
        assert(hi * b == b * hi) by (nonlinear_arith);
        vstd::arithmetic::div_mod::lemma_div_is_ordered(a, b * hi, b);
        vstd::arithmetic::div_mod::lemma_div_multiples_vanish(hi, b);
    } else {
        vstd::arithmetic::div_mod::lemma_div_pos_is_pos(-a, b);
        assert(-a <= b * (-lo)) by (nonlinear_arith)
            requires
                lo * b <= a,
        ;
        vstd::arithmetic::div_mod::lemma_div_is_ordered(-a, b * (-lo), b);
        vstd::arithmetic::div_mod::lemma_div_multiples_vanish(-lo, b);
    }
}

/// Truncating division of an exact multiple recovers the factor.
pub proof fn lemma_div_trunc_exact(k: int, b: int)
    requires
        b > 0,
    ensures
        div_trunc(k * b, b) == k,
{
    assert(k * b == b * k) by (nonlinear_arith);
    if k >= 0 {
        vstd::arithmetic::div_mod::lemma_div_multiples_vanish(k, b);
    } else {
        vstd::arithmetic::div_mod::lemma_div_multiples_vanish(-k, b);
        assert(-(k * b) == b * (-k)) by (nonlinear_arith);
    }
}

/// `|a * b| <= bound_a * bound_b` for bounded factors.
pub proof fn lemma_mul_bound(a: int, b: int, bound_a: int, bound_b: int)
    requires
        -bound_a <= a <= bound_a,
        -bound_b <= b <= bound_b,
        0 <= bound_a,
        0 <= bound_b,
    ensures
        -(bound_a * bound_b) <= a * b <= bound_a * bound_b,
{
    assert(-(bound_a * bound_b) <= a * b <= bound_a * bound_b) by (nonlinear_arith)
        requires
            -bound_a <= a <= bound_a,
            -bound_b <= b <= bound_b,
            0 <= bound_a,
            0 <= bound_b,
    ;
}

} // verus!
