//! The snap resolver: given a candidate lateral position and the wall edges
//! near it, either reports "no snap" (every edge lies beyond the snap
//! radius) or produces a pose glued to the first edge within the radius:
//! the closest point of the edge, pushed out perpendicularly by half the
//! object's footprint plus a clearance gap, oriented along the edge.
//!
//! All of it is exact rational arithmetic over the fixed-point coordinates:
//! distances are compared through values scaled by the squared edge length,
//! so the radius test is exact, and the produced position is the rounding
//! of the exact rational snap point to whole coordinate counts.

use vstd::prelude::*;

use crate::geometry::{
    clamp_int, div_trunc, div_trunc_i128, is_sqrt_floor, isqrt_u64, lemma_div_trunc_between,
    lemma_div_trunc_exact, lemma_mul_bound, lemma_sqrt_floor_exists, lemma_sqrt_floor_unique,
    sqrt_floor, Vec2, V2,
};
use crate::orientation::Dir;

verus! {

/// An edge farther from the candidate point than this never snaps: one
/// world unit.
pub const SNAP_RADIUS: i64 = crate::geometry::MILLI;

/// Half the footprint width of a wall-mounted object.
pub const HALF_WIDTH: i64 = 125;

/// Clearance kept between a snapped object and the wall so the two never
/// touch.
pub const SNAP_GAP: i64 = 30;

/// Perpendicular distance from the wall at which a snapped object sits.
pub const SNAP_OFFSET: i64 = HALF_WIDTH + SNAP_GAP;

/// A wall edge: a non-degenerate segment in the lateral plane.
#[derive(Clone, Copy, PartialEq, Eq, Structural, Debug)]
pub struct Edge {
    pub a: Vec2,
    pub b: Vec2,
}

impl Edge {
    pub open spec fn wf(self) -> bool {
        &&& self.a.in_bounds()
        &&& self.b.in_bounds()
        &&& !(self.a@ == self.b@)
    }

    /// Displacement from the edge's start to its end.
    pub open spec fn delta(self) -> V2 {
        self.b@.minus(self.a@)
    }

    /// The squared edge length: the common denominator of the exact
    /// rational geometry below.
    pub open spec fn den(self) -> int {
        self.delta().len_sq()
    }

    /// Numerator of the projection parameter of `p` onto the edge, clamped
    /// to the segment: the exact closest point is `a + (num/den) * delta`.
    pub open spec fn num(self, p: V2) -> int {
        clamp_int(p.minus(self.a@).dot(self.delta()), 0, self.den())
    }

    /// Squared distance from `p` to the segment, scaled by `den()` squared.
    pub open spec fn seg_dist_sq_scaled(self, p: V2) -> int {
        p.minus(self.a@).scale(self.den()).minus(self.delta().scale(self.num(p))).len_sq()
    }

    /// Whether `p` lies within the snap radius of the segment.
    pub open spec fn within_snap(self, p: V2) -> bool {
        self.seg_dist_sq_scaled(p) <= (SNAP_RADIUS as int) * (SNAP_RADIUS as int) * self.den()
            * self.den()
    }

    /// Which side of the edge the unsnapped point sits on; a point exactly
    /// on the line counts as the positive side.
    pub open spec fn snap_sign(self, p: V2) -> int {
        if self.delta().perp_dot(p.minus(self.a@)) >= 0 {
            1
        } else {
            -1
        }
    }

    /// The exact closest point of the segment to `p`, rounded toward `a`'s
    /// corner of its cell.
    pub open spec fn closest_rounded(self, p: V2) -> V2 {
        let d = self.delta();
        V2 {
            x: self.a@.x + div_trunc(self.num(p) * d.x, self.den()),
            y: self.a@.y + div_trunc(self.num(p) * d.y, self.den()),
        }
    }

    /// The snapped position: the closest point pushed out of the wall by
    /// `SNAP_OFFSET`, on `p`'s side, rounded to whole coordinate counts.
    pub open spec fn snap_point(self, p: V2) -> V2 {
        let d = self.delta();
        let c = self.closest_rounded(p);
        let ell = sqrt_floor(self.den());
        let s = self.snap_sign(p);
        V2 {
            x: c.x + div_trunc(s * (SNAP_OFFSET as int) * -d.y, ell),
            y: c.y + div_trunc(s * (SNAP_OFFSET as int) * d.x, ell),
        }
    }

    /// The direction a snapped object faces: along the edge, flipped to
    /// `p`'s side.
    pub open spec fn snap_dir(self, p: V2) -> V2 {
        self.delta().scale(self.snap_sign(p))
    }
}

/// Tests one edge and, within the snap radius, produces the snapped pose.
#[verifier::rlimit(50)]
fn edge_snap(e: &Edge, p: Vec2) -> (r: Option<(Vec2, Dir)>)
    requires
        e.wf(),
        p.in_pos_bounds(),
    ensures
        (r is Some) == e.within_snap(p@),
        r matches Some((pos, dir)) ==> {
            &&& pos@ == e.snap_point(p@)
            &&& pos.in_pos_bounds()
            &&& dir@ == e.snap_dir(p@)
            &&& dir.wf()
        },
{
    let ax = e.a.x as i128;
    let ay = e.a.y as i128;
    let dx = e.b.x as i128 - ax;
    let dy = e.b.y as i128 - ay;
    let px = p.x as i128 - ax;
    let py = p.y as i128 - ay;
    proof {
        lemma_mul_bound(dx as int, dx as int, 1_000_000, 1_000_000);
        lemma_mul_bound(dy as int, dy as int, 1_000_000, 1_000_000);
        lemma_mul_bound(px as int, dx as int, 1_001_000, 1_000_000);
        lemma_mul_bound(py as int, dy as int, 1_001_000, 1_000_000);
    }
    let den = dx * dx + dy * dy;
    proof {
        assert(den as int >= 1) by (nonlinear_arith)
            requires
                den as int == (dx as int) * (dx as int) + (dy as int) * (dy as int),
                !(dx as int == 0 && dy as int == 0),
        ;
    }
    let raw = px * dx + py * dy;
    let num = if raw < 0 {
        0
    } else if raw > den {
        den
    } else {
        raw
    };
    proof {
        lemma_mul_bound(den as int, px as int, 2_000_000_000_000, 1_001_000);
        lemma_mul_bound(den as int, py as int, 2_000_000_000_000, 1_001_000);
        lemma_mul_bound(num as int, dx as int, 2_000_000_000_000, 1_000_000);
        lemma_mul_bound(num as int, dy as int, 2_000_000_000_000, 1_000_000);
    }
    let vx = den * px - num * dx;
    let vy = den * py - num * dy;
    proof {
        lemma_mul_bound(vx as int, vx as int, 4_002_000_000_000_000_000, 4_002_000_000_000_000_000);
        lemma_mul_bound(vy as int, vy as int, 4_002_000_000_000_000_000, 4_002_000_000_000_000_000);
        lemma_mul_bound(1_000_000, den as int, 1_000_000, 2_000_000_000_000);
        lemma_mul_bound(
            1_000_000 * (den as int),
            den as int,
            2_000_000_000_000_000_000,
            2_000_000_000_000,
        );
    }
    let lhs = vx * vx + vy * vy;
    let rhs = 1_000_000i128 * den * den;
    assert(num as int == e.num(p@));
    assert(lhs as int == e.seg_dist_sq_scaled(p@));
    proof {
        assert(1_000_000 * (den as int) * (den as int) == (SNAP_RADIUS as int) * (
        SNAP_RADIUS as int) * (den as int) * (den as int)) by (nonlinear_arith);
    }
    assert(rhs as int == (SNAP_RADIUS as int) * (SNAP_RADIUS as int) * e.den() * e.den());
    if lhs > rhs {
        None
    } else {
        let cqx = div_trunc_i128(num * dx, den);
        let cqy = div_trunc_i128(num * dy, den);
        proof {
            lemma_clamped_quotient_on_segment(num as int, dx as int, den as int);
            lemma_clamped_quotient_on_segment(num as int, dy as int, den as int);
        }
        let cx = ax + cqx;
        let cy = ay + cqy;
        let ell = isqrt_u64(den as u64) as i128;
        proof {
            assert(ell as int >= 1) by (nonlinear_arith)
                requires
                    is_sqrt_floor(den as int, ell as int),
                    den as int >= 1,
            ;
            assert(-(ell as int) <= dx as int <= ell as int && -(ell as int) <= dy as int
                <= ell as int) by (nonlinear_arith)
                requires
                    is_sqrt_floor(den as int, ell as int),
                    den as int == (dx as int) * (dx as int) + (dy as int) * (dy as int),
            ;
        }
        proof {
            lemma_mul_bound(dx as int, py as int, 1_000_000, 1_001_000);
            lemma_mul_bound(dy as int, px as int, 1_000_000, 1_001_000);
        }
        let cross = dx * py - dy * px;
        let s: i128 = if cross >= 0 {
            1
        } else {
            -1
        };
        assert(s as int == e.snap_sign(p@));
        let ox = div_trunc_i128(s * (SNAP_OFFSET as i128) * -dy, ell);
        let oy = div_trunc_i128(s * (SNAP_OFFSET as i128) * dx, ell);
        proof {
            lemma_offset_quotient_small(s as int, -(dy as int), ell as int);
            lemma_offset_quotient_small(s as int, dx as int, ell as int);
        }
        let pos = Vec2 { x: (cx + ox) as i64, y: (cy + oy) as i64 };
        let dir = Dir { x: (if cross >= 0 { dx } else { -dx }) as i64, y: (if cross >= 0 {
            dy
        } else {
            -dy
        }) as i64 };
        assert(dir@ == e.snap_dir(p@));
        assert(pos@ == e.snap_point(p@));
        Some((pos, dir))
    }
}

/// The rounded projection offset stays within the edge's own bounding box:
/// the quotient lies between `0` and the displacement component.
proof fn lemma_clamped_quotient_on_segment(num: int, d: int, den: int)
    requires
        den > 0,
        0 <= num <= den,
    ensures
        d >= 0 ==> 0 <= div_trunc(num * d, den) <= d,
        d < 0 ==> d <= div_trunc(num * d, den) <= 0,
{
    if d >= 0 {
        assert(0 * den <= num * d <= d * den) by (nonlinear_arith)
            requires
                0 <= num <= den,
                d >= 0,
        ;
        lemma_div_trunc_between(num * d, den, 0, d);
    } else {
        assert(d * den <= num * d <= 0 * den) by (nonlinear_arith)
            requires
                0 <= num <= den,
                d < 0,
        ;
        lemma_div_trunc_between(num * d, den, d, 0);
    }
}

/// The perpendicular push, divided by the edge length, never exceeds
/// `SNAP_OFFSET` in magnitude.
proof fn lemma_offset_quotient_small(s: int, w: int, ell: int)
    requires
        ell >= 1,
        s == 1 || s == -1,
        -ell <= w <= ell,
    ensures
        -(SNAP_OFFSET as int) <= div_trunc(s * (SNAP_OFFSET as int) * w, ell) <= SNAP_OFFSET as int,
{
    assert(-((SNAP_OFFSET as int) * ell) <= s * (SNAP_OFFSET as int) * w <= (SNAP_OFFSET as int)
        * ell) by (nonlinear_arith)
        requires
            ell >= 1,
            s == 1 || s == -1,
            -ell <= w <= ell,
    ;
    lemma_div_trunc_between(s * (SNAP_OFFSET as int) * w, ell, -(SNAP_OFFSET as int), SNAP_OFFSET as int);
}

/// For an axis-aligned wall edge the snapped position is exact: its
/// perpendicular distance from the wall line is exactly `SNAP_OFFSET`.
/// The statement is the squared, scaled form of that distance, which is
/// exact over the integers: the perpendicular component of the snapped
/// position, squared, equals `SNAP_OFFSET` squared times the squared edge
/// length. For an edge of irrational length the produced position instead
/// carries the rounding of the perpendicular push to whole counts.
pub proof fn lemma_snap_axis_aligned_exact(e: Edge, p: V2)
    requires
        e.wf(),
        e.delta().x == 0 || e.delta().y == 0,
    ensures
        ({
            let w = e.delta().perp_dot(e.snap_point(p).minus(e.a@));
            w * w == (SNAP_OFFSET as int) * (SNAP_OFFSET as int) * e.den()
        }),
{
    let d = e.delta();
    let den = e.den();
    let num = e.num(p);
    let s = e.snap_sign(p);
    let off = SNAP_OFFSET as int;
    let out = e.snap_point(p);
    assert(num * 0 == 0) by (nonlinear_arith);
    assert(0 * den == 0) by (nonlinear_arith);
    assert(den >= 1) by (nonlinear_arith)
        requires
            den == d.x * d.x + d.y * d.y,
            !(d.x == 0 && d.y == 0),
    ;
    lemma_div_trunc_exact(0, den);
    if d.y == 0 {
        let dx = d.x;
        assert(dx != 0);
        assert(den == dx * dx) by (nonlinear_arith)
            requires
                den == d.x * d.x + d.y * d.y,
                d.y == 0,
                dx == d.x,
        ;
        let m = if dx >= 0 { dx } else { -dx };
        assert(is_sqrt_floor(den, m)) by (nonlinear_arith)
            requires
                den == dx * dx,
                m == if dx >= 0 { dx } else { -dx },
                dx != 0,
        ;
        let w0 = lemma_sqrt_floor_exists(den);
        lemma_sqrt_floor_unique(den, m, w0);
        assert(sqrt_floor(den) == m);
        if dx >= 0 {
            assert(s * off * dx == (s * off) * m) by (nonlinear_arith)
                requires
                    m == dx,
            ;
            lemma_div_trunc_exact(s * off, m);
            assert(out.y == e.a@.y + s * off);
        } else {
            assert(s * off * dx == (-(s * off)) * m) by (nonlinear_arith)
                requires
                    m == -dx,
            ;
            lemma_div_trunc_exact(-(s * off), m);
            assert(out.y == e.a@.y - s * off);
        }
        let w = d.perp_dot(out.minus(e.a@));
        assert(w * w == off * off * den) by (nonlinear_arith)
            requires
                w == d.x * (out.y - e.a@.y) - d.y * (out.x - e.a@.x),
                d.y == 0,
                dx == d.x,
                out.y - e.a@.y == s * off || out.y - e.a@.y == -(s * off),
                s == 1 || s == -1,
                den == dx * dx,
        ;
    } else {
        let dy = d.y;
        assert(dy != 0);
        assert(den == dy * dy) by (nonlinear_arith)
            requires
                den == d.x * d.x + d.y * d.y,
                d.x == 0,
                dy == d.y,
        ;
        let m = if dy >= 0 { dy } else { -dy };
        assert(is_sqrt_floor(den, m)) by (nonlinear_arith)
            requires
                den == dy * dy,
                m == if dy >= 0 { dy } else { -dy },
                dy != 0,
        ;
        let w0 = lemma_sqrt_floor_exists(den);
        lemma_sqrt_floor_unique(den, m, w0);
        assert(sqrt_floor(den) == m);
        if dy >= 0 {
            assert(s * off * -d.y == (-(s * off)) * m) by (nonlinear_arith)
                requires
                    m == dy,
                    dy == d.y,
            ;
            lemma_div_trunc_exact(-(s * off), m);
            assert(out.x == e.a@.x - s * off);
        } else {
            assert(s * off * -d.y == (s * off) * m) by (nonlinear_arith)
                requires
                    m == -dy,
                    dy == d.y,
            ;
            lemma_div_trunc_exact(s * off, m);
            assert(out.x == e.a@.x + s * off);
        }
        let w = d.perp_dot(out.minus(e.a@));
        assert(w * w == off * off * den) by (nonlinear_arith)
            requires
                w == d.x * (out.y - e.a@.y) - d.y * (out.x - e.a@.x),
                d.x == 0,
                dy == d.y,
                out.x - e.a@.x == s * off || out.x - e.a@.x == -(s * off),
                s == 1 || s == -1,
                den == dy * dy,
        ;
    }
}

/// Index of the first edge within the snap radius of `p`, scanning from
/// `i`; `-1` when there is none.
pub open spec fn first_snap_from(edges: Seq<Edge>, p: V2, i: int) -> int
    decreases edges.len() - i,
{
    if i < 0 || i >= edges.len() {
        -1
    } else if edges[i].within_snap(p) {
        i
    } else {
        first_snap_from(edges, p, i + 1)
    }
}

/// Index of the first edge within the snap radius of `p`; `-1` when every
/// edge lies beyond it.
pub open spec fn first_snap_index(edges: Seq<Edge>, p: V2) -> int {
    first_snap_from(edges, p, 0)
}

/// There is no snap index exactly when no edge is within the snap radius.
pub proof fn lemma_no_snap_means_all_far(edges: Seq<Edge>, p: V2, i: int)
    requires
        0 <= i <= edges.len(),
    ensures
        (first_snap_from(edges, p, i) == -1) <==> (forall|j: int|
            i <= j < edges.len() ==> !(#[trigger] edges[j]).within_snap(p)),
    decreases edges.len() - i,
{
    if i < edges.len() {
        lemma_no_snap_means_all_far(edges, p, i + 1);
    }
}

/// Scans the wall edges for the first within the snap radius of `p` and
/// returns the snapped pose against it, or `None` when every edge is too
/// far, leaving the caller's pose untouched.
pub fn resolve_snap(p: Vec2, edges: &Vec<Edge>) -> (r: Option<(Vec2, Dir)>)
    requires
        p.in_pos_bounds(),
        forall|i: int| 0 <= i < edges@.len() ==> (#[trigger] edges@[i]).wf(),
    ensures
        (r is None) <==> first_snap_index(edges@, p@) == -1,
        (r is None) <==> (forall|i: int|
            0 <= i < edges@.len() ==> !(#[trigger] edges@[i]).within_snap(p@)),
        r matches Some((pos, dir)) ==> {
            let i = first_snap_index(edges@, p@);
            &&& 0 <= i < edges@.len()
            &&& edges@[i].within_snap(p@)
            &&& pos@ == edges@[i].snap_point(p@)
            &&& pos.in_pos_bounds()
            &&& dir@ == edges@[i].snap_dir(p@)
            &&& dir.wf()
        },
{
    proof {
        lemma_no_snap_means_all_far(edges@, p@, 0);
    }
    let n = edges.len();
    let mut idx: usize = 0;
    while idx < n
        invariant
            n == edges@.len(),
            0 <= idx <= n,
            p.in_pos_bounds(),
            forall|i: int| 0 <= i < edges@.len() ==> (#[trigger] edges@[i]).wf(),
            first_snap_index(edges@, p@) == first_snap_from(edges@, p@, idx as int),
        decreases n - idx,
    {
        let e = edges[idx];
        let attempt = edge_snap(&e, p);
        if attempt.is_some() {
            assert(first_snap_from(edges@, p@, idx as int) == idx as int);
            return attempt;
        }
        idx += 1;
    }
    None
}

} // verus!
