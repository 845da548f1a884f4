//! Object orientation in the lateral plane.
//!
//! An orientation is a reference direction (a non-zero integer vector, for
//! example a wall-edge direction the object was snapped to) together with a
//! number of clockwise eighth turns applied on top of it. Manual
//! reorientation steps the count, so eight steps wrap back exactly; snapping
//! replaces the reference direction. Directions compare up to positive
//! scale, so no normalization is ever needed.

use vstd::prelude::*;

use crate::geometry::{V2, COORD_LIMIT};

verus! {

/// `a` and `b` point the same way: parallel, and not opposite.
pub open spec fn same_direction(a: V2, b: V2) -> bool {
    a.perp_dot(b) == 0 && a.dot(b) > 0
}

/// `v` rotated clockwise by one eighth turn and scaled by the square root
/// of two, which keeps the components integral and the direction exact.
pub open spec fn eighth_cw(v: V2) -> V2 {
    V2 { x: v.x + v.y, y: v.y - v.x }
}

pub open spec fn eighth_cw_n(v: V2, n: nat) -> V2
    decreases n,
{
    if n == 0 {
        v
    } else {
        eighth_cw(eighth_cw_n(v, (n - 1) as nat))
    }
}

/// A non-zero direction in the lateral plane.
#[derive(Clone, Copy, PartialEq, Eq, Structural, Debug)]
pub struct Dir {
    pub x: i64,
    pub y: i64,
}

impl View for Dir {
    type V = V2;

    open spec fn view(&self) -> V2 {
        V2 { x: self.x as int, y: self.y as int }
    }
}

impl Dir {
    /// Non-zero and small enough that eight eighth-turn expansions stay in
    /// range: each step at most doubles a component's magnitude.
    pub open spec fn wf(self) -> bool {
        &&& !(self.x == 0 && self.y == 0)
        &&& -(2 * COORD_LIMIT as int) <= self.x as int <= 2 * COORD_LIMIT as int
        &&& -(2 * COORD_LIMIT as int) <= self.y as int <= 2 * COORD_LIMIT as int
    }

    pub fn new(x: i64, y: i64) -> (r: Dir)
        requires
            !(x == 0 && y == 0),
            -(2 * COORD_LIMIT as int) <= x as int <= 2 * COORD_LIMIT as int,
            -(2 * COORD_LIMIT as int) <= y as int <= 2 * COORD_LIMIT as int,
        ensures
            r == (Dir { x, y }),
            r.wf(),
    {
        Dir { x, y }
    }

    /// The direction a freshly spawned preview faces: toward the camera.
    pub fn facing_camera() -> (r: Dir)
        ensures
            r == (Dir { x: 0i64, y: -1i64 }),
            r.wf(),
    {
        Dir { x: 0, y: -1 }
    }
}

/// A reference direction plus a number of clockwise eighth turns.
#[derive(Clone, Copy, PartialEq, Eq, Structural, Debug)]
pub struct Orientation {
    pub base: Dir,
    pub eighths: u8,
}

impl Orientation {
    pub open spec fn wf(self) -> bool {
        self.base.wf() && self.eighths < 8
    }

    /// The direction the oriented object actually faces, up to positive
    /// scale.
    pub open spec fn facing(self) -> V2 {
        eighth_cw_n(self.base@, self.eighths as nat)
    }

    pub fn new(base: Dir) -> (r: Orientation)
        ensures
            r == (Orientation { base, eighths: 0u8 }),
            base.wf() ==> r.wf(),
            r.facing() == base@,
    {
        Orientation { base, eighths: 0 }
    }

    /// One manual reorientation step: an eighth turn clockwise, wrapping
    /// after a full turn.
    pub fn step(self) -> (r: Orientation)
        requires
            self.wf(),
        ensures
            r.wf(),
            r.base == self.base,
            r.eighths as int == (self.eighths as int + 1) % 8,
    {
        Orientation { base: self.base, eighths: (self.eighths + 1) % 8 }
    }
}

/// A full turn of eighth steps lands on a positive multiple of the start:
/// the same direction.
pub proof fn lemma_eighth_turns_wrap(v: V2)
    requires
        !(v.x == 0 && v.y == 0),
    ensures
        eighth_cw_n(v, 8) == v.scale(16),
        same_direction(eighth_cw_n(v, 8), v),
{
    assert(eighth_cw_n(v, 8) == v.scale(16)) by {
        reveal_with_fuel(eighth_cw_n, 9);
    };
    assert(v.scale(16).perp_dot(v) == 0 && v.scale(16).dot(v) > 0) by (nonlinear_arith)
        requires
            !(v.x == 0 && v.y == 0),
    ;
}

/// Stepping an orientation eight times returns it exactly: the wrap of the
/// manual rotation increment.
pub proof fn lemma_rotation_wraps(o: Orientation)
    requires
        o.wf(),
    ensures
        step_n(o, 8) == o,
{
    reveal_with_fuel(step_n, 9);
}

/// The orientation after `n` manual reorientation steps.
pub open spec fn step_n(o: Orientation, n: nat) -> Orientation
    decreases n,
{
    if n == 0 {
        o
    } else {
        let p = step_n(o, (n - 1) as nat);
        Orientation { base: p.base, eighths: ((p.eighths as int + 1) % 8) as u8 }
    }
}

} // verus!
