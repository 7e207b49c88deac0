//! Rays with an origin, a direction and a time.

use vstd::prelude::*;

use crate::units::{Point, Vector};
use crate::vec3::{vadd_s, vscale_s};

verus! {

/// A ray; `time` selects a moving primitive's instantaneous position.
#[derive(Clone, Copy, Debug, PartialEq, Eq, Structural)]
pub struct Ray {
    pub origin: Point,
    pub direct: Vector,
    pub time: i64,
}

/// The point the ray reaches at parameter `t`.
pub open spec fn at_s(r: Ray, t: i64) -> Point {
    vadd_s(r.origin, vscale_s(r.direct, t))
}

impl Ray {
    /// The point the ray reaches at parameter `t`.
    pub fn at(&self, t: i64) -> (p: Point)
        ensures
            p == at_s(*self, t),
    {
        self.origin.add(self.direct.scale(t))
    }
}

} // verus!
