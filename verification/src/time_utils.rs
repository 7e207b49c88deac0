//! How a primitive's anchor point moves over a ray's time parameter.

use vstd::prelude::*;

use crate::hittable::aabb::AABB;
use crate::units::Point;
use crate::vec3::{vadd_s, vscale_s, vsub_s};

verus! {

/// A point that stays where it is.
#[derive(Clone, Copy, Debug, PartialEq, Eq, Structural)]
pub struct Unchanging(pub Point);

/// A point gliding linearly from the first anchor at time 0 to the
/// second at time 1.
#[derive(Clone, Copy, Debug, PartialEq, Eq, Structural)]
pub struct Linear(pub Point, pub Point);

/// The closed set of movement strategies.
#[derive(Clone, Copy, Debug, PartialEq, Eq, Structural)]
pub enum Movement {
    Unchanging(Unchanging),
    Linear(Linear),
}

/// The anchor's position at a given time.
pub open spec fn at_time_s(m: Movement, time: i64) -> Point {
    match m {
        Movement::Unchanging(u) => u.0,
        Movement::Linear(l) => vadd_s(l.0, vscale_s(vsub_s(l.1, l.0), time)),
    }
}

/// The box swept by the anchor over all times in `[0, 1]`.
pub open spec fn swept_box_s(m: Movement) -> AABB {
    match m {
        Movement::Unchanging(u) => AABB::from_corners_s(u.0, u.0),
        Movement::Linear(l) => AABB::from_corners_s(l.0, l.1),
    }
}

impl Unchanging {
    /// The fixed anchor, at any time.
    pub fn get_at_time(this: &Point, _time: i64) -> (r: Point)
        ensures
            r == *this,
    {
        *this
    }

    /// The smallest box holding the fixed anchor.
    pub fn bounding_box(this: &Point) -> (r: AABB)
        ensures
            r == AABB::from_corners_s(*this, *this),
    {
        AABB::from_corners(*this, *this)
    }
}

impl Linear {
    /// The anchor interpolated between its two endpoints.
    pub fn get_at_time(this: &(Point, Point), time: i64) -> (r: Point)
        ensures
            r == vadd_s(this.0, vscale_s(vsub_s(this.1, this.0), time)),
    {
        this.0.add(this.1.sub(this.0).scale(time))
    }

    /// The box spanned by the two endpoints.
    pub fn bounding_box(this: &(Point, Point)) -> (r: AABB)
        ensures
            r == AABB::from_corners_s(this.0, this.1),
    {
        AABB::from_corners(this.0, this.1)
    }
}

impl Movement {
    /// The anchor's position at a given time.
    pub fn get_at_time(&self, time: i64) -> (r: Point)
        ensures
            r == at_time_s(*self, time),
    {
        match self {
            Movement::Unchanging(u) => Unchanging::get_at_time(&u.0, time),
            Movement::Linear(l) => Linear::get_at_time(&(l.0, l.1), time),
        }
    }

    /// The box swept by the anchor over all times in `[0, 1]`.
    pub fn bounding_box(&self) -> (r: AABB)
        ensures
            r == swept_box_s(*self),
    {
        match self {
            Movement::Unchanging(u) => Unchanging::bounding_box(&u.0),
            Movement::Linear(l) => Linear::bounding_box(&(l.0, l.1)),
        }
    }
}

} // verus!
