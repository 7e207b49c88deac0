//! Closed fixed-point ranges.

use vstd::prelude::*;

use crate::fixed::{fadd, fadd_s, fmul, fmul_s, fsub, fsub_s, FX_SAT};

verus! {

/// A closed range of fixed-point values. `min > max` means the empty range.
#[derive(Clone, Copy, Debug, PartialEq, Eq, Structural)]
pub struct Interval {
    pub min: i64,
    pub max: i64,
}

/// Half of `delta`, used for symmetric padding: `fmul_s(delta, 32768)`
/// is `delta / 2` truncated toward zero.
pub open spec fn expand_s(i: Interval, delta: i64) -> Interval {
    Interval {
        min: fsub_s(i.min, fmul_s(delta, 32768)),
        max: fadd_s(i.max, fmul_s(delta, 32768)),
    }
}

/// The componentwise min/max union of two ranges.
pub open spec fn combine_s(a: Interval, b: Interval) -> Interval {
    Interval {
        min: if a.min <= b.min { a.min } else { b.min },
        max: if a.max >= b.max { a.max } else { b.max },
    }
}

/// The range grown to include `x`.
pub open spec fn insert_s(i: Interval, x: i64) -> Interval {
    Interval {
        min: if x < i.min { x } else { i.min },
        max: if x > i.max { x } else { i.max },
    }
}

/// The range shifted by `d`.
pub open spec fn offset_s(i: Interval, d: i64) -> Interval {
    Interval { min: fadd_s(i.min, d), max: fadd_s(i.max, d) }
}

impl Interval {
    /// The empty range: every containment test fails.
    pub fn empty() -> (r: Interval)
        ensures
            r == (Interval { min: FX_SAT, max: ((-FX_SAT) as i64) }),
    {
        Interval { min: FX_SAT, max: -FX_SAT }
    }

    /// The range of every representable value.
    pub fn universe() -> (r: Interval)
        ensures
            r == (Interval { min: ((-FX_SAT) as i64), max: FX_SAT }),
    {
        Interval { min: -FX_SAT, max: FX_SAT }
    }

    /// Positive ray parameters, starting at a small epsilon that
    /// suppresses self-intersection at a surface's own origin.
    pub fn positive() -> (r: Interval)
        ensures
            r == (Interval { min: 66i64, max: FX_SAT }),
    {
        Interval { min: 66, max: FX_SAT }
    }

    /// Inclusive containment.
    pub fn contains(self, x: i64) -> (r: bool)
        ensures
            r == (self.min <= x && x <= self.max),
    {
        self.min <= x && x <= self.max
    }

    /// Exclusive containment, used to accept intersection roots.
    pub fn surrounds(self, x: i64) -> (r: bool)
        ensures
            r == (self.min < x && x < self.max),
    {
        self.min < x && x < self.max
    }

    /// `x` clamped into the range.
    pub fn clamp(self, x: i64) -> (r: i64)
        ensures
            r == if x < self.min {
                self.min
            } else if x > self.max {
                self.max
            } else {
                x
            },
    {
        if x < self.min {
            self.min
        } else if x > self.max {
            self.max
        } else {
            x
        }
    }

    /// The width of the range.
    pub fn size(self) -> (r: i64)
        ensures
            r == fsub_s(self.max, self.min),
    {
        fsub(self.max, self.min)
    }

    /// The range padded by `delta / 2` on each side.
    pub fn expand(self, delta: i64) -> (r: Interval)
        ensures
            r == expand_s(self, delta),
    {
        let padding: i64 = fmul(delta, 32768);
        Interval { min: fsub(self.min, padding), max: fadd(self.max, padding) }
    }

    /// The min/max union with another range.
    pub fn combine(self, other: Interval) -> (r: Interval)
        ensures
            r == combine_s(self, other),
    {
        Interval {
            min: if self.min <= other.min { self.min } else { other.min },
            max: if self.max >= other.max { self.max } else { other.max },
        }
    }

    /// The range grown to include `x`.
    pub fn insert(self, x: i64) -> (r: Interval)
        ensures
            r == insert_s(self, x),
    {
        Interval {
            min: if x < self.min { x } else { self.min },
            max: if x > self.max { x } else { self.max },
        }
    }

    /// The range shifted by `d`.
    pub fn offset(self, d: i64) -> (r: Interval)
        ensures
            r == offset_s(self, d),
    {
        Interval { min: fadd(self.min, d), max: fadd(self.max, d) }
    }
}

} // verus!
