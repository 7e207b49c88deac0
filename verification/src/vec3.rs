//! Three-component fixed-point vectors.

use vstd::prelude::*;

use crate::fixed::{
    fabs, fabs_s, fadd, fadd_s, fdiv, fdiv_s, fmul, fmul_s, fneg, fneg_s, fsqrt, fsqrt_s, fsub,
    fsub_s,
};

verus! {

/// A vector (or point, or color) with fixed-point components.
#[derive(Clone, Copy, Debug, PartialEq, Eq, Structural)]
pub struct Vec3 {
    pub x: i64,
    pub y: i64,
    pub z: i64,
}

/// Componentwise saturating sum.
pub open spec fn vadd_s(a: Vec3, b: Vec3) -> Vec3 {
    Vec3 { x: fadd_s(a.x, b.x), y: fadd_s(a.y, b.y), z: fadd_s(a.z, b.z) }
}

/// Componentwise saturating difference.
pub open spec fn vsub_s(a: Vec3, b: Vec3) -> Vec3 {
    Vec3 { x: fsub_s(a.x, b.x), y: fsub_s(a.y, b.y), z: fsub_s(a.z, b.z) }
}

/// Componentwise negation.
pub open spec fn vneg_s(a: Vec3) -> Vec3 {
    Vec3 { x: fneg_s(a.x), y: fneg_s(a.y), z: fneg_s(a.z) }
}

/// Componentwise (Hadamard) product.
pub open spec fn vmul_s(a: Vec3, b: Vec3) -> Vec3 {
    Vec3 { x: fmul_s(a.x, b.x), y: fmul_s(a.y, b.y), z: fmul_s(a.z, b.z) }
}

/// Product with a scalar.
pub open spec fn vscale_s(a: Vec3, s: i64) -> Vec3 {
    Vec3 { x: fmul_s(a.x, s), y: fmul_s(a.y, s), z: fmul_s(a.z, s) }
}

/// Dot product, summed left to right.
pub open spec fn dot_s(a: Vec3, b: Vec3) -> i64 {
    fadd_s(fadd_s(fmul_s(a.x, b.x), fmul_s(a.y, b.y)), fmul_s(a.z, b.z))
}

/// Cross product.
pub open spec fn cross_s(a: Vec3, b: Vec3) -> Vec3 {
    Vec3 {
        x: fsub_s(fmul_s(a.y, b.z), fmul_s(a.z, b.y)),
        y: fsub_s(fmul_s(a.z, b.x), fmul_s(a.x, b.z)),
        z: fsub_s(fmul_s(a.x, b.y), fmul_s(a.y, b.x)),
    }
}

/// Euclidean length, through the fixed-point square root.
pub open spec fn length_s(a: Vec3) -> i64 {
    fsqrt_s(dot_s(a, a))
}

/// The vector scaled to unit length; the zero vector if the length
/// truncates to zero.
pub open spec fn unit_s(a: Vec3) -> Vec3 {
    let l = length_s(a);
    if l == 0 {
        Vec3 { x: 0, y: 0, z: 0 }
    } else {
        Vec3 { x: fdiv_s(a.x, l), y: fdiv_s(a.y, l), z: fdiv_s(a.z, l) }
    }
}

/// The vector with the component along axis `i` replaced.
pub open spec fn set_axis_s(a: Vec3, i: int, val: i64) -> Vec3 {
    if i == 0 {
        Vec3 { x: val, y: a.y, z: a.z }
    } else if i == 1 {
        Vec3 { x: a.x, y: val, z: a.z }
    } else {
        Vec3 { x: a.x, y: a.y, z: val }
    }
}

/// Componentwise division by a scalar; the zero vector for divisor zero.
pub open spec fn vdiv_s(a: Vec3, s: i64) -> Vec3 {
    if s == 0 {
        Vec3 { x: 0i64, y: 0i64, z: 0i64 }
    } else {
        Vec3 { x: fdiv_s(a.x, s), y: fdiv_s(a.y, s), z: fdiv_s(a.z, s) }
    }
}

/// The componentwise absolute value.
pub open spec fn vabs_s(a: Vec3) -> Vec3 {
    Vec3 { x: fabs_s(a.x), y: fabs_s(a.y), z: fabs_s(a.z) }
}

/// The largest component.
pub open spec fn max3_s(a: Vec3) -> i64 {
    if a.x >= a.y && a.x >= a.z {
        a.x
    } else if a.y >= a.z {
        a.y
    } else {
        a.z
    }
}

/// Component selection by axis index 0, 1, 2.
pub open spec fn axis_s(a: Vec3, i: int) -> i64 {
    if i == 0 {
        a.x
    } else if i == 1 {
        a.y
    } else {
        a.z
    }
}

impl Vec3 {
    pub fn new(x: i64, y: i64, z: i64) -> (r: Vec3)
        ensures
            r == (Vec3 { x, y, z }),
    {
        Vec3 { x, y, z }
    }

    pub fn zero() -> (r: Vec3)
        ensures
            r == (Vec3 { x: 0i64, y: 0i64, z: 0i64 }),
    {
        Vec3 { x: 0, y: 0, z: 0 }
    }

    pub fn add(self, rhs: Vec3) -> (r: Vec3)
        ensures
            r == vadd_s(self, rhs),
    {
        Vec3 { x: fadd(self.x, rhs.x), y: fadd(self.y, rhs.y), z: fadd(self.z, rhs.z) }
    }

    pub fn sub(self, rhs: Vec3) -> (r: Vec3)
        ensures
            r == vsub_s(self, rhs),
    {
        Vec3 { x: fsub(self.x, rhs.x), y: fsub(self.y, rhs.y), z: fsub(self.z, rhs.z) }
    }

    pub fn neg(self) -> (r: Vec3)
        ensures
            r == vneg_s(self),
    {
        Vec3 { x: fneg(self.x), y: fneg(self.y), z: fneg(self.z) }
    }

    pub fn mul(self, rhs: Vec3) -> (r: Vec3)
        ensures
            r == vmul_s(self, rhs),
    {
        Vec3 { x: fmul(self.x, rhs.x), y: fmul(self.y, rhs.y), z: fmul(self.z, rhs.z) }
    }

    pub fn scale(self, s: i64) -> (r: Vec3)
        ensures
            r == vscale_s(self, s),
    {
        Vec3 { x: fmul(self.x, s), y: fmul(self.y, s), z: fmul(self.z, s) }
    }

    /// Componentwise division by a scalar.
    pub fn div_by(self, s: i64) -> (r: Vec3)
        ensures
            r == vdiv_s(self, s),
    {
        if s == 0 {
            Vec3 { x: 0, y: 0, z: 0 }
        } else {
            Vec3 { x: fdiv(self.x, s), y: fdiv(self.y, s), z: fdiv(self.z, s) }
        }
    }

    pub fn dot(self, rhs: Vec3) -> (r: i64)
        ensures
            r == dot_s(self, rhs),
    {
        fadd(fadd(fmul(self.x, rhs.x), fmul(self.y, rhs.y)), fmul(self.z, rhs.z))
    }

    pub fn cross(self, rhs: Vec3) -> (r: Vec3)
        ensures
            r == cross_s(self, rhs),
    {
        Vec3 {
            x: fsub(fmul(self.y, rhs.z), fmul(self.z, rhs.y)),
            y: fsub(fmul(self.z, rhs.x), fmul(self.x, rhs.z)),
            z: fsub(fmul(self.x, rhs.y), fmul(self.y, rhs.x)),
        }
    }

    pub fn length_squared(self) -> (r: i64)
        ensures
            r == dot_s(self, self),
    {
        self.dot(self)
    }

    pub fn length(self) -> (r: i64)
        ensures
            r == length_s(self),
    {
        fsqrt(self.dot(self))
    }

    pub fn unit_vector(self) -> (r: Vec3)
        ensures
            r == unit_s(self),
    {
        let l: i64 = self.length();
        if l == 0 {
            Vec3 { x: 0, y: 0, z: 0 }
        } else {
            Vec3 { x: fdiv(self.x, l), y: fdiv(self.y, l), z: fdiv(self.z, l) }
        }
    }

    /// The largest component.
    pub fn max_element(self) -> (r: i64)
        ensures
            r == max3_s(self),
    {
        let mut m: i64 = self.x;
        if self.y > m {
            m = self.y;
        }
        if self.z > m {
            m = self.z;
        }
        m
    }

    /// The component along axis `i` (0 is x, 1 is y, 2 is z).
    pub fn axis(self, i: usize) -> (r: i64)
        requires
            i < 3,
        ensures
            r == axis_s(self, i as int),
    {
        if i == 0 {
            self.x
        } else if i == 1 {
            self.y
        } else {
            self.z
        }
    }

    /// The vector with the component along axis `i` replaced.
    pub fn set_axis(self, i: usize, val: i64) -> (r: Vec3)
        requires
            i < 3,
        ensures
            r == set_axis_s(self, i as int, val),
    {
        if i == 0 {
            Vec3 { x: val, y: self.y, z: self.z }
        } else if i == 1 {
            Vec3 { x: self.x, y: val, z: self.z }
        } else {
            Vec3 { x: self.x, y: self.y, z: val }
        }
    }

    /// The componentwise absolute value.
    pub fn abs(self) -> (r: Vec3)
        ensures
            r == vabs_s(self),
    {
        Vec3 { x: fabs(self.x), y: fabs(self.y), z: fabs(self.z) }
    }
}

} // verus!
