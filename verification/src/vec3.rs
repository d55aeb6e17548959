//! Vectors in 3-space with fixed-point coordinates.

use crate::fixp::sat_add_spec;
use vstd::prelude::*;

verus! {

/// A point or direction in 3-space; each coordinate is a fixed-point value
/// in thousandths of a unit.
#[derive(Clone, Copy, PartialEq, Eq, Structural, Debug)]
pub struct Vec3Fx {
    pub x: i64,
    pub y: i64,
    pub z: i64,
}

impl Vec3Fx {
    /// Squared Euclidean length.
    pub open spec fn norm_sq(self) -> int {
        self.x * self.x + self.y * self.y + self.z * self.z
    }

    /// Every coordinate is at most `m` in magnitude.
    pub open spec fn bounded(self, m: int) -> bool {
        &&& -m <= self.x <= m
        &&& -m <= self.y <= m
        &&& -m <= self.z <= m
    }

    /// Dot product.
    pub open spec fn dot(self, o: Vec3Fx) -> int {
        self.x * o.x + self.y * o.y + self.z * o.z
    }

    /// Cross product, as a coordinate triple.
    pub open spec fn cross(self, o: Vec3Fx) -> (int, int, int) {
        (
            self.y * o.z - self.z * o.y,
            self.z * o.x - self.x * o.z,
            self.x * o.y - self.y * o.x,
        )
    }

    /// Componentwise saturating addition.
    pub fn sat_add(self, o: Vec3Fx) -> (r: Vec3Fx)
        ensures
            r.x == sat_add_spec(self.x as int, o.x as int),
            r.y == sat_add_spec(self.y as int, o.y as int),
            r.z == sat_add_spec(self.z as int, o.z as int),
    {
        Vec3Fx {
            x: crate::fixp::sat_add(self.x, o.x),
            y: crate::fixp::sat_add(self.y, o.y),
            z: crate::fixp::sat_add(self.z, o.z),
        }
    }

    /// Componentwise saturating subtraction.
    pub fn sat_sub(self, o: Vec3Fx) -> (r: Vec3Fx)
        ensures
            r.x == sat_sub_spec(self.x as int, o.x as int),
            r.y == sat_sub_spec(self.y as int, o.y as int),
            r.z == sat_sub_spec(self.z as int, o.z as int),
    {
        Vec3Fx { x: sat_sub_exec(self.x, o.x), y: sat_sub_exec(self.y, o.y), z: sat_sub_exec(
            self.z,
            o.z,
        ) }
    }

    /// Exact componentwise scaling by an integer factor.
    pub fn scale(self, k: i64) -> (r: Vec3Fx)
        requires
            i64::MIN <= self.x * k <= i64::MAX,
            i64::MIN <= self.y * k <= i64::MAX,
            i64::MIN <= self.z * k <= i64::MAX,
        ensures
            r.x == self.x * k,
            r.y == self.y * k,
            r.z == self.z * k,
    {
        Vec3Fx { x: self.x * k, y: self.y * k, z: self.z * k }
    }

    /// Squared Euclidean length, computed exactly in 128 bits. The
    /// coordinate bound keeps the sum of squares inside `i128`.
    pub fn norm_sq_exec(&self) -> (r: i128)
        requires
            self.bounded(COORD_LIMIT as int),
        ensures
            r == self.norm_sq(),
    {
        proof {
            lemma_square_bound(self.x as int);
            lemma_square_bound(self.y as int);
            lemma_square_bound(self.z as int);
        }
        let xx = (self.x as i128) * (self.x as i128);
        let yy = (self.y as i128) * (self.y as i128);
        let zz = (self.z as i128) * (self.z as i128);
        xx + yy + zz
    }
}

/// Largest coordinate magnitude accepted by the exact squared-length
/// computation: one quintillion sub-units.
pub const COORD_LIMIT: i64 = 1_000_000_000_000_000_000;

/// The square of a coordinate within `COORD_LIMIT` is nonnegative and small
/// enough that three of them fit in `i128`.
proof fn lemma_square_bound(a: int)
    requires
        -1_000_000_000_000_000_000 <= a <= 1_000_000_000_000_000_000,
    ensures
        0 <= a * a <= 1_000_000_000_000_000_000_000_000_000_000_000_000,
{
    assert(0 <= a * a <= 1_000_000_000_000_000_000_000_000_000_000_000_000) by (nonlinear_arith)
        requires
            -1_000_000_000_000_000_000 <= a <= 1_000_000_000_000_000_000,
    ;
}

/// Subtraction on `int` clipped to the `i64` range.
pub open spec fn sat_sub_spec(a: int, b: int) -> int {
    if a - b > i64::MAX {
        i64::MAX as int
    } else if a - b < i64::MIN {
        i64::MIN as int
    } else {
        a - b
    }
}

/// Saturating subtraction of two fixed-point values.
pub fn sat_sub_exec(a: i64, b: i64) -> (r: i64)
    ensures
        r == sat_sub_spec(a as int, b as int),
{
    match a.checked_sub(b) {
        Some(v) => v,
        None => {
            if b < 0 {
                i64::MAX
            } else {
                i64::MIN
            }
        },
    }
}

} // verus!
