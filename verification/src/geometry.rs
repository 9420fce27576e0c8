//! Vectors on the grid and the squared distance between them.

use vstd::prelude::*;

verus! {

/// A position or a velocity: a pair of grid coordinates.
#[derive(Clone, Copy, Debug, PartialEq, Eq, Structural)]
pub struct Vec2 {
    pub x: i32,
    pub y: i32,
}

/// The square of any difference of two coordinates fits in 64 bits.
pub proof fn lemma_square_bounded(d: int)
    by (nonlinear_arith)
    requires
        -0x1_0000_0000 < d < 0x1_0000_0000,
    ensures
        0 <= d * d <= 0xffff_ffff * 0xffff_ffff,
{
}

impl Vec2 {
    /// The squared Euclidean distance between two grid points.
    pub open spec fn dist_sq(self, other: Vec2) -> int {
        (self.x - other.x) * (self.x - other.x) + (self.y - other.y) * (self.y - other.y)
    }

    /// Whether both coordinates are zero.
    pub open spec fn is_null(self) -> bool {
        self.x == 0 && self.y == 0
    }

    /// The sense of the angle from the positive x-axis to the vector: `-1`
    /// where the vector points below the axis, `1` where it points above it
    /// or along it.
    pub open spec fn turn_sense(self) -> int {
        if self.y < 0 {
            -1
        } else {
            1
        }
    }

    /// The vector with the given coordinates.
    pub fn new(x: i32, y: i32) -> (v: Vec2)
        ensures
            v == (Vec2 { x, y }),
    {
        Vec2 { x, y }
    }

    /// The vector with both coordinates zero.
    pub fn zero() -> (v: Vec2)
        ensures
            v == (Vec2 { x: 0, y: 0 }),
    {
        Vec2 { x: 0, y: 0 }
    }

    /// Tells whether both coordinates are zero.
    pub fn is_zero(&self) -> (zero: bool)
        ensures
            zero == self.is_null(),
    {
        self.x == 0 && self.y == 0
    }

    /// The sign of the angle by which the vector is turned away from the
    /// positive x-axis.
    pub fn turn(&self) -> (sense: i32)
        ensures
            sense == self.turn_sense(),
    {
        if self.y < 0 {
            -1
        } else {
            1
        }
    }

    /// Computes the squared distance exactly: no pair of grid points is too
    /// far apart for the result.
    pub fn distance_squared(&self, other: &Vec2) -> (d: u128)
        ensures
            d == self.dist_sq(*other),
    {
        let dx: i128 = self.x as i128 - other.x as i128;
        let dy: i128 = self.y as i128 - other.y as i128;
        proof {
            lemma_square_bounded(dx as int);
            lemma_square_bounded(dy as int);
        }
        (dx * dx + dy * dy) as u128
    }
}

/// A squared distance is never negative, and it is the same in both
/// directions.
pub proof fn lemma_dist_sq_symmetric(a: Vec2, b: Vec2)
    by (nonlinear_arith)
    ensures
        a.dist_sq(b) == b.dist_sq(a),
        a.dist_sq(b) >= 0,
        a.dist_sq(a) == 0,
{
}

} // verus!
