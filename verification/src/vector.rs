//! Points and velocities in the plane.

use vstd::prelude::*;
use crate::fixed::{fx_add, fx_mul, Fixed};

verus! {

/// A point or a velocity in raw units: what a [`Vec2`] stands for in contracts.
pub struct Pair {
    pub x: int,
    pub y: int,
}

/// A point or a velocity with fixed-point components.
#[derive(Clone, Copy, Debug, PartialEq, Eq)]
pub struct Vec2 {
    pub x: Fixed,
    pub y: Fixed,
}

impl View for Vec2 {
    type V = Pair;

    open spec fn view(&self) -> Pair {
        Pair { x: self.x@, y: self.y@ }
    }
}

/// `v` mirrored in the vertical axis.
pub open spec fn flip_x(v: Pair) -> Pair {
    Pair { x: -v.x, y: v.y }
}

/// `v` mirrored in the horizontal axis.
pub open spec fn flip_y(v: Pair) -> Pair {
    Pair { x: v.x, y: -v.y }
}

/// The square of the length of `v`.
pub open spec fn norm_squared(v: Pair) -> int {
    v.x * v.x + v.y * v.y
}

/// Where a particle at `position` with `velocity` stands after the time `dt`,
/// each component saturating on its own.
pub open spec fn advance(position: Pair, velocity: Pair, dt: int) -> Pair {
    Pair {
        x: fx_add(position.x, fx_mul(dt, velocity.x)),
        y: fx_add(position.y, fx_mul(dt, velocity.y)),
    }
}

/// `v` with each component multiplied by `factor`.
pub open spec fn scale(factor: int, v: Pair) -> Pair {
    Pair { x: fx_mul(factor, v.x), y: fx_mul(factor, v.y) }
}

impl Vec2 {
    /// The vector with the given components.
    pub fn new(x: Fixed, y: Fixed) -> (r: Vec2)
        ensures
            r@ == (Pair { x: x@, y: y@ }),
    {
        Vec2 { x, y }
    }

    /// The vector mirrored in the vertical axis.
    pub fn flipped_x(self) -> (r: Vec2)
        ensures
            r@ == flip_x(self@),
    {
        Vec2 { x: self.x.neg(), y: self.y }
    }

    /// The vector mirrored in the horizontal axis.
    pub fn flipped_y(self) -> (r: Vec2)
        ensures
            r@ == flip_y(self@),
    {
        Vec2 { x: self.x, y: self.y.neg() }
    }

    /// The point reached from `self` after moving with `velocity` for the time `dt`.
    pub fn advanced(self, velocity: Vec2, dt: Fixed) -> (r: Vec2)
        ensures
            r@ == advance(self@, velocity@, dt@),
    {
        Vec2 { x: self.x.add(dt.mul(velocity.x)), y: self.y.add(dt.mul(velocity.y)) }
    }

    /// The vector with each component multiplied by `factor`.
    pub fn scaled(self, factor: Fixed) -> (r: Vec2)
        ensures
            r@ == scale(factor@, self@),
    {
        Vec2 { x: factor.mul(self.x), y: factor.mul(self.y) }
    }
}

} // verus!
