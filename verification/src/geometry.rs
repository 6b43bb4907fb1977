//! The box, the wall that divides it, and the test that keeps particles out of both.

use vstd::prelude::*;
use crate::fixed::{fx_half, fx_mul, Fixed, ONE};
use crate::gate::{gate_contains, gate_new, Filter, Gate, Maxwell, MaxwellType};
use crate::particle::BallModel;
use crate::simulation::Simulation;
use crate::vector::{Pair, Vec2};

verus! {

/// Raw units in one half: the horizontal centre of the unit box.
pub const HALF: i64 = 8_388_608;

/// Left face of the wall of a new box: 48 hundredths, to the nearest raw unit.
pub const DEFAULT_WALL_LEFT: i64 = 8_053_064;

/// Right face of the wall of a new box: 52 hundredths, to the nearest raw unit.
pub const DEFAULT_WALL_RIGHT: i64 = 8_724_152;

/// What a [`BoxStructure`] stands for in contracts.
pub struct BoxModel {
    pub width: int,
    pub height: int,
    pub wall_left: int,
    pub wall_right: int,
    pub gate: Gate,
}

/// Whether a particle of radius `r` centred at `p` reaches over an edge of the box.
pub open spec fn out_of_box(b: BoxModel, p: Pair, r: int) -> bool {
    p.x > b.width - r || p.y > b.height - r || p.x < r || p.y < r
}

/// Whether a particle of radius `r` centred at `p` touches the column between
/// the two faces of the wall, at any height.
pub open spec fn in_wall_column(wall_left: int, wall_right: int, p: Pair, r: int) -> bool {
    p.x > wall_left - r && p.x < wall_right + r
}

/// Whether a particle of radius `r` may not be centred at `p`: it would reach
/// over an edge of the box or into the wall, and is not inside the aperture.
pub open spec fn blocked(b: BoxModel, p: Pair, r: int) -> bool {
    (out_of_box(b, p, r) || in_wall_column(b.wall_left, b.wall_right, p, r)) && !gate_contains(
        b.gate,
        b.wall_left,
        b.wall_right,
        p,
        r,
    )
}

/// The left face of a wall of the given width, centred in the unit box.
pub open spec fn wall_left_for(wall_width: int) -> int {
    HALF - fx_half(wall_width)
}

/// The right face of a wall of the given width, centred in the unit box.
pub open spec fn wall_right_for(wall_width: int) -> int {
    HALF + fx_half(wall_width)
}

/// The box `b` with its wall and gate replaced: a wall of the given width
/// about the centre, and a gate with the given filter and aperture height.
pub open spec fn reconfigured(b: BoxModel, wall_width: int, filter: Filter, gate_height: int) -> BoxModel {
    BoxModel {
        wall_left: wall_left_for(wall_width),
        wall_right: wall_right_for(wall_width),
        gate: gate_new(filter, gate_height),
        ..b
    }
}

/// The box of a new simulation: the unit square, a wall from 48 to 52
/// hundredths of its width, and a diode gate that is closed.
pub open spec fn default_box() -> BoxModel {
    BoxModel {
        width: ONE as int,
        height: ONE as int,
        wall_left: DEFAULT_WALL_LEFT as int,
        wall_right: DEFAULT_WALL_RIGHT as int,
        gate: gate_new(Filter::Diode, 0),
    }
}

/// The vertical line that parts the left side of the box from the right:
/// half of its width.
pub open spec fn middle(b: BoxModel) -> int {
    fx_mul(b.width, HALF as int)
}

/// How many of the particles are to the left of the line `x = middle`.
pub open spec fn left_count(balls: Seq<BallModel>, middle: int) -> nat
    decreases balls.len(),
{
    if balls.len() == 0 {
        0
    } else if balls.last().position.x < middle {
        left_count(balls.drop_last(), middle) + 1
    } else {
        left_count(balls.drop_last(), middle)
    }
}

/// The unit box with its dividing wall and the selective gate in that wall.
#[derive(Clone, Copy, Debug, PartialEq)]
pub struct BoxStructure {
    width: Fixed,
    height: Fixed,
    wall_left: Fixed,
    wall_right: Fixed,
    maxwell: Maxwell,
}

impl View for BoxStructure {
    type V = BoxModel;

    closed spec fn view(&self) -> BoxModel {
        BoxModel {
            width: self.width@,
            height: self.height@,
            wall_left: self.wall_left@,
            wall_right: self.wall_right@,
            gate: self.maxwell@,
        }
    }
}

impl BoxStructure {
    /// The box of a new simulation.
    pub fn new() -> (r: BoxStructure)
        ensures
            r@ == default_box(),
    {
        BoxStructure {
            width: Fixed::one(),
            height: Fixed::one(),
            wall_left: Fixed::from_raw(DEFAULT_WALL_LEFT),
            wall_right: Fixed::from_raw(DEFAULT_WALL_RIGHT),
            maxwell: Maxwell::new(MaxwellType::Diode, Fixed::zero()),
        }
    }

    /// Replaces the wall by one of the given width about the centre, and the
    /// gate by one with the given filter and aperture height.
    pub fn reconfigure(&mut self, wall_width: Fixed, filter_type: MaxwellType, filter_height: Fixed)
        ensures
            final(self)@ == reconfigured(old(self)@, wall_width@, filter_type@, filter_height@),
    {
        let half_width: i64 = wall_width.raw() / 2;
        self.wall_left = Fixed::from_raw(HALF - half_width);
        self.wall_right = Fixed::from_raw(HALF + half_width);
        self.maxwell = Maxwell::new(filter_type, filter_height);
    }

    /// Whether a particle of radius `collision_radius` may not be centred at `coords`.
    pub fn in_bounds(&self, coords: Vec2, collision_radius: Fixed) -> (r: bool)
        ensures
            r == blocked(self@, coords@, collision_radius@),
    {
        let x: i64 = coords.x.raw();
        let y: i64 = coords.y.raw();
        let radius: i64 = collision_radius.raw();
        let out_of_box = x > self.width.raw() - radius || y > self.height.raw() - radius || x < radius
            || y < radius;
        let in_wall = x > self.wall_left.raw() - radius && x < self.wall_right.raw() + radius;
        (out_of_box || in_wall) && !self.maxwell.in_bounds(self, coords, collision_radius)
    }

    /// How many particles of `s` are in the left half of this box, and how
    /// many are not. The two counts add up to the number of particles.
    pub fn count_balls(&self, s: &Simulation) -> (r: (usize, usize))
        ensures
            r.0 == left_count(s@.balls, middle(self@)),
            r.0 + r.1 == s@.balls.len(),
    {
        let middle: i64 = self.width.mul(Fixed::from_raw(HALF)).raw();
        let n: usize = s.len();
        let mut n_left: usize = 0;
        let mut k: usize = 0;
        while k < n
            invariant
                k <= n,
                n == s@.balls.len(),
                n_left <= k,
                n_left == left_count(s@.balls.take(k as int), middle as int),
            decreases n - k,
        {
            if let Some(ball) = s.ball(k) {
                if ball.coord().x.raw() < middle {
                    n_left += 1;
                }
            }
            proof {
                assert(s@.balls.take(k as int + 1).drop_last() =~= s@.balls.take(k as int));
            }
            k += 1;
        }
        proof {
            assert(s@.balls.take(n as int) =~= s@.balls);
        }
        (n_left, n - n_left)
    }

    /// Two opposite corners of the wall: bottom left and top right.
    pub fn coords(&self) -> (r: (Vec2, Vec2))
        ensures
            r.0@ == (Pair { x: self@.wall_left, y: 0 }),
            r.1@ == (Pair { x: self@.wall_right, y: self@.height }),
    {
        (Vec2::new(self.wall_left, Fixed::zero()), Vec2::new(self.wall_right, self.height))
    }

    /// The width of the box.
    pub fn width(&self) -> (r: Fixed)
        ensures
            r@ == self@.width,
    {
        self.width
    }

    /// The height of the box.
    pub fn height(&self) -> (r: Fixed)
        ensures
            r@ == self@.height,
    {
        self.height
    }

    /// The left face of the wall.
    pub fn wall_left(&self) -> (r: Fixed)
        ensures
            r@ == self@.wall_left,
    {
        self.wall_left
    }

    /// The right face of the wall.
    pub fn wall_right(&self) -> (r: Fixed)
        ensures
            r@ == self@.wall_right,
    {
        self.wall_right
    }

    /// The selective gate in the wall of this box.
    pub fn maxwell(&self) -> (r: Maxwell)
        ensures
            r@ == self@.gate,
    {
        self.maxwell
    }
}

} // verus!
