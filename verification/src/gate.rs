//! Maxwell's demon: an aperture in the wall, and the filter that acts on a
//! particle at the moment it enters.

use vstd::prelude::*;
use crate::fixed::{
    clamp, floor_sqrt, fx_mul, integer_sqrt, lemma_square_monotonic, magnitude, trunc_div,
    wide_product, Fixed, LIMIT, ONE,
};
use crate::geometry::{in_wall_column, BoxStructure};
use crate::particle::{Ball, BallModel};
use crate::vector::{flip_x, norm_squared, Pair, Vec2};

verus! {

/// What a [`MaxwellType`] stands for in contracts.
pub enum Filter {
    Diode,
    Temperature { t: int },
    Tennis,
    PhaseConserving { c: int },
    Empty,
}

/// The rule by which a gate changes the velocity of a particle that enters it.
#[derive(Clone, Copy, Debug, PartialEq)]
pub enum MaxwellType {
    /// Turns back what moves to the left.
    Diode,
    /// Turns back the slow among those that move to the left and, among the
    /// others, those whose squared horizontal speed is above `t`.
    Temperature { t: Fixed },
    /// Redirects a particle by exchanging or mirroring its components.
    Tennis,
    /// Adds `c` to the sine of the direction and keeps the speed.
    PhaseConserving { c: Fixed },
    /// Lets every particle pass as it comes.
    Empty,
}

impl View for MaxwellType {
    type V = Filter;

    open spec fn view(&self) -> Filter {
        match *self {
            MaxwellType::Diode => Filter::Diode,
            MaxwellType::Temperature { t } => Filter::Temperature { t: t@ },
            MaxwellType::Tennis => Filter::Tennis,
            MaxwellType::PhaseConserving { c } => Filter::PhaseConserving { c: c@ },
            MaxwellType::Empty => Filter::Empty,
        }
    }
}

/// What a [`Maxwell`] stands for in contracts.
pub struct Gate {
    pub filter: Filter,
    pub top: int,
    pub bottom: int,
}

/// A gate with the given filter whose aperture has the given height about
/// the middle of the unit box. With height zero top and bottom coincide:
/// such a gate is closed.
pub open spec fn gate_new(filter: Filter, height: int) -> Gate {
    Gate { filter, top: trunc_div(ONE + height, 2), bottom: trunc_div(ONE - height, 2) }
}

/// Whether a particle of radius `r` centred at `p` is inside the aperture: the
/// gate is open, the particle touches the column of the wall, and it clears
/// the top and the bottom of the aperture.
pub open spec fn gate_contains(g: Gate, wall_left: int, wall_right: int, p: Pair, r: int) -> bool {
    g.top != g.bottom && in_wall_column(wall_left, wall_right, p, r) && p.y < g.top - r && p.y > g.bottom
        + r
}

/// Whether the temperature filter with threshold `t` turns back a particle of
/// horizontal velocity `vx`.
pub open spec fn temperature_reflects(t: int, vx: int) -> bool {
    if vx < 0 {
        vx * vx < ONE * ONE
    } else {
        vx * vx > t * ONE
    }
}

/// What the tennis filter makes of the velocity `v`. The three cases are
/// tried in this order.
pub open spec fn tennis(v: Pair) -> Pair {
    if v.x * v.y >= 0 && v.x < v.y {
        Pair { x: v.y, y: v.x }
    } else if (v.x < 0 && v.y > 0 && magnitude(v.x) > magnitude(v.y)) || (v.x > 0 && v.y < 0
        && magnitude(v.x) < magnitude(v.y)) {
        Pair { x: -v.y, y: -v.x }
    } else {
        flip_x(v)
    }
}

/// What the phase-conserving filter with shift `c` makes of the velocity `v`.
///
/// The sine of the direction of `v` is `v.y` over the speed, so adding `c` to
/// it and keeping the speed gives the vertical component `v.y + c * speed`.
/// The shift can be realised when that does not exceed the speed. The
/// horizontal component then takes up the rest of the squared speed, and
/// points right exactly when `v` did. Otherwise the particle is turned back.
pub open spec fn phase_shift(c: int, v: Pair) -> Pair {
    let speed = floor_sqrt(norm_squared(v));
    let vertical = v.y + fx_mul(c, speed);
    if -speed <= vertical <= speed {
        let horizontal = floor_sqrt(norm_squared(v) - vertical * vertical);
        Pair { x: clamp(if v.x > 0 { horizontal } else { -horizontal }), y: clamp(vertical) }
    } else {
        flip_x(v)
    }
}

/// The velocity with which a particle goes on that entered a gate with the
/// given filter at the velocity `v`.
pub open spec fn refract(filter: Filter, v: Pair) -> Pair {
    match filter {
        Filter::Empty => v,
        Filter::Diode => if v.x < 0 {
            flip_x(v)
        } else {
            v
        },
        Filter::Temperature { t } => if temperature_reflects(t, v.x) {
            flip_x(v)
        } else {
            v
        },
        Filter::Tennis => tennis(v),
        Filter::PhaseConserving { c } => phase_shift(c, v),
    }
}

/// The selective gate: a filter and the vertical band of its aperture.
#[derive(Clone, Copy, Debug, PartialEq)]
pub struct Maxwell {
    filter_type: MaxwellType,
    top: Fixed,
    bottom: Fixed,
}

impl View for Maxwell {
    type V = Gate;

    closed spec fn view(&self) -> Gate {
        Gate { filter: self.filter_type@, top: self.top@, bottom: self.bottom@ }
    }
}

/// The velocity `v` after the tennis filter.
fn tennis_velocity(v: Vec2) -> (r: Vec2)
    ensures
        r@ == tennis(v@),
{
    let x: i64 = v.x.raw();
    let y: i64 = v.y.raw();
    let product: i128 = wide_product(x, y);
    if product >= 0 && x < y {
        Vec2::new(v.y, v.x)
    } else if (x < 0 && y > 0 && -x > y) || (x > 0 && y < 0 && x < -y) {
        Vec2::new(v.y.neg(), v.x.neg())
    } else {
        v.flipped_x()
    }
}

/// The velocity `v` after the phase-conserving filter with shift `c`.
fn phase_shifted_velocity(c: Fixed, v: Vec2) -> (r: Vec2)
    ensures
        r@ == phase_shift(c@, v@),
{
    let x: i64 = v.x.raw();
    let y: i64 = v.y.raw();
    let xx: i128 = wide_product(x, x);
    let yy: i128 = wide_product(y, y);
    assert(xx >= 0 && yy >= 0) by (nonlinear_arith)
        requires
            xx == x * x,
            yy == y * y,
    ;
    let squared: u128 = (xx + yy) as u128;
    let speed: u128 = integer_sqrt(squared);
    proof {
        if speed > 2 * LIMIT {
            lemma_square_monotonic(2 * LIMIT, speed as int);
        }
    }
    let shift: Fixed = Fixed::saturating(wide_product(c.raw(), speed as i64) / (ONE as i128));
    let vertical: i128 = (y as i128) + (shift.raw() as i128);
    if -(speed as i128) <= vertical && vertical <= speed as i128 {
        proof {
            lemma_square_monotonic(magnitude(vertical as int), speed as int);
            assert(vertical * vertical == magnitude(vertical as int) * magnitude(vertical as int))
                by (nonlinear_arith);
        }
        let rest: u128 = squared - ((vertical * vertical) as u128);
        let horizontal: i128 = integer_sqrt(rest) as i128;
        Vec2::new(
            Fixed::saturating(
                if x > 0 {
                    horizontal
                } else {
                    -horizontal
                },
            ),
            Fixed::saturating(vertical),
        )
    } else {
        v.flipped_x()
    }
}

impl Maxwell {
    /// A gate with the given filter and an aperture of the given height
    /// about the middle of the unit box.
    pub fn new(filter_type: MaxwellType, height: Fixed) -> (r: Maxwell)
        ensures
            r@ == gate_new(filter_type@, height@),
    {
        let h: i64 = height.raw();
        Maxwell { filter_type, top: Fixed::from_raw((ONE + h) / 2), bottom: Fixed::from_raw((ONE - h) / 2) }
    }

    /// Whether a particle of radius `collision_radius` centred at `coords` is
    /// inside the aperture of this gate in the wall of `structure`.
    pub fn in_bounds(&self, structure: &BoxStructure, coords: Vec2, collision_radius: Fixed) -> (r: bool)
        ensures
            r == gate_contains(
                self@,
                structure@.wall_left,
                structure@.wall_right,
                coords@,
                collision_radius@,
            ),
    {
        let top: i64 = self.top.raw();
        let bottom: i64 = self.bottom.raw();
        if top == bottom {
            return false;
        }
        let x: i64 = coords.x.raw();
        let y: i64 = coords.y.raw();
        let radius: i64 = collision_radius.raw();
        let inside_wall = x > structure.wall_left().raw() - radius && x < structure.wall_right().raw()
            + radius;
        let accurate_y = y < top - radius && y > bottom + radius;
        inside_wall && accurate_y
    }

    /// Lets the filter act on a particle that enters this gate: its velocity
    /// changes by the rule of the filter, its position and state stay.
    pub fn refract_ball(&self, ball: &mut Ball)
        ensures
            final(ball)@ == (BallModel {
                velocity: refract(self@.filter, old(ball)@.velocity),
                ..old(ball)@
            }),
    {
        let v: Vec2 = ball.speed();
        match self.filter_type {
            MaxwellType::Empty => {},
            MaxwellType::Diode => {
                if v.x.raw() < 0 {
                    ball.set_speed(v.flipped_x());
                }
            },
            MaxwellType::Temperature { t } => {
                let x: i64 = v.x.raw();
                let squared: i128 = wide_product(x, x);
                if x < 0 {
                    if squared < (ONE as i128) * (ONE as i128) {
                        ball.set_speed(v.flipped_x());
                    }
                } else {
                    if squared > wide_product(t.raw(), ONE) {
                        ball.set_speed(v.flipped_x());
                    }
                }
            },
            MaxwellType::Tennis => {
                ball.set_speed(tennis_velocity(v));
            },
            MaxwellType::PhaseConserving { c } => {
                ball.set_speed(phase_shifted_velocity(c, v));
            },
        }
    }

    /// Two opposite corners of the aperture in the wall of `structure`:
    /// bottom left and top right.
    pub fn coords(&self, structure: &BoxStructure) -> (r: (Vec2, Vec2))
        ensures
            r.0@ == (Pair { x: structure@.wall_left, y: self@.bottom }),
            r.1@ == (Pair { x: structure@.wall_right, y: self@.top }),
    {
        (Vec2::new(structure.wall_left(), self.bottom), Vec2::new(structure.wall_right(), self.top))
    }

    /// The filter of this gate.
    pub fn filter_type(&self) -> (r: MaxwellType)
        ensures
            r@ == self@.filter,
    {
        self.filter_type
    }

    /// The upper end of the aperture.
    pub fn top(&self) -> (r: Fixed)
        ensures
            r@ == self@.top,
    {
        self.top
    }

    /// The lower end of the aperture.
    pub fn bottom(&self) -> (r: Fixed)
        ensures
            r@ == self@.bottom,
    {
        self.bottom
    }
}

} // verus!
