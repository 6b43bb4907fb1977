//! A particle, the step that moves it through the box, and its first placement.

use vstd::prelude::*;
use crate::fixed::{fx_mul, fx_sqrt, Fixed};
use crate::gate::{gate_contains, refract};
use crate::geometry::{blocked, BoxModel, BoxStructure};
use crate::vector::{advance, flip_x, flip_y, scale, Pair, Vec2};

verus! {

/// How many spots are tried for one particle before its placement fails.
pub const PLACEMENT_ATTEMPTS: usize = 10;

/// Whether a particle is in transit through the aperture in the wall.
#[derive(Clone, Copy, Debug, PartialEq, Eq)]
pub enum GateState {
    /// Not in transit: the filter acts when the particle next enters the aperture.
    Free,
    /// Inside the aperture; the filter has already acted on this crossing.
    InGate,
}

/// What a [`Ball`] stands for in contracts.
pub struct BallModel {
    pub position: Pair,
    pub velocity: Pair,
    pub state: GateState,
}

/// What a [`Draw`] stands for in contracts.
pub struct DrawModel {
    pub spots: Seq<Pair>,
    pub normal: int,
    pub heading: Pair,
}

/// Why a particle could not be created.
#[derive(Clone, Copy, Debug, PartialEq, Eq)]
pub enum InitError {
    /// None of the spots that were tried for a particle is free.
    Unplaceable,
    /// There are fewer draws than particles.
    MissingDraw,
}

/// The random numbers that one new particle consumes, drawn by the caller.
#[derive(Debug)]
pub struct Draw {
    /// Candidate positions in the unit square, in the order in which they are tried.
    pub spots: Vec<Vec2>,
    /// A sample of the standard normal distribution.
    pub normal: Fixed,
    /// The direction of the velocity, as a vector of length one.
    pub heading: Vec2,
}

impl View for Draw {
    type V = DrawModel;

    open spec fn view(&self) -> DrawModel {
        DrawModel {
            spots: self.spots@.map_values(|v: Vec2| v@),
            normal: self.normal@,
            heading: self.heading@,
        }
    }
}

/// What the wall-reflection step makes of a particle whose free flight would
/// end at `tentative`, and whether it was reflected.
///
/// If moving in x alone is blocked, the horizontal velocity is reversed. Else
/// if the full move is blocked, the vertical velocity is reversed. In both
/// cases the particle stays where it is. Otherwise it moves to `tentative`.
pub open spec fn reflect(b: BoxModel, ball: BallModel, tentative: Pair, r: int) -> (BallModel, bool) {
    if blocked(b, Pair { x: tentative.x, y: ball.position.y }, r) {
        (BallModel { velocity: flip_x(ball.velocity), ..ball }, true)
    } else if blocked(b, tentative, r) {
        (BallModel { velocity: flip_y(ball.velocity), ..ball }, true)
    } else {
        (BallModel { position: tentative, ..ball }, false)
    }
}

/// The particle `ball` one time step `dt` later, in the box `b`, for particles
/// of radius `r`.
///
/// A free particle whose flight ends outside the aperture is moved or
/// reflected and stays free. One whose flight ends inside the aperture moves
/// there, is then in transit, and the filter acts on it once. A particle in
/// transit whose flight ends inside the aperture moves on untouched. One whose
/// flight ends outside is moved or reflected; it is free again only if it moved.
pub open spec fn step_ball(b: BoxModel, ball: BallModel, dt: int, r: int) -> BallModel {
    let tentative = advance(ball.position, ball.velocity, dt);
    let entering = gate_contains(b.gate, b.wall_left, b.wall_right, tentative, r);
    match ball.state {
        GateState::Free => if entering {
            BallModel {
                position: tentative,
                velocity: refract(b.gate.filter, ball.velocity),
                state: GateState::InGate,
            }
        } else {
            reflect(b, ball, tentative, r).0
        },
        GateState::InGate => if entering {
            BallModel { position: tentative, ..ball }
        } else {
            let (moved, reflected) = reflect(b, ball, tentative, r);
            BallModel {
                state: if reflected {
                    GateState::InGate
                } else {
                    GateState::Free
                },
                ..moved
            }
        },
    }
}

/// Whether a particle of radius `r` is where it may be: not blocked, and
/// inside the aperture if its state says that it is in transit.
pub open spec fn well_placed(b: BoxModel, ball: BallModel, r: int) -> bool {
    &&& !blocked(b, ball.position, r)
    &&& ball.state == GateState::InGate ==> gate_contains(
        b.gate,
        b.wall_left,
        b.wall_right,
        ball.position,
        r,
    )
}

/// How many of the given spots are tried.
pub open spec fn attempts(spots: Seq<Pair>) -> int {
    if spots.len() < PLACEMENT_ATTEMPTS {
        spots.len() as int
    } else {
        PLACEMENT_ATTEMPTS as int
    }
}

/// The point of the box `b` that a spot of the unit square stands for.
pub open spec fn spot_in_box(b: BoxModel, spot: Pair) -> Pair {
    Pair { x: fx_mul(spot.x, b.width), y: fx_mul(spot.y, b.height) }
}

/// The first free point among the spots from index `k` on that are tried.
pub open spec fn placement_from(b: BoxModel, r: int, spots: Seq<Pair>, k: int) -> Option<Pair>
    decreases attempts(spots) - k,
{
    if k < 0 || k >= attempts(spots) {
        None
    } else if !blocked(b, spot_in_box(b, spots[k]), r) {
        Some(spot_in_box(b, spots[k]))
    } else {
        placement_from(b, r, spots, k + 1)
    }
}

/// Where a particle of radius `r` is placed in the box `b`: at the first of
/// the spots tried that is free, if there is one.
pub open spec fn placement(b: BoxModel, r: int, spots: Seq<Pair>) -> Option<Pair> {
    placement_from(b, r, spots, 0)
}

/// The velocity of a new particle: `normal` times the square root of the
/// temperature, along `heading`.
pub open spec fn initial_velocity(temperature: int, normal: int, heading: Pair) -> Pair {
    scale(fx_mul(normal, fx_sqrt(temperature)), heading)
}

/// The particle that `draw` gives in the box `b`, if it can be placed.
pub open spec fn initial_ball(b: BoxModel, temperature: int, draw: DrawModel, r: int) -> Option<
    BallModel,
> {
    match placement(b, r, draw.spots) {
        Some(position) => Some(
            BallModel {
                position,
                velocity: initial_velocity(temperature, draw.normal, draw.heading),
                state: GateState::Free,
            },
        ),
        None => None,
    }
}

/// A particle: where it is, how fast it moves, and whether it is in transit
/// through the aperture.
#[derive(Clone, Copy, Debug, PartialEq, Eq)]
pub struct Ball {
    coord: Vec2,
    speed: Vec2,
    state: GateState,
}

impl View for Ball {
    type V = BallModel;

    closed spec fn view(&self) -> BallModel {
        BallModel { position: self.coord@, velocity: self.speed@, state: self.state }
    }
}

impl Ball {
    /// A free particle at `coord` that moves with `speed`.
    pub fn new(coord: Vec2, speed: Vec2) -> (r: Ball)
        ensures
            r@ == (BallModel { position: coord@, velocity: speed@, state: GateState::Free }),
    {
        Ball { coord, speed, state: GateState::Free }
    }

    /// Where the particle is.
    pub fn coord(&self) -> (r: Vec2)
        ensures
            r@ == self@.position,
    {
        self.coord
    }

    /// How fast the particle moves.
    pub fn speed(&self) -> (r: Vec2)
        ensures
            r@ == self@.velocity,
    {
        self.speed
    }

    /// Whether the particle is free or in transit through the aperture.
    pub fn state(&self) -> (r: GateState)
        ensures
            r == self@.state,
    {
        self.state
    }

    /// Replaces the velocity and leaves the rest as it is.
    pub fn set_speed(&mut self, speed: Vec2)
        ensures
            final(self)@ == (BallModel { velocity: speed@, ..old(self)@ }),
    {
        self.speed = speed;
    }

    /// Moves the particle by one time step `t` in the box `b`.
    pub fn step(&mut self, b: &BoxStructure, t: Fixed, collision_radius: Fixed)
        ensures
            final(self)@ == step_ball(b@, old(self)@, t@, collision_radius@),
    {
        let new_coord: Vec2 = self.coord.advanced(self.speed, t);
        let entering: bool = b.maxwell().in_bounds(b, new_coord, collision_radius);
        match self.state {
            GateState::Free => {
                if entering {
                    self.state = GateState::InGate;
                    self.coord = new_coord;
                    b.maxwell().refract_ball(self);
                } else {
                    self.wall_reflaction(b, new_coord, collision_radius);
                }
            },
            GateState::InGate => {
                if entering {
                    self.coord = new_coord;
                } else if self.wall_reflaction(b, new_coord, collision_radius) {
                    self.state = GateState::InGate;
                } else {
                    self.state = GateState::Free;
                }
            },
        }
    }

    /// Moves the particle to `new_coord` if neither the box nor the wall is
    /// in the way, and reverses one component of its velocity otherwise.
    /// Returns whether the particle was reflected.
    pub fn wall_reflaction(&mut self, b: &BoxStructure, new_coord: Vec2, collision_radius: Fixed) -> (reflected:
        bool)
        ensures
            final(self)@ == reflect(b@, old(self)@, new_coord@, collision_radius@).0,
            reflected == reflect(b@, old(self)@, new_coord@, collision_radius@).1,
    {
        if b.in_bounds(Vec2::new(new_coord.x, self.coord.y), collision_radius) {
            self.speed = self.speed.flipped_x();
        } else if b.in_bounds(new_coord, collision_radius) {
            self.speed = self.speed.flipped_y();
        } else {
            self.coord = new_coord;
            return false;
        }
        true
    }

    /// Creates a particle from the random numbers in `draw`: at the first
    /// free spot among the first [`PLACEMENT_ATTEMPTS`], with a velocity of
    /// `draw.normal` times the square root of the temperature along
    /// `draw.heading`, and free. Fails if none of those spots is free.
    pub fn random_initiation(
        structure: &BoxStructure,
        temperature: Fixed,
        draw: &Draw,
        collision_radius: Fixed,
    ) -> (r: Result<Ball, InitError>)
        requires
            temperature@ >= 0,
        ensures
            match r {
                Ok(ball) => Some(ball@) == initial_ball(
                    structure@,
                    temperature@,
                    draw@,
                    collision_radius@,
                ),
                Err(e) => e == InitError::Unplaceable && initial_ball(
                    structure@,
                    temperature@,
                    draw@,
                    collision_radius@,
                ) is None,
            },
    {
        let limit: usize = if draw.spots.len() < PLACEMENT_ATTEMPTS {
            draw.spots.len()
        } else {
            PLACEMENT_ATTEMPTS
        };
        let speed: Fixed = draw.normal.mul(temperature.sqrt());
        let velocity: Vec2 = draw.heading.scaled(speed);
        let mut k: usize = 0;
        while k < limit
            invariant
                k <= limit,
                velocity@ == initial_velocity(temperature@, draw@.normal, draw@.heading),
                limit == attempts(draw@.spots),
                placement_from(structure@, collision_radius@, draw@.spots, k as int) == placement(
                    structure@,
                    collision_radius@,
                    draw@.spots,
                ),
            decreases limit - k,
        {
            let spot: Vec2 = draw.spots[k];
            let coord: Vec2 = Vec2::new(spot.x.mul(structure.width()), spot.y.mul(structure.height()));
            assert(coord@ == spot_in_box(structure@, draw@.spots[k as int]));
            if !structure.in_bounds(coord, collision_radius) {
                return Ok(Ball::new(coord, velocity));
            }
            k += 1;
        }
        Err(InitError::Unplaceable)
    }
}

} // verus!
