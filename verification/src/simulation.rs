//! The simulation: the box, the particles in it, and the step that advances them.

use vstd::prelude::*;
use crate::collision::{
    collide_all, collide_at, collide_balls, collide_row, collide_rows,
    lemma_collisions_keep_places, same_places,
};
use crate::fixed::Fixed;
use crate::gate::{Filter, MaxwellType};
use crate::geometry::{
    default_box, left_count, middle, reconfigured, BoxModel, BoxStructure,
};
use crate::laws::{lemma_new_population_is_well_placed, lemma_step_keeps_simulation_well_placed};
use crate::particle::{
    initial_ball, step_ball, well_placed, Ball, BallModel, Draw, DrawModel, InitError,
};

verus! {

/// Radius of the particles of a new simulation: one tenth, to the nearest raw unit.
pub const DEFAULT_RADIUS: i64 = 1_677_722;

/// What a [`Simulation`] stands for in contracts.
pub struct SimModel {
    pub structure: BoxModel,
    pub radius: int,
    pub collisions: bool,
    pub balls: Seq<BallModel>,
}

/// What a vector of particles stands for in contracts.
pub open spec fn ball_models(balls: Seq<Ball>) -> Seq<BallModel> {
    balls.map_values(|b: Ball| b@)
}

/// What a vector of draws stands for in contracts.
pub open spec fn draw_models(draws: Seq<Draw>) -> Seq<DrawModel> {
    draws.map_values(|d: Draw| d@)
}

/// The particles after each has made its own step of length `dt`.
pub open spec fn step_all(b: BoxModel, balls: Seq<BallModel>, dt: int, r: int) -> Seq<BallModel> {
    balls.map_values(|ball: BallModel| step_ball(b, ball, dt, r))
}

/// The simulation one time step `dt` later: first the pass of collisions, if
/// they are enabled, which changes velocities only; then the step of each
/// particle with its new velocity.
pub open spec fn sim_step(s: SimModel, dt: int) -> SimModel {
    SimModel {
        balls: step_all(
            s.structure,
            if s.collisions {
                collide_all(s.balls, dt, s.radius)
            } else {
                s.balls
            },
            dt,
            s.radius,
        ),
        ..s
    }
}

/// The first `n` particles that the draws give in the box `b`, if each of
/// them can be placed.
pub open spec fn initial_balls(b: BoxModel, temperature: int, r: int, draws: Seq<DrawModel>, n: int) -> Option<
    Seq<BallModel>,
>
    decreases n,
{
    if n <= 0 {
        Some(Seq::empty())
    } else {
        match (initial_balls(b, temperature, r, draws, n - 1), initial_ball(b, temperature, draws[n - 1], r)) {
            (Some(balls), Some(ball)) => Some(balls.push(ball)),
            _ => None,
        }
    }
}

/// The simulation `s` after it has been filled anew: its wall and gate
/// replaced, and `n` new particles of the given radius in place of the old
/// ones, made from the first `n` draws. There is none if one of the
/// particles cannot be placed.
pub open spec fn configured(
    s: SimModel,
    n: int,
    temperature: int,
    radius: int,
    filter_height: int,
    filter: Filter,
    collisions: bool,
    wall_width: int,
    draws: Seq<DrawModel>,
) -> Option<SimModel> {
    let structure = reconfigured(s.structure, wall_width, filter, filter_height);
    match initial_balls(structure, temperature, radius, draws, n) {
        Some(balls) => Some(SimModel { structure, radius, collisions, balls }),
        None => None,
    }
}

/// Whether every particle of the simulation is where it may be.
pub open spec fn all_well_placed(s: SimModel) -> bool {
    forall|k: int| 0 <= k < s.balls.len() ==> well_placed(s.structure, #[trigger] s.balls[k], s.radius)
}

/// The state of a new simulation: the default box, particles of radius one
/// tenth, collisions enabled, and no particle.
pub open spec fn default_simulation() -> SimModel {
    SimModel {
        structure: default_box(),
        radius: DEFAULT_RADIUS as int,
        collisions: true,
        balls: Seq::empty(),
    }
}

/// The box and the particles that bounce in it.
#[derive(Debug)]
pub struct Simulation {
    structure: BoxStructure,
    collision_radius: Fixed,
    collisions: bool,
    balls: Vec<Ball>,
}

impl View for Simulation {
    type V = SimModel;

    closed spec fn view(&self) -> SimModel {
        SimModel {
            structure: self.structure@,
            radius: self.collision_radius@,
            collisions: self.collisions,
            balls: ball_models(self.balls@),
        }
    }
}

impl Simulation {
    /// A simulation with the default box and no particle.
    pub fn new() -> (r: Simulation)
        ensures
            r@ == default_simulation(),
    {
        let r = Simulation {
            structure: BoxStructure::new(),
            collision_radius: Fixed::from_raw(DEFAULT_RADIUS),
            collisions: true,
            balls: Vec::new(),
        };
        assert(r@.balls =~= Seq::empty());
        r
    }

    /// A simulation with the given box, radius and particles.
    pub fn from_parts(structure: BoxStructure, collision_radius: Fixed, collisions: bool, balls: Vec<Ball>) -> (r:
        Simulation)
        ensures
            r@ == (SimModel {
                structure: structure@,
                radius: collision_radius@,
                collisions,
                balls: ball_models(balls@),
            }),
    {
        Simulation { structure, collision_radius, collisions, balls }
    }

    /// Advances the simulation by one time step `t`.
    pub fn step(&mut self, t: Fixed)
        ensures
            final(self)@ == sim_step(old(self)@, t@),
            final(self)@.balls.len() == old(self)@.balls.len(),
            all_well_placed(old(self)@) ==> all_well_placed(final(self)@),
    {
        proof {
            lemma_collisions_keep_places(self@.balls, t@, self@.radius);
            if all_well_placed(self@) {
                lemma_step_keeps_simulation_well_placed(self@, t@);
            }
        }
        if self.collisions {
            self.ball_collider(t);
        }
        let ghost collided = self@;
        let n: usize = self.balls.len();
        let mut i: usize = 0;
        while i < n
            invariant
                i <= n,
                self.balls.len() == n,
                collided.balls.len() == n,
                self@.structure == collided.structure,
                self@.radius == collided.radius,
                self@.collisions == collided.collisions,
                forall|k: int|
                    0 <= k < i ==> #[trigger] self@.balls[k] == step_ball(
                        collided.structure,
                        collided.balls[k],
                        t@,
                        collided.radius,
                    ),
                forall|k: int| i <= k < n ==> #[trigger] self@.balls[k] == collided.balls[k],
            decreases n - i,
        {
            let ghost before = self@;
            let mut ball: Ball = self.balls[i];
            assert(ball@ == before.balls[i as int]);
            ball.step(&self.structure, t, self.collision_radius);
            self.balls.set(i, ball);
            proof {
                assert(self@.balls =~= before.balls.update(i as int, ball@));
            }
            i += 1;
        }
        assert(self@.balls =~= step_all(collided.structure, collided.balls, t@, collided.radius));
    }

    /// Makes the pass of collisions of one time step `t`: every pair of
    /// particles meets once. Velocities change, positions and states do not.
    pub fn ball_collider(&mut self, t: Fixed)
        ensures
            final(self)@ == (SimModel {
                balls: collide_all(old(self)@.balls, t@, old(self)@.radius),
                ..old(self)@
            }),
            same_places(final(self)@.balls, old(self)@.balls),
    {
        proof {
            lemma_collisions_keep_places(self@.balls, t@, self@.radius);
        }
        let ghost start = self@;
        let n: usize = self.balls.len();
        let mut i: usize = 0;
        while i < n
            invariant
                i <= n,
                self.balls.len() == n,
                start.balls.len() == n,
                self@ == (SimModel {
                    balls: collide_rows(start.balls, i as int, t@, start.radius),
                    ..start
                }),
            decreases n - i,
        {
            let ghost row = self@;
            let mut j: usize = 0;
            while j < i
                invariant
                    j <= i < n,
                    self.balls.len() == n,
                    self@ == (SimModel {
                        balls: collide_row(row.balls, i as int, j as int, t@, row.radius),
                        ..row
                    }),
                decreases i - j,
            {
                let ghost before = self@;
                let pair: (Ball, Ball) = collide_balls(self.balls[i], self.balls[j], t, self.collision_radius);
                self.balls.set(i, pair.0);
                self.balls.set(j, pair.1);
                proof {
                    assert(self@.balls =~= collide_at(before.balls, i as int, j as int, t@, row.radius));
                }
                j += 1;
            }
            i += 1;
        }
    }

    /// Replaces the wall, its gate and all particles: a wall of `wall_width`
    /// about the centre, a gate with `filter_type` and an aperture of
    /// `filter_height`, and `balls_n` particles of radius `radius`, the k-th
    /// made from `draws[k]` as [`Ball::random_initiation`] says. If there are
    /// too few draws, or one of the particles cannot be placed, nothing changes.
    pub fn random_initiation(
        &mut self,
        balls_n: u16,
        temperature: Fixed,
        radius: Fixed,
        filter_height: Fixed,
        filter_type: MaxwellType,
        collisions: bool,
        wall_width: Fixed,
        draws: &Vec<Draw>,
    ) -> (r: Result<(), InitError>)
        requires
            temperature@ >= 0,
        ensures
            match r {
                Ok(_) => draws.len() >= balls_n && Some(final(self)@) == configured(
                    old(self)@,
                    balls_n as int,
                    temperature@,
                    radius@,
                    filter_height@,
                    filter_type@,
                    collisions,
                    wall_width@,
                    draw_models(draws@),
                ) && all_well_placed(final(self)@),
                Err(InitError::MissingDraw) => draws.len() < balls_n && final(self)@ == old(self)@,
                Err(InitError::Unplaceable) => draws.len() >= balls_n && configured(
                    old(self)@,
                    balls_n as int,
                    temperature@,
                    radius@,
                    filter_height@,
                    filter_type@,
                    collisions,
                    wall_width@,
                    draw_models(draws@),
                ) is None && final(self)@ == old(self)@,
            },
    {
        let n: usize = balls_n as usize;
        if draws.len() < n {
            return Err(InitError::MissingDraw);
        }
        let mut structure: BoxStructure = self.structure;
        structure.reconfigure(wall_width, filter_type, filter_height);
        let mut balls: Vec<Ball> = Vec::new();
        let mut k: usize = 0;
        assert(ball_models(balls@) =~= Seq::empty());
        while k < n
            invariant
                k <= n <= draws.len(),
                n == balls_n,
                temperature@ >= 0,
                *self == *old(self),
                structure@ == reconfigured(
                    old(self)@.structure,
                    wall_width@,
                    filter_type@,
                    filter_height@,
                ),
                initial_balls(structure@, temperature@, radius@, draw_models(draws@), k as int) == Some(
                    ball_models(balls@),
                ),
            decreases n - k,
        {
            match Ball::random_initiation(&structure, temperature, &draws[k], radius) {
                Ok(ball) => {
                    let ghost placed = ball_models(balls@);
                    balls.push(ball);
                    proof {
                        assert(draw_models(draws@)[k as int] == draws[k as int]@);
                        assert(ball_models(balls@) =~= placed.push(ball@));
                    }
                },
                Err(_) => {
                    proof {
                        assert(draw_models(draws@)[k as int] == draws[k as int]@);
                        assert(initial_balls(
                            structure@,
                            temperature@,
                            radius@,
                            draw_models(draws@),
                            k as int + 1,
                        ) is None);
                        lemma_initial_balls_fail(
                            structure@,
                            temperature@,
                            radius@,
                            draw_models(draws@),
                            k as int + 1,
                            n as int,
                        );
                    }
                    return Err(InitError::Unplaceable);
                },
            }
            k += 1;
        }
        proof {
            lemma_new_population_is_well_placed(
                structure@,
                temperature@,
                radius@,
                draw_models(draws@),
                n as int,
            );
        }
        self.structure = structure;
        self.collision_radius = radius;
        self.collisions = collisions;
        self.balls = balls;
        Ok(())
    }

    /// How many particles are in the left half of the box, and how many are
    /// not. The two counts add up to the number of particles.
    pub fn count_by_side(&self) -> (r: (usize, usize))
        ensures
            r.0 == left_count(self@.balls, middle(self@.structure)),
            r.0 + r.1 == self@.balls.len(),
    {
        self.structure.count_balls(self)
    }

    /// The box of the simulation.
    pub fn structure(&self) -> (r: BoxStructure)
        ensures
            r@ == self@.structure,
    {
        self.structure
    }

    /// The radius of the particles.
    pub fn collision_radius(&self) -> (r: Fixed)
        ensures
            r@ == self@.radius,
    {
        self.collision_radius
    }

    /// Whether particles collide with each other.
    pub fn collisions(&self) -> (r: bool)
        ensures
            r == self@.collisions,
    {
        self.collisions
    }

    /// The number of particles.
    pub fn len(&self) -> (r: usize)
        ensures
            r == self@.balls.len(),
    {
        self.balls.len()
    }

    /// The particle at index `i`, if there are more than `i` particles.
    pub fn ball(&self, i: usize) -> (r: Option<Ball>)
        ensures
            match r {
                Some(ball) => i < self@.balls.len() && ball@ == self@.balls[i as int],
                None => i >= self@.balls.len(),
            },
    {
        if i < self.balls.len() {
            Some(self.balls[i])
        } else {
            None
        }
    }
}

/// Once the particles up to some count cannot all be placed, no greater
/// number of them can.
pub proof fn lemma_initial_balls_fail(
    b: BoxModel,
    temperature: int,
    r: int,
    draws: Seq<DrawModel>,
    m: int,
    n: int,
)
    requires
        m <= n,
        initial_balls(b, temperature, r, draws, m) is None,
    ensures
        initial_balls(b, temperature, r, draws, n) is None,
    decreases n - m,
{
    if m < n {
        lemma_initial_balls_fail(b, temperature, r, draws, m, n - 1);
    }
}

} // verus!
