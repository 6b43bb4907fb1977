//! What holds of the simulation whatever its state: the laws that relate the
//! step, the filters, the collisions and the placement of new particles.

use vstd::prelude::*;
use crate::collision::{collide_all, lemma_collisions_keep_places};
use crate::fixed::{
    floor_sqrt, fx_mul, in_range, lemma_floor_sqrt, lemma_floor_sqrt_of_square,
    lemma_square_monotonic, magnitude, LIMIT, ONE,
};
use crate::gate::{gate_contains, gate_new, phase_shift, refract, Filter, Gate};
use crate::geometry::{
    blocked, in_wall_column, out_of_box, wall_left_for, wall_right_for, BoxModel,
};
use crate::particle::{
    attempts, initial_ball, placement, placement_from, reflect, spot_in_box, step_ball,
    well_placed, BallModel, DrawModel, GateState,
};
use crate::simulation::{all_well_placed, initial_balls, sim_step, SimModel};
use crate::vector::{advance, flip_x, flip_y, norm_squared, Pair};

verus! {

/// A gate whose top and bottom coincide contains no point, whatever the
/// filter, the wall and the radius.
pub proof fn lemma_closed_gate_contains_nothing(g: Gate, wall_left: int, wall_right: int, p: Pair, r: int)
    requires
        g.top == g.bottom,
    ensures
        !gate_contains(g, wall_left, wall_right, p, r),
{
}

/// A gate made with an aperture of height zero is closed.
pub proof fn lemma_zero_height_closes_gate(filter: Filter)
    ensures
        gate_new(filter, 0).top == gate_new(filter, 0).bottom,
{
}

/// Where a particle is placed, it is not blocked.
pub proof fn lemma_placement_is_free(b: BoxModel, r: int, spots: Seq<Pair>, k: int)
    requires
        0 <= k,
    ensures
        placement_from(b, r, spots, k) matches Some(p) ==> !blocked(b, p, r),
    decreases attempts(spots) - k,
{
    if k < attempts(spots) && blocked(b, spot_in_box(b, spots[k]), r) {
        lemma_placement_is_free(b, r, spots, k + 1);
    }
}

/// With a closed gate, no particle is placed in the column of the wall, at
/// whatever height, nor over an edge of the box.
pub proof fn lemma_closed_gate_keeps_wall_clear(b: BoxModel, r: int, spots: Seq<Pair>)
    requires
        b.gate.top == b.gate.bottom,
    ensures
        placement(b, r, spots) matches Some(p) ==> !in_wall_column(b.wall_left, b.wall_right, p, r)
            && !out_of_box(b, p, r),
{
    lemma_placement_is_free(b, r, spots, 0);
}

/// With a closed gate, none of the particles of a new population stands in
/// the column of the wall.
pub proof fn lemma_closed_gate_population_clear(
    b: BoxModel,
    temperature: int,
    r: int,
    draws: Seq<DrawModel>,
    n: int,
)
    requires
        b.gate.top == b.gate.bottom,
    ensures
        initial_balls(b, temperature, r, draws, n) matches Some(balls) ==> balls.len() == (if n
            > 0 {
            n
        } else {
            0
        }) && forall|k: int|
            0 <= k < balls.len() ==> !in_wall_column(
                b.wall_left,
                b.wall_right,
                (#[trigger] balls[k]).position,
                r,
            ),
    decreases n,
{
    if n > 0 {
        lemma_closed_gate_population_clear(b, temperature, r, draws, n - 1);
        lemma_closed_gate_keeps_wall_clear(b, r, draws[n - 1].spots);
    }
}

/// The empty filter changes no velocity.
pub proof fn lemma_empty_filter_is_transparent(v: Pair)
    ensures
        refract(Filter::Empty, v) == v,
{
}

/// In a box whose gate has the empty filter, a step changes a velocity only
/// by reflection: the velocity after the step is the one before, or its
/// mirror image in one of the axes, and it is the one before whenever the
/// particle moved.
pub proof fn lemma_empty_gate_step(b: BoxModel, ball: BallModel, dt: int, r: int)
    requires
        b.gate.filter == Filter::Empty,
    ensures
        ({
            let after = step_ball(b, ball, dt, r);
            &&& after.velocity == ball.velocity || after.velocity == flip_x(ball.velocity)
                || after.velocity == flip_y(ball.velocity)
            &&& after.position != ball.position ==> after.velocity == ball.velocity
        }),
{
}

/// The filter acts at the moment of entry: a free particle whose flight ends
/// inside the aperture moves there, is now in transit, and has the velocity
/// that the filter makes of the one it came with.
pub proof fn lemma_filter_acts_on_entry(b: BoxModel, ball: BallModel, dt: int, r: int)
    requires
        ball.state == GateState::Free,
        gate_contains(
            b.gate,
            b.wall_left,
            b.wall_right,
            advance(ball.position, ball.velocity, dt),
            r,
        ),
    ensures
        step_ball(b, ball, dt, r) == (BallModel {
            position: advance(ball.position, ball.velocity, dt),
            velocity: refract(b.gate.filter, ball.velocity),
            state: GateState::InGate,
        }),
{
}

/// The diode turns back a particle that enters moving left, and lets one
/// that enters moving right pass: after the entry the horizontal velocity is
/// the magnitude of the one before, and the vertical velocity is unchanged.
pub proof fn lemma_diode_on_entry(b: BoxModel, ball: BallModel, dt: int, r: int)
    requires
        b.gate.filter == Filter::Diode,
        ball.state == GateState::Free,
        gate_contains(
            b.gate,
            b.wall_left,
            b.wall_right,
            advance(ball.position, ball.velocity, dt),
            r,
        ),
    ensures
        step_ball(b, ball, dt, r).state == GateState::InGate,
        step_ball(b, ball, dt, r).velocity == (Pair {
            x: magnitude(ball.velocity.x),
            y: ball.velocity.y,
        }),
        ball.velocity.x < 0 ==> step_ball(b, ball, dt, r).velocity.x == -ball.velocity.x,
{
}

/// The filter does not act again while a particle stays in the aperture: if its
/// flight ends inside the aperture, it moves there with its velocity
/// unchanged, whatever the filter.
pub proof fn lemma_filter_silent_in_transit(b: BoxModel, ball: BallModel, dt: int, r: int)
    requires
        ball.state == GateState::InGate,
        gate_contains(
            b.gate,
            b.wall_left,
            b.wall_right,
            advance(ball.position, ball.velocity, dt),
            r,
        ),
    ensures
        step_ball(b, ball, dt, r) == (BallModel {
            position: advance(ball.position, ball.velocity, dt),
            ..ball
        }),
{
}

/// A particle in transit whose flight ends outside the aperture never meets
/// the filter: it leaves the aperture exactly when it moves, and then with its
/// velocity unchanged; otherwise it is reflected and stays in transit. Once
/// it has left, it is free, and the filter acts at its next entry.
pub proof fn lemma_leaving_the_aperture(b: BoxModel, ball: BallModel, dt: int, r: int)
    requires
        ball.state == GateState::InGate,
        !gate_contains(
            b.gate,
            b.wall_left,
            b.wall_right,
            advance(ball.position, ball.velocity, dt),
            r,
        ),
    ensures
        ({
            let after = step_ball(b, ball, dt, r);
            let reflected = reflect(b, ball, advance(ball.position, ball.velocity, dt), r).1;
            &&& reflected ==> after.state == GateState::InGate && after.position == ball.position
            &&& !reflected ==> after == (BallModel {
                position: advance(ball.position, ball.velocity, dt),
                state: GateState::Free,
                ..ball
            })
        }),
{
}

/// With a shift of zero the phase-conserving filter leaves every velocity as
/// it is; among them those that point to the right.
pub proof fn lemma_zero_phase_shift_is_identity(v: Pair)
    requires
        in_range(v.x),
        in_range(v.y),
    ensures
        phase_shift(0, v) == v,
        refract(Filter::PhaseConserving { c: 0 }, v) == v,
{
    let squared = norm_squared(v);
    assert(v.x * v.x >= 0 && v.y * v.y >= 0) by (nonlinear_arith);
    lemma_floor_sqrt(squared);
    let speed = floor_sqrt(squared);
    let my = magnitude(v.y);
    let mx = magnitude(v.x);
    assert(my * my == v.y * v.y) by (nonlinear_arith)
        requires
            my == v.y || my == -v.y,
    ;
    assert(mx * mx == v.x * v.x) by (nonlinear_arith)
        requires
            mx == v.x || mx == -v.x,
    ;
    if speed < my {
        lemma_square_monotonic(speed + 1, my);
    }
    assert(0 * speed == 0) by (nonlinear_arith);
    assert(squared - v.y * v.y == mx * mx);
    lemma_floor_sqrt_of_square(mx);
}

/// A step keeps a particle where it may be: one that is not blocked is not
/// blocked after the step, and one that is in transit after the
/// step is inside the aperture.
pub proof fn lemma_step_keeps_particle_well_placed(b: BoxModel, ball: BallModel, dt: int, r: int)
    requires
        well_placed(b, ball, r),
    ensures
        well_placed(b, step_ball(b, ball, dt, r), r),
{
}

/// A new particle is where it may be.
pub proof fn lemma_new_particle_is_well_placed(b: BoxModel, temperature: int, draw: DrawModel, r: int)
    ensures
        initial_ball(b, temperature, draw, r) matches Some(ball) ==> well_placed(b, ball, r),
{
    lemma_placement_is_free(b, r, draw.spots, 0);
}

/// A step of the simulation keeps every particle where it may be: out of
/// the wall and inside the box, or inside the aperture.
pub proof fn lemma_step_keeps_simulation_well_placed(s: SimModel, dt: int)
    requires
        all_well_placed(s),
    ensures
        all_well_placed(sim_step(s, dt)),
{
    let collided = if s.collisions {
        collide_all(s.balls, dt, s.radius)
    } else {
        s.balls
    };
    lemma_collisions_keep_places(s.balls, dt, s.radius);
    let after = sim_step(s, dt);
    assert forall|k: int| 0 <= k < after.balls.len() implies well_placed(
        after.structure,
        #[trigger] after.balls[k],
        after.radius,
    ) by {
        assert(well_placed(s.structure, s.balls[k], s.radius));
        assert(collided[k].position == s.balls[k].position);
        assert(collided[k].state == s.balls[k].state);
        lemma_step_keeps_particle_well_placed(s.structure, collided[k], dt, s.radius);
    }
}

/// A new population is where it may be.
pub proof fn lemma_new_population_is_well_placed(
    b: BoxModel,
    temperature: int,
    r: int,
    draws: Seq<DrawModel>,
    n: int,
)
    ensures
        initial_balls(b, temperature, r, draws, n) matches Some(balls) ==> forall|k: int|
            0 <= k < balls.len() ==> well_placed(b, #[trigger] balls[k], r),
    decreases n,
{
    if n > 0 {
        lemma_new_population_is_well_placed(b, temperature, r, draws, n - 1);
        lemma_new_particle_is_well_placed(b, temperature, draws[n - 1], r);
    }
}

/// The square of a number is the square of its opposite.
proof fn lemma_square_of_opposite(a: int)
    ensures
        (-a) * (-a) == a * a,
{
    assert((-a) * (-a) == a * a) by (nonlinear_arith);
}

/// No filter but the phase-conserving one changes the speed of a particle:
/// each of them exchanges or mirrors the components of its velocity.
pub proof fn lemma_filters_keep_speed(filter: Filter, v: Pair)
    requires
        !(filter is PhaseConserving),
    ensures
        norm_squared(refract(filter, v)) == norm_squared(v),
{
    lemma_square_of_opposite(v.x);
    lemma_square_of_opposite(v.y);
}

/// The phase-conserving filter keeps the speed up to rounding. For a
/// velocity whose components are within half the limit, the squared speed
/// does not grow, and falls by no more than twice the magnitude of the new
/// horizontal component.
pub proof fn lemma_phase_shift_keeps_speed(c: int, v: Pair)
    requires
        -LIMIT <= 2 * v.x <= LIMIT,
        -LIMIT <= 2 * v.y <= LIMIT,
    ensures
        norm_squared(phase_shift(c, v)) <= norm_squared(v),
        norm_squared(v) <= norm_squared(phase_shift(c, v)) + 2 * magnitude(phase_shift(c, v).x),
{
    let squared = norm_squared(v);
    assert(0 <= v.x * v.x <= 0x4000_0000_0000_0000_0000 && 0 <= v.y * v.y
        <= 0x4000_0000_0000_0000_0000) by (nonlinear_arith)
        requires
            -0x80_0000_0000 <= v.x <= 0x80_0000_0000,
            -0x80_0000_0000 <= v.y <= 0x80_0000_0000,
    ;
    lemma_floor_sqrt(squared);
    let speed = floor_sqrt(squared);
    if speed >= LIMIT {
        lemma_square_monotonic(LIMIT as int, speed);
        assert(LIMIT * LIMIT == 0x1_0000_0000_0000_0000_0000);
    }
    let vertical = v.y + fx_mul(c, speed);
    if -speed <= vertical <= speed {
        let m = magnitude(vertical);
        lemma_square_monotonic(m, speed);
        assert(m * m == vertical * vertical) by (nonlinear_arith)
            requires
                m == vertical || m == -vertical,
        ;
        let rest = squared - vertical * vertical;
        lemma_floor_sqrt(rest);
        let horizontal = floor_sqrt(rest);
        if horizontal > speed {
            lemma_square_monotonic(speed + 1, horizontal);
        }
        lemma_square_of_opposite(horizontal);
        assert((horizontal + 1) * (horizontal + 1) == horizontal * horizontal + 2 * horizontal + 1)
            by (nonlinear_arith);
    } else {
        lemma_square_of_opposite(v.x);
    }
}

/// A wall of a width between two raw units and the width of the box has its
/// left face to the left of its right face, and both inside the box.
pub proof fn lemma_wall_inside_box(wall_width: int)
    requires
        2 <= wall_width <= ONE,
    ensures
        0 <= wall_left_for(wall_width) < wall_right_for(wall_width) <= ONE,
{
}

} // verus!
