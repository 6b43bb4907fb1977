//! Elastic collisions between particles of equal mass.
//!
//! Two particles collide in a step if the positions that their free flight
//! would reach lie within two radii of each other. The collision changes
//! velocities only: the difference of the two velocities is turned by the
//! direction of the separation, and their sum is kept.

use vstd::prelude::*;
use crate::fixed::{
    clamp, floor_sqrt, integer_sqrt, lemma_square_monotonic, lemma_trunc_div_bound, magnitude,
    trunc_div, wide_product, Fixed,
};
use crate::particle::{Ball, BallModel};
use crate::vector::{advance, norm_squared, Pair, Vec2};

verus! {

/// The factor by which a separation is enlarged before its length is taken:
/// two to the power 22. It bounds the error of the turn for separations of a
/// few raw units.
pub const ROTATION_SCALE: i64 = 4_194_304;

/// The length of `d`, times [`ROTATION_SCALE`], rounded down.
pub open spec fn scaled_length(d: Pair) -> int {
    floor_sqrt(norm_squared(d) * ROTATION_SCALE * ROTATION_SCALE)
}

/// The vector `w` turned by the angle that the non-zero `d` makes with the
/// horizontal axis: the complex product of `w` and `d`, divided by the length
/// of `d`, each component rounded towards zero.
pub open spec fn rotate(d: Pair, w: Pair) -> Pair {
    Pair {
        x: trunc_div((d.x * w.x - d.y * w.y) * ROTATION_SCALE, scaled_length(d)),
        y: trunc_div((d.y * w.x + d.x * w.y) * ROTATION_SCALE, scaled_length(d)),
    }
}

/// What the first of two colliding particles gains and the second loses:
/// half of the change of the relative velocity `w` when it is turned by the
/// direction of `d`. A separation of length zero has no direction, and
/// nothing is transferred.
pub open spec fn transfer(d: Pair, w: Pair) -> Pair {
    if d.x == 0 && d.y == 0 {
        Pair { x: 0, y: 0 }
    } else {
        Pair { x: trunc_div(rotate(d, w).x - w.x, 2), y: trunc_div(rotate(d, w).y - w.y, 2) }
    }
}

/// The velocities after a collision of two particles with velocities `vi` and
/// `vj` whose look-ahead positions are separated by `d`.
///
/// With `cm` the mean of the two velocities and `R` the turn by the direction
/// of `d`, the first particle leaves with `cm - R(vj - cm)` and the second with
/// `cm - R(vi - cm)`. Since `vi - cm` is half of `w = vi - vj` and `vj - cm` its
/// opposite, that is `vi + (R(w) - w) / 2` and `vj - (R(w) - w) / 2`: what the one
/// gains the other loses. Each component saturates on its own.
pub open spec fn exchange(vi: Pair, vj: Pair, d: Pair) -> (Pair, Pair) {
    let k = transfer(d, difference(vi, vj));
    (
        Pair { x: clamp(vi.x + k.x), y: clamp(vi.y + k.y) },
        Pair { x: clamp(vj.x - k.x), y: clamp(vj.y - k.y) },
    )
}

/// The exact difference of two points.
pub open spec fn difference(a: Pair, b: Pair) -> Pair {
    Pair { x: a.x - b.x, y: a.y - b.y }
}

/// The separation of the positions that the free flight of two particles
/// would reach after the time `dt`.
pub open spec fn separation(bi: BallModel, bj: BallModel, dt: int) -> Pair {
    difference(advance(bi.position, bi.velocity, dt), advance(bj.position, bj.velocity, dt))
}

/// Whether two particles of radius `r` collide in a step of length `dt`:
/// they are within ten radii of each other horizontally, and their look-ahead
/// positions are within two radii of each other.
pub open spec fn collides(bi: BallModel, bj: BallModel, dt: int, r: int) -> bool {
    &&& magnitude(bi.position.x - bj.position.x) <= 10 * r
    &&& r >= 0
    &&& norm_squared(separation(bi, bj, dt)) <= 4 * r * r
}

/// The two particles after their encounter in a step of length `dt`: with
/// exchanged velocities if they collide, unchanged if not.
pub open spec fn collide_pair(bi: BallModel, bj: BallModel, dt: int, r: int) -> (BallModel, BallModel) {
    if collides(bi, bj, dt, r) {
        (
            BallModel {
                velocity: exchange(bi.velocity, bj.velocity, separation(bi, bj, dt)).0,
                ..bi
            },
            BallModel {
                velocity: exchange(bi.velocity, bj.velocity, separation(bi, bj, dt)).1,
                ..bj
            },
        )
    } else {
        (bi, bj)
    }
}

/// The particles after the encounter of those at the indices `i` and `j`.
pub open spec fn collide_at(balls: Seq<BallModel>, i: int, j: int, dt: int, r: int) -> Seq<BallModel> {
    balls.update(i, collide_pair(balls[i], balls[j], dt, r).0).update(
        j,
        collide_pair(balls[i], balls[j], dt, r).1,
    )
}

/// The particles after the encounters of the one at index `i` with those at
/// the indices below `j_end`, in rising order.
pub open spec fn collide_row(balls: Seq<BallModel>, i: int, j_end: int, dt: int, r: int) -> Seq<
    BallModel,
>
    decreases j_end,
{
    if j_end <= 0 {
        balls
    } else {
        collide_at(collide_row(balls, i, j_end - 1, dt, r), i, j_end - 1, dt, r)
    }
}

/// The particles after the rows of encounters of the indices below `i_end`,
/// in rising order.
pub open spec fn collide_rows(balls: Seq<BallModel>, i_end: int, dt: int, r: int) -> Seq<BallModel>
    decreases i_end,
{
    if i_end <= 0 {
        balls
    } else {
        collide_row(collide_rows(balls, i_end - 1, dt, r), i_end - 1, i_end - 1, dt, r)
    }
}

/// The particles after one pass of collisions: every pair meets once, each
/// pair seeing the velocities that the pairs before it have left.
pub open spec fn collide_all(balls: Seq<BallModel>, dt: int, r: int) -> Seq<BallModel> {
    collide_rows(balls, balls.len() as int, dt, r)
}

/// Whether two populations have the same particles at the same places, in
/// the same states: they differ in velocities at most.
pub open spec fn same_places(a: Seq<BallModel>, b: Seq<BallModel>) -> bool {
    &&& a.len() == b.len()
    &&& forall|k: int|
        0 <= k < a.len() ==> (#[trigger] a[k]).position == b[k].position && a[k].state == b[k].state
}

/// The encounters of one particle with those before it move no particle.
pub proof fn lemma_collide_row_keeps_places(balls: Seq<BallModel>, i: int, j_end: int, dt: int, r: int)
    requires
        0 <= j_end <= i < balls.len(),
    ensures
        same_places(collide_row(balls, i, j_end, dt, r), balls),
    decreases j_end,
{
    if j_end > 0 {
        lemma_collide_row_keeps_places(balls, i, j_end - 1, dt, r);
    }
}

/// The rows of encounters of the first particles move no particle.
pub proof fn lemma_collide_rows_keep_places(balls: Seq<BallModel>, i_end: int, dt: int, r: int)
    requires
        0 <= i_end <= balls.len(),
    ensures
        same_places(collide_rows(balls, i_end, dt, r), balls),
    decreases i_end,
{
    if i_end > 0 {
        lemma_collide_rows_keep_places(balls, i_end - 1, dt, r);
        lemma_collide_row_keeps_places(
            collide_rows(balls, i_end - 1, dt, r),
            i_end - 1,
            i_end - 1,
            dt,
            r,
        );
    }
}

/// A pass of collisions changes velocities only: it keeps the number of
/// particles, and the position and the state of each.
pub proof fn lemma_collisions_keep_places(balls: Seq<BallModel>, dt: int, r: int)
    ensures
        same_places(collide_all(balls, dt, r), balls),
{
    lemma_collide_rows_keep_places(balls, balls.len() as int, dt, r);
}

/// One component of the turned vector: `numerator` times the scale, over `length`.
fn turned_component(numerator: i128, length: u128) -> (q: i128)
    requires
        -0x8_0000_0000_0000_0000_0000 <= numerator <= 0x8_0000_0000_0000_0000_0000,
        0 < length < 0x1_0000_0000_0000_0000,
    ensures
        q == trunc_div(numerator * ROTATION_SCALE, length as int),
        -0x2_0000_0000_0000_0000_0000_0000_0000 <= q <= 0x2_0000_0000_0000_0000_0000_0000_0000,
{
    proof {
        lemma_trunc_div_bound(numerator * ROTATION_SCALE, length as int);
    }
    (numerator * (ROTATION_SCALE as i128)) / (length as i128)
}

/// The velocities after a collision of two particles with velocities `vi` and
/// `vj` whose free flight would take them to `ahead_i` and `ahead_j`.
pub fn exchange_velocities(vi: Vec2, vj: Vec2, ahead_i: Vec2, ahead_j: Vec2) -> (r: (Vec2, Vec2))
    ensures
        r.0@ == exchange(vi@, vj@, difference(ahead_i@, ahead_j@)).0,
        r.1@ == exchange(vi@, vj@, difference(ahead_i@, ahead_j@)).1,
{
    let dx: i64 = ahead_i.x.raw() - ahead_j.x.raw();
    let dy: i64 = ahead_i.y.raw() - ahead_j.y.raw();
    let wx: i64 = vi.x.raw() - vj.x.raw();
    let wy: i64 = vi.y.raw() - vj.y.raw();
    if dx == 0 && dy == 0 {
        return (vi, vj);
    }
    proof {
        assert(dx * dx >= 0 && dy * dy >= 0 && dx * dx + dy * dy >= 1) by (nonlinear_arith)
            requires
                dx != 0 || dy != 0,
        ;
    }
    let squared: u128 = (wide_product(dx, dx) + wide_product(dy, dy)) as u128;
    let scale: u128 = ROTATION_SCALE as u128;
    let length: u128 = integer_sqrt(squared * scale * scale);
    proof {
        assert(squared * scale * scale >= scale * scale) by (nonlinear_arith)
            requires
                squared >= 1,
                scale >= 0,
        ;
        if length < scale {
            lemma_square_monotonic(length as int + 1, scale as int);
        }
        assert(norm_squared(Pair { x: dx as int, y: dy as int }) * ROTATION_SCALE * ROTATION_SCALE
            == squared * scale * scale);
    }
    let qx: i128 = turned_component(wide_product(dx, wx) - wide_product(dy, wy), length);
    let qy: i128 = turned_component(wide_product(dy, wx) + wide_product(dx, wy), length);
    let kx: i128 = (qx - (wx as i128)) / 2;
    let ky: i128 = (qy - (wy as i128)) / 2;
    (
        Vec2::new(
            Fixed::saturating((vi.x.raw() as i128) + kx),
            Fixed::saturating((vi.y.raw() as i128) + ky),
        ),
        Vec2::new(
            Fixed::saturating((vj.x.raw() as i128) - kx),
            Fixed::saturating((vj.y.raw() as i128) - ky),
        ),
    )
}

/// Lets two particles of radius `collision_radius` meet in a step of length
/// `t`, and returns them as they leave.
pub fn collide_balls(ball: Ball, other: Ball, t: Fixed, collision_radius: Fixed) -> (r: (Ball, Ball))
    ensures
        r.0@ == collide_pair(ball@, other@, t@, collision_radius@).0,
        r.1@ == collide_pair(ball@, other@, t@, collision_radius@).1,
{
    let radius: i64 = collision_radius.raw();
    let gap: i64 = ball.coord().x.raw() - other.coord().x.raw();
    let near: bool = if gap < 0 {
        -gap <= 10 * radius
    } else {
        gap <= 10 * radius
    };
    if !near || radius < 0 {
        return (ball, other);
    }
    let new_coord_one: Vec2 = ball.coord().advanced(ball.speed(), t);
    let new_coord_other: Vec2 = other.coord().advanced(other.speed(), t);
    let dx: i64 = new_coord_one.x.raw() - new_coord_other.x.raw();
    let dy: i64 = new_coord_one.y.raw() - new_coord_other.y.raw();
    proof {
        assert(4 * radius * radius == 4 * (radius * radius)) by (nonlinear_arith);
    }
    let squared: i128 = wide_product(dx, dx) + wide_product(dy, dy);
    let reach: i128 = 4 * wide_product(radius, radius);
    if squared > reach {
        return (ball, other);
    }
    let (new_ball_speed, new_other_speed) = exchange_velocities(
        ball.speed(),
        other.speed(),
        new_coord_one,
        new_coord_other,
    );
    let mut one: Ball = ball;
    let mut two: Ball = other;
    one.set_speed(new_ball_speed);
    two.set_speed(new_other_speed);
    (one, two)
}

} // verus!
