//! Conservation in collisions: what the exchange of velocities between two
//! particles of equal mass keeps, exactly and up to rounding.

use vstd::prelude::*;
use crate::collision::{
    difference, exchange, rotate, scaled_length, transfer, ROTATION_SCALE,
};
use crate::fixed::{
    floor_sqrt, in_range, is_floor_sqrt, lemma_floor_sqrt, lemma_floor_sqrt_of_square,
    lemma_square_monotonic, magnitude, trunc_div, LIMIT,
};
use crate::vector::{norm_squared, Pair};

verus! {

/// The magnitude of a product is the product of the magnitudes.
proof fn lemma_magnitude_of_product(a: int, b: int)
    ensures
        magnitude(a * b) == magnitude(a) * magnitude(b),
{
    let ma = magnitude(a);
    let mb = magnitude(b);
    if a >= 0 {
        if b >= 0 {
            assert(a * b >= 0 && ma * mb == a * b) by (nonlinear_arith)
                requires
                    a >= 0,
                    b >= 0,
                    ma == a,
                    mb == b,
            ;
        } else {
            assert(a * b <= 0 && ma * mb == -(a * b)) by (nonlinear_arith)
                requires
                    a >= 0,
                    b < 0,
                    ma == a,
                    mb == -b,
            ;
        }
    } else {
        if b >= 0 {
            assert(a * b <= 0 && ma * mb == -(a * b)) by (nonlinear_arith)
                requires
                    a < 0,
                    b >= 0,
                    ma == -a,
                    mb == b,
            ;
        } else {
            assert(a * b >= 0 && ma * mb == a * b) by (nonlinear_arith)
                requires
                    a < 0,
                    b < 0,
                    ma == -a,
                    mb == -b,
            ;
        }
    }
}

/// The quotient rounded towards zero, times the divisor, stays within one
/// divisor of the dividend, on the side of zero.
proof fn lemma_trunc_div_brackets(a: int, b: int)
    requires
        b > 0,
    ensures
        magnitude(trunc_div(a, b)) * b <= magnitude(a) < (magnitude(trunc_div(a, b)) + 1) * b,
        a >= 0 ==> trunc_div(a, b) >= 0,
        a <= 0 ==> trunc_div(a, b) <= 0,
{
    let m = magnitude(a);
    let q = m / b;
    assert(q * b <= m < (q + 1) * b && q >= 0) by (nonlinear_arith)
        requires
            m >= 0,
            b > 0,
            q == m / b,
    ;
}

/// The scaled length of a non-zero separation is a rounded-down square
/// root, and is at least the scale times the magnitude of either component.
proof fn lemma_scaled_length(d: Pair)
    requires
        d.x != 0 || d.y != 0,
    ensures
        is_floor_sqrt(norm_squared(d) * ROTATION_SCALE * ROTATION_SCALE, scaled_length(d)),
        scaled_length(d) >= ROTATION_SCALE,
        scaled_length(d) >= magnitude(d.x) * ROTATION_SCALE,
        scaled_length(d) >= magnitude(d.y) * ROTATION_SCALE,
{
    let s = ROTATION_SCALE as int;
    let mx = magnitude(d.x);
    let my = magnitude(d.y);
    let d2 = norm_squared(d);
    assert(d2 >= 1 && d2 >= mx * mx && d2 >= my * my && d2 == d.x * d.x + d.y * d.y)
        by (nonlinear_arith)
        requires
            d.x != 0 || d.y != 0,
            d2 == d.x * d.x + d.y * d.y,
            mx == d.x || mx == -d.x,
            my == d.y || my == -d.y,
    ;
    let n = d2 * s * s;
    assert(n >= s * s && n >= (mx * s) * (mx * s) && n >= (my * s) * (my * s) && n >= 0)
        by (nonlinear_arith)
        requires
            n == d2 * s * s,
            d2 >= 1,
            d2 >= mx * mx,
            d2 >= my * my,
    ;
    lemma_floor_sqrt(n);
    let l = floor_sqrt(n);
    if l < s {
        lemma_square_monotonic(l + 1, s);
    }
    if l < mx * s {
        lemma_square_monotonic(l + 1, mx * s);
    }
    if l < my * s {
        lemma_square_monotonic(l + 1, my * s);
    }
}

/// Turning a vector does not make a component longer than the two
/// components of the vector together.
pub proof fn lemma_rotate_bounds(d: Pair, w: Pair)
    requires
        d.x != 0 || d.y != 0,
    ensures
        magnitude(rotate(d, w).x) <= magnitude(w.x) + magnitude(w.y),
        magnitude(rotate(d, w).y) <= magnitude(w.x) + magnitude(w.y),
{
    let s = ROTATION_SCALE as int;
    let l = scaled_length(d);
    lemma_scaled_length(d);
    let w1 = magnitude(w.x) + magnitude(w.y);
    let mx = magnitude(d.x);
    let my = magnitude(d.y);
    let wx = magnitude(w.x);
    let wy = magnitude(w.y);
    let ax = (d.x * w.x - d.y * w.y) * s;
    let ay = (d.y * w.x + d.x * w.y) * s;
    lemma_magnitude_of_product(d.x, w.x);
    lemma_magnitude_of_product(d.y, w.y);
    lemma_magnitude_of_product(d.y, w.x);
    lemma_magnitude_of_product(d.x, w.y);
    lemma_magnitude_of_product(d.x * w.x - d.y * w.y, s);
    lemma_magnitude_of_product(d.y * w.x + d.x * w.y, s);
    assert(magnitude(ax) <= (mx * wx + my * wy) * s) by (nonlinear_arith)
        requires
            magnitude(ax) == magnitude(d.x * w.x - d.y * w.y) * s,
            magnitude(d.x * w.x - d.y * w.y) <= mx * wx + my * wy,
            s > 0,
    ;
    assert(magnitude(ay) <= (my * wx + mx * wy) * s) by (nonlinear_arith)
        requires
            magnitude(ay) == magnitude(d.y * w.x + d.x * w.y) * s,
            magnitude(d.y * w.x + d.x * w.y) <= my * wx + mx * wy,
            s > 0,
    ;
    assert((mx * wx + my * wy) * s == (mx * s) * wx + (my * s) * wy) by (nonlinear_arith);
    assert((my * wx + mx * wy) * s == (my * s) * wx + (mx * s) * wy) by (nonlinear_arith);
    assert((mx * s) * wx + (my * s) * wy <= l * w1 && (my * s) * wx + (mx * s) * wy <= l * w1)
        by (nonlinear_arith)
        requires
            0 <= mx * s <= l,
            0 <= my * s <= l,
            wx >= 0,
            wy >= 0,
            w1 == wx + wy,
    ;
    lemma_trunc_div_brackets(ax, l);
    lemma_trunc_div_brackets(ay, l);
    let qx = magnitude(trunc_div(ax, l));
    let qy = magnitude(trunc_div(ay, l));
    assert(qx <= w1) by (nonlinear_arith)
        requires
            qx * l <= l * w1,
            l > 0,
    ;
    assert(qy <= w1) by (nonlinear_arith)
        requires
            qy * l <= l * w1,
            l > 0,
    ;
}

/// Whether no component of the velocities after a collision saturates.
pub open spec fn unsaturated(vi: Pair, vj: Pair, d: Pair) -> bool {
    let k = transfer(d, difference(vi, vj));
    in_range(vi.x + k.x) && in_range(vi.y + k.y) && in_range(vj.x - k.x) && in_range(vj.y - k.y)
}

/// A collision of particles whose velocity components are all within a
/// quarter of the limit does not saturate.
pub proof fn lemma_moderate_velocities_do_not_saturate(vi: Pair, vj: Pair, d: Pair)
    requires
        -LIMIT <= 4 * vi.x <= LIMIT,
        -LIMIT <= 4 * vi.y <= LIMIT,
        -LIMIT <= 4 * vj.x <= LIMIT,
        -LIMIT <= 4 * vj.y <= LIMIT,
    ensures
        unsaturated(vi, vj, d),
{
    if d.x != 0 || d.y != 0 {
        lemma_rotate_bounds(d, difference(vi, vj));
    }
}

/// Momentum is conserved: a collision that does not saturate leaves the sum
/// of the two velocities exactly as it was.
pub proof fn lemma_collision_conserves_momentum(vi: Pair, vj: Pair, d: Pair)
    requires
        unsaturated(vi, vj, d),
    ensures
        exchange(vi, vj, d).0.x + exchange(vi, vj, d).1.x == vi.x + vj.x,
        exchange(vi, vj, d).0.y + exchange(vi, vj, d).1.y == vi.y + vj.y,
{
}


/// A multiple of the divisor is divided exactly.
proof fn lemma_trunc_div_of_multiple(k: int, b: int)
    requires
        b > 0,
    ensures
        trunc_div(k * b, b) == k,
{
    let m = magnitude(k);
    lemma_magnitude_of_product(k, b);
    assert((m * b) / b == m) by (nonlinear_arith)
        requires
            b > 0,
            m >= 0,
    ;
    if k >= 0 {
        assert(k * b >= 0) by (nonlinear_arith)
            requires
                k >= 0,
                b > 0,
        ;
    } else {
        assert(k * b < 0) by (nonlinear_arith)
            requires
                k < 0,
                b > 0,
        ;
    }
}

/// A head-on meeting along the horizontal axis: when the look-ahead position
/// of the first particle lies straight to the left of that of the second,
/// the two exchange their velocities exactly, whatever these are. Particles
/// with the velocities `(1, 0)` and `(-1, 0)` leave with `(-1, 0)` and `(1, 0)`.
pub proof fn lemma_opposed_separation_swaps_velocities(vi: Pair, vj: Pair, d: Pair)
    requires
        d.x < 0,
        d.y == 0,
        in_range(vi.x),
        in_range(vi.y),
        in_range(vj.x),
        in_range(vj.y),
    ensures
        exchange(vi, vj, d) == (vj, vi),
{
    let s = ROTATION_SCALE as int;
    let w = difference(vi, vj);
    let l = -d.x * s;
    assert(l > 0 && l * l == (d.x * d.x + d.y * d.y) * s * s) by (nonlinear_arith)
        requires
            l == -d.x * s,
            d.x < 0,
            d.y == 0,
            s > 0,
    ;
    lemma_floor_sqrt_of_square(l);
    assert(scaled_length(d) == l);
    assert((d.x * w.x - d.y * w.y) * s == (-w.x) * l && (d.y * w.x + d.x * w.y) * s == (-w.y) * l)
        by (nonlinear_arith)
        requires
            l == -d.x * s,
            d.y == 0,
    ;
    lemma_trunc_div_of_multiple(-w.x, l);
    lemma_trunc_div_of_multiple(-w.y, l);
    assert(rotate(d, w) == Pair { x: -w.x, y: -w.y });
}

/// The complex product of two vectors has the product of their squared
/// lengths as its squared length.
proof fn lemma_complex_product_length(d: Pair, w: Pair)
    ensures
        (d.x * w.x - d.y * w.y) * (d.x * w.x - d.y * w.y) + (d.y * w.x + d.x * w.y) * (d.y * w.x
            + d.x * w.y) == norm_squared(d) * norm_squared(w),
{
    let a = d.x * w.x;
    let b = d.y * w.y;
    let c = d.y * w.x;
    let e = d.x * w.y;
    assert((a - b) * (a - b) + (c + e) * (c + e) == a * a + b * b + c * c + e * e - 2 * (a * b) + 2
        * (c * e)) by (nonlinear_arith);
    assert(a * b == c * e) by (nonlinear_arith)
        requires
            a == d.x * w.x,
            b == d.y * w.y,
            c == d.y * w.x,
            e == d.x * w.y,
    ;
    let dxx = d.x * d.x;
    let dyy = d.y * d.y;
    let wxx = w.x * w.x;
    let wyy = w.y * w.y;
    assert(a * a == dxx * wxx) by (nonlinear_arith)
        requires
            a == d.x * w.x,
            dxx == d.x * d.x,
            wxx == w.x * w.x,
    ;
    assert(b * b == dyy * wyy) by (nonlinear_arith)
        requires
            b == d.y * w.y,
            dyy == d.y * d.y,
            wyy == w.y * w.y,
    ;
    assert(c * c == dyy * wxx) by (nonlinear_arith)
        requires
            c == d.y * w.x,
            dyy == d.y * d.y,
            wxx == w.x * w.x,
    ;
    assert(e * e == dxx * wyy) by (nonlinear_arith)
        requires
            e == d.x * w.y,
            dxx == d.x * d.x,
            wyy == w.y * w.y,
    ;
    assert((dxx + dyy) * (wxx + wyy) == dxx * wxx + dyy * wyy + dyy * wxx + dxx * wyy)
        by (nonlinear_arith);
}

/// Turning a non-zero vector nearly keeps its length. With `q` the turned
/// `w` and `l` the scaled length of `d`: the squared length of `q` exceeds
/// that of `w` by at most two parts in `l`, and `q` with each component moved
/// one unit away from zero is longer than `w`.
proof fn lemma_rotate_length(d: Pair, w: Pair)
    requires
        d.x != 0 || d.y != 0,
    ensures
        (norm_squared(rotate(d, w)) - norm_squared(w)) * scaled_length(d) <= 2 * norm_squared(w),
        (magnitude(rotate(d, w).x) + 1) * (magnitude(rotate(d, w).x) + 1) + (magnitude(
            rotate(d, w).y,
        ) + 1) * (magnitude(rotate(d, w).y) + 1) > norm_squared(w),
{
    let s = ROTATION_SCALE as int;
    let l = scaled_length(d);
    lemma_scaled_length(d);
    let d2 = norm_squared(d);
    let w2 = norm_squared(w);
    let n = d2 * s * s;
    let nx = d.x * w.x - d.y * w.y;
    let ny = d.y * w.x + d.x * w.y;
    let ax = nx * s;
    let ay = ny * s;
    let qx = rotate(d, w).x;
    let qy = rotate(d, w).y;
    let mx = magnitude(qx);
    let my = magnitude(qy);
    let q2 = norm_squared(rotate(d, w));
    lemma_trunc_div_brackets(ax, l);
    lemma_trunc_div_brackets(ay, l);
    // The complex product multiplies squared lengths.
    lemma_complex_product_length(d, w);
    assert(ax * ax == (nx * nx) * (s * s)) by (nonlinear_arith)
        requires
            ax == nx * s,
    ;
    assert(ay * ay == (ny * ny) * (s * s)) by (nonlinear_arith)
        requires
            ay == ny * s,
    ;
    assert((nx * nx) * (s * s) + (ny * ny) * (s * s) == (d2 * w2) * (s * s)) by (nonlinear_arith)
        requires
            nx * nx + ny * ny == d2 * w2,
    ;
    assert((d2 * w2) * (s * s) == w2 * n) by (nonlinear_arith)
        requires
            n == d2 * s * s,
    ;
    assert(w2 >= 0) by (nonlinear_arith)
        requires
            w2 == w.x * w.x + w.y * w.y,
    ;
    let bx = magnitude(ax);
    let by = magnitude(ay);
    assert(bx * bx == ax * ax) by (nonlinear_arith)
        requires
            bx == ax || bx == -ax,
    ;
    assert(by * by == ay * ay) by (nonlinear_arith)
        requires
            by == ay || by == -ay,
    ;
    assert(mx * mx == qx * qx) by (nonlinear_arith)
        requires
            mx == qx || mx == -qx,
    ;
    assert(my * my == qy * qy) by (nonlinear_arith)
        requires
            my == qy || my == -qy,
    ;
    // From above.
    lemma_square_monotonic(mx * l, bx);
    lemma_square_monotonic(my * l, by);
    assert((mx * l) * (mx * l) == (mx * mx) * (l * l)) by (nonlinear_arith);
    assert((my * l) * (my * l) == (my * my) * (l * l)) by (nonlinear_arith);
    assert(q2 * (l * l) == (mx * mx) * (l * l) + (my * my) * (l * l)) by (nonlinear_arith)
        requires
            q2 == qx * qx + qy * qy,
            mx * mx == qx * qx,
            my * my == qy * qy,
    ;
    assert(q2 * (l * l) <= w2 * n);
    assert(w2 * n <= w2 * (l * l + 2 * l)) by (nonlinear_arith)
        requires
            w2 >= 0,
            n < (l + 1) * (l + 1),
    ;
    assert((q2 - w2) * l <= 2 * w2) by (nonlinear_arith)
        requires
            q2 * (l * l) <= w2 * (l * l + 2 * l),
            l > 0,
    ;
    // From below.
    lemma_square_monotonic(bx + 1, (mx + 1) * l);
    lemma_square_monotonic(by + 1, (my + 1) * l);
    assert(((mx + 1) * l) * ((mx + 1) * l) == ((mx + 1) * (mx + 1)) * (l * l)) by (nonlinear_arith);
    assert(((my + 1) * l) * ((my + 1) * l) == ((my + 1) * (my + 1)) * (l * l)) by (nonlinear_arith);
    assert((bx + 1) * (bx + 1) > bx * bx) by (nonlinear_arith)
        requires
            bx >= 0,
    ;
    assert((by + 1) * (by + 1) > by * by) by (nonlinear_arith)
        requires
            by >= 0,
    ;
    let p = (mx + 1) * (mx + 1) + (my + 1) * (my + 1);
    assert(p * (l * l) == ((mx + 1) * (mx + 1)) * (l * l) + ((my + 1) * (my + 1)) * (l * l))
        by (nonlinear_arith)
        requires
            p == (mx + 1) * (mx + 1) + (my + 1) * (my + 1),
    ;
    assert(p * (l * l) > w2 * n);
    assert(w2 * n >= w2 * (l * l)) by (nonlinear_arith)
        requires
            w2 >= 0,
            n >= l * l,
    ;
    assert(p > w2) by (nonlinear_arith)
        requires
            p * (l * l) > w2 * (l * l),
            l > 0,
    ;
}

/// The sum of the squared speeds of two particles: for unit masses, twice
/// their kinetic energy.
pub open spec fn squared_speeds(vi: Pair, vj: Pair) -> int {
    norm_squared(vi) + norm_squared(vj)
}

/// By how much a collision of particles with relative velocity `w` may
/// change twice the sum of their squared speeds: the price of rounding.
pub open spec fn energy_tolerance(w: Pair) -> int {
    2 * norm_squared(w) / (ROTATION_SCALE as int) + 8 * (magnitude(w.x) + magnitude(w.y)) + 2
}

/// The square of a number that is within one of `q` lies between the
/// square of `q` less twice its magnitude and the square of its magnitude
/// plus one.
proof fn lemma_square_near(q: int, t: int)
    requires
        q - 1 <= t <= q + 1,
    ensures
        q * q - 2 * magnitude(q) <= t * t <= (magnitude(q) + 1) * (magnitude(q) + 1),
{
    let m = magnitude(q);
    let n = magnitude(t);
    assert(t * t == n * n) by (nonlinear_arith)
        requires
            n == t || n == -t,
    ;
    assert(q * q == m * m) by (nonlinear_arith)
        requires
            m == q || m == -q,
    ;
    lemma_square_monotonic(n, m + 1);
    if m >= 1 {
        lemma_square_monotonic(m - 1, n);
        assert((m - 1) * (m - 1) == m * m - 2 * m + 1) by (nonlinear_arith);
    } else {
        assert(n * n >= 0 && m * m == 0) by (nonlinear_arith)
            requires
                m == 0,
        ;
    }
}

/// What one component contributes to the change of energy when one
/// particle gains `k` and the other loses it.
proof fn lemma_exchange_of_energy(a: int, b: int, k: int)
    ensures
        2 * ((a + k) * (a + k) + (b - k) * (b - k) - a * a - b * b) == (a - b + 2 * k) * (a - b + 2
            * k) - (a - b) * (a - b),
{
    assert(2 * ((a + k) * (a + k) + (b - k) * (b - k) - a * a - b * b) == (a - b + 2 * k) * (a - b
        + 2 * k) - (a - b) * (a - b)) by (nonlinear_arith);
}

/// Kinetic energy is conserved up to rounding: a collision that does not
/// saturate changes twice the sum of the squared speeds of the pair by no
/// more than [`energy_tolerance`].
pub proof fn lemma_collision_conserves_energy(vi: Pair, vj: Pair, d: Pair)
    requires
        unsaturated(vi, vj, d),
    ensures
        ({
            let after = squared_speeds(exchange(vi, vj, d).0, exchange(vi, vj, d).1);
            let tolerance = energy_tolerance(difference(vi, vj));
            -tolerance <= 2 * (after - squared_speeds(vi, vj)) <= tolerance
        }),
{
    let w = difference(vi, vj);
    assert(norm_squared(w) >= 0) by (nonlinear_arith)
        requires
            norm_squared(w) == w.x * w.x + w.y * w.y,
    ;
    if d.x != 0 || d.y != 0 {
        lemma_turning_conserves_energy(vi, vj, d);
    }
}

/// The law of energy for a separation that has a direction.
proof fn lemma_turning_conserves_energy(vi: Pair, vj: Pair, d: Pair)
    requires
        d.x != 0 || d.y != 0,
        unsaturated(vi, vj, d),
    ensures
        ({
            let after = squared_speeds(exchange(vi, vj, d).0, exchange(vi, vj, d).1);
            let tolerance = energy_tolerance(difference(vi, vj));
            -tolerance <= 2 * (after - squared_speeds(vi, vj)) <= tolerance
        }),
{
    let s = ROTATION_SCALE as int;
    let w = difference(vi, vj);
    let q = rotate(d, w);
    let k = transfer(d, w);
    let l = scaled_length(d);
    let w1 = magnitude(w.x) + magnitude(w.y);
    let w2 = norm_squared(w);
    let q2 = norm_squared(q);
    let mx = magnitude(q.x);
    let my = magnitude(q.y);
    lemma_scaled_length(d);
    lemma_rotate_bounds(d, w);
    lemma_rotate_length(d, w);
    // The relative velocity after the collision is within one unit of the turned one.
    let tx = w.x + 2 * k.x;
    let ty = w.y + 2 * k.y;
    lemma_square_near(q.x, tx);
    lemma_square_near(q.y, ty);
    let ui = exchange(vi, vj, d).0;
    let uj = exchange(vi, vj, d).1;
    let drift = 2 * (squared_speeds(ui, uj) - squared_speeds(vi, vj));
    lemma_exchange_of_energy(vi.x, vj.x, k.x);
    lemma_exchange_of_energy(vi.y, vj.y, k.y);
    assert(drift == tx * tx + ty * ty - w2);
    assert((mx + 1) * (mx + 1) + (my + 1) * (my + 1) == q2 + 2 * (mx + my) + 2) by (nonlinear_arith)
        requires
            q2 == q.x * q.x + q.y * q.y,
            mx == q.x || mx == -q.x,
            my == q.y || my == -q.y,
    ;
    // From below: the turned vector is not much shorter than `w`.
    assert(drift >= -(8 * w1 + 1));
    // From above: it is not much longer.
    let excess = q2 - w2;
    let bound = 2 * w2 / s;
    assert(w2 >= 0) by (nonlinear_arith)
        requires
            w2 == w.x * w.x + w.y * w.y,
    ;
    if excess > 0 {
        assert(excess * s <= excess * l) by (nonlinear_arith)
            requires
                excess > 0,
                l >= s,
        ;
    }
    assert(excess <= bound);
    assert(drift <= bound + 4 * w1 + 2);
}


} // verus!
