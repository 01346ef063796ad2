//! Properties of perception, goal seeking and the wrap policy, stated over the
//! models.
use vstd::prelude::*;
use crate::fixed::{
    SCALE, floor_sqrt, is_ceil_sqrt, lemma_ceil_sqrt_unique, lemma_floor_sqrt_exists,
    lemma_floor_sqrt_unique,
};
use crate::vec2::{
    P2, dot, len_sq, unit, vsub, scaled, lifted, clamped, lemma_scaled_within, lemma_len_sq_zero,
    lemma_unit_length,
};
use crate::perception::sees;
use crate::steering::{seek_of, desired_speed_of};
use crate::boundary::{wrapped, wrap_coord};

verus! {

/// `d` stretched by the factor `k`.
pub open spec fn stretched(d: P2, k: int) -> P2 {
    (k * d.0, k * d.1)
}

/// Perception is not mutual in general: two agents sharing any heading, under a
/// view cone narrower than a half-plane (`view_cos > 0`), never both see each
/// other; at most the one behind sees the one ahead.
pub proof fn lemma_shared_heading_not_mutual(a: P2, b: P2, heading: P2, view_cos: int)
    requires
        view_cos > 0,
    ensures
        !(sees(a, heading, b, view_cos) && sees(b, heading, a, view_cos)),
{
    let d = vsub(b, a);
    let e = vsub(a, b);
    let s = SCALE as int;
    assert(dot(heading, e) == -dot(heading, d)) by (nonlinear_arith)
        requires
            e == (-d.0, -d.1),
    ;
    assert(len_sq(e) == len_sq(d)) by (nonlinear_arith)
        requires
            e == (-d.0, -d.1),
    ;
    lemma_len_sq_zero(d);
    lemma_len_sq_zero(heading);
    if len_sq(heading) != 0 && len_sq(d) != 0 {
        let rhs = view_cos * view_cos * len_sq(heading) * len_sq(d);
        assert(rhs > 0) by (nonlinear_arith)
            requires
                rhs == view_cos * view_cos * len_sq(heading) * len_sq(d),
                view_cos > 0,
                len_sq(heading) > 0,
                len_sq(d) > 0,
        ;
        assert(dot(heading, e) * s == -(dot(heading, d) * s)) by (nonlinear_arith)
            requires
                dot(heading, e) == -dot(heading, d),
        ;
        let l = dot(heading, d) * s;
        if l == 0 {
            assert(l * l == 0);
        }
    }
}

proof fn lemma_sees_along(p: P2, q: P2, k: int, c: int)
    requires
        p != q,
        k > 0,
        -SCALE <= c <= SCALE,
    ensures
        sees(p, stretched(vsub(q, p), k), q, c),
        c > -SCALE ==> !sees(q, stretched(vsub(q, p), k), p, c),
{
    let s = SCALE as int;
    let d = vsub(q, p);
    let e = vsub(p, q);
    let h = stretched(d, k);
    let n = len_sq(d);
    lemma_len_sq_zero(d);
    assert(len_sq(e) == n && dot(h, e) == -(k * n) && dot(h, d) == k * n && len_sq(h) == k * k
        * n) by (nonlinear_arith)
        requires
            e == (-d.0, -d.1),
            h == (k * d.0, k * d.1),
            n == d.0 * d.0 + d.1 * d.1,
    ;
    assert(k * k * n > 0) by (nonlinear_arith)
        requires
            k > 0,
            n > 0,
    ;
    let l = k * n * s;
    assert(l > 0 && l * l >= c * c * (k * k * n) * n) by (nonlinear_arith)
        requires
            l == k * n * s,
            k > 0,
            n > 0,
            s == 1000,
            -1000 <= c <= 1000,
    ;
    assert(dot(h, e) * s == -l);
    if c > -s && c < 0 {
        assert((-l) * (-l) > c * c * (k * k * n) * n) by (nonlinear_arith)
            requires
                l == k * n * s,
                k > 0,
                n > 0,
                s == 1000,
                -1000 < c < 0,
        ;
    }
}

/// Two agents each heading straight at the other (a heading that is any positive
/// multiple of the offset to the other) see each other, whatever the view cone.
pub proof fn lemma_facing_each_other_mutual(a: P2, b: P2, k: int, view_cos: int)
    requires
        a != b,
        k > 0,
        -SCALE <= view_cos <= SCALE,
    ensures
        sees(a, stretched(vsub(b, a), k), b, view_cos),
        sees(b, stretched(vsub(a, b), k), a, view_cos),
{
    lemma_sees_along(a, b, k, view_cos);
    lemma_sees_along(b, a, k, view_cos);
}

/// Perception is not symmetric: when `a` heads straight at `b` and `b` heads the
/// same way, `a` sees `b` and `b` does not see `a`, for every view cone short of
/// seeing all around (`view_cos > -SCALE`).
pub proof fn lemma_follower_sees_leader_only(a: P2, b: P2, k: int, view_cos: int)
    requires
        a != b,
        k > 0,
        -SCALE < view_cos <= SCALE,
    ensures
        sees(a, stretched(vsub(b, a), k), b, view_cos),
        !sees(b, stretched(vsub(b, a), k), a, view_cos),
{
    lemma_sees_along(a, b, k, view_cos);
}

/// Wrapping along the x-axis: an agent beyond the right edge (`x > width / 2`)
/// reappears on the left edge at `-width / 2`, and its y-coordinate is decided by
/// the y-axis check alone; a y inside the world is left as it was.
pub proof fn lemma_wrap_past_right_edge(p: P2, width: int, height: int)
    requires
        width >= 0,
        height >= 0,
        2 * p.0 > width,
    ensures
        wrapped(p, width, height).0 == -(width / 2),
        wrapped(p, width, height).1 == wrap_coord(p.1, height),
        -height <= 2 * p.1 <= height ==> wrapped(p, width, height).1 == p.1,
{
}

/// A vector along the positive x-axis has the direction `(SCALE, 0)`.
pub proof fn lemma_unit_on_axis(t: int)
    requires
        t >= 1,
    ensures
        unit((t, 0int)) == (SCALE as int, 0int),
{
    let s = SCALE as int;
    let a = (t, 0int);
    assert(len_sq(a) == t * t) by (nonlinear_arith)
        requires
            a == (t, 0int),
    ;
    assert(t * t >= 1) by (nonlinear_arith)
        requires
            t >= 1,
    ;
    let b = lifted(a);
    let k = if t * t < s * s { t * s } else { t };
    assert(b == (k, 0int));
    assert(k >= 1) by (nonlinear_arith)
        requires
            k == t * s || k == t,
            t >= 1,
            s == 1000,
    ;
    assert(len_sq(b) == k * k) by (nonlinear_arith)
        requires
            b == (k, 0int),
    ;
    assert((k - 1) * (k - 1) < k * k) by (nonlinear_arith)
        requires
            k >= 1,
    ;
    assert(is_ceil_sqrt(k * k, k));
    lemma_ceil_sqrt_unique(k * k, k);
    assert(k * s / k == s) by (nonlinear_arith)
        requires
            k >= 1,
            s == 1000,
    ;
    assert(0int * s / k == 0) by (nonlinear_arith)
        requires
            k >= 1,
    ;
}

/// Goal seeking at an arrival distance of at least one unit: the steering is
/// `desired - velocity` clamped to `max_force` times the multiplier, which is
/// exactly 2 strictly beyond the arrival radius (where the desired speed is the
/// full `max_speed`) and exactly 1 within it, the radius included.
pub proof fn lemma_seek_multiplier(
    pos: P2,
    vel: P2,
    target: P2,
    max_speed: int,
    max_force: int,
    arrival_radius: int,
)
    requires
        floor_sqrt(len_sq(vsub(target, pos))) >= 1,
        arrival_radius >= 0,
    ensures
        ({
            let to_target = vsub(target, pos);
            let n = len_sq(to_target);
            let d = floor_sqrt(n);
            let desired = scaled(
                unit(to_target),
                desired_speed_of(max_speed, d, arrival_radius),
                SCALE as int,
            );
            &&& n > arrival_radius * arrival_radius ==> seek_of(
                pos,
                vel,
                target,
                max_speed,
                max_force,
                arrival_radius,
            ) == clamped(
                vsub(scaled(unit(to_target), max_speed, SCALE as int), vel),
                2 * max_force,
            )
            &&& n <= arrival_radius * arrival_radius ==> seek_of(
                pos,
                vel,
                target,
                max_speed,
                max_force,
                arrival_radius,
            ) == clamped(vsub(desired, vel), max_force)
        }),
{
    let to_target = vsub(target, pos);
    let n = len_sq(to_target);
    lemma_len_sq_zero(to_target);
    lemma_floor_sqrt_exists(n);
    let d = floor_sqrt(n);
    if n > arrival_radius * arrival_radius && d < arrival_radius {
        assert((d + 1) * (d + 1) <= arrival_radius * arrival_radius) by (nonlinear_arith)
            requires
                0 <= d + 1 <= arrival_radius,
        ;
    }
}

/// Inside the arrival radius, an agent at rest is steered at less than
/// `max_speed`: the result is its direction to the goal scaled by the desired
/// speed `max_speed * sqrt(d / arrival_radius)` (rounded down), which is below
/// `max_speed`, and the force bound does not cut it when `max_force >= max_speed`.
pub proof fn lemma_seek_slows_inside_radius(
    pos: P2,
    target: P2,
    max_speed: int,
    max_force: int,
    arrival_radius: int,
)
    requires
        1 <= floor_sqrt(len_sq(vsub(target, pos))) < arrival_radius,
        0 < max_speed <= max_force,
    ensures
        ({
            let to_target = vsub(target, pos);
            let d = floor_sqrt(len_sq(to_target));
            let speed = desired_speed_of(max_speed, d, arrival_radius);
            &&& seek_of(pos, (0, 0), target, max_speed, max_force, arrival_radius) == scaled(
                unit(to_target),
                speed,
                SCALE as int,
            )
            &&& 0 <= speed < max_speed
            &&& len_sq(seek_of(pos, (0, 0), target, max_speed, max_force, arrival_radius))
                < max_speed * max_speed
        }),
{
    let to_target = vsub(target, pos);
    lemma_len_sq_zero(to_target);
    lemma_floor_sqrt_exists(len_sq(to_target));
    let d = floor_sqrt(len_sq(to_target));
    assert(len_sq(to_target) <= arrival_radius * arrival_radius) by (nonlinear_arith)
        requires
            len_sq(to_target) < (d + 1) * (d + 1),
            0 <= d + 1 <= arrival_radius,
    ;
    let q = max_speed * max_speed * d / arrival_radius;
    assert(0 <= q < max_speed * max_speed) by (nonlinear_arith)
        requires
            q == max_speed * max_speed * d / arrival_radius,
            1 <= d < arrival_radius,
            max_speed > 0,
    ;
    lemma_floor_sqrt_exists(q);
    let speed = floor_sqrt(q);
    assert(speed < max_speed) by (nonlinear_arith)
        requires
            speed * speed <= q,
            q < max_speed * max_speed,
            speed >= 0,
            max_speed > 0,
    ;
    lemma_unit_length(to_target);
    lemma_scaled_within(unit(to_target), speed, SCALE as int);
    let desired = scaled(unit(to_target), speed, SCALE as int);
    assert(vsub(desired, (0, 0)) == desired);
    assert(len_sq(desired) < max_speed * max_speed && max_speed * max_speed <= max_force
        * max_force) by (nonlinear_arith)
        requires
            len_sq(desired) <= speed * speed,
            0 <= speed < max_speed,
            max_speed <= max_force,
    ;
}

/// Approaching a goal along the x-axis at a speed `v` in `[0, max_speed]`: from
/// the arrival radius or farther the steering is `max_speed - v` forward, never
/// backward, so the agent does not slow down.
pub proof fn lemma_seek_full_speed_outside_radius(
    x: int,
    t: int,
    v: int,
    max_speed: int,
    max_force: int,
    arrival_radius: int,
)
    requires
        1 <= arrival_radius <= t,
        0 <= v <= max_speed <= max_force,
    ensures
        seek_of((x, 0), (v, 0), (x + t, 0), max_speed, max_force, arrival_radius) == (
            max_speed - v,
            0int,
        ),
{
    lemma_seek_on_axis(x, t);
    let s = SCALE as int;
    assert(s * max_speed / s == max_speed) by (nonlinear_arith)
        requires
            s == 1000,
    ;
    assert(0int * max_speed / s == 0) by (nonlinear_arith)
        requires
            s == 1000,
    ;
    let st = (max_speed - v, 0int);
    let m = if t * t > arrival_radius * arrival_radius { 2 * max_force } else { max_force };
    assert(len_sq(st) <= m * m) by (nonlinear_arith)
        requires
            st == (max_speed - v, 0int),
            0 <= max_speed - v <= max_force,
            max_force <= m,
    ;
}

/// Approaching a goal along the x-axis at full speed: inside the arrival radius
/// the steering points backward, so the agent decelerates.
pub proof fn lemma_seek_brakes_inside_radius(
    x: int,
    t: int,
    max_speed: int,
    max_force: int,
    arrival_radius: int,
)
    requires
        1 <= t < arrival_radius,
        0 < max_speed <= max_force,
    ensures
        seek_of((x, 0), (max_speed, 0), (x + t, 0), max_speed, max_force, arrival_radius).0 < 0,
        seek_of((x, 0), (max_speed, 0), (x + t, 0), max_speed, max_force, arrival_radius).1 == 0,
{
    lemma_seek_on_axis(x, t);
    assert(t * t <= arrival_radius * arrival_radius) by (nonlinear_arith)
        requires
            1 <= t < arrival_radius,
    ;
    let s = SCALE as int;
    let q = max_speed * max_speed * t / arrival_radius;
    assert(0 <= q < max_speed * max_speed) by (nonlinear_arith)
        requires
            q == max_speed * max_speed * t / arrival_radius,
            1 <= t < arrival_radius,
            max_speed > 0,
    ;
    lemma_floor_sqrt_exists(q);
    let speed = floor_sqrt(q);
    assert(speed < max_speed) by (nonlinear_arith)
        requires
            speed * speed <= q,
            q < max_speed * max_speed,
            speed >= 0,
            max_speed > 0,
    ;
    assert(s * speed / s == speed) by (nonlinear_arith)
        requires
            s == 1000,
    ;
    assert(0int * speed / s == 0) by (nonlinear_arith)
        requires
            s == 1000,
    ;
    let st = (speed - max_speed, 0int);
    assert(len_sq(st) <= max_force * max_force) by (nonlinear_arith)
        requires
            st == (speed - max_speed, 0int),
            0 <= speed < max_speed,
            max_speed <= max_force,
    ;
}

proof fn lemma_seek_on_axis(x: int, t: int)
    requires
        t >= 1,
    ensures
        vsub((x + t, 0int), (x, 0int)) == (t, 0int),
        len_sq((t, 0int)) == t * t,
        floor_sqrt(t * t) == t,
        unit((t, 0int)) == (SCALE as int, 0int),
{
    assert(len_sq((t, 0int)) == t * t) by (nonlinear_arith);
    assert(t * t < (t + 1) * (t + 1)) by (nonlinear_arith)
        requires
            t >= 1,
    ;
    lemma_floor_sqrt_unique(t * t, t);
    lemma_unit_on_axis(t);
}

} // verus!
