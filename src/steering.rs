//! Steering forces: separation, alignment, cohesion and goal seeking with arrival.
use vstd::prelude::*;
use crate::fixed::{
    SCALE, floor_sqrt, isqrt_floor, div_trunc, div_toward_zero, lemma_floor_sqrt_le,
};
use crate::settings::{COORD_LIMIT, SPEED_LIMIT, RADIUS_LIMIT, AGENT_LIMIT};
use crate::vec2::{
    P2, Vec2, vadd, vsub, len_sq, within, scaled, unit, clamped, abs, lemma_div_trunc,
    lemma_scaled_within, lemma_len_sq_zero, lemma_len_sq_bound,
};

verus! {

/// Factor applied to the inverse-distance repulsion of one neighbour before the
/// sum is normalised; only the direction of the sum matters, so this fixes the
/// precision of the fixed-point terms. It is large enough that no neighbour in
/// the coordinate range contributes a zero term.
pub const SEPARATION_GAIN: i64 = 0x400_0000_0000;

/// A list of (position, velocity) pairs fit for the steering computations.
pub open spec fn neighbors_ok(ns: Seq<(Vec2, Vec2)>) -> bool {
    &&& ns.len() <= AGENT_LIMIT
    &&& forall|i: int|
        0 <= i < ns.len() ==> within(#[trigger] ns[i].0@, COORD_LIMIT as int) && within(
            ns[i].1@,
            SPEED_LIMIT as int,
        )
}

/// Repulsion from one neighbour: the direction away from it divided by its
/// distance, i.e. `diff / |diff|^2`, times `SEPARATION_GAIN`; zero when the
/// neighbour sits at the same position.
pub open spec fn repulsion(pos: P2, other: P2) -> P2 {
    let d = vsub(pos, other);
    if len_sq(d) == 0 {
        (0, 0)
    } else {
        scaled(d, SEPARATION_GAIN as int, len_sq(d))
    }
}

pub open spec fn repulsion_total(pos: P2, ns: Seq<(Vec2, Vec2)>) -> P2
    decreases ns.len(),
{
    if ns.len() == 0 {
        (0, 0)
    } else {
        vadd(repulsion_total(pos, ns.drop_last()), repulsion(pos, ns.last().0@))
    }
}

pub open spec fn position_total(ns: Seq<(Vec2, Vec2)>) -> P2
    decreases ns.len(),
{
    if ns.len() == 0 {
        (0, 0)
    } else {
        vadd(position_total(ns.drop_last()), ns.last().0@)
    }
}

pub open spec fn velocity_total(ns: Seq<(Vec2, Vec2)>) -> P2
    decreases ns.len(),
{
    if ns.len() == 0 {
        (0, 0)
    } else {
        vadd(velocity_total(ns.drop_last()), ns.last().1@)
    }
}

/// `n` copies of `a` added together.
pub open spec fn times(a: P2, n: int) -> P2 {
    (a.0 * n, a.1 * n)
}

/// Separation: the direction of the summed repulsions.
pub open spec fn separation_of(pos: P2, ns: Seq<(Vec2, Vec2)>) -> P2 {
    unit(repulsion_total(pos, ns))
}

/// Alignment: the direction from the agent's velocity to the mean neighbour
/// velocity. The mean is `total / n`; its difference with `vel` points the same
/// way as `total - n * vel`, which is used to avoid rounding.
pub open spec fn alignment_of(vel: P2, ns: Seq<(Vec2, Vec2)>) -> P2 {
    unit(vsub(velocity_total(ns), times(vel, ns.len() as int)))
}

/// Cohesion: the direction from the agent to the centroid of its neighbours,
/// computed as the direction of `total - n * pos`.
pub open spec fn cohesion_of(pos: P2, ns: Seq<(Vec2, Vec2)>) -> P2 {
    unit(vsub(position_total(ns), times(pos, ns.len() as int)))
}

proof fn lemma_repulsion_small(pos: P2, other: P2)
    requires
        within(pos, COORD_LIMIT as int),
        within(other, COORD_LIMIT as int),
    ensures
        within(repulsion(pos, other), SEPARATION_GAIN as int),
        pos != other ==> repulsion(pos, other) != (0int, 0int),
{
    let d = vsub(pos, other);
    let n = len_sq(d);
    lemma_len_sq_zero(d);
    if n != 0 {
        let g = SEPARATION_GAIN as int;
        assert(abs(d.0) * abs(d.0) == d.0 * d.0 && abs(d.1) * abs(d.1) == d.1 * d.1)
            by (nonlinear_arith)
        ;
        let big = if abs(d.0) >= abs(d.1) { abs(d.0) } else { abs(d.1) };
        assert(n <= big * g) by (nonlinear_arith)
            requires
                n == d.0 * d.0 + d.1 * d.1,
                big >= abs(d.0),
                big >= abs(d.1),
                big <= 0x1_0000_0000,
                g == 0x400_0000_0000,
                abs(d.0) * abs(d.0) == d.0 * d.0,
                abs(d.1) * abs(d.1) == d.1 * d.1,
        ;
        assert(n > 0 && abs(d.0) <= n && abs(d.1) <= n) by (nonlinear_arith)
            requires
                n == d.0 * d.0 + d.1 * d.1,
                n != 0,
        ;
        lemma_div_trunc(d.0 * g, n);
        lemma_div_trunc(d.1 * g, n);
        let qx = abs(div_trunc(d.0 * g, n));
        let qy = abs(div_trunc(d.1 * g, n));
        assert(qx <= g) by (nonlinear_arith)
            requires
                qx * n <= abs(d.0 * g),
                abs(d.0) <= n,
                n > 0,
                g > 0,
                qx >= 0,
        ;
        assert(qy <= g) by (nonlinear_arith)
            requires
                qy * n <= abs(d.1 * g),
                abs(d.1) <= n,
                n > 0,
                g > 0,
                qy >= 0,
        ;
        assert(abs(d.0 * g) == abs(d.0) * g && abs(d.1 * g) == abs(d.1) * g) by (nonlinear_arith)
            requires
                g > 0,
        ;
        assert(qx + qy > 0) by (nonlinear_arith)
            requires
                abs(d.0) * g < (qx + 1) * n,
                abs(d.1) * g < (qy + 1) * n,
                n <= big * g,
                big == abs(d.0) || big == abs(d.1),
                n > 0,
                qx >= 0,
                qy >= 0,
        ;
    }
}

/// Repulsion from one neighbour at `other_pos`.
fn repulsion_from(boid_pos: Vec2, other_pos: Vec2) -> (r: Vec2)
    requires
        within(boid_pos@, COORD_LIMIT as int),
        within(other_pos@, COORD_LIMIT as int),
    ensures
        r@ == repulsion(boid_pos@, other_pos@),
        within(r@, SEPARATION_GAIN as int),
        boid_pos@ != other_pos@ ==> r@ != (0int, 0int),
{
    proof {
        lemma_repulsion_small(boid_pos@, other_pos@);
    }
    let d = boid_pos.minus(&other_pos);
    let n = d.length_squared();
    if n == 0 {
        return Vec2::zero();
    }
    assert(-0x200_0000_0000 <= d.x <= 0x200_0000_0000);
    let gx = d.x as i128 * SEPARATION_GAIN as i128;
    let gy = d.y as i128 * SEPARATION_GAIN as i128;
    let qx = div_toward_zero(gx, n as i128);
    let qy = div_toward_zero(gy, n as i128);
    Vec2 { x: qx as i64, y: qy as i64 }
}

/// Separation force: the direction away from nearby neighbours, each weighted by
/// the inverse of its distance; zero with no neighbour.
pub fn calculate_separation(boid_pos: Vec2, neighbors: &Vec<(Vec2, Vec2)>) -> (r: Vec2)
    requires
        within(boid_pos@, COORD_LIMIT as int),
        neighbors_ok(neighbors@),
    ensures
        r@ == separation_of(boid_pos@, neighbors@),
        neighbors@.len() == 0 ==> r@ == (0int, 0int),
        (r@ == (0int, 0int)) == (len_sq(repulsion_total(boid_pos@, neighbors@)) == 0),
        r@ == (0int, 0int) || len_sq(r@) >= (SCALE - 3) * (SCALE - 3),
        len_sq(r@) <= SCALE * SCALE,
        within(r@, SCALE as int),
{
    let ghost ns = neighbors@;
    let mut acc = Vec2::zero();
    let mut i: usize = 0;
    while i < neighbors.len()
        invariant
            ns == neighbors@,
            neighbors_ok(ns),
            within(boid_pos@, COORD_LIMIT as int),
            i <= ns.len(),
            acc@ == repulsion_total(boid_pos@, ns.subrange(0, i as int)),
            within(acc@, i * SEPARATION_GAIN),
        decreases ns.len() - i,
    {
        let other = neighbors[i].0;
        proof {
            assert(within(ns[i as int].0@, COORD_LIMIT as int));
        }
        let term = repulsion_from(boid_pos, other);
        acc = acc.plus(&term);
        proof {
            assert(ns.subrange(0, i + 1).drop_last() =~= ns.subrange(0, i as int));
        }
        i += 1;
    }
    proof {
        assert(ns.subrange(0, ns.len() as int) =~= ns);
        if ns.len() == 0 {
            assert(acc@ == (0int, 0int));
            lemma_len_sq_zero(acc@);
        }
    }
    acc.normalize_or_zero()
}

/// Adds up the positions (`use_velocity == false`) or the velocities of a list.
fn total(neighbors: &Vec<(Vec2, Vec2)>, use_velocity: bool) -> (r: Vec2)
    requires
        neighbors_ok(neighbors@),
    ensures
        r@ == if use_velocity {
            velocity_total(neighbors@)
        } else {
            position_total(neighbors@)
        },
        within(r@, neighbors@.len() * SPEED_LIMIT),
{
    let ghost ns = neighbors@;
    let mut acc = Vec2::zero();
    let mut i: usize = 0;
    while i < neighbors.len()
        invariant
            ns == neighbors@,
            neighbors_ok(ns),
            i <= ns.len(),
            acc@ == if use_velocity {
                velocity_total(ns.subrange(0, i as int))
            } else {
                position_total(ns.subrange(0, i as int))
            },
            within(acc@, i * SPEED_LIMIT),
        decreases ns.len() - i,
    {
        proof {
            assert(within(ns[i as int].0@, COORD_LIMIT as int));
        }
        let item = if use_velocity {
            neighbors[i].1
        } else {
            neighbors[i].0
        };
        acc = acc.plus(&item);
        proof {
            assert(ns.subrange(0, i + 1).drop_last() =~= ns.subrange(0, i as int));
        }
        i += 1;
    }
    proof {
        assert(ns.subrange(0, ns.len() as int) =~= ns);
    }
    acc
}

/// `total - n * own`, the vector from `own` to the mean of the list, scaled by `n`.
fn offset_to_mean(total: Vec2, own: Vec2, n: usize) -> (r: Vec2)
    requires
        n <= AGENT_LIMIT,
        within(total@, n * SPEED_LIMIT),
        within(own@, SPEED_LIMIT as int),
    ensures
        r@ == vsub(total@, times(own@, n as int)),
        within(r@, 0x4000_0000_0000_0000),
{
    let k = n as i64;
    assert(-0x10_0000 * 0x100_0000_0000 <= own.x * k <= 0x10_0000 * 0x100_0000_0000
        && -0x10_0000 * 0x100_0000_0000 <= own.y * k <= 0x10_0000 * 0x100_0000_0000
        && n * SPEED_LIMIT <= 0x10_0000 * 0x100_0000_0000) by (nonlinear_arith)
        requires
            0 <= k <= 0x10_0000,
            k == n,
            -0x100_0000_0000 <= own.x <= 0x100_0000_0000,
            -0x100_0000_0000 <= own.y <= 0x100_0000_0000,
            SPEED_LIMIT == 0x100_0000_0000,
    ;
    Vec2 { x: total.x - own.x * k, y: total.y - own.y * k }
}

/// Alignment force: the direction from the agent's velocity toward the mean
/// velocity of its neighbours; zero with no neighbour.
pub fn calculate_alignment(boid_velocity: Vec2, neighbors: &Vec<(Vec2, Vec2)>) -> (r: Vec2)
    requires
        within(boid_velocity@, SPEED_LIMIT as int),
        neighbors_ok(neighbors@),
    ensures
        r@ == alignment_of(boid_velocity@, neighbors@),
        neighbors@.len() == 0 ==> r@ == (0int, 0int),
        (r@ == (0int, 0int)) == (len_sq(
            vsub(velocity_total(neighbors@), times(boid_velocity@, neighbors@.len() as int)),
        ) == 0),
        r@ == (0int, 0int) || len_sq(r@) >= (SCALE - 3) * (SCALE - 3),
        len_sq(r@) <= SCALE * SCALE,
        within(r@, SCALE as int),
{
    if neighbors.len() == 0 {
        proof {
            assert(velocity_total(neighbors@) == (0int, 0int));
            assert(vsub((0int, 0int), times(boid_velocity@, 0)) == (0int, 0int));
            lemma_len_sq_zero((0int, 0int));
        }
        return Vec2::zero();
    }
    let sum = total(neighbors, true);
    offset_to_mean(sum, boid_velocity, neighbors.len()).normalize_or_zero()
}

/// Cohesion force: the direction from the agent toward the centroid of its
/// neighbours; zero with no neighbour.
pub fn calculate_cohesion(boid_pos: Vec2, neighbors: &Vec<(Vec2, Vec2)>) -> (r: Vec2)
    requires
        within(boid_pos@, COORD_LIMIT as int),
        neighbors_ok(neighbors@),
    ensures
        r@ == cohesion_of(boid_pos@, neighbors@),
        neighbors@.len() == 0 ==> r@ == (0int, 0int),
        (r@ == (0int, 0int)) == (len_sq(
            vsub(position_total(neighbors@), times(boid_pos@, neighbors@.len() as int)),
        ) == 0),
        r@ == (0int, 0int) || len_sq(r@) >= (SCALE - 3) * (SCALE - 3),
        len_sq(r@) <= SCALE * SCALE,
        within(r@, SCALE as int),
{
    if neighbors.len() == 0 {
        proof {
            assert(position_total(neighbors@) == (0int, 0int));
            assert(vsub((0int, 0int), times(boid_pos@, 0)) == (0int, 0int));
            lemma_len_sq_zero((0int, 0int));
        }
        return Vec2::zero();
    }
    let sum = total(neighbors, false);
    offset_to_mean(sum, boid_pos, neighbors.len()).normalize_or_zero()
}

/// Desired approach speed at `distance` from the goal: the full `max_speed` at or
/// beyond `arrival_radius`, else `max_speed * sqrt(distance / arrival_radius)`
/// rounded down.
pub open spec fn desired_speed_of(max_speed: int, distance: int, arrival_radius: int) -> int {
    if distance < arrival_radius {
        floor_sqrt(max_speed * max_speed * distance / arrival_radius)
    } else {
        max_speed
    }
}

/// The bound on the goal force is doubled while the goal is beyond the arrival
/// radius; decided on the exact squared distance.
pub open spec fn force_multiplier_of(distance_sq: int, arrival_radius: int) -> int {
    if distance_sq > arrival_radius * arrival_radius {
        2
    } else {
        1
    }
}

/// Goal-seeking force with arrival. The desired speed is computed from the
/// distance in whole fixed-point units, rounded down; whether the goal is beyond
/// the arrival radius is decided exactly. An agent less than one unit from the
/// goal feels nothing.
pub open spec fn seek_of(
    pos: P2,
    vel: P2,
    target: P2,
    max_speed: int,
    max_force: int,
    arrival_radius: int,
) -> P2 {
    let to_target = vsub(target, pos);
    let distance = floor_sqrt(len_sq(to_target));
    if distance == 0 {
        (0, 0)
    } else {
        let speed = desired_speed_of(max_speed, distance, arrival_radius);
        let desired = scaled(unit(to_target), speed, SCALE as int);
        clamped(
            vsub(desired, vel),
            max_force * force_multiplier_of(len_sq(to_target), arrival_radius),
        )
    }
}

/// Desired approach speed at `distance` from the goal.
pub fn desired_speed(max_speed: i64, distance: i64, arrival_radius: i64) -> (r: i64)
    requires
        0 <= max_speed <= SPEED_LIMIT,
        0 <= distance,
        0 < arrival_radius <= RADIUS_LIMIT,
    ensures
        r == desired_speed_of(max_speed as int, distance as int, arrival_radius as int),
        0 <= r <= max_speed,
        distance >= arrival_radius ==> r == max_speed,
        distance < arrival_radius ==> r * r * arrival_radius <= max_speed * max_speed * distance
            < (r + 1) * (r + 1) * arrival_radius,
        distance < arrival_radius && max_speed > 0 ==> r < max_speed,
{
    if distance >= arrival_radius {
        return max_speed;
    }
    let m = max_speed as u128;
    assert(m * m <= 0x1_0000_0000_0000_0000_0000) by (nonlinear_arith)
        requires
            m <= 0x100_0000_0000,
    ;
    let x = m * m;
    assert(x * distance <= 0x1_0000_0000_0000_0000_0000 * 0x400_0000_0000) by (nonlinear_arith)
        requires
            x <= 0x1_0000_0000_0000_0000_0000,
            0 <= distance <= 0x400_0000_0000,
    ;
    let p = x * distance as u128;
    let q = p / arrival_radius as u128;
    let ghost rad = arrival_radius as int;
    assert(q * rad <= p < (q + 1) * rad && q <= p) by (nonlinear_arith)
        requires
            q == p as int / rad,
            rad > 0,
            p >= 0,
    ;
    let s = isqrt_floor(q);
    proof {
        let si = s as int;
        let mi = max_speed as int;
        assert(si * si * rad <= p) by (nonlinear_arith)
            requires
                si * si <= q,
                q * rad <= p,
                rad > 0,
        ;
        assert(p < (si + 1) * (si + 1) * rad) by (nonlinear_arith)
            requires
                q < (si + 1) * (si + 1),
                p < (q + 1) * rad,
                rad > 0,
        ;
        assert(q <= x) by (nonlinear_arith)
            requires
                q * rad <= p,
                p == x * distance,
                distance < rad,
                x >= 0,
                rad > 0,
        ;
        lemma_floor_sqrt_le(q as int, si, mi);
        if mi > 0 {
            assert(x > 0) by (nonlinear_arith)
                requires
                    x == m * m,
                    m > 0,
            ;
            assert(q < x) by (nonlinear_arith)
                requires
                    q * rad <= p,
                    p == x * distance,
                    0 <= distance < rad,
                    x > 0,
                    rad > 0,
            ;
            if si == mi {
                assert(false);
            }
        }
    }
    s as i64
}

/// Multiplier of the goal force bound for a goal at squared distance
/// `distance_sq`: 2 strictly beyond the arrival radius, 1 within it.
pub fn force_multiplier(distance_sq: u128, arrival_radius: i64) -> (r: i64)
    requires
        0 <= arrival_radius <= RADIUS_LIMIT,
    ensures
        r == force_multiplier_of(distance_sq as int, arrival_radius as int),
        distance_sq > arrival_radius * arrival_radius ==> r == 2,
        distance_sq <= arrival_radius * arrival_radius ==> r == 1,
{
    let rad = arrival_radius as u128;
    assert(rad * rad <= 0x10_0000_0000_0000_0000_0000) by (nonlinear_arith)
        requires
            rad <= 0x400_0000_0000,
    ;
    if distance_sq > rad * rad {
        2
    } else {
        1
    }
}

/// Goal-seeking force with arrival: steer toward `target_pos` at the desired
/// speed, the result no longer than `max_force` times the force multiplier.
pub fn calculate_seek_with_arrival(
    current_pos: Vec2,
    current_vel: Vec2,
    target_pos: Vec2,
    max_speed: i64,
    max_force: i64,
    arrival_radius: i64,
) -> (r: Vec2)
    requires
        within(current_pos@, COORD_LIMIT as int),
        within(target_pos@, COORD_LIMIT as int),
        within(current_vel@, SPEED_LIMIT as int),
        0 <= max_speed <= SPEED_LIMIT,
        0 <= max_force <= SPEED_LIMIT,
        0 < arrival_radius <= RADIUS_LIMIT,
    ensures
        r@ == seek_of(
            current_pos@,
            current_vel@,
            target_pos@,
            max_speed as int,
            max_force as int,
            arrival_radius as int,
        ),
        len_sq(r@) <= (2 * max_force) * (2 * max_force),
        len_sq(r@) <= (max_force * force_multiplier_of(
            len_sq(vsub(target_pos@, current_pos@)),
            arrival_radius as int,
        )) * (max_force * force_multiplier_of(
            len_sq(vsub(target_pos@, current_pos@)),
            arrival_radius as int,
        )),
        within(r@, 2 * max_force),
{
    let to_target = target_pos.minus(&current_pos);
    let n = to_target.length_squared();
    let d = isqrt_floor(n);
    proof {
        lemma_len_sq_bound(to_target@, 0x200_0000_0000);
        lemma_floor_sqrt_le(n as int, d as int, 0x400_0000_0000);
    }
    if d == 0 {
        proof {
            lemma_len_sq_zero((0int, 0int));
        }
        return Vec2::zero();
    }
    let distance = d as i64;
    let speed = desired_speed(max_speed, distance, arrival_radius);
    let dir = to_target.normalize_or_zero();
    proof {
        lemma_scaled_within(dir@, speed as int, SCALE as int);
    }
    let desired = dir.scale(speed, SCALE);
    let steering = desired.minus(&current_vel);
    let mult = force_multiplier(n, arrival_radius);
    let bound = max_force * mult;
    let r = steering.clamp_length_max(bound);
    proof {
        let b = bound as int;
        let mf = max_force as int;
        assert(b * b <= (2 * mf) * (2 * mf)) by (nonlinear_arith)
            requires
                0 <= b <= 2 * mf,
        ;
    }
    r
}

} // verus!
