//! The agents and the per-tick update of the whole flock.
use vstd::prelude::*;
use crate::fixed::SCALE;
use crate::settings::{
    BoidSettings, GridSettings, BoundaryPolicy, COORD_LIMIT, SPEED_LIMIT, AGENT_LIMIT, DT_LIMIT,
    BOID_MASS, BOID_MAX_SPEED, BOID_MAX_FORCE,
};
use crate::vec2::{
    P2, Vec2, vadd, len_sq, within, scaled, clamped, lemma_scaled_within, lemma_scaled_bound,
    lemma_short_within,
};
use crate::perception::{bucket, snapshot_ok, classify_neighbors, lemma_bucket_len};
use crate::steering::{
    separation_of, alignment_of, cohesion_of, seek_of, neighbors_ok, calculate_separation,
    calculate_alignment, calculate_cohesion, calculate_seek_with_arrival,
};
use crate::boundary::{
    border_force, wrapped, border_repulsion, wrap_position, BORDER_FORCE_LIMIT,
};

verus! {

/// One simulated agent.
///
/// `facing` is the last non-zero velocity (the heading shown to a viewer); it
/// starts pointing up.
#[derive(Clone, Copy, Debug)]
pub struct Boid {
    pub position: Vec2,
    pub velocity: Vec2,
    pub facing: Vec2,
    pub mass: i64,
    pub max_speed: i64,
    pub max_force: i64,
}

/// Why an agent could not be created.
#[derive(Clone, Copy, Debug, PartialEq, Eq, Structural)]
pub enum BoidError {
    /// The mass is zero or negative.
    NonPositiveMass,
    /// `max_speed` or `max_force` is negative or above `SPEED_LIMIT`.
    LimitOutOfRange,
}

pub open spec fn limit_ok(v: i64) -> bool {
    0 <= v <= SPEED_LIMIT
}

impl Boid {
    /// Positive mass, limits in range, position in range, and speed at most
    /// `max_speed`.
    pub open spec fn wf(&self) -> bool {
        &&& self.mass > 0
        &&& limit_ok(self.max_speed)
        &&& limit_ok(self.max_force)
        &&& within(self.position@, COORD_LIMIT as int)
        &&& len_sq(self.velocity@) <= self.max_speed * self.max_speed
    }

    /// An agent at rest at the origin, facing up, with the given mass and limits.
    pub fn new(mass: i64, max_speed: i64, max_force: i64) -> (r: Result<Boid, BoidError>)
        ensures
            mass <= 0 <==> r == Err::<Boid, BoidError>(BoidError::NonPositiveMass),
            mass > 0 && !(limit_ok(max_speed) && limit_ok(max_force)) <==> r == Err::<
                Boid,
                BoidError,
            >(BoidError::LimitOutOfRange),
            r matches Ok(b) ==> {
                &&& b.wf()
                &&& b.mass == mass
                &&& b.max_speed == max_speed
                &&& b.max_force == max_force
                &&& b.position@ == (0int, 0int)
                &&& b.velocity@ == (0int, 0int)
                &&& b.facing@ == (0int, SCALE as int)
            },
    {
        if mass <= 0 {
            return Err(BoidError::NonPositiveMass);
        }
        if max_speed < 0 || max_speed > SPEED_LIMIT || max_force < 0 || max_force > SPEED_LIMIT {
            return Err(BoidError::LimitOutOfRange);
        }
        proof {
            assert(0 <= max_speed * max_speed) by (nonlinear_arith);
        }
        Ok(
            Boid {
                position: Vec2::zero(),
                velocity: Vec2::zero(),
                facing: Vec2::new(0, SCALE),
                mass,
                max_speed,
                max_force,
            },
        )
    }
}

impl Default for Boid {
    /// An agent at rest at the origin with the default mass and limits.
    fn default() -> (r: Self)
        ensures
            r.wf(),
            r.mass == BOID_MASS,
            r.max_speed == BOID_MAX_SPEED,
            r.max_force == BOID_MAX_FORCE,
            r.position@ == (0int, 0int),
            r.velocity@ == (0int, 0int),
            r.facing@ == (0int, SCALE as int),
    {
        Boid {
            position: Vec2::zero(),
            velocity: Vec2::zero(),
            facing: Vec2::new(0, SCALE),
            mass: BOID_MASS,
            max_speed: BOID_MAX_SPEED,
            max_force: BOID_MAX_FORCE,
        }
    }
}

/// The flock's (position, velocity) pairs, as they stand at the start of a tick.
pub open spec fn snapshot_of(boids: Seq<Boid>) -> Seq<(Vec2, Vec2)> {
    Seq::new(boids.len(), |i: int| (boids[i].position, boids[i].velocity))
}

/// All agents well formed, and not too many of them.
pub open spec fn flock_ok(boids: Seq<Boid>) -> bool {
    boids.len() <= AGENT_LIMIT && forall|i: int| 0 <= i < boids.len() ==> (#[trigger] boids[i]).wf()
}

/// A force scaled by a fixed-point weight.
pub open spec fn weighted(f: P2, w: int) -> P2 {
    scaled(f, w, SCALE as int)
}

/// Sum of the weighted separation, alignment, cohesion and goal forces of agent
/// `me`, clamped to its `max_force`.
pub open spec fn steering_force_of(
    boids: Seq<Boid>,
    me: int,
    s: BoidSettings,
    goal: Option<Vec2>,
) -> P2 {
    let snap = snapshot_of(boids);
    let b = boids[me];
    let pos = b.position@;
    let vel = b.velocity@;
    let c = s.view_cos as int;
    let n = snap.len() as int;
    let sep = weighted(
        separation_of(pos, bucket(snap, me, c, s.separation_radius as int, n)),
        s.separation_weight as int,
    );
    let ali = weighted(
        alignment_of(vel, bucket(snap, me, c, s.alignment_radius as int, n)),
        s.alignment_weight as int,
    );
    let coh = weighted(
        cohesion_of(pos, bucket(snap, me, c, s.cohesion_radius as int, n)),
        s.cohesion_weight as int,
    );
    let seek = match goal {
        Some(g) => weighted(
            seek_of(
                pos,
                vel,
                g@,
                b.max_speed as int,
                b.max_force as int,
                s.goal_arrival_radius as int,
            ),
            s.goal_attraction_weight as int,
        ),
        None => (0int, 0int),
    };
    clamped(vadd(vadd(vadd(sep, ali), coh), seek), b.max_force as int)
}

/// A coordinate held inside `[-COORD_LIMIT, COORD_LIMIT]`.
pub open spec fn saturate(c: int) -> int {
    if c > COORD_LIMIT {
        COORD_LIMIT as int
    } else if c < -COORD_LIMIT {
        -COORD_LIMIT
    } else {
        c
    }
}

/// Position, velocity and facing of agent `b` after one tick of `dt`
/// milliseconds under the net steering force `force`.
///
/// The velocity gains `force / mass * dt` and, under soft repulsion, the border
/// impulse `border_force * dt`; it is then clamped to `max_speed`, so the speed
/// bound holds after every tick. The position moves by `velocity * dt`, then
/// wraps, or under soft repulsion is held inside the coordinate range. The facing
/// follows the velocity unless the velocity is zero.
pub open spec fn integrated(b: Boid, force: P2, s: BoidSettings, grid: GridSettings, dt: int) -> (
    P2,
    P2,
    P2,
) {
    let soft = s.boundary == BoundaryPolicy::SoftRepulsion;
    let dv = scaled(force, dt, b.mass as int);
    let push = if soft {
        scaled(border_force(b.position@, grid.width as int, grid.height as int), dt, SCALE as int)
    } else {
        (0int, 0int)
    };
    let vel = clamped(vadd(vadd(b.velocity@, dv), push), b.max_speed as int);
    let moved = vadd(b.position@, scaled(vel, dt, SCALE as int));
    let pos = if soft {
        (saturate(moved.0), saturate(moved.1))
    } else {
        wrapped(moved, grid.width as int, grid.height as int)
    };
    let facing = if vel == (0int, 0int) {
        b.facing@
    } else {
        vel
    };
    (pos, vel, facing)
}

/// Position, velocity and facing of agent `me` after one tick of the flock.
pub open spec fn next_state(
    boids: Seq<Boid>,
    me: int,
    s: BoidSettings,
    grid: GridSettings,
    goal: Option<Vec2>,
    dt: int,
) -> (P2, P2, P2) {
    integrated(boids[me], steering_force_of(boids, me, s, goal), s, grid, dt)
}

pub open spec fn goal_ok(goal: Option<Vec2>) -> bool {
    goal matches Some(g) ==> within(g@, COORD_LIMIT as int)
}

proof fn lemma_snapshot_ok(boids: Seq<Boid>)
    requires
        flock_ok(boids),
    ensures
        snapshot_ok(snapshot_of(boids)),
{
    let snap = snapshot_of(boids);
    assert forall|j: int| 0 <= j < snap.len() implies within(#[trigger] snap[j].0@, COORD_LIMIT as int)
        && within(snap[j].1@, SPEED_LIMIT as int) by {
        assert(boids[j].wf());
        lemma_short_within(boids[j].velocity@, boids[j].max_speed as int);
    }
}

proof fn lemma_bucket_ok(snap: Seq<(Vec2, Vec2)>, me: int, c: int, radius: int)
    requires
        snapshot_ok(snap),
    ensures
        neighbors_ok(bucket(snap, me, c, radius, snap.len() as int)),
{
    lemma_bucket_len(snap, me, c, radius, snap.len() as int);
    let ns = bucket(snap, me, c, radius, snap.len() as int);
    assert forall|i: int| 0 <= i < ns.len() implies within(#[trigger] ns[i].0@, COORD_LIMIT as int)
        && within(ns[i].1@, SPEED_LIMIT as int) by {
        let j = choose|j: int| 0 <= j < snap.len() && ns[i] == snap[j];
        assert(within(snap[j].0@, COORD_LIMIT as int));
    }
}

/// Net steering force of agent `me`, from the snapshot of the flock.
fn steering_force(
    snap: &Vec<(Vec2, Vec2)>,
    boids: &Vec<Boid>,
    me: usize,
    settings: &BoidSettings,
    goal: Option<Vec2>,
) -> (r: Vec2)
    requires
        flock_ok(boids@),
        snap@ == snapshot_of(boids@),
        me < boids.len(),
        settings.wf(),
        goal_ok(goal),
    ensures
        r@ == steering_force_of(boids@, me as int, *settings, goal),
        len_sq(r@) <= boids@[me as int].max_force * boids@[me as int].max_force,
{
    let b = boids[me];
    proof {
        assert(b.wf());
        lemma_snapshot_ok(boids@);
        let c = settings.view_cos as int;
        lemma_bucket_ok(snap@, me as int, c, settings.separation_radius as int);
        lemma_bucket_ok(snap@, me as int, c, settings.alignment_radius as int);
        lemma_bucket_ok(snap@, me as int, c, settings.cohesion_radius as int);
        lemma_short_within(b.velocity@, b.max_speed as int);
    }
    let neighbors = classify_neighbors(snap, me, settings);
    let sep = calculate_separation(b.position, &neighbors.separation);
    let ali = calculate_alignment(b.velocity, &neighbors.alignment);
    let coh = calculate_cohesion(b.position, &neighbors.cohesion);
    proof {
        lemma_scaled_within(sep@, settings.separation_weight as int, SCALE as int);
        lemma_scaled_within(ali@, settings.alignment_weight as int, SCALE as int);
        lemma_scaled_within(coh@, settings.cohesion_weight as int, SCALE as int);
    }
    let sep = sep.scale(settings.separation_weight, SCALE);
    let ali = ali.scale(settings.alignment_weight, SCALE);
    let coh = coh.scale(settings.cohesion_weight, SCALE);
    let seek = match goal {
        Some(g) => {
            let f = calculate_seek_with_arrival(
                b.position,
                b.velocity,
                g,
                b.max_speed,
                b.max_force,
                settings.goal_arrival_radius,
            );
            proof {
                lemma_scaled_bound(
                    f@,
                    2 * b.max_force,
                    settings.goal_attraction_weight as int,
                    SCALE as int,
                );
                assert(2 * b.max_force * settings.goal_attraction_weight / (SCALE as int)
                    <= 0x200_0000_0000 * 0x10_0000) by (nonlinear_arith)
                    requires
                        0 <= 2 * b.max_force <= 0x200_0000_0000,
                        0 <= settings.goal_attraction_weight <= 0x10_0000,
                ;
            }
            f.scale(settings.goal_attraction_weight, SCALE)
        },
        None => Vec2::zero(),
    };
    let total = sep.plus(&ali).plus(&coh).plus(&seek);
    total.clamp_length_max(b.max_force)
}

/// The agent after one tick of `dt` milliseconds under the net force `force`.
fn integrate(b: &Boid, force: Vec2, settings: &BoidSettings, grid: &GridSettings, dt: i64) -> (r:
    Boid)
    requires
        b.wf(),
        len_sq(force@) <= b.max_force * b.max_force,
        grid.wf(),
        0 <= dt <= DT_LIMIT,
    ensures
        r.wf(),
        (r.position@, r.velocity@, r.facing@) == integrated(
            *b,
            force@,
            *settings,
            *grid,
            dt as int,
        ),
        r.mass == b.mass,
        r.max_speed == b.max_speed,
        r.max_force == b.max_force,
{
    let soft = settings.boundary == BoundaryPolicy::SoftRepulsion;
    proof {
        lemma_short_within(force@, b.max_force as int);
        lemma_short_within(b.velocity@, b.max_speed as int);
        lemma_scaled_bound(force@, b.max_force as int, dt as int, b.mass as int);
        assert(b.max_force * dt / (b.mass as int) <= 0x100_0000_0000 * 0x10_0000) by (nonlinear_arith)
            requires
                0 <= b.max_force <= 0x100_0000_0000,
                0 <= dt <= 0x10_0000,
                b.mass >= 1,
        ;
    }
    let dv = force.scale(dt, b.mass);
    let push = if soft {
        let f = border_repulsion(b.position, grid);
        proof {
            lemma_scaled_bound(f@, BORDER_FORCE_LIMIT as int, dt as int, SCALE as int);
            assert(BORDER_FORCE_LIMIT * dt / (SCALE as int) <= 0x2000_0000_0000 * 0x10_0000)
                by (nonlinear_arith)
                requires
                    0 <= dt <= 0x10_0000,
                    BORDER_FORCE_LIMIT == 0x2000_0000_0000,
            ;
        }
        f.scale(dt, SCALE)
    } else {
        Vec2::zero()
    };
    let vel = b.velocity.plus(&dv).plus(&push).clamp_length_max(b.max_speed);
    proof {
        lemma_scaled_bound(vel@, b.max_speed as int, dt as int, SCALE as int);
        assert(b.max_speed * dt / 1000 <= 0x8_0000_0000_0000) by (nonlinear_arith)
            requires
                0 <= b.max_speed <= 0x100_0000_0000,
                0 <= dt <= 0x10_0000,
        ;
    }
    let moved = b.position.plus(&vel.scale(dt, SCALE));
    let position = if soft {
        Vec2 { x: saturate_coord(moved.x), y: saturate_coord(moved.y) }
    } else {
        wrap_position(moved, grid)
    };
    let facing = if vel.is_zero() {
        b.facing
    } else {
        vel
    };
    Boid {
        position,
        velocity: vel,
        facing,
        mass: b.mass,
        max_speed: b.max_speed,
        max_force: b.max_force,
    }
}

fn saturate_coord(c: i64) -> (r: i64)
    ensures
        r == saturate(c as int),
{
    if c > COORD_LIMIT {
        COORD_LIMIT
    } else if c < -COORD_LIMIT {
        -COORD_LIMIT
    } else {
        c
    }
}

/// One tick of the whole flock, `dt` milliseconds long.
///
/// Every agent's neighbours and forces are computed from the positions and
/// velocities that all agents had at the start of the tick; only then are the
/// agents moved, so the order of the agents does not bias the result. After the
/// tick every agent's speed is at most its `max_speed`.
pub fn advance(
    boids: &mut Vec<Boid>,
    settings: &BoidSettings,
    grid: &GridSettings,
    goal: Option<Vec2>,
    dt: i64,
)
    requires
        flock_ok(old(boids)@),
        settings.wf(),
        grid.wf(),
        goal_ok(goal),
        0 <= dt <= DT_LIMIT,
    ensures
        final(boids)@.len() == old(boids)@.len(),
        flock_ok(final(boids)@),
        forall|i: int|
            0 <= i < final(boids)@.len() ==> len_sq((#[trigger] final(boids)@[i]).velocity@)
                <= final(boids)@[i].max_speed * final(boids)@[i].max_speed,
        forall|i: int|
            0 <= i < final(boids)@.len() ==> (
                (#[trigger] final(boids)@[i]).position@,
                final(boids)@[i].velocity@,
                final(boids)@[i].facing@,
            ) == next_state(old(boids)@, i, *settings, *grid, goal, dt as int),
        forall|i: int|
            0 <= i < final(boids)@.len() ==> (#[trigger] final(boids)@[i]).mass == old(boids)@[i].mass
                && final(boids)@[i].max_speed == old(boids)@[i].max_speed
                && final(boids)@[i].max_force == old(boids)@[i].max_force,
{
    let ghost start = boids@;
    let mut snap: Vec<(Vec2, Vec2)> = Vec::new();
    let mut i: usize = 0;
    while i < boids.len()
        invariant
            boids@ == start,
            i <= boids.len(),
            snap@ == snapshot_of(start).subrange(0, i as int),
        decreases boids.len() - i,
    {
        snap.push((boids[i].position, boids[i].velocity));
        proof {
            assert(snap@ =~= snapshot_of(start).subrange(0, i + 1));
        }
        i += 1;
    }
    proof {
        assert(snap@ =~= snapshot_of(start));
    }
    let mut next: Vec<Boid> = Vec::new();
    let mut i: usize = 0;
    while i < boids.len()
        invariant
            boids@ == start,
            flock_ok(start),
            snap@ == snapshot_of(start),
            settings.wf(),
            grid.wf(),
            goal_ok(goal),
            0 <= dt <= DT_LIMIT,
            i <= boids.len(),
            next@.len() == i,
            forall|j: int|
                0 <= j < i ==> {
                    &&& (#[trigger] next@[j]).wf()
                    &&& (next@[j].position@, next@[j].velocity@, next@[j].facing@) == next_state(
                        start,
                        j,
                        *settings,
                        *grid,
                        goal,
                        dt as int,
                    )
                    &&& next@[j].mass == start[j].mass
                    &&& next@[j].max_speed == start[j].max_speed
                    &&& next@[j].max_force == start[j].max_force
                },
        decreases boids.len() - i,
    {
        let force = steering_force(&snap, boids, i, settings, goal);
        proof {
            assert(start[i as int].wf());
        }
        let moved = integrate(&boids[i], force, settings, grid, dt);
        next.push(moved);
        i += 1;
    }
    *boids = next;
}

} // verus!
