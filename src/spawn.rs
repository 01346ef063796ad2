//! Creating a population at random positions with random headings.
use vstd::prelude::*;
use crate::fixed::SCALE;
use crate::settings::{
    GridSettings, AGENT_LIMIT, COORD_LIMIT, INITIAL_SPEED, BOID_MASS, BOID_MAX_SPEED,
    BOID_MAX_FORCE,
};
use crate::vec2::{Vec2, len_sq, within, scaled, unit, lemma_scaled_within, COMPONENT_LIMIT};
use crate::flock::{Boid, flock_ok};

verus! {

/// Slowest speed a spawned agent can start with: `INITIAL_SPEED` scaled by the
/// shortest length a direction vector can have, `SCALE - 3`.
pub const INITIAL_SLOWEST: i64 = 79_760;

proof fn lemma_initial_speed(u: (int, int))
    requires
        len_sq(u) >= (SCALE - 3) * (SCALE - 3),
    ensures
        len_sq(scaled(u, INITIAL_SPEED as int, SCALE as int)) >= INITIAL_SLOWEST * INITIAL_SLOWEST,
{
    let v = scaled(u, INITIAL_SPEED as int, SCALE as int);
    assert(v == (u.0 * 80, u.1 * 80));
    assert(v.0 * v.0 + v.1 * v.1 == 6400 * (u.0 * u.0 + u.1 * u.1)) by (nonlinear_arith)
        requires
            v == (u.0 * 80, u.1 * 80),
    ;
    assert(6400 * (u.0 * u.0 + u.1 * u.1) >= 79_760 * 79_760) by (nonlinear_arith)
        requires
            u.0 * u.0 + u.1 * u.1 >= 997 * 997,
    ;
}

/// Relies on `rand::random_range`: a value from the thread-local generator in
/// `[lo, hi)`; it panics on an empty range, which `requires` rules out.
#[verifier::external_body]
fn random_in(lo: i64, hi: i64) -> (r: i64)
    requires
        lo < hi,
    ensures
        lo <= r < hi,
{
    rand::random_range(lo..hi)
}

/// An agent with the default mass and limits at `position`, moving along
/// `heading` at `INITIAL_SPEED` (no less than `INITIAL_SLOWEST` after rounding the
/// direction); at rest and facing up for a zero heading.
pub fn spawn_boid(position: Vec2, heading: Vec2) -> (r: Boid)
    requires
        within(position@, COORD_LIMIT as int),
        within(heading@, COMPONENT_LIMIT as int),
    ensures
        r.wf(),
        r.position == position,
        r.velocity@ == scaled(unit(heading@), INITIAL_SPEED as int, SCALE as int),
        r.facing@ == if r.velocity@ == (0int, 0int) {
            (0int, SCALE as int)
        } else {
            r.velocity@
        },
        len_sq(heading@) > 0 ==> len_sq(r.velocity@) >= INITIAL_SLOWEST * INITIAL_SLOWEST,
        len_sq(r.velocity@) <= INITIAL_SPEED * INITIAL_SPEED,
        r.mass == BOID_MASS,
        r.max_speed == BOID_MAX_SPEED,
        r.max_force == BOID_MAX_FORCE,
{
    let dir = heading.normalize_or_zero();
    proof {
        lemma_scaled_within(dir@, INITIAL_SPEED as int, SCALE as int);
        if len_sq(heading@) > 0 {
            lemma_initial_speed(dir@);
        }
    }
    let velocity = dir.scale(INITIAL_SPEED, SCALE);
    let facing = if velocity.is_zero() {
        Vec2::new(0, SCALE)
    } else {
        velocity
    };
    Boid {
        position,
        velocity,
        facing,
        mass: BOID_MASS,
        max_speed: BOID_MAX_SPEED,
        max_force: BOID_MAX_FORCE,
    }
}

/// Number of draws `random_heading` makes before it settles for `+x`.
pub const HEADING_ATTEMPTS: u32 = 32;

/// A drawn point is a usable heading when it lies in the ring between radius
/// `SCALE / 2` and radius `SCALE`.
pub open spec fn heading_accepted(p: (int, int)) -> bool {
    SCALE * SCALE <= 4 * len_sq(p) && len_sq(p) <= SCALE * SCALE
}

/// Turns a point drawn from the square `[-SCALE, SCALE]^2` into a heading: the
/// point itself when it lies in the ring between radius `SCALE / 2` and `SCALE`,
/// nothing otherwise (the ring keeps the angle uniform and the point long enough
/// to give a precise direction).
pub fn heading_from_draw(x: i64, y: i64) -> (r: Option<Vec2>)
    requires
        -SCALE <= x <= SCALE,
        -SCALE <= y <= SCALE,
    ensures
        heading_accepted((x as int, y as int)) ==> r == Some(Vec2::new_spec(x, y)),
        !heading_accepted((x as int, y as int)) ==> r.is_none(),
{
    let v = Vec2::new(x, y);
    let n = v.length_squared();
    if 1_000_000 <= 4 * n && n <= 1_000_000 {
        Some(v)
    } else {
        None
    }
}

/// A random heading, uniform in angle, between `SCALE / 2` and `SCALE` long.
pub fn random_heading() -> (r: Vec2)
    ensures
        within(r@, SCALE as int),
        heading_accepted(r@),
{
    let mut attempt: u32 = 0;
    while attempt < HEADING_ATTEMPTS
        decreases HEADING_ATTEMPTS - attempt,
    {
        let x = random_in(-SCALE, SCALE + 1);
        let y = random_in(-SCALE, SCALE + 1);
        if let Some(v) = heading_from_draw(x, y) {
            return v;
        }
        attempt += 1;
    }
    let r = Vec2::new(SCALE, 0);
    assert(r@.0 * r@.0 + r@.1 * r@.1 == 1_000_000) by (nonlinear_arith)
        requires
            r@ == (1000int, 0int),
    ;
    r
}

/// Lies in the world: `|x| <= width / 2` and `|y| <= height / 2`.
pub open spec fn in_world(p: (int, int), grid: GridSettings) -> bool {
    -(grid.width / 2) <= p.0 <= grid.width / 2 && -(grid.height / 2) <= p.1 <= grid.height / 2
}

/// A coordinate drawn from `[-extent / 2, extent / 2)`: the upper end excluded,
/// and `0` when the half extent is zero.
pub open spec fn in_draw_range(c: int, extent: int) -> bool {
    if extent / 2 > 0 {
        -(extent / 2) <= c < extent / 2
    } else {
        c == 0
    }
}

/// Lies in the spawning area `[-width/2, width/2) x [-height/2, height/2)`.
pub open spec fn in_spawn_area(p: (int, int), grid: GridSettings) -> bool {
    in_draw_range(p.0, grid.width as int) && in_draw_range(p.1, grid.height as int)
}

fn random_coord(extent: i64) -> (r: i64)
    requires
        0 <= extent <= 2 * COORD_LIMIT,
    ensures
        in_draw_range(r as int, extent as int),
        -(extent / 2) <= r <= extent / 2,
{
    let half = extent / 2;
    if half == 0 {
        0
    } else {
        random_in(-half, half)
    }
}

/// A random position inside the world.
pub fn random_position(grid: &GridSettings) -> (r: Vec2)
    requires
        grid.wf(),
    ensures
        in_spawn_area(r@, *grid),
        in_world(r@, *grid),
        within(r@, COORD_LIMIT as int),
{
    Vec2::new(random_coord(grid.width), random_coord(grid.height))
}

/// `count` default agents at random positions of the spawning area, each moving
/// at `INITIAL_SPEED` (less at most three thousandths of it, from rounding the
/// direction) in a random direction.
pub fn populate(count: usize, grid: &GridSettings) -> (r: Vec<Boid>)
    requires
        grid.wf(),
        count <= AGENT_LIMIT,
    ensures
        r@.len() == count,
        flock_ok(r@),
        forall|i: int|
            0 <= i < count ==> {
                &&& in_spawn_area((#[trigger] r@[i]).position@, *grid)
                &&& in_world(r@[i].position@, *grid)
                &&& len_sq(r@[i].velocity@) <= INITIAL_SPEED * INITIAL_SPEED
                &&& len_sq(r@[i].velocity@) >= INITIAL_SLOWEST * INITIAL_SLOWEST
                &&& r@[i].mass == BOID_MASS
                &&& r@[i].max_speed == BOID_MAX_SPEED
                &&& r@[i].max_force == BOID_MAX_FORCE
            },
{
    let mut boids: Vec<Boid> = Vec::new();
    let mut i: usize = 0;
    while i < count
        invariant
            grid.wf(),
            count <= AGENT_LIMIT,
            i <= count,
            boids@.len() == i,
            forall|j: int|
                0 <= j < i ==> {
                    &&& (#[trigger] boids@[j]).wf()
                    &&& in_spawn_area(boids@[j].position@, *grid)
                    &&& in_world(boids@[j].position@, *grid)
                    &&& len_sq(boids@[j].velocity@) <= INITIAL_SPEED * INITIAL_SPEED
                    &&& len_sq(boids@[j].velocity@) >= INITIAL_SLOWEST * INITIAL_SLOWEST
                    &&& boids@[j].mass == BOID_MASS
                    &&& boids@[j].max_speed == BOID_MAX_SPEED
                    &&& boids@[j].max_force == BOID_MAX_FORCE
                },
        decreases count - i,
    {
        let position = random_position(grid);
        let heading = random_heading();
        let boid = spawn_boid(position, heading);
        proof {
            crate::vec2::lemma_unit_length(heading@);
            lemma_scaled_within(unit(heading@), INITIAL_SPEED as int, SCALE as int);
            lemma_initial_speed(unit(heading@));
        }
        boids.push(boid);
        i += 1;
    }
    boids
}

} // verus!
