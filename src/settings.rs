//! Tunable parameters of the flock and of the world it lives in.
use vstd::prelude::*;
use crate::fixed::SCALE;

verus! {

/// Largest coordinate magnitude a position may take.
pub const COORD_LIMIT: i64 = 0x8000_0000;

/// Largest accepted `max_speed` and `max_force`.
pub const SPEED_LIMIT: i64 = 0x100_0000_0000;

/// Largest accepted weight of a steering behaviour.
pub const WEIGHT_LIMIT: i64 = 0x10_0000;

/// Largest accepted perception or arrival radius.
pub const RADIUS_LIMIT: i64 = 0x400_0000_0000;

/// Largest accepted time step, in milliseconds.
pub const DT_LIMIT: i64 = 0x10_0000;

/// Largest accepted population.
pub const AGENT_LIMIT: usize = 0x10_0000;

/// Mass given to a default agent (one unit).
pub const BOID_MASS: i64 = 1000;

/// Top speed of a default agent (100 units per second).
pub const BOID_MAX_SPEED: i64 = 100_000;

/// Force bound of a default agent.
pub const BOID_MAX_FORCE: i64 = 1_000_000;

/// Speed at which a freshly spawned agent starts (80 units per second).
pub const INITIAL_SPEED: i64 = 80_000;

/// Population of the default scene.
pub const NUMBER_BOIDS: usize = 500;

/// Default world width and height (700 units).
pub const GRID_WIDTH: i64 = 700_000;
pub const GRID_HEIGHT: i64 = 700_000;

/// How agents are kept inside the world.
#[derive(Clone, Copy, Debug, PartialEq, Eq, Structural)]
pub enum BoundaryPolicy {
    /// An agent leaving through one edge reappears at the opposite edge.
    Wrap,
    /// Agents near an edge receive an impulse pushing them back inside.
    SoftRepulsion,
}

/// Perception radii, behaviour weights, view cone and goal tuning.
///
/// Radii are fixed-point lengths, weights fixed-point factors (`SCALE` is a
/// weight of one). The view cone is given by the cosine of its half-angle, times
/// `SCALE`: `0` is a half-plane (a 180 degree cone), `-SCALE` sees all around.
#[derive(Clone, Copy, Debug)]
pub struct BoidSettings {
    pub separation_radius: i64,
    pub alignment_radius: i64,
    pub cohesion_radius: i64,
    pub separation_weight: i64,
    pub alignment_weight: i64,
    pub cohesion_weight: i64,
    pub view_cos: i64,
    pub goal_attraction_weight: i64,
    pub goal_arrival_radius: i64,
    pub boundary: BoundaryPolicy,
}

pub open spec fn radius_ok(r: i64) -> bool {
    0 <= r <= RADIUS_LIMIT
}

pub open spec fn weight_ok(w: i64) -> bool {
    0 <= w <= WEIGHT_LIMIT
}

impl BoidSettings {
    /// Every field is in its accepted range; in particular the arrival radius is
    /// positive.
    pub open spec fn wf(&self) -> bool {
        &&& radius_ok(self.separation_radius)
        &&& radius_ok(self.alignment_radius)
        &&& radius_ok(self.cohesion_radius)
        &&& weight_ok(self.separation_weight)
        &&& weight_ok(self.alignment_weight)
        &&& weight_ok(self.cohesion_weight)
        &&& weight_ok(self.goal_attraction_weight)
        &&& -SCALE <= self.view_cos <= SCALE
        &&& 0 < self.goal_arrival_radius <= RADIUS_LIMIT
    }

    /// Tells whether the settings are usable by a simulation step.
    pub fn is_valid(&self) -> (r: bool)
        ensures
            r == self.wf(),
    {
        0 <= self.separation_radius && self.separation_radius <= RADIUS_LIMIT
            && 0 <= self.alignment_radius && self.alignment_radius <= RADIUS_LIMIT
            && 0 <= self.cohesion_radius && self.cohesion_radius <= RADIUS_LIMIT
            && 0 <= self.separation_weight && self.separation_weight <= WEIGHT_LIMIT
            && 0 <= self.alignment_weight && self.alignment_weight <= WEIGHT_LIMIT
            && 0 <= self.cohesion_weight && self.cohesion_weight <= WEIGHT_LIMIT
            && 0 <= self.goal_attraction_weight && self.goal_attraction_weight <= WEIGHT_LIMIT
            && -SCALE <= self.view_cos && self.view_cos <= SCALE
            && 0 < self.goal_arrival_radius && self.goal_arrival_radius <= RADIUS_LIMIT
    }
}

impl Default for BoidSettings {
    /// Radii 20, 80 and 120 units; weights 2.5, 1.8 and 1.0; a view cone of 4.7
    /// radians; goal weight 0.1 with a 30 unit arrival radius; soft edges.
    fn default() -> (r: Self)
        ensures
            r.wf(),
            r.separation_radius == 20_000,
            r.alignment_radius == 80_000,
            r.cohesion_radius == 120_000,
            r.separation_weight == 2500,
            r.alignment_weight == 1800,
            r.cohesion_weight == 1000,
            r.view_cos == -703,
            r.goal_attraction_weight == 100,
            r.goal_arrival_radius == 30_000,
            r.boundary == BoundaryPolicy::SoftRepulsion,
    {
        BoidSettings {
            separation_radius: 20_000,
            alignment_radius: 80_000,
            cohesion_radius: 120_000,
            separation_weight: 2500,
            alignment_weight: 1800,
            cohesion_weight: 1000,
            view_cos: -703,
            goal_attraction_weight: 100,
            goal_arrival_radius: 30_000,
            boundary: BoundaryPolicy::SoftRepulsion,
        }
    }
}

/// Extent of the world: the rectangle `[-width/2, width/2] x [-height/2, height/2]`.
#[derive(Clone, Copy, Debug)]
pub struct GridSettings {
    pub width: i64,
    pub height: i64,
}

impl GridSettings {
    pub open spec fn wf(&self) -> bool {
        0 <= self.width <= 2 * COORD_LIMIT && 0 <= self.height <= 2 * COORD_LIMIT
    }

    /// Tells whether the extent is usable by a simulation step.
    pub fn is_valid(&self) -> (r: bool)
        ensures
            r == self.wf(),
    {
        0 <= self.width && self.width <= 2 * COORD_LIMIT && 0 <= self.height && self.height <= 2
            * COORD_LIMIT
    }
}

impl Default for GridSettings {
    fn default() -> (r: Self)
        ensures
            r.wf(),
            r.width == GRID_WIDTH,
            r.height == GRID_HEIGHT,
    {
        GridSettings { width: GRID_WIDTH, height: GRID_HEIGHT }
    }
}

} // verus!
