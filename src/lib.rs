//! A flocking ("boids") simulation core in fixed-point integer arithmetic.
//!
//! Every length, speed, force, mass, weight and duration is an integer count of
//! thousandths (see [`fixed::SCALE`]): a position of `1500` is one and a half
//! world units, a duration of `16` is sixteen milliseconds.
//!
//! Each tick ([`flock::advance`]) works in two phases: every agent first sorts
//! the others into three perception buckets ([`perception`]) and turns them,
//! with an optional goal point, into a steering force ([`steering`]), all from
//! the flock as it stood at the start of the tick; then every agent is moved.
//! The edges of the world either wrap or repel ([`boundary`]).
//!
//! Known characteristics of the model:
//! - separation, alignment and cohesion are directions of length `SCALE` (or
//!   zero): how many neighbours agree does not make alignment or cohesion
//!   stronger; only separation weighs each neighbour, by inverse distance;
//! - an agent at rest has no heading, and then perceives every other agent
//!   exactly when its view cone is at least a half-plane;
//! - the soft edge impulse is added to the velocity before the speed clamp, so
//!   that no agent ever exceeds its `max_speed`;
//! - square roots and divisions round as their contracts state: a non-zero
//!   direction vector is between `SCALE - 3` and `SCALE` long, and its angle
//!   is off by at most a few thousandths of a radian; the view-cone test is
//!   exact for the heading it is given, and so errs only by that heading's
//!   rounding.
use vstd::prelude::*;

pub mod fixed;
pub mod vec2;
pub mod settings;
pub mod perception;
pub mod steering;
pub mod boundary;
pub mod flock;
pub mod spawn;
pub mod laws;

verus! {

} // verus!
