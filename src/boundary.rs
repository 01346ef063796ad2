//! Keeping agents inside the world: wrap-around or soft repulsion from the edges.
use vstd::prelude::*;
use crate::settings::{GridSettings, COORD_LIMIT};
use crate::vec2::{P2, Vec2, within};

verus! {

/// Distance from an edge at which the soft repulsion starts (50 units).
pub const BORDER_DISTANCE: i64 = 50_000;

/// Repulsion felt exactly on an edge (200 units per second squared).
pub const REPULSION_STRENGTH: i64 = 200_000;

/// One coordinate after the wrap check along an axis of length `extent`: past
/// `extent / 2` it jumps to `-extent / 2`, below `-extent / 2` to `extent / 2`
/// (halves rounded toward zero), otherwise it stays.
pub open spec fn wrap_coord(c: int, extent: int) -> int {
    if 2 * c > extent {
        -(extent / 2)
    } else if 2 * c < -extent {
        extent / 2
    } else {
        c
    }
}

/// A position after the wrap check, each axis on its own.
pub open spec fn wrapped(p: P2, width: int, height: int) -> P2 {
    (wrap_coord(p.0, width), wrap_coord(p.1, height))
}

/// Push away from one edge, given twice the distance to it (twice, so that odd
/// extents stay exact): growing linearly from zero at `BORDER_DISTANCE` to
/// `REPULSION_STRENGTH` on the edge (and beyond it further out), rounded down.
pub open spec fn edge_push(twice_dist: int) -> int {
    if twice_dist < 2 * BORDER_DISTANCE {
        (2 * BORDER_DISTANCE - twice_dist) * REPULSION_STRENGTH / (2 * BORDER_DISTANCE)
    } else {
        0
    }
}

/// Repulsion from the four edges of the `width` by `height` world, pointing
/// inward.
pub open spec fn border_force(p: P2, width: int, height: int) -> P2 {
    (
        edge_push(width + 2 * p.0) - edge_push(width - 2 * p.0),
        edge_push(height + 2 * p.1) - edge_push(height - 2 * p.1),
    )
}

/// Bound on each component of the border force for positions in range.
pub const BORDER_FORCE_LIMIT: i64 = 0x2000_0000_0000;

fn wrap_axis(c: i64, extent: i64) -> (r: i64)
    requires
        -WRAP_INPUT_LIMIT <= c <= WRAP_INPUT_LIMIT,
        0 <= extent <= 2 * COORD_LIMIT,
    ensures
        r == wrap_coord(c as int, extent as int),
        -COORD_LIMIT <= r <= COORD_LIMIT,
{
    if 2 * c > extent {
        -(extent / 2)
    } else if 2 * c < -extent {
        extent / 2
    } else {
        c
    }
}

/// Largest coordinate magnitude the wrap check accepts: positions just moved may
/// lie well outside the world.
pub const WRAP_INPUT_LIMIT: i64 = 0x10_0000_0000_0000;

/// Applies the wrap policy to a position.
pub fn wrap_position(pos: Vec2, grid: &GridSettings) -> (r: Vec2)
    requires
        within(pos@, WRAP_INPUT_LIMIT as int),
        grid.wf(),
    ensures
        r@ == wrapped(pos@, grid.width as int, grid.height as int),
        within(r@, COORD_LIMIT as int),
{
    Vec2 { x: wrap_axis(pos.x, grid.width), y: wrap_axis(pos.y, grid.height) }
}

fn push_from_edge(twice_dist: i64) -> (r: i64)
    requires
        -0x400_0000_0000 <= twice_dist <= 0x400_0000_0000,
    ensures
        r == edge_push(twice_dist as int),
        0 <= r <= 0x1000_0000_0000,
{
    if twice_dist < 2 * BORDER_DISTANCE {
        let k = 2 * BORDER_DISTANCE - twice_dist;
        assert(0 < k * REPULSION_STRENGTH <= 0x400_0000_0000 * 0x10_0000) by (nonlinear_arith)
            requires
                0 < k <= 100_000 + 0x400_0000_0000,
        ;
        let r = k * REPULSION_STRENGTH / (2 * BORDER_DISTANCE);
        assert(r <= k * REPULSION_STRENGTH);
        r
    } else {
        0
    }
}

/// Soft repulsion from the edges of the world felt at `pos`.
pub fn border_repulsion(pos: Vec2, grid: &GridSettings) -> (r: Vec2)
    requires
        within(pos@, COORD_LIMIT as int),
        grid.wf(),
    ensures
        r@ == border_force(pos@, grid.width as int, grid.height as int),
        within(r@, BORDER_FORCE_LIMIT as int),
{
    let x = push_from_edge(grid.width + 2 * pos.x) - push_from_edge(grid.width - 2 * pos.x);
    let y = push_from_edge(grid.height + 2 * pos.y) - push_from_edge(grid.height - 2 * pos.y);
    Vec2 { x, y }
}

} // verus!
