//! Which other agents one agent perceives, and in which perception buckets.
use vstd::prelude::*;
use crate::fixed::SCALE;
use crate::settings::{BoidSettings, radius_ok, COORD_LIMIT, SPEED_LIMIT, AGENT_LIMIT};
use crate::vec2::{P2, Vec2, dot, len_sq, unit, vsub, within};

verus! {

/// The view cone of an agent at `pos` heading along `dir` contains `other`: the
/// cosine of the angle between `dir` and the offset `other - pos` is at least
/// `view_cos / SCALE`. That is `dot(dir, d) * SCALE >= view_cos * |dir| * |d|`,
/// decided exactly by comparing squares with the signs taken apart.
///
/// A zero `dir`, or an `other` at `pos`, gives no direction; it counts as a
/// direction at right angles, so it lies in the cone exactly when the cone is at
/// least a half-plane (`view_cos <= 0`).
pub open spec fn sees(pos: P2, dir: P2, other: P2, view_cos: int) -> bool {
    let d = vsub(other, pos);
    if len_sq(dir) == 0 || len_sq(d) == 0 {
        view_cos <= 0
    } else {
        let lhs = dot(dir, d) * SCALE;
        let rhs_sq = view_cos * view_cos * len_sq(dir) * len_sq(d);
        if lhs >= 0 {
            view_cos <= 0 || lhs * lhs >= rhs_sq
        } else {
            view_cos < 0 && lhs * lhs <= rhs_sq
        }
    }
}

/// Tests whether `other_pos` lies in the view cone of an agent at `boid_pos`
/// heading along `boid_dir`.
pub fn is_in_view(boid_pos: Vec2, boid_dir: Vec2, other_pos: Vec2, view_cos: i64) -> (r: bool)
    requires
        within(boid_pos@, COORD_LIMIT as int),
        within(other_pos@, COORD_LIMIT as int),
        within(boid_dir@, SCALE as int),
        -SCALE <= view_cos <= SCALE,
    ensures
        r == sees(boid_pos@, boid_dir@, other_pos@, view_cos as int),
{
    let d = other_pos.minus(&boid_pos);
    let nd = d.length_squared();
    let nh = boid_dir.length_squared();
    if nd == 0 || nh == 0 {
        return view_cos <= 0;
    }
    proof {
        lemma_cone_terms(boid_dir@, d@, view_cos as int, nh as int, nd as int);
    }
    let dt = boid_dir.x as i128 * d.x as i128 + boid_dir.y as i128 * d.y as i128;
    let lhs = dt * SCALE as i128;
    let c = view_cos as i128;
    let rhs_sq = c * c * (nh as i128) * (nd as i128);
    assert(lhs == dot(boid_dir@, d@) * SCALE);
    proof {
        lemma_square_fits(lhs as int);
    }
    let lhs_sq = lhs * lhs;
    if lhs >= 0 {
        view_cos <= 0 || lhs_sq >= rhs_sq
    } else {
        view_cos < 0 && lhs_sq <= rhs_sq
    }
}

proof fn lemma_square_fits(x: int)
    requires
        -0x40_0000_0000_0000 <= x <= 0x40_0000_0000_0000,
    ensures
        0 <= x * x <= 0x1000_0000_0000_0000_0000_0000_0000,
{
    assert(0 <= x * x <= 0x1000_0000_0000_0000_0000_0000_0000) by (nonlinear_arith)
        requires
            -0x40_0000_0000_0000 <= x <= 0x40_0000_0000_0000,
    ;
}

proof fn lemma_cone_terms(h: P2, d: P2, c: int, nh: int, nd: int)
    requires
        within(h, SCALE as int),
        within(d, 0x1_0000_0000),
        -SCALE <= c <= SCALE,
        nh == len_sq(h),
        nd == len_sq(d),
    ensures
        -0x800_0000_0000 <= h.0 * d.0 <= 0x800_0000_0000,
        -0x800_0000_0000 <= h.1 * d.1 <= 0x800_0000_0000,
        -0x40_0000_0000_0000 <= dot(h, d) * SCALE <= 0x40_0000_0000_0000,
        (dot(h, d) * SCALE) * (dot(h, d) * SCALE) <= 0x1000_0000_0000_0000_0000_0000_0000,
        0 <= c * c <= 0x10_0000,
        0 <= c * c * nh <= 0x10_0000 * 0x20_0000,
        0 <= c * c * nh * nd <= 0x10_0000 * 0x20_0000 * 0x2_0000_0000_0000_0000,
{
    assert(-0x800_0000_0000 <= h.0 * d.0 <= 0x800_0000_0000 && -0x800_0000_0000 <= h.1 * d.1
        <= 0x800_0000_0000) by (nonlinear_arith)
        requires
            -1000 <= h.0 <= 1000,
            -1000 <= h.1 <= 1000,
            -0x1_0000_0000 <= d.0 <= 0x1_0000_0000,
            -0x1_0000_0000 <= d.1 <= 0x1_0000_0000,
    ;
    let l = dot(h, d) * SCALE;
    assert(l * l <= 0x1000_0000_0000_0000_0000_0000_0000) by (nonlinear_arith)
        requires
            -0x40_0000_0000_0000 <= l <= 0x40_0000_0000_0000,
    ;
    crate::vec2::lemma_len_sq_bound(h, 1000);
    crate::vec2::lemma_len_sq_bound(d, 0x1_0000_0000);
    assert(0 <= c * c <= 0x10_0000) by (nonlinear_arith)
        requires
            -1000 <= c <= 1000,
    ;
    assert(0 <= c * c * nh <= 0x10_0000 * 0x20_0000) by (nonlinear_arith)
        requires
            0 <= c * c <= 0x10_0000,
            0 <= nh <= 0x20_0000,
    ;
    assert(0 <= c * c * nh * nd <= 0x10_0000 * 0x20_0000 * 0x2_0000_0000_0000_0000)
        by (nonlinear_arith)
        requires
            0 <= c * c * nh <= 0x10_0000 * 0x20_0000,
            0 <= nd <= 0x2_0000_0000_0000_0000,
    ;
}

proof fn lemma_radius_square(r: i64)
    requires
        radius_ok(r),
    ensures
        0 <= r * r <= 0x10_0000_0000_0000_0000_0000,
{
    assert(0 <= r * r <= 0x10_0000_0000_0000_0000_0000) by (nonlinear_arith)
        requires
            0 <= r <= 0x400_0000_0000,
    ;
}

/// A snapshot of the flock: the position and velocity of every agent.
pub open spec fn snapshot_ok(snap: Seq<(Vec2, Vec2)>) -> bool {
    &&& snap.len() <= AGENT_LIMIT
    &&& forall|j: int|
        0 <= j < snap.len() ==> within(#[trigger] snap[j].0@, COORD_LIMIT as int) && within(
            snap[j].1@,
            SPEED_LIMIT as int,
        )
}

/// Agent `j` is another agent than `me` and lies in the view cone of `me`.
pub open spec fn perceived(snap: Seq<(Vec2, Vec2)>, me: int, j: int, view_cos: int) -> bool {
    j != me && sees(snap[me].0@, unit(snap[me].1@), snap[j].0@, view_cos)
}

/// Agent `j` is closer to agent `me` than `radius`.
pub open spec fn closer_than(snap: Seq<(Vec2, Vec2)>, me: int, j: int, radius: int) -> bool {
    len_sq(vsub(snap[j].0@, snap[me].0@)) < radius * radius
}

/// The agents among the first `k` of the snapshot that `me` perceives closer than
/// `radius`, in snapshot order.
pub open spec fn bucket(
    snap: Seq<(Vec2, Vec2)>,
    me: int,
    view_cos: int,
    radius: int,
    k: int,
) -> Seq<(Vec2, Vec2)>
    decreases k,
{
    if k <= 0 {
        seq![]
    } else {
        let prev = bucket(snap, me, view_cos, radius, k - 1);
        if perceived(snap, me, k - 1, view_cos) && closer_than(snap, me, k - 1, radius) {
            prev.push(snap[k - 1])
        } else {
            prev
        }
    }
}

/// The three perception buckets of one agent: (position, velocity) of each
/// perceived agent within the separation, alignment and cohesion radius.
pub struct Neighbors {
    pub separation: Vec<(Vec2, Vec2)>,
    pub alignment: Vec<(Vec2, Vec2)>,
    pub cohesion: Vec<(Vec2, Vec2)>,
}

/// Every entry of `s` is one of the snapshot's entries.
pub open spec fn drawn_from(s: Seq<(Vec2, Vec2)>, snap: Seq<(Vec2, Vec2)>) -> bool {
    forall|i: int| 0 <= i < s.len() ==> exists|j: int| 0 <= j < snap.len() && #[trigger] s[i] == snap[j]
}

pub proof fn lemma_bucket_len(snap: Seq<(Vec2, Vec2)>, me: int, view_cos: int, radius: int, k: int)
    requires
        0 <= k <= snap.len(),
    ensures
        bucket(snap, me, view_cos, radius, k).len() <= k,
        drawn_from(bucket(snap, me, view_cos, radius, k), snap),
    decreases k,
{
    if k > 0 {
        lemma_bucket_len(snap, me, view_cos, radius, k - 1);
        let prev = bucket(snap, me, view_cos, radius, k - 1);
        let cur = bucket(snap, me, view_cos, radius, k);
        assert forall|i: int| 0 <= i < cur.len() implies exists|j: int|
            0 <= j < snap.len() && #[trigger] cur[i] == snap[j] by {
            if i < prev.len() {
                assert(cur[i] == prev[i]);
            } else {
                assert(cur[i] == snap[k - 1]);
            }
        }
    }
}

/// Sorts the other agents of the snapshot into the perception buckets of agent
/// `me`, in snapshot order.
pub fn classify_neighbors(snap: &Vec<(Vec2, Vec2)>, me: usize, settings: &BoidSettings) -> (r:
    Neighbors)
    requires
        snapshot_ok(snap@),
        me < snap.len(),
        settings.wf(),
    ensures
        r.separation@ == bucket(
            snap@,
            me as int,
            settings.view_cos as int,
            settings.separation_radius as int,
            snap.len() as int,
        ),
        r.alignment@ == bucket(
            snap@,
            me as int,
            settings.view_cos as int,
            settings.alignment_radius as int,
            snap.len() as int,
        ),
        r.cohesion@ == bucket(
            snap@,
            me as int,
            settings.view_cos as int,
            settings.cohesion_radius as int,
            snap.len() as int,
        ),
{
    proof {
        assert(within(snap@[me as int].0@, COORD_LIMIT as int));
    }
    let pos = snap[me].0;
    let direction = snap[me].1.normalize_or_zero();
    proof {
        lemma_radius_square(settings.separation_radius);
        lemma_radius_square(settings.alignment_radius);
        lemma_radius_square(settings.cohesion_radius);
    }
    let sep_r = settings.separation_radius as i128 * settings.separation_radius as i128;
    let ali_r = settings.alignment_radius as i128 * settings.alignment_radius as i128;
    let coh_r = settings.cohesion_radius as i128 * settings.cohesion_radius as i128;
    let mut separation: Vec<(Vec2, Vec2)> = Vec::new();
    let mut alignment: Vec<(Vec2, Vec2)> = Vec::new();
    let mut cohesion: Vec<(Vec2, Vec2)> = Vec::new();
    let mut j: usize = 0;
    while j < snap.len()
        invariant
            snapshot_ok(snap@),
            me < snap.len(),
            settings.wf(),
            j <= snap.len(),
            pos == snap@[me as int].0,
            direction@ == unit(snap@[me as int].1@),
            within(direction@, SCALE as int),
            sep_r == settings.separation_radius * settings.separation_radius,
            ali_r == settings.alignment_radius * settings.alignment_radius,
            coh_r == settings.cohesion_radius * settings.cohesion_radius,
            separation@ == bucket(
                snap@,
                me as int,
                settings.view_cos as int,
                settings.separation_radius as int,
                j as int,
            ),
            alignment@ == bucket(
                snap@,
                me as int,
                settings.view_cos as int,
                settings.alignment_radius as int,
                j as int,
            ),
            cohesion@ == bucket(
                snap@,
                me as int,
                settings.view_cos as int,
                settings.cohesion_radius as int,
                j as int,
            ),
        decreases snap.len() - j,
    {
        let other = snap[j];
        proof {
            assert(within(snap@[j as int].0@, COORD_LIMIT as int));
        }
        if j != me && is_in_view(pos, direction, other.0, settings.view_cos) {
            let dist_sq = other.0.minus(&pos).length_squared() as i128;
            if dist_sq < sep_r {
                separation.push(other);
            }
            if dist_sq < ali_r {
                alignment.push(other);
            }
            if dist_sq < coh_r {
                cohesion.push(other);
            }
        }
        j += 1;
    }
    Neighbors { separation, alignment, cohesion }
}

} // verus!
