use boids::boundary::{border_repulsion, wrap_position};
use boids::fixed::{div_toward_zero, isqrt_ceil, isqrt_floor};
use boids::flock::{advance, Boid, BoidError};
use boids::perception::{classify_neighbors, is_in_view};
use boids::settings::{BoidSettings, BoundaryPolicy, GridSettings, INITIAL_SPEED};
use boids::spawn::{heading_from_draw, populate, random_heading, spawn_boid, INITIAL_SLOWEST};
use boids::steering::{
    calculate_alignment, calculate_cohesion, calculate_seek_with_arrival, calculate_separation,
    desired_speed, force_multiplier,
};
use boids::vec2::Vec2;

fn v(x: i64, y: i64) -> Vec2 {
    Vec2::new(x, y)
}

fn len_sq(a: Vec2) -> i128 {
    a.x as i128 * a.x as i128 + a.y as i128 * a.y as i128
}

fn quiet_settings() -> BoidSettings {
    let mut s = BoidSettings::default();
    s.separation_weight = 0;
    s.alignment_weight = 0;
    s.cohesion_weight = 0;
    s
}

#[test]
fn integer_roots_and_division() {
    assert_eq!(isqrt_floor(15), 3);
    assert_eq!(isqrt_floor(16), 4);
    assert_eq!(isqrt_ceil(15), 4);
    assert_eq!(isqrt_ceil(16), 4);
    assert_eq!(isqrt_floor(0), 0);
    assert_eq!(div_toward_zero(-7, 2), -3);
    assert_eq!(div_toward_zero(7, 2), 3);
}

#[test]
fn normalize_and_clamp() {
    assert_eq!(v(-3, 4).normalize_or_zero(), v(-600, 800));
    assert_eq!(v(5, 0).normalize_or_zero(), v(1000, 0));
    assert_eq!(v(1, 1).normalize_or_zero(), v(706, 706));
    assert_eq!(v(1, 0).normalize_or_zero(), v(1000, 0));
    assert_eq!(v(2, 2).normalize_or_zero(), v(706, 706));
    assert_eq!(v(0, 0).normalize_or_zero(), v(0, 0));
    assert_eq!(v(3000, 4000).clamp_length_max(500), v(300, 400));
    assert_eq!(v(3, 4).clamp_length_max(500), v(3, 4));
}

#[test]
fn viewer_ahead_is_not_seen_back() {
    // (0,0) and (10,0) both facing +x with a 180 degree cone.
    let dir = v(1000, 0);
    assert!(is_in_view(v(0, 0), dir, v(10_000, 0), 0));
    assert!(!is_in_view(v(10_000, 0), dir, v(0, 0), 0));
}

#[test]
fn perception_is_asymmetric_in_buckets() {
    let snap = vec![(v(0, 0), v(1000, 0)), (v(10_000, 0), v(1000, 0))];
    let mut s = BoidSettings::default();
    s.view_cos = 0;
    let first = classify_neighbors(&snap, 0, &s);
    assert_eq!(first.separation, vec![(v(10_000, 0), v(1000, 0))]);
    assert_eq!(first.alignment.len(), 1);
    assert_eq!(first.cohesion.len(), 1);
    let second = classify_neighbors(&snap, 1, &s);
    assert!(second.separation.is_empty());
    assert!(second.alignment.is_empty());
    assert!(second.cohesion.is_empty());
}

#[test]
fn resting_agent_sees_only_with_wide_cone() {
    assert!(is_in_view(v(0, 0), v(0, 0), v(-5000, 0), 0));
    assert!(is_in_view(v(0, 0), v(0, 0), v(-5000, 0), -703));
    assert!(!is_in_view(v(0, 0), v(0, 0), v(5000, 0), 1));
}

#[test]
fn radii_are_independent() {
    let snap = vec![
        (v(0, 0), v(0, 0)),
        (v(15_000, 0), v(0, 0)),
        (v(50_000, 0), v(0, 0)),
        (v(100_000, 0), v(0, 0)),
        (v(200_000, 0), v(0, 0)),
    ];
    let mut s = BoidSettings::default();
    s.view_cos = -1000;
    let n = classify_neighbors(&snap, 0, &s);
    assert_eq!(n.separation.len(), 1);
    assert_eq!(n.alignment.len(), 2);
    assert_eq!(n.cohesion.len(), 3);
    s.alignment_radius = 10_000;
    let n = classify_neighbors(&snap, 0, &s);
    assert_eq!(n.alignment.len(), 0);
    assert_eq!(n.separation.len(), 1);
}

#[test]
fn empty_buckets_give_zero_forces() {
    let none: Vec<(Vec2, Vec2)> = Vec::new();
    assert_eq!(calculate_separation(v(123, -456), &none), v(0, 0));
    assert_eq!(calculate_alignment(v(5000, 7000), &none), v(0, 0));
    assert_eq!(calculate_cohesion(v(123, -456), &none), v(0, 0));
}

#[test]
fn separation_weights_closer_neighbors() {
    let one = vec![(v(10_000, 0), v(0, 0))];
    assert_eq!(calculate_separation(v(0, 0), &one), v(-1000, 0));
    let two = vec![(v(1000, 0), v(0, 0)), (v(0, 2000), v(0, 0))];
    assert_eq!(calculate_separation(v(0, 0), &two), v(-894, -447));
    let same_place = vec![(v(0, 0), v(0, 0))];
    assert_eq!(calculate_separation(v(0, 0), &same_place), v(0, 0));
}

#[test]
fn alignment_and_cohesion_directions() {
    let ns = vec![(v(0, 5000), v(1000, 0)), (v(0, 7000), v(3000, 0))];
    assert_eq!(calculate_alignment(v(0, 0), &ns), v(1000, 0));
    assert_eq!(calculate_alignment(v(2000, -2000), &ns), v(0, 1000));
    assert_eq!(calculate_cohesion(v(0, 0), &ns), v(0, 1000));
    assert_eq!(calculate_cohesion(v(0, 6000), &ns), v(0, 0));
}

#[test]
fn arrival_slows_down_inside_radius() {
    assert_eq!(desired_speed(100_000, 7_500, 30_000), 50_000);
    assert_eq!(desired_speed(100_000, 30_000, 30_000), 100_000);
    assert_eq!(desired_speed(100_000, 100_000, 30_000), 100_000);
    assert_eq!(desired_speed(100_000, 0, 30_000), 0);
    assert!(desired_speed(100_000, 29_999, 30_000) < 100_000);
}

#[test]
fn force_multiplier_at_the_boundary() {
    assert_eq!(force_multiplier(30_001 * 30_001, 30_000), 2);
    assert_eq!(force_multiplier(30_000 * 30_000 + 1, 30_000), 2);
    assert_eq!(force_multiplier(30_000 * 30_000, 30_000), 1);
    assert_eq!(force_multiplier(100, 30_000), 1);
    let just_past =
        calculate_seek_with_arrival(v(0, 0), v(0, 0), v(30_000, 1), 100_000, 1000, 30_000);
    assert_eq!(just_past, v(2000, 0));
    let at = calculate_seek_with_arrival(v(0, 0), v(0, 0), v(30_000, 0), 100_000, 1000, 30_000);
    assert_eq!(at, v(1000, 0));
    let past = calculate_seek_with_arrival(v(0, 0), v(0, 0), v(30_001, 0), 100_000, 1000, 30_000);
    assert_eq!(past, v(2000, 0));
}

#[test]
fn seek_far_goal_from_rest() {
    let f = calculate_seek_with_arrival(v(0, 0), v(0, 0), v(100_000, 0), 100_000, 1_000_000, 30_000);
    assert_eq!(f, v(100_000, 0));
    let on_goal = calculate_seek_with_arrival(v(5, 5), v(7, 0), v(5, 5), 100_000, 1_000_000, 30_000);
    assert_eq!(on_goal, v(0, 0));
}

#[test]
fn single_agent_closes_on_goal() {
    let mut flock = vec![Boid::default()];
    let s = BoidSettings::default();
    let grid = GridSettings::default();
    let goal = Some(v(100_000, 0));
    advance(&mut flock, &s, &grid, goal, 16);
    assert_eq!(flock[0].velocity, v(160, 0));
    assert_eq!(flock[0].position, v(2, 0));
    assert_eq!(flock[0].facing, v(160, 0));
    let mut reached = false;
    let mut last_x = flock[0].position.x;
    for _ in 0..2000 {
        advance(&mut flock, &s, &grid, goal, 16);
        let b = flock[0];
        assert_eq!(b.position.y, 0);
        let dx = b.position.x - 100_000;
        if !reached {
            assert!(b.position.x >= last_x);
            last_x = b.position.x;
        }
        if dx.abs() < 30_000 {
            reached = true;
        }
    }
    assert!(reached);
}

#[test]
fn speed_stays_bounded() {
    let grid = GridSettings::default();
    let mut flock = populate(60, &grid);
    let mut s = BoidSettings::default();
    for round in 0..2 {
        s.boundary = if round == 0 { BoundaryPolicy::SoftRepulsion } else { BoundaryPolicy::Wrap };
        for _ in 0..60 {
            advance(&mut flock, &s, &grid, Some(v(1000, -2000)), 33);
            for b in flock.iter() {
                assert!(len_sq(b.velocity) <= b.max_speed as i128 * b.max_speed as i128);
            }
        }
    }
    for b in flock.iter() {
        assert!(2 * b.position.x.abs() <= grid.width);
        assert!(2 * b.position.y.abs() <= grid.height);
    }
}

#[test]
fn wrap_moves_past_right_edge_to_left() {
    let grid = GridSettings::default();
    assert_eq!(wrap_position(v(350_001, 1234), &grid), v(-350_000, 1234));
    assert_eq!(wrap_position(v(-350_001, -1234), &grid), v(350_000, -1234));
    assert_eq!(wrap_position(v(350_000, 350_000), &grid), v(350_000, 350_000));
    assert_eq!(wrap_position(v(0, 360_000), &grid), v(0, -350_000));
}

#[test]
fn wrap_policy_in_a_tick() {
    let mut b = Boid::default();
    b.position = v(350_001, 5000);
    let mut flock = vec![b];
    let mut s = quiet_settings();
    s.boundary = BoundaryPolicy::Wrap;
    advance(&mut flock, &s, &GridSettings::default(), None, 16);
    assert_eq!(flock[0].position, v(-350_000, 5000));
    assert_eq!(flock[0].velocity, v(0, 0));
    assert_eq!(flock[0].facing, v(0, 1000));
}

#[test]
fn border_push_grows_toward_edge() {
    let grid = GridSettings::default();
    assert_eq!(border_repulsion(v(340_000, 0), &grid), v(-160_000, 0));
    assert_eq!(border_repulsion(v(0, -350_000), &grid), v(0, 200_000));
    assert_eq!(border_repulsion(v(0, 0), &grid), v(0, 0));
    assert_eq!(border_repulsion(v(300_000, 0), &grid), v(0, 0));
}

#[test]
fn soft_policy_impulse_in_a_tick() {
    let mut b = Boid::default();
    b.position = v(340_000, 0);
    let mut flock = vec![b];
    let s = quiet_settings();
    advance(&mut flock, &s, &GridSettings::default(), None, 100);
    assert_eq!(flock[0].velocity, v(-16_000, 0));
    assert_eq!(flock[0].position, v(338_400, 0));
}

#[test]
fn boid_construction_errors() {
    assert_eq!(Boid::new(0, 100, 100).unwrap_err(), BoidError::NonPositiveMass);
    assert_eq!(Boid::new(-5, 100, 100).unwrap_err(), BoidError::NonPositiveMass);
    assert_eq!(Boid::new(1000, -1, 100).unwrap_err(), BoidError::LimitOutOfRange);
    assert_eq!(Boid::new(1000, 100, 1 << 41).unwrap_err(), BoidError::LimitOutOfRange);
    let b = Boid::new(2000, 100, 50).unwrap();
    assert_eq!(b.mass, 2000);
    assert_eq!(b.velocity, v(0, 0));
    assert_eq!(b.facing, v(0, 1000));
}

#[test]
fn settings_validation() {
    let mut s = BoidSettings::default();
    assert!(s.is_valid());
    s.goal_arrival_radius = 0;
    assert!(!s.is_valid());
    let mut s = BoidSettings::default();
    s.view_cos = 1001;
    assert!(!s.is_valid());
    assert!(GridSettings::default().is_valid());
    assert!(!GridSettings { width: -1, height: 10 }.is_valid());
}

#[test]
fn spawned_agent_moves_at_initial_speed() {
    let b = spawn_boid(v(10, 20), v(0, 5));
    assert_eq!(b.position, v(10, 20));
    assert_eq!(b.velocity, v(0, INITIAL_SPEED));
    assert_eq!(b.facing, v(0, INITIAL_SPEED));
    let still = spawn_boid(v(0, 0), v(0, 0));
    assert_eq!(still.velocity, v(0, 0));
    assert_eq!(still.facing, v(0, 1000));
}

#[test]
fn population_is_scattered_inside_world() {
    let grid = GridSettings::default();
    let flock = populate(200, &grid);
    assert_eq!(flock.len(), 200);
    for b in flock.iter() {
        assert!(-(grid.width / 2) <= b.position.x && b.position.x < grid.width / 2);
        assert!(-(grid.height / 2) <= b.position.y && b.position.y < grid.height / 2);
        assert!(len_sq(b.velocity) >= INITIAL_SLOWEST as i128 * INITIAL_SLOWEST as i128);
        assert!(len_sq(b.velocity) <= INITIAL_SPEED as i128 * INITIAL_SPEED as i128);
    }
    let first = flock[0].position;
    assert!(flock.iter().any(|b| b.position != first));
    let first_v = flock[0].velocity;
    assert!(flock.iter().any(|b| b.velocity != first_v));
    let h = random_heading();
    assert!(len_sq(h) >= 250_000 && len_sq(h) <= 1_000_000);
}

#[test]
fn shared_heading_narrow_cone_not_mutual() {
    let dir = v(1000, 0);
    assert!(is_in_view(v(0, 0), dir, v(3000, 4000), 500));
    assert!(!is_in_view(v(3000, 4000), dir, v(0, 0), 500));
    assert!(!is_in_view(v(0, 0), dir, v(0, 4000), 500));
    assert!(!is_in_view(v(0, 4000), dir, v(0, 0), 500));
}

#[test]
fn short_inputs_still_give_unit_directions() {
    let one = vec![(v(1, 1), v(1, 1))];
    let twice = vec![(v(1, 1), v(1, 1)), (v(1, 1), v(1, 1))];
    assert_eq!(calculate_alignment(v(0, 0), &one), v(706, 706));
    assert_eq!(calculate_alignment(v(0, 0), &twice), v(706, 706));
    assert_eq!(calculate_cohesion(v(0, 0), &one), v(706, 706));
    let far = vec![(v(-(1 << 31), 0), v(0, 0)), (v(0, -(1 << 31)), v(0, 0))];
    assert_eq!(calculate_separation(v(0, 0), &far), v(706, 706));
}

#[test]
fn heading_draws_outside_the_ring_are_rejected() {
    assert_eq!(heading_from_draw(1, 1), None);
    assert_eq!(heading_from_draw(400, 0), None);
    assert_eq!(heading_from_draw(1000, 1), None);
    assert_eq!(heading_from_draw(0, 0), None);
    assert_eq!(heading_from_draw(500, 0), Some(v(500, 0)));
    assert_eq!(heading_from_draw(-600, 800), Some(v(-600, 800)));
    assert_eq!(heading_from_draw(-1000, 0), Some(v(-1000, 0)));
}

#[test]
fn spawn_range_excludes_upper_edge() {
    let grid = GridSettings { width: 2, height: 0 };
    let flock = populate(100, &grid);
    for b in flock.iter() {
        assert!(b.position.x == -1 || b.position.x == 0);
        assert_eq!(b.position.y, 0);
    }
    assert!(flock.iter().any(|b| b.position.x == -1));
}

#[test]
fn agents_facing_each_other_see_each_other() {
    let a = v(0, 0);
    let b = v(3, -7);
    let to_b = b.minus(&a).normalize_or_zero();
    let to_a = a.minus(&b).normalize_or_zero();
    for c in [-1000, -500, 0, 500, 994] {
        assert!(is_in_view(a, to_b, b, c));
        assert!(is_in_view(b, to_a, a, c));
        if c > -994 {
            assert!(!is_in_view(b, to_b, a, c));
        }
    }
}

#[test]
fn narrow_and_wide_cones_judge_exact_angles() {
    // Straight ahead along the diagonal with a 0.1 rad cone.
    assert!(is_in_view(v(0, 0), v(706, 706), v(1000, 1000), 999));
    assert!(is_in_view(v(0, 0), v(706, 706), v(1000, 1000), 1000));
    assert!(!is_in_view(v(0, 0), v(706, 706), v(1000, 900), 999));
    // Directly behind is seen only by a cone all the way around.
    assert!(!is_in_view(v(0, 0), v(1000, 0), v(-5000, 0), -999));
    assert!(is_in_view(v(0, 0), v(1000, 0), v(-5000, 0), -1000));
}
