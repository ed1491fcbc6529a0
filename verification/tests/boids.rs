use boids::boid::{Boid, Direction, MaxBoids, SimError, Speed};
use boids::sim::{
    checked_tick, move_boids, rotate_transform_with_direction, setup_boids, spawn_boid, tick,
    try_spawn_boid, wrap_borders_system, wrap_position, SimulationConfig, Viewport,
};
use boids::vec2::{atan2_fp, heading_angle, isqrt_u128, normalize, scale, Vector2};

fn vec2(x: i64, y: i64) -> Vector2 {
    Vector2::new(x, y)
}

fn boid(x: i64, y: i64, hx: i64, hy: i64) -> Boid {
    Boid {
        position: vec2(x, y),
        direction: Direction(vec2(hx, hy)),
        rotation: 0,
    }
}

#[test]
fn isqrt_small_values() {
    assert_eq!(isqrt_u128(0), 0);
    assert_eq!(isqrt_u128(1), 1);
    assert_eq!(isqrt_u128(2), 1);
    assert_eq!(isqrt_u128(3), 1);
    assert_eq!(isqrt_u128(4), 2);
    assert_eq!(isqrt_u128(24), 4);
    assert_eq!(isqrt_u128(25), 5);
    assert_eq!(isqrt_u128(2_000_000_000_000), 1_414_213);
}

#[test]
fn normalize_exact_pythagorean() {
    // |(3, 4)| = 5, so the unit vector is exactly (0.6, 0.8)
    let n = normalize(vec2(3000, 4000));
    assert_eq!(n, vec2(600, 800));
}

#[test]
fn normalize_keeps_signs() {
    assert_eq!(normalize(vec2(-3000, 4000)), vec2(-600, 800));
    assert_eq!(normalize(vec2(3000, -4000)), vec2(600, -800));
    assert_eq!(normalize(vec2(-3000, -4000)), vec2(-600, -800));
}

#[test]
fn normalize_zero_maps_to_zero() {
    assert_eq!(normalize(vec2(0, 0)), vec2(0, 0));
}

#[test]
fn normalize_unit_magnitude() {
    // |normalize(v)|^2 stays within the quantization band around SCALE^2
    let samples = [
        (1i64, 1i64),
        (1, 0),
        (0, -7),
        (2, 3),
        (-123, 456),
        (999_999_999, -999_999_999),
        (1_000_000_000, 1),
        (17, -1),
    ];
    for (x, y) in samples {
        let n = normalize(vec2(x, y));
        let mag_sq = n.x * n.x + n.y * n.y;
        assert!(mag_sq > 1_000_000 - 4_000 - 2, "too short for ({x}, {y}): {mag_sq}");
        assert!(mag_sq <= 1_000_000 + 2, "too long for ({x}, {y}): {mag_sq}");
    }
}

#[test]
fn scale_multiplies_components() {
    assert_eq!(scale(vec2(3, -4), 5), vec2(15, -20));
    assert_eq!(scale(vec2(7, 9), 0), vec2(0, 0));
    assert_eq!(scale(vec2(1, -1), -1_000_000_000), vec2(-1_000_000_000, 1_000_000_000));
}

#[test]
fn heading_angle_north_is_zero() {
    // a heading of (0, 1) faces forward: rotation 0
    assert_eq!(heading_angle(vec2(0, 1)), 0);
    assert_eq!(heading_angle(vec2(0, 1000)), 0);
    assert_eq!(heading_angle(vec2(0, 987_654_321)), 0);
}

#[test]
fn heading_angle_is_deterministic() {
    let samples = [(3i64, 4i64), (-5, 12), (1, 0), (0, -1), (-7, -7)];
    for (x, y) in samples {
        let first = heading_angle(vec2(x, y));
        let second = heading_angle(vec2(x, y));
        assert_eq!(first, second);
    }
}

#[test]
fn heading_angle_cardinal_directions() {
    // atan2(-x, y) in microradians
    assert_eq!(heading_angle(vec2(1000, 0)), -1_570_796);
    assert_eq!(heading_angle(vec2(-1000, 0)), 1_570_796);
    assert_eq!(heading_angle(vec2(0, -1000)), 3_141_592);
}

#[test]
fn atan2_exact_points() {
    // the approximation is exact at the axes and at the octant edge
    assert_eq!(atan2_fp(0, 1000), 0);
    assert_eq!(atan2_fp(1000, 1000), 785_398);
    assert_eq!(atan2_fp(-1000, 1000), -785_398);
    assert_eq!(atan2_fp(1000, -1000), 3_141_592 - 785_398);
    assert_eq!(atan2_fp(0, 0), 0);
}

#[test]
fn move_boids_straight_step() {
    // heading (1, 0), speed 10 units/s, dt 1 s: exactly 10 units of travel
    let mut pop = vec![boid(0, 0, 1, 0)];
    move_boids(&mut pop, &Speed(10_000), 1000);
    assert_eq!(pop[0].position, vec2(10_000, 0));
    assert_eq!(pop[0].direction, Direction(vec2(1, 0)));
}

#[test]
fn move_boids_diagonal_step_length() {
    // diagonal heading: the step length must still be speed * dt within
    // the quantization tolerance
    let mut pop = vec![boid(0, 0, 1000, 1000)];
    move_boids(&mut pop, &Speed(10_000), 1000);
    let p = pop[0].position;
    assert_eq!(p, vec2(7070, 7070));
    let len_sq = p.x * p.x + p.y * p.y;
    let target = 10_000i64 * 10_000;
    assert!(len_sq <= target + target / 100);
    assert!(len_sq >= target - target / 100);
}

#[test]
fn move_boids_is_per_agent() {
    // agents move independently; a zero-speed step moves nobody
    let mut pop = vec![boid(5, 5, 1, 0), boid(-5, -5, 0, 1)];
    move_boids(&mut pop, &Speed(0), 1000);
    assert_eq!(pop[0].position, vec2(5, 5));
    assert_eq!(pop[1].position, vec2(-5, -5));
}

#[test]
fn wrap_inside_is_noop() {
    // strictly inside the bounds: the wrapper changes nothing
    let p = wrap_position(vec2(5000, -5000), 50_000, 50_000);
    assert_eq!(p, vec2(5000, -5000));
    let q = wrap_position(vec2(49_999, -49_999), 50_000, 50_000);
    assert_eq!(q, vec2(49_999, -49_999));
}

#[test]
fn wrap_is_idempotent() {
    let once = wrap_position(vec2(123_456, -98_765), 50_000, 50_000);
    let twice = wrap_position(once, 50_000, 50_000);
    assert_eq!(once, twice);
}

#[test]
fn wrap_maps_to_opposite_edge() {
    // just past the positive bound: one unit inside the negative bound
    assert_eq!(wrap_position(vec2(50_001, 0), 50_000, 50_000), vec2(-49_000, 0));
    assert_eq!(wrap_position(vec2(50_000, 0), 50_000, 50_000), vec2(-49_000, 0));
    assert_eq!(wrap_position(vec2(-50_001, 0), 50_000, 50_000), vec2(49_000, 0));
    assert_eq!(wrap_position(vec2(0, 50_001), 50_000, 50_000), vec2(0, -49_000));
    assert_eq!(wrap_position(vec2(0, -50_000), 50_000, 50_000), vec2(0, 49_000));
}

#[test]
fn wrap_both_axes_at_once() {
    let p = wrap_position(vec2(60_000, -70_000), 50_000, 60_000);
    assert_eq!(p, vec2(-49_000, 59_000));
}

#[test]
fn wrap_borders_system_whole_population() {
    let mut pop = vec![boid(60_000, 100, 1, 0), boid(100, 200, 0, 1)];
    wrap_borders_system(&mut pop, 50_000, 50_000);
    assert_eq!(pop[0].position, vec2(-49_000, 100));
    assert_eq!(pop[1].position, vec2(100, 200));
    assert_eq!(pop[0].direction, Direction(vec2(1, 0)));
}

#[test]
fn rotate_sets_rotation_from_heading() {
    let mut pop = vec![boid(1, 2, 0, 1000), boid(3, 4, 1000, 0)];
    rotate_transform_with_direction(&mut pop);
    assert_eq!(pop[0].rotation, 0);
    assert_eq!(pop[1].rotation, -1_570_796);
    assert_eq!(pop[0].position, vec2(1, 2));
    assert_eq!(pop[1].direction, Direction(vec2(1000, 0)));
}

#[test]
fn end_to_end_single_boid() {
    // population 1, speed 10 units/s, 100 x 100 world, heading (1, 0),
    // start (49, 0), dt = 1 s per tick
    let config = SimulationConfig {
        max_boids: MaxBoids(1),
        speed: Speed(10_000),
        world_width: 100_000,
        world_height: 100_000,
    };
    let viewport = Viewport { half_width: 50_000, half_height: 50_000 };

    // the integrator alone progresses 49 -> 59 -> 69
    let mut free = vec![boid(49_000, 0, 1, 0)];
    move_boids(&mut free, &config.speed, 1000);
    assert_eq!(free[0].position, vec2(59_000, 0));
    move_boids(&mut free, &config.speed, 1000);
    assert_eq!(free[0].position, vec2(69_000, 0));
    // once x >= 50 (the half width), the wrap produces -50 + 1 = -49
    assert_eq!(wrap_position(free[0].position, 50_000, 50_000), vec2(-49_000, 0));

    // full ticks wrap as soon as the bound is crossed, then move on
    let mut pop = vec![boid(49_000, 0, 1, 0)];
    tick(&mut pop, &config, 1000, &viewport);
    assert_eq!(pop[0].position, vec2(-49_000, 0));
    tick(&mut pop, &config, 1000, &viewport);
    assert_eq!(pop[0].position, vec2(-39_000, 0));
    tick(&mut pop, &config, 1000, &viewport);
    assert_eq!(pop[0].position, vec2(-29_000, 0));
    assert_eq!(pop[0].direction, Direction(vec2(1, 0)));
    assert_eq!(pop[0].rotation, -1_570_796);
}

#[test]
fn setup_boids_population_contract() {
    // exactly the asked-for count; positions keep the swapped axis
    // pairing (x from the height range, y from the width range); heading
    // components lie in the closed unit square and are never both zero
    let pop = setup_boids(&MaxBoids(50), 1_000_000, 750_000);
    assert_eq!(pop.len(), 50);
    for b in &pop {
        assert!(0 <= b.position.x && b.position.x < 750_000);
        assert!(0 <= b.position.y && b.position.y < 1_000_000);
        assert!(-1000 <= b.direction.0.x && b.direction.0.x <= 1000);
        assert!(-1000 <= b.direction.0.y && b.direction.0.y <= 1000);
        assert!(b.direction.0.x != 0 || b.direction.0.y != 0);
        assert_eq!(b.rotation, 0);
    }
}

#[test]
fn setup_boids_empty_population() {
    let pop = setup_boids(&MaxBoids(0), 1000, 1000);
    assert_eq!(pop.len(), 0);
}

#[test]
fn spawn_boid_appends() {
    let mut pop = Vec::new();
    spawn_boid(&mut pop, vec2(10, 20), Direction(vec2(0, 1)));
    assert_eq!(pop.len(), 1);
    assert_eq!(pop[0].position, vec2(10, 20));
    assert_eq!(pop[0].direction, Direction(vec2(0, 1)));
    assert_eq!(pop[0].rotation, 0);
}

#[test]
fn try_spawn_boid_rejects_zero_heading() {
    let mut pop = Vec::new();
    let r = try_spawn_boid(&mut pop, vec2(0, 0), Direction(vec2(0, 0)));
    assert_eq!(r, Err(SimError::DegenerateVector));
    assert_eq!(pop.len(), 0);
}

#[test]
fn try_spawn_boid_rejects_out_of_range() {
    let mut pop = Vec::new();
    let r = try_spawn_boid(&mut pop, vec2(2_000_000_000_000_000, 0), Direction(vec2(0, 1)));
    assert_eq!(r, Err(SimError::Configuration));
    assert_eq!(pop.len(), 0);
    let ok = try_spawn_boid(&mut pop, vec2(1, 1), Direction(vec2(2, 3)));
    assert_eq!(ok, Ok(()));
    assert_eq!(pop.len(), 1);
}

#[test]
fn checked_tick_missing_viewport() {
    let config = SimulationConfig::default();
    let mut pop = vec![boid(1, 2, 1, 0)];
    let r = checked_tick(&mut pop, &config, 16, None);
    assert_eq!(r, Err(SimError::Configuration));
    assert_eq!(pop[0].position, vec2(1, 2));
}

#[test]
fn checked_tick_zero_sized_viewport() {
    let config = SimulationConfig::default();
    let mut pop = vec![boid(1, 2, 1, 0)];
    let bad = Viewport { half_width: 0, half_height: 0 };
    let r = checked_tick(&mut pop, &config, 16, Some(&bad));
    assert_eq!(r, Err(SimError::Configuration));
    assert_eq!(pop[0].position, vec2(1, 2));
}

#[test]
fn checked_tick_bad_time_step() {
    let config = SimulationConfig::default();
    let mut pop = vec![boid(1, 2, 1, 0)];
    let viewport = Viewport { half_width: 500_000, half_height: 375_000 };
    assert_eq!(
        checked_tick(&mut pop, &config, -1, Some(&viewport)),
        Err(SimError::Configuration)
    );
    assert_eq!(
        checked_tick(&mut pop, &config, 60_001, Some(&viewport)),
        Err(SimError::Configuration)
    );
    assert_eq!(checked_tick(&mut pop, &config, 16, Some(&viewport)), Ok(()));
}

#[test]
fn default_configuration() {
    let c = SimulationConfig::default();
    assert_eq!(c.max_boids, MaxBoids(50));
    assert_eq!(c.speed, Speed(50_000));
    assert_eq!(c.world_width, 1_000_000);
    assert_eq!(c.world_height, 750_000);
}

#[test]
fn direction_converts_into_vector() {
    let d = Direction(vec2(12, -34));
    let v: Vector2 = d.into();
    assert_eq!(v, vec2(12, -34));
}

#[test]
fn sim_error_messages() {
    assert_eq!(
        SimError::DegenerateVector.message(),
        "zero heading vector has no direction"
    );
    assert_eq!(
        SimError::Configuration.message(),
        "viewport, speed, or time step out of range"
    );
}
