//! The per-tick simulation logic: population initialization, motion
//! integration along normalized headings, toroidal boundary wrapping, and
//! the orientation update, with the laws those steps obey.

use vstd::prelude::*;
use crate::vec2::{
    Vector2, normalize, heading_angle, spec_normalize_x, spec_normalize_y, spec_heading_angle,
    lemma_normalize_unit, SCALE, COMPONENT_LIMIT, PI_MICRO,
};
use crate::boid::{Boid, Direction, Speed, MaxBoids, SimError, POSITION_LIMIT};
use rand::Rng;

verus! {

/// Milliseconds in one second: time steps are integers counted in
/// milliseconds, speeds are per second.
pub const MILLIS_PER_SECOND: i64 = 1000;

/// Largest speed a tick accepts, in thousandths of a world unit per second.
pub const SPEED_LIMIT: i64 = 1_000_000;

/// Largest time step a tick accepts, in milliseconds.
pub const DT_LIMIT: i64 = 60_000;

/// Largest viewport half-extent, in fixed-point coordinates.
pub const HALF_EXTENT_LIMIT: i64 = 1_000_000_000_000;

/// The world rectangle agents wrap around in, as half-extents about the
/// origin, in fixed-point coordinates.
#[derive(Clone, Copy, Debug, PartialEq, Eq, Structural)]
pub struct Viewport {
    pub half_width: i64,
    pub half_height: i64,
}

impl Viewport {
    /// A usable viewport is at least one world unit in each half-extent
    /// and in arithmetic range; a smaller one cannot drive the boundary
    /// wrapper, whose relocation offset is one world unit.
    pub open spec fn well_formed(self) -> bool {
        SCALE <= self.half_width <= HALF_EXTENT_LIMIT
            && SCALE <= self.half_height <= HALF_EXTENT_LIMIT
    }
}

/// The process-wide simulation settings, read by every per-tick operation.
#[derive(Clone, Copy, Debug, PartialEq, Eq, Structural)]
pub struct SimulationConfig {
    /// Population size used at initialization.
    pub max_boids: MaxBoids,
    /// Shared speed, live-tunable between ticks.
    pub speed: Speed,
    /// World width, in fixed-point coordinates.
    pub world_width: i64,
    /// World height, in fixed-point coordinates.
    pub world_height: i64,
}

impl SimulationConfig {
    pub open spec fn well_formed(self) -> bool {
        &&& 0 <= self.speed.0 <= SPEED_LIMIT
        &&& 1 <= self.world_width <= HALF_EXTENT_LIMIT
        &&& 1 <= self.world_height <= HALF_EXTENT_LIMIT
    }
}

impl Default for SimulationConfig {
    /// The default settings: 50 boids at 50 world units per second in a
    /// 1000 by 750 unit world.
    fn default() -> (c: SimulationConfig)
        ensures
            c.max_boids.0 == 50,
            c.speed.0 == 50 * SCALE,
            c.world_width == 1000 * SCALE,
            c.world_height == 750 * SCALE,
            c.well_formed(),
    {
        SimulationConfig {
            max_boids: MaxBoids(50),
            speed: Speed(50 * SCALE),
            world_width: 1000 * SCALE,
            world_height: 750 * SCALE,
        }
    }
}

/// One coordinate after boundary wrapping: a coordinate at or beyond a
/// bound is relocated one world unit inside the opposite bound, so that
/// the same wrap cannot re-trigger on the next tick.
pub open spec fn wrap_coord(c: int, half: int) -> int {
    if c >= half {
        -half + SCALE
    } else if c <= -half {
        half - SCALE
    } else {
        c
    }
}

/// Wraps a position on both axes independently against the viewport
/// half-extents. The result is strictly inside the bounds.
pub fn wrap_position(p: Vector2, half_width: i64, half_height: i64) -> (r: Vector2)
    requires
        SCALE <= half_width <= HALF_EXTENT_LIMIT,
        SCALE <= half_height <= HALF_EXTENT_LIMIT,
    ensures
        r.x as int == wrap_coord(p.x as int, half_width as int),
        r.y as int == wrap_coord(p.y as int, half_height as int),
        -half_width < r.x < half_width,
        -half_height < r.y < half_height,
{
    let x: i64 = if p.x >= half_width {
        -half_width + SCALE
    } else if p.x <= -half_width {
        half_width - SCALE
    } else {
        p.x
    };
    let y: i64 = if p.y >= half_height {
        -half_height + SCALE
    } else if p.y <= -half_height {
        half_height - SCALE
    } else {
        p.y
    };
    Vector2 { x, y }
}

/// Law: wrapping a coordinate already strictly inside the bounds is a
/// no-op.
pub proof fn lemma_wrap_inside_noop(c: int, half: int)
    requires
        -half < c < half,
    ensures
        wrap_coord(c, half) == c,
{
}

/// Law: wrapping is idempotent — a wrapped coordinate is strictly inside
/// the bounds, so wrapping it again changes nothing.
pub proof fn lemma_wrap_idempotent(c: int, half: int)
    requires
        SCALE <= half,
    ensures
        wrap_coord(wrap_coord(c, half), half) == wrap_coord(c, half),
{
}

/// Law: a coordinate at or beyond the positive bound maps to one world
/// unit inside the negative bound, and symmetrically for the negative
/// bound.
pub proof fn lemma_wrap_exit(c: int, half: int)
    requires
        SCALE <= half,
    ensures
        c >= half ==> wrap_coord(c, half) == -half + SCALE,
        c <= -half ==> wrap_coord(c, half) == half - SCALE,
{
}

/// Relocates every boid that has left the world rectangle to just inside
/// the opposite edge; each axis is checked independently, so a boid can
/// wrap on both at once. Headings and rotations are untouched.
pub fn wrap_borders_system(boids: &mut Vec<Boid>, half_width: i64, half_height: i64)
    requires
        SCALE <= half_width <= HALF_EXTENT_LIMIT,
        SCALE <= half_height <= HALF_EXTENT_LIMIT,
    ensures
        final(boids)@.len() == old(boids)@.len(),
        forall|i: int| 0 <= i < old(boids)@.len() ==> ({
            let ob = old(boids)@[i];
            let nb = #[trigger] final(boids)@[i];
            nb.position.x as int == wrap_coord(ob.position.x as int, half_width as int)
                && nb.position.y as int == wrap_coord(ob.position.y as int, half_height as int)
                && -half_width < nb.position.x < half_width
                && -half_height < nb.position.y < half_height
                && nb.direction == ob.direction
                && nb.rotation == ob.rotation
        }),
{
    let ghost orig = boids@;
    let mut out: Vec<Boid> = Vec::new();
    let mut i: usize = 0;
    while i < boids.len()
        invariant
            boids@ == orig,
            i <= orig.len(),
            out@.len() == i,
            SCALE <= half_width <= HALF_EXTENT_LIMIT,
            SCALE <= half_height <= HALF_EXTENT_LIMIT,
            forall|j: int| 0 <= j < i ==> ({
                let ob = orig[j];
                let nb = #[trigger] out@[j];
                nb.position.x as int == wrap_coord(ob.position.x as int, half_width as int)
                    && nb.position.y as int == wrap_coord(ob.position.y as int, half_height as int)
                    && -half_width < nb.position.x < half_width
                    && -half_height < nb.position.y < half_height
                    && nb.direction == ob.direction
                    && nb.rotation == ob.rotation
            }),
        decreases orig.len() - i,
    {
        let b = boids[i];
        let p = wrap_position(b.position, half_width, half_height);
        out.push(Boid { position: p, direction: b.direction, rotation: b.rotation });
        i += 1;
    }
    *boids = out;
}

/// One motion step along a normalized-heading component `n` at `speed`
/// (thousandths of a unit per second) over `dt` milliseconds, in
/// fixed-point position units, rounded toward zero.
pub open spec fn step_component(n: int, speed: int, dt: int) -> int {
    if n >= 0 {
        (n * speed * dt) / ((SCALE as int) * (MILLIS_PER_SECOND as int))
    } else {
        -(((-n) * speed * dt) / ((SCALE as int) * (MILLIS_PER_SECOND as int)))
    }
}

/// The x position of `b` after one motion step.
pub open spec fn spec_integrate_x(b: Boid, speed: int, dt: int) -> int {
    b.position.x + step_component(spec_normalize_x(b.direction.0), speed, dt)
}

/// The y position of `b` after one motion step.
pub open spec fn spec_integrate_y(b: Boid, speed: int, dt: int) -> int {
    b.position.y + step_component(spec_normalize_y(b.direction.0), speed, dt)
}

/// One signed step component, computed from a normalized-heading
/// component (at most `SCALE` in magnitude).
fn step_component_exec(n: i64, speed: i64, dt: i64) -> (r: i64)
    requires
        -SCALE <= n <= SCALE,
        0 <= speed <= SPEED_LIMIT,
        0 <= dt <= DT_LIMIT,
    ensures
        r as int == step_component(n as int, speed as int, dt as int),
        -60_000_000 <= r <= 60_000_000,
{
    let an: u64 = (if n >= 0 { n } else { -n }) as u64;
    proof {
        assert(an as int * (speed as int) <= 1_000_000_000
            && an as int * (speed as int) * (dt as int) <= 60_000_000_000_000) by (nonlinear_arith)
            requires
                0 <= an as int <= 1000,
                0 <= speed as int <= 1_000_000,
                0 <= dt as int <= 60_000,
        ;
        assert(an as int * (speed as int) >= 0 && an as int * (speed as int) * (dt as int) >= 0)
            by (nonlinear_arith)
            requires
                0 <= an as int,
                0 <= speed as int,
                0 <= dt as int,
        ;
    }
    let prod: u64 = an * (speed as u64) * (dt as u64);
    let q: u64 = prod / 1_000_000u64;
    if n >= 0 {
        q as i64
    } else {
        -(q as i64)
    }
}

/// Advances every boid one step along its normalized heading at the
/// shared speed: `position += normalize(direction) * speed * dt`. Only
/// positions change; headings are read-only here, and each boid moves
/// independently of all others.
pub fn move_boids(boids: &mut Vec<Boid>, speed: &Speed, dt_millis: i64)
    requires
        0 <= speed.0 <= SPEED_LIMIT,
        0 <= dt_millis <= DT_LIMIT,
        forall|i: int| 0 <= i < old(boids)@.len() ==> (#[trigger] old(boids)@[i]).well_formed(),
    ensures
        final(boids)@.len() == old(boids)@.len(),
        forall|i: int| 0 <= i < old(boids)@.len() ==> ({
            let ob = old(boids)@[i];
            let nb = #[trigger] final(boids)@[i];
            nb.position.x as int == spec_integrate_x(ob, speed.0 as int, dt_millis as int)
                && nb.position.y as int == spec_integrate_y(ob, speed.0 as int, dt_millis as int)
                && nb.direction == ob.direction
                && nb.rotation == ob.rotation
        }),
{
    let ghost orig = boids@;
    let mut out: Vec<Boid> = Vec::new();
    let mut i: usize = 0;
    while i < boids.len()
        invariant
            boids@ == orig,
            i <= orig.len(),
            out@.len() == i,
            0 <= speed.0 <= SPEED_LIMIT,
            0 <= dt_millis <= DT_LIMIT,
            forall|j: int| 0 <= j < orig.len() ==> (#[trigger] orig[j]).well_formed(),
            forall|j: int| 0 <= j < i ==> ({
                let ob = orig[j];
                let nb = #[trigger] out@[j];
                nb.position.x as int == spec_integrate_x(ob, speed.0 as int, dt_millis as int)
                    && nb.position.y as int == spec_integrate_y(ob, speed.0 as int, dt_millis as int)
                    && nb.direction == ob.direction
                    && nb.rotation == ob.rotation
            }),
        decreases orig.len() - i,
    {
        let b = boids[i];
        let n = normalize(b.direction.0);
        let dx = step_component_exec(n.x, speed.0, dt_millis);
        let dy = step_component_exec(n.y, speed.0, dt_millis);
        let p = Vector2 { x: b.position.x + dx, y: b.position.y + dy };
        out.push(Boid { position: p, direction: b.direction, rotation: b.rotation });
        i += 1;
    }
    *boids = out;
}

/// Derives each boid's facing rotation from its heading for display:
/// `rotation = heading_angle(direction)`. A pure function of the current
/// heading, so it is idempotent; positions and headings are untouched.
pub fn rotate_transform_with_direction(boids: &mut Vec<Boid>)
    requires
        forall|i: int| 0 <= i < old(boids)@.len()
            ==> (#[trigger] old(boids)@[i]).direction.0.in_range(),
    ensures
        final(boids)@.len() == old(boids)@.len(),
        forall|i: int| 0 <= i < old(boids)@.len() ==> ({
            let ob = old(boids)@[i];
            let nb = #[trigger] final(boids)@[i];
            nb.rotation as int == spec_heading_angle(ob.direction.0)
                && -PI_MICRO <= nb.rotation <= PI_MICRO
                && nb.position == ob.position
                && nb.direction == ob.direction
        }),
{
    let ghost orig = boids@;
    let mut out: Vec<Boid> = Vec::new();
    let mut i: usize = 0;
    while i < boids.len()
        invariant
            boids@ == orig,
            i <= orig.len(),
            out@.len() == i,
            forall|j: int| 0 <= j < orig.len() ==> (#[trigger] orig[j]).direction.0.in_range(),
            forall|j: int| 0 <= j < i ==> ({
                let ob = orig[j];
                let nb = #[trigger] out@[j];
                nb.rotation as int == spec_heading_angle(ob.direction.0)
                    && -PI_MICRO <= nb.rotation <= PI_MICRO
                    && nb.position == ob.position
                    && nb.direction == ob.direction
            }),
        decreases orig.len() - i,
    {
        let b = boids[i];
        let rot = heading_angle(b.direction.0);
        out.push(Boid { position: b.position, direction: b.direction, rotation: rot });
        i += 1;
    }
    *boids = out;
}

/// Relies on rand's `Rng::gen_range` on `lo..hi` through `thread_rng`:
/// the sample lies in the half-open range, and the call panics only on an
/// empty range, which the precondition rules out.
#[verifier::external_body]
fn sample_below(lo: i64, hi: i64) -> (r: i64)
    requires
        lo < hi,
    ensures
        lo <= r < hi,
{
    rand::thread_rng().gen_range(lo..hi)
}

/// Relies on rand's `Rng::gen_range` on `lo..=hi` through `thread_rng`:
/// the sample lies in the closed range, and the call panics only on an
/// empty range, which the precondition rules out.
#[verifier::external_body]
fn sample_within(lo: i64, hi: i64) -> (r: i64)
    requires
        lo <= hi,
    ensures
        lo <= r <= hi,
{
    rand::thread_rng().gen_range(lo..=hi)
}

/// Adds one boid to the population; the facing rotation starts at zero.
/// The heading must be usable and the position in range, so that the new
/// boid keeps the population invariant.
pub fn spawn_boid(population: &mut Vec<Boid>, position: Vector2, direction: Direction)
    requires
        -POSITION_LIMIT <= position.x <= POSITION_LIMIT,
        -POSITION_LIMIT <= position.y <= POSITION_LIMIT,
        direction.well_formed(),
    ensures
        final(population)@ == old(population)@.push(
            Boid { position, direction, rotation: 0 },
        ),
{
    population.push(Boid { position, direction, rotation: 0 });
}

/// Adds one boid after checking the creation-time invariants: a zero
/// heading is rejected as `DegenerateVector`, an out-of-range position or
/// heading as `Configuration`. On rejection the population is unchanged.
pub fn try_spawn_boid(population: &mut Vec<Boid>, position: Vector2, direction: Direction) -> (r:
    Result<(), SimError>)
    ensures
        r is Ok <==> ({
            &&& !direction.0.is_zero()
            &&& direction.0.in_range()
            &&& -POSITION_LIMIT <= position.x <= POSITION_LIMIT
            &&& -POSITION_LIMIT <= position.y <= POSITION_LIMIT
        }),
        r is Ok ==> final(population)@ == old(population)@.push(
            Boid { position, direction, rotation: 0 },
        ),
        r is Err ==> final(population)@ == old(population)@,
        direction.0.is_zero() ==> r == Err::<(), SimError>(SimError::DegenerateVector),
        r is Err && !direction.0.is_zero() ==> r == Err::<(), SimError>(SimError::Configuration),
{
    if direction.0.x == 0 && direction.0.y == 0 {
        return Err(SimError::DegenerateVector);
    }
    if direction.0.x < -COMPONENT_LIMIT || direction.0.x > COMPONENT_LIMIT
        || direction.0.y < -COMPONENT_LIMIT || direction.0.y > COMPONENT_LIMIT
        || position.x < -POSITION_LIMIT || position.x > POSITION_LIMIT
        || position.y < -POSITION_LIMIT || position.y > POSITION_LIMIT {
        return Err(SimError::Configuration);
    }
    population.push(Boid { position, direction, rotation: 0 });
    Ok(())
}

/// Creates the population: exactly `max.0` boids, each at a random
/// position and with a random heading whose components are in
/// `[-SCALE, SCALE]` (the closed unit square). The position keeps the
/// swapped axis pairing: x is drawn from `[0, world_height)` and y from
/// `[0, world_width)`. A zero heading sample would have no direction and
/// is replaced by the unit heading along the positive y axis.
pub fn setup_boids(max: &MaxBoids, world_width: i64, world_height: i64) -> (pop: Vec<Boid>)
    requires
        1 <= world_width <= HALF_EXTENT_LIMIT,
        1 <= world_height <= HALF_EXTENT_LIMIT,
    ensures
        pop@.len() == max.0,
        forall|i: int| 0 <= i < pop@.len() ==> ({
            let b = #[trigger] pop@[i];
            &&& 0 <= b.position.x < world_height
            &&& 0 <= b.position.y < world_width
            &&& -SCALE <= b.direction.0.x <= SCALE
            &&& -SCALE <= b.direction.0.y <= SCALE
            &&& b.rotation == 0
            &&& b.well_formed()
        }),
{
    let mut pop: Vec<Boid> = Vec::new();
    let mut i: u32 = 0;
    while i < max.0
        invariant
            i <= max.0,
            pop@.len() == i,
            1 <= world_width <= HALF_EXTENT_LIMIT,
            1 <= world_height <= HALF_EXTENT_LIMIT,
            forall|j: int| 0 <= j < pop@.len() ==> ({
                let b = #[trigger] pop@[j];
                &&& 0 <= b.position.x < world_height
                &&& 0 <= b.position.y < world_width
                &&& -SCALE <= b.direction.0.x <= SCALE
                &&& -SCALE <= b.direction.0.y <= SCALE
                &&& b.rotation == 0
                &&& b.well_formed()
            }),
        decreases max.0 - i,
    {
        let px = sample_below(0, world_height);
        let py = sample_below(0, world_width);
        let hx = sample_within(-SCALE, SCALE);
        let hy = sample_within(-SCALE, SCALE);
        let heading = if hx == 0 && hy == 0 {
            Vector2 { x: 0, y: SCALE }
        } else {
            Vector2 { x: hx, y: hy }
        };
        pop.push(Boid {
            position: Vector2 { x: px, y: py },
            direction: Direction(heading),
            rotation: 0,
        });
        i += 1;
    }
    pop
}

/// How one tick transforms a single boid: the position advances one
/// motion step and is wrapped into the viewport, the rotation is derived
/// from the heading, and the heading itself never changes.
pub open spec fn ticked(ob: Boid, nb: Boid, speed: int, dt: int, hw: int, hh: int) -> bool {
    &&& nb.position.x as int == wrap_coord(spec_integrate_x(ob, speed, dt), hw)
    &&& nb.position.y as int == wrap_coord(spec_integrate_y(ob, speed, dt), hh)
    &&& nb.direction == ob.direction
    &&& nb.rotation as int == spec_heading_angle(ob.direction.0)
    &&& -hw < nb.position.x < hw
    &&& -hh < nb.position.y < hh
    &&& nb.well_formed()
}

/// One simulation tick over the whole population, as one atomic batch:
/// motion integration, then boundary wrapping, then the orientation
/// update. Every boid keeps its heading and the population invariant.
pub fn tick(
    population: &mut Vec<Boid>,
    config: &SimulationConfig,
    dt_millis: i64,
    viewport: &Viewport,
)
    requires
        config.well_formed(),
        viewport.well_formed(),
        0 <= dt_millis <= DT_LIMIT,
        forall|i: int| 0 <= i < old(population)@.len()
            ==> (#[trigger] old(population)@[i]).well_formed(),
    ensures
        final(population)@.len() == old(population)@.len(),
        forall|i: int| 0 <= i < old(population)@.len() ==> ticked(
            old(population)@[i],
            #[trigger] final(population)@[i],
            config.speed.0 as int,
            dt_millis as int,
            viewport.half_width as int,
            viewport.half_height as int,
        ),
{
    let ghost orig = population@;
    move_boids(population, &config.speed, dt_millis);
    let ghost moved = population@;
    wrap_borders_system(population, viewport.half_width, viewport.half_height);
    let ghost wrapped = population@;
    assert forall|i: int| 0 <= i < wrapped.len()
        implies (#[trigger] wrapped[i]).direction.0.in_range() by {
        assert(moved[i].direction == orig[i].direction);
        assert(orig[i].well_formed());
    }
    rotate_transform_with_direction(population);
    assert forall|i: int| 0 <= i < orig.len() implies ticked(
        orig[i],
        #[trigger] final(population)@[i],
        config.speed.0 as int,
        dt_millis as int,
        viewport.half_width as int,
        viewport.half_height as int,
    ) by {
        assert(moved[i].position.x as int == spec_integrate_x(
            orig[i],
            config.speed.0 as int,
            dt_millis as int,
        ));
        assert(wrapped[i].position.x as int == wrap_coord(
            moved[i].position.x as int,
            viewport.half_width as int,
        ));
        assert(final(population)@[i].position == wrapped[i].position);
        assert(final(population)@[i].rotation as int == spec_heading_angle(
            wrapped[i].direction.0,
        ));
    }
}

/// Runs one tick after validating the configuration: a missing or
/// zero-sized viewport, or a speed, world size, or time step out of
/// range, is reported as `Configuration` and leaves the population
/// untouched.
pub fn checked_tick(
    population: &mut Vec<Boid>,
    config: &SimulationConfig,
    dt_millis: i64,
    viewport: Option<&Viewport>,
) -> (r: Result<(), SimError>)
    requires
        forall|i: int| 0 <= i < old(population)@.len()
            ==> (#[trigger] old(population)@[i]).well_formed(),
    ensures
        r is Ok <==> (match viewport {
            Some(v) => v.well_formed() && config.well_formed() && 0 <= dt_millis <= DT_LIMIT,
            None => false,
        }),
        r is Err ==> r == Err::<(), SimError>(SimError::Configuration)
            && final(population)@ == old(population)@,
        r is Ok ==> final(population)@.len() == old(population)@.len(),
        match viewport {
            Some(v) => r is Ok ==> forall|i: int| 0 <= i < old(population)@.len() ==> ticked(
                old(population)@[i],
                #[trigger] final(population)@[i],
                config.speed.0 as int,
                dt_millis as int,
                v.half_width as int,
                v.half_height as int,
            ),
            None => true,
        },
{
    match viewport {
        None => Err(SimError::Configuration),
        Some(v) => {
            if v.half_width < SCALE || v.half_width > HALF_EXTENT_LIMIT
                || v.half_height < SCALE || v.half_height > HALF_EXTENT_LIMIT || config.speed.0 < 0
                || config.speed.0 > SPEED_LIMIT || config.world_width < 1
                || config.world_width > HALF_EXTENT_LIMIT || config.world_height < 1
                || config.world_height > HALF_EXTENT_LIMIT || dt_millis < 0
                || dt_millis > DT_LIMIT {
                Err(SimError::Configuration)
            } else {
                tick(population, config, dt_millis, v);
                Ok(())
            }
        },
    }
}

/// Law: one integrator step displaces an agent by a distance of
/// `speed * dt` (that is, `speed * dt / MILLIS_PER_SECOND` fixed-point
/// units) up to the fixed-point quantization error, and the displacement
/// direction is the normalized heading: each displacement component is
/// exactly the corresponding normalized-heading component scaled by
/// `speed * dt` (the ensures of `move_boids`). With `k = speed * dt` and
/// `d = SCALE * MILLIS_PER_SECOND`, the squared step length `dx*dx +
/// dy*dy` satisfies
/// `d*d*(dx*dx + dy*dy) <= k*k*(SCALE*SCALE + 2)` and
/// `k*k*(SCALE*SCALE - 4*SCALE - 2) < d*d*((|dx|+1)^2 + (|dy|+1)^2)`.
pub proof fn lemma_step_distance(v: Vector2, speed: int, dt: int)
    requires
        v.in_range(),
        !v.is_zero(),
        0 <= speed,
        0 <= dt,
    ensures
        ({
            let dx = step_component(spec_normalize_x(v), speed, dt);
            let dy = step_component(spec_normalize_y(v), speed, dt);
            let adx = if dx >= 0 { dx } else { -dx };
            let ady = if dy >= 0 { dy } else { -dy };
            let s = SCALE as int;
            let k = speed * dt;
            let d = (SCALE as int) * (MILLIS_PER_SECOND as int);
            &&& d * d * (dx * dx + dy * dy) <= k * k * (s * s + 2)
            &&& k * k * (s * s - 4 * s - 2) < d * d * ((adx + 1) * (adx + 1) + (ady + 1) * (ady
                + 1))
        }),
{
    let nx = spec_normalize_x(v);
    let ny = spec_normalize_y(v);
    let anx = if nx >= 0 { nx } else { -nx };
    let any = if ny >= 0 { ny } else { -ny };
    let s = SCALE as int;
    let k = speed * dt;
    let d = (SCALE as int) * (MILLIS_PER_SECOND as int);
    lemma_normalize_unit(v);
    assert(s * s - 4 * s - 2 < anx * anx + any * any && anx * anx + any * any <= s * s + 2)
        by (nonlinear_arith)
        requires
            anx == if nx >= 0 { nx } else { -nx },
            any == if ny >= 0 { ny } else { -ny },
            s * s - 4 * s - 2 < nx * nx + ny * ny,
            nx * nx + ny * ny <= s * s + 2,
    ;
    let dx = step_component(nx, speed, dt);
    let dy = step_component(ny, speed, dt);
    // both signs of a heading component give the same step magnitude
    assert((if nx >= 0 { nx * speed * dt } else { (-nx) * speed * dt }) == anx * k)
        by (nonlinear_arith)
        requires
            anx == if nx >= 0 { nx } else { -nx },
            k == speed * dt,
    ;
    assert((if ny >= 0 { ny * speed * dt } else { (-ny) * speed * dt }) == any * k)
        by (nonlinear_arith)
        requires
            any == if ny >= 0 { ny } else { -ny },
            k == speed * dt,
    ;
    vstd::arithmetic::div_mod::lemma_fundamental_div_mod(anx * k, d);
    vstd::arithmetic::div_mod::lemma_fundamental_div_mod(any * k, d);
    assert(0 <= (anx * k) % d < d);
    assert(0 <= (any * k) % d < d);
    let adx = (anx * k) / d;
    let ady = (any * k) / d;
    assert(d * adx <= anx * k && anx * k < d * (adx + 1) && 0 <= adx) by (nonlinear_arith)
        requires
            anx * k == d * adx + (anx * k) % d,
            0 <= (anx * k) % d < d,
            0 <= anx,
            0 <= k,
            d == 1_000_000,
    ;
    assert(d * ady <= any * k && any * k < d * (ady + 1) && 0 <= ady) by (nonlinear_arith)
        requires
            any * k == d * ady + (any * k) % d,
            0 <= (any * k) % d < d,
            0 <= any,
            0 <= k,
            d == 1_000_000,
    ;
    assert(dx == adx || dx == -adx);
    assert(dy == ady || dy == -ady);
    assert(dx * dx == adx * adx && dy * dy == ady * ady) by (nonlinear_arith)
        requires
            dx == adx || dx == -adx,
            dy == ady || dy == -ady,
    ;
    // upper bound: d^2 (adx^2 + ady^2) <= k^2 (anx^2 + any^2) <= k^2 (s^2 + 2)
    let pu = d * adx;
    let pv = d * ady;
    let qu = anx * k;
    let qv = any * k;
    assert(pu * pu <= qu * qu) by (nonlinear_arith)
        requires
            0 <= pu <= qu,
    ;
    assert(pv * pv <= qv * qv) by (nonlinear_arith)
        requires
            0 <= pv <= qv,
    ;
    assert(d * d * (adx * adx + ady * ady) == pu * pu + pv * pv) by (nonlinear_arith)
        requires
            pu == d * adx,
            pv == d * ady,
    ;
    assert(qu * qu + qv * qv == k * k * (anx * anx + any * any)) by (nonlinear_arith)
        requires
            qu == anx * k,
            qv == any * k,
    ;
    assert(k * k * (anx * anx + any * any) <= k * k * (s * s + 2)) by (nonlinear_arith)
        requires
            anx * anx + any * any <= s * s + 2,
            0 <= k,
    ;
    // lower bound: k^2 (s^2 - 4s - 2) <= k^2 (anx^2 + any^2) < d^2 ((adx+1)^2 + (ady+1)^2)
    let ru = d * (adx + 1);
    let rv = d * (ady + 1);
    assert(qu * qu < ru * ru) by (nonlinear_arith)
        requires
            0 <= qu < ru,
    ;
    assert(qv * qv < rv * rv) by (nonlinear_arith)
        requires
            0 <= qv < rv,
    ;
    assert(ru * ru + rv * rv == d * d * ((adx + 1) * (adx + 1) + (ady + 1) * (ady + 1)))
        by (nonlinear_arith)
        requires
            ru == d * (adx + 1),
            rv == d * (ady + 1),
    ;
    assert(k * k * (s * s - 4 * s - 2) <= k * k * (anx * anx + any * any)) by (nonlinear_arith)
        requires
            s * s - 4 * s - 2 < anx * anx + any * any,
            0 <= k,
    ;
}

} // verus!
