//! The state of a run and the step that takes it from frame to frame.
use vstd::prelude::*;
use crate::color::Srgba;
use crate::fixed::{saturate, saturating, ONE};
use crate::flowfield::{perlin_seeded, FlowField, SEED_BOUND};
use crate::geometry::rect::Rect;
use crate::geometry::vector::Point2;
use crate::particle::{Particle, SPAWN_SPEED};
use crate::random::{random_range, random_unit};

verus! {

/// The width, in units, of the square around a spawn point over which
/// new particles are scattered.
pub const JITTER: i64 = 30;

/// The number of particles that a run starts with.
pub const PARTICLES: usize = 100;

/// The time, two units, that a trail segment lives.
pub const PARTICLE_ALIVE: i64 = 2_000_000;

/// Everything that a run holds.
pub struct Model {
    pub flow_field: FlowField,
    pub particles: Vec<Particle>,
    pub particle_alive: i64,
    pub particle_colors: (Srgba, Srgba),
}

/// The colour of a fresh trail segment.
pub open spec fn origin_color_spec() -> Srgba {
    Srgba { red: 1_000_000, green: 349_010, blue: 90_100, alpha: 1_000_000 }
}

/// The colour that a trail segment fades to.
pub open spec fn target_color_spec() -> Srgba {
    Srgba { red: 929_400, green: 588_200, blue: 47_000, alpha: 0 }
}

/// The coordinate `center` moved by the share `draw` of the jitter's
/// width, less half of it: a draw of one half leaves it in place.
pub open spec fn jittered(center: int, draw: int) -> int {
    saturate(center + (draw - ONE / 2) * JITTER)
}

/// The particle may have been scattered around `(x, y)`: it lies within
/// half the jitter's width of it on both axes, its velocity is one that a
/// new particle can have, and it has no trail.
pub open spec fn scattered_around(p: Particle, x: int, y: int) -> bool {
    &&& jittered(x, 0) <= p.pos.x <= jittered(x, ONE as int)
    &&& jittered(y, 0) <= p.pos.y <= jittered(y, ONE as int)
    &&& 0 <= p.vel.x < SPAWN_SPEED * ONE
    &&& 0 <= p.vel.y < SPAWN_SPEED * ONE
    &&& p.particle_trail@.len() == 0
}

/// The particles form a cluster around the point `(x, y)` of the window:
/// each may have been scattered around it.
pub open spec fn clustered_at(particles: Seq<Particle>, window: Rect, x: int, y: int) -> bool {
    &&& window.left <= x < window.right
    &&& window.bottom <= y < window.top
    &&& forall|i: int| 0 <= i < particles.len() ==> scattered_around(#[trigger] particles[i], x, y)
}

/// The colour of a fresh trail segment.
pub fn origin_color() -> (c: Srgba)
    ensures
        c == origin_color_spec(),
{
    Srgba { red: 1_000_000, green: 349_010, blue: 90_100, alpha: 1_000_000 }
}

/// The colour that a trail segment fades to.
pub fn target_color() -> (c: Srgba)
    ensures
        c == target_color_spec(),
{
    Srgba { red: 929_400, green: 588_200, blue: 47_000, alpha: 0 }
}

/// Moves a coordinate by the jitter that belongs to `draw`.
pub fn jitter(center: i64, draw: i64) -> (r: i64)
    ensures
        r == jittered(center as int, draw as int),
{
    let width: i128 = JITTER as i128;
    assert(width == 30);
    saturating(center as i128 + (draw as i128 - (ONE / 2) as i128) * width)
}

/// The particle that the four draws scatter around `(x, y)`: the first
/// two place it, the last two give it its velocity.
pub fn scattered(x: i64, y: i64, jitter_x: i64, jitter_y: i64, draw_x: i64, draw_y: i64) -> (p:
    Particle)
    ensures
        p.pos.x == jittered(x as int, jitter_x as int),
        p.pos.y == jittered(y as int, jitter_y as int),
        p.vel.x == saturate(draw_x * SPAWN_SPEED),
        p.vel.y == saturate(draw_y * SPAWN_SPEED),
        p.particle_trail@.len() == 0,
{
    Particle::with_draws(jitter(x, jitter_x), jitter(y, jitter_y), draw_x, draw_y)
}

/// A new particle scattered at random around `(x, y)`.
pub fn scatter(x: i64, y: i64) -> (p: Particle)
    ensures
        scattered_around(p, x as int, y as int),
{
    let jitter_x = random_unit();
    let jitter_y = random_unit();
    Particle::new(jitter(x, jitter_x), jitter(y, jitter_y))
}

/// Sets up a run over `window`: the flow field, whose sampler is seeded
/// by a number drawn at random below [`SEED_BOUND`], and a cluster of
/// [`PARTICLES`] particles scattered around one point of the window that
/// is drawn at random.
pub fn model(window: &Rect) -> (m: Model)
    requires
        FlowField::accepts(*window),
    ensures
        m.flow_field.fits(*window),
        exists|seed: u32| seed < SEED_BOUND && m.flow_field.generator() == perlin_seeded(seed),
        m.particle_alive == PARTICLE_ALIVE,
        m.particle_colors == (origin_color_spec(), target_color_spec()),
        m.particles@.len() == PARTICLES,
        exists|x: int, y: int| clustered_at(m.particles@, *window, x, y),
{
    let flow_field = FlowField::new(window);
    let x = random_range(window.left, window.right);
    let y = random_range(window.bottom, window.top);
    let mut particles: Vec<Particle> = Vec::new();
    let mut i: usize = 0;
    while i < PARTICLES
        invariant
            i <= PARTICLES,
            particles@.len() == i,
            forall|j: int|
                0 <= j < particles@.len() ==> scattered_around(
                    #[trigger] particles@[j],
                    x as int,
                    y as int,
                ),
        decreases PARTICLES - i,
    {
        particles.push(scatter(x, y));
        i += 1;
    }
    assert(clustered_at(particles@, *window, x as int, y as int));
    Model {
        flow_field,
        particles,
        particle_alive: PARTICLE_ALIVE,
        particle_colors: (origin_color(), target_color()),
    }
}

/// Adds one particle, scattered at random around `(x, y)`.
pub fn spawn(model: &mut Model, x: i64, y: i64)
    ensures
        final(model).flow_field == old(model).flow_field,
        final(model).particle_alive == old(model).particle_alive,
        final(model).particle_colors == old(model).particle_colors,
        final(model).particles@.len() == old(model).particles@.len() + 1,
        final(model).particles@.drop_last() == old(model).particles@,
        scattered_around(final(model).particles@.last(), x as int, y as int),
{
    model.particles.push(scatter(x, y));
}

/// Advances the run by one frame of length `delta_time`: every particle
/// is ticked under its own flow direction, the `i`-th under `headings[i]`.
pub fn update(model: &mut Model, headings: &Vec<Point2>, bounds: &Rect, delta_time: i64)
    requires
        old(model).particle_alive > 0,
        headings@.len() == old(model).particles@.len(),
    ensures
        final(model).flow_field == old(model).flow_field,
        final(model).particle_alive == old(model).particle_alive,
        final(model).particle_colors == old(model).particle_colors,
        final(model).particles@.len() == old(model).particles@.len(),
        forall|i: int|
            0 <= i < headings@.len() ==> Particle::ticked(
                old(model).particles@[i],
                #[trigger] final(model).particles@[i],
                headings@[i],
                *bounds,
                delta_time as int,
                old(model).particle_colors.0,
                old(model).particle_colors.1,
                old(model).particle_alive as int,
            ),
{
    let n = model.particles.len();
    let origin = model.particle_colors.0;
    let target = model.particle_colors.1;
    let alive = model.particle_alive;
    let mut i: usize = 0;
    while i < n
        invariant
            i <= n,
            alive > 0,
            n == headings@.len(),
            n == model.particles@.len(),
            n == old(model).particles@.len(),
            origin == old(model).particle_colors.0,
            target == old(model).particle_colors.1,
            alive == old(model).particle_alive,
            model.flow_field == old(model).flow_field,
            model.particle_alive == old(model).particle_alive,
            model.particle_colors == old(model).particle_colors,
            forall|j: int|
                0 <= j < i ==> Particle::ticked(
                    old(model).particles@[j],
                    #[trigger] model.particles@[j],
                    headings@[j],
                    *bounds,
                    delta_time as int,
                    origin,
                    target,
                    alive as int,
                ),
            forall|j: int|
                i <= j < n ==> #[trigger] model.particles@[j] == old(model).particles@[j],
        decreases n - i,
    {
        let heading = headings[i];
        let particle = &mut model.particles[i];
        particle.tick(heading, bounds, delta_time, &origin, &target, alive);
        i += 1;
    }
}

} // verus!
