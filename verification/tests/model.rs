use flowfield::fixed::ONE;
use flowfield::model::{jitter, model, origin_color, scatter, scattered, spawn, target_color, update,
    JITTER, PARTICLES, PARTICLE_ALIVE};
use flowfield::particle::{MAX_SPEED, SPAWN_SPEED};
use flowfield::flowfield::SEED_BOUND;
use flowfield::{FlowField, Model, Particle, ParticleSegment, Point2, Rect, Srgba};
use noise::{NoiseFn, Perlin};

fn window() -> Rect {
    Rect { left: -800 * ONE, right: 800 * ONE, bottom: -450 * ONE, top: 450 * ONE }
}

fn run_of(particles: Vec<Particle>) -> Model {
    Model {
        flow_field: FlowField::with_seed(&window(), 3),
        particles,
        particle_alive: PARTICLE_ALIVE,
        particle_colors: (origin_color(), target_color()),
    }
}

fn at(x: i64, y: i64, vx: i64, vy: i64) -> Particle {
    Particle { pos: Point2 { x, y }, vel: Point2 { x: vx, y: vy }, particle_trail: vec![] }
}

#[test]
fn trail_colours_and_lifetime() {
    assert_eq!(origin_color(), Srgba { red: 1_000_000, green: 349_010, blue: 90_100, alpha: 1_000_000 });
    assert_eq!(target_color(), Srgba { red: 929_400, green: 588_200, blue: 47_000, alpha: 0 });
    assert_eq!(PARTICLE_ALIVE, 2 * ONE);
    assert_eq!(PARTICLES, 100);
    assert_eq!(JITTER, 30);
}

#[test]
fn jitter_moves_by_up_to_half_its_width() {
    assert_eq!(jitter(100 * ONE, 0), 85 * ONE);
    assert_eq!(jitter(100 * ONE, ONE / 2), 100 * ONE);
    assert_eq!(jitter(100 * ONE, ONE - 1), 115 * ONE - 30);
    assert_eq!(jitter(0, 250_000), -7_500_000);
    assert_eq!(jitter(i64::MAX, ONE), i64::MAX);
    assert_eq!(jitter(i64::MIN, 0), i64::MIN);
}

#[test]
fn scattered_places_by_the_first_draws_and_launches_by_the_last() {
    let p = scattered(10 * ONE, -10 * ONE, 0, 750_000, 500_000, 1);
    assert_eq!(p.pos, Point2 { x: -5 * ONE, y: -2_500_000 });
    assert_eq!(p.vel, Point2 { x: 200 * ONE, y: 400 });
    assert!(p.particle_trail.is_empty());
}

#[test]
fn scatter_stays_within_the_jitter() {
    let (x, y) = (40 * ONE, -60 * ONE);
    let mut distinct = false;
    let first = scatter(x, y);
    for _ in 0..200 {
        let p = scatter(x, y);
        assert!(x - 15 * ONE <= p.pos.x && p.pos.x < x + 15 * ONE);
        assert!(y - 15 * ONE <= p.pos.y && p.pos.y < y + 15 * ONE);
        assert!(0 <= p.vel.x && p.vel.x < SPAWN_SPEED * ONE);
        assert!(0 <= p.vel.y && p.vel.y < SPAWN_SPEED * ONE);
        assert!(p.particle_trail.is_empty());
        distinct = distinct || p.pos != first.pos;
    }
    assert!(distinct);
}

#[test]
fn model_starts_with_a_cluster_inside_the_window() {
    let w = window();
    let m = model(&w);
    assert_eq!(m.particles.len(), PARTICLES);
    assert_eq!(m.particle_alive, PARTICLE_ALIVE);
    assert_eq!(m.particle_colors, (origin_color(), target_color()));
    assert_eq!(m.flow_field.scale(368 * ONE, 900 * ONE), (ONE, ONE));
    let xs: Vec<i64> = m.particles.iter().map(|p| p.pos.x).collect();
    let ys: Vec<i64> = m.particles.iter().map(|p| p.pos.y).collect();
    let (x_lo, x_hi) = (*xs.iter().min().unwrap(), *xs.iter().max().unwrap());
    let (y_lo, y_hi) = (*ys.iter().min().unwrap(), *ys.iter().max().unwrap());
    assert!(x_hi - x_lo < JITTER * ONE);
    assert!(y_hi - y_lo < JITTER * ONE);
    assert!(w.left - 15 * ONE <= x_lo && x_hi < w.right + 15 * ONE);
    assert!(w.bottom - 15 * ONE <= y_lo && y_hi < w.top + 15 * ONE);
    assert!(x_lo < x_hi && y_lo < y_hi);
    for p in &m.particles {
        assert!(0 <= p.vel.x && p.vel.x < SPAWN_SPEED * ONE);
        assert!(0 <= p.vel.y && p.vel.y < SPAWN_SPEED * ONE);
        assert!(p.particle_trail.is_empty());
    }
    assert!(m.particles.iter().any(|p| p.vel != m.particles[0].vel));
}

fn same_generator(a: &Perlin, b: &Perlin) -> bool {
    let probes = [[0.25, 0.75], [1.5, -2.25], [-0.4, 0.9], [3.1, 4.7], [10.01, -7.77], [0.5, 0.5]];
    probes.into_iter().all(|p| a.get(p) == b.get(p))
}

#[test]
fn model_field_has_the_layout_and_a_seed_below_the_bound() {
    let w = window();
    for _ in 0..20 {
        let m = model(&w);
        let fixed = FlowField::with_seed(&w, 0);
        assert_eq!(m.flow_field.scale(368 * ONE, 900 * ONE), (ONE, ONE));
        let (mut a, mut b) = (m.flow_field.iter(), fixed.iter());
        let mut count = 0;
        loop {
            let (p, q) = (a.next(), b.next());
            assert_eq!(p, q);
            if p.is_none() {
                break;
            }
            count += 1;
        }
        assert_eq!(count, 900);
        let sampler = m.flow_field.sampler();
        assert!((0..SEED_BOUND as u32).any(|s| same_generator(sampler, &Perlin::new(s))));
    }
}

#[test]
fn model_fields_do_not_all_share_one_seed() {
    let w = window();
    let first = model(&w);
    let varied = (0..64)
        .any(|_| !same_generator(first.flow_field.sampler(), model(&w).flow_field.sampler()));
    assert!(varied);
}

#[test]
fn model_anchors_differ_from_run_to_run() {
    let w = window();
    let first = model(&w).particles[0].pos;
    let moved = (0..16).any(|_| {
        let p = model(&w).particles[0].pos;
        (p.x - first.x).abs() > JITTER * ONE || (p.y - first.y).abs() > JITTER * ONE
    });
    assert!(moved);
}

#[test]
fn spawn_adds_one_particle_near_the_point() {
    let mut m = run_of(vec![at(1, 2, 3, 4)]);
    spawn(&mut m, 100 * ONE, 200 * ONE);
    assert_eq!(m.particles.len(), 2);
    assert_eq!(m.particles[0].pos, Point2 { x: 1, y: 2 });
    assert_eq!(m.particles[0].vel, Point2 { x: 3, y: 4 });
    let p = &m.particles[1];
    assert!(85 * ONE <= p.pos.x && p.pos.x < 115 * ONE);
    assert!(185 * ONE <= p.pos.y && p.pos.y < 215 * ONE);
    assert!(0 <= p.vel.x && p.vel.x < SPAWN_SPEED * ONE);
    assert!(p.particle_trail.is_empty());
    assert_eq!(m.particle_alive, PARTICLE_ALIVE);
    for _ in 0..10 {
        spawn(&mut m, 0, 0);
    }
    assert_eq!(m.particles.len(), 12);
}

#[test]
fn update_ticks_every_particle_under_its_own_heading() {
    let w = window();
    let mut m = run_of(vec![at(0, 0, 0, 0), at(10 * ONE, 10 * ONE, 0, 0), at(w.right - 10_000, 0, 100 * ONE, 0)]);
    m.particles[2].particle_trail.push(ParticleSegment {
        position: Point2 { x: 0, y: 0 },
        color: origin_color(),
        time_left: ONE,
    });
    let headings = vec![Point2 { x: ONE, y: 0 }, Point2 { x: 0, y: -ONE }, Point2 { x: ONE, y: 0 }];
    update(&mut m, &headings, &w, ONE);

    let mut alone = at(0, 0, 0, 0);
    alone.tick(headings[0], &w, ONE, &origin_color(), &target_color(), PARTICLE_ALIVE);
    assert_eq!(m.particles[0].pos, alone.pos);
    assert_eq!(m.particles[0].vel, alone.vel);
    assert_eq!(m.particles[0].particle_trail, alone.particle_trail);

    assert_eq!(m.particles[0].vel, Point2 { x: 100_000, y: 0 });
    assert_eq!(m.particles[0].pos, Point2 { x: ONE, y: 0 });
    assert_eq!(m.particles[1].vel, Point2 { x: 0, y: -100_000 });
    assert_eq!(m.particles[1].pos, Point2 { x: 10 * ONE, y: 9 * ONE });
    assert_eq!(
        m.particles[1].particle_trail,
        vec![ParticleSegment { position: Point2 { x: 10 * ONE, y: 9 * ONE }, color: origin_color(), time_left: PARTICLE_ALIVE }]
    );
    // the third particle crossed the right edge: it is on the left one, without a trail
    assert_eq!(m.particles[2].pos, Point2 { x: w.left, y: 0 });
    assert!(m.particles[2].particle_trail.is_empty());
    assert_eq!(m.particles.len(), 3);
}

#[test]
fn update_of_an_empty_run_does_nothing() {
    let mut m = run_of(vec![]);
    update(&mut m, &vec![], &window(), 16_000);
    assert!(m.particles.is_empty());
    assert_eq!(m.particle_alive, PARTICLE_ALIVE);
}

#[test]
fn run_keeps_speeds_capped_and_trails_fading() {
    let w = window();
    let mut m = model(&w);
    let dt = 16_000;
    for frame in 0..200u32 {
        if frame % 20 == 0 {
            spawn(&mut m, 0, 0);
        }
        let headings: Vec<Point2> = m
            .particles
            .iter()
            .map(|p| {
                let (nx, ny) = m.flow_field.scale(p.pos.x, p.pos.y);
                if (nx + ny) % 2 == 0 { Point2 { x: 600_000, y: 800_000 } } else { Point2 { x: -ONE, y: 0 } }
            })
            .collect();
        let before: Vec<usize> = m.particles.iter().map(|p| p.particle_trail.len()).collect();
        update(&mut m, &headings, &w, dt);
        for (p, had) in m.particles.iter().zip(before) {
            let len2 = (p.vel.x as i128).pow(2) + (p.vel.y as i128).pow(2);
            assert!(len2 <= (MAX_SPEED as i128).pow(2));
            assert!(p.particle_trail.len() <= had + 1);
            assert!(p.particle_trail.len() <= 125);
            for s in &p.particle_trail {
                assert!(0 < s.time_left && s.time_left <= PARTICLE_ALIVE);
                assert!(0 <= s.color.alpha && s.color.alpha <= ONE);
            }
            for pair in p.particle_trail.windows(2) {
                assert!(pair[0].time_left < pair[1].time_left);
            }
        }
    }
    assert_eq!(m.particles.len(), PARTICLES + 10);
}
