use nbody::step::{accelerations, step};

const G: f64 = 6.67e-11;
const DELTA_TIME: f64 = 86400.0;

#[derive(Clone, Debug, PartialEq)]
struct Body {
    mass: f64,
    pos: (f64, f64),
    vel: (f64, f64),
}

fn body(mass: f64, pos: (f64, f64), vel: (f64, f64)) -> Body {
    Body { mass, pos, vel }
}

fn gravity(local: &Body, other: &Body) -> (f64, f64) {
    let dx = other.pos.0 - local.pos.0;
    let dy = other.pos.1 - local.pos.1;
    let dist = (dx * dx + dy * dy).sqrt();
    if dist == 0.0 {
        (0.0, 0.0)
    } else {
        let acc = G * other.mass / (dist * dist);
        (acc * dx / dist, acc * dy / dist)
    }
}

fn sum(p: (f64, f64), q: (f64, f64)) -> (f64, f64) {
    (p.0 + q.0, p.1 + q.1)
}

fn euler(b: &Body, acc: (f64, f64)) -> Body {
    let vel = (b.vel.0 + acc.0 * DELTA_TIME, b.vel.1 + acc.1 * DELTA_TIME);
    let pos = (b.pos.0 + vel.0 * DELTA_TIME, b.pos.1 + vel.1 * DELTA_TIME);
    body(b.mass, pos, vel)
}

fn advance(bodies: &mut Vec<Body>) {
    step(bodies, (0.0, 0.0), &gravity, &sum, &euler);
}

fn two_body() -> Vec<Body> {
    vec![
        body(2.0e30, (0.0, 0.0), (0.0, 0.0)),
        body(6.0e24, (0.0, 1.5e11), (30_000.0, 0.0)),
    ]
}

fn close(actual: f64, expected: f64) -> bool {
    (actual - expected).abs() <= 1e-6 * expected.abs().max(1e-300)
}

#[test]
fn two_body_reference_step() {
    let mut bodies = two_body();
    advance(&mut bodies);
    let a = &bodies[0];
    let b = &bodies[1];
    assert_eq!(a.vel.0, 0.0);
    assert!(close(a.vel.1, 1.536768e-3));
    assert_eq!(a.pos.0, 0.0);
    assert!(close(a.pos.1, 132.7767552));
    assert!(close(b.vel.0, 30_000.0));
    assert!(close(b.vel.1, -512.256));
    assert!(close(b.pos.0, 2.592e9));
    assert!(close(b.pos.1, 1.5e11 - 44_258_918.4));
}

#[test]
fn step_is_deterministic() {
    let mut first = two_body();
    let mut second = two_body();
    for _ in 0..10 {
        advance(&mut first);
        advance(&mut second);
    }
    assert_eq!(first, second);
}

#[test]
fn coincident_bodies_exert_nothing() {
    let snap = vec![
        body(1.0e20, (5.0, 5.0), (0.0, 0.0)),
        body(3.0e20, (5.0, 5.0), (0.0, 0.0)),
    ];
    let accs = accelerations(&snap, (0.0, 0.0), &gravity, &sum);
    assert_eq!(accs, vec![(0.0, 0.0), (0.0, 0.0)]);
    let mut bodies = snap.clone();
    advance(&mut bodies);
    assert_eq!(bodies, snap);
}

#[test]
fn pair_accelerations_are_antiparallel() {
    let snap = vec![
        body(4.0e24, (1.0e9, -2.0e9), (0.0, 0.0)),
        body(7.0e22, (-3.0e9, 5.0e8), (0.0, 0.0)),
    ];
    let accs = accelerations(&snap, (0.0, 0.0), &gravity, &sum);
    let (a0, a1) = (accs[0], accs[1]);
    // Scaled by the other body's mass, the two accelerations cancel.
    assert!(close(a0.0 / snap[1].mass, -a1.0 / snap[0].mass));
    assert!(close(a0.1 / snap[1].mass, -a1.1 / snap[0].mass));
}

#[test]
fn masses_and_count_survive_many_steps() {
    let mut bodies = vec![
        body(2.0e30, (0.0, 0.0), (0.0, 0.0)),
        body(6.0e24, (0.0, 1.5e11), (30_000.0, 0.0)),
        body(7.3e22, (0.0, 1.504e11), (31_000.0, 0.0)),
    ];
    for _ in 0..50 {
        advance(&mut bodies);
    }
    let masses: Vec<f64> = bodies.iter().map(|b| b.mass).collect();
    assert_eq!(masses, vec![2.0e30, 6.0e24, 7.3e22]);
}

#[test]
fn permuted_input_gives_permuted_result() {
    let mut forward = vec![
        body(2.0e30, (0.0, 0.0), (0.0, 0.0)),
        body(6.0e24, (0.0, 1.5e11), (30_000.0, 0.0)),
    ];
    let mut reversed = vec![forward[1].clone(), forward[0].clone()];
    for _ in 0..5 {
        advance(&mut forward);
        advance(&mut reversed);
    }
    assert_eq!(forward[0], reversed[1]);
    assert_eq!(forward[1], reversed[0]);
}

#[test]
fn empty_simulation_steps_to_empty() {
    let mut bodies: Vec<Body> = Vec::new();
    advance(&mut bodies);
    assert!(bodies.is_empty());
}
