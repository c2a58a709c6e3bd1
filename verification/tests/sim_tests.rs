use nbody::body::Body;
use nbody::sim::{advance, apply_gravity, update_bodies};

fn body(p: Vec<i128>, v: Vec<i128>, m: i128) -> Body {
    Body::new(p, v, m).unwrap()
}

fn momentum(bodies: &[Body], k: usize) -> i128 {
    bodies.iter().map(|b| b.mass * b.velocity[k]).sum()
}

#[test]
fn two_bodies_one_exact_step() {
    // Separation 50, G = 10000, equal masses 50, dt = 1.
    // F = 10000 * 50 * 50 / 50^2 = 10000; dv = 10000 / 50 = 200.
    let mut bodies = vec![
        body(vec![0, 0], vec![0, 0], 50),
        body(vec![0, 50], vec![0, 0], 50),
    ];
    advance(&mut bodies, 10000, 1, 1, 1);
    assert_eq!(bodies[0].velocity, vec![0, 200]);
    assert_eq!(bodies[1].velocity, vec![0, -200]);
    // Positions move by the new, post-force velocities.
    assert_eq!(bodies[0].position, vec![0, 200]);
    assert_eq!(bodies[1].position, vec![0, -150]);
}

#[test]
fn momentum_is_conserved_when_divisions_are_exact() {
    // F = 10000 * 50 * 100 * 50 / 50^3 = 20000; dv = 400 and -200.
    let mut bodies = vec![
        body(vec![0, 0], vec![0, 0], 50),
        body(vec![0, 50], vec![0, 0], 100),
    ];
    let before = (momentum(&bodies, 0), momentum(&bodies, 1));
    advance(&mut bodies, 10000, 1, 1, 1);
    assert_eq!(bodies[0].velocity, vec![0, 400]);
    assert_eq!(bodies[1].velocity, vec![0, -200]);
    let after = (momentum(&bodies, 0), momentum(&bodies, 1));
    assert_eq!(before, after);
}

#[test]
fn single_body_advances_freely() {
    let mut bodies = vec![body(vec![10, 20], vec![3, 4], 5)];
    advance(&mut bodies, 10000, 1, 1, 1);
    assert_eq!(bodies[0].velocity, vec![3, 4]);
    assert_eq!(bodies[0].position, vec![13, 24]);
    advance(&mut bodies, 10000, 1, 1, 2);
    // dt = 1/2: dr = (1, 2) with truncation.
    assert_eq!(bodies[0].velocity, vec![3, 4]);
    assert_eq!(bodies[0].position, vec![14, 26]);
}

#[test]
fn empty_collection_is_a_no_op() {
    let mut bodies: Vec<Body> = Vec::new();
    advance(&mut bodies, 10000, 1, 1, 1);
    assert!(bodies.is_empty());
}

#[test]
fn force_phase_never_moves_and_integration_never_accelerates() {
    // A three-body configuration; watch the two phases separately.
    let mut bodies = vec![
        body(vec![0, 0], vec![1, 0], 100),
        body(vec![100, 0], vec![0, 1], 200),
        body(vec![0, 100], vec![-1, 0], 300),
    ];
    let positions_before: Vec<Vec<i128>> =
        bodies.iter().map(|b| b.position.clone()).collect();
    let velocities_before: Vec<Vec<i128>> =
        bodies.iter().map(|b| b.velocity.clone()).collect();

    apply_gravity(&mut bodies, 10000, 1, 1, 1);
    let positions_mid: Vec<Vec<i128>> = bodies.iter().map(|b| b.position.clone()).collect();
    let velocities_mid: Vec<Vec<i128>> = bodies.iter().map(|b| b.velocity.clone()).collect();
    assert_eq!(positions_before, positions_mid);
    assert_ne!(velocities_before, velocities_mid);

    update_bodies(&mut bodies, 1, 1);
    let velocities_after: Vec<Vec<i128>> = bodies.iter().map(|b| b.velocity.clone()).collect();
    let positions_after: Vec<Vec<i128>> = bodies.iter().map(|b| b.position.clone()).collect();
    assert_eq!(velocities_mid, velocities_after);
    assert_ne!(positions_mid, positions_after);
}

#[test]
fn three_bodies_all_pairs_interact() {
    // Two outer bodies pull the middle one in opposite directions with the
    // same strength, so its velocity stays put while theirs change.
    let mut bodies = vec![
        body(vec![0, -50], vec![0, 0], 50),
        body(vec![0, 0], vec![0, 0], 50),
        body(vec![0, 50], vec![0, 0], 50),
    ];
    apply_gravity(&mut bodies, 10000, 1, 1, 1);
    // Middle body: +200 from the top pull, -200 from the bottom pull.
    assert_eq!(bodies[1].velocity, vec![0, 0]);
    // Outer bodies: 200 from the near pair (distance 50) plus
    // 10000 * 50 * 50 / 100^2 = 2500, 2500 / 50 = 50 from the far one.
    assert_eq!(bodies[0].velocity, vec![0, 250]);
    assert_eq!(bodies[2].velocity, vec![0, -250]);
}

#[test]
fn sub_resolution_forces_truncate_to_rest() {
    // Masses 5000 and 5000, G = 1/10, separation 50, velocities (10, 0),
    // dt = 1/60. The pairwise force comes out at 1000, but the velocity
    // change 1000 / (60 * 5000) and the position change 10 / 60 both
    // truncate to zero at integer resolution: the state is a fixed point.
    let a = body(vec![100, 100], vec![10, 0], 5000);
    let b = body(vec![100, 150], vec![10, 0], 5000);
    let f = a.newtonian_force(&b, 1, 10);
    assert_eq!(f, vec![0, 1000]);
    let mut bodies = vec![a, b];
    advance(&mut bodies, 1, 10, 1, 60);
    assert_eq!(bodies[0].position, vec![100, 100]);
    assert_eq!(bodies[0].velocity, vec![10, 0]);
    assert_eq!(bodies[1].position, vec![100, 150]);
    assert_eq!(bodies[1].velocity, vec![10, 0]);
}

#[test]
fn two_body_circular_orbit_returns_home() {
    // Two equal masses on the x axis, orbiting their common centre:
    // r = 10000, m = 1000000, G = 10000, so the pull on each body is
    // 10000 * m^2 / (2r)^2 = 25000000 and the acceleration is exactly 25.
    // A tangential speed of 500 gives v^2 / r = 25: a circular orbit.
    // The continuous period 2*pi*r / v is about 126 ticks; the discrete
    // trajectory closes after 137.
    let mut bodies = vec![
        body(vec![10000, 0], vec![0, 500], 1000000),
        body(vec![-10000, 0], vec![0, -500], 1000000),
    ];
    for _ in 0..137 {
        advance(&mut bodies, 10000, 1, 1, 1);
    }
    for (i, start) in [(0usize, [10000i128, 0i128]), (1usize, [-10000, 0])] {
        let p = &bodies[i].position;
        let dx = (p[0] - start[0]).abs();
        let dy = (p[1] - start[1]).abs();
        assert!(
            dx <= 500 && dy <= 500,
            "body {} ended at ({}, {}), too far from ({}, {})",
            i,
            p[0],
            p[1],
            start[0],
            start[1]
        );
    }
}
