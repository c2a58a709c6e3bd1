use nbody::body::{Body, BodyError, MAX_COORD, MAX_MASS};

fn body(p: Vec<i128>, v: Vec<i128>, m: i128) -> Body {
    Body::new(p, v, m).unwrap()
}

#[test]
fn new_accepts_a_plain_body() {
    let b = body(vec![100, -200], vec![3, 4], 50);
    assert_eq!(b.position, vec![100, -200]);
    assert_eq!(b.velocity, vec![3, 4]);
    assert_eq!(b.mass, 50);
}

#[test]
fn new_rejects_mismatched_dimensions() {
    let r = Body::new(vec![0, 0, 0], vec![0, 0], 10);
    assert_eq!(r.unwrap_err(), BodyError::MismatchedDimensions);
}

#[test]
fn new_rejects_zero_mass() {
    let r = Body::new(vec![0, 0], vec![0, 0], 0);
    assert_eq!(r.unwrap_err(), BodyError::InvalidMass);
}

#[test]
fn new_rejects_negative_mass() {
    let r = Body::new(vec![0, 0], vec![0, 0], -5);
    assert_eq!(r.unwrap_err(), BodyError::InvalidMass);
}

#[test]
fn new_rejects_oversized_mass() {
    let r = Body::new(vec![0, 0], vec![0, 0], MAX_MASS + 1);
    assert_eq!(r.unwrap_err(), BodyError::InvalidMass);
}

#[test]
fn new_rejects_out_of_range_coordinate() {
    let r = Body::new(vec![MAX_COORD + 1, 0], vec![0, 0], 10);
    assert_eq!(r.unwrap_err(), BodyError::OutOfRange);
    let r = Body::new(vec![0, 0], vec![0, -(MAX_COORD + 1)], 10);
    assert_eq!(r.unwrap_err(), BodyError::OutOfRange);
}

#[test]
fn accessors_read_the_fields() {
    let b = body(vec![7, 8, 9], vec![-1, 0, 1], 123);
    assert_eq!(b.position(), &vec![7, 8, 9]);
    assert_eq!(b.velocity(), &vec![-1, 0, 1]);
    assert_eq!(b.mass(), 123);
}

#[test]
fn force_matches_the_inverse_square_law_exactly() {
    // Separation 50 along the y axis, G = 10000, masses 50 and 50:
    // F = 10000 * 50 * 50 / 50^2 = 10000, pointing from a toward b.
    let a = body(vec![0, 0], vec![0, 0], 50);
    let b = body(vec![0, 50], vec![0, 0], 50);
    let f = a.newtonian_force(&b, 10000, 1);
    assert_eq!(f, vec![0, 10000]);
}

#[test]
fn force_is_symmetric() {
    let a = body(vec![120, -40], vec![5, 5], 700);
    let b = body(vec![-33, 210], vec![-5, 0], 1300);
    let f_ab = a.newtonian_force(&b, 9999, 7);
    let f_ba = b.newtonian_force(&a, 9999, 7);
    assert_eq!(f_ab.len(), f_ba.len());
    for k in 0..f_ab.len() {
        assert_eq!(f_ab[k], -f_ba[k]);
    }
}

#[test]
fn doubling_one_mass_doubles_the_force() {
    // The base division is exact, so the scaling is exact too.
    let a = body(vec![0, 0], vec![0, 0], 50);
    let b = body(vec![0, 50], vec![0, 0], 50);
    let b2 = body(vec![0, 50], vec![0, 0], 100);
    let f = a.newtonian_force(&b, 10000, 1);
    let f2 = a.newtonian_force(&b2, 10000, 1);
    assert_eq!(f, vec![0, 10000]);
    assert_eq!(f2, vec![0, 20000]);
}

#[test]
fn force_division_rounds_toward_zero() {
    // Same geometry, but G = 10000/3: 1_250_000_000 / 375_000 = 3333.33..
    let a = body(vec![0, 0], vec![0, 0], 50);
    let b = body(vec![0, 50], vec![0, 0], 50);
    let f = a.newtonian_force(&b, 10000, 3);
    assert_eq!(f, vec![0, 3333]);
    let g = b.newtonian_force(&a, 10000, 3);
    assert_eq!(g, vec![0, -3333]);
}

#[test]
fn distance_uses_the_rounded_down_square_root() {
    // Separation (1, 7): squared distance 50, floor sqrt 7, cube 343.
    let a = body(vec![0, 0], vec![0, 0], 1);
    let b = body(vec![1, 7], vec![0, 0], 1);
    let f = a.newtonian_force(&b, 343, 1);
    assert_eq!(f, vec![1, 7]);
}

#[test]
fn force_in_three_dimensions() {
    // Separation 30 along x: F = 9000 * 30 * 30 / 30^2 = 9000.
    let a = body(vec![0, 0, 0], vec![0, 0, 0], 30);
    let b = body(vec![30, 0, 0], vec![0, 0, 0], 30);
    let f = a.newtonian_force(&b, 9000, 1);
    assert_eq!(f, vec![9000, 0, 0]);
}

#[test]
fn apply_force_scales_by_dt_over_mass() {
    let mut a = body(vec![0, 0], vec![10, -10], 50);
    a.apply_force(&vec![10000, -350], 1, 1);
    // dv = (10000 / 50, -350 / 50) = (200, -7)
    assert_eq!(a.velocity, vec![210, -17]);
    assert_eq!(a.position, vec![0, 0]);
    assert_eq!(a.mass, 50);
}

#[test]
fn apply_force_rounds_toward_zero_in_both_signs() {
    let mut a = body(vec![0, 0], vec![0, 0], 60);
    a.apply_force(&vec![100, -100], 1, 1);
    // 100/60 = 1.66.. -> 1, and -100/60 -> -1 (not -2).
    assert_eq!(a.velocity, vec![1, -1]);
}

#[test]
fn update_position_integrates_velocity() {
    let mut a = body(vec![10, 20], vec![3, 4], 5);
    a.update_position(1, 1);
    assert_eq!(a.position, vec![13, 24]);
    assert_eq!(a.velocity, vec![3, 4]);
    let mut b = body(vec![10, 20], vec![3, 4], 5);
    b.update_position(1, 2);
    // dr = (3/2, 4/2) = (1, 2) with truncation.
    assert_eq!(b.position, vec![11, 22]);
}
