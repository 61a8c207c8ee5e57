use car_kinematics::error::CarError;
use car_kinematics::fixed::{Fixed, ONE_RAW};
use car_kinematics::geometry::new_rotation_matrix;
use car_kinematics::linear_algebra::{Matrix, Vector2D};

fn fx(x: f64) -> Fixed {
    Fixed::from_raw((x * 4294967296.0).round() as i64)
}

fn to_float(x: Fixed) -> f64 {
    x.raw() as f64 / 4294967296.0
}

fn matrix(a: f64, b: f64, c: f64, d: f64) -> Matrix {
    Matrix::new(fx(a), fx(b), fx(c), fx(d))
}

fn close(m: Matrix, n: Matrix, tolerance: f64) -> bool {
    (to_float(m.m11) - to_float(n.m11)).abs() < tolerance
        && (to_float(m.m12) - to_float(n.m12)).abs() < tolerance
        && (to_float(m.m21) - to_float(n.m21)).abs() < tolerance
        && (to_float(m.m22) - to_float(n.m22)).abs() < tolerance
}

#[test]
fn vector_components_and_sums() {
    let v = Vector2D::new_from_x_and_y(fx(1.5), fx(-2.0));
    let w = Vector2D::new_from_x_and_y(fx(0.25), fx(4.0));
    assert_eq!(v.x(), fx(1.5));
    assert_eq!(v.y(), fx(-2.0));
    assert_eq!(v.add(w), Vector2D::new_from_x_and_y(fx(1.75), fx(2.0)));
    assert_eq!(v.sub(w), Vector2D::new_from_x_and_y(fx(1.25), fx(-6.0)));
    assert_eq!(v.add(w), w.add(v));
}

#[test]
fn the_identity_has_ones_on_its_diagonal() {
    let eye = Matrix::eye();
    assert_eq!(eye.m11.raw(), ONE_RAW);
    assert_eq!(eye.m12.raw(), 0);
    assert_eq!(eye.m21.raw(), 0);
    assert_eq!(eye.m22.raw(), ONE_RAW);
}

#[test]
fn the_identity_changes_nothing() {
    let m = matrix(1.25, -3.5, 0.125, 7.0);
    let eye = Matrix::eye();
    assert_eq!(eye.mul(m), m);
    assert_eq!(m.mul(eye), m);
    let v = Vector2D::new_from_x_and_y(fx(-9.75), fx(0.001));
    assert_eq!(eye.mul_vec(v), v);
}

#[test]
fn matrix_times_vector() {
    let m = matrix(1.0, 2.0, 3.0, 4.0);
    let v = Vector2D::new_from_x_and_y(fx(0.5), fx(-1.5));
    assert_eq!(m.mul_vec(v), Vector2D::new_from_x_and_y(fx(-2.5), fx(-4.5)));
}

#[test]
fn matrix_times_matrix() {
    let a = matrix(1.0, 2.0, 3.0, 4.0);
    let b = matrix(0.5, -1.0, 2.0, 0.25);
    assert_eq!(a.mul(b), matrix(4.5, -0.5, 9.5, -2.0));
    assert_eq!(b.mul(a), matrix(-2.5, -3.0, 2.75, 5.0));
}

#[test]
fn determinant() {
    assert_eq!(matrix(1.0, 2.0, 3.0, 4.0).det(), fx(-2.0));
    assert_eq!(Matrix::eye().det(), fx(1.0));
    assert_eq!(matrix(2.0, 4.0, 1.0, 2.0).det(), fx(0.0));
}

#[test]
fn inverse_in_closed_form() {
    let m = matrix(1.0, 2.0, 3.0, 4.0);
    let inverse = m.inverse().unwrap();
    assert_eq!(inverse, matrix(-2.0, 1.0, 1.5, -0.5));
    assert_eq!(m.mul(inverse), Matrix::eye());
    assert_eq!(inverse.mul(m), Matrix::eye());
    assert_eq!(Matrix::eye().inverse().unwrap(), Matrix::eye());
}

#[test]
fn a_singular_matrix_has_no_inverse() {
    assert_eq!(matrix(2.0, 4.0, 1.0, 2.0).inverse(), Err(CarError::DegenerateMatrix));
    assert_eq!(matrix(0.0, 0.0, 0.0, 0.0).inverse(), Err(CarError::DegenerateMatrix));
}

#[test]
fn rotation_matrix_holds_cosine_and_sine() {
    let angle = 0.7f64;
    let m = new_rotation_matrix(fx(angle));
    assert!(close(m, matrix(angle.cos(), -angle.sin(), angle.sin(), angle.cos()), 1e-8));
    assert_eq!(m.m11, m.m22);
    assert_eq!(m.m12, m.m21.neg());
}

#[test]
fn rotation_matrix_of_no_turn_is_the_identity() {
    assert_eq!(new_rotation_matrix(Fixed::zero()), Matrix::eye());
}

#[test]
fn rotation_matrix_of_a_quarter_turn_is_exact() {
    let quarter = Fixed::from_raw(car_kinematics::trig::QUARTER_TURN_RAW);
    assert_eq!(new_rotation_matrix(quarter), matrix(0.0, -1.0, 1.0, 0.0));
    assert_eq!(new_rotation_matrix(quarter.neg()), matrix(0.0, 1.0, -1.0, 0.0));
}

#[test]
fn inverse_of_a_rotation_is_the_rotation_by_the_negated_angle() {
    let mut angle = -6.3f64;
    while angle < 6.3 {
        let r = new_rotation_matrix(fx(angle));
        let back = new_rotation_matrix(fx(angle).neg());
        let inverse = r.inverse().unwrap();
        assert!(close(inverse, back, 1e-8), "at {}", angle);
        assert!(close(r.mul(inverse), Matrix::eye(), 1e-8), "at {}", angle);
        assert!(close(inverse.mul(r), Matrix::eye(), 1e-8), "at {}", angle);
        // the matrix of the negated angle is the transposed matrix, exactly
        assert_eq!(back, Matrix::new(r.m11, r.m21, r.m12, r.m22));
        angle += 0.0371;
    }
}

#[test]
fn rotations_compose_by_adding_their_angles() {
    let a = 0.4f64;
    let b = 1.3f64;
    let product = new_rotation_matrix(fx(a)).mul(new_rotation_matrix(fx(b)));
    assert!(close(product, new_rotation_matrix(fx(a + b)), 1e-8));
    assert!((to_float(product.det()) - 1.0).abs() < 1e-8);
}

#[test]
fn the_matrix_of_every_angle_lies_on_the_unit_circle_but_for_rounding() {
    let one = ONE_RAW as i128;
    for raw in (-30_000_000_000i64..30_000_000_000).step_by(7_654_321) {
        let m = new_rotation_matrix(Fixed::from_raw(raw));
        let c = m.m11.raw() as i128;
        let s = m.m21.raw() as i128;
        assert_eq!(m.m22, m.m11);
        assert_eq!(m.m12.raw(), -m.m21.raw());
        assert!((c * c + s * s - one * one).abs() <= 2 * one, "at raw angle {}", raw);
    }
}

#[test]
fn the_inverse_of_a_turn_is_the_turn_back_to_within_three_raw_units() {
    for raw in (-30_000_000_000i64..30_000_000_000).step_by(98_765_431) {
        let angle = Fixed::from_raw(raw);
        let m = new_rotation_matrix(angle);
        assert!((m.det().raw() - ONE_RAW).abs() <= 3);
        let inverse = m.inverse().unwrap();
        let back = new_rotation_matrix(angle.neg());
        assert!((inverse.m11.raw() - back.m11.raw()).abs() <= 3);
        assert!((inverse.m12.raw() - back.m12.raw()).abs() <= 3);
        assert!((inverse.m21.raw() - back.m21.raw()).abs() <= 3);
        assert!((inverse.m22.raw() - back.m22.raw()).abs() <= 3);
        let product = m.mul(inverse);
        assert!((product.m11.raw() - ONE_RAW).abs() <= 10);
        assert!(product.m12.raw().abs() <= 10);
        assert!(product.m21.raw().abs() <= 10);
        assert!((product.m22.raw() - ONE_RAW).abs() <= 10);
    }
}

#[test]
fn the_product_of_a_turn_and_its_inverse_is_the_identity_in_either_order() {
    for raw in (-30_000_000_000i64..30_000_000_000).step_by(77_654_321) {
        let m = new_rotation_matrix(Fixed::from_raw(raw));
        let inverse = m.inverse().unwrap();
        for product in [m.mul(inverse), inverse.mul(m)] {
            assert!((product.m11.raw() - ONE_RAW).abs() <= 10);
            assert!(product.m12.raw().abs() <= 10);
            assert!(product.m21.raw().abs() <= 10);
            assert!((product.m22.raw() - ONE_RAW).abs() <= 10);
        }
    }
}

#[test]
fn two_turns_one_after_the_other_are_a_turn_but_for_rounding() {
    let one = ONE_RAW as i128;
    for a in (-30_000_000_000i64..30_000_000_000).step_by(1_987_654_321) {
        for b in (-30_000_000_000i64..30_000_000_000).step_by(2_123_456_789) {
            let p = new_rotation_matrix(Fixed::from_raw(a)).mul(new_rotation_matrix(Fixed::from_raw(b)));
            assert_eq!(p.m22, p.m11);
            assert_eq!(p.m12.raw(), -p.m21.raw());
            let (c, s) = (p.m11.raw() as i128, p.m21.raw() as i128);
            assert!((c * c + s * s - one * one).abs() <= 21 * one);
            let sum = new_rotation_matrix(Fixed::from_raw(a).add(Fixed::from_raw(b)));
            assert!(close(p, sum, 1e-8));
        }
    }
}
