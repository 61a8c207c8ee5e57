use car_kinematics::fixed::Fixed;
use car_kinematics::geometry::{distance_of, new_rotation_matrix, point2, Point, Rotation};
use car_kinematics::linear_algebra::{Matrix, Vector2D};
use car_kinematics::trig::QUARTER_TURN_RAW;

fn fx(x: f64) -> Fixed {
    Fixed::from_raw((x * 4294967296.0).round() as i64)
}

fn to_float(x: Fixed) -> f64 {
    x.raw() as f64 / 4294967296.0
}

fn pt(x: f64, y: f64) -> Point {
    point2(fx(x), fx(y))
}

fn near(p: Point, x: f64, y: f64, tolerance: f64) -> bool {
    (to_float(p.x) - x).abs() < tolerance && (to_float(p.y) - y).abs() < tolerance
}

#[test]
fn points_and_displacements() {
    let p = pt(3.0, -1.5);
    let q = pt(1.0, 2.0);
    assert_eq!(p.sub(q), Vector2D::new_from_x_and_y(fx(2.0), fx(-3.5)));
    assert_eq!(q.add(p.sub(q)), p);
    assert_eq!(p.sub(q).add_point(q), p);
    assert_eq!(q.translate(Vector2D::new_from_x_and_y(fx(0.5), fx(0.25))), pt(1.5, 2.25));
}

#[test]
fn conversions_between_points_pairs_and_vectors() {
    let p = Point::from((fx(1.0), fx(2.0)));
    assert_eq!(p, pt(1.0, 2.0));
    let pair: (Fixed, Fixed) = p.into();
    assert_eq!(pair, (fx(1.0), fx(2.0)));
    let v = Vector2D::from(p);
    assert_eq!(v, Vector2D::new_from_x_and_y(fx(1.0), fx(2.0)));
    assert_eq!(Point::from(v), p);
}

#[test]
fn distance_of_a_three_four_five_triangle() {
    assert_eq!(distance_of(pt(1.0, 1.0), pt(4.0, 5.0)), fx(5.0));
    assert_eq!(distance_of(pt(4.0, 5.0), pt(1.0, 1.0)), fx(5.0));
    assert_eq!(distance_of(pt(2.0, 2.0), pt(2.0, 2.0)), fx(0.0));
}

#[test]
fn distance_follows_the_real_distance() {
    let d = distance_of(pt(0.3, -1.7), pt(-2.9, 4.4));
    let want = ((0.3f64 + 2.9).powi(2) + (-1.7f64 - 4.4).powi(2)).sqrt();
    assert!((to_float(d) - want).abs() < 1e-8);
}

#[test]
fn a_quarter_turn_about_the_origin() {
    let quarter = Rotation::new(Fixed::from_raw(QUARTER_TURN_RAW), pt(0.0, 0.0));
    assert_eq!(pt(1.0, 0.0).rotate(quarter), pt(0.0, 1.0));
    assert_eq!(pt(0.0, 1.0).rotate(quarter), pt(-1.0, 0.0));
    assert_eq!(pt(2.5, -1.5).rotate(quarter), pt(1.5, 2.5));
}

#[test]
fn a_quarter_turn_about_a_pivot() {
    let quarter = Rotation::new(Fixed::from_raw(QUARTER_TURN_RAW), pt(1.0, 1.0));
    assert_eq!(pt(2.0, 1.0).rotate(quarter), pt(1.0, 2.0));
    assert_eq!(pt(1.0, 1.0).rotate(quarter), pt(1.0, 1.0));
    assert_eq!(pt(3.0, 4.0).rotate(quarter), pt(-2.0, 3.0));
}

#[test]
fn rotation_holds_its_matrix_and_its_pivot() {
    let r = Rotation::new(fx(0.3), pt(1.0, 2.0));
    assert_eq!(r.rotation_matrix, new_rotation_matrix(fx(0.3)));
    assert_eq!(r.origin, pt(1.0, 2.0));
}

#[test]
fn rotating_follows_the_real_rotation() {
    let angle = 0.83f64;
    let p = pt(3.0, -2.0).rotate(Rotation::new(fx(angle), pt(1.0, 0.5)));
    let (dx, dy) = (2.0f64, -2.5f64);
    let x = 1.0 + angle.cos() * dx - angle.sin() * dy;
    let y = 0.5 + angle.sin() * dx + angle.cos() * dy;
    assert!(near(p, x, y, 1e-8));
}

#[test]
fn rotating_there_and_back_returns_the_point() {
    let pivots = [(0.0, 0.0), (13.0, 4.3), (-7.5, 21.0)];
    let points = [(1.0, 0.0), (12.2, 6.0), (-3.0, -8.0), (26.6, 26.6)];
    let mut angle = -3.1f64;
    while angle < 3.2 {
        for (ox, oy) in pivots {
            for (x, y) in points {
                let there = Rotation::new(fx(angle), pt(ox, oy));
                let by_negated_angle = Rotation::new(fx(angle).neg(), pt(ox, oy));
                let by_inverse = Rotation {
                    rotation_matrix: there.rotation_matrix.inverse().unwrap(),
                    origin: pt(ox, oy),
                };
                let moved = pt(x, y).rotate(there);
                assert!(near(moved.rotate(by_negated_angle), x, y, 1e-7));
                assert!(near(moved.rotate(by_inverse), x, y, 1e-7));
            }
        }
        angle += 0.173;
    }
}

#[test]
fn rotating_keeps_the_distance_to_the_pivot() {
    let pivot = pt(2.0, 3.0);
    let p = pt(6.5, -1.25);
    let before = to_float(distance_of(p, pivot));
    let mut angle = 0.0f64;
    while angle < 6.3 {
        let moved = p.rotate(Rotation::new(fx(angle), pivot));
        assert!((to_float(distance_of(moved, pivot)) - before).abs() < 1e-8);
        angle += 0.05;
    }
}

#[test]
fn forward_without_a_turn_moves_up() {
    assert_eq!(pt(1.0, 2.0).forward(fx(3.0), Matrix::eye()), pt(1.0, 5.0));
    assert_eq!(pt(1.0, 2.0).forward(fx(-3.0), Matrix::eye()), pt(1.0, -1.0));
    assert_eq!(pt(1.0, 2.0).forward(fx(0.0), Matrix::eye()), pt(1.0, 2.0));
}

#[test]
fn forward_after_a_quarter_turn_moves_left() {
    let quarter = new_rotation_matrix(Fixed::from_raw(QUARTER_TURN_RAW));
    assert_eq!(pt(1.0, 2.0).forward(fx(3.0), quarter), pt(-2.0, 2.0));
    assert_eq!(pt(1.0, 2.0).forward(fx(-3.0), quarter), pt(4.0, 2.0));
}

#[test]
fn forward_moves_by_the_distance_along_the_heading() {
    let heading = 0.6f64;
    let start = pt(4.0, -2.0);
    let end = start.forward(fx(2.5), new_rotation_matrix(fx(heading)));
    assert!(near(end, 4.0 - 2.5 * heading.sin(), -2.0 + 2.5 * heading.cos(), 1e-8));
    assert!((to_float(distance_of(start, end)) - 2.5).abs() < 1e-8);
}

#[test]
fn forward_displaces_every_point_alike() {
    let m = new_rotation_matrix(fx(1.1));
    let d = fx(0.77);
    let step = pt(0.0, 0.0).forward(d, m).sub(pt(0.0, 0.0));
    for (x, y) in [(1.0, 2.0), (-13.3, 0.01), (26.0, 26.0)] {
        let p = pt(x, y);
        assert_eq!(p.forward(d, m), p.add(step));
    }
}

#[test]
fn rotating_there_and_back_returns_to_within_three_raw_units_and_a_part() {
    let one = 1i128 << 32;
    let pivot = pt(13.0, -4.5);
    for raw in (-30_000_000_000i64..30_000_000_000).step_by(123_456_789) {
        let angle = Fixed::from_raw(raw);
        for (x, y) in [(13.0, -4.5), (14.0, -4.5), (-2000.0, 3000.5), (1.0e6, -2.0e6)] {
            let p = pt(x, y);
            let r = p.rotate(Rotation::new(angle, pivot)).rotate(Rotation::new(angle.neg(), pivot));
            let dx = (p.x.raw() - pivot.x.raw()) as i128;
            let dy = (p.y.raw() - pivot.y.raw()) as i128;
            let ex = (r.x.raw() - p.x.raw()) as i128;
            let ey = (r.y.raw() - p.y.raw()) as i128;
            assert!(one * ex.abs() <= 2 * dx.abs() + 3 * one);
            assert!(one * ey.abs() <= 2 * dy.abs() + 3 * one);
        }
    }
}

#[test]
fn rotating_nearly_keeps_the_squared_distance() {
    let one = 1i128 << 32;
    let pivot = pt(-7.0, 2.0);
    let pairs = [((1.0, 2.0), (1.0, 4.795)), ((0.0, 0.0), (1.58, 0.0)), ((-300.0, 12.0), (250.0, -90.0))];
    for raw in (-30_000_000_000i64..30_000_000_000).step_by(123_456_789) {
        let rotation = Rotation::new(Fixed::from_raw(raw), pivot);
        for ((px, py), (qx, qy)) in pairs {
            let (p, q) = (pt(px, py), pt(qx, qy));
            let (p_new, q_new) = (p.rotate(rotation), q.rotate(rotation));
            let wx = (p.x.raw() - q.x.raw()) as i128;
            let wy = (p.y.raw() - q.y.raw()) as i128;
            let vx = (p_new.x.raw() - q_new.x.raw()) as i128;
            let vy = (p_new.y.raw() - q_new.y.raw()) as i128;
            let before = wx * wx + wy * wy;
            let after = vx * vx + vy * vy;
            assert!(one * (after - before).abs() <= 2 * before + 8 * one * (wx.abs() + wy.abs() + 1));
        }
    }
}
