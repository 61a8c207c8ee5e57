use car_kinematics::error::CarError;
use car_kinematics::fixed::Fixed;
use car_kinematics::geometry::{distance_of, new_rotation_matrix, point2, Point, Rotation};
use car_kinematics::linear_algebra::Matrix;
use car_kinematics::rect::{half, Color, Rect, Source};
use car_kinematics::trig::QUARTER_TURN_RAW;

fn fx(x: f64) -> Fixed {
    Fixed::from_raw((x * 4294967296.0).round() as i64)
}

fn to_float(x: Fixed) -> f64 {
    x.raw() as f64 / 4294967296.0
}

fn pt(x: f64, y: f64) -> Point {
    point2(fx(x), fx(y))
}

fn near(p: Point, x: f64, y: f64, tolerance: f64) -> bool {
    (to_float(p.x) - x).abs() < tolerance && (to_float(p.y) - y).abs() < tolerance
}

fn grey() -> Source {
    Source::Color(Color { r: 128, g: 128, b: 128 })
}

fn rect(x: f64, y: f64, w: f64, h: f64) -> Rect {
    Rect::new(pt(x, y), fx(w), fx(h), grey()).unwrap()
}

#[test]
fn half_halves() {
    assert_eq!(half(fx(3.0)), fx(1.5));
    assert_eq!(half(fx(-3.0)), fx(-1.5));
    assert_eq!(half(Fixed::from_raw(3)).raw(), 2);
    assert_eq!(half(Fixed::from_raw(-3)).raw(), -2);
}

#[test]
fn a_new_rectangle_is_upright() {
    let r = Rect::new(pt(1.0, 2.0), fx(4.0), fx(6.0), grey()).unwrap();
    assert_eq!(r.origin, pt(1.0, 2.0));
    assert_eq!(r.width, fx(4.0));
    assert_eq!(r.height, fx(6.0));
    assert_eq!(r.rotation_matrix, Matrix::eye());
    assert!(matches!(r.source, Source::Color(Color { r: 128, g: 128, b: 128 })));
}

#[test]
fn a_new_rectangle_keeps_its_picture() {
    let r = Rect::new(pt(0.0, 0.0), fx(1.0), fx(1.0), Source::Image(vec![1, 2, 3])).unwrap();
    match r.source {
        Source::Image(words) => assert_eq!(words, vec![1, 2, 3]),
        Source::Color(_) => panic!("the picture is lost"),
    }
}

#[test]
fn extents_must_be_positive() {
    for (w, h) in [(0.0, 1.0), (1.0, 0.0), (-1.0, 1.0), (1.0, -1.0), (0.0, 0.0), (-2.0, -3.0)] {
        let r = Rect::new(pt(0.0, 0.0), fx(w), fx(h), grey());
        assert!(matches!(r, Err(CarError::InvalidDimension)), "{} x {}", w, h);
    }
    assert!(Rect::new(pt(0.0, 0.0), Fixed::from_raw(1), Fixed::from_raw(1), grey()).is_ok());
}

#[test]
fn corners_of_an_upright_rectangle() {
    let r = rect(1.0, 2.0, 4.0, 6.0);
    assert_eq!(r.lt(), pt(-1.0, 5.0));
    assert_eq!(r.rt(), pt(3.0, 5.0));
    assert_eq!(r.lb(), pt(-1.0, -1.0));
    assert_eq!(r.rb(), pt(3.0, -1.0));
    assert_eq!(r.corners(), [pt(-1.0, 5.0), pt(3.0, 5.0), pt(-1.0, -1.0), pt(3.0, -1.0)]);
}

#[test]
fn corners_turn_with_the_rectangle() {
    let mut r = rect(1.0, 2.0, 4.0, 6.0);
    r.rotate_self(new_rotation_matrix(Fixed::from_raw(QUARTER_TURN_RAW)));
    assert_eq!(r.origin, pt(1.0, 2.0));
    assert_eq!(r.lt(), pt(-2.0, 0.0));
    assert_eq!(r.rt(), pt(-2.0, 4.0));
    assert_eq!(r.lb(), pt(4.0, 0.0));
    assert_eq!(r.rb(), pt(4.0, 4.0));
}

#[test]
fn corners_are_the_centre_plus_the_turned_half_extents() {
    let angle = 0.4f64;
    let mut r = rect(3.0, -1.0, 2.0, 5.0);
    r.rotate_self(new_rotation_matrix(fx(angle)));
    let corner = |sx: f64, sy: f64| {
        let (dx, dy) = (sx * 1.0, sy * 2.5);
        (3.0 + angle.cos() * dx - angle.sin() * dy, -1.0 + angle.sin() * dx + angle.cos() * dy)
    };
    let (x, y) = corner(-1.0, 1.0);
    assert!(near(r.lt(), x, y, 1e-8));
    let (x, y) = corner(1.0, 1.0);
    assert!(near(r.rt(), x, y, 1e-8));
    let (x, y) = corner(-1.0, -1.0);
    assert!(near(r.lb(), x, y, 1e-8));
    let (x, y) = corner(1.0, -1.0);
    assert!(near(r.rb(), x, y, 1e-8));
}

#[test]
fn rotate_self_composes_from_the_left() {
    let a = new_rotation_matrix(fx(0.3));
    let b = new_rotation_matrix(fx(1.1));
    let mut r = rect(0.0, 0.0, 1.0, 1.0);
    r.rotate_self(a);
    assert_eq!(r.rotation_matrix, a.mul(Matrix::eye()));
    r.rotate_self(b);
    assert_eq!(r.rotation_matrix, b.mul(a.mul(Matrix::eye())));
    assert_eq!(r.origin, pt(0.0, 0.0));
    assert_eq!(r.width, fx(1.0));
    assert_eq!(r.height, fx(1.0));
}

#[test]
fn rotate_moves_the_centre_and_turns_the_rectangle() {
    let quarter = Rotation::new(Fixed::from_raw(QUARTER_TURN_RAW), pt(0.0, 0.0));
    let mut r = rect(2.0, 0.0, 1.0, 3.0);
    r.rotate(quarter);
    assert_eq!(r.origin, pt(0.0, 2.0));
    assert_eq!(r.rotation_matrix, quarter.rotation_matrix);
    assert_eq!(r.width, fx(1.0));
    assert_eq!(r.height, fx(3.0));
    assert_eq!(r.lt(), pt(-1.5, 1.5));
    assert_eq!(r.rb(), pt(1.5, 2.5));
}

#[test]
fn rotate_keeps_the_shape() {
    let mut r = rect(5.0, 1.0, 1.837, 4.765);
    let mut angle = 0.1f64;
    while angle < 3.0 {
        r.rotate(Rotation::new(fx(angle), pt(-2.0, 7.0)));
        assert!((to_float(distance_of(r.lt(), r.rt())) - 1.837).abs() < 1e-7);
        assert!((to_float(distance_of(r.lt(), r.lb())) - 4.765).abs() < 1e-7);
        assert!((to_float(distance_of(r.lt(), r.rb())) - to_float(distance_of(r.rt(), r.lb())))
            .abs() < 1e-7);
        angle += 0.37;
    }
}

#[test]
fn forward_moves_only_the_centre() {
    let mut r = rect(1.0, 1.0, 2.0, 2.0);
    let heading = new_rotation_matrix(Fixed::from_raw(QUARTER_TURN_RAW));
    r.forward(fx(4.0), heading);
    assert_eq!(r.origin, pt(-3.0, 1.0));
    assert_eq!(r.rotation_matrix, Matrix::eye());
    assert_eq!(r.width, fx(2.0));
    assert_eq!(r.height, fx(2.0));
    r.forward(fx(-4.0), heading);
    assert_eq!(r.origin, pt(1.0, 1.0));
}

#[test]
fn a_rectangle_turned_there_and_back_nearly_returns() {
    let one = 1i128 << 32;
    let pivot = pt(-3.0, 11.5);
    let mut start = rect(5.0, 1.0, 1.837, 4.765);
    start.rotate_self(new_rotation_matrix(fx(0.6)));
    let near = |after: Fixed, before: Fixed| {
        one * ((after.raw() - before.raw()) as i128).abs()
            <= 2 * (before.raw() as i128).abs() + 3 * one
    };
    for raw in (-30_000_000_000i64..30_000_000_000).step_by(987_654_321) {
        let angle = Fixed::from_raw(raw);
        let mut r = rect(5.0, 1.0, 1.837, 4.765);
        r.rotate_self(new_rotation_matrix(fx(0.6)));
        r.rotate(Rotation::new(angle, pivot));
        r.rotate(Rotation::new(angle.neg(), pivot));
        assert_eq!(r.width, start.width);
        assert_eq!(r.height, start.height);
        assert!(near(r.origin.x.sub(pivot.x), start.origin.x.sub(pivot.x)));
        assert!(near(r.origin.y.sub(pivot.y), start.origin.y.sub(pivot.y)));
        assert!(near(r.rotation_matrix.m11, start.rotation_matrix.m11));
        assert!(near(r.rotation_matrix.m12, start.rotation_matrix.m12));
        assert!(near(r.rotation_matrix.m21, start.rotation_matrix.m21));
        assert!(near(r.rotation_matrix.m22, start.rotation_matrix.m22));
        let half_extents = (half(start.width).raw() + half(start.height).raw()) as i128;
        let dx = ((start.origin.x.raw() - pivot.x.raw()) as i128).abs();
        let dy = ((start.origin.y.raw() - pivot.y.raw()) as i128).abs();
        for (after, before) in r.corners().iter().zip(start.corners().iter()) {
            let ex = ((after.x.raw() - before.x.raw()) as i128).abs();
            let ey = ((after.y.raw() - before.y.raw()) as i128).abs();
            assert!(one * ex <= 2 * dx + 7 * half_extents + 5 * one);
            assert!(one * ey <= 2 * dy + 7 * half_extents + 5 * one);
        }
    }
}
