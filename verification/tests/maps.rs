use car_kinematics::car::Car;
use car_kinematics::error::CarError;
use car_kinematics::fixed::Fixed;
use car_kinematics::geometry::{point2, Point};
use car_kinematics::linear_algebra::Matrix;
use car_kinematics::map::parallel_parking::{PARKING_LENGTH, PARKING_WIDTH, ROAD_WIDTH};
use car_kinematics::map::RIGHT_ANGLE_TURN;
use car_kinematics::rect::{Color, Source};
use car_kinematics::{CarMap, ParallelParking, Picture, RightAngleTurn, ViewBox};

fn fx(x: f64) -> Fixed {
    Fixed::from_raw((x * 4294967296.0).round() as i64)
}

fn to_float(x: Fixed) -> f64 {
    x.raw() as f64 / 4294967296.0
}

fn pt(x: f64, y: f64) -> Point {
    point2(fx(x), fx(y))
}

fn near(p: Point, x: f64, y: f64, tolerance: f64) -> bool {
    (to_float(p.x) - x).abs() < tolerance && (to_float(p.y) - y).abs() < tolerance
}

/// A red bar twice as wide as high, drawn 30 by 15 pixels.
fn logo() -> Picture {
    let mut raster = Vec::new();
    for _ in 0..30 * 15 {
        raster.extend_from_slice(&[0xff, 0x00, 0x00, 0xff]);
    }
    Picture { width: fx(100.0), height: fx(50.0), raster }
}

/// Finds the picture with the id `car` on a map, as a caller of the
/// library does.
fn car_box(map: &str) -> Option<ViewBox> {
    let tree = usvg::Tree::from_str(map, &usvg::Options::default().to_ref()).ok()?;
    let node = tree.node_by_id("car")?;
    let kind = node.borrow();
    match &*kind {
        usvg::NodeKind::Image(image) => {
            let r = image.view_box.rect;
            Some(ViewBox {
                x: Fixed::from_double_bits(r.x().to_bits())?,
                y: Fixed::from_double_bits(r.y().to_bits())?,
                width: Fixed::from_double_bits(r.width().to_bits())?,
                height: Fixed::from_double_bits(r.height().to_bits())?,
            })
        }
        _ => None,
    }
}

fn on_any_map(map: &dyn CarMap) -> Result<Car, CarError> {
    map.car(&logo())
}

#[test]
fn the_right_angle_turn_holds_its_map() {
    let map = RightAngleTurn::new();
    assert_eq!(map.svg, RIGHT_ANGLE_TURN);
    assert!(map.svg.starts_with("<svg"));
    assert!(map.svg.contains("id='car'"));
}

#[test]
fn the_right_angle_turn_shows_where_the_car_starts() {
    let found = car_box(RightAngleTurn::new().svg).unwrap();
    let want = ViewBox { x: fx(362.445), y: fx(600.0), width: fx(55.11), height: fx(142.95) };
    assert_eq!(found, want);
    assert!(car_box("<svg xmlns='http://www.w3.org/2000/svg' width='8' height='8'><rect width='8' height='8'/></svg>").is_none());
}

#[test]
fn the_start_is_the_pictures_centre_in_metres_from_the_bottom() {
    let start = RightAngleTurn::start(fx(300.0), fx(600.0), fx(60.0), fx(120.0));
    assert!(near(start, 330.0 / 30.0, 800.0 / 30.0 - 660.0 / 30.0, 1e-9));
    let start = RightAngleTurn::start(fx(0.0), fx(0.0), fx(30.0), fx(30.0));
    assert!(near(start, 0.5, 800.0 / 30.0 - 0.5, 1e-9));
}

#[test]
fn the_right_angle_turn_puts_the_car_on_its_picture() {
    let map = RightAngleTurn::new();
    let start = car_box(map.svg).unwrap();
    let car = map.car(&start, &logo()).unwrap();
    assert!(near(car.body.origin, 390.0 / 30.0, (800.0 - 671.475) / 30.0, 1e-8));
    assert_eq!(car.body.rotation_matrix, Matrix::eye());
    assert_eq!(car.steer_angle(), 0);
    assert_eq!(
        car.body.origin,
        RightAngleTurn::start(fx(362.445), fx(600.0), fx(55.11), fx(142.95))
    );
    let elsewhere = ViewBox { x: fx(0.0), y: fx(740.0), width: fx(60.0), height: fx(60.0) };
    let car = map.car(&elsewhere, &logo()).unwrap();
    assert!(near(car.body.origin, 1.0, 800.0 / 30.0 - 770.0 / 30.0, 1e-8));
}

#[test]
fn a_map_needs_a_logo_drawn_at_its_extents() {
    let undrawn = Picture { width: fx(100.0), height: fx(50.0), raster: Vec::new() };
    let start = ViewBox { x: fx(362.445), y: fx(600.0), width: fx(55.11), height: fx(142.95) };
    assert!(matches!(RightAngleTurn::new().car(&start, &undrawn), Err(CarError::AssetLoadError)));
    assert!(matches!(ParallelParking::new().car(&undrawn), Err(CarError::AssetLoadError)));
    let flat = Picture { width: fx(100.0), height: fx(0.0), raster: Vec::new() };
    assert!(matches!(ParallelParking::new().car(&flat), Err(CarError::InvalidDimension)));
}

#[test]
fn the_parking_map_has_a_road_and_a_parking_space() {
    assert_eq!(Fixed::from_raw(ROAD_WIDTH).raw(), 3 * fx(1.837).raw());
    assert_eq!(Fixed::from_raw(PARKING_LENGTH), fx(6.7));
    assert_eq!(Fixed::from_raw(PARKING_WIDTH), fx(3.0));
    let map = ParallelParking::new();
    assert!(near(map.road.origin, 400.0 / 30.0, 400.0 / 30.0, 1e-9));
    assert_eq!(map.road.width, Fixed::from_raw(ROAD_WIDTH));
    assert_eq!(map.road.height, fx(800.0 / 30.0));
    assert_eq!(map.road.rotation_matrix, Matrix::eye());
    assert!(matches!(map.road.source, Source::Color(Color { r: 255, g: 255, b: 255 })));
    assert!(near(
        map.parking_space.origin,
        400.0 / 30.0 + 1.837 * 1.5 + 1.5,
        400.0 / 30.0,
        1e-9
    ));
    assert_eq!(map.parking_space.width, fx(3.0));
    assert_eq!(map.parking_space.height, fx(6.7));
    assert!(matches!(map.parking_space.source, Source::Color(Color { r: 255, g: 255, b: 255 })));
    // the parking space begins where the road ends
    assert!((to_float(map.parking_space.lt().x) - to_float(map.road.rt().x)).abs() < 1e-9);
}

#[test]
fn the_parking_map_puts_the_car_on_the_road() {
    let map = ParallelParking::new();
    let car = map.car(&logo()).unwrap();
    assert_eq!(car.body.origin, pt(0.0, 4.765).translate(
        car_kinematics::linear_algebra::Vector2D::new_from_x_and_y(map.road.origin.x, fx(0.0))
    ));
    assert_eq!(car.body.rotation_matrix, Matrix::eye());
    assert_eq!(car.steer_angle(), 0);
}

#[test]
fn every_map_gives_a_car() {
    assert!(on_any_map(&ParallelParking::new()).is_ok());
}
