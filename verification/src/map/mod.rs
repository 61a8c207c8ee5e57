//! Maps: where a car starts.
use crate::car::{can_start_at, Car, MAP_HEIGHT, SCALE};
use crate::error::CarError;
use crate::fixed::Fixed;
use crate::geometry::{point2, Point};
use crate::logo::Picture;
use crate::rect::{half, half_spec};
use vstd::prelude::*;

pub mod parallel_parking;

pub use parallel_parking::ParallelParking;

verus! {

/// The map of a right-angle turn: a lane that leads up the map and turns
/// off to the right. The picture with the id `car` marks where the car starts.
pub const RIGHT_ANGLE_TURN: &'static str =
    "<svg xmlns='http://www.w3.org/2000/svg' xmlns:xlink='http://www.w3.org/1999/xlink' width='800' height='800' viewBox='0 0 800 800'><rect width='800' height='800' fill='#4a7c3a'/><path d='M300 800 L300 300 L800 300 L800 480 L480 480 L480 800 Z' fill='#555555'/><image id='car' x='362.445' y='600' width='55.11' height='142.95' xlink:href='data:image/png;base64,iVBORw0KGgo='/></svg>";

/// A map puts a car on its start. `logo` is the picture of the car's logo,
/// drawn at the extents of [`Car::logo_extents`].
pub trait CarMap {
    fn car(&self, logo: &Picture) -> Result<Car, CarError>;
}

/// The map of a right-angle turn, as an SVG document. Where the car starts
/// is for whoever reads the document to find: it is the place of the
/// picture with the id `car`.
pub struct RightAngleTurn {
    pub svg: &'static str,
}

/// The place of a picture on a map, in pixels: its left top corner, with y
/// counted downwards from the map's top, its width and its height.
#[derive(Clone, Copy, Debug, PartialEq, Eq, Structural)]
pub struct ViewBox {
    pub x: Fixed,
    pub y: Fixed,
    pub width: Fixed,
    pub height: Fixed,
}

impl RightAngleTurn {
    /// Where a car starts whose picture on the map has its left top corner
    /// at (`x`, `y`) and is `width` wide and `height` high, all in pixels
    /// and with y counted downwards from the map's top: at the picture's
    /// centre, in metres and with y counted upwards from the map's bottom.
    pub open spec fn start_spec(x: Fixed, y: Fixed, width: Fixed, height: Fixed) -> Point {
        Point {
            x: x.add_spec(half_spec(width)).div_spec(Fixed { raw: SCALE }),
            y: (Fixed { raw: MAP_HEIGHT }).sub_spec(
                y.add_spec(half_spec(height)).div_spec(Fixed { raw: SCALE }),
            ),
        }
    }

    /// The map of the right-angle turn.
    pub fn new() -> (r: Self)
        ensures
            r.svg == RIGHT_ANGLE_TURN,
    {
        Self { svg: RIGHT_ANGLE_TURN }
    }

    /// Where a car starts whose picture on the map has its left top corner
    /// at (`x`, `y`) and is `width` wide and `height` high, in pixels.
    pub fn start(x: Fixed, y: Fixed, width: Fixed, height: Fixed) -> (r: Point)
        ensures
            r == RightAngleTurn::start_spec(x, y, width, height),
    {
        point2(
            x.add(half(width)).div(Fixed::from_raw(SCALE)),
            Fixed::from_raw(MAP_HEIGHT).sub(y.add(half(height)).div(Fixed::from_raw(SCALE))),
        )
    }
}

impl RightAngleTurn {
    /// The car on its start, heading up the map. `car_box` is the place of
    /// the picture with the id `car` on the map; the car starts at its
    /// centre. The errors are those of [`Car::new`].
    pub fn car(&self, car_box: &ViewBox, logo: &Picture) -> (r: Result<Car, CarError>)
        ensures
            Car::is_built(
                r,
                RightAngleTurn::start_spec(car_box.x, car_box.y, car_box.width, car_box.height),
                Fixed { raw: 0 },
                *logo,
            ),
            r is Ok ==> r->Ok_0.wf() && r->Ok_0.config_ok(),
            r == Err::<Car, CarError>(CarError::ConfigurationError) ==> !can_start_at(
                RightAngleTurn::start_spec(car_box.x, car_box.y, car_box.width, car_box.height),
            ),
    {
        let origin: Point = RightAngleTurn::start(
            car_box.x,
            car_box.y,
            car_box.width,
            car_box.height,
        );
        Car::new(origin, Fixed::zero(), logo)
    }
}

} // verus!
