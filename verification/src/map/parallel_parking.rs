//! The map for parallel parking: a road up the middle of the map and a
//! parking space at its right side.
use crate::car::{can_start_at, Car, CAR_HEIGHT, CAR_WIDTH, MAP_HEIGHT, MAP_WIDTH};
use crate::error::CarError;
use crate::fixed::Fixed;
use crate::geometry::{point2, Point};
use crate::logo::Picture;
use crate::map::CarMap;
use crate::rect::{half, half_spec, Color, Rect, Source};
use vstd::prelude::*;

verus! {

/// The road's width: three cars side by side (raw).
pub const ROAD_WIDTH: i64 = CAR_WIDTH * 3;

/// The parking space's length, 6.7 m (raw).
pub const PARKING_LENGTH: i64 = 28776280883;

/// The parking space's width, 3 m (raw).
pub const PARKING_WIDTH: i64 = 12884901888;

/// The map for parallel parking.
pub struct ParallelParking {
    pub road: Rect,
    pub parking_space: Rect,
}

/// The colour of the road and the parking space.
pub open spec fn road_color() -> Color {
    Color { r: 0xff, g: 0xff, b: 0xff }
}

impl ParallelParking {
    /// The road: in the middle of the map, over its whole height.
    pub open spec fn road_spec() -> Rect {
        Rect::new_spec(
            Point {
                x: half_spec(Fixed { raw: MAP_WIDTH }),
                y: half_spec(Fixed { raw: MAP_HEIGHT }),
            },
            Fixed { raw: ROAD_WIDTH },
            Fixed { raw: MAP_HEIGHT },
            Source::Color(road_color()),
        )
    }

    /// The parking space: at the road's right edge, half-way up the map.
    pub open spec fn parking_space_spec() -> Rect {
        let road = ParallelParking::road_spec();
        Rect::new_spec(
            Point {
                x: road.origin.x.add_spec(half_spec(Fixed { raw: ROAD_WIDTH })).add_spec(
                    half_spec(Fixed { raw: PARKING_WIDTH }),
                ),
                y: road.origin.y,
            },
            Fixed { raw: PARKING_WIDTH },
            Fixed { raw: PARKING_LENGTH },
            Source::Color(road_color()),
        )
    }

    /// Where the car starts: in the middle of the road, a car's length
    /// above the map's bottom.
    pub open spec fn start_spec(self) -> Point {
        Point { x: self.road.origin.x, y: Fixed { raw: CAR_HEIGHT } }
    }

    /// The map.
    pub fn new() -> (r: Self)
        ensures
            r.road == ParallelParking::road_spec(),
            r.parking_space == ParallelParking::parking_space_spec(),
            r.road.wf(),
            r.parking_space.wf(),
    {
        let color: Color = Color { r: 0xff, g: 0xff, b: 0xff };
        let road_width: Fixed = Fixed::from_raw(ROAD_WIDTH);
        let parking_width: Fixed = Fixed::from_raw(PARKING_WIDTH);
        let road: Rect = Rect::new(
            point2(half(Fixed::from_raw(MAP_WIDTH)), half(Fixed::from_raw(MAP_HEIGHT))),
            road_width,
            Fixed::from_raw(MAP_HEIGHT),
            Source::Color(color),
        ).unwrap();
        let parking_space: Rect = Rect::new(
            point2(road.origin.x.add(half(road_width)).add(half(parking_width)), road.origin.y),
            parking_width,
            Fixed::from_raw(PARKING_LENGTH),
            Source::Color(color),
        ).unwrap();
        ParallelParking { road, parking_space }
    }
}

impl CarMap for ParallelParking {
    /// The car on its start, heading up the road. The errors are those of
    /// [`Car::new`].
    fn car(&self, logo: &Picture) -> (r: Result<Car, CarError>)
        ensures
            Car::is_built(r, self.start_spec(), Fixed { raw: 0 }, *logo),
            r is Ok ==> r->Ok_0.wf() && r->Ok_0.config_ok(),
            r == Err::<Car, CarError>(CarError::ConfigurationError) ==> !can_start_at(
                self.start_spec(),
            ),
    {
        Car::new(point2(self.road.origin.x, Fixed::from_raw(CAR_HEIGHT)), Fixed::zero(), logo)
    }
}

} // verus!
