//! Rigid-body geometry and Ackermann steering kinematics of a car, on
//! fixed-point numbers.
pub mod car;
pub mod error;
pub mod fixed;
pub mod geometry;
pub mod ieee;
pub mod linear_algebra;
pub mod logo;
pub mod map;
pub mod rect;
pub mod rounding;
pub mod trig;
pub mod turns;

pub use car::Car;
pub use geometry::Point;
pub use logo::Picture;
pub use map::{CarMap, ParallelParking, RightAngleTurn, ViewBox};
pub use rect::Rect;
