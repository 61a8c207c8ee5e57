//! The rigid rectangle: a centre, two extents, an orientation and something
//! to paint it with.
use crate::error::CarError;
use crate::fixed::Fixed;
use crate::geometry::{point2, Point, Rotation};
use crate::linear_algebra::Matrix;
use vstd::prelude::*;

verus! {

/// The raw value of the number two.
pub const TWO_RAW: i64 = 0x2_0000_0000;

/// A colour, by its red, green and blue parts.
#[derive(Clone, Copy, Debug, PartialEq, Eq, Structural)]
pub struct Color {
    pub r: u8,
    pub g: u8,
    pub b: u8,
}

/// What a rectangle is painted with. The geometry never looks inside.
#[derive(Debug)]
pub enum Source {
    /// One colour all over.
    Color(Color),
    /// A picture, one word per pixel, row by row.
    Image(Vec<u32>),
}

/// A rectangle that keeps its shape while it moves and turns.
///
/// `width` and `height` are the extents of the rectangle before any turn;
/// `rotation_matrix` is the product of all turns applied so far.
#[derive(Debug)]
pub struct Rect {
    pub origin: Point,
    pub width: Fixed,
    pub height: Fixed,
    pub rotation_matrix: Matrix,
    pub source: Source,
}

/// Half of `v`.
pub open spec fn half_spec(v: Fixed) -> Fixed {
    v.div_spec(Fixed { raw: TWO_RAW })
}

/// Half of `v`.
pub fn half(v: Fixed) -> (r: Fixed)
    ensures
        r == half_spec(v),
{
    v.div(Fixed::from_raw(TWO_RAW))
}

impl Source {
    /// Two sources paint alike: with the same colour, or with the same
    /// pixels.
    pub open spec fn alike(self, other: Source) -> bool {
        match (self, other) {
            (Source::Color(a), Source::Color(b)) => a == b,
            (Source::Image(a), Source::Image(b)) => a@ == b@,
            _ => false,
        }
    }
}

impl Rect {
    /// Both extents are positive.
    pub open spec fn wf(self) -> bool {
        self.width@ > 0 && self.height@ > 0
    }

    /// Two rectangles are alike: they have the same centre, extents and
    /// orientation, and are painted alike.
    pub open spec fn alike(self, other: Rect) -> bool {
        &&& self.origin == other.origin
        &&& self.width == other.width
        &&& self.height == other.height
        &&& self.rotation_matrix == other.rotation_matrix
        &&& self.source.alike(other.source)
    }

    /// The rectangle as it is first made: upright, centred at `origin`.
    pub open spec fn new_spec(origin: Point, width: Fixed, height: Fixed, source: Source) -> Rect {
        Rect { origin, width, height, rotation_matrix: Matrix::eye_spec(), source }
    }

    /// The rotation that carries the upright rectangle into its orientation.
    pub open spec fn own_rotation(self) -> Rotation {
        Rotation { rotation_matrix: self.rotation_matrix, origin: self.origin }
    }

    /// The corner that lies at the left (`left`) or right, top (`top`) or
    /// bottom of the upright rectangle, turned with the rectangle about its
    /// centre.
    pub open spec fn corner_spec(self, left: bool, top: bool) -> Point {
        let x = if left {
            self.origin.x.sub_spec(half_spec(self.width))
        } else {
            self.origin.x.add_spec(half_spec(self.width))
        };
        let y = if top {
            self.origin.y.add_spec(half_spec(self.height))
        } else {
            self.origin.y.sub_spec(half_spec(self.height))
        };
        (Point { x, y }).rotate_spec(self.own_rotation())
    }

    /// The rectangle after a further turn in place.
    pub open spec fn rotate_self_spec(self, rotation_matrix: Matrix) -> Rect {
        Rect { rotation_matrix: rotation_matrix.mul_spec(self.rotation_matrix), ..self }
    }

    /// The rectangle carried along by a rotation about some pivot.
    pub open spec fn rotate_spec(self, rotation: Rotation) -> Rect {
        Rect {
            origin: self.origin.rotate_spec(rotation),
            rotation_matrix: rotation.rotation_matrix.mul_spec(self.rotation_matrix),
            ..self
        }
    }

    /// The rectangle moved straight on, its orientation kept.
    pub open spec fn forward_spec(self, distance: Fixed, rotation_matrix: Matrix) -> Rect {
        Rect { origin: self.origin.forward_spec(distance, rotation_matrix), ..self }
    }

    /// An upright rectangle centred at `origin`. Both extents must be
    /// positive: otherwise the result is `InvalidDimension`.
    pub fn new(origin: Point, width: Fixed, height: Fixed, source: Source) -> (r: Result<
        Rect,
        CarError,
    >)
        ensures
            width@ > 0 && height@ > 0 ==> r == Ok::<Rect, CarError>(
                Rect::new_spec(origin, width, height, source),
            ),
            !(width@ > 0 && height@ > 0) ==> r == Err::<Rect, CarError>(CarError::InvalidDimension),
            r is Ok ==> r->Ok_0.wf(),
    {
        if width.is_positive() && height.is_positive() {
            Ok(Rect { origin, width, height, rotation_matrix: Matrix::eye(), source })
        } else {
            Err(CarError::InvalidDimension)
        }
    }

    /// The left top corner.
    pub fn lt(&self) -> (r: Point)
        ensures
            r == self.corner_spec(true, true),
    {
        point2(self.origin.x.sub(half(self.width)), self.origin.y.add(half(self.height))).rotate(
            Rotation { rotation_matrix: self.rotation_matrix, origin: self.origin },
        )
    }

    /// The right top corner.
    pub fn rt(&self) -> (r: Point)
        ensures
            r == self.corner_spec(false, true),
    {
        point2(self.origin.x.add(half(self.width)), self.origin.y.add(half(self.height))).rotate(
            Rotation { rotation_matrix: self.rotation_matrix, origin: self.origin },
        )
    }

    /// The left bottom corner.
    pub fn lb(&self) -> (r: Point)
        ensures
            r == self.corner_spec(true, false),
    {
        point2(self.origin.x.sub(half(self.width)), self.origin.y.sub(half(self.height))).rotate(
            Rotation { rotation_matrix: self.rotation_matrix, origin: self.origin },
        )
    }

    /// The right bottom corner.
    pub fn rb(&self) -> (r: Point)
        ensures
            r == self.corner_spec(false, false),
    {
        point2(self.origin.x.add(half(self.width)), self.origin.y.sub(half(self.height))).rotate(
            Rotation { rotation_matrix: self.rotation_matrix, origin: self.origin },
        )
    }

    /// The four corners: left top, right top, left bottom, right bottom.
    pub fn corners(&self) -> (r: [Point; 4])
        ensures
            r[0] == self.corner_spec(true, true),
            r[1] == self.corner_spec(false, true),
            r[2] == self.corner_spec(true, false),
            r[3] == self.corner_spec(false, false),
    {
        [self.lt(), self.rt(), self.lb(), self.rb()]
    }

    /// Turns the rectangle in place: `rotation_matrix` is multiplied onto the
    /// orientation from the left. The centre stays.
    pub fn rotate_self(&mut self, rotation_matrix: Matrix)
        ensures
            *final(self) == old(self).rotate_self_spec(rotation_matrix),
    {
        self.rotation_matrix = rotation_matrix.mul(self.rotation_matrix);
    }

    /// Carries the rectangle along a rotation about the rotation's pivot:
    /// the centre moves, and the orientation turns with it.
    pub fn rotate(&mut self, rotation: Rotation)
        ensures
            *final(self) == old(self).rotate_spec(rotation),
    {
        self.origin = self.origin.rotate(rotation);
        self.rotate_self(rotation.rotation_matrix);
    }

    /// Moves the rectangle by `distance` along the direction into which
    /// `rotation_matrix` turns the y axis. The orientation stays.
    pub fn forward(&mut self, distance: Fixed, rotation_matrix: Matrix)
        ensures
            *final(self) == old(self).forward_spec(distance, rotation_matrix),
    {
        self.origin = self.origin.forward(distance, rotation_matrix);
    }
}

} // verus!
