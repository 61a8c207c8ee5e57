//! Points, and rotations about an arbitrary pivot.
use crate::fixed::{Fixed, MAX_RAW, MIN_RAW};
use crate::linear_algebra::{Matrix, Vector2D};
use crate::trig::{cos_spec, lemma_sin_cos_range, lemma_sin_cos_symmetry, sin_cos, sin_spec};
use vstd::prelude::*;
use vstd::std_specs::convert::FromSpecImpl;

verus! {

/// A position on the map, in metres.
#[derive(Clone, Copy, Debug, PartialEq, Eq, Structural)]
pub struct Point {
    pub x: Fixed,
    pub y: Fixed,
}

/// A rotation: what turns, and about which pivot.
#[derive(Clone, Copy, Debug, PartialEq, Eq, Structural)]
pub struct Rotation {
    pub rotation_matrix: Matrix,
    pub origin: Point,
}

/// The matrix that turns by `angle`, counterclockwise:
/// ```text
/// | cos  -sin |
/// | sin   cos |
/// ```
pub open spec fn rotation_matrix_spec(angle: Fixed) -> Matrix {
    Matrix {
        m11: cos_spec(angle),
        m12: sin_spec(angle).neg_spec(),
        m21: sin_spec(angle),
        m22: cos_spec(angle),
    }
}

/// The distance between two points: the root of the sum of the squared
/// differences of their coordinates.
pub open spec fn distance_spec(p: Point, q: Point) -> Fixed {
    let a = p.sub_spec(q);
    a.x.mul_spec(a.x).add_spec(a.y.mul_spec(a.y)).sqrt_spec()
}

/// The step that a move by `distance` makes along the direction into which
/// `rotation_matrix` turns the y axis.
pub open spec fn heading_step(distance: Fixed, rotation_matrix: Matrix) -> Vector2D {
    rotation_matrix.mul_vec_spec(Vector2D { x: Fixed { raw: 0 }, y: distance })
}

/// Turning by the negated angle is the transposed turn: the matrix of
/// `-angle` is the matrix of `angle` mirrored at its diagonal. (The smallest
/// value has no negation.)
pub proof fn lemma_rotation_matrix_of_negated_angle(angle: Fixed)
    requires
        angle.raw > MIN_RAW,
    ensures
        rotation_matrix_spec(angle.neg_spec()) == rotation_matrix_spec(angle).transpose_spec(),
{
    lemma_sin_cos_symmetry(angle);
    lemma_sin_cos_range(angle);
}

/// Moving a point forward is a translation: wherever the point lies, it is
/// displaced by `heading_step(distance, rotation_matrix)`, so long as
/// `distance` above the point is still a representable position.
pub proof fn lemma_forward_is_translation(p: Point, distance: Fixed, rotation_matrix: Matrix)
    requires
        MIN_RAW <= p.y@ + distance@ <= MAX_RAW,
    ensures
        p.forward_spec(distance, rotation_matrix) == p.add_spec(
            heading_step(distance, rotation_matrix),
        ),
{
    reveal(Fixed::mul_spec);
    let above = Point { x: p.x, y: p.y.add_spec(distance) };
    assert(above.sub_spec(p) == Vector2D { x: Fixed { raw: 0 }, y: distance });
}

/// Two points that move forward by the same distance along the same
/// heading keep their displacement from each other, and so their distance,
/// so long as neither leaves the representable positions.
pub proof fn lemma_forward_keeps_distance(
    p: Point,
    q: Point,
    distance: Fixed,
    rotation_matrix: Matrix,
)
    requires
        MIN_RAW <= p.y@ + distance@ <= MAX_RAW,
        MIN_RAW <= q.y@ + distance@ <= MAX_RAW,
        MIN_RAW <= p.x@ + heading_step(distance, rotation_matrix).x@ <= MAX_RAW,
        MIN_RAW <= p.y@ + heading_step(distance, rotation_matrix).y@ <= MAX_RAW,
        MIN_RAW <= q.x@ + heading_step(distance, rotation_matrix).x@ <= MAX_RAW,
        MIN_RAW <= q.y@ + heading_step(distance, rotation_matrix).y@ <= MAX_RAW,
    ensures
        p.forward_spec(distance, rotation_matrix).sub_spec(
            q.forward_spec(distance, rotation_matrix),
        ) == p.sub_spec(q),
        distance_spec(
            p.forward_spec(distance, rotation_matrix),
            q.forward_spec(distance, rotation_matrix),
        ) == distance_spec(p, q),
{
    lemma_forward_is_translation(p, distance, rotation_matrix);
    lemma_forward_is_translation(q, distance, rotation_matrix);
}

/// The matrix that turns by `angle` radians, counterclockwise.
pub fn new_rotation_matrix(angle: Fixed) -> (r: Matrix)
    ensures
        r == rotation_matrix_spec(angle),
{
    let (s, c): (Fixed, Fixed) = sin_cos(angle);
    Matrix::new(c, s.neg(), s, c)
}

/// The point with the given coordinates.
pub fn point2(x: Fixed, y: Fixed) -> (r: Point)
    ensures
        r == (Point { x, y }),
{
    Point { x, y }
}

/// The distance between two points.
pub fn distance_of(x: Point, y: Point) -> (r: Fixed)
    ensures
        r == distance_spec(x, y),
        r@ >= 0,
{
    let a: Vector2D = x.sub(y);
    a.x().mul(a.x()).add(a.y().mul(a.y())).sqrt()
}

impl Point {
    /// The displacement that leads from `rhs` to `self`.
    pub open spec fn sub_spec(self, rhs: Point) -> Vector2D {
        Vector2D { x: self.x.sub_spec(rhs.x), y: self.y.sub_spec(rhs.y) }
    }

    /// The point that `rhs` leads to from `self`.
    pub open spec fn add_spec(self, rhs: Vector2D) -> Point {
        Point { x: self.x.add_spec(rhs.x), y: self.y.add_spec(rhs.y) }
    }

    /// The point turned about the rotation's pivot: the displacement from
    /// the pivot is multiplied by the matrix and added to the pivot again.
    pub open spec fn rotate_spec(self, rotation: Rotation) -> Point {
        rotation.origin.add_spec(rotation.rotation_matrix.mul_vec_spec(self.sub_spec(rotation.origin)))
    }

    /// The point moved by `distance` along the direction into which
    /// `rotation_matrix` turns the y axis: the point `distance` above `self`
    /// is turned about `self`.
    pub open spec fn forward_spec(self, distance: Fixed, rotation_matrix: Matrix) -> Point {
        (Point { x: self.x, y: self.y.add_spec(distance) }).rotate_spec(
            Rotation { rotation_matrix, origin: self },
        )
    }

    /// The displacement that leads from `rhs` to `self`.
    pub fn sub(self, rhs: Point) -> (r: Vector2D)
        ensures
            r == self.sub_spec(rhs),
    {
        Vector2D::from(self).sub(Vector2D::from(rhs))
    }

    /// The point that `rhs` leads to from `self`.
    pub fn add(self, rhs: Vector2D) -> (r: Point)
        ensures
            r == self.add_spec(rhs),
    {
        Point::from(Vector2D::from(self).add(rhs))
    }

    /// Turns the point about the rotation's pivot.
    pub fn rotate(&self, rotation: Rotation) -> (r: Point)
        ensures
            r == self.rotate_spec(rotation),
    {
        rotation.rotation_matrix.mul_vec(self.sub(rotation.origin)).add_point(rotation.origin)
    }

    /// Moves the point by `distance` along the direction into which
    /// `rotation_matrix` turns the y axis. A negative distance moves backwards.
    pub fn forward(&self, distance: Fixed, rotation_matrix: Matrix) -> (r: Point)
        ensures
            r == self.forward_spec(distance, rotation_matrix),
    {
        point2(self.x, self.y.add(distance)).rotate(Rotation { rotation_matrix, origin: *self })
    }

    /// Moves the point by a displacement.
    pub fn translate(&self, translation: Vector2D) -> (r: Point)
        ensures
            r == self.add_spec(translation),
    {
        self.add(translation)
    }
}

impl Vector2D {
    /// The point that `self` leads to from `rhs`.
    pub fn add_point(self, rhs: Point) -> (r: Point)
        ensures
            r == rhs.add_spec(self),
    {
        rhs.add(self)
    }
}

impl From<(Fixed, Fixed)> for Point {
    fn from(p: (Fixed, Fixed)) -> (r: Point) {
        point2(p.0, p.1)
    }
}

impl FromSpecImpl<(Fixed, Fixed)> for Point {
    open spec fn obeys_from_spec() -> bool {
        true
    }

    open spec fn from_spec(p: (Fixed, Fixed)) -> Point {
        Point { x: p.0, y: p.1 }
    }
}

impl From<Point> for (Fixed, Fixed) {
    fn from(p: Point) -> (r: (Fixed, Fixed)) {
        (p.x, p.y)
    }
}

impl FromSpecImpl<Point> for (Fixed, Fixed) {
    open spec fn obeys_from_spec() -> bool {
        true
    }

    open spec fn from_spec(p: Point) -> (Fixed, Fixed) {
        (p.x, p.y)
    }
}

impl From<Vector2D> for Point {
    fn from(p: Vector2D) -> (r: Point) {
        point2(p.x(), p.y())
    }
}

impl FromSpecImpl<Vector2D> for Point {
    open spec fn obeys_from_spec() -> bool {
        true
    }

    open spec fn from_spec(p: Vector2D) -> Point {
        Point { x: p.x, y: p.y }
    }
}

impl From<Point> for Vector2D {
    fn from(p: Point) -> (r: Vector2D) {
        Vector2D::new_from_x_and_y(p.x, p.y)
    }
}

impl FromSpecImpl<Point> for Vector2D {
    open spec fn obeys_from_spec() -> bool {
        true
    }

    open spec fn from_spec(p: Point) -> Vector2D {
        Vector2D { x: p.x, y: p.y }
    }
}

impl Rotation {
    /// The rotation by `angle` about `origin`.
    pub open spec fn new_spec(angle: Fixed, origin: Point) -> Rotation {
        Rotation { rotation_matrix: rotation_matrix_spec(angle), origin }
    }

    /// The rotation by `angle` radians, counterclockwise, about `origin`.
    pub fn new(angle: Fixed, origin: Point) -> (r: Rotation)
        ensures
            r == Rotation::new_spec(angle, origin),
    {
        Rotation { rotation_matrix: new_rotation_matrix(angle), origin }
    }
}

} // verus!
