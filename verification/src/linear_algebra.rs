//! Vectors of two components and matrices of two rows and two columns.
use crate::error::CarError;
use crate::fixed::Fixed;
use vstd::prelude::*;

verus! {

/// A displacement in the plane.
#[derive(Clone, Copy, Debug, PartialEq, Eq, Structural)]
pub struct Vector2D {
    pub x: Fixed,
    pub y: Fixed,
}

/// A matrix
/// ```text
/// | m11 m12 |
/// | m21 m22 |
/// ```
#[derive(Clone, Copy, Debug, PartialEq, Eq, Structural)]
pub struct Matrix {
    pub m11: Fixed,
    pub m12: Fixed,
    pub m21: Fixed,
    pub m22: Fixed,
}

impl Vector2D {
    /// The componentwise sum.
    pub open spec fn add_spec(self, rhs: Vector2D) -> Vector2D {
        Vector2D { x: self.x.add_spec(rhs.x), y: self.y.add_spec(rhs.y) }
    }

    /// The componentwise difference.
    pub open spec fn sub_spec(self, rhs: Vector2D) -> Vector2D {
        Vector2D { x: self.x.sub_spec(rhs.x), y: self.y.sub_spec(rhs.y) }
    }

    /// The vector with the given components.
    pub fn new_from_x_and_y(x: Fixed, y: Fixed) -> (r: Vector2D)
        ensures
            r == (Vector2D { x, y }),
    {
        Vector2D { x, y }
    }

    /// The first component.
    pub fn x(&self) -> (r: Fixed)
        ensures
            r == self.x,
    {
        self.x
    }

    /// The second component.
    pub fn y(&self) -> (r: Fixed)
        ensures
            r == self.y,
    {
        self.y
    }

    /// Adds two displacements.
    pub fn add(self, rhs: Vector2D) -> (r: Vector2D)
        ensures
            r == self.add_spec(rhs),
    {
        Vector2D { x: self.x.add(rhs.x), y: self.y.add(rhs.y) }
    }

    /// Subtracts a displacement from another.
    pub fn sub(self, rhs: Vector2D) -> (r: Vector2D)
        ensures
            r == self.sub_spec(rhs),
    {
        Vector2D { x: self.x.sub(rhs.x), y: self.y.sub(rhs.y) }
    }
}

impl Matrix {
    /// The identity matrix.
    pub open spec fn eye_spec() -> Matrix {
        Matrix {
            m11: Fixed { raw: crate::fixed::ONE_RAW },
            m12: Fixed { raw: 0 },
            m21: Fixed { raw: 0 },
            m22: Fixed { raw: crate::fixed::ONE_RAW },
        }
    }

    /// The product of the matrix with a column vector.
    pub open spec fn mul_vec_spec(self, v: Vector2D) -> Vector2D {
        Vector2D {
            x: self.m11.mul_spec(v.x).add_spec(self.m12.mul_spec(v.y)),
            y: self.m21.mul_spec(v.x).add_spec(self.m22.mul_spec(v.y)),
        }
    }

    /// The product of two matrices, `self` on the left.
    pub open spec fn mul_spec(self, rhs: Matrix) -> Matrix {
        Matrix {
            m11: self.m11.mul_spec(rhs.m11).add_spec(self.m12.mul_spec(rhs.m21)),
            m12: self.m11.mul_spec(rhs.m12).add_spec(self.m12.mul_spec(rhs.m22)),
            m21: self.m21.mul_spec(rhs.m11).add_spec(self.m22.mul_spec(rhs.m21)),
            m22: self.m21.mul_spec(rhs.m12).add_spec(self.m22.mul_spec(rhs.m22)),
        }
    }

    /// The determinant.
    pub open spec fn det_spec(self) -> Fixed {
        self.m11.mul_spec(self.m22).sub_spec(self.m12.mul_spec(self.m21))
    }

    /// The matrix mirrored at its diagonal.
    pub open spec fn transpose_spec(self) -> Matrix {
        Matrix { m11: self.m11, m12: self.m21, m21: self.m12, m22: self.m22 }
    }

    /// The inverse in closed form: the adjugate, each entry divided by the
    /// determinant. Only meaningful where the determinant is not zero.
    pub open spec fn inverse_spec(self) -> Matrix {
        let det = self.det_spec();
        Matrix {
            m11: self.m22.div_spec(det),
            m12: self.m12.neg_spec().div_spec(det),
            m21: self.m21.neg_spec().div_spec(det),
            m22: self.m11.div_spec(det),
        }
    }

    /// The matrix with the given entries, row by row.
    pub fn new(m11: Fixed, m12: Fixed, m21: Fixed, m22: Fixed) -> (r: Matrix)
        ensures
            r == (Matrix { m11, m12, m21, m22 }),
    {
        Matrix { m11, m12, m21, m22 }
    }

    /// The identity matrix.
    pub fn eye() -> (r: Matrix)
        ensures
            r == Matrix::eye_spec(),
    {
        Matrix { m11: Fixed::one(), m12: Fixed::zero(), m21: Fixed::zero(), m22: Fixed::one() }
    }

    /// Multiplies the matrix with a column vector.
    pub fn mul_vec(self, v: Vector2D) -> (r: Vector2D)
        ensures
            r == self.mul_vec_spec(v),
    {
        Vector2D {
            x: self.m11.mul(v.x).add(self.m12.mul(v.y)),
            y: self.m21.mul(v.x).add(self.m22.mul(v.y)),
        }
    }

    /// Multiplies two matrices, `self` on the left.
    pub fn mul(self, rhs: Matrix) -> (r: Matrix)
        ensures
            r == self.mul_spec(rhs),
    {
        Matrix {
            m11: self.m11.mul(rhs.m11).add(self.m12.mul(rhs.m21)),
            m12: self.m11.mul(rhs.m12).add(self.m12.mul(rhs.m22)),
            m21: self.m21.mul(rhs.m11).add(self.m22.mul(rhs.m21)),
            m22: self.m21.mul(rhs.m12).add(self.m22.mul(rhs.m22)),
        }
    }

    /// The determinant.
    pub fn det(self) -> (r: Fixed)
        ensures
            r == self.det_spec(),
    {
        self.m11.mul(self.m22).sub(self.m12.mul(self.m21))
    }

    /// Inverts the matrix. A matrix whose determinant is zero has no
    /// inverse: that is the one failure, `DegenerateMatrix`.
    pub fn inverse(self) -> (r: Result<Matrix, CarError>)
        ensures
            self.det_spec()@ == 0 ==> r == Err::<Matrix, CarError>(CarError::DegenerateMatrix),
            self.det_spec()@ != 0 ==> r == Ok::<Matrix, CarError>(self.inverse_spec()),
    {
        let det: Fixed = self.det();
        if det.is_zero() {
            Err(CarError::DegenerateMatrix)
        } else {
            Ok(
                Matrix {
                    m11: self.m22.div(det),
                    m12: self.m12.neg().div(det),
                    m21: self.m21.neg().div(det),
                    m22: self.m11.div(det),
                },
            )
        }
    }
}

} // verus!
