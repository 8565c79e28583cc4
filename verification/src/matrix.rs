//! 4x4 matrices: Lorentz boosts, the transforms of a scene, and the
//! electromagnetic field-strength tensor.

use vstd::prelude::*;
use crate::scalar::{Scalar, ONE_BITS};
use crate::vector::Vector3;

verus! {

/// The bits of `2^-51`, twice the machine epsilon: a charge nearer to the
/// observer than this exerts no field on it.
pub const TOO_NEAR_BITS: u64 = 0x3CC0_0000_0000_0000;

/// `a` is `-b`: the two have one magnitude and opposite signs, the two
/// zeros counting as one number.
pub open spec fn mirrors(a: Scalar, b: Scalar) -> bool {
    a.magnitude() == b.magnitude() && (a.negative() != b.negative() || a.magnitude() == 0)
}

/// A 4x4 matrix, row by row. The last row and column belong to time.
#[derive(Debug, Clone, Copy)]
pub struct Matrix {
    pub rows: [[Scalar; 4]; 4],
}

impl Matrix {
    /// The entry in row `r` and column `c`.
    pub open spec fn at(self, r: int, c: int) -> Scalar {
        self.rows[r][c]
    }

    /// Every entry is the entry across the diagonal.
    pub open spec fn symmetric(self) -> bool {
        forall|r: int, c: int|
            0 <= r < 4 && 0 <= c < 4 ==> (#[trigger] self.at(r, c)) == self.at(c, r)
    }

    /// Every entry is the opposite of the entry across the diagonal, and so
    /// the diagonal is zero.
    pub open spec fn antisymmetric(self) -> bool {
        forall|r: int, c: int|
            0 <= r < 4 && 0 <= c < 4 ==> mirrors(#[trigger] self.at(r, c), self.at(c, r))
    }

    /// `0.0` everywhere but on the diagonal, where the entries are
    /// `x`, `y`, `z` and `t`.
    pub open spec fn diagonal(self, x: Scalar, y: Scalar, z: Scalar, t: Scalar) -> bool {
        forall|r: int, c: int|
            0 <= r < 4 && 0 <= c < 4 ==> (#[trigger] self.at(r, c)) == (if r != c {
                Scalar { bits: 0 }
            } else if r == 0 {
                x
            } else if r == 1 {
                y
            } else if r == 2 {
                z
            } else {
                t
            })
    }

    pub fn new(row0: [Scalar; 4], row1: [Scalar; 4], row2: [Scalar; 4], row3: [Scalar; 4]) -> (m:
        Matrix)
        ensures
            m.rows[0] == row0,
            m.rows[1] == row1,
            m.rows[2] == row2,
            m.rows[3] == row3,
    {
        Matrix { rows: [row0, row1, row2, row3] }
    }

    /// The Lorentz metric with signature (+, +, +, -).
    pub fn eta() -> (m: Matrix)
        ensures
            m.diagonal(
                Scalar { bits: ONE_BITS },
                Scalar { bits: ONE_BITS },
                Scalar { bits: ONE_BITS },
                (Scalar { bits: ONE_BITS }).negated(),
            ),
    {
        let o = Scalar::zero();
        let l = Scalar::one();
        let n = Scalar::one().neg();
        Matrix { rows: [[l, o, o, o], [o, l, o, o], [o, o, l, o], [o, o, o, n]] }
    }

    /// The identity.
    pub fn ident() -> (m: Matrix)
        ensures
            m.diagonal(
                Scalar { bits: ONE_BITS },
                Scalar { bits: ONE_BITS },
                Scalar { bits: ONE_BITS },
                Scalar { bits: ONE_BITS },
            ),
    {
        let o = Scalar::zero();
        let l = Scalar::one();
        Matrix { rows: [[l, o, o, o], [o, l, o, o], [o, o, l, o], [o, o, o, l]] }
    }

    /// The matrix of zeros.
    pub fn zero() -> (m: Matrix)
        ensures
            forall|r: int, c: int| 0 <= r < 4 && 0 <= c < 4 ==> (#[trigger] m.at(r, c)).bits == 0,
    {
        let o = Scalar::zero();
        Matrix { rows: [[o, o, o, o], [o, o, o, o], [o, o, o, o], [o, o, o, o]] }
    }

    /// The matrix that moves a point of space by `v`: the identity with `v`
    /// in the last column.
    pub fn translation(v: Vector3) -> (m: Matrix)
        ensures
            forall|r: int, c: int|
                0 <= r < 4 && 0 <= c < 4 ==> (#[trigger] m.at(r, c)) == (if r == c {
                    Scalar { bits: ONE_BITS }
                } else if c == 3 && r == 0 {
                    v.x
                } else if c == 3 && r == 1 {
                    v.y
                } else if c == 3 && r == 2 {
                    v.z
                } else {
                    Scalar { bits: 0 }
                }),
    {
        let o = Scalar::zero();
        let l = Scalar::one();
        Matrix { rows: [[l, o, o, v.x], [o, l, o, v.y], [o, o, l, v.z], [o, o, o, l]] }
    }

    /// The matrix that stretches space by `v`, axis by axis.
    pub fn scale(v: Vector3) -> (m: Matrix)
        ensures
            m.diagonal(v.x, v.y, v.z, Scalar { bits: ONE_BITS }),
    {
        let o = Scalar::zero();
        let l = Scalar::one();
        Matrix { rows: [[v.x, o, o, o], [o, v.y, o, o], [o, o, v.z, o], [o, o, o, l]] }
    }

    /// Rows and columns exchanged.
    pub fn transposed(&self) -> (m: Matrix)
        ensures
            forall|r: int, c: int|
                0 <= r < 4 && 0 <= c < 4 ==> (#[trigger] m.at(r, c)) == self.at(c, r),
    {
        let r0 = self.rows[0];
        let r1 = self.rows[1];
        let r2 = self.rows[2];
        let r3 = self.rows[3];
        Matrix {
            rows: [
                [r0[0], r1[0], r2[0], r3[0]],
                [r0[1], r1[1], r2[1], r3[1]],
                [r0[2], r1[2], r2[2], r3[2]],
                [r0[3], r1[3], r2[3], r3[3]],
            ],
        }
    }

    /// The boost that brings a particle of covariant velocity `u` to rest.
    /// `r` is the squared length of `u` and `g` its gamma factor; `stretch`
    /// holds the three spatial entries of the diagonal and `shear` the
    /// entries that couple x with y, y with z and z with x, as the boost
    /// formula gives them. The formula divides by `r`; a particle that is at
    /// rest already, `r > 0` not being the case, is left alone by the
    /// identity. The boost is a symmetric matrix whose last row and column
    /// hold `-u` and `g`.
    pub fn lorentz(r: Scalar, u: Vector3, g: Scalar, stretch: Vector3, shear: Vector3) -> (m:
        Matrix)
        ensures
            m.symmetric(),
            (Scalar { bits: 0 }).less(r) ==> {
                &&& m.at(0, 0) == stretch.x && m.at(1, 1) == stretch.y && m.at(2, 2) == stretch.z
                &&& m.at(0, 1) == shear.x && m.at(1, 2) == shear.y && m.at(2, 0) == shear.z
                &&& m.at(0, 3) == u.x.negated()
                &&& m.at(1, 3) == u.y.negated()
                &&& m.at(2, 3) == u.z.negated()
                &&& m.at(3, 3) == g
            },
            !(Scalar { bits: 0 }).less(r) ==> m.diagonal(
                Scalar { bits: ONE_BITS },
                Scalar { bits: ONE_BITS },
                Scalar { bits: ONE_BITS },
                Scalar { bits: ONE_BITS },
            ),
    {
        if r.gt(Scalar::zero()) {
            let back = u.neg();
            Matrix {
                rows: [
                    [stretch.x, shear.x, shear.z, back.x],
                    [shear.x, stretch.y, shear.y, back.y],
                    [shear.z, shear.y, stretch.z, back.z],
                    [back.x, back.y, back.z, g],
                ],
            }
        } else {
            Matrix::ident()
        }
    }

    /// The field-strength tensor of a charge at distance `l_len` from the
    /// observer, put together from its six independent entries as the
    /// Lienard-Wiechert formula gives them: `f_xy`, `f_yz` and `f_zx` couple
    /// the axes of space, `f_t` is the time column. The formula divides by
    /// the distance. A charge nearer than twice the machine epsilon exerts
    /// no field: this keeps a charge from acting on itself with a field that
    /// has no bound. The tensor is antisymmetric.
    pub fn field_strength(
        l_len: Scalar,
        f_xy: Scalar,
        f_yz: Scalar,
        f_zx: Scalar,
        f_t: Vector3,
    ) -> (m: Matrix)
        ensures
            m.antisymmetric(),
            l_len.less(Scalar { bits: TOO_NEAR_BITS }) ==> forall|r: int, c: int|
                0 <= r < 4 && 0 <= c < 4 ==> (#[trigger] m.at(r, c)).bits == 0,
            !l_len.less(Scalar { bits: TOO_NEAR_BITS }) ==> {
                &&& m.at(0, 1) == f_xy && m.at(1, 2) == f_yz && m.at(2, 0) == f_zx
                &&& m.at(0, 3) == f_t.x && m.at(1, 3) == f_t.y && m.at(2, 3) == f_t.z
                &&& m.at(1, 0) == f_xy.negated()
                &&& m.at(2, 1) == f_yz.negated()
                &&& m.at(0, 2) == f_zx.negated()
                &&& m.at(3, 0) == f_t.x.negated()
                &&& m.at(3, 1) == f_t.y.negated()
                &&& m.at(3, 2) == f_t.z.negated()
                &&& forall|r: int| 0 <= r < 4 ==> (#[trigger] m.at(r, r)).bits == 0
            },
    {
        if l_len.lt(Scalar::from_bits(TOO_NEAR_BITS)) {
            Matrix::zero()
        } else {
            let o = Scalar::zero();
            let back = f_t.neg();
            Matrix {
                rows: [
                    [o, f_xy, f_zx.neg(), f_t.x],
                    [f_xy.neg(), o, f_yz, f_t.y],
                    [f_zx, f_yz.neg(), o, f_t.z],
                    [back.x, back.y, back.z, o],
                ],
            }
        }
    }

    /// The electric field of a field-strength tensor: its time column.
    pub fn field_strength_to_electric_field(&self) -> (e: Vector3)
        ensures
            e.x == self.at(0, 3),
            e.y == self.at(1, 3),
            e.z == self.at(2, 3),
    {
        Vector3::new(self.rows[0][3], self.rows[1][3], self.rows[2][3])
    }
}

} // verus!
