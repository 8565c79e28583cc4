//! Spatial vectors and spacetime points.

use vstd::prelude::*;
use crate::scalar::Scalar;

verus! {

/// The bits of `2^-52`, the machine epsilon: the distance from `1.0` to the
/// next larger number.
pub const EPSILON_BITS: u64 = 0x3CB0_0000_0000_0000;

/// A purely spatial vector.
#[derive(Clone, Copy, Debug)]
pub struct Vector3 {
    pub x: Scalar,
    pub y: Scalar,
    pub z: Scalar,
}

/// A spacetime point or displacement. `ct` is time in length units (time
/// multiplied by the speed of light), so the speed of light never occurs in
/// what is done with a `Vector4`.
#[derive(Clone, Copy, Debug)]
pub struct Vector4 {
    pub x: Scalar,
    pub y: Scalar,
    pub z: Scalar,
    pub ct: Scalar,
}

pub fn vec3(x: Scalar, y: Scalar, z: Scalar) -> (v: Vector3)
    ensures
        v == (Vector3 { x, y, z }),
{
    Vector3 { x, y, z }
}

pub fn vec4(x: Scalar, y: Scalar, z: Scalar, ct: Scalar) -> (v: Vector4)
    ensures
        v == (Vector4 { x, y, z, ct }),
{
    Vector4 { x, y, z, ct }
}

impl Vector3 {
    /// The vector whose components are all `+0.0`.
    pub open spec fn origin() -> Vector3 {
        Vector3 { x: Scalar { bits: 0 }, y: Scalar { bits: 0 }, z: Scalar { bits: 0 } }
    }

    /// `-self`: every component under the opposite sign.
    pub open spec fn negated(self) -> Vector3 {
        Vector3 { x: self.x.negated(), y: self.y.negated(), z: self.z.negated() }
    }

    /// Component by component equality as IEEE 754 compares.
    pub open spec fn equal(self, other: Vector3) -> bool {
        self.x.equal(other.x) && self.y.equal(other.y) && self.z.equal(other.z)
    }

    pub fn new(x: Scalar, y: Scalar, z: Scalar) -> (v: Vector3)
        ensures
            v == (Vector3 { x, y, z }),
    {
        Vector3 { x, y, z }
    }

    pub fn zero() -> (v: Vector3)
        ensures
            v == Vector3::origin(),
    {
        Vector3 { x: Scalar::zero(), y: Scalar::zero(), z: Scalar::zero() }
    }

    /// The vector of length one along `self`, or the zero vector where
    /// `self` is too short to have a direction. `magnitude` is the length of
    /// `self` and `normalized` is `self` divided by it; a length of at most
    /// the machine epsilon counts as none.
    pub fn safe_normalized(magnitude: Scalar, normalized: Vector3) -> (v: Vector3)
        ensures
            v == (if magnitude.less_eq(Scalar { bits: EPSILON_BITS }) {
                Vector3::origin()
            } else {
                normalized
            }),
    {
        if magnitude.le(Scalar::from_bits(EPSILON_BITS)) {
            Vector3::zero()
        } else {
            normalized
        }
    }

    /// `-self`: every component under the opposite sign.
    pub fn neg(self) -> (v: Vector3)
        ensures
            v == self.negated(),
    {
        Vector3 { x: self.x.neg(), y: self.y.neg(), z: self.z.neg() }
    }
}

impl Vector4 {
    /// The point whose components are all `+0.0`.
    pub open spec fn origin() -> Vector4 {
        Vector4 {
            x: Scalar { bits: 0 },
            y: Scalar { bits: 0 },
            z: Scalar { bits: 0 },
            ct: Scalar { bits: 0 },
        }
    }

    /// The spatial part.
    pub open spec fn space(self) -> Vector3 {
        Vector3 { x: self.x, y: self.y, z: self.z }
    }

    /// `-self`: every component under the opposite sign.
    pub open spec fn negated(self) -> Vector4 {
        Vector4 {
            x: self.x.negated(),
            y: self.y.negated(),
            z: self.z.negated(),
            ct: self.ct.negated(),
        }
    }

    /// Component by component equality as IEEE 754 compares.
    pub open spec fn equal(self, other: Vector4) -> bool {
        self.x.equal(other.x) && self.y.equal(other.y) && self.z.equal(other.z) && self.ct.equal(
            other.ct,
        )
    }

    pub fn new(x: Scalar, y: Scalar, z: Scalar, ct: Scalar) -> (v: Vector4)
        ensures
            v == (Vector4 { x, y, z, ct }),
    {
        Vector4 { x, y, z, ct }
    }

    pub fn zero() -> (v: Vector4)
        ensures
            v == Vector4::origin(),
    {
        Vector4 { x: Scalar::zero(), y: Scalar::zero(), z: Scalar::zero(), ct: Scalar::zero() }
    }

    /// The point at time `ct` and place `v`.
    pub fn from_ctv(ct: Scalar, v: Vector3) -> (p: Vector4)
        ensures
            p.ct == ct,
            p.space() == v,
    {
        Vector4 { x: v.x, y: v.y, z: v.z, ct }
    }

    /// The spatial part.
    pub fn spatial(&self) -> (v: Vector3)
        ensures
            v == self.space(),
    {
        Vector3 { x: self.x, y: self.y, z: self.z }
    }

    /// The four-acceleration of a spatial acceleration: its time component
    /// is `+0.0`.
    pub fn from_acceleration(a: Vector3) -> (p: Vector4)
        ensures
            p.space() == a,
            p.ct.bits == 0,
    {
        Vector4 { x: a.x, y: a.y, z: a.z, ct: Scalar::zero() }
    }

    /// `-self`: every component under the opposite sign.
    pub fn neg(self) -> (v: Vector4)
        ensures
            v == self.negated(),
    {
        Vector4 { x: self.x.neg(), y: self.y.neg(), z: self.z.neg(), ct: self.ct.neg() }
    }
}

impl PartialEq for Vector3 {
    fn eq(&self, other: &Vector3) -> (r: bool) {
        self.x == other.x && self.y == other.y && self.z == other.z
    }
}

impl vstd::std_specs::cmp::PartialEqSpecImpl for Vector3 {
    open spec fn obeys_eq_spec() -> bool {
        true
    }

    open spec fn eq_spec(&self, other: &Vector3) -> bool {
        self.equal(*other)
    }
}

impl PartialEq for Vector4 {
    fn eq(&self, other: &Vector4) -> (r: bool) {
        self.x == other.x && self.y == other.y && self.z == other.z && self.ct == other.ct
    }
}

impl vstd::std_specs::cmp::PartialEqSpecImpl for Vector4 {
    open spec fn obeys_eq_spec() -> bool {
        true
    }

    open spec fn eq_spec(&self, other: &Vector4) -> bool {
        self.equal(*other)
    }
}

} // verus!
