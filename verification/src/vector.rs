//! Three numbers: a point, a direction or a colour.

use crate::scalar::Scalar;
use vstd::prelude::*;

verus! {

/// Three single-precision components. A pure value: the crate stores and
/// hands on vectors and never computes with them.
#[derive(Clone, Copy, Debug)]
pub struct Vector3 {
    pub x: Scalar,
    pub y: Scalar,
    pub z: Scalar,
}

impl Vector3 {
    pub fn new(x: Scalar, y: Scalar, z: Scalar) -> (v: Vector3)
        ensures
            v == (Vector3 { x, y, z }),
    {
        Vector3 { x, y, z }
    }

    /// The vector whose three components are `value`.
    pub fn splat(value: Scalar) -> (v: Vector3)
        ensures
            v == (Vector3 { x: value, y: value, z: value }),
    {
        Vector3 { x: value, y: value, z: value }
    }

    /// The vector (0, 0, 0).
    pub open spec fn zeros() -> Vector3 {
        Vector3 { x: Scalar { bits: 0 }, y: Scalar { bits: 0 }, z: Scalar { bits: 0 } }
    }

    /// The vector (1, 1, 1).
    pub open spec fn ones() -> Vector3 {
        Vector3 {
            x: Scalar { bits: crate::scalar::ONE_BITS },
            y: Scalar { bits: crate::scalar::ONE_BITS },
            z: Scalar { bits: crate::scalar::ONE_BITS },
        }
    }

    /// The vector (0, 0, 0).
    pub fn zero() -> (v: Vector3)
        ensures
            v == Vector3::zeros(),
    {
        Vector3::splat(Scalar::zero())
    }

    /// The vector (1, 1, 1).
    pub fn one() -> (v: Vector3)
        ensures
            v == Vector3::ones(),
    {
        Vector3::splat(Scalar::one())
    }

    /// The three bit patterns, x first.
    pub fn to_bits(self) -> (bits: [u32; 3])
        ensures
            bits[0] == self.x.bits,
            bits[1] == self.y.bits,
            bits[2] == self.z.bits,
    {
        [self.x.to_bits(), self.y.to_bits(), self.z.to_bits()]
    }

    /// The vector of three bit patterns, x first.
    pub fn from_bits(bits: [u32; 3]) -> (v: Vector3)
        ensures
            v.x.bits == bits[0],
            v.y.bits == bits[1],
            v.z.bits == bits[2],
    {
        Vector3 {
            x: Scalar::from_bits(bits[0]),
            y: Scalar::from_bits(bits[1]),
            z: Scalar::from_bits(bits[2]),
        }
    }
}

} // verus!
