//! Rays and the record of a hit.

use crate::materials::Material;
use crate::scalar::Scalar;
use crate::vector::Vector3;
use vstd::prelude::*;

verus! {

/// A half-line: the points `origin + t * direction`.
#[derive(Clone, Copy, Debug)]
pub struct Ray {
    pub a: Vector3,
    pub b: Vector3,
}

impl Ray {
    pub fn new(a: Vector3, b: Vector3) -> (ray: Ray)
        ensures
            ray == (Ray { a, b }),
    {
        Ray { a, b }
    }

    pub fn origin(&self) -> (origin: Vector3)
        ensures
            origin == self.a,
    {
        self.a
    }

    pub fn direction(&self) -> (direction: Vector3)
        ensures
            direction == self.b,
    {
        self.b
    }
}

/// Where and how a ray met a surface.
#[derive(Clone, Copy, Debug)]
pub struct Hit {
    /// The ray parameter of the meeting point.
    pub t: Scalar,
    /// The meeting point.
    pub p: Vector3,
    /// The meeting point less the sphere's centre: it points outward, and not
    /// always against the ray.
    pub normal: Vector3,
    /// The material of the surface that was met.
    pub material: Material,
}

impl Hit {
    /// The hit at ray parameter `t`, where the caller has evaluated the ray's
    /// point `p` at `t` and the normal there.
    pub fn new(t: Scalar, p: Vector3, normal: Vector3, material: Material) -> (hit: Hit)
        ensures
            hit == (Hit { t, p, normal, material }),
    {
        Hit { t, p, normal, material }
    }

    /// Moves the record to ray parameter `t`, where the caller has evaluated
    /// the ray's point `p` at `t` and the normal there. The material stays.
    pub fn update(&mut self, t: Scalar, p: Vector3, normal: Vector3)
        ensures
            *final(self) == (Hit { t, p, normal, material: old(self).material }),
    {
        self.set_t(t);
        self.set_p(p);
        self.set_normal(normal);
    }

    pub fn set_t(&mut self, t: Scalar)
        ensures
            *final(self) == (Hit { t, ..*old(self) }),
    {
        self.t = t;
    }

    pub fn set_p(&mut self, p: Vector3)
        ensures
            *final(self) == (Hit { p, ..*old(self) }),
    {
        self.p = p;
    }

    pub fn set_normal(&mut self, normal: Vector3)
        ensures
            *final(self) == (Hit { normal, ..*old(self) }),
    {
        self.normal = normal;
    }
}

impl Default for Hit {
    /// The record at ray parameter 0 with every vector (0, 0, 0) and the
    /// default material.
    fn default() -> (hit: Hit)
        ensures
            hit == (Hit {
                t: Scalar { bits: 0 },
                p: Vector3::zeros(),
                normal: Vector3::zeros(),
                material: Material::white(),
            }),
    {
        Hit {
            t: Scalar::zero(),
            p: Vector3::zero(),
            normal: Vector3::zero(),
            material: Material::default(),
        }
    }
}

} // verus!
