//! How a surface sends a ray on: diffuse, reflective and refractive
//! materials.

use crate::ray::{Hit, Ray};
use crate::scalar::Scalar;
use crate::vector::Vector3;
use vstd::prelude::*;

verus! {

/// Takes one draw of the rejection sampling of a point in the unit sphere:
/// `candidate` was drawn in the cube around it, and `length_squared` is its
/// squared length. The candidate is kept where it lies strictly inside the
/// sphere; else the caller draws again.
pub fn rand_in_unit_sphere(candidate: Vector3, length_squared: Scalar) -> (kept: Option<Vector3>)
    ensures
        kept == if length_squared.below(Scalar { bits: crate::scalar::ONE_BITS }) {
            Some(candidate)
        } else {
            None
        },
{
    if length_squared.lt(Scalar::one()) {
        Some(candidate)
    } else {
        None
    }
}

/// A material that neither reflects nor refracts: it sends a ray on in a
/// random direction about the normal.
#[derive(Clone, Copy, Debug)]
pub struct Lambertian {
    pub albedo: Vector3,
}

impl Lambertian {
    pub fn new(albedo: Vector3) -> (m: Lambertian)
        ensures
            m.albedo == albedo,
    {
        Lambertian { albedo }
    }

    /// Scatters at `hit` into `direction`, which the caller has evaluated as
    /// the normal plus a random point in the unit sphere. A diffuse material
    /// always scatters, and keeps its albedo of the light.
    pub fn scatter(&self, hit: &Hit, direction: Vector3) -> (scattered: Option<(Vector3, Ray)>)
        ensures
            scattered == Some((self.albedo, Ray { a: hit.p, b: direction })),
    {
        Some((self.albedo, Ray::new(hit.p, direction)))
    }
}

/// A material that mirrors a ray about the normal.
#[derive(Clone, Copy, Debug)]
pub struct Reflective {
    pub albedo: Vector3,
}

impl Reflective {
    pub fn new(albedo: Vector3) -> (m: Reflective)
        ensures
            m.albedo == albedo,
    {
        Reflective { albedo }
    }

    /// Scatters at `hit` into `reflected`, the mirror image of the incoming
    /// unit direction about the normal, where `facing`, the dot product of
    /// `reflected` and the normal, is positive: the ray then leaves the
    /// surface. Else the ray is absorbed.
    pub fn scatter(&self, hit: &Hit, reflected: Vector3, facing: Scalar) -> (scattered: Option<
        (Vector3, Ray),
    >)
        ensures
            scattered == if (Scalar { bits: 0 }).below(facing) {
                Some((self.albedo, Ray { a: hit.p, b: reflected }))
            } else {
                None
            },
    {
        if facing.gt(Scalar::zero()) {
            Some((self.albedo, Ray::new(hit.p, reflected)))
        } else {
            None
        }
    }
}

/// A metal is a reflective material.
pub type Metal = Reflective;

/// The side of a surface from which a ray meets it.
#[derive(Clone, Copy, Debug, PartialEq, Eq, Structural)]
pub enum Side {
    /// The ray runs against the normal, into the medium.
    Entering,
    /// The ray runs along the normal, out of the medium.
    Exiting,
}

/// A transparent material that bends a ray or mirrors it.
#[derive(Clone, Copy, Debug)]
pub struct Refractive {
    pub refractive_index: Scalar,
}

impl Refractive {
    pub fn new(refractive_index: Scalar) -> (m: Refractive)
        ensures
            m.refractive_index == refractive_index,
    {
        Refractive { refractive_index }
    }

    /// The side from which a ray meets the surface, where `approach` is the
    /// dot product of the ray's direction and the normal: exiting where it is
    /// positive, entering otherwise. An entering ray is bent by the inverse
    /// of the refractive index about the normal, an exiting ray by the index
    /// itself about the opposite of the normal.
    pub fn side(approach: Scalar) -> (side: Side)
        ensures
            side == if (Scalar { bits: 0 }).below(approach) {
                Side::Exiting
            } else {
                Side::Entering
            },
    {
        if approach.gt(Scalar::zero()) {
            Side::Exiting
        } else {
            Side::Entering
        }
    }

    /// Decides whether a ray is bent. With `d` the incoming unit direction,
    /// `n` the outward normal and `ratio` the ratio of the indices,
    /// `discriminant` is `1 − ratio²(1 − (d·n)²)` and `bent` is
    /// `ratio(d − n(d·n)) − n√discriminant`. The bent direction exists where
    /// the discriminant is positive; else the reflection is total.
    pub fn refract(discriminant: Scalar, bent: Vector3) -> (refracted: Option<Vector3>)
        ensures
            refracted == if (Scalar { bits: 0 }).below(discriminant) {
                Some(bent)
            } else {
                None
            },
    {
        if discriminant.gt(Scalar::zero()) {
            Some(bent)
        } else {
            None
        }
    }

    /// The direction that `scatter` picks.
    pub open spec fn pick(
        reflected: Vector3,
        refracted: Option<Vector3>,
        reflectance: Scalar,
        random: Scalar,
    ) -> Vector3 {
        match refracted {
            Some(bent) if !random.below(reflectance) => bent,
            _ => reflected,
        }
    }

    /// Scatters at `hit` into one of two directions: `reflected`, the
    /// mirror image of the incoming unit direction, or `refracted`, the bent
    /// direction where there is one. `reflectance` is the probability of
    /// reflection and `random` a uniform draw from [0, 1): the ray is
    /// reflected where the draw lies below the reflectance or nothing is
    /// refracted, and refracted otherwise. A refractive material always
    /// scatters and keeps all of the light.
    pub fn scatter(
        &self,
        hit: &Hit,
        reflected: Vector3,
        refracted: Option<Vector3>,
        reflectance: Scalar,
        random: Scalar,
    ) -> (scattered: Option<(Vector3, Ray)>)
        ensures
            scattered == Some(
                (
                    Vector3::ones(),
                    Ray { a: hit.p, b: Self::pick(reflected, refracted, reflectance, random) },
                ),
            ),
    {
        let direction = match refracted {
            Some(bent) => if random.lt(reflectance) {
                reflected
            } else {
                bent
            },
            None => reflected,
        };
        Some((Vector3::one(), Ray::new(hit.p, direction)))
    }
}

/// The materials of a scene.
#[derive(Clone, Copy, Debug)]
pub enum Material {
    Diffuse(Lambertian),
    Reflective(Reflective),
    Refractive(Refractive),
}

impl Material {
    /// The diffuse material that keeps all of the light.
    pub open spec fn white() -> Material {
        Material::Diffuse(Lambertian { albedo: Vector3::ones() })
    }
}

impl Default for Material {
    fn default() -> (m: Material)
        ensures
            m == Material::white(),
    {
        Material::Diffuse(Lambertian::new(Vector3::one()))
    }
}

} // verus!
