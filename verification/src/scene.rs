//! What a ray meets: the crossing of one sphere, and the nearest crossing of
//! a list of them.

use crate::materials::Material;
use crate::scalar::Scalar;
use crate::vector::Vector3;
use vstd::prelude::*;

verus! {

/// A sphere and what it is made of.
#[derive(Clone, Copy, Debug)]
pub struct Sphere {
    pub center: Vector3,
    pub radius: Scalar,
    pub material: Material,
}

impl Sphere {
    /// A sphere has a positive radius.
    pub open spec fn wf(self) -> bool {
        (Scalar { bits: 0 }).below(self.radius)
    }

    pub fn new(center: Vector3, radius: Scalar, material: Material) -> (sphere: Sphere)
        requires
            (Scalar { bits: 0 }).below(radius),
        ensures
            sphere == (Sphere { center, radius, material }),
            sphere.wf(),
    {
        Sphere { center, radius, material }
    }

    /// The sphere of radius 5 about (1, 1, 1), of the default material.
    pub fn new_unit() -> (sphere: Sphere)
        ensures
            sphere == (Sphere {
                center: Vector3::ones(),
                radius: Scalar { bits: 0x40a0_0000 },
                material: Material::white(),
            }),
            sphere.wf(),
    {
        proof {
            crate::scalar::lemma_positive(Scalar { bits: 0x40a0_0000 });
        }
        Sphere {
            center: Vector3::one(),
            radius: Scalar::from_bits(0x40a0_0000),
            material: Material::default(),
        }
    }
}

/// A pinhole camera: the eye, and the rectangle through which it looks. The
/// ray for the screen point `(u, v)`, both in [0, 1], runs from `origin`
/// through `lower_left + u * horiz + v * vert`.
#[derive(Clone, Copy, Debug)]
pub struct Camera {
    pub lower_left: Vector3,
    pub horiz: Vector3,
    pub vert: Vector3,
    pub origin: Vector3,
}

impl Camera {
    /// The camera at the origin that looks along -z through the rectangle
    /// from (-2, 1, -1), 4 wide and 2 high. Its `vert` points down: the first
    /// row of a picture is the top one.
    pub open spec fn standard() -> Camera {
        Camera {
            lower_left: Vector3 {
                x: Scalar { bits: 0xc000_0000 },
                y: Scalar { bits: 0x3f80_0000 },
                z: Scalar { bits: 0xbf80_0000 },
            },
            horiz: Vector3 {
                x: Scalar { bits: 0x4080_0000 },
                y: Scalar { bits: 0 },
                z: Scalar { bits: 0 },
            },
            vert: Vector3 {
                x: Scalar { bits: 0 },
                y: Scalar { bits: 0xc000_0000 },
                z: Scalar { bits: 0 },
            },
            origin: Vector3::zeros(),
        }
    }
}

impl Default for Camera {
    fn default() -> (camera: Camera)
        ensures
            camera == Camera::standard(),
    {
        let zero = Scalar::zero();
        Camera {
            lower_left: Vector3::new(
                Scalar::from_bits(0xc000_0000),
                Scalar::from_bits(0x3f80_0000),
                Scalar::from_bits(0xbf80_0000),
            ),
            horiz: Vector3::new(Scalar::from_bits(0x4080_0000), zero, zero),
            vert: Vector3::new(zero, Scalar::from_bits(0xc000_0000), zero),
            origin: Vector3::zero(),
        }
    }
}

/// Whether `t` lies strictly between `t_min` and `t_max`.
pub open spec fn within(t: Scalar, t_min: Scalar, t_max: Scalar) -> bool {
    t_min.below(t) && t.below(t_max)
}

/// What a ray meets of one sphere. With `oc` the ray's origin less the
/// sphere's centre, `d` the ray's direction and `r` the radius, the ray
/// parameter `t` of a meeting point solves `t²(d·d) + 2t(oc·d) + (oc·oc − r²) = 0`.
/// The caller evaluates the quadratic and records the outcome here.
#[derive(Clone, Copy, Debug)]
pub struct Crossing {
    /// `(oc·d)² − (d·d)(oc·oc − r²)`.
    pub discriminant: Scalar,
    /// The root taken with the negative square root.
    pub near: Scalar,
    /// The root taken with the positive square root.
    pub far: Scalar,
}

impl Crossing {
    pub fn new(discriminant: Scalar, near: Scalar, far: Scalar) -> (c: Crossing)
        ensures
            c == (Crossing { discriminant, near, far }),
    {
        Crossing { discriminant, near, far }
    }

    /// The ray parameter at which the sphere is hit within `(t_min, t_max)`:
    /// none where the discriminant is negative; else the near root where it
    /// lies strictly inside the range; else the far root where that one does.
    pub open spec fn first_within(self, t_min: Scalar, t_max: Scalar) -> Option<Scalar> {
        if self.discriminant.below(Scalar { bits: 0 }) {
            None
        } else if within(self.near, t_min, t_max) {
            Some(self.near)
        } else if within(self.far, t_min, t_max) {
            Some(self.far)
        } else {
            None
        }
    }

    /// Whether the roots are in order: the far one does not lie below the
    /// near one.
    pub open spec fn ordered(self) -> bool {
        !self.far.below(self.near)
    }

    /// Decides whether the sphere is hit within `(t_min, t_max)`, and at which
    /// ray parameter.
    pub fn hit(&self, t_min: Scalar, t_max: Scalar) -> (t: Option<Scalar>)
        ensures
            t == self.first_within(t_min, t_max),
    {
        if self.discriminant.lt(Scalar::zero()) {
            None
        } else if self.near.gt(t_min) && self.near.lt(t_max) {
            Some(self.near)
        } else if self.far.gt(t_min) && self.far.lt(t_max) {
            Some(self.far)
        } else {
            None
        }
    }
}

/// The member of a list that a ray hits, and where.
#[derive(Clone, Copy, Debug)]
pub struct Nearest {
    /// The member's place in the list.
    pub index: usize,
    /// The ray parameter of the hit.
    pub t: Scalar,
}

/// The upper end of the range that is left once `found` is known.
pub open spec fn limit_after(found: Option<Nearest>, t_max: Scalar) -> Scalar {
    match found {
        Some(nearest) => nearest.t,
        None => t_max,
    }
}

/// The outcome of walking `members` in order: each member is asked for a hit
/// below the closest one found before it, and a member that answers takes
/// its place.
pub open spec fn nearest_hit(members: Seq<Crossing>, t_min: Scalar, t_max: Scalar) -> Option<
    Nearest,
>
    decreases members.len(),
{
    if members.len() == 0 {
        None
    } else {
        let before = nearest_hit(members.drop_last(), t_min, t_max);
        match members.last().first_within(t_min, limit_after(before, t_max)) {
            Some(t) => Some(Nearest { index: (members.len() - 1) as usize, t }),
            None => before,
        }
    }
}

/// An aggregate: its members in the order in which they are asked.
#[derive(Debug)]
pub struct List<T> {
    pub list: Vec<T>,
}

impl<T> List<T> {
    pub fn new(list: Vec<T>) -> (l: List<T>)
        ensures
            l.list == list,
    {
        List { list }
    }
}

/// A surface: one sphere, or an aggregate of surfaces.
#[derive(Debug)]
pub enum Surface {
    Sphere(Sphere),
    Aggregate(List<Surface>),
}

/// The spheres of `members` in the order in which a ray is held against
/// them: those of the first member first.
pub open spec fn spheres_of(members: Seq<Surface>) -> Seq<Sphere>
    decreases members,
{
    if members.len() == 0 {
        Seq::empty()
    } else {
        spheres_of(members.drop_last()) + members.last().spheres()
    }
}

impl Surface {
    /// The spheres of the surface in the order in which a ray is held
    /// against them. An aggregate asks its members in turn, each for a hit
    /// below the closest one so far, so it is hit as the list of its spheres
    /// is.
    pub open spec fn spheres(self) -> Seq<Sphere>
        decreases self,
    {
        match self {
            Surface::Sphere(sphere) => seq![sphere],
            Surface::Aggregate(list) => spheres_of(list.list@),
        }
    }

    /// Adds the spheres of the surface to `spheres`.
    pub fn collect(&self, spheres: &mut Vec<Sphere>)
        ensures
            final(spheres)@ == old(spheres)@ + self.spheres(),
        decreases self,
    {
        match self {
            Surface::Sphere(sphere) => {
                spheres.push(*sphere);
            },
            Surface::Aggregate(list) => {
                let mut i: usize = 0;
                while i < list.list.len()
                    invariant
                        i <= list.list.len(),
                        *self == Surface::Aggregate(*list),
                        spheres@ == old(spheres)@ + spheres_of(list.list@.take(i as int)),
                    decreases list.list.len() - i,
                {
                    assert(list.list@.take(i + 1).drop_last() =~= list.list@.take(i as int));
                    assert(decreases_to!(*self => self->Aggregate_0));
                    list.list[i].collect(spheres);
                    i += 1;
                }
                assert(list.list@.take(i as int) =~= list.list@);
            },
        }
    }

    /// The spheres of the surface in the order in which a ray is held
    /// against them.
    pub fn flatten(&self) -> (spheres: Vec<Sphere>)
        ensures
            spheres@ == self.spheres(),
    {
        let mut spheres = Vec::new();
        self.collect(&mut spheres);
        spheres
    }
}

impl List<Crossing> {
    /// Finds the nearest hit of the members within `(t_min, t_max)`: the
    /// walk's outcome. It names a member and one of that member's roots
    /// inside the range; no member, taken alone, is hit nearer; and it is
    /// none exactly when no member, taken alone, is hit.
    pub fn hit(&self, t_min: Scalar, t_max: Scalar) -> (found: Option<Nearest>)
        ensures
            found == nearest_hit(self.list@, t_min, t_max),
            found matches Some(n) ==> {
                &&& n.index < self.list.len()
                &&& within(n.t, t_min, t_max)
                &&& (n.t == self.list[n.index as int].near || n.t == self.list[n.index as int].far)
            },
            forall|j: int|
                0 <= j < self.list.len() ==> ((#[trigger] self.list[j]).first_within(t_min, t_max)
                    matches Some(t) ==> found is Some && !t.below(found.unwrap().t)),
            found is None <==> forall|j: int|
                0 <= j < self.list.len() ==> (#[trigger] self.list[j]).first_within(t_min, t_max)
                    is None,
    {
        let mut found: Option<Nearest> = None;
        let mut closest_so_far = t_max;
        let mut i: usize = 0;
        while i < self.list.len()
            invariant
                i <= self.list.len(),
                found == nearest_hit(self.list@.take(i as int), t_min, t_max),
                closest_so_far == limit_after(found, t_max),
            decreases self.list.len() - i,
        {
            assert(self.list@.take(i + 1).drop_last() =~= self.list@.take(i as int));
            if let Some(t) = self.list[i].hit(t_min, closest_so_far) {
                closest_so_far = t;
                found = Some(Nearest { index: i, t });
            }
            i += 1;
        }
        proof {
            assert(self.list@.take(i as int) =~= self.list@);
            lemma_nearest_hit_is_a_hit(self.list@, t_min, t_max);
            lemma_nearest_hit_misses(self.list@, t_min, t_max);
            assert forall|j: int| 0 <= j < self.list.len() implies ((
            #[trigger] self.list[j]).first_within(t_min, t_max) matches Some(t) ==> found is Some
                && !t.below(found.unwrap().t)) by {
                if self.list[j].first_within(t_min, t_max) is Some {
                    lemma_nearest_hit_is_nearest(self.list@, t_min, t_max, j);
                }
            }
        }
        found
    }
}

/// Walking two lists joined is walking the first and then the second below
/// what the first found: a member of the second that answers takes the
/// place of what was found before, and is counted on from the first list's
/// end. So an aggregate among the members of another is hit as its own
/// members would be in its place.
pub proof fn lemma_nearest_hit_of_joined(
    first: Seq<Crossing>,
    second: Seq<Crossing>,
    t_min: Scalar,
    t_max: Scalar,
)
    requires
        first.len() + second.len() <= usize::MAX,
    ensures
        nearest_hit(first + second, t_min, t_max) == match nearest_hit(
            second,
            t_min,
            limit_after(nearest_hit(first, t_min, t_max), t_max),
        ) {
            Some(n) => Some(Nearest { index: (first.len() + n.index) as usize, t: n.t }),
            None => nearest_hit(first, t_min, t_max),
        },
    decreases second.len(),
{
    if second.len() == 0 {
        assert(first + second =~= first);
    } else {
        assert((first + second).drop_last() =~= first + second.drop_last());
        lemma_nearest_hit_of_joined(first, second.drop_last(), t_min, t_max);
        lemma_nearest_hit_is_a_hit(
            second.drop_last(),
            t_min,
            limit_after(nearest_hit(first, t_min, t_max), t_max),
        );
    }
}

/// A hit that the walk reports is a hit of the member it names: the member
/// is in the list, its discriminant is not negative, and the ray parameter is
/// one of its two roots and lies strictly inside `(t_min, t_max)`.
pub proof fn lemma_nearest_hit_is_a_hit(members: Seq<Crossing>, t_min: Scalar, t_max: Scalar)
    requires
        members.len() <= usize::MAX,
    ensures
        nearest_hit(members, t_min, t_max) matches Some(n) ==> {
            &&& n.index < members.len()
            &&& within(n.t, t_min, t_max)
            &&& !members[n.index as int].discriminant.below(Scalar { bits: 0 })
            &&& (n.t == members[n.index as int].near || n.t == members[n.index as int].far)
        },
    decreases members.len(),
{
    if members.len() > 0 {
        lemma_nearest_hit_is_a_hit(members.drop_last(), t_min, t_max);
    }
}

/// No member is hit nearer than the hit that the walk reports: where a
/// member taken alone is hit within `(t_min, t_max)`, the walk reports a hit,
/// and the member's ray parameter does not lie below the reported one.
pub proof fn lemma_nearest_hit_is_nearest(
    members: Seq<Crossing>,
    t_min: Scalar,
    t_max: Scalar,
    j: int,
)
    requires
        members.len() <= usize::MAX,
        0 <= j < members.len(),
        members[j].first_within(t_min, t_max) is Some,
    ensures
        nearest_hit(members, t_min, t_max) matches Some(n) && !members[j].first_within(
            t_min,
            t_max,
        ).unwrap().below(n.t),
    decreases members.len(),
{
    lemma_nearest_hit_is_a_hit(members.drop_last(), t_min, t_max);
    if j < members.len() - 1 {
        lemma_nearest_hit_is_nearest(members.drop_last(), t_min, t_max, j);
    }
}

/// The walk reports no hit exactly when no member taken alone is hit within
/// `(t_min, t_max)`.
pub proof fn lemma_nearest_hit_misses(members: Seq<Crossing>, t_min: Scalar, t_max: Scalar)
    requires
        members.len() <= usize::MAX,
    ensures
        nearest_hit(members, t_min, t_max) is None <==> forall|j: int|
            0 <= j < members.len() ==> (#[trigger] members[j]).first_within(t_min, t_max) is None,
{
    if nearest_hit(members, t_min, t_max) is None {
        assert forall|j: int| 0 <= j < members.len() implies (#[trigger] members[j]).first_within(
            t_min,
            t_max,
        ) is None by {
            if members[j].first_within(t_min, t_max) is Some {
                lemma_nearest_hit_is_nearest(members, t_min, t_max, j);
            }
        }
    } else {
        lemma_nearest_hit_is_a_hit(members, t_min, t_max);
        let n = nearest_hit(members, t_min, t_max).unwrap();
        assert(members[n.index as int].first_within(t_min, t_max) is Some);
    }
}

/// Of members hit at the same ray parameter the walk reports the first: the
/// reported ray parameter lies strictly below that of every earlier member
/// that, taken alone, is hit within `(t_min, t_max)`.
pub proof fn lemma_nearest_hit_is_first(
    members: Seq<Crossing>,
    t_min: Scalar,
    t_max: Scalar,
    j: int,
)
    requires
        members.len() <= usize::MAX,
        nearest_hit(members, t_min, t_max) is Some,
        0 <= j < nearest_hit(members, t_min, t_max).unwrap().index,
        j < members.len(),
        members[j].first_within(t_min, t_max) is Some,
    ensures
        nearest_hit(members, t_min, t_max).unwrap().t.below(
            members[j].first_within(t_min, t_max).unwrap(),
        ),
    decreases members.len(),
{
    let before = nearest_hit(members.drop_last(), t_min, t_max);
    if members.last().first_within(t_min, limit_after(before, t_max)) is Some {
        lemma_nearest_hit_is_nearest(members.drop_last(), t_min, t_max, j);
    } else {
        lemma_nearest_hit_is_a_hit(members.drop_last(), t_min, t_max);
        lemma_nearest_hit_is_first(members.drop_last(), t_min, t_max, j);
    }
}

/// Where every member's roots are in order, the ray parameter that the walk
/// reports is the one at which the named member, taken alone, is hit within
/// `(t_min, t_max)`.
pub proof fn lemma_nearest_hit_of_ordered(members: Seq<Crossing>, t_min: Scalar, t_max: Scalar)
    requires
        members.len() <= usize::MAX,
        forall|j: int| 0 <= j < members.len() ==> (#[trigger] members[j]).ordered(),
    ensures
        nearest_hit(members, t_min, t_max) matches Some(n) ==> n.index < members.len()
            && members[n.index as int].first_within(t_min, t_max) == Some(n.t),
    decreases members.len(),
{
    if members.len() > 0 {
        lemma_nearest_hit_is_a_hit(members.drop_last(), t_min, t_max);
        lemma_nearest_hit_of_ordered(members.drop_last(), t_min, t_max);
        assert(members.last().ordered());
    }
}

} // verus!
