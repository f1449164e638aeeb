//! The path of one ray through a scene: how far it is followed and how it
//! ends.
//!
//! The caller casts rays and evaluates how surfaces scatter them; this module
//! decides, after each cast, whether the path goes on, and keeps what the
//! radiance is made of. The radiance of a path is what it ends in, the
//! background seen along the last direction or black, weakened by each
//! attenuation in turn, the last one first.

use crate::ray::Ray;
use crate::scalar::Scalar;
use crate::vector::Vector3;
use vstd::prelude::*;

verus! {

/// The pattern of 0.0001, the least ray parameter beyond which a hit counts.
pub const NEAREST_BITS: u32 = 0x38d1_b717;

/// The range of ray parameters in which a path looks for a hit: from a
/// little above zero, so that a scattered ray does not hit the surface that
/// it starts on, to infinity.
pub fn range() -> (ends: (Scalar, Scalar))
    ensures
        ends.0.bits == NEAREST_BITS,
        ends.1.bits == crate::scalar::INFINITY_BITS,
        (Scalar { bits: 0 }).below(ends.0),
        ends.0.below(ends.1),
{
    let nearest = Scalar::from_bits(NEAREST_BITS);
    proof {
        crate::scalar::lemma_positive(nearest);
    }
    (nearest, Scalar::infinity())
}

/// What came of casting a ray.
#[derive(Clone, Copy, Debug)]
pub enum Sight {
    /// The ray met no surface.
    Miss,
    /// The ray met a surface whose material did not scatter it.
    Absorbed,
    /// The ray met a surface whose material scattered it.
    Scattered { attenuation: Vector3, ray: Ray },
}

/// Where a path stands.
#[derive(Clone, Copy, Debug)]
pub enum Stage {
    /// `ray` is to be cast next; the path may be followed through
    /// `depth_remaining` casts, this one counted.
    Cast { ray: Ray, depth_remaining: i32 },
    /// The path ended black: its depth was used up.
    Exhausted,
    /// The path ended black: a material absorbed it.
    Absorbed,
    /// The path left the scene along `direction` and ended in the background.
    Background { direction: Vector3 },
}

impl Stage {
    /// The stage of a path that is about to follow `ray` with
    /// `depth_remaining` casts left.
    pub open spec fn start(ray: Ray, depth_remaining: i32) -> Stage {
        if depth_remaining <= 0 {
            Stage::Exhausted
        } else {
            Stage::Cast { ray, depth_remaining }
        }
    }

    /// Whether the stage is one that a path can reach: a cast is asked for
    /// only while depth is left.
    pub open spec fn wf(self) -> bool {
        self matches Stage::Cast { depth_remaining, .. } ==> depth_remaining > 0
    }

    /// Whether the path has ended.
    pub open spec fn ended(self) -> bool {
        !(self is Cast)
    }

    /// Whether the path has ended.
    pub fn is_ended(&self) -> (r: bool)
        ensures
            r == self.ended(),
    {
        match self {
            Stage::Cast { .. } => false,
            _ => true,
        }
    }
}

/// A path as far as it has been followed.
#[derive(Debug)]
pub struct Path {
    pub stage: Stage,
    /// The attenuations of the scatterings so far, the first one first.
    pub attenuations: Vec<Vector3>,
}

/// A path after `sight` has come of the cast that `stage` asked for: a path
/// that has ended stays as it is, whatever is seen.
pub open spec fn follow(stage: Stage, attenuations: Seq<Vector3>, sight: Sight) -> (
    Stage,
    Seq<Vector3>,
) {
    match stage {
        Stage::Cast { ray, depth_remaining } => if depth_remaining <= 0 {
            (Stage::Exhausted, attenuations)
        } else {
            match sight {
                Sight::Miss => (Stage::Background { direction: ray.b }, attenuations),
                Sight::Absorbed => (Stage::Absorbed, attenuations),
                Sight::Scattered { attenuation, ray: scattered } => (
                    Stage::start(scattered, (depth_remaining - 1) as i32),
                    attenuations.push(attenuation),
                ),
            }
        },
        _ => (stage, attenuations),
    }
}

/// A path after the casts that it asked for have brought `sights`, in order.
pub open spec fn follow_all(stage: Stage, attenuations: Seq<Vector3>, sights: Seq<Sight>) -> (
    Stage,
    Seq<Vector3>,
)
    decreases sights.len(),
{
    if sights.len() == 0 {
        (stage, attenuations)
    } else {
        let (next, kept) = follow(stage, attenuations, sights.first());
        follow_all(next, kept, sights.drop_first())
    }
}

impl Path {
    pub open spec fn view(&self) -> (Stage, Seq<Vector3>) {
        (self.stage, self.attenuations@)
    }

    /// The path that is about to follow `ray` through at most
    /// `depth_remaining` casts. With no depth left it has ended black before
    /// anything is cast.
    pub fn new(ray: Ray, depth_remaining: i32) -> (path: Path)
        ensures
            path@ == (Stage::start(ray, depth_remaining), Seq::<Vector3>::empty()),
    {
        let stage = if depth_remaining <= 0 {
            Stage::Exhausted
        } else {
            Stage::Cast { ray, depth_remaining }
        };
        Path { stage, attenuations: Vec::new() }
    }
}

/// Takes the path one step on: `sight` is what came of the cast that the
/// path asked for.
pub fn color(path: &mut Path, sight: Sight)
    ensures
        final(path)@ == follow(old(path).stage, old(path).attenuations@, sight),
        final(path).stage.wf(),
{
    match path.stage {
        Stage::Cast { ray, depth_remaining } => {
            if depth_remaining <= 0 {
                path.stage = Stage::Exhausted;
            } else {
                match sight {
                    Sight::Miss => {
                        path.stage = Stage::Background { direction: ray.direction() };
                    },
                    Sight::Absorbed => {
                        path.stage = Stage::Absorbed;
                    },
                    Sight::Scattered { attenuation, ray: scattered } => {
                        path.attenuations.push(attenuation);
                        path.stage = if depth_remaining - 1 <= 0 {
                            Stage::Exhausted
                        } else {
                            Stage::Cast { ray: scattered, depth_remaining: depth_remaining - 1 }
                        };
                    },
                }
            }
        },
        _ => {},
    }
}

/// With no depth left a path is black, whatever the scene holds: no cast
/// changes that.
pub proof fn lemma_no_depth_is_black(ray: Ray, depth_remaining: i32, sights: Seq<Sight>)
    requires
        depth_remaining <= 0,
    ensures
        follow_all(Stage::start(ray, depth_remaining), Seq::empty(), sights) == (
            Stage::Exhausted,
            Seq::<Vector3>::empty(),
        ),
        shade(ray, depth_remaining, sights) == Radiance::Black,
{
    lemma_ended_stays(Stage::Exhausted, Seq::empty(), sights);
}

/// A path that has ended stays as it is.
pub proof fn lemma_ended_stays(stage: Stage, attenuations: Seq<Vector3>, sights: Seq<Sight>)
    requires
        stage.ended(),
    ensures
        follow_all(stage, attenuations, sights) == (stage, attenuations),
    decreases sights.len(),
{
    if sights.len() > 0 {
        lemma_ended_stays(stage, attenuations, sights.drop_first());
    }
}

/// A ray that misses every surface ends in the background along its own
/// direction with nothing attenuated: neither its origin nor the depth that
/// is left, as long as some is, has a part in it.
pub proof fn lemma_miss_is_background(ray: Ray, depth_remaining: i32, sights: Seq<Sight>)
    requires
        depth_remaining > 0,
        sights.len() > 0,
        sights.first() is Miss,
    ensures
        follow_all(Stage::start(ray, depth_remaining), Seq::empty(), sights) == (
            Stage::Background { direction: ray.b },
            Seq::<Vector3>::empty(),
        ),
        shade(ray, depth_remaining, sights) == Radiance::Sky(ray.b),
{
    lemma_ended_stays(Stage::Background { direction: ray.b }, Seq::empty(), sights.drop_first());
}

/// A path is followed through at most as many casts as it was given depth:
/// after that many sights it has ended, and it holds no more attenuations
/// than that.
pub proof fn lemma_path_ends(ray: Ray, depth_remaining: i32, sights: Seq<Sight>)
    requires
        sights.len() >= depth_remaining,
    ensures
        follow_all(Stage::start(ray, depth_remaining), Seq::empty(), sights).0.ended(),
        follow_all(Stage::start(ray, depth_remaining), Seq::empty(), sights).1.len() <= if 0
            < depth_remaining {
            depth_remaining as int
        } else {
            0
        },
{
    lemma_follow_all_ends(Stage::start(ray, depth_remaining), Seq::empty(), sights);
}

/// The casts that a stage may still ask for.
pub open spec fn casts_left(stage: Stage) -> int {
    match stage {
        Stage::Cast { depth_remaining, .. } => if depth_remaining <= 0 {
            0
        } else {
            depth_remaining as int
        },
        _ => 0,
    }
}

/// Each cast uses up depth: after as many sights as a stage has casts left
/// the path has ended, and each sight adds at most one attenuation, and none
/// beyond the casts that were left.
pub proof fn lemma_follow_all_ends(stage: Stage, attenuations: Seq<Vector3>, sights: Seq<Sight>)
    requires
        stage.wf(),
    ensures
        follow_all(stage, attenuations, sights).0.wf(),
        sights.len() >= casts_left(stage) ==> follow_all(stage, attenuations, sights).0.ended(),
        follow_all(stage, attenuations, sights).1.len() <= attenuations.len() + casts_left(stage),
        casts_left(follow_all(stage, attenuations, sights).0) <= casts_left(stage),
    decreases sights.len(),
{
    if sights.len() > 0 {
        let (next, kept) = follow(stage, attenuations, sights.first());
        lemma_follow_all_ends(next, kept, sights.drop_first());
    }
}

/// A radiance, written out: what is multiplied, and in which order.
#[derive(Debug)]
pub enum Radiance {
    /// No light.
    Black,
    /// The background seen along a direction.
    Sky(Vector3),
    /// A radiance weakened by an attenuation, channel by channel.
    Times(Vector3, Box<Radiance>),
}

/// The radiance along `ray` with `depth_remaining` casts left, where the
/// casts bring `sights` in order: black with no depth left; the background
/// along the ray where it misses; black where it is absorbed; and where it
/// is scattered, the radiance along the scattered ray with one cast less,
/// weakened by the attenuation.
pub open spec fn shade(ray: Ray, depth_remaining: i32, sights: Seq<Sight>) -> Radiance
    decreases sights.len(),
{
    if depth_remaining <= 0 || sights.len() == 0 {
        Radiance::Black
    } else {
        match sights.first() {
            Sight::Miss => Radiance::Sky(ray.b),
            Sight::Absorbed => Radiance::Black,
            Sight::Scattered { attenuation, ray: scattered } => Radiance::Times(
                attenuation,
                Box::new(shade(scattered, (depth_remaining - 1) as i32, sights.drop_first())),
            ),
        }
    }
}

/// `end` weakened by each of `attenuations` in turn, the last one first.
pub open spec fn weakened(attenuations: Seq<Vector3>, end: Radiance) -> Radiance
    decreases attenuations.len(),
{
    if attenuations.len() == 0 {
        end
    } else {
        weakened(attenuations.drop_last(), Radiance::Times(attenuations.last(), Box::new(end)))
    }
}

/// The radiance of a path that has ended.
pub open spec fn radiance(stage: Stage, attenuations: Seq<Vector3>) -> Radiance {
    weakened(
        attenuations,
        match stage {
            Stage::Background { direction } => Radiance::Sky(direction),
            _ => Radiance::Black,
        },
    )
}

impl Path {
    /// Writes out the radiance of the path: what it ends in, weakened by
    /// each attenuation in turn, the last one first. A path that has not
    /// ended counts as black where it stands.
    pub fn radiance(&self) -> (written: Radiance)
        ensures
            written == radiance(self.stage, self.attenuations@),
    {
        let mut written = match self.stage {
            Stage::Background { direction } => Radiance::Sky(direction),
            _ => Radiance::Black,
        };
        let mut i: usize = self.attenuations.len();
        assert(self.attenuations@.take(i as int) =~= self.attenuations@);
        while i > 0
            invariant
                i <= self.attenuations.len(),
                weakened(self.attenuations@.take(i as int), written) == radiance(
                    self.stage,
                    self.attenuations@,
                ),
            decreases i,
        {
            assert(self.attenuations@.take(i as int).drop_last() =~= self.attenuations@.take(
                i - 1,
            ));
            i -= 1;
            written = Radiance::Times(self.attenuations[i], Box::new(written));
        }
        written
    }
}

/// Following a path step by step gives the radiance that `shade` defines:
/// once the casts have brought as many sights as the path was given depth,
/// what the path ends in, weakened by the attenuations it has kept, the last
/// one first, is that radiance.
pub proof fn lemma_path_is_shade(ray: Ray, depth_remaining: i32, sights: Seq<Sight>)
    requires
        sights.len() >= depth_remaining,
    ensures
        ({
            let (stage, attenuations) = follow_all(
                Stage::start(ray, depth_remaining),
                Seq::empty(),
                sights,
            );
            radiance(stage, attenuations) == shade(ray, depth_remaining, sights)
        }),
{
    lemma_follow_all_is_shade(ray, depth_remaining, Seq::empty(), sights);
}

/// The same of a path that is under way with `attenuations` kept.
proof fn lemma_follow_all_is_shade(
    ray: Ray,
    depth_remaining: i32,
    attenuations: Seq<Vector3>,
    sights: Seq<Sight>,
)
    requires
        sights.len() >= depth_remaining,
    ensures
        ({
            let (stage, kept) = follow_all(
                Stage::start(ray, depth_remaining),
                attenuations,
                sights,
            );
            radiance(stage, kept) == weakened(attenuations, shade(ray, depth_remaining, sights))
        }),
    decreases sights.len(),
{
    let start = Stage::start(ray, depth_remaining);
    if depth_remaining <= 0 {
        lemma_ended_stays(start, attenuations, sights);
    } else {
        let (next, kept) = follow(start, attenuations, sights.first());
        match sights.first() {
            Sight::Scattered { attenuation, ray: scattered } => {
                lemma_follow_all_is_shade(
                    scattered,
                    (depth_remaining - 1) as i32,
                    kept,
                    sights.drop_first(),
                );
                assert(kept.drop_last() =~= attenuations);
            },
            _ => {
                lemma_ended_stays(next, kept, sights.drop_first());
            },
        }
    }
}

} // verus!
