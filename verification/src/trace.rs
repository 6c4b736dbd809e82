//! The recursive estimate of the light that arrives along a ray: the
//! recursion, its depth budget, the query of the scene and the case
//! analysis.

use vstd::prelude::*;
use crate::arithmetic::Arithmetic;
use crate::hit::{answers, solved, Crossings, Hit, Hittable, Interval, Sphere};
use crate::ray::Ray;
use crate::vec3::Vec3;

verus! {

/// What the scene does to a ray.
#[derive(Clone, Copy, Debug, PartialEq, Eq, Structural)]
pub enum Bounce {
    /// The ray hits nothing and sees the background, of the given colour.
    Miss(Vec3),
    /// The ray hits a surface that absorbs it.
    Absorbed,
    /// The ray hits a surface that scatters it: the attenuation, and the
    /// scattered ray.
    Scattered(Vec3, Ray),
}

impl Bounce {
    /// The bounce at a surface that was hit, from what its material
    /// answered: absorbed where it gave nothing, scattered otherwise.
    pub open spec fn surface(scatter: Option<(Vec3, Ray)>) -> Bounce {
        match scatter {
            Some((attenuation, scattered)) => Bounce::Scattered(attenuation, scattered),
            None => Bounce::Absorbed,
        }
    }

    pub fn at_surface(scatter: Option<(Vec3, Ray)>) -> (bounce: Bounce)
        ensures
            bounce == Self::surface(scatter),
    {
        match scatter {
            Some((attenuation, scattered)) => Bounce::Scattered(attenuation, scattered),
            None => Bounce::Absorbed,
        }
    }
}

/// Whether `step` is what can follow the query's answer `found`: where
/// nothing is hit, the ray sees the background; where a surface is hit, its
/// material absorbs or scatters the ray.
pub open spec fn follows<A: Arithmetic>(
    ops: &A,
    ray: Ray,
    found: Option<Hit>,
    step: Bounce,
) -> bool {
    match found {
        None => exists|colour: Vec3| #[trigger]
            call_ensures(A::background, (ops, ray), colour) && step == Bounce::Miss(colour),
        Some(hit) => exists|scattered: Option<(Vec3, Ray)>| #[trigger]
            hit.material.scattered(ops, ray, hit, scattered) && step == Bounce::surface(
                scattered,
            ),
    }
}

/// Whether `step` is what can happen to `ray` in a scene with the spheres
/// `spheres`: the nearest hit in front of the ray's origin is looked for,
/// and the bounce follows from what is found.
pub open spec fn bounced<A: Arithmetic>(
    ops: &A,
    spheres: Seq<Sphere>,
    ray: Ray,
    step: Bounce,
) -> bool {
    exists|crossings: Seq<Crossings>, found: Option<Hit>|
        solved(ops, spheres, ray, crossings) && #[trigger] answers(
            spheres,
            crossings,
            Interval::forward(),
            found,
        ) && follows(ops, ray, found, step)
}

/// Whether `out` is a colour that tracing `ray` with `depth` bounces left can
/// give:
/// - with no depth left, black;
/// - where the ray misses, the background;
/// - where it is absorbed, black;
/// - where it is scattered, the attenuation applied to a colour of the
///   scattered ray traced with one bounce less.
pub open spec fn traced<A: Arithmetic>(
    ops: &A,
    spheres: Seq<Sphere>,
    ray: Ray,
    depth: nat,
    out: Vec3,
) -> bool
    decreases depth,
{
    if depth == 0 {
        out == Vec3::zero()
    } else {
        exists|step: Bounce| #[trigger]
            bounced(ops, spheres, ray, step) && match step {
                Bounce::Miss(colour) => out == colour,
                Bounce::Absorbed => out == Vec3::zero(),
                Bounce::Scattered(attenuation, next) => exists|inner: Vec3|
                    traced(ops, spheres, next, (depth - 1) as nat, inner)
                        && #[trigger] call_ensures(A::tint, (ops, attenuation, inner), out),
            }
    }
}

/// What happens to `ray` at the scene: the nearest surface in front of its
/// origin is looked for; where there is none, the ray sees the background;
/// where there is one, its material absorbs or scatters the ray.
pub fn bounce<A: Arithmetic>(ray: Ray, scene: &Hittable, ops: &A) -> (step: Bounce)
    ensures
        bounced(ops, scene.leaves(), ray, step),
{
    let found = scene.hit(ray, Interval::forward(), ops);
    let step = match found {
        Some(hit) => {
            let scattered = hit.material.scatter(&ray, &hit, ops);
            Bounce::at_surface(scattered)
        },
        None => {
            let colour = ops.background(ray);
            assert(call_ensures(A::background, (ops, ray), colour));
            Bounce::Miss(colour)
        },
    };
    assert(follows(ops, ray, found, step));
    step
}

/// The colour that arrives along `ray` in the scene, following at most
/// `depth` bounces. With no bounce left the colour is black, whatever the
/// scene holds.
pub fn ray_color<A: Arithmetic>(ray: Ray, scene: &Hittable, depth: u32, ops: &A) -> (out: Vec3)
    ensures
        traced(ops, scene.leaves(), ray, depth as nat, out),
        depth == 0 ==> out == Vec3::zero(),
    decreases depth,
{
    if depth == 0 {
        return Vec3::zero();
    }
    let step = bounce(ray, scene, ops);
    match step {
        Bounce::Miss(colour) => colour,
        Bounce::Absorbed => Vec3::zero(),
        Bounce::Scattered(attenuation, next) => {
            let inner = ray_color(next, scene, depth - 1, ops);
            let out = ops.tint(attenuation, inner);
            assert(call_ensures(A::tint, (ops, attenuation, inner), out));
            out
        },
    }
}

/// A ray that is traced with no bounce left is black, and nothing else:
/// whatever the scene holds, whatever its materials do, and however colours
/// are attenuated.
pub proof fn exhausted_depth_is_black<A: Arithmetic>(
    ops: &A,
    spheres: Seq<Sphere>,
    ray: Ray,
    out: Vec3,
)
    ensures
        traced(ops, spheres, ray, 0, out) <==> out == Vec3::zero(),
{
}

} // verus!
