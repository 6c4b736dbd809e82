//! Surface materials and their scattering decisions.
//!
//! A material decides whether light that arrives at a surface goes on, in
//! which of the candidate directions, and how it is tinted. The candidate
//! directions and the quantities that the decisions compare come from the
//! caller: as values, for the functions named `scatter_with`, or from the
//! caller's arithmetic, for those named `scatter`. No material holds state.

use vstd::prelude::*;
use crate::arithmetic::Arithmetic;
use crate::hit::Hit;
use crate::ray::Ray;
use crate::scalar::Scalar;
use crate::vec3::Vec3;

verus! {

/// A diffuse surface.
#[derive(Clone, Copy, Debug, PartialEq, Eq, Structural)]
pub struct Lambertian {
    pub albedo: Vec3,
}

/// A mirror, blurred by `fuzz`.
#[derive(Clone, Copy, Debug, PartialEq, Eq, Structural)]
pub struct Metal {
    pub albedo: Vec3,
    pub fuzz: Scalar,
}

/// A clear refracting solid.
#[derive(Clone, Copy, Debug, PartialEq, Eq, Structural)]
pub struct Dielectric {
    pub refraction_index: Scalar,
}

/// The closed set of materials.
#[derive(Clone, Copy, Debug, PartialEq, Eq, Structural)]
pub enum Material {
    Lambertian(Lambertian),
    Metal(Metal),
    Dielectric(Dielectric),
}

impl Lambertian {
    /// A diffuse surface always scatters: from the hit point, in the sampled
    /// direction (the normal plus a random unit vector), tinted by the albedo.
    pub fn scatter_with(&self, hit: &Hit, scatter_direction: Vec3) -> (out: Option<(Vec3, Ray)>)
        ensures
            out == Some((self.albedo, (Ray { origin: hit.point, direction: scatter_direction }))),
    {
        Some((self.albedo, Ray::new(hit.point, scatter_direction)))
    }
}

impl Metal {
    /// Whether a reflected direction leaves the surface: its scalar product
    /// with the normal, `alignment`, is above zero.
    pub open spec fn leaves_surface(alignment: Scalar) -> bool {
        Scalar::zero().below(alignment)
    }

    /// A metal scatters along the fuzzed reflection `reflected` exactly when
    /// that direction lies in the hemisphere of the normal; otherwise the ray
    /// is absorbed. `alignment` is the scalar product of `reflected` and
    /// `hit.normal`.
    pub fn scatter_with(
        &self,
        hit: &Hit,
        reflected: Vec3,
        alignment: Scalar,
    ) -> (out: Option<(Vec3, Ray)>)
        ensures
            Self::leaves_surface(alignment) ==> out == Some(
                (self.albedo, (Ray { origin: hit.point, direction: reflected })),
            ),
            !Self::leaves_surface(alignment) ==> out.is_none(),
    {
        if alignment.gt(Scalar::zero()) {
            Some((self.albedo, Ray::new(hit.point, reflected)))
        } else {
            None
        }
    }
}

impl Dielectric {
    /// Total internal reflection: the refraction ratio times the sine of the
    /// angle of incidence, `product`, is above one, so no refracted ray exists.
    pub open spec fn cannot_refract(product: Scalar) -> bool {
        Scalar::one().below(product)
    }

    /// Whether the ray is reflected: always under total internal reflection,
    /// else when the uniform `sample` falls below the reflectance.
    pub open spec fn chooses_reflection(
        product: Scalar,
        sample: Scalar,
        reflectance: Scalar,
    ) -> bool {
        Self::cannot_refract(product) || sample.below(reflectance)
    }

    /// The cosine of the angle of incidence: the scalar product of the
    /// reversed unit direction and the normal, limited to one from above.
    pub fn cos_theta(projection: Scalar) -> (cos: Scalar)
        ensures
            cos == projection.lesser(Scalar::one()),
            !projection.nan() ==> cos.at_most(Scalar::one()),
    {
        projection.min(Scalar::one())
    }

    /// The ratio of the refraction indices across the surface: the inverse of
    /// the material's index for a ray that enters, the index itself for one
    /// that leaves.
    pub open spec fn ratio(self, front_face: bool, inverse_index: Scalar) -> Scalar {
        if front_face {
            inverse_index
        } else {
            self.refraction_index
        }
    }

    /// The ratio of the refraction indices across the surface, where
    /// `inverse_index` is one divided by the material's index.
    pub fn etai_over_etat(&self, front_face: bool, inverse_index: Scalar) -> (ratio: Scalar)
        ensures
            ratio == self.ratio(front_face, inverse_index),
    {
        if front_face {
            inverse_index
        } else {
            self.refraction_index
        }
    }

    /// Whether total internal reflection occurs, in which case no random
    /// number is drawn.
    pub fn must_reflect(product: Scalar) -> (r: bool)
        ensures
            r == Self::cannot_refract(product),
    {
        product.gt(Scalar::one())
    }

    /// Whether the ray is reflected rather than refracted.
    pub fn reflects(product: Scalar, sample: Scalar, reflectance: Scalar) -> (r: bool)
        ensures
            r == Self::chooses_reflection(product, sample, reflectance),
    {
        Self::must_reflect(product) || sample.lt(reflectance)
    }

    /// A dielectric always scatters, untinted: along `reflected` where
    /// reflection is chosen, along `refracted` otherwise.
    pub fn scatter_with(
        &self,
        hit: &Hit,
        product: Scalar,
        sample: Scalar,
        reflectance: Scalar,
        reflected: Vec3,
        refracted: Vec3,
    ) -> (out: Option<(Vec3, Ray)>)
        ensures
            out matches Some((attenuation, ray)) && attenuation == Vec3::one() && ray.origin
                == hit.point && ray.direction == if Self::chooses_reflection(
                product,
                sample,
                reflectance,
            ) {
                reflected
            } else {
                refracted
            },
    {
        let direction = if Self::reflects(product, sample, reflectance) {
            reflected
        } else {
            refracted
        };
        Some((Vec3::one(), Ray::new(hit.point, direction)))
    }
}

impl Material {
    /// The tint that the material gives to light it scatters: the albedo of
    /// a diffuse or metallic surface, white for a dielectric.
    pub fn attenuation(&self) -> (tint: Vec3)
        ensures
            tint == match *self {
                Material::Lambertian(m) => m.albedo,
                Material::Metal(m) => m.albedo,
                Material::Dielectric(_) => Vec3::one(),
            },
    {
        match self {
            Material::Lambertian(m) => m.albedo,
            Material::Metal(m) => m.albedo,
            Material::Dielectric(_) => Vec3::one(),
        }
    }
}

impl Lambertian {
    /// Whether `out` is what the surface can do to a ray that arrives at
    /// `hit`: it scatters from the hit point along the normal plus a random
    /// unit vector, tinted by its albedo.
    pub open spec fn scattered<A: Arithmetic>(
        self,
        ops: &A,
        hit: Hit,
        out: Option<(Vec3, Ray)>,
    ) -> bool {
        exists|direction: Vec3| #[trigger]
            call_ensures(A::diffuse, (ops, hit.normal), direction) && out == Some(
                (self.albedo, (Ray { origin: hit.point, direction })),
            )
    }

    /// What the surface does to a ray that arrives at `hit`: it always
    /// scatters.
    pub fn scatter<A: Arithmetic>(&self, ray_in: &Ray, hit: &Hit, ops: &A) -> (out: Option<
        (Vec3, Ray),
    >)
        ensures
            self.scattered(ops, *hit, out),
            out.is_some(),
    {
        let direction = ops.diffuse(hit.normal);
        self.scatter_with(hit, direction)
    }
}

impl Metal {
    /// Whether `out` is what the metal can do to the ray `ray_in` that
    /// arrives at `hit`: it scatters along the fuzzed reflection, tinted by
    /// its albedo, where that direction leaves the surface, and absorbs the
    /// ray otherwise.
    pub open spec fn scattered<A: Arithmetic>(
        self,
        ops: &A,
        ray_in: Ray,
        hit: Hit,
        out: Option<(Vec3, Ray)>,
    ) -> bool {
        exists|reflected: Vec3, alignment: Scalar| #[trigger]
            call_ensures(
                A::mirror,
                (ops, ray_in.direction, hit.normal, self.fuzz),
                (reflected, alignment),
            ) && out == if Metal::leaves_surface(alignment) {
                Some((self.albedo, (Ray { origin: hit.point, direction: reflected })))
            } else {
                None
            }
    }

    /// What the metal does to the ray `ray_in` that arrives at `hit`.
    pub fn scatter<A: Arithmetic>(&self, ray_in: &Ray, hit: &Hit, ops: &A) -> (out: Option<
        (Vec3, Ray),
    >)
        ensures
            self.scattered(ops, *ray_in, *hit, out),
    {
        let (reflected, alignment) = ops.mirror(ray_in.direction, hit.normal, self.fuzz);
        assert(call_ensures(
            A::mirror,
            (ops, ray_in.direction, hit.normal, self.fuzz),
            (reflected, alignment),
        ));
        self.scatter_with(hit, reflected, alignment)
    }
}

impl Dielectric {
    /// Whether `direction` is where the dielectric can send a ray for which
    /// the refraction ratio times the sine of the angle of incidence is
    /// `product`: under total internal reflection, the reflection; else the
    /// reflection where a number drawn at random falls below the
    /// reflectance, and the refraction where it does not.
    pub open spec fn bent<A: Arithmetic>(
        self,
        ops: &A,
        ray_in: Ray,
        hit: Hit,
        ratio: Scalar,
        cos: Scalar,
        product: Scalar,
        direction: Vec3,
    ) -> bool {
        if Dielectric::cannot_refract(product) {
            call_ensures(A::reflect, (ops, ray_in.direction, hit.normal), direction)
        } else {
            exists|reflectance: Scalar| #[trigger]
                call_ensures(A::reflectance, (ops, self.refraction_index, cos), reflectance)
                    && exists|sample: Scalar| #[trigger]
                    call_ensures(A::uniform, (ops,), sample) && if sample.below(reflectance) {
                        call_ensures(A::reflect, (ops, ray_in.direction, hit.normal), direction)
                    } else {
                        call_ensures(
                            A::refract,
                            (ops, ray_in.direction, hit.normal, ratio),
                            direction,
                        )
                    }
        }
    }

    /// Whether `out` is what the dielectric can do to the ray `ray_in` that
    /// arrives at `hit`: it always scatters, untinted, from the hit point,
    /// in a direction that follows from the side that is hit, the angle of
    /// incidence and chance.
    pub open spec fn scattered<A: Arithmetic>(
        self,
        ops: &A,
        ray_in: Ray,
        hit: Hit,
        out: Option<(Vec3, Ray)>,
    ) -> bool {
        exists|inverse: Scalar| #[trigger]
            call_ensures(A::inverse, (ops, self.refraction_index), inverse) && exists|
                projection: Scalar,
            | #[trigger]
                call_ensures(A::projection, (ops, ray_in.direction, hit.normal), projection)
                    && exists|product: Scalar| #[trigger]
                    call_ensures(
                        A::bend,
                        (
                            ops,
                            self.ratio(hit.front_face, inverse),
                            projection.lesser(Scalar::one()),
                        ),
                        product,
                    ) && match out {
                        Some((attenuation, ray)) => attenuation == Vec3::one() && ray.origin
                            == hit.point && self.bent(
                            ops,
                            ray_in,
                            hit,
                            self.ratio(hit.front_face, inverse),
                            projection.lesser(Scalar::one()),
                            product,
                            ray.direction,
                        ),
                        None => false,
                    }
    }

    /// What the dielectric does to the ray `ray_in` that arrives at `hit`:
    /// it always scatters. No number is drawn under total internal
    /// reflection, and no refraction is computed for a ray that is
    /// reflected.
    pub fn scatter<A: Arithmetic>(&self, ray_in: &Ray, hit: &Hit, ops: &A) -> (out: Option<
        (Vec3, Ray),
    >)
        ensures
            self.scattered(ops, *ray_in, *hit, out),
            out.is_some(),
    {
        let inverse = ops.inverse(self.refraction_index);
        let ratio = self.etai_over_etat(hit.front_face, inverse);
        let projection = ops.projection(ray_in.direction, hit.normal);
        let cos = Dielectric::cos_theta(projection);
        let product = ops.bend(ratio, cos);
        let direction = if Dielectric::must_reflect(product) {
            ops.reflect(ray_in.direction, hit.normal)
        } else {
            let reflectance = ops.reflectance(self.refraction_index, cos);
            let sample = ops.uniform();
            assert(call_ensures(A::reflectance, (ops, self.refraction_index, cos), reflectance));
            assert(call_ensures(A::uniform, (ops,), sample));
            if sample.lt(reflectance) {
                ops.reflect(ray_in.direction, hit.normal)
            } else {
                ops.refract(ray_in.direction, hit.normal, ratio)
            }
        };
        assert(self.bent(ops, *ray_in, *hit, ratio, cos, product, direction));
        assert(call_ensures(A::bend, (ops, ratio, cos), product));
        assert(call_ensures(A::projection, (ops, ray_in.direction, hit.normal), projection));
        assert(call_ensures(A::inverse, (ops, self.refraction_index), inverse));
        Some((Vec3::one(), Ray::new(hit.point, direction)))
    }
}

impl Material {
    /// Whether `out` is what the material can do to the ray `ray_in` that
    /// arrives at `hit`: nothing, where it absorbs the ray; else the
    /// attenuation and the scattered ray.
    pub open spec fn scattered<A: Arithmetic>(
        self,
        ops: &A,
        ray_in: Ray,
        hit: Hit,
        out: Option<(Vec3, Ray)>,
    ) -> bool {
        match self {
            Material::Lambertian(matte) => matte.scattered(ops, hit, out),
            Material::Metal(metal) => metal.scattered(ops, ray_in, hit, out),
            Material::Dielectric(glass) => glass.scattered(ops, ray_in, hit, out),
        }
    }

    /// What the material does to the ray `ray_in` that arrives at `hit`.
    pub fn scatter<A: Arithmetic>(&self, ray_in: &Ray, hit: &Hit, ops: &A) -> (out: Option<
        (Vec3, Ray),
    >)
        ensures
            self.scattered(ops, *ray_in, *hit, out),
    {
        match self {
            Material::Lambertian(matte) => matte.scatter(ray_in, hit, ops),
            Material::Metal(metal) => metal.scatter(ray_in, hit, ops),
            Material::Dielectric(glass) => glass.scatter(ray_in, hit, ops),
        }
    }
}

/// Under total internal reflection the ray is reflected whatever number is
/// drawn and whatever the reflectance is: never by chance.
pub proof fn total_internal_reflection_always_reflects(
    product: Scalar,
    sample: Scalar,
    reflectance: Scalar,
)
    requires
        Dielectric::cannot_refract(product),
    ensures
        Dielectric::chooses_reflection(product, sample, reflectance),
{
}

/// A dielectric for which the refraction ratio times the sine of the angle of
/// incidence is above one, whatever way it is computed, scatters the ray
/// along its reflection: untinted, from the hit point, and never along a
/// refraction.
pub proof fn glass_reflects_totally<A: Arithmetic>(
    ops: &A,
    glass: Dielectric,
    ray_in: Ray,
    hit: Hit,
    out: Option<(Vec3, Ray)>,
)
    requires
        glass.scattered(ops, ray_in, hit, out),
        forall|ratio: Scalar, cos: Scalar, product: Scalar|
            call_ensures(A::bend, (ops, ratio, cos), product) ==> Dielectric::cannot_refract(
                product,
            ),
    ensures
        out matches Some((attenuation, ray)) && attenuation == Vec3::one() && ray.origin
            == hit.point && call_ensures(
            A::reflect,
            (ops, ray_in.direction, hit.normal),
            ray.direction,
        ),
{
}

/// A diffuse surface and a dielectric never absorb a ray.
pub proof fn only_metal_absorbs<A: Arithmetic>(
    ops: &A,
    material: Material,
    ray_in: Ray,
    hit: Hit,
    out: Option<(Vec3, Ray)>,
)
    requires
        material.scattered(ops, ray_in, hit, out),
        out.is_none(),
    ensures
        material is Metal,
{
}

} // verus!
