//! Sphere objects and their materials.
//!
//! The material set is closed, so the objects form a tagged-variant type
//! with an explicit match for intersection and scattering, rather than
//! virtual dispatch. Scattering consumes sampler draws, and each variant
//! states its attenuation, outgoing ray and follow-on sampler state as an
//! exact function of the inputs and the incoming state.

use vstd::prelude::*;
use crate::fx::{SCALE, fx_mul, fx_div, fx_sqrt, fx_mul_spec, fx_div_spec, fx_sqrt_spec,
    lemma_fx_mul_bound, lemma_fx_div_bound, lemma_sqrt_bound, lemma_fx_square_nonneg};
use vstd::arithmetic::div_mod::lemma_div_is_ordered_by_denominator;
use crate::vec3::{Vec3, Point3, Color3, v3, in_range, dir_ok, color_ok, dot_spec, sub_spec,
    add_spec, neg_spec, scale_spec, near_zero_spec, unit_or_default, unit_or_default_spec,
    reflect, reflect_spec, refract, refract_spec, sample_unit_spec, lemma_dot_bound, PMAX};
use crate::ray3::{Ray3, wf_ray, at_spec, TMAX};
use crate::rand::{Rand, lcg_next, lcg_out};
use crate::shape::{hit_sphere, hit_spec, hit_disc_spec};

verus! {

/// The color of full transmission.
pub open spec fn white() -> Vec3 {
    v3(SCALE as int, SCALE as int, SCALE as int)
}

/// The surface normal at the point the ray reaches at `t`, oriented against
/// the incoming ray.
pub open spec fn surface_normal_spec(center: Point3, ray: Ray3, t: int) -> Vec3 {
    let n0 = unit_or_default_spec(sub_spec(at_spec(ray, t), center));
    if dot_spec(n0, ray.direction) > 0 {
        neg_spec(n0)
    } else {
        n0
    }
}

/// The oriented surface normal, computed.
fn surface_normal(center: &Point3, ray: &Ray3, t: i64) -> (r: Vec3)
    requires
        wf_ray(*ray),
        in_range(*center, PMAX as int),
        0 < t <= TMAX,
        in_range(at_spec(*ray, t as int), PMAX as int),
    ensures
        r == surface_normal_spec(*center, *ray, t as int),
        in_range(r, 2 * SCALE as int),
{
    let p = ray.at(t);
    let n0 = unit_or_default(&p.sub(center));
    if n0.dot(&ray.direction()) > 0 {
        n0.neg()
    } else {
        n0
    }
}

pub struct LambertianSphere {
    pub center: Point3,
    pub radius: i64,
    pub albedo: Color3,
}

pub struct MetalSphere {
    pub center: Point3,
    pub radius: i64,
    pub albedo: Color3,
    pub fuzz: i64,
}

pub struct GlassSphere {
    pub center: Point3,
    pub radius: i64,
    pub albedo: Color3,
    pub refraction_index: i64,
}

pub open spec fn wf_lambertian(s: LambertianSphere) -> bool {
    &&& in_range(s.center, PMAX as int)
    &&& 1 <= s.radius <= PMAX
    &&& color_ok(s.albedo)
}

pub open spec fn wf_metal(s: MetalSphere) -> bool {
    &&& in_range(s.center, PMAX as int)
    &&& 1 <= s.radius <= PMAX
    &&& color_ok(s.albedo)
    &&& 0 <= s.fuzz <= SCALE
}

pub open spec fn wf_glass(s: GlassSphere) -> bool {
    &&& in_range(s.center, PMAX as int)
    &&& 1 <= s.radius <= PMAX
    &&& color_ok(s.albedo)
    &&& SCALE / 4 <= s.refraction_index <= 16 * SCALE
}

/// What a diffuse surface does to a hit: the normal plus a sampled unit
/// vector sets the outgoing direction (the bare normal stands in when the
/// sum degenerates to zero), and the albedo is the attenuation.
pub open spec fn lambertian_scatter_spec(s: LambertianSphere, ray: Ray3, t: int, st: int) -> (
    Vec3,
    Ray3,
    int,
) {
    let p = at_spec(ray, t);
    let n = surface_normal_spec(s.center, ray, t);
    let (ruv, st1) = sample_unit_spec(st, 64);
    let d0 = add_spec(n, ruv);
    let d = if near_zero_spec(d0) {
        n
    } else {
        d0
    };
    (s.albedo, Ray3 { origin: p, direction: unit_or_default_spec(d) }, st1)
}

/// What a metal surface does to a hit: mirror reflection perturbed by
/// `fuzz` times a sampled unit vector; the albedo is the attenuation.
pub open spec fn metal_scatter_spec(s: MetalSphere, ray: Ray3, t: int, st: int) -> (
    Vec3,
    Ray3,
    int,
) {
    let p = at_spec(ray, t);
    let n = surface_normal_spec(s.center, ray, t);
    let refl = unit_or_default_spec(reflect_spec(ray.direction, n));
    let (ruv, st1) = sample_unit_spec(st, 64);
    let d = add_spec(refl, scale_spec(ruv, s.fuzz as int));
    (s.albedo, Ray3 { origin: p, direction: unit_or_default_spec(d) }, st1)
}

/// The Schlick reflectance approximation.
pub open spec fn glass_reflectance_spec(cosine: int, refraction_index: int) -> int {
    let r0a = fx_div_spec(SCALE - refraction_index, SCALE + refraction_index);
    let r0 = fx_mul_spec(r0a, r0a);
    let omc = SCALE - cosine;
    let p2 = fx_mul_spec(omc, omc);
    let p4 = fx_mul_spec(p2, p2);
    let p5 = fx_mul_spec(p4, omc);
    r0 + fx_mul_spec(SCALE - r0, p5)
}

/// Whether the ray leaves the glass: the outward normal and the ray point
/// into the same hemisphere.
pub open spec fn glass_exiting(s: GlassSphere, ray: Ray3, t: int) -> bool {
    dot_spec(unit_or_default_spec(sub_spec(at_spec(ray, t), s.center)), ray.direction) > 0
}

/// The boundary normal, oriented against the incoming ray.
pub open spec fn glass_normal(s: GlassSphere, ray: Ray3, t: int) -> Vec3 {
    let n0 = unit_or_default_spec(sub_spec(at_spec(ray, t), s.center));
    if glass_exiting(s, ray, t) {
        neg_spec(n0)
    } else {
        n0
    }
}

/// The relative refraction index at the boundary the ray crosses.
pub open spec fn glass_relative_index(s: GlassSphere, ray: Ray3, t: int) -> int {
    if glass_exiting(s, ray, t) {
        s.refraction_index as int
    } else {
        fx_div_spec(SCALE as int, s.refraction_index as int)
    }
}

/// The cosine of the incidence angle, capped at one.
pub open spec fn glass_cos_theta(s: GlassSphere, ray: Ray3, t: int) -> int {
    let c0 = dot_spec(neg_spec(ray.direction), glass_normal(s, ray, t));
    if c0 < SCALE {
        c0
    } else {
        SCALE as int
    }
}

/// The sine of the incidence angle, from the capped cosine.
pub open spec fn glass_sin_theta(s: GlassSphere, ray: Ray3, t: int) -> int {
    let c = glass_cos_theta(s, ray, t);
    let arg0 = SCALE - fx_mul_spec(c, c);
    fx_sqrt_spec(
        if arg0 >= 0 {
            arg0
        } else {
            0
        },
    )
}

/// What a dielectric surface does to a hit: refract by Snell's law unless
/// total internal reflection or the Schlick test forces a reflection. The
/// glass is colorless, so the attenuation is full white; the Schlick test
/// draws from the sampler only when total internal reflection does not
/// already decide.
pub open spec fn glass_scatter_spec(s: GlassSphere, ray: Ray3, t: int, st: int) -> (
    Vec3,
    Ray3,
    int,
) {
    let p = at_spec(ray, t);
    let n = glass_normal(s, ray, t);
    let ri = glass_relative_index(s, ray, t);
    let cos_theta = glass_cos_theta(s, ray, t);
    let sin_theta = glass_sin_theta(s, ray, t);
    if fx_mul_spec(ri, sin_theta) > SCALE {
        (white(), Ray3 { origin: p, direction: unit_or_default_spec(reflect_spec(ray.direction, n)) }, st)
    } else {
        let dir = if glass_reflectance_spec(cos_theta, ri) > lcg_out(st) {
            reflect_spec(ray.direction, n)
        } else {
            refract_spec(ray.direction, n, ri)
        };
        (white(), Ray3 { origin: p, direction: unit_or_default_spec(dir) }, lcg_next(st))
    }
}

/// Total internal reflection: whenever the relative index times the sine of
/// the incidence angle exceeds one, a dielectric scatter reflects — it never
/// refracts, and it consumes no sampler draw.
pub proof fn lemma_total_internal_reflection(s: GlassSphere, ray: Ray3, t: int, st: int)
    requires
        fx_mul_spec(glass_relative_index(s, ray, t), glass_sin_theta(s, ray, t)) > SCALE,
    ensures
        glass_scatter_spec(s, ray, t, st).1.direction == unit_or_default_spec(
            reflect_spec(ray.direction, glass_normal(s, ray, t)),
        ),
        glass_scatter_spec(s, ray, t, st).2 == st,
{
}

impl LambertianSphere {
    pub fn new(center: Point3, radius: i64, albedo: Color3) -> (r: Self)
        requires
            in_range(center, PMAX as int),
            1 <= radius <= PMAX,
            color_ok(albedo),
        ensures
            r == (LambertianSphere { center, radius, albedo }),
            wf_lambertian(r),
    {
        Self { center, radius, albedo }
    }

    pub fn hit_it(&self, ray: &Ray3) -> (r: i64)
        requires
            wf_lambertian(*self),
            wf_ray(*ray),
        ensures
            r == hit_spec(self.center, self.radius as int, *ray),
            -TMAX <= r <= TMAX,
            hit_disc_spec(self.center, self.radius as int, *ray) < 0 ==> r == -SCALE,
    {
        hit_sphere(self.center, self.radius, ray)
    }

    pub fn scatter(
        &self,
        ray_in: &Ray3,
        intersection_point_t: i64,
        return_ray: &mut Ray3,
        randomizer: &mut Rand,
    ) -> (r: Vec3)
        requires
            wf_lambertian(*self),
            wf_ray(*ray_in),
            0 < intersection_point_t <= TMAX,
            in_range(at_spec(*ray_in, intersection_point_t as int), PMAX as int),
        ensures
            ({
                let (att, ray, st) = lambertian_scatter_spec(*self, *ray_in,
                    intersection_point_t as int, old(randomizer).curr as int);
                &&& r == att
                &&& *final(return_ray) == ray
                &&& final(randomizer).curr == st
            }),
            wf_ray(*final(return_ray)),
            color_ok(r),
    {
        let p = ray_in.at(intersection_point_t);
        let n = surface_normal(&self.center, ray_in, intersection_point_t);
        let ruv = Vec3::random_unit_vector(randomizer);
        let mut scatter_direction_vector = n.add(&ruv);
        if scatter_direction_vector.near_zero() {
            scatter_direction_vector = n;
        }
        *return_ray = Ray3::new(p, scatter_direction_vector);
        self.albedo
    }
}

impl MetalSphere {
    pub fn new(center: Point3, radius: i64, albedo: Color3, fuzz: i64) -> (r: Self)
        requires
            in_range(center, PMAX as int),
            1 <= radius <= PMAX,
            color_ok(albedo),
            0 <= fuzz <= SCALE,
        ensures
            r == (MetalSphere { center, radius, albedo, fuzz }),
            wf_metal(r),
    {
        Self { center, radius, albedo, fuzz }
    }

    pub fn hit_it(&self, ray: &Ray3) -> (r: i64)
        requires
            wf_metal(*self),
            wf_ray(*ray),
        ensures
            r == hit_spec(self.center, self.radius as int, *ray),
            -TMAX <= r <= TMAX,
            hit_disc_spec(self.center, self.radius as int, *ray) < 0 ==> r == -SCALE,
    {
        hit_sphere(self.center, self.radius, ray)
    }

    pub fn scatter(
        &self,
        ray_in: &Ray3,
        intersection_point_t: i64,
        return_ray: &mut Ray3,
        randomizer: &mut Rand,
    ) -> (r: Vec3)
        requires
            wf_metal(*self),
            wf_ray(*ray_in),
            0 < intersection_point_t <= TMAX,
            in_range(at_spec(*ray_in, intersection_point_t as int), PMAX as int),
        ensures
            ({
                let (att, ray, st) = metal_scatter_spec(*self, *ray_in,
                    intersection_point_t as int, old(randomizer).curr as int);
                &&& r == att
                &&& *final(return_ray) == ray
                &&& final(randomizer).curr == st
            }),
            wf_ray(*final(return_ray)),
            color_ok(r),
    {
        let p = ray_in.at(intersection_point_t);
        let n = surface_normal(&self.center, ray_in, intersection_point_t);
        let refl = unit_or_default(&reflect(&ray_in.direction(), &n));
        let ruv = Vec3::random_unit_vector(randomizer);
        proof {
            lemma_fx_mul_bound(self.fuzz as int, ruv.x as int, 65536, 131072);
            lemma_fx_mul_bound(self.fuzz as int, ruv.y as int, 65536, 131072);
            lemma_fx_mul_bound(self.fuzz as int, ruv.z as int, 65536, 131072);
        }
        let reflected = refl.add(&ruv.scale(self.fuzz));
        *return_ray = Ray3::new(p, reflected);
        self.albedo
    }
}

impl GlassSphere {
    pub fn new(center: Point3, radius: i64, albedo: Color3, refraction_index: i64) -> (r: Self)
        requires
            in_range(center, PMAX as int),
            1 <= radius <= PMAX,
            color_ok(albedo),
            SCALE / 4 <= refraction_index <= 16 * SCALE,
        ensures
            r == (GlassSphere { center, radius, albedo, refraction_index }),
            wf_glass(r),
    {
        Self { center, radius, albedo, refraction_index }
    }

    /// The Schlick reflectance approximation, computed.
    pub fn reflectance(&self, cosine: i64, refraction_index: i64) -> (r: i64)
        requires
            -786432 <= cosine <= SCALE,
            4096 <= refraction_index <= 1048576,
        ensures
            r == glass_reflectance_spec(cosine as int, refraction_index as int),
    {
        proof {
            lemma_fx_div_bound(SCALE - refraction_index as int, SCALE + refraction_index as int,
                1048576, 65536);
        }
        let mut r0 = fx_div(SCALE - refraction_index, SCALE + refraction_index);
        proof {
            lemma_fx_mul_bound(r0 as int, r0 as int, 1048576, 1048576);
        }
        r0 = fx_mul(r0, r0);
        let omc = SCALE - cosine;
        proof {
            lemma_fx_mul_bound(omc as int, omc as int, 851968, 851968);
        }
        let p2 = fx_mul(omc, omc);
        proof {
            lemma_fx_mul_bound(p2 as int, p2 as int, 11075584, 11075584);
        }
        let p4 = fx_mul(p2, p2);
        proof {
            lemma_fx_mul_bound(p4 as int, omc as int, 1871773696, 851968);
        }
        let p5 = fx_mul(p4, omc);
        proof {
            lemma_fx_mul_bound(SCALE - r0 as int, p5 as int, 0x2000000, 0x800000000);
        }
        r0 + fx_mul(SCALE - r0, p5)
    }

    pub fn hit_it(&self, ray: &Ray3) -> (r: i64)
        requires
            wf_glass(*self),
            wf_ray(*ray),
        ensures
            r == hit_spec(self.center, self.radius as int, *ray),
            -TMAX <= r <= TMAX,
            hit_disc_spec(self.center, self.radius as int, *ray) < 0 ==> r == -SCALE,
    {
        hit_sphere(self.center, self.radius, ray)
    }

    pub fn scatter(
        &self,
        ray_in: &Ray3,
        intersection_point_t: i64,
        return_ray: &mut Ray3,
        randomizer: &mut Rand,
    ) -> (r: Vec3)
        requires
            wf_glass(*self),
            wf_ray(*ray_in),
            0 < intersection_point_t <= TMAX,
            in_range(at_spec(*ray_in, intersection_point_t as int), PMAX as int),
        ensures
            ({
                let (att, ray, st) = glass_scatter_spec(*self, *ray_in,
                    intersection_point_t as int, old(randomizer).curr as int);
                &&& r == att
                &&& *final(return_ray) == ray
                &&& final(randomizer).curr == st
            }),
            wf_ray(*final(return_ray)),
            color_ok(r),
    {
        let p = ray_in.at(intersection_point_t);
        let n0 = unit_or_default(&p.sub(&self.center));
        let exiting = n0.dot(&ray_in.direction()) > 0;
        let n = if exiting {
            n0.neg()
        } else {
            n0
        };
        proof {
            lemma_fx_div_bound(SCALE as int, self.refraction_index as int, 65536, 16384);
            lemma_div_is_ordered_by_denominator(65536int * 65536, self.refraction_index as int,
                16int * 65536);
        }
        let ri = if exiting {
            self.refraction_index
        } else {
            fx_div(SCALE, self.refraction_index)
        };
        let nd = ray_in.direction().neg();
        proof {
            lemma_dot_bound(nd, n, 131072, 131072);
        }
        let c0 = nd.dot(&n);
        let cos_theta = if c0 < SCALE {
            c0
        } else {
            SCALE
        };
        proof {
            lemma_fx_mul_bound(cos_theta as int, cos_theta as int, 786432, 786432);
            lemma_fx_square_nonneg(cos_theta as int);
        }
        let arg0 = SCALE - fx_mul(cos_theta, cos_theta);
        let sin_theta = fx_sqrt(
            if arg0 >= 0 {
                arg0
            } else {
                0
            },
        );
        proof {
            lemma_sqrt_bound(
                if arg0 >= 0 {
                    arg0 as int
                } else {
                    0
                },
                sin_theta as int,
                65537,
            );
            lemma_fx_mul_bound(ri as int, sin_theta as int, 1048576, 65537);
        }
        let cannot_refract = fx_mul(ri, sin_theta) > SCALE;
        let direction = if cannot_refract {
            reflect(&ray_in.direction(), &n)
        } else {
            let rnd = randomizer.next();
            if self.reflectance(cos_theta, ri) > rnd {
                reflect(&ray_in.direction(), &n)
            } else {
                refract(&ray_in.direction(), &n, ri)
            }
        };
        *return_ray = Ray3::new(p, direction);
        Vec3::new(SCALE, SCALE, SCALE)
    }
}

/// A scene object: one of the sphere variants. The variant set is closed,
/// so intersection and scattering dispatch by an explicit match.
pub enum HittableMaterial {
    Lambertian(LambertianSphere),
    Metal(MetalSphere),
    Glass(GlassSphere),
}

pub open spec fn wf_object(o: HittableMaterial) -> bool {
    match o {
        HittableMaterial::Lambertian(s) => wf_lambertian(s),
        HittableMaterial::Metal(s) => wf_metal(s),
        HittableMaterial::Glass(s) => wf_glass(s),
    }
}

pub open spec fn center_of(o: HittableMaterial) -> Point3 {
    match o {
        HittableMaterial::Lambertian(s) => s.center,
        HittableMaterial::Metal(s) => s.center,
        HittableMaterial::Glass(s) => s.center,
    }
}

pub open spec fn radius_of(o: HittableMaterial) -> int {
    match o {
        HittableMaterial::Lambertian(s) => s.radius as int,
        HittableMaterial::Metal(s) => s.radius as int,
        HittableMaterial::Glass(s) => s.radius as int,
    }
}

/// Where the ray meets the object.
pub open spec fn hit_of(o: HittableMaterial, ray: Ray3) -> int {
    hit_spec(center_of(o), radius_of(o), ray)
}

/// What the object's material does to a hit.
pub open spec fn scatter_of(o: HittableMaterial, ray: Ray3, t: int, st: int) -> (Vec3, Ray3, int) {
    match o {
        HittableMaterial::Lambertian(s) => lambertian_scatter_spec(s, ray, t, st),
        HittableMaterial::Metal(s) => metal_scatter_spec(s, ray, t, st),
        HittableMaterial::Glass(s) => glass_scatter_spec(s, ray, t, st),
    }
}

impl HittableMaterial {
    pub fn hit_it(&self, ray: &Ray3) -> (r: i64)
        requires
            wf_object(*self),
            wf_ray(*ray),
        ensures
            r == hit_of(*self, *ray),
            -TMAX <= r <= TMAX,
    {
        match self {
            HittableMaterial::Lambertian(s) => s.hit_it(ray),
            HittableMaterial::Metal(s) => s.hit_it(ray),
            HittableMaterial::Glass(s) => s.hit_it(ray),
        }
    }

    pub fn scatter(
        &self,
        ray_in: &Ray3,
        intersection_point_t: i64,
        return_ray: &mut Ray3,
        randomizer: &mut Rand,
    ) -> (r: Vec3)
        requires
            wf_object(*self),
            wf_ray(*ray_in),
            0 < intersection_point_t <= TMAX,
            in_range(at_spec(*ray_in, intersection_point_t as int), PMAX as int),
        ensures
            ({
                let (att, ray, st) = scatter_of(*self, *ray_in, intersection_point_t as int,
                    old(randomizer).curr as int);
                &&& r == att
                &&& *final(return_ray) == ray
                &&& final(randomizer).curr == st
            }),
            wf_ray(*final(return_ray)),
            color_ok(r),
    {
        match self {
            HittableMaterial::Lambertian(s) => s.scatter(ray_in, intersection_point_t,
                return_ray, randomizer),
            HittableMaterial::Metal(s) => s.scatter(ray_in, intersection_point_t, return_ray,
                randomizer),
            HittableMaterial::Glass(s) => s.scatter(ray_in, intersection_point_t, return_ray,
                randomizer),
        }
    }
}

} // verus!
