//! Ray/sphere intersection.

use vstd::prelude::*;
use crate::fx::{SCALE, fx_mul, fx_div, fx_sqrt, fx_mul_spec, fx_div_spec, fx_sqrt_spec,
    lemma_fx_mul_bound, lemma_fx_div_bound, lemma_sqrt_bound, abs_i};
use crate::vec3::{Vec3, Point3, in_range, dir_ok, dot_spec, sub_spec, lemma_dot_bound, PMAX};
use crate::ray3::{Ray3, wf_ray, TMAX};

verus! {

/// The discriminant of the quadratic the ray makes with the sphere.
pub open spec fn hit_disc_spec(center: Point3, radius: int, ray: Ray3) -> int {
    let oc = sub_spec(center, ray.origin);
    let a = dot_spec(ray.direction, ray.direction);
    let b = -2 * dot_spec(ray.direction, oc);
    let c = dot_spec(oc, oc) - fx_mul_spec(radius, radius);
    fx_mul_spec(b, b) - 4 * fx_mul_spec(a, c)
}

/// The intersection parameter: the near root of the quadratic when the
/// discriminant is nonnegative, the miss sentinel -1 otherwise.
pub open spec fn hit_spec(center: Point3, radius: int, ray: Ray3) -> int {
    let oc = sub_spec(center, ray.origin);
    let a = dot_spec(ray.direction, ray.direction);
    let b = -2 * dot_spec(ray.direction, oc);
    let disc = hit_disc_spec(center, radius, ray);
    if disc < 0 {
        -(SCALE as int)
    } else {
        fx_div_spec(-b - fx_sqrt_spec(disc), 2 * a)
    }
}

/// Where the ray meets the sphere, as the near root of the implicit
/// quadratic; the sentinel -1 reports a miss.
pub fn hit_sphere(center: Point3, radius: i64, ray: &Ray3) -> (r: i64)
    requires
        in_range(center, PMAX as int),
        1 <= radius <= PMAX,
        wf_ray(*ray),
    ensures
        r == hit_spec(center, radius as int, *ray),
        -TMAX <= r <= TMAX,
        hit_disc_spec(center, radius as int, *ray) < 0 ==> r == -SCALE,
{
    let center_diff = center.sub(&ray.origin());
    proof {
        lemma_dot_bound(ray.direction, center_diff, 131072, 0x80000000);
        lemma_dot_bound(center_diff, center_diff, 0x80000000, 0x80000000);
        lemma_fx_mul_bound(radius as int, radius as int, 0x40000000, 0x40000000);
    }
    let a = ray.direction().dot(&ray.direction());
    let b = -2 * ray.direction().dot(&center_diff);
    let c = center_diff.dot(&center_diff) - fx_mul(radius, radius);
    proof {
        lemma_fx_mul_bound(b as int, b as int, 0x600000000, 0x600000000);
        lemma_fx_mul_bound(a as int, c as int, 524288, 0xD00000000000);
    }
    let discriminant = fx_mul(b, b) - 4 * fx_mul(a, c);
    if discriminant < 0 {
        return -SCALE;
    }
    let sq = fx_sqrt(discriminant);
    proof {
        lemma_sqrt_bound(discriminant as int, sq as int, 0x1000000000);
        lemma_fx_div_bound(-b - sq as int, 2 * a as int, 0x2000000000, 65536);
    }
    fx_div(-b - sq, 2 * a)
}

} // verus!
