//! Three-component vectors over fixed-point scalars.
//!
//! The same type serves as point, direction and color, as the callers
//! choose. Every operation states its result exactly, component by
//! component, over the scalar spec functions.

use vstd::prelude::*;
use crate::fx::{SCALE, fx_mul, fx_div, fx_sqrt, fx_mul_spec, fx_div_spec, fx_sqrt_spec,
    lemma_fx_mul_bound, lemma_fx_div_bound, lemma_sqrt_bound, abs_i};
use crate::rand::{Rand, lcg_next, lcg_out_in};

verus! {

/// Largest component magnitude the quadratic forms accept.
pub const VMAX: i64 = 0x4000000000;

/// Largest component magnitude of a world coordinate.
pub const PMAX: i64 = 0x40000000;

/// A component below one quantum counts as zero.
pub const NEAR_EPS: i64 = 1;

#[derive(Clone, Copy, Debug, PartialEq, Eq, Structural)]
pub struct Vec3 {
    pub x: i64,
    pub y: i64,
    pub z: i64,
}

pub type Point3 = Vec3;

pub type Color3 = Vec3;

pub open spec fn v3(x: int, y: int, z: int) -> Vec3 {
    Vec3 { x: x as i64, y: y as i64, z: z as i64 }
}

pub open spec fn in_range(v: Vec3, b: int) -> bool {
    &&& -b <= v.x <= b
    &&& -b <= v.y <= b
    &&& -b <= v.z <= b
}

pub open spec fn add_spec(a: Vec3, b: Vec3) -> Vec3 {
    v3(a.x + b.x, a.y + b.y, a.z + b.z)
}

pub open spec fn sub_spec(a: Vec3, b: Vec3) -> Vec3 {
    v3(a.x - b.x, a.y - b.y, a.z - b.z)
}

pub open spec fn neg_spec(a: Vec3) -> Vec3 {
    v3(-a.x, -a.y, -a.z)
}

/// Component-wise product, as colors multiply.
pub open spec fn mul_spec(a: Vec3, b: Vec3) -> Vec3 {
    v3(fx_mul_spec(a.x as int, b.x as int), fx_mul_spec(a.y as int, b.y as int),
        fx_mul_spec(a.z as int, b.z as int))
}

pub open spec fn scale_spec(a: Vec3, t: int) -> Vec3 {
    v3(fx_mul_spec(t, a.x as int), fx_mul_spec(t, a.y as int), fx_mul_spec(t, a.z as int))
}

pub open spec fn div_spec(a: Vec3, t: int) -> Vec3 {
    v3(fx_div_spec(a.x as int, t), fx_div_spec(a.y as int, t), fx_div_spec(a.z as int, t))
}

pub open spec fn dot_spec(a: Vec3, b: Vec3) -> int {
    fx_mul_spec(a.x as int, b.x as int) + fx_mul_spec(a.y as int, b.y as int) + fx_mul_spec(
        a.z as int,
        b.z as int,
    )
}

pub open spec fn cross_spec(a: Vec3, b: Vec3) -> Vec3 {
    v3(
        fx_mul_spec(a.y as int, b.z as int) - fx_mul_spec(a.z as int, b.y as int),
        fx_mul_spec(a.z as int, b.x as int) - fx_mul_spec(a.x as int, b.z as int),
        fx_mul_spec(a.x as int, b.y as int) - fx_mul_spec(a.y as int, b.x as int),
    )
}

pub open spec fn unit_spec(v: Vec3) -> Vec3 {
    let l = fx_sqrt_spec(dot_spec(v, v));
    v3(fx_div_spec(v.x as int, l), fx_div_spec(v.y as int, l), fx_div_spec(v.z as int, l))
}

pub open spec fn near_zero_spec(v: Vec3) -> bool {
    &&& abs_i(v.x as int) < NEAR_EPS
    &&& abs_i(v.y as int) < NEAR_EPS
    &&& abs_i(v.z as int) < NEAR_EPS
}

/// A color: every channel within [0, 1].
pub open spec fn color_ok(c: Vec3) -> bool {
    &&& 0 <= c.x <= SCALE
    &&& 0 <= c.y <= SCALE
    &&& 0 <= c.z <= SCALE
}

/// A usable ray direction: roughly unit length, components within two units.
pub open spec fn dir_ok(d: Vec3) -> bool {
    &&& in_range(d, 2 * SCALE)
    &&& SCALE / 2 <= dot_spec(d, d) <= 8 * SCALE
}

/// Normalization with a fixed fallback: the quantized unit vector where the
/// input admits one that stays in the unit window, a fixed axis otherwise.
pub open spec fn unit_or_default_spec(v: Vec3) -> Vec3 {
    if in_range(v, VMAX as int) && 1 <= dot_spec(v, v) && dir_ok(unit_spec(v)) {
        unit_spec(v)
    } else {
        v3(0, 0, SCALE as int)
    }
}

/// Each scaled product of components bounded by `ba` and `bb` is bounded by
/// `ba * bb / SCALE`; the dot product by three times that.
pub proof fn lemma_dot_bound(a: Vec3, b: Vec3, ba: int, bb: int)
    requires
        in_range(a, ba),
        in_range(b, bb),
    ensures
        abs_i(dot_spec(a, b)) <= 3 * ((ba * bb) / (SCALE as int)),
        abs_i(fx_mul_spec(a.x as int, b.x as int)) <= (ba * bb) / (SCALE as int),
        abs_i(fx_mul_spec(a.y as int, b.y as int)) <= (ba * bb) / (SCALE as int),
        abs_i(fx_mul_spec(a.z as int, b.z as int)) <= (ba * bb) / (SCALE as int),
{
    lemma_fx_mul_bound(a.x as int, b.x as int, ba, bb);
    lemma_fx_mul_bound(a.y as int, b.y as int, ba, bb);
    lemma_fx_mul_bound(a.z as int, b.z as int, ba, bb);
}

/// A dot product of a vector with itself is nonnegative.
pub proof fn lemma_dot_self_nonneg(a: Vec3)
    ensures
        0 <= dot_spec(a, a),
        0 <= fx_mul_spec(a.x as int, a.x as int),
        0 <= fx_mul_spec(a.y as int, a.y as int),
        0 <= fx_mul_spec(a.z as int, a.z as int),
{
    crate::fx::lemma_fx_square_nonneg(a.x as int);
    crate::fx::lemma_fx_square_nonneg(a.y as int);
    crate::fx::lemma_fx_square_nonneg(a.z as int);
}

/// A vector of three consecutive draws in [0, 1), with the state that
/// follows them.
pub open spec fn random_spec(s: int) -> (Vec3, int) {
    let s1 = lcg_next(s);
    let s2 = lcg_next(s1);
    let s3 = lcg_next(s2);
    (v3(crate::rand::lcg_out(s), crate::rand::lcg_out(s1), crate::rand::lcg_out(s2)), s3)
}

/// A vector of three consecutive draws in [min, max], with the state that
/// follows them.
pub open spec fn random_range_spec(s: int, min: int, max: int) -> (Vec3, int) {
    let s1 = lcg_next(s);
    let s2 = lcg_next(s1);
    let s3 = lcg_next(s2);
    (v3(lcg_out_in(s, min, max), lcg_out_in(s1, min, max), lcg_out_in(s2, min, max)), s3)
}

/// Rejection sampling of a direction on the unit sphere: draw a vector in
/// the cube [-1, 1]^3 and keep it when its squared length falls in (0, 1],
/// normalizing the kept draw. After `tries` rejections a fixed axis stands
/// in, which makes the sampler total.
pub open spec fn sample_unit_spec(s: int, tries: nat) -> (Vec3, int)
    decreases tries,
{
    if tries == 0 {
        (v3(0, 0, SCALE as int), s)
    } else {
        let (cand, s1) = random_range_spec(s, -SCALE as int, SCALE as int);
        let ls = dot_spec(cand, cand);
        if 0 < ls <= SCALE {
            (unit_or_default_spec(cand), s1)
        } else {
            sample_unit_spec(s1, (tries - 1) as nat)
        }
    }
}

/// A sampled unit vector, flipped into the hemisphere of `normal`.
pub open spec fn hemisphere_spec(normal: Vec3, s: int) -> (Vec3, int) {
    let (u, s1) = sample_unit_spec(s, 64);
    if dot_spec(u, normal) > 0 {
        (u, s1)
    } else {
        (sub_spec(v3(0, 0, 0), u), s1)
    }
}

impl Vec3 {
    pub fn new(one: i64, two: i64, three: i64) -> (r: Self)
        ensures
            r == (Vec3 { x: one, y: two, z: three }),
    {
        Vec3 { x: one, y: two, z: three }
    }

    pub fn x(&self) -> (r: i64)
        ensures
            r == self.x,
    {
        self.x
    }

    pub fn y(&self) -> (r: i64)
        ensures
            r == self.y,
    {
        self.y
    }

    pub fn z(&self) -> (r: i64)
        ensures
            r == self.z,
    {
        self.z
    }

    pub fn add(&self, other: &Vec3) -> (r: Vec3)
        requires
            i64::MIN <= self.x + other.x <= i64::MAX,
            i64::MIN <= self.y + other.y <= i64::MAX,
            i64::MIN <= self.z + other.z <= i64::MAX,
        ensures
            r == add_spec(*self, *other),
    {
        Vec3 { x: self.x + other.x, y: self.y + other.y, z: self.z + other.z }
    }

    pub fn sub(&self, other: &Vec3) -> (r: Vec3)
        requires
            i64::MIN <= self.x - other.x <= i64::MAX,
            i64::MIN <= self.y - other.y <= i64::MAX,
            i64::MIN <= self.z - other.z <= i64::MAX,
        ensures
            r == sub_spec(*self, *other),
    {
        Vec3 { x: self.x - other.x, y: self.y - other.y, z: self.z - other.z }
    }

    pub fn neg(&self) -> (r: Vec3)
        requires
            i64::MIN < self.x,
            i64::MIN < self.y,
            i64::MIN < self.z,
        ensures
            r == neg_spec(*self),
    {
        Vec3 { x: -self.x, y: -self.y, z: -self.z }
    }

    /// Component-wise product, as colors multiply.
    pub fn mul(&self, other: &Vec3) -> (r: Vec3)
        requires
            i64::MIN <= fx_mul_spec(self.x as int, other.x as int) <= i64::MAX,
            i64::MIN <= fx_mul_spec(self.y as int, other.y as int) <= i64::MAX,
            i64::MIN <= fx_mul_spec(self.z as int, other.z as int) <= i64::MAX,
        ensures
            r == mul_spec(*self, *other),
    {
        Vec3 {
            x: fx_mul(self.x, other.x),
            y: fx_mul(self.y, other.y),
            z: fx_mul(self.z, other.z),
        }
    }

    /// The vector scaled by the scalar `t`.
    pub fn scale(&self, t: i64) -> (r: Vec3)
        requires
            i64::MIN <= fx_mul_spec(t as int, self.x as int) <= i64::MAX,
            i64::MIN <= fx_mul_spec(t as int, self.y as int) <= i64::MAX,
            i64::MIN <= fx_mul_spec(t as int, self.z as int) <= i64::MAX,
        ensures
            r == scale_spec(*self, t as int),
    {
        Vec3 { x: fx_mul(t, self.x), y: fx_mul(t, self.y), z: fx_mul(t, self.z) }
    }

    /// The vector divided by the scalar `t`.
    pub fn div(&self, t: i64) -> (r: Vec3)
        requires
            t != 0,
            i64::MIN <= fx_div_spec(self.x as int, t as int) <= i64::MAX,
            i64::MIN <= fx_div_spec(self.y as int, t as int) <= i64::MAX,
            i64::MIN <= fx_div_spec(self.z as int, t as int) <= i64::MAX,
        ensures
            r == div_spec(*self, t as int),
    {
        Vec3 { x: fx_div(self.x, t), y: fx_div(self.y, t), z: fx_div(self.z, t) }
    }

    pub fn dot(&self, other: &Vec3) -> (r: i64)
        requires
            in_range(*self, VMAX as int),
            in_range(*other, VMAX as int),
        ensures
            r == dot_spec(*self, *other),
    {
        proof {
            lemma_dot_bound(*self, *other, VMAX as int, VMAX as int);
        }
        fx_mul(self.x, other.x) + fx_mul(self.y, other.y) + fx_mul(self.z, other.z)
    }

    pub fn cross(&self, other: &Vec3) -> (r: Vec3)
        requires
            in_range(*self, VMAX as int),
            in_range(*other, VMAX as int),
        ensures
            r == cross_spec(*self, *other),
    {
        proof {
            lemma_fx_mul_bound(self.y as int, other.z as int, VMAX as int, VMAX as int);
            lemma_fx_mul_bound(self.z as int, other.y as int, VMAX as int, VMAX as int);
            lemma_fx_mul_bound(self.z as int, other.x as int, VMAX as int, VMAX as int);
            lemma_fx_mul_bound(self.x as int, other.z as int, VMAX as int, VMAX as int);
            lemma_fx_mul_bound(self.x as int, other.y as int, VMAX as int, VMAX as int);
            lemma_fx_mul_bound(self.y as int, other.x as int, VMAX as int, VMAX as int);
        }
        Vec3 {
            x: fx_mul(self.y, other.z) - fx_mul(self.z, other.y),
            y: fx_mul(self.z, other.x) - fx_mul(self.x, other.z),
            z: fx_mul(self.x, other.y) - fx_mul(self.y, other.x),
        }
    }

    pub fn length_squared(&self) -> (r: i64)
        requires
            in_range(*self, VMAX as int),
        ensures
            r == dot_spec(*self, *self),
            0 <= r,
    {
        proof {
            lemma_dot_self_nonneg(*self);
        }
        self.dot(self)
    }

    pub fn length(&self) -> (r: i64)
        requires
            in_range(*self, VMAX as int),
        ensures
            r == fx_sqrt_spec(dot_spec(*self, *self)),
            0 <= r < 0x10000000000,
            r * r <= dot_spec(*self, *self) * SCALE,
            dot_spec(*self, *self) * SCALE < (r + 1) * (r + 1),
    {
        let ls = self.length_squared();
        fx_sqrt(ls)
    }

    /// All components below one quantum in magnitude.
    pub fn near_zero(&self) -> (r: bool)
        ensures
            r == near_zero_spec(*self),
    {
        -NEAR_EPS < self.x && self.x < NEAR_EPS && -NEAR_EPS < self.y && self.y < NEAR_EPS
            && -NEAR_EPS < self.z && self.z < NEAR_EPS
    }

    /// A vector of three draws in [0, 1).
    pub fn random(randomizer: &mut Rand) -> (r: Vec3)
        ensures
            r == random_spec(old(randomizer).curr as int).0,
            final(randomizer).curr == random_spec(old(randomizer).curr as int).1,
            in_range(r, SCALE as int),
    {
        let one = randomizer.next();
        let two = randomizer.next();
        let three = randomizer.next();
        Vec3 { x: one, y: two, z: three }
    }

    /// A vector of three draws in [range_min, range_max].
    pub fn random_with_randomizer_and_range(
        randomizer: &mut Rand,
        range_min: i64,
        range_max: i64,
    ) -> (r: Vec3)
        requires
            range_min <= range_max,
            -0x40000000 <= range_min,
            range_max <= 0x40000000,
        ensures
            r == random_range_spec(old(randomizer).curr as int, range_min as int,
                range_max as int).0,
            final(randomizer).curr == random_range_spec(old(randomizer).curr as int,
                range_min as int, range_max as int).1,
            range_min <= r.x <= range_max,
            range_min <= r.y <= range_max,
            range_min <= r.z <= range_max,
    {
        let one = randomizer.next_with_range(range_min, range_max);
        let two = randomizer.next_with_range(range_min, range_max);
        let three = randomizer.next_with_range(range_min, range_max);
        Vec3 { x: one, y: two, z: three }
    }

    /// A sampled direction on the unit sphere.
    pub fn random_unit_vector(randomizer: &mut Rand) -> (r: Vec3)
        ensures
            r == sample_unit_spec(old(randomizer).curr as int, 64).0,
            final(randomizer).curr == sample_unit_spec(old(randomizer).curr as int, 64).1,
            dir_ok(r),
    {
        sample_unit(randomizer, 64)
    }

    /// A sampled unit vector in the hemisphere of `normal`.
    pub fn random_on_hemisphere(normal: &Vec3, randomizer: &mut Rand) -> (r: Vec3)
        requires
            in_range(*normal, VMAX as int),
        ensures
            r == hemisphere_spec(*normal, old(randomizer).curr as int).0,
            final(randomizer).curr == hemisphere_spec(*normal, old(randomizer).curr as int).1,
    {
        let on_unit_sphere = Vec3::random_unit_vector(randomizer);
        if on_unit_sphere.dot(normal) > 0 {
            on_unit_sphere
        } else {
            Vec3::new(0, 0, 0).sub(&on_unit_sphere)
        }
    }

    /// The quantized unit vector. The input must not be degenerate: its
    /// squared length must reach one quantum.
    pub fn unit_vector(&self) -> (r: Vec3)
        requires
            in_range(*self, VMAX as int),
            1 <= dot_spec(*self, *self),
        ensures
            r == unit_spec(*self),
            in_range(r, 0x400000000000),
    {
        let l = self.length();
        proof {
            assert(dot_spec(*self, *self) * SCALE >= 65536);
            assert(l >= 256) by (nonlinear_arith)
                requires
                    0 <= l,
                    (l + 1) * (l + 1) > 65536,
            ;
            lemma_fx_div_bound(self.x as int, l as int, VMAX as int, 256);
            lemma_fx_div_bound(self.y as int, l as int, VMAX as int, 256);
            lemma_fx_div_bound(self.z as int, l as int, VMAX as int, 256);
        }
        Vec3 { x: fx_div(self.x, l), y: fx_div(self.y, l), z: fx_div(self.z, l) }
    }
}

/// One rejection-sampling pass with the given retry budget.
fn sample_unit(randomizer: &mut Rand, tries: u32) -> (r: Vec3)
    ensures
        r == sample_unit_spec(old(randomizer).curr as int, tries as nat).0,
        final(randomizer).curr == sample_unit_spec(old(randomizer).curr as int, tries as nat).1,
        dir_ok(r),
    decreases tries,
{
    proof {
        lemma_fx_mul_bound(SCALE as int, SCALE as int, SCALE as int, SCALE as int);
        assert(fx_mul_spec(SCALE as int, SCALE as int) == 65536);
    }
    if tries == 0 {
        Vec3::new(0, 0, SCALE)
    } else {
        let cand = Vec3::random_with_randomizer_and_range(randomizer, -SCALE, SCALE);
        let ls = cand.length_squared();
        if 0 < ls && ls <= SCALE {
            unit_or_default(&cand)
        } else {
            sample_unit(randomizer, tries - 1)
        }
    }
}

/// True exactly when every component lies within `b` in magnitude.
pub fn in_range_check(v: &Vec3, b: i64) -> (r: bool)
    requires
        0 <= b,
    ensures
        r == in_range(*v, b as int),
{
    -b <= v.x && v.x <= b && -b <= v.y && v.y <= b && -b <= v.z && v.z <= b
}

/// Normalization with a fixed fallback for degenerate input; the result is
/// always a usable ray direction.
pub fn unit_or_default(v: &Vec3) -> (r: Vec3)
    ensures
        r == unit_or_default_spec(*v),
        dir_ok(r),
{
    proof {
        lemma_fx_mul_bound(SCALE as int, SCALE as int, SCALE as int, SCALE as int);
        assert(fx_mul_spec(SCALE as int, SCALE as int) == 65536);
    }
    if in_range_check(v, VMAX) {
        let ls = v.length_squared();
        if 1 <= ls {
            let u = v.unit_vector();
            if in_range_check(&u, 2 * SCALE) {
                let lu = u.length_squared();
                if SCALE / 2 <= lu && lu <= 8 * SCALE {
                    return u;
                }
            }
        }
    }
    Vec3::new(0, 0, SCALE)
}

pub fn dot(u: &Vec3, v: &Vec3) -> (r: i64)
    requires
        in_range(*u, VMAX as int),
        in_range(*v, VMAX as int),
    ensures
        r == dot_spec(*u, *v),
{
    u.dot(v)
}

pub fn cross(u: &Vec3, v: &Vec3) -> (r: Vec3)
    requires
        in_range(*u, VMAX as int),
        in_range(*v, VMAX as int),
    ensures
        r == cross_spec(*u, *v),
{
    u.cross(v)
}

pub fn unit_vector(v: &Vec3) -> (r: Vec3)
    requires
        in_range(*v, VMAX as int),
        1 <= dot_spec(*v, *v),
    ensures
        r == unit_spec(*v),
{
    v.unit_vector()
}

/// The direction `v` mirrored about the unit normal `n`.
pub open spec fn reflect_spec(v: Vec3, n: Vec3) -> Vec3 {
    let k = 2 * dot_spec(v, n);
    v3(
        v.x - fx_mul_spec(k, n.x as int),
        v.y - fx_mul_spec(k, n.y as int),
        v.z - fx_mul_spec(k, n.z as int),
    )
}

/// Reflection preserves length. Stated over the exact model the quantized
/// operations approximate: components are plain integers scaled by `SCALE`,
/// products carry no rounding, and the reflection of v about n is
/// `SCALE² · v − 2 (v·n) n`. For every n of squared length exactly one
/// (n·n == SCALE²), the squared length of the reflection equals `SCALE⁴`
/// times the squared length of v. The executable `reflect` computes the
/// same value with each product rounded by one scaling step.
pub proof fn lemma_reflect_preserves_length(
    vx: int,
    vy: int,
    vz: int,
    nx: int,
    ny: int,
    nz: int,
)
    requires
        nx * nx + ny * ny + nz * nz == SCALE * SCALE,
    ensures
        ({
            let k = vx * nx + vy * ny + vz * nz;
            let rx = SCALE * SCALE * vx - 2 * k * nx;
            let ry = SCALE * SCALE * vy - 2 * k * ny;
            let rz = SCALE * SCALE * vz - 2 * k * nz;
            rx * rx + ry * ry + rz * rz == SCALE * SCALE * SCALE * SCALE * (vx * vx + vy * vy + vz
                * vz)
        }),
{
    lemma_reflect_expansion(vx, vy, vz, nx, ny, nz, SCALE * SCALE);
}

/// The reflection identity over an arbitrary squared scale `s2`.
proof fn lemma_reflect_expansion(vx: int, vy: int, vz: int, nx: int, ny: int, nz: int, s2: int)
    requires
        nx * nx + ny * ny + nz * nz == s2,
    ensures
        ({
            let k = vx * nx + vy * ny + vz * nz;
            let rx = s2 * vx - 2 * k * nx;
            let ry = s2 * vy - 2 * k * ny;
            let rz = s2 * vz - 2 * k * nz;
            rx * rx + ry * ry + rz * rz == s2 * s2 * (vx * vx + vy * vy + vz * vz)
        }),
{
    let k = vx * nx + vy * ny + vz * nz;
    lemma_reflect_component(vx, nx, s2, k);
    lemma_reflect_component(vy, ny, s2, k);
    lemma_reflect_component(vz, nz, s2, k);
    assert(4 * s2 * k * (vx * nx) + 4 * s2 * k * (vy * ny) + 4 * s2 * k * (vz * nz) == 4 * s2 * (k
        * k)) by (nonlinear_arith)
        requires
            k == vx * nx + vy * ny + vz * nz,
    ;
    assert(4 * (k * k) * (nx * nx) + 4 * (k * k) * (ny * ny) + 4 * (k * k) * (nz * nz) == 4 * s2 * (
    k * k)) by (nonlinear_arith)
        requires
            nx * nx + ny * ny + nz * nz == s2,
    ;
    assert(s2 * s2 * (vx * vx) + s2 * s2 * (vy * vy) + s2 * s2 * (vz * vz) == s2 * s2 * (vx * vx
        + vy * vy + vz * vz)) by (nonlinear_arith);
}

/// One component of the reflection, squared and expanded.
proof fn lemma_reflect_component(v: int, n: int, s2: int, k: int)
    ensures
        (s2 * v - 2 * k * n) * (s2 * v - 2 * k * n) == s2 * s2 * (v * v) - 4 * s2 * k * (v * n) + 4
            * (k * k) * (n * n),
{
    let a = s2 * v;
    let b = 2 * k * n;
    assert((a - b) * (a - b) == a * a - 2 * (a * b) + b * b) by (nonlinear_arith);
    assert(a * a == s2 * s2 * (v * v)) by (nonlinear_arith)
        requires
            a == s2 * v,
    ;
    assert(2 * (a * b) == 4 * s2 * k * (v * n)) by (nonlinear_arith)
        requires
            a == s2 * v,
            b == 2 * k * n,
    ;
    assert(b * b == 4 * (k * k) * (n * n)) by (nonlinear_arith)
        requires
            b == 2 * k * n,
    ;
}

pub fn reflect(v: &Vec3, n: &Vec3) -> (r: Vec3)
    requires
        in_range(*v, PMAX as int),
        in_range(*n, PMAX as int),
    ensures
        r == reflect_spec(*v, *n),
{
    proof {
        lemma_dot_bound(*v, *n, 0x40000000, 0x40000000);
    }
    let d = v.dot(n);
    let k = 2 * d;
    proof {
        lemma_fx_mul_bound(k as int, n.x as int, 0x600000000000, 0x40000000);
        lemma_fx_mul_bound(k as int, n.y as int, 0x600000000000, 0x40000000);
        lemma_fx_mul_bound(k as int, n.z as int, 0x600000000000, 0x40000000);
    }
    Vec3 { x: v.x - fx_mul(k, n.x), y: v.y - fx_mul(k, n.y), z: v.z - fx_mul(k, n.z) }
}

/// Snell refraction of the unit direction `uv` at the unit normal `n`, for
/// the relative index `etai_over_etat`. For a ratio past total internal
/// reflection the result is the non-physical vector the formulas give.
pub open spec fn refract_spec(uv: Vec3, n: Vec3, etai_over_etat: int) -> Vec3 {
    let c = dot_spec(neg_spec(uv), n);
    let cos_theta = if c < SCALE {
        c
    } else {
        SCALE as int
    };
    let perp = v3(
        fx_mul_spec(etai_over_etat, uv.x + fx_mul_spec(cos_theta, n.x as int)),
        fx_mul_spec(etai_over_etat, uv.y + fx_mul_spec(cos_theta, n.y as int)),
        fx_mul_spec(etai_over_etat, uv.z + fx_mul_spec(cos_theta, n.z as int)),
    );
    let s = fx_sqrt_spec(abs_i(SCALE - dot_spec(perp, perp)));
    v3(
        perp.x - fx_mul_spec(s, n.x as int),
        perp.y - fx_mul_spec(s, n.y as int),
        perp.z - fx_mul_spec(s, n.z as int),
    )
}

pub fn refract(uv: &Vec3, n: &Vec3, etai_over_etat: i64) -> (r: Vec3)
    requires
        in_range(*uv, 2 * SCALE as int),
        in_range(*n, 2 * SCALE as int),
        1 <= etai_over_etat <= 0x100000,
    ensures
        r == refract_spec(*uv, *n, etai_over_etat as int),
{
    let nu = uv.neg();
    proof {
        lemma_dot_bound(nu, *n, 131072, 131072);
    }
    let c = nu.dot(n);
    let cos_theta = if c < SCALE {
        c
    } else {
        SCALE
    };
    proof {
        lemma_fx_mul_bound(cos_theta as int, n.x as int, 786432, 131072);
        lemma_fx_mul_bound(cos_theta as int, n.y as int, 786432, 131072);
        lemma_fx_mul_bound(cos_theta as int, n.z as int, 786432, 131072);
    }
    let ix = uv.x + fx_mul(cos_theta, n.x);
    let iy = uv.y + fx_mul(cos_theta, n.y);
    let iz = uv.z + fx_mul(cos_theta, n.z);
    proof {
        lemma_fx_mul_bound(etai_over_etat as int, ix as int, 0x100000, 0x200000);
        lemma_fx_mul_bound(etai_over_etat as int, iy as int, 0x100000, 0x200000);
        lemma_fx_mul_bound(etai_over_etat as int, iz as int, 0x100000, 0x200000);
    }
    let perp = Vec3 {
        x: fx_mul(etai_over_etat, ix),
        y: fx_mul(etai_over_etat, iy),
        z: fx_mul(etai_over_etat, iz),
    };
    proof {
        lemma_dot_bound(perp, perp, 0x2000000, 0x2000000);
        lemma_dot_self_nonneg(perp);
    }
    let ls = perp.dot(&perp);
    let arg = if SCALE - ls >= 0 {
        SCALE - ls
    } else {
        -(SCALE - ls)
    };
    let s = fx_sqrt(arg);
    proof {
        lemma_sqrt_bound(arg as int, s as int, 0x8000000);
        lemma_fx_mul_bound(s as int, n.x as int, 0x8000000, 131072);
        lemma_fx_mul_bound(s as int, n.y as int, 0x8000000, 131072);
        lemma_fx_mul_bound(s as int, n.z as int, 0x8000000, 131072);
    }
    Vec3 { x: perp.x - fx_mul(s, n.x), y: perp.y - fx_mul(s, n.y), z: perp.z - fx_mul(s, n.z) }
}

} // verus!
