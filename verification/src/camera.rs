//! The camera, the scene builder and the recursive color integrator.

use vstd::prelude::*;
use crate::fx::{SCALE, HALF, fx_mul, fx_div, fx_mul_spec, fx_div_spec, lemma_fx_mul_bound,
    lemma_fx_div_bound};
use vstd::arithmetic::div_mod::{lemma_div_pos_is_pos, lemma_div_is_ordered_by_denominator};
use crate::vec3::{Vec3, Point3, Color3, v3, in_range, in_range_check, add_spec, sub_spec,
    scale_spec, div_spec, mul_spec, unit_or_default_spec, PMAX};
use crate::ray3::{Ray3, wf_ray, at_spec, TMAX};
use crate::rand::{Rand, lcg_next, lcg_out_in};
use crate::object::{HittableMaterial, LambertianSphere, wf_object, hit_of, scatter_of};

verus! {

/// The whole scene is well formed.
pub open spec fn wf_scene(objs: Seq<HittableMaterial>) -> bool {
    forall|k: int| 0 <= k < objs.len() ==> wf_object(#[trigger] objs[k])
}

pub open spec fn black() -> Vec3 {
    v3(0, 0, 0)
}

/// The ground sphere of the built-in scene.
pub open spec fn ground_sphere_spec() -> HittableMaterial {
    HittableMaterial::Lambertian(
        LambertianSphere {
            center: v3(0, -6586368, -65536),
            radius: 6225920,
            albedo: v3(52429, 52429, 0),
        },
    )
}

/// Grid sphere (j, i) of the built-in scene, for j and i in [-10, 10).
pub open spec fn grid_sphere_spec(j: int, i: int) -> HittableMaterial {
    HittableMaterial::Lambertian(
        LambertianSphere {
            center: v3(j * 65536, -262144, i * 65536),
            radius: 32768,
            albedo: v3(((j + 10) * 65536) / 20, ((i + 10) * 65536) / 20, 65536),
        },
    )
}

/// The built-in scene: the ground sphere, then the 20 by 20 grid of small
/// diffuse spheres, rows of `j` outer and `i` inner.
pub open spec fn make_spheres_spec() -> Seq<HittableMaterial> {
    Seq::new(
        401,
        |k: int|
            if k == 0 {
                ground_sphere_spec()
            } else {
                grid_sphere_spec((k - 1) / 20 - 10, (k - 1) % 20 - 10)
            },
    )
}

/// Build the scene object list.
pub fn make_spheres() -> (r: Vec<HittableMaterial>)
    ensures
        r@ == make_spheres_spec(),
        wf_scene(r@),
        r@.len() == 401,
{
    let mut objects: Vec<HittableMaterial> = Vec::new();
    objects.push(
        HittableMaterial::Lambertian(
            LambertianSphere::new(
                Point3::new(0, -6586368, -65536),
                6225920,
                Color3::new(52429, 52429, 0),
            ),
        ),
    );
    let mut j: i64 = -10;
    while j < 10
        invariant
            -10 <= j <= 10,
            objects@.len() == 1 + (j + 10) * 20,
            forall|k: int|
                0 <= k < objects@.len() ==> #[trigger] objects@[k] == make_spheres_spec()[k],
        decreases 10 - j,
    {
        let mut i: i64 = -10;
        while i < 10
            invariant
                -10 <= j < 10,
                -10 <= i <= 10,
                objects@.len() == 1 + (j + 10) * 20 + (i + 10),
                forall|k: int|
                    0 <= k < objects@.len() ==> #[trigger] objects@[k] == make_spheres_spec()[k],
            decreases 10 - i,
        {
            let ax = (((j + 10) as u64 * 65536) / 20) as i64;
            let az = (((i + 10) as u64 * 65536) / 20) as i64;
            proof {
                lemma_div_pos_is_pos((j + 10) * 65536, 20);
                lemma_div_pos_is_pos((i + 10) * 65536, 20);
                lemma_div_is_ordered_by_denominator((j + 10) * 65536, 1, 20);
                lemma_div_is_ordered_by_denominator((i + 10) * 65536, 1, 20);
            }
            objects.push(
                HittableMaterial::Lambertian(
                    LambertianSphere::new(
                        Point3::new(j * 65536, -262144, i * 65536),
                        32768,
                        Color3::new(ax, az, 65536),
                    ),
                ),
            );
            proof {
                let k = objects@.len() - 1;
                assert(k == 1 + (j + 10) * 20 + (i + 10));
                assert((k - 1) / 20 == j + 10 && (k - 1) % 20 == i + 10) by (nonlinear_arith)
                    requires
                        k - 1 == (j + 10) * 20 + (i + 10),
                        -10 <= j < 10,
                        -10 <= i < 10,
                ;
                assert(objects@[k] == make_spheres_spec()[k]);
            }
            i = i + 1;
        }
        j = j + 1;
    }
    proof {
        assert(objects@ =~= make_spheres_spec());
    }
    objects
}

/// The sky: a vertical blend from white at the horizon's -1 to blue at +1.
pub open spec fn background_spec(d: Vec3) -> Vec3 {
    let a = fx_mul_spec(HALF as int, d.y + SCALE);
    v3(
        fx_mul_spec(SCALE - a, SCALE as int) + fx_mul_spec(a, HALF as int),
        fx_mul_spec(SCALE - a, SCALE as int) + fx_mul_spec(a, 45875),
        fx_mul_spec(SCALE - a, SCALE as int) + fx_mul_spec(a, SCALE as int),
    )
}

/// The nearest accepted intersection at or after object `k`, given the best
/// parameter and index found so far. A parameter must exceed zero to count,
/// which keeps hits behind the origin and re-hits of the scattering surface
/// out; the first object wins ties.
pub open spec fn closest_from_spec(
    objs: Seq<HittableMaterial>,
    ray: Ray3,
    k: int,
    best_t: int,
    best_i: int,
) -> (int, int)
    decreases objs.len() - k,
{
    if k < 0 || k >= objs.len() {
        (best_t, best_i)
    } else {
        let tt = hit_of(objs[k], ray);
        if (best_t == -SCALE && tt > 0) || (tt < best_t && tt > 0) {
            closest_from_spec(objs, ray, k + 1, tt, k)
        } else {
            closest_from_spec(objs, ray, k + 1, best_t, best_i)
        }
    }
}

/// The color the ray gathers: black once the bounce budget is spent; the
/// background blend on a miss; otherwise the scattering attenuation times
/// the color of the scattered ray, one bounce deeper. A hit point outside
/// the world coordinate range also yields black.
pub open spec fn ray_color_spec(
    objs: Seq<HittableMaterial>,
    ray: Ray3,
    depth: int,
    st: int,
) -> (Vec3, int)
    decreases depth,
{
    if depth <= 0 {
        (black(), st)
    } else {
        let (t, idx) = closest_from_spec(objs, ray, 0, -(SCALE as int), 0);
        if t > 0 {
            if in_range(at_spec(ray, t), PMAX as int) {
                let (att, sray, st1) = scatter_of(objs[idx], ray, t, st);
                let (rec, st2) = ray_color_spec(objs, sray, depth - 1, st1);
                (mul_spec(att, rec), st2)
            } else {
                (black(), st)
            }
        } else {
            (background_spec(ray.direction), st)
        }
    }
}

/// A spent bounce budget yields black: at depth zero the integrator returns
/// (0, 0, 0) for every scene, every ray and every sampler state, and it
/// consumes no draw.
pub proof fn lemma_depth_zero_black(objs: Seq<HittableMaterial>, ray: Ray3, st: int)
    ensures
        ray_color_spec(objs, ray, 0, st).0 == black(),
        ray_color_spec(objs, ray, 0, st).1 == st,
{
}

/// In an empty scene, a ray whose direction has no vertical component gets
/// the equal-weight blend of white and sky blue: the blend factor lands
/// exactly on one half, and no draw is consumed.
pub proof fn lemma_level_ray_mid_blend(objs: Seq<HittableMaterial>, ray: Ray3, depth: int, st: int)
    requires
        objs.len() == 0,
        ray.direction.y == 0,
        depth > 0,
    ensures
        ray_color_spec(objs, ray, depth, st).0 == v3(49152, 55705, 65536),
        ray_color_spec(objs, ray, depth, st).1 == st,
{
    assert(closest_from_spec(objs, ray, 0, -(SCALE as int), 0) == (-(SCALE as int), 0int));
    assert(fx_mul_spec(HALF as int, 0 + SCALE) == 32768);
    assert(fx_mul_spec(65536 - 32768, SCALE as int) == 32768);
    assert(fx_mul_spec(32768, HALF as int) == 16384);
    assert(fx_mul_spec(32768, 45875) == 22937);
    assert(fx_mul_spec(32768, SCALE as int) == 32768);
}

/// A render is a function of the camera, the scene and the seed alone: two
/// renders that agree on those agree on every pixel and on the state the
/// sampler is left in.
pub proof fn lemma_render_deterministic(
    c1: Camera,
    c2: Camera,
    objs1: Seq<HittableMaterial>,
    objs2: Seq<HittableMaterial>,
    st1: int,
    st2: int,
)
    requires
        c1 == c2,
        objs1 == objs2,
        st1 == st2,
    ensures
        smile_spec(c1, objs1, st1) == smile_spec(c2, objs2, st2),
{
}

pub struct Camera {
    pub aspect_ratio: i64,
    pub image_width: u32,
    pub image_height: u32,
    pub focal_length: i64,
    pub viewport_height: i64,
    pub viewport_width: i64,
    pub camera_center: Point3,
    pub samples_per_pixel: u8,
    pub viewport_u: Vec3,
    pub viewport_v: Vec3,
    pub pixel_x_delta: Vec3,
    pub pixel_y_delta: Vec3,
}

/// The camera's derived state stays within the ranges the render loop needs.
pub open spec fn wf_camera(c: Camera) -> bool {
    &&& 1 <= c.image_width <= 2048
    &&& 1 <= c.image_height <= 32768
    &&& 1 <= c.samples_per_pixel
    &&& in_range(c.camera_center, 0x1000000)
    &&& 1 <= c.focal_length <= 0x100000
    &&& 1 <= c.viewport_height <= 0x80000
    &&& in_range(c.viewport_u, PMAX as int)
    &&& in_range(c.viewport_v, PMAX as int)
    &&& in_range(c.pixel_x_delta, PMAX as int)
    &&& in_range(c.pixel_y_delta, PMAX as int)
}

/// The pixel rows the image has for a width and an aspect ratio: the scaled
/// quotient rounded to the nearest integer, and no fewer than one.
pub open spec fn image_height_spec(image_width: int, aspect_ratio: int) -> int {
    let h = (2 * image_width * SCALE + aspect_ratio) / (2 * aspect_ratio);
    if h < 1 {
        1
    } else {
        h
    }
}

pub open spec fn viewport_width_spec(image_width: int, aspect_ratio: int, viewport_height: int) -> int {
    fx_mul_spec(
        viewport_height,
        fx_div_spec(image_width * SCALE, image_height_spec(image_width, aspect_ratio) * SCALE),
    )
}

impl Camera {
    pub fn new(
        aspect_ratio: i64,
        image_width: u32,
        focal_length: i64,
        viewport_height: i64,
        camera_center: Point3,
    ) -> (r: Self)
        requires
            8192 <= aspect_ratio <= 524288,
            1 <= image_width <= 2048,
            1 <= focal_length <= 0x100000,
            1 <= viewport_height <= 0x80000,
            in_range(camera_center, 0x1000000),
        ensures
            r.aspect_ratio == aspect_ratio,
            r.image_width == image_width,
            r.image_height == image_height_spec(image_width as int, aspect_ratio as int),
            r.focal_length == focal_length,
            r.viewport_height == viewport_height,
            r.viewport_width == viewport_width_spec(image_width as int, aspect_ratio as int,
                viewport_height as int),
            r.camera_center == camera_center,
            r.samples_per_pixel == 2,
            r.viewport_u == v3(r.viewport_width as int, 0, 0),
            r.viewport_v == v3(0, -viewport_height as int, 0),
            r.pixel_x_delta == div_spec(r.viewport_u, image_width as int * SCALE),
            r.pixel_y_delta == div_spec(r.viewport_v, r.image_height as int * SCALE),
            wf_camera(r),
    {
        proof {
            lemma_div_pos_is_pos(2 * (image_width as int) * 65536 + aspect_ratio,
                2 * (aspect_ratio as int));
            lemma_div_is_ordered_by_denominator(2 * (image_width as int) * 65536 + aspect_ratio,
                16384, 2 * (aspect_ratio as int));
        }
        let ih: u64 = (2 * (image_width as u64) * 65536 + (aspect_ratio as u64)) / (2
            * (aspect_ratio as u64));
        let image_height: u32 = if ih < 1 {
            1
        } else {
            ih as u32
        };
        let wfx: i64 = (image_width as i64) * SCALE;
        let hfx: i64 = (image_height as i64) * SCALE;
        proof {
            lemma_fx_div_bound(wfx as int, hfx as int, 0x8000000, 65536);
        }
        let ratio = fx_div(wfx, hfx);
        proof {
            lemma_fx_mul_bound(viewport_height as int, ratio as int, 0x80000, 0x8000000);
        }
        let viewport_width = fx_mul(viewport_height, ratio);
        let viewport_u = Vec3::new(viewport_width, 0, 0);
        let viewport_v = Vec3::new(0, -viewport_height, 0);
        proof {
            lemma_fx_div_bound(viewport_width as int, wfx as int, 0x40000000, 65536);
            lemma_fx_div_bound(-viewport_height as int, hfx as int, 0x80000, 65536);
        }
        let pixel_x_delta = viewport_u.div(wfx);
        let pixel_y_delta = viewport_v.div(hfx);
        Self {
            aspect_ratio,
            image_width,
            image_height,
            focal_length,
            viewport_height,
            viewport_width,
            camera_center,
            samples_per_pixel: 2,
            viewport_u,
            viewport_v,
            pixel_x_delta,
            pixel_y_delta,
        }
    }

    /// The upper-left corner of the viewport in world space.
    pub fn viewport_u_l(&self) -> (r: Vec3)
        requires
            wf_camera(*self),
        ensures
            r == viewport_u_l_spec(*self),
            in_range(r, 0x48000000),
    {
        proof {
            lemma_fx_div_bound(self.viewport_u.x as int, 2 * SCALE as int, 0x40000000, 131072);
            lemma_fx_div_bound(self.viewport_u.y as int, 2 * SCALE as int, 0x40000000, 131072);
            lemma_fx_div_bound(self.viewport_u.z as int, 2 * SCALE as int, 0x40000000, 131072);
            lemma_fx_div_bound(self.viewport_v.x as int, 2 * SCALE as int, 0x40000000, 131072);
            lemma_fx_div_bound(self.viewport_v.y as int, 2 * SCALE as int, 0x40000000, 131072);
            lemma_fx_div_bound(self.viewport_v.z as int, 2 * SCALE as int, 0x40000000, 131072);
        }
        self.camera_center.sub(&Vec3::new(0, 0, self.focal_length)).sub(
            &self.viewport_u.div(2 * SCALE),
        ).sub(&self.viewport_v.div(2 * SCALE))
    }

    /// The world position at the center of pixel (0, 0).
    pub fn pixel_00_location(&self) -> (r: Point3)
        requires
            wf_camera(*self),
        ensures
            r == pixel_00_spec(*self),
            in_range(r, 0x90000000),
    {
        let ul = self.viewport_u_l();
        let step = self.pixel_x_delta.add(&self.pixel_y_delta);
        proof {
            lemma_fx_mul_bound(HALF as int, step.x as int, 32768, 0x80000000);
            lemma_fx_mul_bound(HALF as int, step.y as int, 32768, 0x80000000);
            lemma_fx_mul_bound(HALF as int, step.z as int, 32768, 0x80000000);
        }
        ul.add(&step.scale(HALF))
    }

    pub fn camera_center(&self) -> (r: Vec3)
        ensures
            r == self.camera_center,
    {
        self.camera_center
    }

    pub fn image_height(&self) -> (r: u32)
        ensures
            r == self.image_height,
    {
        self.image_height
    }

    pub fn image_width(&self) -> (r: u32)
        ensures
            r == self.image_width,
    {
        self.image_width
    }

    pub fn pixel_x_delta(&self) -> (r: Vec3)
        ensures
            r == self.pixel_x_delta,
    {
        self.pixel_x_delta
    }

    pub fn pixel_y_delta(&self) -> (r: Vec3)
        ensures
            r == self.pixel_y_delta,
    {
        self.pixel_y_delta
    }

    /// The color the ray gathers from the scene, within `max_depth` bounces.
    pub fn ray_color(
        &self,
        ray: &Ray3,
        max_depth: i32,
        objects: &Vec<HittableMaterial>,
        randomizer: &mut Rand,
    ) -> (r: Vec3)
        requires
            wf_scene(objects@),
            wf_ray(*ray),
        ensures
            r == ray_color_spec(objects@, *ray, max_depth as int, old(randomizer).curr as int).0,
            final(randomizer).curr == ray_color_spec(objects@, *ray, max_depth as int,
                old(randomizer).curr as int).1,
            in_range(r, 4 * SCALE as int),
        decreases max_depth,
    {
        if max_depth <= 0 {
            return Vec3::new(0, 0, 0);
        }
        let mut t: i64 = -SCALE;
        let mut hit_i: usize = 0;
        let mut i: usize = 0;
        while i < objects.len()
            invariant
                wf_scene(objects@),
                wf_ray(*ray),
                i <= objects@.len(),
                -TMAX <= t <= TMAX,
                t > 0 ==> hit_i < i,
                closest_from_spec(objects@, *ray, 0, -(SCALE as int), 0) == closest_from_spec(
                    objects@,
                    *ray,
                    i as int,
                    t as int,
                    hit_i as int,
                ),
            decreases objects@.len() - i,
        {
            let t_temp = objects[i].hit_it(ray);
            if (t == -SCALE && t_temp > 0) || (t_temp < t && t_temp > 0) {
                t = t_temp;
                hit_i = i;
            }
            i = i + 1;
        }
        if t > 0 {
            let p = ray.at(t);
            if in_range_check(&p, PMAX) {
                let mut ray_scattered = Ray3::empty_new();
                let attenuation = objects[hit_i].scatter(ray, t, &mut ray_scattered, randomizer);
                let rec = self.ray_color(&ray_scattered, max_depth - 1, objects, randomizer);
                proof {
                    lemma_fx_mul_bound(attenuation.x as int, rec.x as int, 65536, 262144);
                    lemma_fx_mul_bound(attenuation.y as int, rec.y as int, 65536, 262144);
                    lemma_fx_mul_bound(attenuation.z as int, rec.z as int, 65536, 262144);
                }
                return attenuation.mul(&rec);
            }
            return Vec3::new(0, 0, 0);
        }
        let direction = ray.direction();
        proof {
            lemma_fx_mul_bound(HALF as int, direction.y + SCALE, 32768, 196608);
        }
        let a = fx_mul(HALF, direction.y() + SCALE);
        proof {
            lemma_fx_mul_bound(SCALE - a as int, SCALE as int, 163840, 65536);
            lemma_fx_mul_bound(a as int, HALF as int, 98304, 65536);
            lemma_fx_mul_bound(a as int, 45875, 98304, 65536);
            lemma_fx_mul_bound(a as int, SCALE as int, 98304, 65536);
        }
        Vec3::new(
            fx_mul(SCALE - a, SCALE) + fx_mul(a, HALF),
            fx_mul(SCALE - a, SCALE) + fx_mul(a, 45875),
            fx_mul(SCALE - a, SCALE) + fx_mul(a, SCALE),
        )
    }
}

/// One jittered primary ray for pixel (i, j), traced to depth 50: two draws
/// jitter the sample point within the pixel, and the integrator does the
/// rest.
pub open spec fn one_sample_spec(
    c: Camera,
    objs: Seq<HittableMaterial>,
    i: int,
    j: int,
    st: int,
) -> (Vec3, int) {
    let oi = lcg_out_in(st, -(HALF as int), HALF as int);
    let st1 = lcg_next(st);
    let oj = lcg_out_in(st1, -(HALF as int), HALF as int);
    let st2 = lcg_next(st1);
    let pc = add_spec(
        add_spec(pixel_00_spec(c), scale_spec(c.pixel_x_delta, i * SCALE + oi)),
        scale_spec(c.pixel_y_delta, j * SCALE + oj),
    );
    let ray = Ray3 {
        origin: c.camera_center,
        direction: unit_or_default_spec(sub_spec(pc, c.camera_center)),
    };
    ray_color_spec(objs, ray, 50, st2)
}

/// The sum of the first `n` sample colors for pixel (i, j).
pub open spec fn sample_sum_spec(
    c: Camera,
    objs: Seq<HittableMaterial>,
    i: int,
    j: int,
    n: nat,
    st: int,
) -> (Vec3, int)
    decreases n,
{
    if n == 0 {
        (v3(0, 0, 0), st)
    } else {
        let (prev, st1) = sample_sum_spec(c, objs, i, j, (n - 1) as nat, st);
        let (col, st2) = one_sample_spec(c, objs, i, j, st1);
        (add_spec(prev, col), st2)
    }
}

/// Pixel (i, j): the arithmetic mean of its samples.
pub open spec fn pixel_spec(c: Camera, objs: Seq<HittableMaterial>, i: int, j: int, st: int) -> (
    Vec3,
    int,
) {
    let (sum, st1) = sample_sum_spec(c, objs, i, j, c.samples_per_pixel as nat, st);
    (div_spec(sum, c.samples_per_pixel as int * SCALE), st1)
}

/// The first `n` pixels of row `j`.
pub open spec fn row_spec(c: Camera, objs: Seq<HittableMaterial>, j: int, n: nat, st: int) -> (
    Seq<Vec3>,
    int,
)
    decreases n,
{
    if n == 0 {
        (Seq::empty(), st)
    } else {
        let (prefix, st1) = row_spec(c, objs, j, (n - 1) as nat, st);
        let (pix, st2) = pixel_spec(c, objs, n - 1, j, st1);
        (prefix.push(pix), st2)
    }
}

/// The first `n` rows of the image.
pub open spec fn image_spec(c: Camera, objs: Seq<HittableMaterial>, n: nat, st: int) -> (
    Seq<Seq<Vec3>>,
    int,
)
    decreases n,
{
    if n == 0 {
        (Seq::empty(), st)
    } else {
        let (prefix, st1) = image_spec(c, objs, (n - 1) as nat, st);
        let (row, st2) = row_spec(c, objs, n - 1, c.image_width as nat, st1);
        (prefix.push(row), st2)
    }
}

/// The whole render: every pixel of the linear-space buffer, and the sampler
/// state the render leaves behind, as a function of camera, scene and seed.
pub open spec fn smile_spec(c: Camera, objs: Seq<HittableMaterial>, st: int) -> (
    Seq<Seq<Vec3>>,
    int,
) {
    image_spec(c, objs, c.image_height as nat, st)
}

impl Camera {
    /// Render the scene: for every pixel, average `samples_per_pixel`
    /// jittered rays. The buffer is row-major, `image_height` rows of
    /// `image_width` linear-space colors.
    pub fn smile(&self, objects: &Vec<HittableMaterial>, randomizer: &mut Rand) -> (r: Vec<
        Vec<Vec3>,
    >)
        requires
            wf_camera(*self),
            wf_scene(objects@),
        ensures
            r@.len() == self.image_height as int,
            forall|k: int|
                0 <= k < r@.len() ==> #[trigger] r@[k]@ == smile_spec(*self, objects@,
                    old(randomizer).curr as int).0[k],
            forall|k: int| 0 <= k < r@.len() ==> #[trigger] r@[k]@.len() == self.image_width as int,
            final(randomizer).curr == smile_spec(*self, objects@, old(randomizer).curr as int).1,
    {
        let ghost st0 = randomizer.curr as int;
        let image_width = self.image_width() as usize;
        let image_height = self.image_height() as usize;
        let p00 = self.pixel_00_location();
        let mut image: Vec<Vec<Vec3>> = Vec::new();
        let mut j: usize = 0;
        while j < image_height
            invariant
                wf_camera(*self),
                wf_scene(objects@),
                image_width == self.image_width,
                image_height == self.image_height,
                p00 == pixel_00_spec(*self),
                in_range(p00, 0x90000000),
                j <= image_height,
                image@.len() == j,
                image_spec(*self, objects@, j as nat, st0).0.len() == j,
                image_spec(*self, objects@, j as nat, st0).1 == randomizer.curr as int,
                forall|k: int|
                    0 <= k < j ==> #[trigger] image@[k]@ == image_spec(*self, objects@, j as nat,
                        st0).0[k],
                forall|k: int| 0 <= k < j ==> #[trigger] image@[k]@.len() == image_width as int,
            decreases image_height - j,
        {
            let ghost strow = randomizer.curr as int;
            let mut row: Vec<Vec3> = Vec::new();
            let mut i: usize = 0;
            while i < image_width
                invariant
                    wf_camera(*self),
                    wf_scene(objects@),
                    image_width == self.image_width,
                    p00 == pixel_00_spec(*self),
                    in_range(p00, 0x90000000),
                    j < image_height,
                    image_height == self.image_height,
                    i <= image_width,
                    row@.len() == i,
                    row_spec(*self, objects@, j as int, i as nat, strow).0 == row@,
                    row_spec(*self, objects@, j as int, i as nat, strow).1 == randomizer.curr
                        as int,
                decreases image_width - i,
            {
                let ghost stpix = randomizer.curr as int;
                let mut pixel_color = Vec3::new(0, 0, 0);
                let mut s: u8 = 0;
                while s < self.samples_per_pixel
                    invariant
                        wf_camera(*self),
                        wf_scene(objects@),
                        image_width == self.image_width,
                        image_height == self.image_height,
                        p00 == pixel_00_spec(*self),
                        in_range(p00, 0x90000000),
                        j < image_height,
                        i < image_width,
                        s <= self.samples_per_pixel,
                        in_range(pixel_color, 262144 * (s as int)),
                        sample_sum_spec(*self, objects@, i as int, j as int, s as nat, stpix).0
                            == pixel_color,
                        sample_sum_spec(*self, objects@, i as int, j as int, s as nat, stpix).1
                            == randomizer.curr as int,
                    decreases self.samples_per_pixel - s,
                {
                    let offset_i = randomizer.next_with_range(-HALF, HALF);
                    let offset_j = randomizer.next_with_range(-HALF, HALF);
                    let si = (i as i64) * SCALE + offset_i;
                    let sj = (j as i64) * SCALE + offset_j;
                    proof {
                        lemma_fx_mul_bound(si as int, self.pixel_x_delta.x as int, 0x8010000,
                            0x40000000);
                        lemma_fx_mul_bound(si as int, self.pixel_x_delta.y as int, 0x8010000,
                            0x40000000);
                        lemma_fx_mul_bound(si as int, self.pixel_x_delta.z as int, 0x8010000,
                            0x40000000);
                        lemma_fx_mul_bound(sj as int, self.pixel_y_delta.x as int, 0x100010000,
                            0x40000000);
                        lemma_fx_mul_bound(sj as int, self.pixel_y_delta.y as int, 0x100010000,
                            0x40000000);
                        lemma_fx_mul_bound(sj as int, self.pixel_y_delta.z as int, 0x100010000,
                            0x40000000);
                    }
                    let pixel_center = p00.add(&self.pixel_x_delta.scale(si)).add(
                        &self.pixel_y_delta.scale(sj),
                    );
                    let ray_direction = Ray3::new(
                        self.camera_center(),
                        pixel_center.sub(&self.camera_center()),
                    );
                    let col = self.ray_color(&ray_direction, 50, objects, randomizer);
                    pixel_color = pixel_color.add(&col);
                    s = s + 1;
                }
                let spp_fx = (self.samples_per_pixel as i64) * SCALE;
                proof {
                    lemma_fx_div_bound(pixel_color.x as int, spp_fx as int, 0x4000000, 65536);
                    lemma_fx_div_bound(pixel_color.y as int, spp_fx as int, 0x4000000, 65536);
                    lemma_fx_div_bound(pixel_color.z as int, spp_fx as int, 0x4000000, 65536);
                }
                row.push(pixel_color.div(spp_fx));
                i = i + 1;
            }
            image.push(row);
            j = j + 1;
        }
        image
    }
}

/// The upper-left corner of the viewport in world space.
pub open spec fn viewport_u_l_spec(c: Camera) -> Vec3 {
    sub_spec(
        sub_spec(
            sub_spec(c.camera_center, v3(0, 0, c.focal_length as int)),
            div_spec(c.viewport_u, 2 * SCALE as int),
        ),
        div_spec(c.viewport_v, 2 * SCALE as int),
    )
}

/// The world position at the center of pixel (0, 0).
pub open spec fn pixel_00_spec(c: Camera) -> Point3 {
    add_spec(
        viewport_u_l_spec(c),
        scale_spec(add_spec(c.pixel_x_delta, c.pixel_y_delta), HALF as int),
    )
}

} // verus!
