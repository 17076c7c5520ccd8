use raytracer::camera::{make_spheres, Camera};
use raytracer::fx::{HALF, SCALE};
use raytracer::object::{GlassSphere, HittableMaterial, LambertianSphere, MetalSphere};
use raytracer::rand::Rand;
use raytracer::ray3::Ray3;
use raytracer::shape::hit_sphere;
use raytracer::utils::{channel_byte, linear_to_gamma, ppm_encode, PpmError};
use raytracer::vec3::{Color3, Point3, Vec3};

fn test_camera() -> Camera {
    Camera::new(SCALE, 1, SCALE, SCALE, Point3::new(0, 0, 0))
}

#[test]
fn hit_returns_miss_sentinel_when_line_misses() {
    let ray = Ray3::new(Point3::new(0, 0, 0), Vec3::new(0, 0, -SCALE));
    let t = hit_sphere(Point3::new(10 * SCALE, 0, 0), HALF, &ray);
    assert_eq!(t, -SCALE);
}

#[test]
fn hit_scenario_half_unit_sphere() {
    let ray = Ray3::new(Point3::new(0, 0, 0), Vec3::new(0, 0, -SCALE));
    let t = hit_sphere(Point3::new(0, 0, -SCALE), HALF, &ray);
    assert_eq!(t, HALF);
}

#[test]
fn hit_point_lies_on_sphere() {
    let center = Point3::new(0, 0, -2 * SCALE);
    let ray = Ray3::new(Point3::new(0, 0, 0), Vec3::new(0, 0, -SCALE));
    let t = hit_sphere(center, SCALE, &ray);
    assert_eq!(t, SCALE);
    let p = ray.at(t);
    let off = p.sub(&center);
    assert!((off.length() - SCALE).abs() <= 16);
}

#[test]
fn sphere_variants_share_the_intersection() {
    let ray = Ray3::new(Point3::new(0, 0, 0), Vec3::new(0, 0, -SCALE));
    let center = Point3::new(0, 0, -SCALE);
    let albedo = Color3::new(HALF, HALF, HALF);
    let lam = LambertianSphere::new(center, HALF, albedo);
    let met = MetalSphere::new(center, HALF, albedo, HALF);
    let gla = GlassSphere::new(center, HALF, albedo, 98304);
    assert_eq!(lam.hit_it(&ray), HALF);
    assert_eq!(met.hit_it(&ray), HALF);
    assert_eq!(gla.hit_it(&ray), HALF);
    let obj = HittableMaterial::Lambertian(lam);
    assert_eq!(obj.hit_it(&ray), HALF);
}

#[test]
fn color_at_zero_depth_is_black() {
    let cam = test_camera();
    let objects = make_spheres();
    let mut rng = Rand::new_with_seed(123);
    let ray = Ray3::new(Point3::new(0, 0, 0), Vec3::new(0, -SCALE, 0));
    let c = cam.ray_color(&ray, 0, &objects, &mut rng);
    assert_eq!((c.x(), c.y(), c.z()), (0, 0, 0));
    assert_eq!(rng.curr, 123);
}

#[test]
fn background_blend_at_level_direction() {
    let cam = test_camera();
    let objects: Vec<HittableMaterial> = Vec::new();
    let mut rng = Rand::new_with_seed(1);
    let ray = Ray3::new(Point3::new(0, 0, 0), Vec3::new(0, 0, -SCALE));
    let c = cam.ray_color(&ray, 50, &objects, &mut rng);
    assert_eq!((c.x(), c.y(), c.z()), (49152, 55705, SCALE));
    assert_eq!(rng.curr, 1);
}

#[test]
fn total_internal_reflection_always_reflects() {
    let glass = GlassSphere::new(Point3::new(0, 0, 0), SCALE, Color3::new(SCALE, SCALE, SCALE),
        98304);
    let ray = Ray3::new(Point3::new(-46341, 0, -19195), Vec3::new(46341, 0, -46341));
    let mut rng = Rand::new_with_seed(7);
    let mut scattered = Ray3::empty_new();
    let att = glass.scatter(&ray, SCALE, &mut scattered, &mut rng);
    assert_eq!((att.x(), att.y(), att.z()), (SCALE, SCALE, SCALE));
    let d = scattered.direction();
    assert_eq!((d.x(), d.y(), d.z()), (46341, 0, 46341));
    assert_eq!(rng.curr, 7);
}

#[test]
fn schlick_reflectance_at_normal_incidence() {
    let glass = GlassSphere::new(Point3::new(0, 0, 0), SCALE, Color3::new(SCALE, SCALE, SCALE),
        98304);
    assert_eq!(glass.reflectance(SCALE, 98304), 2621);
}

#[test]
fn lambertian_scatter_attenuates_by_albedo() {
    let albedo = Color3::new(52429, 26214, 13107);
    let lam = LambertianSphere::new(Point3::new(0, 0, -SCALE), HALF, albedo);
    let ray = Ray3::new(Point3::new(0, 0, 0), Vec3::new(0, 0, -SCALE));
    let mut rng = Rand::new_with_seed(3);
    let mut scattered = Ray3::empty_new();
    let att = lam.scatter(&ray, HALF, &mut scattered, &mut rng);
    assert_eq!((att.x(), att.y(), att.z()), (52429, 26214, 13107));
    let o = scattered.origin();
    assert_eq!((o.x(), o.y(), o.z()), (0, 0, -HALF));
}

#[test]
fn scene_builder_places_ground_and_grid() {
    let objects = make_spheres();
    assert_eq!(objects.len(), 401);
    match &objects[0] {
        HittableMaterial::Lambertian(s) => {
            assert_eq!((s.center.x, s.center.y, s.center.z), (0, -6586368, -65536));
            assert_eq!(s.radius, 6225920);
            assert_eq!((s.albedo.x, s.albedo.y, s.albedo.z), (52429, 52429, 0));
        },
        _ => panic!("ground sphere should be diffuse"),
    }
    match &objects[1] {
        HittableMaterial::Lambertian(s) => {
            assert_eq!((s.center.x, s.center.y, s.center.z), (-10 * SCALE, -4 * SCALE, -10
                * SCALE));
            assert_eq!(s.radius, HALF);
            assert_eq!((s.albedo.x, s.albedo.y, s.albedo.z), (0, 0, SCALE));
        },
        _ => panic!("grid sphere should be diffuse"),
    }
    match &objects[400] {
        HittableMaterial::Lambertian(s) => {
            assert_eq!((s.center.x, s.center.y, s.center.z), (9 * SCALE, -4 * SCALE, 9 * SCALE));
            assert_eq!((s.albedo.x, s.albedo.y, s.albedo.z), (62259, 62259, SCALE));
        },
        _ => panic!("grid sphere should be diffuse"),
    }
}

#[test]
fn camera_derives_image_height_from_aspect() {
    let cam = Camera::new(116508, 400, 32768, 5 * SCALE, Point3::new(0, 0, 0));
    assert_eq!(cam.image_width(), 400);
    assert_eq!(cam.image_height(), 225);
}

#[test]
fn camera_viewport_geometry() {
    let cam = Camera::new(2 * SCALE, 2, SCALE, SCALE, Point3::new(0, 0, 0));
    assert_eq!(cam.image_height(), 1);
    let dx = cam.pixel_x_delta();
    assert_eq!((dx.x(), dx.y(), dx.z()), (SCALE, 0, 0));
    let dy = cam.pixel_y_delta();
    assert_eq!((dy.x(), dy.y(), dy.z()), (0, -SCALE, 0));
    let ul = cam.viewport_u_l();
    assert_eq!((ul.x(), ul.y(), ul.z()), (-SCALE, HALF, -SCALE));
    let p00 = cam.pixel_00_location();
    assert_eq!((p00.x(), p00.y(), p00.z()), (-HALF, 0, -SCALE));
    let cc = cam.camera_center();
    assert_eq!((cc.x(), cc.y(), cc.z()), (0, 0, 0));
}

#[test]
fn camera_clamps_height_to_one() {
    let cam = Camera::new(524288, 2, SCALE, SCALE, Point3::new(0, 0, 0));
    assert_eq!(cam.image_height(), 1);
}

#[test]
fn render_with_fixed_seed_is_reproducible() {
    let cam = Camera::new(2 * SCALE, 2, SCALE, SCALE, Point3::new(0, 0, 0));
    let objects = vec![HittableMaterial::Lambertian(LambertianSphere::new(
        Point3::new(0, 0, -2 * SCALE),
        SCALE,
        Color3::new(HALF, HALF, HALF),
    ))];
    let mut rng1 = Rand::new_with_seed(2024);
    let mut rng2 = Rand::new_with_seed(2024);
    let image1 = cam.smile(&objects, &mut rng1);
    let image2 = cam.smile(&objects, &mut rng2);
    assert_eq!(image1, image2);
    assert_eq!(rng1.curr, rng2.curr);
    let bytes1 = ppm_encode(&image1).unwrap();
    let bytes2 = ppm_encode(&image2).unwrap();
    assert_eq!(bytes1, bytes2);
    let mut rng3 = Rand::new_with_seed(77);
    let image3 = cam.smile(&objects, &mut rng3);
    assert_ne!(image1, image3);
}

#[test]
fn render_dimensions_match_camera() {
    let cam = Camera::new(2 * SCALE, 2, SCALE, SCALE, Point3::new(0, 0, 0));
    let objects: Vec<HittableMaterial> = Vec::new();
    let mut rng = Rand::new_with_seed(1);
    let image = cam.smile(&objects, &mut rng);
    assert_eq!(image.len(), 1);
    assert_eq!(image[0].len(), 2);
}

#[test]
fn gamma_is_square_root() {
    assert_eq!(linear_to_gamma(SCALE), SCALE);
    assert_eq!(linear_to_gamma(16384), HALF);
    assert_eq!(linear_to_gamma(0), 0);
    assert_eq!(linear_to_gamma(-SCALE), 0);
}

#[test]
fn channel_bytes_saturate() {
    assert_eq!(channel_byte(SCALE), 255);
    assert_eq!(channel_byte(0), 0);
    assert_eq!(channel_byte(16384), 127);
    assert_eq!(channel_byte(100 * SCALE), 255);
    assert_eq!(channel_byte(-SCALE), 0);
}

#[test]
fn ppm_stream_for_all_white_two_by_one() {
    let white = Vec3::new(SCALE, SCALE, SCALE);
    let image = vec![vec![white, white]];
    let bytes = ppm_encode(&image).unwrap();
    let expected: Vec<u8> = vec![
        80, 54, 10, 50, 32, 49, 10, 50, 53, 53, 10, 255, 255, 255, 255, 255, 255,
    ];
    assert_eq!(bytes, expected);
}

#[test]
fn ppm_rejects_empty_image() {
    let image: Vec<Vec<Vec3>> = Vec::new();
    assert_eq!(ppm_encode(&image), Err(PpmError::EmptyImage));
}

#[test]
fn ppm_rejects_ragged_rows() {
    let p = Vec3::new(0, 0, 0);
    let image = vec![vec![p, p], vec![p]];
    assert_eq!(ppm_encode(&image), Err(PpmError::InconsistentRows));
}
