use raytrace::camera::{Camera, CameraError};
use raytrace::color::{gamma_correct, to_channel, to_rgb};
use raytrace::fixed::SCALE;
use raytrace::hit::{Hittable, HittableList};
use raytrace::interval::Interval;
use raytrace::material::{Lambertian, ScatterSample, Surface};
use raytrace::ray::Ray;
use raytrace::sphere::Sphere;
use raytrace::vec3::Vec3;

const S: i64 = SCALE;
const ASPECT_16_9: i64 = 1_777_777_777;

fn v(x: i64, y: i64, z: i64) -> Vec3<i64> {
    Vec3::new(x, y, z)
}

fn same(a: Vec3<i64>, b: Vec3<i64>) -> bool {
    a.x == b.x && a.y == b.y && a.z == b.z
}

fn pinhole(samples: u32) -> Camera {
    Camera::new(ASPECT_16_9, 400, samples, 50, S, v(0, 0, 0), v(0, 0, -S), v(0, S, 0), 0, S).unwrap()
}

fn two_spheres() -> HittableList<Sphere> {
    let grey = Surface::Lambertian(Lambertian::new(v(S / 2, S / 2, S / 2)));
    let mut world = HittableList::new();
    world.add(Sphere::new(v(0, -100 * S - S / 2, -S), 100 * S, grey));
    world.add(Sphere::new(v(0, 0, -S), S / 2, grey));
    world
}

fn plain_samples(n: usize) -> Vec<ScatterSample> {
    vec![ScatterSample { unit: v(0, S, 0), in_sphere: v(0, 0, 0), draw: 0 }; n]
}

#[test]
fn non_stochastic_two_sphere_render() {
    let cam = pinhole(1);
    let header = format!("P3\n{} {}\n255", cam.image_width, cam.image_height);
    assert_eq!(header, "P3\n400 225\n255");
    let world = two_spheres();
    let ray = cam.ray_through(0, 0, v(0, 0, 0), v(0, 0, 0));
    assert!(same(ray.dir, v(-1_773_333_333, 995_555_556, -S)));
    let c = Camera::ray_color_with(&world, ray, cam.max_depth, &plain_samples(50));
    assert_eq!(to_rgb(c), [204, 226, 255]);
}

#[test]
fn centre_ray_meets_small_sphere() {
    let cam = pinhole(1);
    let world = two_spheres();
    let ray = cam.ray_through(200, 112, v(0, 0, 0), v(0, 0, 0));
    let rec = world.hit(&ray, Interval::new(1_000_000, i64::MAX)).unwrap();
    assert_eq!(rec.t, 500_004_938);
    assert!(rec.front_face());
}

#[test]
fn camera_geometry() {
    let cam = pinhole(4);
    assert_eq!(cam.image_height, 225);
    assert!(same(cam.pixel_delta_u, v(8_888_888, 0, 0)));
    assert!(same(cam.pixel_delta_v, v(0, -8_888_888, 0)));
    assert!(same(cam.pixel100_loc, v(-1_773_333_333, 995_555_556, -S)));
    assert_eq!(cam.sample_pixel_scale, S / 4);
}

#[test]
fn default_camera() {
    let cam = Camera::default();
    assert_eq!(cam.image_width, 400);
    assert_eq!(cam.image_height, 225);
    assert_eq!(cam.samples_per_pixel, 100);
    assert_eq!(cam.max_depth, 50);
    assert!(same(cam.center, v(-2 * S, 2 * S, S)));
    let r = cam.ray_through(0, 0, v(0, 0, 0), v(0, 0, 0));
    assert!(same(r.origin, cam.center));
    let shifted = cam.ray_through(0, 0, v(0, 0, 0), v(S / 2, 0, 0));
    assert!(!same(shifted.origin, cam.center));
}

#[test]
fn camera_rejects_bad_parameters() {
    let make = |aspect: i64, width: u32, samples: u32| {
        Camera::new(aspect, width, samples, 10, S, v(0, 0, 0), v(0, 0, -S), v(0, S, 0), 0, S)
    };
    assert_eq!(make(0, 400, 1).unwrap_err(), CameraError::InvalidImage);
    assert_eq!(make(-S, 400, 1).unwrap_err(), CameraError::InvalidImage);
    assert_eq!(make(S, 0, 1).unwrap_err(), CameraError::InvalidImage);
    assert_eq!(make(S, 400, 0).unwrap_err(), CameraError::InvalidImage);
    assert_eq!(make(1, 400, 1).unwrap_err(), CameraError::InvalidImage);
    let tall = make(100 * S, 10, 1).unwrap();
    assert_eq!(tall.image_height, 1);
    let same_point = Camera::new(S, 10, 1, 10, S, v(0, 0, 0), v(0, 0, 0), v(0, S, 0), 0, S);
    assert_eq!(same_point.unwrap_err(), CameraError::DegenerateGeometry);
    let up_along_sight = Camera::new(S, 10, 1, 10, S, v(0, 0, 0), v(0, -S, 0), v(0, S, 0), 0, S);
    assert_eq!(up_along_sight.unwrap_err(), CameraError::DegenerateGeometry);
}

#[test]
fn sky_gradient() {
    let up = Camera::sky_color(&Ray::new(v(0, 0, 0), v(0, 3 * S, 0)));
    assert!(same(up, v(S / 2, 7 * S / 10, S)));
    let down = Camera::sky_color(&Ray::new(v(0, 0, 0), v(0, -S, 0)));
    assert!(same(down, v(S, S, S)));
    let level = Camera::sky_color(&Ray::new(v(0, 0, 0), v(S, 0, 0)));
    assert!(same(level, v(3 * S / 4, 85 * S / 100, S)));
}

#[test]
fn no_bounces_left_is_black() {
    let world = two_spheres();
    let ray = Ray::new(v(0, 0, 0), v(0, S, 0));
    let c = Camera::ray_color_with(&world, ray, 0, &Vec::new());
    assert!(same(c, v(0, 0, 0)));
    let c2 = Camera::ray_color(&world, ray, 0);
    assert!(same(c2, v(0, 0, 0)));
}

#[test]
fn diffuse_bounce_attenuates() {
    let world = two_spheres();
    let ray = Ray::new(v(0, 0, 0), v(0, 0, -S));
    let c = Camera::ray_color_with(&world, ray, 50, &plain_samples(50));
    assert!(same(c, v(286_611_652, 371_966_991, S / 2)));
    let miss = Camera::ray_color(&world, Ray::new(v(0, 0, 0), v(0, 3 * S, 0)), 50);
    assert!(same(miss, v(S / 2, 7 * S / 10, S)));
}

#[test]
fn stochastic_pixel_of_open_sky() {
    let cam = pinhole(8);
    let world = HittableList::<Sphere>::new();
    let c = cam.pixel_color(&world, 0, 0);
    let rgb = to_rgb(c);
    assert!(rgb[0] >= 202 && rgb[0] <= 206);
    assert!(rgb[1] >= 224 && rgb[1] <= 228);
    assert_eq!(rgb[2], 255);
    let offset = Camera::sample_square();
    assert!(-S / 2 <= offset.x && offset.x < S / 2 && offset.z == 0);
    let r = cam.get_ray(3, 4);
    assert!(same(r.origin, v(0, 0, 0)));
}

#[test]
fn rows_have_one_pixel_per_column() {
    let cam = Camera::new(2 * S, 6, 2, 5, S, v(0, 0, 0), v(0, 0, -S), v(0, S, 0), 0, S).unwrap();
    assert_eq!(cam.image_height, 3);
    let row = cam.render_row(&two_spheres(), 2);
    assert_eq!(row.len(), 6);
    for px in row {
        assert!(px.iter().all(|&c| c < 256));
    }
}

#[test]
fn channel_mapping() {
    assert_eq!(gamma_correct(S / 4), S / 2);
    assert_eq!(gamma_correct(-S), 0);
    assert_eq!(to_channel(S / 4), 128);
    assert_eq!(to_channel(S), 255);
    assert_eq!(to_channel(4 * S), 255);
    assert_eq!(to_channel(-S), 0);
    assert_eq!(to_rgb(v(0, S / 4, S)), [0, 128, 255]);
}

#[test]
fn a_single_sphere_is_a_scene() {
    let grey = Surface::Lambertian(Lambertian::new(v(S / 2, S / 2, S / 2)));
    let ball = Sphere::new(v(0, 0, -S), S / 2, grey);
    let ray = Ray::new(v(0, 0, 0), v(0, 0, -S));
    let c = Camera::ray_color_with(&ball, ray, 50, &plain_samples(50));
    assert!(same(c, v(286_611_652, 371_966_991, S / 2)));
}
