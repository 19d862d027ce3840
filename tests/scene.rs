use raytrace::fixed::SCALE;
use raytrace::hit::{HitRecord, Hittable, HittableList};
use raytrace::interval::Interval;
use raytrace::material::{Dielectric, Lambertian, Material, Metal, ScatterSample, Surface};
use raytrace::ray::Ray;
use raytrace::sphere::Sphere;
use raytrace::vec3::Vec3;

const S: i64 = SCALE;

fn v(x: i64, y: i64, z: i64) -> Vec3<i64> {
    Vec3::new(x, y, z)
}

fn same(a: Vec3<i64>, b: Vec3<i64>) -> bool {
    a.x == b.x && a.y == b.y && a.z == b.z
}

fn grey() -> Surface {
    Surface::Lambertian(Lambertian::new(v(S / 2, S / 2, S / 2)))
}

fn all_of(t_min: i64) -> Interval {
    Interval::new(t_min, i64::MAX)
}

fn sample(unit: Vec3<i64>, draw: i64) -> ScatterSample {
    ScatterSample { unit, in_sphere: v(0, 0, 0), draw }
}

#[test]
fn sphere_hit_at_half() {
    let s = Sphere::new(v(0, 0, -S), S / 2, grey());
    let ray = Ray::new(v(0, 0, 0), v(0, 0, -S));
    let rec = s.hit(&ray, all_of(0)).unwrap();
    assert_eq!(rec.t, S / 2);
    assert!(same(rec.point, v(0, 0, -S / 2)));
}

#[test]
fn front_face_from_outside() {
    let s = Sphere::new(v(0, 0, -S), S / 2, grey());
    let ray = Ray::new(v(0, 0, 0), v(0, 0, -S));
    let rec = s.hit(&ray, all_of(0)).unwrap();
    assert!(rec.front_face());
    assert!(same(rec.normal, v(0, 0, S)));
    assert!(rec.normal.dot(ray.get_direction()) < 0);
}

#[test]
fn back_face_from_inside() {
    let s = Sphere::new(v(0, 0, -S), S / 2, grey());
    let ray = Ray::new(v(0, 0, -S), v(0, 0, -S));
    let rec = s.hit(&ray, all_of(1_000_000)).unwrap();
    assert_eq!(rec.t, S / 2);
    assert!(!rec.front_face());
    assert!(same(rec.normal, v(0, 0, S)));
}

#[test]
fn sphere_miss_and_interval_bounds() {
    let s = Sphere::new(v(0, 0, -S), S / 2, grey());
    let up = Ray::new(v(0, 0, 0), v(0, S, 0));
    assert!(s.hit(&up, all_of(0)).is_none());
    let ray = Ray::new(v(0, 0, 0), v(0, 0, -S));
    assert!(s.hit(&ray, Interval::new(0, S / 2)).is_none());
    let far = s.hit(&ray, Interval::new(S / 2, 2 * S)).unwrap();
    assert_eq!(far.t, 3 * S / 2);
    let zero_dir = Ray::new(v(0, 0, 0), v(0, 0, 0));
    assert!(s.hit(&zero_dir, all_of(0)).is_none());
}

#[test]
fn negative_radius_is_zero() {
    let s = Sphere::new(v(0, 0, -S), -S, grey());
    assert_eq!(s.radius, 0);
    let ray = Ray::new(v(0, 0, 0), v(0, 0, -S));
    assert!(s.hit(&ray, all_of(0)).is_none());
}

#[test]
fn nearest_of_two_overlapping_spheres() {
    let near = Sphere::new(v(0, 0, -S), S / 2, grey());
    let far = Sphere::new(v(0, 0, -3 * S / 2), S / 2, Surface::Dielectric(Dielectric::new(3 * S / 2)));
    let ray = Ray::new(v(0, 0, 0), v(0, 0, -S));
    for order in [[near, far], [far, near]] {
        let mut list = HittableList::new();
        list.add(order[0]);
        list.add(order[1]);
        assert_eq!(list.len(), 2);
        let rec = list.hit(&ray, all_of(1_000_000)).unwrap();
        assert_eq!(rec.t, S / 2);
        assert!(matches!(rec.material, Surface::Lambertian(_)));
    }
}

#[test]
fn cleared_list_hits_nothing() {
    let mut list = HittableList::default();
    list.add(Sphere::new(v(0, 0, -S), S / 2, grey()));
    list.add(Sphere::new(v(0, -100 * S - S / 2, -S), 100 * S, grey()));
    let rays = [
        Ray::new(v(0, 0, 0), v(0, 0, -S)),
        Ray::new(v(0, 0, 0), v(0, -S, 0)),
        Ray::new(v(S, 2 * S, 3 * S), v(-S, -2 * S, -4 * S)),
    ];
    assert!(list.hit(&rays[0], all_of(1_000_000)).is_some());
    list.clear();
    assert_eq!(list.len(), 0);
    for r in rays.iter() {
        assert!(list.hit(r, Interval::universe()).is_none());
    }
}

#[test]
fn hit_record_orientation() {
    let ray = Ray::new(v(0, 0, 0), v(0, 0, -S));
    let rec = HitRecord::new(v(0, 0, -S), v(0, 0, -S), S, &ray, grey());
    assert!(!rec.front_face());
    assert!(same(rec.normal, v(0, 0, S)));
    let mut rec2 = rec;
    rec2.set_front_face(&ray, v(0, 0, S));
    assert!(rec2.front_face());
    assert!(same(rec2.normal, v(0, 0, S)));
}

#[test]
fn lambertian_falls_back_to_normal() {
    let ray = Ray::new(v(0, 0, 0), v(0, 0, -S));
    let rec = HitRecord::new(v(0, 0, -S / 2), v(0, 0, S), S / 2, &ray, grey());
    let m = Lambertian::new(v(S / 2, S / 4, S));
    let (att, out) = m.scatter(&ray, &rec, &sample(v(0, 0, -S), 0)).unwrap();
    assert!(same(att, v(S / 2, S / 4, S)));
    assert!(same(out.dir, v(0, 0, S)));
    assert!(same(out.origin, v(0, 0, -S / 2)));
    let (_, other) = m.scatter(&ray, &rec, &sample(v(S, 0, 0), 0)).unwrap();
    assert!(same(other.dir, v(S, 0, S)));
}

#[test]
fn metal_without_fuzz_mirrors() {
    let ray = Ray::new(v(0, 0, 0), v(3 * S, -4 * S, 0));
    let rec = HitRecord::new(v(3 * S, -4 * S, 0), v(0, S, 0), S, &ray, grey());
    let m = Metal::new(v(S, S, S), Some(0));
    let s = ScatterSample { unit: v(S, 0, 0), in_sphere: v(S / 2, S / 2, 0), draw: 0 };
    let (_, out) = m.scatter(&ray, &rec, &s).unwrap();
    assert!(same(out.dir, v(600_000_000, 800_000_000, 0)));
    let fuzzy = Metal::new(v(S, S, S), None);
    assert_eq!(fuzzy.fuzziness, S);
    let (_, out2) = fuzzy.scatter(&ray, &rec, &s).unwrap();
    assert!(same(out2.dir, v(1_100_000_000, 1_300_000_000, 0)));
}

#[test]
fn metal_absorbs_zero_direction() {
    let ray = Ray::new(v(0, 0, 0), v(0, 0, 0));
    let rec = HitRecord::new(v(0, 0, 0), v(0, S, 0), S, &ray, grey());
    let m = Metal::new(v(S, S, S), Some(0));
    assert!(m.scatter(&ray, &rec, &sample(v(S, 0, 0), 0)).is_none());
}

#[test]
fn schlick_reflectance_values() {
    assert_eq!(Dielectric::reflectance(S, S), 0);
    assert_eq!(Dielectric::reflectance(0, 3 * S / 2), S);
    assert_eq!(Dielectric::reflectance(S, 3 * S / 2), 40_000_000);
}

#[test]
fn dielectric_round_trip() {
    let glass = Dielectric::new(3 * S / 2);
    let d = v(50_000_000, 0, -998_749_217);
    let ray = Ray::new(v(0, 0, S), d);
    let entry = HitRecord::new(v(0, 0, 0), v(0, 0, S), S, &ray, Surface::Dielectric(glass));
    assert!(entry.front_face());
    let (att, inside) = glass.scatter(&ray, &entry, &sample(v(S, 0, 0), S - 1)).unwrap();
    assert!(same(att, v(S, S, S)));
    assert!(inside.dir.x > 0 && inside.dir.x < d.x);
    let exit = HitRecord::new(v(0, 0, -S), v(0, 0, -S), S, &inside, Surface::Dielectric(glass));
    assert!(!exit.front_face());
    let (_, out) = glass.scatter(&inside, &exit, &sample(v(S, 0, 0), S - 1)).unwrap();
    assert!((out.dir.x - d.x).abs() < 1000);
    assert!(out.dir.y.abs() < 1000);
    assert!((out.dir.z - d.z).abs() < 1000);
}

#[test]
fn dielectric_total_internal_reflection() {
    let glass = Dielectric::new(3 * S / 2);
    let d = v(900_000_000, 0, -435_889_894);
    let ray = Ray::new(v(0, 0, 0), d);
    let rec = HitRecord::new(v(0, 0, -S), v(0, 0, -S), S, &ray, Surface::Dielectric(glass));
    assert!(!rec.front_face());
    let (_, out) = glass.scatter(&ray, &rec, &sample(v(S, 0, 0), S - 1)).unwrap();
    assert!(out.dir.z > 0);
}

#[test]
fn dielectric_without_positive_index_absorbs() {
    let ray = Ray::new(v(0, 0, 0), v(0, 0, -S));
    let rec = HitRecord::new(v(0, 0, -S), v(0, 0, S), S, &ray, grey());
    assert!(Dielectric::new(0).scatter(&ray, &rec, &sample(v(S, 0, 0), 0)).is_none());
}

#[test]
fn surface_dispatch() {
    let ray = Ray::new(v(0, 0, 0), v(0, 0, -S));
    let rec = HitRecord::new(v(0, 0, -S / 2), v(0, 0, S), S / 2, &ray, grey());
    let s = sample(v(0, S, 0), 0);
    let (a, out) = grey().scatter(&ray, &rec, &s).unwrap();
    assert!(same(a, v(S / 2, S / 2, S / 2)));
    assert!(same(out.dir, v(0, S, S)));
    let mirror = Surface::Metal(Metal::new(v(S, 0, 0), Some(0)));
    let (_, back) = mirror.scatter(&ray, &rec, &s).unwrap();
    assert!(same(back.dir, v(0, 0, S)));
}

#[test]
fn random_scatter_samples() {
    for _ in 0..100 {
        let s = ScatterSample::random();
        assert!(s.in_sphere.length_squared() < S);
        assert!(0 <= s.draw && s.draw < S);
        let l = s.unit.length_squared();
        assert!(l > S - 1000 && l < S + 1000);
    }
}

#[test]
fn lists_of_lists_report_the_nearest_hit() {
    let mut near = HittableList::new();
    near.add(Sphere::new(v(0, 0, -3 * S), S / 2, grey()));
    let mut far = HittableList::new();
    far.add(Sphere::new(v(0, 0, -5 * S), S / 2, grey()));
    far.add(Sphere::new(v(0, 0, -2 * S), S / 2, grey()));
    let mut outer = HittableList::new();
    outer.add(near);
    outer.add(far);
    let ray = Ray::new(v(0, 0, 0), v(0, 0, -S));
    let rec = outer.hit(&ray, all_of(1_000_000)).unwrap();
    assert_eq!(rec.t, 3 * S / 2);
}
