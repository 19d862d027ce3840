use raytrace::fixed::{fixed_add, fixed_div, fixed_mul, fixed_sqrt, isqrt, LIMIT, SCALE};
use raytrace::interval::Interval;
use raytrace::ray::Ray;
use raytrace::utils::{deg_to_rad, rand_float, rand_from_range, PI};
use raytrace::vec3::{rand_in_unit_disk, rand_in_unit_sphere, random_on_hemisphere, random_unit_vector, Vec3};

const S: i64 = SCALE;

fn v(x: i64, y: i64, z: i64) -> Vec3<i64> {
    Vec3::new(x, y, z)
}

fn same(a: Vec3<i64>, b: Vec3<i64>) -> bool {
    a.x == b.x && a.y == b.y && a.z == b.z
}

#[test]
fn fixed_multiplication_rounds_toward_zero() {
    assert_eq!(fixed_mul(3 * S / 2, 3 * S / 2), 9 * S / 4);
    assert_eq!(fixed_mul(1, 1), 0);
    assert_eq!(fixed_mul(-3, S / 2), -1);
    assert_eq!(fixed_mul(3, S / 2), 1);
}

#[test]
fn fixed_division_and_saturation() {
    assert_eq!(fixed_div(S, 3 * S), 333_333_333);
    assert_eq!(fixed_div(-S, 3 * S), -333_333_333);
    assert_eq!(fixed_div(S, -3 * S), -333_333_333);
    assert_eq!(fixed_div(LIMIT, 1), LIMIT);
    assert_eq!(fixed_add(LIMIT, LIMIT), LIMIT);
    assert_eq!(fixed_add(-LIMIT, -LIMIT), -LIMIT);
    assert_eq!(fixed_mul(LIMIT, -LIMIT), -LIMIT);
}

#[test]
fn square_roots() {
    assert_eq!(isqrt(0), 0);
    assert_eq!(isqrt(15), 3);
    assert_eq!(isqrt(16), 4);
    assert_eq!(fixed_sqrt(S / 4), S / 2);
    assert_eq!(fixed_sqrt(2 * S), 1_414_213_562);
    assert_eq!(fixed_sqrt(-S), 0);
}

#[test]
fn vector_arithmetic() {
    let a = v(S, 2 * S, 3 * S);
    let b = v(4 * S, -5 * S, 6 * S);
    assert!(same(a.add(b), v(5 * S, -3 * S, 9 * S)));
    assert!(same(a.sub(b), v(-3 * S, 7 * S, -3 * S)));
    assert!(same(a.mul(2 * S), v(2 * S, 4 * S, 6 * S)));
    assert!(same(a.mul_vec3(b), v(4 * S, -10 * S, 18 * S)));
    assert!(same(b.div(2 * S), v(2 * S, -5 * S / 2, 3 * S)));
    assert!(same(a.neg(), v(-S, -2 * S, -3 * S)));
    assert_eq!(a.dot(&b), 12 * S);
    assert!(same(a.cross(&b), v(27 * S, 6 * S, -13 * S)));
    let mut c = a;
    c.add_assign(b);
    c.sub_assign(b);
    c.mul_assign(3 * S);
    c.div_assign(3 * S);
    assert!(same(c, a));
}

#[test]
fn lengths_and_unit_vectors() {
    let a = v(3 * S, 4 * S, 0);
    assert_eq!(a.length_squared(), 25 * S);
    assert_eq!(a.length(), 5 * S);
    assert!(same(a.unit_vector(), v(600_000_000, 800_000_000, 0)));
}

#[test]
fn near_zero_threshold() {
    assert!(v(0, 0, 0).near_zero());
    assert!(v(9, -9, 0).near_zero());
    assert!(!v(10, 0, 0).near_zero());
    assert!(!v(0, 0, -10).near_zero());
}

#[test]
fn generic_helpers() {
    let a = Vec3::splat(7u8);
    assert_eq!(a.to_array(), [7, 7, 7]);
    let b = Vec3::new(1i64, 2, 3).map(|c: i64| c > 1);
    assert_eq!(b.to_array(), [false, true, true]);
}

#[test]
fn reflect_across_floor() {
    let r = v(S, -S, 0).reflect(v(0, S, 0));
    assert!(same(r, v(S, S, 0)));
}

#[test]
fn reflect_twice_is_identity() {
    let vecs = [v(300_000_000, -700_000_000, 200_000_000), v(-5 * S, 17, 3 * S)];
    let normals = [v(0, S, 0), v(-S, 0, 0), v(0, 0, S)];
    for a in vecs {
        for n in normals {
            assert!(same(a.reflect(n).reflect(n), a));
        }
    }
}

#[test]
fn refract_at_normal_incidence_goes_straight() {
    let r = v(0, 0, -S).refract(v(0, 0, S), 666_666_667);
    assert!(same(r, v(0, 0, -S)));
}

#[test]
fn refract_bends_toward_normal() {
    let d = v(S / 2, 0, -866_025_404);
    let r = d.refract(v(0, 0, S), 666_666_667);
    assert!(r.x > 0 && r.x < d.x);
    assert!(r.z < 0);
}

#[test]
fn interval_queries() {
    let i = Interval::new(S, 3 * S);
    assert_eq!(i.size(), 2 * S);
    assert!(i.contains(S) && i.contains(3 * S) && i.contains(2 * S));
    assert!(!i.surrounds(S) && !i.surrounds(3 * S) && i.surrounds(2 * S));
    assert!(!i.contains(0));
    assert_eq!(i.clamp(0), S);
    assert_eq!(i.clamp(5 * S), 3 * S);
    assert_eq!(i.clamp(2 * S), 2 * S);
    let e = Interval::empty();
    assert!(!e.contains(0) && !e.contains(i64::MAX) && !e.contains(i64::MIN));
    let u = Interval::universe();
    assert!(u.contains(0) && u.contains(i64::MAX) && u.contains(i64::MIN));
}

#[test]
fn ray_points() {
    let r = Ray::new(v(S, 0, 0), v(0, 2 * S, 0));
    assert!(same(*r.get_origin(), v(S, 0, 0)));
    assert!(same(*r.get_direction(), v(0, 2 * S, 0)));
    assert!(same(r.at(S / 2), v(S, S, 0)));
    assert!(same(r.at(-S), v(S, -2 * S, 0)));
}

#[test]
fn degrees_to_radians() {
    assert_eq!(deg_to_rad(180 * S), PI);
    assert_eq!(deg_to_rad(90 * S), PI / 2);
    assert_eq!(deg_to_rad(0), 0);
}

#[test]
fn random_scalars_are_in_range_and_vary() {
    let mut seen = Vec::new();
    for _ in 0..200 {
        let r = rand_float();
        assert!(0 <= r && r < S);
        seen.push(r);
    }
    assert!(seen.iter().any(|&r| r != seen[0]));
    let a = Vec3::<i64>::rand_from_range(-S, S);
    assert!(-S <= a.x && a.x < S && -S <= a.y && a.y < S && -S <= a.z && a.z < S);
    let b = Vec3::<i64>::rand();
    assert!(0 <= b.x && b.x < S && 0 <= b.y && b.y < S && 0 <= b.z && b.z < S);
}

#[test]
fn random_points_in_ball_and_disk() {
    for _ in 0..200 {
        let p = rand_in_unit_sphere();
        assert!(p.length_squared() < S);
        let d = rand_in_unit_disk();
        assert!(d.length_squared() < S && d.z == 0);
        let u = random_unit_vector();
        let l = u.length_squared();
        assert!(l > S - 1000 && l < S + 1000);
        let n = v(0, S, 0);
        let h = random_on_hemisphere(&n);
        assert!(h.dot(&n) >= 0);
    }
}

#[test]
fn random_draws_from_a_range() {
    let draws: Vec<i64> = (0..200).map(|_| rand_from_range(10, 20)).collect();
    assert!(draws.iter().all(|&d| (10..20).contains(&d)));
    assert!(draws.iter().any(|&d| d != 10));
    assert!(draws.iter().any(|&d| d != draws[0]));
}
