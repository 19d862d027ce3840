//! Spheres, the one primitive shape.

use vstd::prelude::*;
use crate::fixed::{
    fadd, fdiv, fixed_add, fixed_div, fixed_mul, fixed_sqrt, fixed_sub, fmul, fsqrt, fsub,
    lemma_clamp_monotonic, lemma_fdiv_monotonic, lemma_fsqrt_range,
};
use crate::hit::{below, lemma_normal_faces_ray, record_of, HitRecord, Hittable};
use crate::interval::Interval;
use crate::material::Surface;
use crate::ray::Ray;
use crate::vec3::{dot, lemma_clamp_range, len_sq, vdiv, vsub, Point};

verus! {

/// A sphere of a material; a radius that is not positive meets no ray.
#[derive(Debug, Copy, Clone)]
pub struct Sphere {
    pub center: Point<i64>,
    pub radius: i64,
    pub material: Surface,
}

/// The coefficients `(a, h, c)` of the quadratic whose roots are the parameters
/// at which `ray` meets the sphere: `a·t² - 2h·t + c = 0`.
pub open spec fn coefficients(s: Sphere, ray: Ray) -> (int, int, int) {
    let oc = vsub(s.center, ray.origin);
    (
        len_sq(ray.dir),
        dot(ray.dir, oc),
        fsub(len_sq(oc), fmul(s.radius as int, s.radius as int)),
    )
}

pub open spec fn discriminant(s: Sphere, ray: Ray) -> int {
    let (a, h, c) = coefficients(s, ray);
    fsub(fmul(h, h), fmul(a, c))
}

/// Whether the line of `ray` meets the sphere at all.
pub open spec fn meets_line(s: Sphere, ray: Ray) -> bool {
    s.radius > 0 && coefficients(s, ray).0 > 0 && discriminant(s, ray) >= 0
}

/// The smaller root, `(h - √disc) / a`.
pub open spec fn near_root(s: Sphere, ray: Ray) -> int {
    let (a, h, c) = coefficients(s, ray);
    fdiv(fsub(h, fsqrt(discriminant(s, ray))), a)
}

/// The larger root, `(h + √disc) / a`.
pub open spec fn far_root(s: Sphere, ray: Ray) -> int {
    let (a, h, c) = coefficients(s, ray);
    fdiv(fadd(h, fsqrt(discriminant(s, ray))), a)
}

/// The record of the hit at parameter `t`, with outward normal
/// `(point - center) / radius`.
pub open spec fn sphere_record(s: Sphere, ray: Ray, t: int) -> HitRecord {
    let p = ray.point_at(t);
    record_of(p, vdiv(vsub(p, s.center), s.radius as int), t as i64, ray, s.material)
}

/// The hit of `ray` on the sphere: the smaller root if it lies strictly inside
/// `ray_t`, else the larger one if it does, else none.
#[verifier::opaque]
pub open spec fn hit_sphere(s: Sphere, ray: Ray, ray_t: Interval) -> Option<HitRecord> {
    if !meets_line(s, ray) {
        None
    } else if ray_t.strictly_holds(near_root(s, ray)) {
        Some(sphere_record(s, ray, near_root(s, ray)))
    } else if ray_t.strictly_holds(far_root(s, ray)) {
        Some(sphere_record(s, ray, far_root(s, ray)))
    } else {
        None
    }
}

/// A hit lies strictly inside the interval it was sought in.
proof fn lemma_sphere_hit_within(s: Sphere, ray: Ray, ray_t: Interval)
    ensures
        hit_sphere(s, ray, ray_t) matches Some(r) ==> ray_t.min < r.t < ray_t.max,
{
    reveal(hit_sphere);
    if let Some(r) = hit_sphere(s, ray, ray_t) {
        lemma_clamp_range(near_root(s, ray));
        lemma_clamp_range(far_root(s, ray));
    }
}

/// The smaller root is never above the larger one.
pub proof fn lemma_roots_ordered(s: Sphere, ray: Ray)
    requires
        meets_line(s, ray),
    ensures
        near_root(s, ray) <= far_root(s, ray),
{
    let (a, h, c) = coefficients(s, ray);
    let sq = fsqrt(discriminant(s, ray));
    lemma_fsqrt_range(discriminant(s, ray));
    lemma_clamp_monotonic(h - sq, h + sq);
    lemma_fdiv_monotonic(fsub(h, sq), fadd(h, sq), a);
}

/// Seeking a hit below `m` finds the hit sought over the whole interval when
/// that hit lies below `m`, and nothing otherwise.
proof fn lemma_sphere_hit_narrowed(s: Sphere, ray: Ray, ray_t: Interval, m: i64)
    requires
        m <= ray_t.max,
    ensures
        hit_sphere(s, ray, Interval { min: ray_t.min, max: m }) == below(
            hit_sphere(s, ray, ray_t),
            m as int,
        ),
{
    reveal(hit_sphere);
    if meets_line(s, ray) {
        lemma_roots_ordered(s, ray);
        lemma_clamp_range(near_root(s, ray));
        lemma_clamp_range(far_root(s, ray));
    }
}

/// Every hit on a sphere reports a normal that faces against the ray; the
/// ray meets the outer side exactly when its direction opposes the outward
/// normal `(point - center) / radius`, which is then the normal reported.
pub proof fn lemma_sphere_normal_faces_ray(s: Sphere, ray: Ray, ray_t: Interval)
    ensures
        hit_sphere(s, ray, ray_t) matches Some(rec) ==> {
            let outward = vdiv(vsub(rec.point, s.center), s.radius as int);
            &&& dot(ray.dir, rec.normal) <= 0
            &&& rec.front <==> dot(ray.dir, outward) < 0
            &&& rec.front ==> rec.normal == outward
        },
{
    reveal(hit_sphere);
    if let Some(rec) = hit_sphere(s, ray, ray_t) {
        let outward = vdiv(vsub(rec.point, s.center), s.radius as int);
        lemma_clamp_range(fdiv(vsub(rec.point, s.center).x as int, s.radius as int));
        lemma_clamp_range(fdiv(vsub(rec.point, s.center).y as int, s.radius as int));
        lemma_clamp_range(fdiv(vsub(rec.point, s.center).z as int, s.radius as int));
        lemma_normal_faces_ray(rec.point, outward, rec.t, ray, s.material);
    }
}

impl Sphere {
    /// A sphere; a negative radius is taken as zero.
    pub fn new(center: Point<i64>, r: i64, material: Surface) -> (s: Sphere)
        ensures
            s.center == center,
            s.radius == if r > 0 {
                r
            } else {
                0
            },
            s.material == material,
    {
        let mut radius: i64 = 0;
        if r > 0 {
            radius = r;
        }
        Sphere { center, radius, material }
    }
}

impl Hittable for Sphere {
    open spec fn hit_spec(&self, ray: Ray, ray_t: Interval) -> Option<HitRecord> {
        hit_sphere(*self, ray, ray_t)
    }

    fn hit(&self, ray: &Ray, ray_t: Interval) -> (r: Option<HitRecord>) {
        proof {
            reveal(hit_sphere);
        }
        let oc = self.center.sub(*ray.get_origin());
        let a = ray.get_direction().length_squared();
        let h = ray.get_direction().dot(&oc);
        let c = fixed_sub(oc.length_squared(), fixed_mul(self.radius, self.radius));
        let discriminant = fixed_sub(fixed_mul(h, h), fixed_mul(a, c));
        if self.radius <= 0 || a <= 0 || discriminant < 0 {
            return None;
        }
        let sqrt = fixed_sqrt(discriminant);
        let mut root = fixed_div(fixed_sub(h, sqrt), a);
        if !ray_t.surrounds(root) {
            root = fixed_div(fixed_add(h, sqrt), a);
            if !ray_t.surrounds(root) {
                return None;
            }
        }
        let point = ray.at(root);
        Some(HitRecord::new(point, point.sub(self.center).div(self.radius), root, ray, self.material))
    }

    proof fn lemma_hit_within(&self, ray: Ray, ray_t: Interval) {
        lemma_sphere_hit_within(*self, ray, ray_t);
    }

    proof fn lemma_hit_narrowed(&self, ray: Ray, ray_t: Interval, m: i64) {
        lemma_sphere_hit_narrowed(*self, ray, ray_t, m);
    }
}

} // verus!
