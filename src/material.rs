//! How surfaces scatter the rays that meet them.

use vstd::prelude::*;
use crate::fixed::{
    fadd, fdiv, fixed_add, fixed_div, fixed_min, fixed_mul, fixed_sqrt, fixed_sub, fmin, fmul, fneg,
    fsqrt, fsub, is_root, lemma_root_unique, SCALE,
};
use crate::hit::HitRecord;
use crate::ray::Ray;
use crate::utils::rand_float;
use crate::vec3::{
    dot, is_axis_unit, is_near_zero, is_random_unit, lemma_clamp_range,
    lemma_first_axis_is_random_unit, lemma_mul_by_unit, lemma_quot_multiple, len_sq, length,
    rand_in_unit_sphere, random_unit_vector, reflect, refract, refract_perp, unit, vadd, vec3_of,
    vneg, vscale, Color, Vec3,
};

verus! {

/// The random values that one scattering event draws on.
#[derive(Debug, Copy, Clone)]
pub struct ScatterSample {
    /// A random direction of length one, for diffuse scattering.
    pub unit: Vec3<i64>,
    /// A random point inside the unit ball, for fuzzy reflection.
    pub in_sphere: Vec3<i64>,
    /// A uniform draw from `[0, 1)`, to choose between reflection and refraction.
    pub draw: i64,
}

/// Whether `s` could have been drawn by `ScatterSample::random`.
pub open spec fn is_scatter_sample(s: ScatterSample) -> bool {
    &&& is_random_unit(s.unit)
    &&& len_sq(s.in_sphere) < SCALE
    &&& 0 <= s.draw < SCALE
}

/// A sample that every draw may return.
pub open spec fn plain_sample() -> ScatterSample {
    ScatterSample { unit: Vec3 { x: SCALE, y: 0, z: 0 }, in_sphere: Vec3 { x: 0, y: 0, z: 0 }, draw: 0 }
}

pub proof fn lemma_plain_sample()
    ensures
        is_scatter_sample(plain_sample()),
{
    lemma_first_axis_is_random_unit();
    assert(fmul(0, 0) == 0);
}

impl ScatterSample {
    /// Draws the random values of one scattering event.
    pub fn random() -> (r: ScatterSample)
        ensures
            is_scatter_sample(r),
    {
        ScatterSample { unit: random_unit_vector(), in_sphere: rand_in_unit_sphere(), draw: rand_float() }
    }
}

/// A rule for scattering rays: `None` means that the ray is absorbed.
pub trait Material {
    spec fn scatter_spec(&self, ray_in: Ray, record: HitRecord, sample: ScatterSample) -> Option<
        (Color<i64>, Ray),
    >;

    fn scatter(&self, ray_in: &Ray, record: &HitRecord, sample: &ScatterSample) -> (r: Option<
        (Color<i64>, Ray),
    >)
        ensures
            r == self.scatter_spec(*ray_in, *record, *sample),
    ;
}

/// A diffuse surface.
#[derive(Debug, Copy, Clone)]
pub struct Lambertian {
    pub albedo: Color<i64>,
}

/// A reflecting surface, blurred by `fuzziness`.
#[derive(Debug, Copy, Clone)]
pub struct Metal {
    pub albedo: Color<i64>,
    pub fuzziness: i64,
}

/// A transparent surface of relative refractive index `refraction_idx`.
#[derive(Debug, Copy, Clone)]
pub struct Dielectric {
    pub refraction_idx: i64,
}

/// The materials a sphere can be made of.
#[derive(Debug, Copy, Clone)]
pub enum Surface {
    Lambertian(Lambertian),
    Metal(Metal),
    Dielectric(Dielectric),
}

/// Direction of a diffuse bounce: the normal plus a random unit vector, or the
/// normal alone where that sum nearly vanishes.
pub open spec fn diffuse_direction(normal: Vec3<i64>, random_unit: Vec3<i64>) -> Vec3<i64> {
    let d = vadd(normal, random_unit);
    if is_near_zero(d) {
        normal
    } else {
        d
    }
}

/// `x⁵`, multiplied out from the left.
pub open spec fn pow5(x: int) -> int {
    fmul(fmul(fmul(fmul(x, x), x), x), x)
}

/// Schlick's approximation of the reflectance at cosine `cosine` and index ratio `ri`.
pub open spec fn schlick(cosine: int, ri: int) -> int {
    let r0 = fdiv(fsub(SCALE as int, ri), fadd(SCALE as int, ri));
    let r0sq = fmul(r0, r0);
    fadd(r0sq, fmul(fsub(SCALE as int, r0sq), pow5(fsub(SCALE as int, cosine))))
}

/// Cosine of the angle of incidence of the unit direction `u` on `normal`.
pub open spec fn incidence_cos(u: Vec3<i64>, normal: Vec3<i64>) -> int {
    fmin(dot(vneg(u), normal), SCALE as int)
}

/// Ratio of refractive indices across the surface met: `1/idx` entering, `idx` leaving.
pub open spec fn index_ratio(idx: int, front: bool) -> int {
    if front {
        fdiv(SCALE as int, idx)
    } else {
        idx
    }
}

/// Whether the unit direction `u` is reflected rather than refracted: total
/// internal reflection, or a reflectance above the draw.
pub open spec fn reflects(u: Vec3<i64>, record: HitRecord, ri: int, draw: int) -> bool {
    let cos_theta = incidence_cos(u, record.normal);
    let sin_theta = fsqrt(fsub(SCALE as int, fmul(cos_theta, cos_theta)));
    fmul(ri, sin_theta) > SCALE || schlick(cos_theta, ri) > draw
}

/// Direction of the ray leaving a dielectric surface.
pub open spec fn dielectric_direction(
    ray_in: Ray,
    record: HitRecord,
    idx: int,
    draw: int,
) -> Vec3<i64> {
    let u = unit(ray_in.dir);
    let ri = index_ratio(idx, record.front);
    if reflects(u, record, ri, draw) {
        reflect(u, record.normal)
    } else {
        refract(u, record.normal, ri)
    }
}

/// A diffuse bounce whose random unit vector is the exact negation of the
/// normal leaves along the normal; any other bounce leaves along a direction
/// that is not nearly zero, or along the normal.
pub proof fn lemma_diffuse_fallback(
    m: Lambertian,
    ray_in: Ray,
    record: HitRecord,
    sample: ScatterSample,
)
    ensures
        sample.unit == vneg(record.normal) ==> m.scatter_spec(ray_in, record, sample) == Some(
            (m.albedo, Ray { origin: record.point, dir: record.normal }),
        ),
        m.scatter_spec(ray_in, record, sample) matches Some((c, r)) ==> (!is_near_zero(r.dir)
            || r.dir == record.normal),
{
    let n = record.normal;
    lemma_clamp_range(n.x as int);
    lemma_clamp_range(n.y as int);
    lemma_clamp_range(n.z as int);
}

/// A metal without fuzziness reflects exactly: the ray leaves along the unit
/// vector of the mirror image of the incoming direction, whatever the sample.
pub proof fn lemma_metal_mirror(m: Metal, ray_in: Ray, record: HitRecord, sample: ScatterSample)
    requires
        m.fuzziness == 0,
    ensures
        m.scatter_spec(ray_in, record, sample) matches Some((c, r)) ==> r.dir == unit(
            reflect(ray_in.dir, record.normal),
        ),
{
    let u = unit(reflect(ray_in.dir, record.normal));
    lemma_clamp_range(u.x as int);
    lemma_clamp_range(u.y as int);
    lemma_clamp_range(u.z as int);
    assert(vscale(sample.in_sphere, 0) == vec3_of(0, 0, 0));
}

/// Head-on through an axis-aligned face, a dielectric never reflects totally,
/// and a refracted ray goes on unchanged whatever the ratio of indices: a ray
/// that enters glass and leaves it through a parallel face keeps its direction.
pub proof fn lemma_head_on_refraction(n: Vec3<i64>, ri: int, ri_back: int)
    requires
        is_axis_unit(n),
    ensures
        incidence_cos(vneg(n), n) == SCALE,
        fmul(ri, fsqrt(fsub(SCALE as int, fmul(SCALE as int, SCALE as int)))) == 0,
        refract(vneg(n), n, ri) == vneg(n),
        refract(refract(vneg(n), n, ri), n, ri_back) == vneg(n),
{
    let s = SCALE as int;
    let u = vneg(n);
    lemma_clamp_range(n.x as int);
    lemma_clamp_range(n.y as int);
    lemma_clamp_range(n.z as int);
    assert(vneg(u) == n);
    lemma_mul_by_unit(n.x as int, n.x as int);
    lemma_mul_by_unit(n.y as int, n.y as int);
    lemma_mul_by_unit(n.z as int, n.z as int);
    lemma_mul_by_unit(0, n.x as int);
    lemma_mul_by_unit(0, n.y as int);
    lemma_mul_by_unit(0, n.z as int);
    lemma_mul_by_unit(s, s);
    lemma_mul_by_unit(s, -s);
    lemma_mul_by_unit(-s, s);
    assert(dot(n, n) == s);
    assert(incidence_cos(u, n) == s);
    assert(vscale(n, s) == n);
    assert(vadd(u, n) == Vec3 { x: 0i64, y: 0i64, z: 0i64 });
    assert(fmul(0, ri) == 0);
    let perp = refract_perp(u, n, ri);
    assert(perp == Vec3 { x: 0i64, y: 0i64, z: 0i64 });
    assert(len_sq(perp) == 0);
    assert(fsub(s, 0) == s);
    lemma_quot_multiple(s, 1, s);
    assert(is_root(s * s, s)) by (nonlinear_arith)
        requires
            s == 1_000_000_000,
    ;
    lemma_root_unique(s * s, s);
    assert(fsqrt(s) == s);
    assert(fmul(s, s) == s);
    assert(fsqrt(fsub(s, fmul(s, s))) == 0);
    assert(fmul(ri, 0) == 0);
    assert(fneg(s) == -s);
    assert(vscale(n, -s) == u);
    assert(fmul(0, ri_back) == 0);
}

impl Lambertian {
    pub fn new(albedo: Color<i64>) -> (r: Lambertian)
        ensures
            r.albedo == albedo,
    {
        Lambertian { albedo }
    }
}

impl Material for Lambertian {
    /// Always scatters, attenuated by the albedo.
    open spec fn scatter_spec(&self, ray_in: Ray, record: HitRecord, sample: ScatterSample) -> Option<
        (Color<i64>, Ray),
    > {
        Some(
            (
                self.albedo,
                Ray { origin: record.point, dir: diffuse_direction(record.normal, sample.unit) },
            ),
        )
    }

    fn scatter(&self, ray_in: &Ray, record: &HitRecord, sample: &ScatterSample) -> (r: Option<
        (Color<i64>, Ray),
    >) {
        let mut scatter_direction = record.normal.add(sample.unit);
        if scatter_direction.near_zero() {
            scatter_direction = record.normal;
        }
        let scattered = Ray::new(record.point, scatter_direction);
        Some((self.albedo, scattered))
    }
}

impl Metal {
    /// A metal of the given fuzziness; without one the fuzziness is one.
    pub fn new(albedo: Color<i64>, fuzziness: Option<i64>) -> (r: Metal)
        ensures
            r.albedo == albedo,
            r.fuzziness == match fuzziness {
                Some(f) => f,
                None => SCALE,
            },
    {
        let f: i64 = match fuzziness {
            Some(f) => f,
            None => SCALE,
        };
        Metal { albedo, fuzziness: f }
    }
}

impl Material for Metal {
    /// Reflects the ray, then moves its direction by the fuzziness times a point
    /// of the unit ball. A reflection of length zero has no direction: the ray is
    /// absorbed. Rays scattered into the surface are kept.
    open spec fn scatter_spec(&self, ray_in: Ray, record: HitRecord, sample: ScatterSample) -> Option<
        (Color<i64>, Ray),
    > {
        let reflected = reflect(ray_in.dir, record.normal);
        if length(reflected) <= 0 {
            None
        } else {
            let dir = vadd(unit(reflected), vscale(sample.in_sphere, self.fuzziness as int));
            Some((self.albedo, Ray { origin: record.point, dir }))
        }
    }

    fn scatter(&self, ray_in: &Ray, record: &HitRecord, sample: &ScatterSample) -> (r: Option<
        (Color<i64>, Ray),
    >) {
        let reflected = ray_in.get_direction().reflect(record.normal);
        if reflected.length() <= 0 {
            return None;
        }
        let direction = reflected.unit_vector().add(sample.in_sphere.mul(self.fuzziness));
        Some((self.albedo, Ray::new(record.point, direction)))
    }
}

impl Dielectric {
    pub fn new(refraction_idx: i64) -> (r: Dielectric)
        ensures
            r.refraction_idx == refraction_idx,
    {
        Dielectric { refraction_idx }
    }

    /// Schlick's approximation of the share of light reflected.
    pub fn reflectance(cosine: i64, reflection_index: i64) -> (r: i64)
        requires
            reflection_index >= 0,
        ensures
            r == schlick(cosine as int, reflection_index as int),
    {
        let r0 = fixed_div(
            fixed_sub(SCALE, reflection_index),
            fixed_add(SCALE, reflection_index),
        );
        let r0sq = fixed_mul(r0, r0);
        let m = fixed_sub(SCALE, cosine);
        let m5 = fixed_mul(fixed_mul(fixed_mul(fixed_mul(m, m), m), m), m);
        fixed_add(r0sq, fixed_mul(fixed_sub(SCALE, r0sq), m5))
    }
}

impl Material for Dielectric {
    /// Reflects or refracts, never attenuating. A direction of length zero, or
    /// an index that is not positive, absorbs the ray.
    open spec fn scatter_spec(&self, ray_in: Ray, record: HitRecord, sample: ScatterSample) -> Option<
        (Color<i64>, Ray),
    > {
        if self.refraction_idx <= 0 || length(ray_in.dir) <= 0 {
            None
        } else {
            let dir = dielectric_direction(
                ray_in,
                record,
                self.refraction_idx as int,
                sample.draw as int,
            );
            Some((vec3_of(SCALE as int, SCALE as int, SCALE as int), Ray { origin: record.point, dir }))
        }
    }

    fn scatter(&self, ray_in: &Ray, record: &HitRecord, sample: &ScatterSample) -> (r: Option<
        (Color<i64>, Ray),
    >) {
        if self.refraction_idx <= 0 || ray_in.get_direction().length() <= 0 {
            return None;
        }
        let attenuation = Vec3::new(SCALE, SCALE, SCALE);
        let unit_vector = ray_in.get_direction().unit_vector();
        let cos_theta = fixed_min(unit_vector.neg().dot(&record.normal), SCALE);
        let sin_theta = fixed_sqrt(fixed_sub(SCALE, fixed_mul(cos_theta, cos_theta)));
        let ri = if record.front_face() {
            fixed_div(SCALE, self.refraction_idx)
        } else {
            self.refraction_idx
        };
        let direction = if fixed_mul(ri, sin_theta) > SCALE || Self::reflectance(cos_theta, ri)
            > sample.draw {
            unit_vector.reflect(record.normal)
        } else {
            unit_vector.refract(record.normal, ri)
        };
        Some((attenuation, Ray::new(record.point, direction)))
    }
}

impl Material for Surface {
    open spec fn scatter_spec(&self, ray_in: Ray, record: HitRecord, sample: ScatterSample) -> Option<
        (Color<i64>, Ray),
    > {
        match self {
            Surface::Lambertian(m) => m.scatter_spec(ray_in, record, sample),
            Surface::Metal(m) => m.scatter_spec(ray_in, record, sample),
            Surface::Dielectric(m) => m.scatter_spec(ray_in, record, sample),
        }
    }

    fn scatter(&self, ray_in: &Ray, record: &HitRecord, sample: &ScatterSample) -> (r: Option<
        (Color<i64>, Ray),
    >) {
        match self {
            Surface::Lambertian(m) => m.scatter(ray_in, record, sample),
            Surface::Metal(m) => m.scatter(ray_in, record, sample),
            Surface::Dielectric(m) => m.scatter(ray_in, record, sample),
        }
    }
}

} // verus!
