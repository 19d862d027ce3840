//! The camera: viewport geometry, rays through pixels, and recursive shading.

use vstd::prelude::*;
use crate::color::{channel, to_rgb};
use crate::fixed::{
    fadd, fdiv, fixed_add, fixed_div, fixed_mul, fixed_neg, fixed_sub, fmul, fneg, fsub, is_root,
    lemma_root_exists, root, SCALE,
};
use crate::hit::Hittable;
use crate::interval::Interval;
use crate::material::{is_scatter_sample, lemma_plain_sample, plain_sample, Material, ScatterSample};
use crate::ray::Ray;
use crate::utils::rand_float;
use crate::vec3::{
    cross, lemma_clamp_range, lemma_length_positive, lemma_mul_by_unit, lemma_quot_multiple, len_sq,
    length, rand_in_unit_disk, unit, vadd, vdiv, vec3_of, vmul, vscale, vsub, Color, Point, Vec3,
};

verus! {

/// Smallest ray parameter at which a hit counts: `0.001`, which keeps a
/// scattered ray from meeting the surface it leaves.
pub const T_MIN: i64 = 1_000_000;

/// Why a camera cannot be built.
#[derive(Debug, Copy, Clone, PartialEq, Eq)]
pub enum CameraError {
    /// The aspect ratio is not positive, the width or the sample count is zero,
    /// or the height does not fit.
    InvalidImage,
    /// The eye sits on the target, or the up vector runs along the line of sight.
    DegenerateGeometry,
}

/// A camera, derived once from its parameters.
#[derive(Debug, Copy, Clone)]
pub struct Camera {
    pub image_width: u32,
    pub image_height: u32,
    pub samples_per_pixel: u32,
    pub sample_pixel_scale: i64,
    pub center: Point<i64>,
    pub pixel100_loc: Point<i64>,
    pub pixel_delta_u: Vec3<i64>,
    pub pixel_delta_v: Vec3<i64>,
    pub defocus_disc_u: Vec3<i64>,
    pub defocus_disc_v: Vec3<i64>,
    /// Tangent of half the defocus angle; a camera without a positive one is a
    /// pinhole.
    pub defocus_tan: i64,
    pub max_depth: u32,
}

/// Image height for a width and aspect ratio, before the floor of one.
pub open spec fn raw_height(aspect_ratio: int, image_width: int) -> int {
    fdiv(image_width * SCALE, aspect_ratio) / SCALE as int
}

/// Image height: the whole part of width over aspect ratio, at least one.
pub open spec fn height_of(aspect_ratio: int, image_width: int) -> int {
    let h = raw_height(aspect_ratio, image_width);
    if h < 1 {
        1
    } else {
        h
    }
}

/// Whether the image parameters admit a camera.
pub open spec fn image_ok(aspect_ratio: int, image_width: int, samples_per_pixel: int) -> bool {
    &&& aspect_ratio > 0
    &&& image_width > 0
    &&& samples_per_pixel > 0
    &&& raw_height(aspect_ratio, image_width) <= u32::MAX
}

/// The backward direction `w` of the camera frame.
pub open spec fn back_of(center: Point<i64>, lookat: Point<i64>) -> Vec3<i64> {
    unit(vsub(center, lookat))
}

/// The right direction `u` of the camera frame.
pub open spec fn right_of(center: Point<i64>, lookat: Point<i64>, vup: Vec3<i64>) -> Vec3<i64> {
    unit(cross(vup, back_of(center, lookat)))
}

/// Whether the eye, target and up vector span a frame.
pub open spec fn frame_ok(center: Point<i64>, lookat: Point<i64>, vup: Vec3<i64>) -> bool {
    length(vsub(center, lookat)) > 0 && length(cross(vup, back_of(center, lookat))) > 0
}

/// The camera that the parameters describe.
pub open spec fn camera_of(
    aspect_ratio: int,
    image_width: u32,
    samples_per_pixel: u32,
    max_depth: u32,
    half_vfov_tan: int,
    center: Point<i64>,
    lookat: Point<i64>,
    vup: Vec3<i64>,
    half_defocus_tan: i64,
    focus_dist: int,
) -> Camera {
    let height = height_of(aspect_ratio, image_width as int);
    let w = back_of(center, lookat);
    let u = right_of(center, lookat, vup);
    let v = cross(w, u);
    let viewport_height = fmul(fmul(2 * SCALE, half_vfov_tan), focus_dist);
    let viewport_width = fmul(aspect_ratio, viewport_height);
    let viewport_u = vscale(u, viewport_width);
    let viewport_v = vscale(v, fneg(viewport_height));
    let pixel_delta_u = vdiv(viewport_u, image_width * SCALE);
    let pixel_delta_v = vdiv(viewport_v, height * SCALE);
    let upper_left = vsub(
        vsub(vsub(center, vscale(w, focus_dist)), vdiv(viewport_u, 2 * SCALE)),
        vdiv(viewport_v, 2 * SCALE),
    );
    let defocus_radius = fmul(focus_dist, half_defocus_tan as int);
    Camera {
        image_width,
        image_height: height as u32,
        samples_per_pixel,
        sample_pixel_scale: fdiv(SCALE as int, samples_per_pixel * SCALE) as i64,
        center,
        pixel100_loc: vadd(upper_left, vscale(vadd(pixel_delta_u, pixel_delta_v), SCALE / 2)),
        pixel_delta_u,
        pixel_delta_v,
        defocus_disc_u: vscale(u, defocus_radius),
        defocus_disc_v: vscale(v, defocus_radius),
        defocus_tan: half_defocus_tan,
        max_depth,
    }
}

/// The point of the lens for the disk point `p`.
pub open spec fn lens_point(cam: Camera, p: Vec3<i64>) -> Point<i64> {
    vadd(vadd(cam.center, vscale(cam.defocus_disc_u, p.x as int)), vscale(cam.defocus_disc_v, p.y as int))
}

/// The ray through pixel `(i, j)` moved by `offset` within the pixel, leaving the
/// lens at the disk point `disk` when the camera has a defocus disk.
pub open spec fn ray_through(cam: Camera, i: int, j: int, offset: Vec3<i64>, disk: Vec3<i64>) -> Ray {
    let pixel_sample = vadd(
        vadd(cam.pixel100_loc, vscale(cam.pixel_delta_u, fadd(i * SCALE, offset.x as int))),
        vscale(cam.pixel_delta_v, fadd(j * SCALE, offset.y as int)),
    );
    let origin = if cam.defocus_tan <= 0 {
        cam.center
    } else {
        lens_point(cam, disk)
    };
    Ray { origin, dir: vsub(pixel_sample, origin) }
}

/// Whether `offset` lies in the square `[-1/2, 1/2)²` of the plane `z = 0`.
pub open spec fn is_pixel_offset(offset: Vec3<i64>) -> bool {
    -SCALE / 2 <= offset.x < SCALE / 2 && -SCALE / 2 <= offset.y < SCALE / 2 && offset.z == 0
}

/// Whether `p` lies in the open unit disk of the plane `z = 0`.
pub open spec fn is_disk_point(p: Vec3<i64>) -> bool {
    len_sq(p) < SCALE && p.z == 0
}

pub open spec fn black() -> Color<i64> {
    Vec3 { x: 0, y: 0, z: 0 }
}

/// The sky seen along `ray`: white blended into light blue as the direction
/// turns upward. A direction of length zero sees black.
pub open spec fn sky(ray: Ray) -> Color<i64> {
    if length(ray.dir) <= 0 {
        black()
    } else {
        let a = fmul(fadd(unit(ray.dir).y as int, SCALE as int), SCALE / 2);
        vadd(
            vscale(vec3_of(SCALE as int, SCALE as int, SCALE as int), fsub(SCALE as int, a)),
            vscale(vec3_of(SCALE / 2, 7 * SCALE / 10, SCALE as int), a),
        )
    }
}

/// The interval of ray parameters at which hits count.
pub open spec fn shading_interval() -> Interval {
    Interval { min: T_MIN, max: i64::MAX }
}

/// The colour seen along `ray` with `depth` bounces left, the `k`-th bounce
/// drawing on `samples[k]`: black when no bounce is left; the sky when nothing
/// is hit; black when the hit absorbs the ray; else the attenuation times the
/// colour seen along the scattered ray.
#[verifier::opaque]
pub open spec fn shade<W: Hittable>(world: W, ray: Ray, depth: int, samples: Seq<ScatterSample>) -> Color<
    i64,
>
    decreases depth,
{
    if depth <= 0 {
        black()
    } else {
        match world.hit_spec(ray, shading_interval()) {
            Some(rec) => match rec.material.scatter_spec(ray, rec, samples[0]) {
                Some((attenuation, scattered)) => vmul(
                    attenuation,
                    shade(world, scattered, depth - 1, samples.drop_first()),
                ),
                None => black(),
            },
            None => sky(ray),
        }
    }
}

/// Whether every sample of `s` could have been drawn by `ScatterSample::random`.
pub open spec fn all_scatter_samples(s: Seq<ScatterSample>) -> bool {
    forall|k: int| 0 <= k < s.len() ==> is_scatter_sample(#[trigger] s[k])
}

/// Whether `c` is a colour that one sample of pixel `(i, j)` may see.
pub open spec fn is_sample_color<W: Hittable>(cam: Camera, world: W, i: int, j: int, c: Color<i64>) -> bool {
    exists|offset: Vec3<i64>, disk: Vec3<i64>, s: Seq<ScatterSample>|
        is_pixel_offset(offset) && is_disk_point(disk) && s.len() == cam.max_depth
            && all_scatter_samples(s) && c == #[trigger] shade(
            world,
            ray_through(cam, i, j, offset, disk),
            cam.max_depth as int,
            s,
        )
}

/// The sum of a sequence of colours, from the left.
pub open spec fn sum_colors(cs: Seq<Color<i64>>) -> Color<i64>
    decreases cs.len(),
{
    if cs.len() == 0 {
        black()
    } else {
        vadd(sum_colors(cs.drop_last()), cs.last())
    }
}

/// Whether `c` is a colour that pixel `(i, j)` may get: the mean of one colour
/// per sample.
pub open spec fn is_pixel_color<W: Hittable>(cam: Camera, world: W, i: int, j: int, c: Color<i64>) -> bool {
    exists|cs: Seq<Color<i64>>|
        cs.len() == cam.samples_per_pixel && (forall|k: int|
            0 <= k < cs.len() ==> is_sample_color(cam, world, i, j, #[trigger] cs[k])) && c
            == #[trigger] vscale(sum_colors(cs), cam.sample_pixel_scale as int)
}

/// The eye of the default camera: `(-2, 2, 1)`.
pub open spec fn default_center() -> Point<i64> {
    Vec3 { x: -2_000_000_000i64, y: 2_000_000_000i64, z: SCALE }
}

/// The target of the default camera: `(0, 0, -1)`.
pub open spec fn default_lookat() -> Point<i64> {
    Vec3 { x: 0, y: 0, z: -1_000_000_000i64 }
}

/// The up vector of the default camera: `(0, 1, 0)`.
pub open spec fn default_vup() -> Vec3<i64> {
    Vec3 { x: 0, y: SCALE, z: 0 }
}

/// Aspect ratio 16:9.
pub const DEFAULT_ASPECT: i64 = 1_777_777_777;

/// Tangent of half the default vertical field of view of 20°: `tan 10°`.
pub const DEFAULT_HALF_VFOV_TAN: i64 = 176_326_981;

/// Tangent of half the default defocus angle of 10°: `tan 5°`.
pub const DEFAULT_HALF_DEFOCUS_TAN: i64 = 87_488_664;

/// Default focus distance: `3.4`.
pub const DEFAULT_FOCUS_DIST: i64 = 3_400_000_000;

proof fn lemma_square_nonnegative(a: int)
    ensures
        fmul(a, a) >= 0,
        a * a >= 0,
{
    assert(a * a >= 0) by (nonlinear_arith);
}

/// The default eye, target and up vector span a frame.
proof fn lemma_default_frame()
    ensures
        frame_ok(default_center(), default_lookat(), default_vup()),
{
    let s = SCALE as int;
    let d = vsub(default_center(), default_lookat());
    assert(d == Vec3 { x: (-2 * s) as i64, y: (2 * s) as i64, z: (2 * s) as i64 });
    lemma_quot_multiple(2 * s, 2, s);
    lemma_quot_multiple(-2 * s, -2, s);
    assert(fmul(2 * s, 2 * s) == 4 * s);
    assert(fmul(-2 * s, -2 * s) == 4 * s);
    assert(len_sq(d) == 12 * s);
    lemma_length_positive(d);
    let l = length(d);
    lemma_root_exists(12 * s * s);
    assert(is_root(12 * s * s, root(12 * s * s)));
    assert(l == root(12 * s * s));
    assert(0 < l < 4 * s) by (nonlinear_arith)
        requires
            l * l <= 12 * s * s,
            l > 0,
            s > 0,
    ;
    let w = unit(d);
    let m = (2 * s * s) / l;
    assert(m >= s / 2) by {
        vstd::arithmetic::div_mod::lemma_div_is_ordered_by_denominator(2 * s * s, l, 4 * s);
        assert((2 * s * s) / (4 * s) == s / 2);
    }
    assert(m <= 2 * s * s) by {
        vstd::arithmetic::div_mod::lemma_div_is_ordered_by_denominator(2 * s * s, 1, l);
    }
    assert(w.x == -m);
    let side = cross(default_vup(), w);
    lemma_mul_by_unit(w.x as int, s);
    lemma_mul_by_unit(w.y as int, 0);
    lemma_mul_by_unit(w.z as int, s);
    lemma_mul_by_unit(w.x as int, 0);
    lemma_mul_by_unit(w.z as int, 0);
    lemma_clamp_range(w.z as int);
    assert(side.z == m);
    assert(fmul(m, m) > 0) by {
        assert(m * m >= (s / 2) * (s / 2)) by (nonlinear_arith)
            requires
                m >= s / 2,
                s > 0,
        ;
        vstd::arithmetic::div_mod::lemma_div_is_ordered((s / 2) * (s / 2), m * m, s);
    }
    lemma_square_nonnegative(side.x as int);
    lemma_square_nonnegative(side.y as int);
    assert(len_sq(side) > 0);
    lemma_length_positive(side);
}

/// The channel values of a colour.
pub open spec fn rgb(c: Color<i64>) -> Seq<u32> {
    seq![channel(c.x as int) as u32, channel(c.y as int) as u32, channel(c.z as int) as u32]
}

/// Whether `px` holds the channel values of a colour that pixel `(i, j)` may get.
pub open spec fn is_pixel_rgb<W: Hittable>(cam: Camera, world: W, i: int, j: int, px: Seq<u32>) -> bool {
    exists|c: Color<i64>| #[trigger] is_pixel_color(cam, world, i, j, c) && px == rgb(c)
}

impl Default for Camera {
    /// A camera for a 400-pixel-wide 16:9 image at 100 samples per pixel and
    /// 50 bounces, looking from `(-2, 2, 1)` at `(0, 0, -1)` with up `(0, 1, 0)`,
    /// a vertical field of view of 20°, a defocus angle of 10° and a focus
    /// distance of 3.4.
    fn default() -> (r: Camera)
        ensures
            r == camera_of(
                DEFAULT_ASPECT as int,
                400,
                100,
                50,
                DEFAULT_HALF_VFOV_TAN as int,
                default_center(),
                default_lookat(),
                default_vup(),
                DEFAULT_HALF_DEFOCUS_TAN,
                DEFAULT_FOCUS_DIST as int,
            ),
    {
        proof {
            lemma_default_frame();
            vstd::arithmetic::div_mod::lemma_div_multiples_vanish_fancy(
                225_000_000_098,
                777_777_854,
                DEFAULT_ASPECT as int,
            );
            assert(raw_height(DEFAULT_ASPECT as int, 400) == 225);
        }
        let made = Camera::new(
            DEFAULT_ASPECT,
            400,
            100,
            50,
            DEFAULT_HALF_VFOV_TAN,
            Vec3::new(-2 * SCALE, 2 * SCALE, SCALE),
            Vec3::new(0, 0, -SCALE),
            Vec3::new(0, SCALE, 0),
            DEFAULT_HALF_DEFOCUS_TAN,
            DEFAULT_FOCUS_DIST,
        );
        match made {
            Ok(camera) => camera,
            Err(_) => vstd::pervasive::unreached(),
        }
    }
}

impl Camera {
    /// The camera for an aspect ratio, an image width, a sample count per pixel,
    /// a bound on bounces, the tangent of half the vertical field of view, the
    /// eye, the target, the up vector, the tangent of half the defocus angle
    /// and the focus distance.
    pub fn new(
        aspect_ratio: i64,
        image_width: u32,
        samples_per_pixel: u32,
        max_depth: u32,
        half_vfov_tan: i64,
        center: Point<i64>,
        lookat: Point<i64>,
        vup: Vec3<i64>,
        half_defocus_tan: i64,
        focus_dist: i64,
    ) -> (r: Result<Camera, CameraError>)
        ensures
            !image_ok(aspect_ratio as int, image_width as int, samples_per_pixel as int) ==> r
                == Err::<Camera, CameraError>(CameraError::InvalidImage),
            image_ok(aspect_ratio as int, image_width as int, samples_per_pixel as int) && !frame_ok(
                center,
                lookat,
                vup,
            ) ==> r == Err::<Camera, CameraError>(CameraError::DegenerateGeometry),
            image_ok(aspect_ratio as int, image_width as int, samples_per_pixel as int) && frame_ok(
                center,
                lookat,
                vup,
            ) ==> r == Ok::<Camera, CameraError>(
                camera_of(
                    aspect_ratio as int,
                    image_width,
                    samples_per_pixel,
                    max_depth,
                    half_vfov_tan as int,
                    center,
                    lookat,
                    vup,
                    half_defocus_tan,
                    focus_dist as int,
                ),
            ),
    {
        if aspect_ratio <= 0 || image_width == 0 || samples_per_pixel == 0 {
            return Err(CameraError::InvalidImage);
        }
        let width: i64 = image_width as i64 * SCALE;
        let raw: i64 = fixed_div(width, aspect_ratio) / SCALE;
        if raw > u32::MAX as i64 {
            return Err(CameraError::InvalidImage);
        }
        let image_height: i64 = if raw < 1 {
            1
        } else {
            raw
        };
        let from_target = center.sub(lookat);
        if from_target.length() <= 0 {
            return Err(CameraError::DegenerateGeometry);
        }
        let w = from_target.unit_vector();
        let side = vup.cross(&w);
        if side.length() <= 0 {
            return Err(CameraError::DegenerateGeometry);
        }
        let u = side.unit_vector();
        let v = w.cross(&u);

        let viewport_height = fixed_mul(fixed_mul(2 * SCALE, half_vfov_tan), focus_dist);
        let viewport_width = fixed_mul(aspect_ratio, viewport_height);
        let viewport_u = u.mul(viewport_width);
        let viewport_v = v.mul(fixed_neg(viewport_height));

        let pixel_delta_u = viewport_u.div(width);
        let pixel_delta_v = viewport_v.div(image_height * SCALE);

        let viewport_upper_left = center.sub(w.mul(focus_dist)).sub(viewport_u.div(2 * SCALE)).sub(
            viewport_v.div(2 * SCALE),
        );
        let pixel100_loc = viewport_upper_left.add(pixel_delta_u.add(pixel_delta_v).mul(SCALE / 2));

        let defocus_radius = fixed_mul(focus_dist, half_defocus_tan);
        let defocus_disc_u = u.mul(defocus_radius);
        let defocus_disc_v = v.mul(defocus_radius);

        let sample_pixel_scale = fixed_div(SCALE, samples_per_pixel as i64 * SCALE);

        Ok(
            Camera {
                image_width,
                image_height: image_height as u32,
                samples_per_pixel,
                sample_pixel_scale,
                center,
                pixel100_loc,
                pixel_delta_u,
                pixel_delta_v,
                defocus_disc_u,
                defocus_disc_v,
                defocus_tan: half_defocus_tan,
                max_depth,
            },
        )
    }

    /// The ray through pixel `(i, j)` moved by `offset` within the pixel and
    /// leaving the lens at the disk point `disk`.
    pub fn ray_through(&self, i: u32, j: u32, offset: Vec3<i64>, disk: Vec3<i64>) -> (r: Ray)
        ensures
            r == ray_through(*self, i as int, j as int, offset, disk),
    {
        let pixel_sample = self.pixel100_loc.add(
            self.pixel_delta_u.mul(fixed_add(i as i64 * SCALE, offset.x)),
        ).add(self.pixel_delta_v.mul(fixed_add(j as i64 * SCALE, offset.y)));
        let ray_origin = if self.defocus_tan <= 0 {
            self.center
        } else {
            self.center.add(self.defocus_disc_u.mul(disk.x)).add(self.defocus_disc_v.mul(disk.y))
        };
        Ray::new(ray_origin, pixel_sample.sub(ray_origin))
    }

    /// A random offset within a pixel.
    pub fn sample_square() -> (r: Vec3<i64>)
        ensures
            is_pixel_offset(r),
    {
        Vec3::new(fixed_sub(rand_float(), SCALE / 2), fixed_sub(rand_float(), SCALE / 2), 0)
    }

    /// A random ray through pixel `(i, j)`.
    pub fn get_ray(&self, i: u32, j: u32) -> (r: Ray)
        ensures
            exists|offset: Vec3<i64>, disk: Vec3<i64>|
                is_pixel_offset(offset) && is_disk_point(disk) && r == #[trigger] ray_through(
                    *self,
                    i as int,
                    j as int,
                    offset,
                    disk,
                ),
    {
        let offset = Self::sample_square();
        let disk = if self.defocus_tan <= 0 {
            Vec3::new(0, 0, 0)
        } else {
            rand_in_unit_disk()
        };
        assert(fmul(0, 0) == 0);
        let r = self.ray_through(i, j, offset, disk);
        assert(is_pixel_offset(offset) && is_disk_point(disk) && r == ray_through(
            *self,
            i as int,
            j as int,
            offset,
            disk,
        ));
        r
    }

    /// The sky seen along `ray`.
    pub fn sky_color(ray: &Ray) -> (r: Color<i64>)
        ensures
            r == sky(*ray),
    {
        if ray.get_direction().length() <= 0 {
            return Vec3::new(0, 0, 0);
        }
        let unit_direction = ray.get_direction().unit_vector();
        let a = fixed_mul(fixed_add(unit_direction.y, SCALE), SCALE / 2);
        Vec3::new(SCALE, SCALE, SCALE).mul(fixed_sub(SCALE, a)).add(
            Vec3::new(SCALE / 2, 7 * SCALE / 10, SCALE).mul(a),
        )
    }

    #[verifier::rlimit(40)]
    fn shade_from<W: Hittable>(
        world: &W,
        ray: Ray,
        depth: u32,
        samples: &Vec<ScatterSample>,
        k: usize,
    ) -> (r: Color<i64>)
        requires
            k + depth <= samples@.len(),
        ensures
            r == shade(*world, ray, depth as int, samples@.subrange(k as int, samples@.len() as int)),
        decreases depth,
    {
        proof {
            reveal(shade);
        }
        let ghost rest = samples@.subrange(k as int, samples@.len() as int);
        let available: usize = samples.len();
        assert(k + 1 <= available || depth == 0);
        if depth == 0 {
            return Vec3::new(0, 0, 0);
        }
        match world.hit(&ray, Interval::new(T_MIN, i64::MAX)) {
            Some(rec) => match rec.material.scatter(&ray, &rec, &samples[k]) {
                Some((attenuation, scattered)) => {
                    let c = Self::shade_from(world, scattered, depth - 1, samples, k + 1);
                    assert(rest.drop_first() =~= samples@.subrange(
                        k + 1,
                        samples@.len() as int,
                    ));
                    attenuation.mul_vec3(c)
                },
                None => Vec3::new(0, 0, 0),
            },
            None => Self::sky_color(&ray),
        }
    }

    /// The colour seen along `ray` with `depth` bounces left, the `k`-th bounce
    /// drawing on `samples[k]`.
    pub fn ray_color_with<W: Hittable>(
        world: &W,
        ray: Ray,
        depth: u32,
        samples: &Vec<ScatterSample>,
    ) -> (r: Color<i64>)
        requires
            depth <= samples@.len(),
        ensures
            r == shade(*world, ray, depth as int, samples@),
    {
        assert(samples@.subrange(0, samples@.len() as int) =~= samples@);
        Self::shade_from(world, ray, depth, samples, 0)
    }

    /// The colour seen along `ray` with `depth` bounces left, drawing the random
    /// values of each bounce as it comes.
    pub fn ray_color<W: Hittable>(world: &W, ray: Ray, depth: u32) -> (r: Color<i64>)
        ensures
            exists|s: Seq<ScatterSample>|
                s.len() == depth && all_scatter_samples(s) && r == #[trigger] shade(
                    *world,
                    ray,
                    depth as int,
                    s,
                ),
        decreases depth,
    {
        let ghost plain = Seq::new(depth as nat, |k: int| plain_sample());
        proof {
            lemma_plain_sample();
            reveal(shade);
        }
        if depth == 0 {
            let r = Vec3::new(0, 0, 0);
            assert(plain.len() == depth && all_scatter_samples(plain) && r == shade(
                *world,
                ray,
                depth as int,
                plain,
            ));
            return r;
        }
        match world.hit(&ray, Interval::new(T_MIN, i64::MAX)) {
            Some(rec) => {
                let sample = ScatterSample::random();
                let ghost s0 = seq![sample] + Seq::new((depth - 1) as nat, |k: int| plain_sample());
                assert(s0[0] == sample);
                match rec.material.scatter(&ray, &rec, &sample) {
                    Some((attenuation, scattered)) => {
                        let c = Self::ray_color(world, scattered, depth - 1);
                        let r = attenuation.mul_vec3(c);
                        proof {
                            let s1 = choose|s1: Seq<ScatterSample>|
                                s1.len() == depth - 1 && all_scatter_samples(s1) && c
                                    == #[trigger] shade(*world, scattered, depth - 1, s1);
                            let s = seq![sample] + s1;
                            assert(s.drop_first() =~= s1);
                            assert(s[0] == sample);
                            assert(all_scatter_samples(s));
                            assert(r == shade(*world, ray, depth as int, s));
                        }
                        r
                    },
                    None => {
                        let r = Vec3::new(0, 0, 0);
                        assert(all_scatter_samples(s0));
                        assert(r == shade(*world, ray, depth as int, s0));
                        r
                    },
                }
            },
            None => {
                let r = Self::sky_color(&ray);
                assert(plain.len() == depth && all_scatter_samples(plain) && r == shade(
                    *world,
                    ray,
                    depth as int,
                    plain,
                ));
                r
            },
        }
    }

    /// The colour of pixel `(i, j)`: the mean of the colours seen by
    /// `samples_per_pixel` random rays through it.
    pub fn pixel_color<W: Hittable>(&self, world: &W, i: u32, j: u32) -> (r: Color<i64>)
        ensures
            is_pixel_color(*self, *world, i as int, j as int, r),
    {
        let mut color = Vec3::new(0, 0, 0);
        let ghost mut cs: Seq<Color<i64>> = Seq::empty();
        let mut n: u32 = 0;
        while n < self.samples_per_pixel
            invariant
                n <= self.samples_per_pixel,
                cs.len() == n,
                color == sum_colors(cs),
                forall|k: int|
                    0 <= k < cs.len() ==> is_sample_color(
                        *self,
                        *world,
                        i as int,
                        j as int,
                        #[trigger] cs[k],
                    ),
            decreases self.samples_per_pixel - n,
        {
            let ray = self.get_ray(i, j);
            let c = Self::ray_color(world, ray, self.max_depth);
            proof {
                let (offset, disk) = choose|offset: Vec3<i64>, disk: Vec3<i64>|
                    is_pixel_offset(offset) && is_disk_point(disk) && ray == #[trigger] ray_through(
                        *self,
                        i as int,
                        j as int,
                        offset,
                        disk,
                    );
                let s = choose|s: Seq<ScatterSample>|
                    s.len() == self.max_depth && all_scatter_samples(s) && c == #[trigger] shade(
                        *world,
                        ray,
                        self.max_depth as int,
                        s,
                    );
                assert(is_sample_color(*self, *world, i as int, j as int, c)) by {
                    assert(c == shade(
                        *world,
                        ray_through(*self, i as int, j as int, offset, disk),
                        self.max_depth as int,
                        s,
                    ));
                }
                let old_cs = cs;
                cs = cs.push(c);
                assert(cs.drop_last() =~= old_cs);
            }
            color.add_assign(c);
            n += 1;
        }
        let r = color.mul(self.sample_pixel_scale);
        assert(cs.len() == self.samples_per_pixel && r == vscale(
            sum_colors(cs),
            self.sample_pixel_scale as int,
        ));
        r
    }

    /// The channel values of row `j`, from left to right.
    pub fn render_row<W: Hittable>(&self, world: &W, j: u32) -> (r: Vec<[u32; 3]>)
        ensures
            r@.len() == self.image_width,
            forall|i: int|
                0 <= i < r@.len() ==> is_pixel_rgb(*self, *world, i, j as int, (#[trigger] r@[i])@),
    {
        let mut row: Vec<[u32; 3]> = Vec::new();
        let mut i: u32 = 0;
        while i < self.image_width
            invariant
                i <= self.image_width,
                row@.len() == i,
                forall|k: int|
                    0 <= k < row@.len() ==> is_pixel_rgb(
                        *self,
                        *world,
                        k,
                        j as int,
                        (#[trigger] row@[k])@,
                    ),
            decreases self.image_width - i,
        {
            let c = self.pixel_color(world, i, j);
            let px = to_rgb(c);
            let ghost before = row@;
            row.push(px);
            assert(forall|k: int|
                0 <= k < before.len() ==> row@[k] == before[k]);
            assert(is_pixel_color(*self, *world, i as int, j as int, c) && row@[i as int]@ == rgb(c));
            assert(is_pixel_rgb(*self, *world, i as int, j as int, row@[i as int]@));
            i += 1;
        }
        assert(row@.len() == self.image_width);
        row
    }
}

} // verus!
