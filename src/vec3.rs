//! Three-component vectors, used as displacements, points and colours.

use vstd::prelude::*;
use crate::utils::{rand_float, rand_from_range};
use crate::fixed::{
    clamp, fadd, fdiv, fixed_add, fixed_div, fixed_min, fixed_mul, fixed_neg, fixed_sqrt, fixed_sub,
    fmin, fmul, fneg, fsqrt, fsub, is_root, lemma_fsqrt_range, lemma_root_exists, lemma_root_unique,
    magnitude, quot, root, LIMIT, SCALE,
};

verus! {

/// A vector of three components.
#[derive(Debug, Copy, Clone)]
pub struct Vec3<T> {
    pub x: T,
    pub y: T,
    pub z: T,
}

/// A position in space.
pub type Point<T> = Vec3<T>;

/// A colour, one channel per component.
pub type Color<T> = Vec3<T>;

/// Magnitude under which a component counts as zero: `1e-8`.
pub const NEAR_ZERO: i64 = 10;

/// The vector of three scalars, each held to the scalar range.
pub open spec fn vec3_of(x: int, y: int, z: int) -> Vec3<i64> {
    Vec3 { x: clamp(x) as i64, y: clamp(y) as i64, z: clamp(z) as i64 }
}

/// Componentwise sum.
pub open spec fn vadd(a: Vec3<i64>, b: Vec3<i64>) -> Vec3<i64> {
    vec3_of(fadd(a.x as int, b.x as int), fadd(a.y as int, b.y as int), fadd(a.z as int, b.z as int))
}

/// Componentwise difference.
pub open spec fn vsub(a: Vec3<i64>, b: Vec3<i64>) -> Vec3<i64> {
    vec3_of(fsub(a.x as int, b.x as int), fsub(a.y as int, b.y as int), fsub(a.z as int, b.z as int))
}

/// Componentwise negation.
pub open spec fn vneg(a: Vec3<i64>) -> Vec3<i64> {
    vec3_of(fneg(a.x as int), fneg(a.y as int), fneg(a.z as int))
}

/// `a` scaled by the scalar `t`.
pub open spec fn vscale(a: Vec3<i64>, t: int) -> Vec3<i64> {
    vec3_of(fmul(a.x as int, t), fmul(a.y as int, t), fmul(a.z as int, t))
}

/// Componentwise product.
pub open spec fn vmul(a: Vec3<i64>, b: Vec3<i64>) -> Vec3<i64> {
    vec3_of(fmul(a.x as int, b.x as int), fmul(a.y as int, b.y as int), fmul(a.z as int, b.z as int))
}

/// `a` divided by the scalar `t`.
pub open spec fn vdiv(a: Vec3<i64>, t: int) -> Vec3<i64> {
    vec3_of(fdiv(a.x as int, t), fdiv(a.y as int, t), fdiv(a.z as int, t))
}

/// Dot product.
pub open spec fn dot(a: Vec3<i64>, b: Vec3<i64>) -> int {
    fadd(fadd(fmul(a.x as int, b.x as int), fmul(a.y as int, b.y as int)), fmul(a.z as int, b.z as int))
}

/// Cross product.
pub open spec fn cross(a: Vec3<i64>, b: Vec3<i64>) -> Vec3<i64> {
    vec3_of(
        fsub(fmul(a.y as int, b.z as int), fmul(a.z as int, b.y as int)),
        fsub(fmul(a.z as int, b.x as int), fmul(a.x as int, b.z as int)),
        fsub(fmul(a.x as int, b.y as int), fmul(a.y as int, b.x as int)),
    )
}

/// Squared length.
pub open spec fn len_sq(a: Vec3<i64>) -> int {
    dot(a, a)
}

/// Length.
pub open spec fn length(a: Vec3<i64>) -> int {
    fsqrt(len_sq(a))
}

/// `a` divided by its length; meaningful where that length is positive.
pub open spec fn unit(a: Vec3<i64>) -> Vec3<i64> {
    vdiv(a, length(a))
}

/// Whether every component is below `1e-8` in magnitude.
pub open spec fn is_near_zero(a: Vec3<i64>) -> bool {
    &&& -NEAR_ZERO < a.x < NEAR_ZERO
    &&& -NEAR_ZERO < a.y < NEAR_ZERO
    &&& -NEAR_ZERO < a.z < NEAR_ZERO
}

/// Mirror image of `v` across the plane with normal `n`: `v - 2·(v·n)·n`.
pub open spec fn reflect(v: Vec3<i64>, n: Vec3<i64>) -> Vec3<i64> {
    vsub(v, vscale(vscale(n, 2 * SCALE), dot(v, n)))
}

/// Cosine of the angle between `-v` and `n`, capped at one.
pub open spec fn refract_cos(v: Vec3<i64>, n: Vec3<i64>) -> int {
    fmin(dot(vneg(v), n), SCALE as int)
}

/// Component of the refracted ray perpendicular to `n`.
pub open spec fn refract_perp(v: Vec3<i64>, n: Vec3<i64>, eta: int) -> Vec3<i64> {
    vscale(vadd(v, vscale(n, refract_cos(v, n))), eta)
}

/// Snell's law for the unit vector `v` meeting a surface of unit normal `n`
/// with ratio of refractive indices `eta`.
pub open spec fn refract(v: Vec3<i64>, n: Vec3<i64>, eta: int) -> Vec3<i64> {
    let perp = refract_perp(v, n, eta);
    let parallel = vscale(n, fneg(fsqrt(magnitude(fsub(SCALE as int, len_sq(perp))))));
    vadd(perp, parallel)
}

/// Saturated values lie in range, and values in range are left alone.
pub proof fn lemma_clamp_range(v: int)
    ensures
        -LIMIT <= clamp(v) <= LIMIT,
        -LIMIT <= v <= LIMIT ==> clamp(v) == v,
{
}

proof fn lemma_fmul_negated(a: int, b: int)
    requires
        -LIMIT <= b <= LIMIT,
    ensures
        fmul(a, fneg(b)) == -fmul(a, b),
{
    assert(fneg(b) == -b);
    assert(a * (-b) == -(a * b)) by (nonlinear_arith);
}

/// Negating a vector whose components are in range negates its dot products.
pub proof fn lemma_dot_negated(a: Vec3<i64>, b: Vec3<i64>)
    requires
        -LIMIT <= b.x,
        -LIMIT <= b.y,
        -LIMIT <= b.z,
    ensures
        dot(a, vneg(b)) == -dot(a, b),
{
    lemma_fmul_negated(a.x as int, b.x as int);
    lemma_fmul_negated(a.y as int, b.y as int);
    lemma_fmul_negated(a.z as int, b.z as int);
}

/// Whether `n` is a unit vector along one of the axes.
pub open spec fn is_axis_unit(n: Vec3<i64>) -> bool {
    ||| (n.x == SCALE || n.x == -SCALE) && n.y == 0 && n.z == 0
    ||| n.x == 0 && (n.y == SCALE || n.y == -SCALE) && n.z == 0
    ||| n.x == 0 && n.y == 0 && (n.z == SCALE || n.z == -SCALE)
}

/// Whether each component of `v` is at most half the scalar range in magnitude.
pub open spec fn is_moderate(v: Vec3<i64>) -> bool {
    &&& -(LIMIT / 2) <= v.x <= LIMIT / 2
    &&& -(LIMIT / 2) <= v.y <= LIMIT / 2
    &&& -(LIMIT / 2) <= v.z <= LIMIT / 2
}

/// `quot(k·a·s, s)` is `k·a` for a positive `s`.
pub proof fn lemma_quot_multiple(a: int, k: int, s: int)
    requires
        s > 0,
        k == 1 || k == -1 || k == 2 || k == -2,
    ensures
        quot(a * (k * s), s) == k * a,
        quot((k * s) * a, s) == k * a,
{
    let m = magnitude(a);
    let km = magnitude(k);
    assert(a * (k * s) == (k * s) * a) by (nonlinear_arith);
    assert(magnitude(a * (k * s)) == (km * m) * s) by (nonlinear_arith)
        requires
            m == a || m == -a,
            m >= 0,
            km == k || km == -k,
            km >= 0,
            s > 0,
            magnitude(a * (k * s)) == a * (k * s) || magnitude(a * (k * s)) == -(a * (k * s)),
            magnitude(a * (k * s)) >= 0,
    ;
    vstd::arithmetic::div_mod::lemma_div_by_multiple(km * m, s);
    assert((a * (k * s) >= 0) == (a == 0 || (k > 0) == (a > 0))) by (nonlinear_arith)
        requires
            k != 0,
            s > 0,
    ;
}

/// Multiplying by one, minus one or zero, and doubling those.
pub proof fn lemma_mul_by_unit(a: int, u: int)
    requires
        u == SCALE || u == -SCALE || u == 0,
        -LIMIT <= a <= LIMIT,
    ensures
        u == SCALE ==> fmul(a, u) == a,
        u == -SCALE ==> fmul(a, u) == -a,
        u == 0 ==> fmul(a, u) == 0,
        fmul(u, 2 * SCALE) == 2 * u,
{
    let s = SCALE as int;
    if u == SCALE {
        lemma_quot_multiple(a, 1, s);
        lemma_quot_multiple(2, 1, s);
    } else if u == -SCALE {
        lemma_quot_multiple(a, -1, s);
        lemma_quot_multiple(2, -1, s);
    }
    lemma_quot_multiple(u, 2, s);
}

proof fn lemma_double(d: int, a: int)
    requires
        d == 2 * SCALE || d == -2 * SCALE,
        -(LIMIT / 2) <= a <= LIMIT / 2,
    ensures
        fmul(d, a) == if d > 0 {
            2 * a
        } else {
            -2 * a
        },
{
    let s = SCALE as int;
    if d > 0 {
        lemma_quot_multiple(a, 2, s);
        assert(d * a == (2 * s) * a);
    } else {
        lemma_quot_multiple(a, -2, s);
        assert(d * a == (-2 * s) * a);
    }
}

/// The component of `v` along the axis unit `n`, with its sign.
pub open spec fn axis_component(v: Vec3<i64>, n: Vec3<i64>) -> int {
    if n.x != 0 {
        if n.x > 0 { v.x as int } else { -v.x }
    } else if n.y != 0 {
        if n.y > 0 { v.y as int } else { -v.y }
    } else {
        if n.z > 0 { v.z as int } else { -v.z }
    }
}

proof fn lemma_dot_axis(v: Vec3<i64>, n: Vec3<i64>)
    requires
        is_axis_unit(n),
        is_moderate(v),
    ensures
        dot(v, n) == axis_component(v, n),
{
    lemma_mul_by_unit(v.x as int, n.x as int);
    lemma_mul_by_unit(v.y as int, n.y as int);
    lemma_mul_by_unit(v.z as int, n.z as int);
}

/// Reflection across an axis-aligned mirror negates the component along the axis.
proof fn lemma_reflect_axis(v: Vec3<i64>, n: Vec3<i64>)
    requires
        is_axis_unit(n),
        is_moderate(v),
    ensures
        reflect(v, n) == (if n.x != 0 {
            Vec3 { x: -v.x as i64, y: v.y, z: v.z }
        } else if n.y != 0 {
            Vec3 { x: v.x, y: -v.y as i64, z: v.z }
        } else {
            Vec3 { x: v.x, y: v.y, z: -v.z as i64 }
        }),
{
    lemma_dot_axis(v, n);
    let d = dot(v, n);
    lemma_mul_by_unit(0, n.x as int);
    lemma_mul_by_unit(0, n.y as int);
    lemma_mul_by_unit(0, n.z as int);
    let n2 = vscale(n, 2 * SCALE);
    assert(fmul(0, d) == 0);
    lemma_clamp_range(v.x as int);
    lemma_clamp_range(v.y as int);
    lemma_clamp_range(v.z as int);
    if n.x != 0 {
        assert(n2 == Vec3 { x: (2 * n.x) as i64, y: 0i64, z: 0i64 });
        lemma_double(n2.x as int, d);
        assert(vscale(n2, d) == Vec3 { x: (2 * v.x) as i64, y: 0i64, z: 0i64 });
    } else if n.y != 0 {
        assert(n2 == Vec3 { x: 0i64, y: (2 * n.y) as i64, z: 0i64 });
        lemma_double(n2.y as int, d);
        assert(vscale(n2, d) == Vec3 { x: 0i64, y: (2 * v.y) as i64, z: 0i64 });
    } else {
        assert(n2 == Vec3 { x: 0i64, y: 0i64, z: (2 * n.z) as i64 });
        lemma_double(n2.z as int, d);
        assert(vscale(n2, d) == Vec3 { x: 0i64, y: 0i64, z: (2 * v.z) as i64 });
    }
}

/// Reflecting `v` twice across the same axis-aligned mirror gives back `v`,
/// for vectors whose components stay clear of saturation.
pub proof fn lemma_reflect_twice(v: Vec3<i64>, n: Vec3<i64>)
    requires
        is_axis_unit(n),
        is_moderate(v),
    ensures
        reflect(reflect(v, n), n) == v,
{
    lemma_reflect_axis(v, n);
    lemma_reflect_axis(reflect(v, n), n);
}

impl<T> Vec3<T> {
    pub fn new(x: T, y: T, z: T) -> (r: Vec3<T>)
        ensures
            r.x == x,
            r.y == y,
            r.z == z,
    {
        Vec3 { x, y, z }
    }

    /// Applies `f` to each component.
    pub fn map<U, F: Fn(T) -> U>(self, f: F) -> (r: Vec3<U>)
        requires
            f.requires((self.x,)),
            f.requires((self.y,)),
            f.requires((self.z,)),
        ensures
            f.ensures((self.x,), r.x),
            f.ensures((self.y,), r.y),
            f.ensures((self.z,), r.z),
    {
        let x = f(self.x);
        let y = f(self.y);
        let z = f(self.z);
        Vec3 { x, y, z }
    }
}

impl<T: Copy> Vec3<T> {
    /// The vector with all three components equal to `v`.
    pub fn splat(v: T) -> (r: Vec3<T>)
        ensures
            r.x == v,
            r.y == v,
            r.z == v,
    {
        Vec3 { x: v, y: v, z: v }
    }

    pub fn to_array(&self) -> (r: [T; 3])
        ensures
            r@ == seq![self.x, self.y, self.z],
    {
        [self.x, self.y, self.z]
    }
}

impl Vec3<i64> {
    pub fn add(self, other: Self) -> (r: Self)
        ensures
            r == vadd(self, other),
    {
        Vec3 {
            x: fixed_add(self.x, other.x),
            y: fixed_add(self.y, other.y),
            z: fixed_add(self.z, other.z),
        }
    }

    pub fn sub(self, other: Self) -> (r: Self)
        ensures
            r == vsub(self, other),
    {
        Vec3 {
            x: fixed_sub(self.x, other.x),
            y: fixed_sub(self.y, other.y),
            z: fixed_sub(self.z, other.z),
        }
    }

    pub fn neg(self) -> (r: Self)
        ensures
            r == vneg(self),
    {
        Vec3 { x: fixed_neg(self.x), y: fixed_neg(self.y), z: fixed_neg(self.z) }
    }

    /// The vector scaled by `t`.
    pub fn mul(self, t: i64) -> (r: Self)
        ensures
            r == vscale(self, t as int),
    {
        Vec3 { x: fixed_mul(self.x, t), y: fixed_mul(self.y, t), z: fixed_mul(self.z, t) }
    }

    /// Componentwise product.
    pub fn mul_vec3(&self, other: Self) -> (r: Self)
        ensures
            r == vmul(*self, other),
    {
        Vec3 {
            x: fixed_mul(self.x, other.x),
            y: fixed_mul(self.y, other.y),
            z: fixed_mul(self.z, other.z),
        }
    }

    /// The vector divided by `t`.
    pub fn div(self, t: i64) -> (r: Self)
        requires
            t != 0,
        ensures
            r == vdiv(self, t as int),
    {
        Vec3 { x: fixed_div(self.x, t), y: fixed_div(self.y, t), z: fixed_div(self.z, t) }
    }

    pub fn add_assign(&mut self, other: Self)
        ensures
            *final(self) == vadd(*old(self), other),
    {
        *self = self.add(other);
    }

    pub fn sub_assign(&mut self, other: Self)
        ensures
            *final(self) == vsub(*old(self), other),
    {
        *self = self.sub(other);
    }

    pub fn mul_assign(&mut self, t: i64)
        ensures
            *final(self) == vscale(*old(self), t as int),
    {
        *self = self.mul(t);
    }

    pub fn div_assign(&mut self, t: i64)
        requires
            t != 0,
        ensures
            *final(self) == vdiv(*old(self), t as int),
    {
        *self = self.div(t);
    }

    pub fn dot(&self, other: &Self) -> (r: i64)
        ensures
            r == dot(*self, *other),
    {
        fixed_add(
            fixed_add(fixed_mul(self.x, other.x), fixed_mul(self.y, other.y)),
            fixed_mul(self.z, other.z),
        )
    }

    pub fn cross(&self, other: &Self) -> (r: Self)
        ensures
            r == cross(*self, *other),
    {
        Vec3 {
            x: fixed_sub(fixed_mul(self.y, other.z), fixed_mul(self.z, other.y)),
            y: fixed_sub(fixed_mul(self.z, other.x), fixed_mul(self.x, other.z)),
            z: fixed_sub(fixed_mul(self.x, other.y), fixed_mul(self.y, other.x)),
        }
    }

    pub fn length_squared(&self) -> (r: i64)
        ensures
            r == len_sq(*self),
    {
        self.dot(self)
    }

    pub fn length(&self) -> (r: i64)
        ensures
            r == length(*self),
            r >= 0,
    {
        fixed_sqrt(self.length_squared())
    }

    /// The vector of length one in the same direction; a vector of length zero
    /// has none.
    pub fn unit_vector(&self) -> (r: Self)
        requires
            length(*self) > 0,
        ensures
            r == unit(*self),
    {
        let length = self.length();
        self.div(length)
    }

    /// Whether every component is below `1e-8` in magnitude.
    pub fn near_zero(&self) -> (r: bool)
        ensures
            r == is_near_zero(*self),
    {
        -NEAR_ZERO < self.x && self.x < NEAR_ZERO && -NEAR_ZERO < self.y && self.y < NEAR_ZERO
            && -NEAR_ZERO < self.z && self.z < NEAR_ZERO
    }

    pub fn reflect(&self, n: Self) -> (r: Self)
        ensures
            r == reflect(*self, n),
    {
        self.sub(n.mul(2 * SCALE).mul(self.dot(&n)))
    }

    pub fn refract(&self, n: Self, eta_by_etap: i64) -> (r: Self)
        ensures
            r == refract(*self, n, eta_by_etap as int),
    {
        let cos_theta = fixed_min(self.neg().dot(&n), SCALE);
        let r_out_perp = self.add(n.mul(cos_theta)).mul(eta_by_etap);
        let rest = fixed_sub(SCALE, r_out_perp.length_squared());
        let rest_abs: i64 = if rest >= 0 {
            rest
        } else {
            -rest
        };
        let r_out_parallel = n.mul(fixed_neg(fixed_sqrt(rest_abs)));
        r_out_perp.add(r_out_parallel)
    }
}

} // verus!

verus! {

/// How many points rejection sampling draws before it settles for the centre.
pub const MAX_DRAWS: u32 = 64;

/// `u`, or its negation where `u` does not point to the side of `normal`.
pub open spec fn toward(u: Vec3<i64>, normal: Vec3<i64>) -> Vec3<i64> {
    if dot(u, normal) > 0 {
        u
    } else {
        vneg(u)
    }
}

/// Whether `u` is the direction of a point of the closed unit ball other than
/// the centre.
pub open spec fn is_random_unit(u: Vec3<i64>) -> bool {
    exists|p: Vec3<i64>| length(p) > 0 && len_sq(p) <= SCALE && u == #[trigger] unit(p)
}

/// Square roots of positive scalars are positive.
pub proof fn lemma_length_positive(v: Vec3<i64>)
    ensures
        len_sq(v) > 0 ==> length(v) > 0,
        length(v) >= 0,
{
    lemma_fsqrt_range(len_sq(v));
    if len_sq(v) > 0 {
        let n = len_sq(v) * SCALE;
        lemma_root_exists(n);
        let r = root(n);
        assert(is_root(n, r));
        if r == 0 {
            assert((r + 1) * (r + 1) == 1) by (nonlinear_arith)
                requires
                    r == 0,
            ;
            assert(n < 1);
        }
    }
}

/// The unit vector along the first axis is its own direction.
proof fn lemma_first_axis_unit()
    ensures
        length(Vec3 { x: SCALE, y: 0, z: 0 }) == SCALE,
        len_sq(Vec3 { x: SCALE, y: 0, z: 0 }) == SCALE,
        unit(Vec3 { x: SCALE, y: 0, z: 0 }) == (Vec3 { x: SCALE, y: 0i64, z: 0i64 }),
{
    let s = SCALE as int;
    lemma_quot_multiple(s, 1, s);
    assert(fmul(s, s) == s);
    assert(fmul(0, 0) == 0);
    assert(is_root(s * s, s)) by (nonlinear_arith)
        requires
            s == 1_000_000_000,
    ;
    lemma_root_unique(s * s, s);
    assert(fsqrt(s) == s);
    assert(fdiv(s, s) == s);
    assert(fdiv(0, s) == 0);
}

/// A direction that every sampler of unit vectors may return.
pub proof fn lemma_first_axis_is_random_unit()
    ensures
        is_random_unit(Vec3 { x: SCALE, y: 0, z: 0 }),
{
    lemma_first_axis_unit();
    let p = Vec3 { x: SCALE, y: 0i64, z: 0i64 };
    assert(length(p) > 0 && len_sq(p) <= SCALE && p == unit(p));
}

impl Vec3<i64> {
    /// A vector with each component drawn from `[0, 1)`.
    pub fn rand() -> (r: Vec3<i64>)
        ensures
            0 <= r.x < SCALE,
            0 <= r.y < SCALE,
            0 <= r.z < SCALE,
    {
        Vec3::new(rand_float(), rand_float(), rand_float())
    }

    /// A vector with each component drawn from `[min, max)`.
    pub fn rand_from_range(min: i64, max: i64) -> (r: Vec3<i64>)
        requires
            min < max,
        ensures
            min <= r.x < max,
            min <= r.y < max,
            min <= r.z < max,
    {
        Vec3::new(rand_from_range(min, max), rand_from_range(min, max), rand_from_range(min, max))
    }
}

/// A point of the open unit ball, drawn by rejection from the cube around it.
pub fn rand_in_unit_sphere() -> (r: Vec3<i64>)
    ensures
        len_sq(r) < SCALE,
        -SCALE <= r.x < SCALE,
        -SCALE <= r.y < SCALE,
        -SCALE <= r.z < SCALE,
{
    let mut tries: u32 = 0;
    while tries < MAX_DRAWS
        decreases MAX_DRAWS - tries,
    {
        let p = Vec3::<i64>::rand_from_range(-SCALE, SCALE);
        if p.length_squared() < SCALE {
            return p;
        }
        tries += 1;
    }
    Vec3::new(0, 0, 0)
}

/// A point of the open unit disk in the plane `z = 0`, drawn by rejection.
pub fn rand_in_unit_disk() -> (r: Vec3<i64>)
    ensures
        len_sq(r) < SCALE,
        r.z == 0,
        -SCALE <= r.x < SCALE,
        -SCALE <= r.y < SCALE,
{
    let mut tries: u32 = 0;
    while tries < MAX_DRAWS
        decreases MAX_DRAWS - tries,
    {
        let p = Vec3::new(rand_from_range(-SCALE, SCALE), rand_from_range(-SCALE, SCALE), 0);
        if p.length_squared() < SCALE {
            return p;
        }
        tries += 1;
    }
    Vec3::new(0, 0, 0)
}

/// A random direction: the unit vector of a random point of the unit ball.
pub fn random_unit_vector() -> (r: Vec3<i64>)
    ensures
        is_random_unit(r),
{
    let mut tries: u32 = 0;
    while tries < MAX_DRAWS
        decreases MAX_DRAWS - tries,
    {
        let p = rand_in_unit_sphere();
        if p.length() > 0 {
            let u = p.unit_vector();
            assert(length(p) > 0 && len_sq(p) <= SCALE && u == unit(p));
            return u;
        }
        tries += 1;
    }
    proof {
        lemma_first_axis_is_random_unit();
    }
    Vec3::new(SCALE, 0, 0)
}

/// A random direction on the side of `normal`.
pub fn random_on_hemisphere(normal: &Vec3<i64>) -> (r: Vec3<i64>)
    ensures
        exists|u: Vec3<i64>| is_random_unit(u) && r == #[trigger] toward(u, *normal),
{
    let on_unit_sphere = random_unit_vector();
    let r = if on_unit_sphere.dot(normal) > 0 {
        on_unit_sphere
    } else {
        on_unit_sphere.neg()
    };
    assert(is_random_unit(on_unit_sphere) && r == toward(on_unit_sphere, *normal));
    r
}

} // verus!
