//! What a ray meets: hit records, the hittable protocol and lists of spheres.

use vstd::prelude::*;
use crate::interval::Interval;
use crate::material::Surface;
use crate::ray::Ray;
use crate::fixed::LIMIT;
use crate::vec3::{dot, lemma_dot_negated, vneg, Point, Vec3};

verus! {

/// Where a ray meets a surface, with the surface normal turned against the ray.
#[derive(Debug, Copy, Clone)]
pub struct HitRecord {
    pub point: Point<i64>,
    pub normal: Vec3<i64>,
    pub t: i64,
    pub material: Surface,
    pub front: bool,
}

/// Whether `ray` meets the side of the surface that `outward` points out of.
pub open spec fn faces_front(ray: Ray, outward: Vec3<i64>) -> bool {
    dot(ray.dir, outward) < 0
}

/// The normal `outward`, turned to face against `ray`.
pub open spec fn oriented(ray: Ray, outward: Vec3<i64>) -> Vec3<i64> {
    if faces_front(ray, outward) {
        outward
    } else {
        vneg(outward)
    }
}

/// The record of a hit at `point`, parameter `t`, with outward normal `outward`.
pub open spec fn record_of(
    point: Point<i64>,
    outward: Vec3<i64>,
    t: i64,
    ray: Ray,
    material: Surface,
) -> HitRecord {
    HitRecord {
        point,
        normal: oriented(ray, outward),
        t,
        material,
        front: faces_front(ray, outward),
    }
}

/// The normal of a hit record faces against the ray: its dot product with the
/// ray's direction is never positive. The ray meets the front face exactly when
/// its direction opposes the outward normal, and the normal kept is then the
/// outward one.
pub proof fn lemma_normal_faces_ray(
    point: Point<i64>,
    outward: Vec3<i64>,
    t: i64,
    ray: Ray,
    material: Surface,
)
    requires
        -LIMIT <= outward.x,
        -LIMIT <= outward.y,
        -LIMIT <= outward.z,
    ensures
        dot(ray.dir, record_of(point, outward, t, ray, material).normal) <= 0,
        record_of(point, outward, t, ray, material).front <==> dot(ray.dir, outward) < 0,
        record_of(point, outward, t, ray, material).front ==> record_of(
            point,
            outward,
            t,
            ray,
            material,
        ).normal == outward,
{
    lemma_dot_negated(ray.dir, outward);
}

impl HitRecord {
    /// The record of a hit whose outward normal is `normal`; the normal kept is
    /// the one that faces against `ray`.
    pub fn new(point: Point<i64>, normal: Vec3<i64>, t: i64, ray: &Ray, material: Surface) -> (r:
        HitRecord)
        ensures
            r == record_of(point, normal, t, *ray, material),
    {
        let mut instance = HitRecord { point, normal, t, material, front: false };
        instance.set_front_face(ray, normal);
        instance
    }

    /// Whether the ray met the outer side of the surface.
    pub fn front_face(&self) -> (r: bool)
        ensures
            r == self.front,
    {
        self.front
    }

    /// Sets the side met and the normal from the outward normal.
    pub fn set_front_face(&mut self, ray: &Ray, outward_normal: Vec3<i64>)
        ensures
            final(self).front == faces_front(*ray, outward_normal),
            final(self).normal == oriented(*ray, outward_normal),
            final(self).point == old(self).point,
            final(self).t == old(self).t,
            final(self).material == old(self).material,
    {
        self.front = ray.get_direction().dot(&outward_normal) < 0;
        self.normal = if self.front {
            outward_normal
        } else {
            outward_normal.neg()
        };
    }
}

/// The hit `found`, kept only where its parameter lies below `m`.
pub open spec fn below(found: Option<HitRecord>, m: int) -> Option<HitRecord> {
    match found {
        Some(r) => if r.t < m {
            Some(r)
        } else {
            None
        },
        None => None,
    }
}

/// Anything a ray can meet.
pub trait Hittable {
    /// The nearest hit of `ray` at a parameter strictly inside `ray_t`.
    spec fn hit_spec(&self, ray: Ray, ray_t: Interval) -> Option<HitRecord>;

    fn hit(&self, ray: &Ray, ray_t: Interval) -> (r: Option<HitRecord>)
        ensures
            r == self.hit_spec(*ray, ray_t),
    ;

    /// A hit lies strictly inside the interval it was sought in.
    proof fn lemma_hit_within(&self, ray: Ray, ray_t: Interval)
        ensures
            self.hit_spec(ray, ray_t) matches Some(r) ==> ray_t.min < r.t < ray_t.max,
    ;

    /// Seeking a hit below `m` finds the hit sought over the whole interval
    /// when that hit lies below `m`, and nothing otherwise.
    proof fn lemma_hit_narrowed(&self, ray: Ray, ray_t: Interval, m: i64)
        requires
            m <= ray_t.max,
        ensures
            self.hit_spec(ray, Interval { min: ray_t.min, max: m }) == below(
                self.hit_spec(ray, ray_t),
                m as int,
            ),
    ;
}

/// The result of testing the first `n` members of `objs` in order, each within
/// the interval cut short at the nearest hit found before it.
pub open spec fn hit_prefix<H: Hittable>(objs: Seq<H>, n: int, ray: Ray, ray_t: Interval) -> Option<
    HitRecord,
>
    decreases n,
{
    if n <= 0 {
        None
    } else {
        let prev = hit_prefix(objs, n - 1, ray, ray_t);
        let closest = match prev {
            Some(r) => r.t,
            None => ray_t.max,
        };
        match objs[n - 1].hit_spec(ray, Interval { min: ray_t.min, max: closest }) {
            Some(r) => Some(r),
            None => prev,
        }
    }
}

/// The hit that a list reports.
pub open spec fn hit_all<H: Hittable>(objs: Seq<H>, ray: Ray, ray_t: Interval) -> Option<HitRecord> {
    hit_prefix(objs, objs.len() as int, ray, ray_t)
}

/// What the first `n` members report: no hit exactly when none of them is hit
/// within `ray_t`; else the hit of one of them, at a parameter no greater than
/// that of any of their hits.
pub open spec fn is_nearest_of<H: Hittable>(
    objs: Seq<H>,
    n: int,
    ray: Ray,
    ray_t: Interval,
    found: Option<HitRecord>,
) -> bool {
    &&& found is None <==> forall|k: int|
        0 <= k < n ==> (#[trigger] objs[k].hit_spec(ray, ray_t)) is None
    &&& found matches Some(r) ==> exists|k: int|
        0 <= k < n && #[trigger] objs[k].hit_spec(ray, ray_t) == Some(r)
    &&& found matches Some(r) ==> forall|k: int|
        0 <= k < n && (#[trigger] objs[k].hit_spec(ray, ray_t)) is Some ==> r.t <= objs[k].hit_spec(
            ray,
            ray_t,
        )->0.t
}

proof fn lemma_nearest_prefix<H: Hittable>(objs: Seq<H>, n: int, ray: Ray, ray_t: Interval)
    requires
        0 <= n <= objs.len(),
    ensures
        is_nearest_of(objs, n, ray, ray_t, hit_prefix(objs, n, ray, ray_t)),
        hit_prefix(objs, n, ray, ray_t) matches Some(r) ==> ray_t.min < r.t < ray_t.max,
    decreases n,
{
    if n > 0 {
        lemma_nearest_prefix(objs, n - 1, ray, ray_t);
        let prev = hit_prefix(objs, n - 1, ray, ray_t);
        let closest = match prev {
            Some(r) => r.t,
            None => ray_t.max,
        };
        objs[n - 1].lemma_hit_narrowed(ray, ray_t, closest);
        objs[n - 1].lemma_hit_within(ray, ray_t);
        let cur = objs[n - 1].hit_spec(ray, ray_t);
        if let Some(r) = hit_prefix(objs, n, ray, ray_t) {
            if cur == Some(r) {
                assert(objs[n - 1].hit_spec(ray, ray_t) == Some(r));
            }
        }
    }
}

proof fn lemma_prefix_narrowed<H: Hittable>(
    objs: Seq<H>,
    n: int,
    ray: Ray,
    ray_t: Interval,
    m: i64,
)
    requires
        0 <= n <= objs.len(),
        m <= ray_t.max,
    ensures
        hit_prefix(objs, n, ray, Interval { min: ray_t.min, max: m }) == below(
            hit_prefix(objs, n, ray, ray_t),
            m as int,
        ),
    decreases n,
{
    if n > 0 {
        let narrow = Interval { min: ray_t.min, max: m };
        lemma_prefix_narrowed(objs, n - 1, ray, ray_t, m);
        lemma_nearest_prefix(objs, n - 1, ray, ray_t);
        let prev = hit_prefix(objs, n - 1, ray, ray_t);
        let closest = match prev {
            Some(r) => r.t,
            None => ray_t.max,
        };
        let wide_cut = Interval { min: ray_t.min, max: closest };
        objs[n - 1].lemma_hit_narrowed(ray, ray_t, closest);
        if closest >= m {
            objs[n - 1].lemma_hit_narrowed(ray, wide_cut, m);
            objs[n - 1].lemma_hit_within(ray, wide_cut);
        } else {
            objs[n - 1].lemma_hit_within(ray, wide_cut);
        }
    }
}

/// A list reports the nearest hit: none exactly when no member is hit within
/// `ray_t`, and otherwise a member's own hit whose parameter is no greater than
/// that of any member's hit, whatever the order of the members.
pub proof fn lemma_nearest_hit<H: Hittable>(objs: Seq<H>, ray: Ray, ray_t: Interval)
    ensures
        is_nearest_of(objs, objs.len() as int, ray, ray_t, hit_all(objs, ray, ray_t)),
{
    lemma_nearest_prefix(objs, objs.len() as int, ray, ray_t);
}

/// A list with no members, as `clear` leaves it, reports no hit for any ray.
pub proof fn lemma_cleared_list_hits_nothing<H: Hittable>(
    list: HittableList<H>,
    ray: Ray,
    ray_t: Interval,
)
    requires
        list@ == Seq::<H>::empty(),
    ensures
        list.hit_spec(ray, ray_t) is None,
{
}

/// An ordered collection of hittable objects.
pub struct HittableList<H> {
    objects: Vec<H>,
}

impl<H> View for HittableList<H> {
    type V = Seq<H>;

    closed spec fn view(&self) -> Seq<H> {
        self.objects@
    }
}

impl<H: Hittable> HittableList<H> {
    pub fn new() -> (r: HittableList<H>)
        ensures
            r@ == Seq::<H>::empty(),
    {
        HittableList { objects: Vec::new() }
    }

    pub fn add(&mut self, obj: H)
        ensures
            final(self)@ == old(self)@.push(obj),
    {
        self.objects.push(obj);
    }

    pub fn clear(&mut self)
        ensures
            final(self)@ == Seq::<H>::empty(),
            forall|ray: Ray, ray_t: Interval| (#[trigger] final(self).hit_spec(ray, ray_t)) is None,
    {
        self.objects.clear();
    }

    pub fn len(&self) -> (r: usize)
        ensures
            r == self@.len(),
    {
        self.objects.len()
    }
}

impl<H: Hittable> Default for HittableList<H> {
    fn default() -> (r: HittableList<H>)
        ensures
            r@ == Seq::<H>::empty(),
    {
        HittableList::new()
    }
}

impl<H: Hittable> Hittable for HittableList<H> {
    open spec fn hit_spec(&self, ray: Ray, ray_t: Interval) -> Option<HitRecord> {
        hit_all(self@, ray, ray_t)
    }

    /// The nearest hit among the members, whatever their order.
    fn hit(&self, ray: &Ray, ray_t: Interval) -> (r: Option<HitRecord>)
        ensures
            is_nearest_of(self@, self@.len() as int, *ray, ray_t, r),
    {
        proof {
            lemma_nearest_hit(self@, *ray, ray_t);
        }
        let mut record: Option<HitRecord> = None;
        let mut closest: i64 = ray_t.max;
        let mut i: usize = 0;
        while i < self.objects.len()
            invariant
                i <= self.objects@.len(),
                record == hit_prefix(self@, i as int, *ray, ray_t),
                closest == match record {
                    Some(r) => r.t,
                    None => ray_t.max,
                },
            decreases self.objects@.len() - i,
        {
            let interval = Interval::new(ray_t.min, closest);
            match self.objects[i].hit(ray, interval) {
                Some(r) => {
                    closest = r.t;
                    record = Some(r);
                },
                None => {},
            }
            i += 1;
        }
        record
    }

    proof fn lemma_hit_within(&self, ray: Ray, ray_t: Interval) {
        lemma_nearest_prefix(self@, self@.len() as int, ray, ray_t);
    }

    proof fn lemma_hit_narrowed(&self, ray: Ray, ray_t: Interval, m: i64) {
        lemma_prefix_narrowed(self@, self@.len() as int, ray, ray_t, m);
    }
}

} // verus!
