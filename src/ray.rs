//! Half-lines from an origin along a direction.

use vstd::prelude::*;
use crate::vec3::{vadd, vscale, Point, Vec3};

verus! {

/// The points `origin + direction·t`.
#[derive(Debug, Copy, Clone)]
pub struct Ray {
    pub origin: Point<i64>,
    pub dir: Vec3<i64>,
}

impl Ray {
    /// The point at parameter `t`.
    pub open spec fn point_at(self, t: int) -> Point<i64> {
        vadd(self.origin, vscale(self.dir, t))
    }

    pub fn new(origin: Point<i64>, dir: Vec3<i64>) -> (r: Ray)
        ensures
            r == (Ray { origin, dir }),
    {
        Ray { origin, dir }
    }

    pub fn get_origin(&self) -> (r: &Point<i64>)
        ensures
            *r == self.origin,
    {
        &self.origin
    }

    pub fn get_direction(&self) -> (r: &Vec3<i64>)
        ensures
            *r == self.dir,
    {
        &self.dir
    }

    pub fn at(&self, t: i64) -> (r: Point<i64>)
        ensures
            r == self.point_at(t as int),
    {
        self.origin.add(self.dir.mul(t))
    }
}

} // verus!
