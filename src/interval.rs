//! Ranges of scalars that bound the accepted ray parameters.

use vstd::prelude::*;
use crate::fixed::{fixed_sub, fsub};

verus! {

/// The scalars from `min` to `max`.
#[derive(Debug, Copy, Clone)]
pub struct Interval {
    pub min: i64,
    pub max: i64,
}

impl Interval {
    pub open spec fn holds(self, x: int) -> bool {
        self.min <= x <= self.max
    }

    pub open spec fn strictly_holds(self, x: int) -> bool {
        self.min < x < self.max
    }

    /// `x` brought into the interval; meaningful where `min <= max`.
    pub open spec fn clamped(self, x: int) -> int {
        if x < self.min {
            self.min as int
        } else if x > self.max {
            self.max as int
        } else {
            x
        }
    }

    pub fn new(min: i64, max: i64) -> (r: Interval)
        ensures
            r == (Interval { min, max }),
    {
        Interval { min, max }
    }

    /// The interval that holds no scalar.
    pub fn empty() -> (r: Interval)
        ensures
            r == (Interval { min: i64::MAX, max: i64::MIN }),
            forall|x: i64| !r.holds(x as int),
    {
        Interval { min: i64::MAX, max: i64::MIN }
    }

    /// The interval that holds every scalar.
    pub fn universe() -> (r: Interval)
        ensures
            r == (Interval { min: i64::MIN, max: i64::MAX }),
            forall|x: i64| r.holds(x as int),
    {
        Interval { min: i64::MIN, max: i64::MAX }
    }

    pub fn size(&self) -> (r: i64)
        ensures
            r == fsub(self.max as int, self.min as int),
    {
        fixed_sub(self.max, self.min)
    }

    /// Whether `x` lies in the interval, ends included.
    pub fn contains(&self, x: i64) -> (r: bool)
        ensures
            r == self.holds(x as int),
    {
        self.min <= x && x <= self.max
    }

    /// Whether `x` lies strictly inside the interval.
    pub fn surrounds(&self, x: i64) -> (r: bool)
        ensures
            r == self.strictly_holds(x as int),
    {
        self.min < x && x < self.max
    }

    /// The point of the interval nearest to `x`.
    pub fn clamp(&self, x: i64) -> (r: i64)
        requires
            self.min <= self.max,
        ensures
            r == self.clamped(x as int),
            self.holds(r as int),
    {
        if x < self.min {
            self.min
        } else if x > self.max {
            self.max
        } else {
            x
        }
    }
}

} // verus!
