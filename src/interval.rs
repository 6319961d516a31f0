//! Closed ranges of scalars.
use vstd::prelude::*;
use crate::fixed::{Fixed, LIMIT};

verus! {

#[derive(Clone, Copy, Debug, PartialEq, Eq, Structural)]
pub struct Interval {
    pub min: Fixed,
    pub max: Fixed,
}

impl Interval {
    pub open spec fn contains_spec(self, x: Fixed) -> bool {
        self.min@ <= x@ <= self.max@
    }

    pub open spec fn surrounds_spec(self, x: Fixed) -> bool {
        self.min@ < x@ < self.max@
    }

    pub open spec fn clamp_spec(self, x: Fixed) -> Fixed {
        if x@ < self.min@ {
            self.min
        } else if x@ > self.max@ {
            self.max
        } else {
            x
        }
    }

    pub fn new(min: Fixed, max: Fixed) -> (r: Interval)
        ensures
            r == (Interval { min, max }),
    {
        Interval { min, max }
    }

    pub fn size(&self) -> (r: Fixed)
        ensures
            r == self.max.minus(self.min),
    {
        self.max - self.min
    }

    /// `min <= x <= max`.
    pub fn contains(&self, x: Fixed) -> (r: bool)
        ensures
            r == self.contains_spec(x),
    {
        self.min <= x && x <= self.max
    }

    /// `min < x < max`.
    pub fn surrounds(&self, x: Fixed) -> (r: bool)
        ensures
            r == self.surrounds_spec(x),
    {
        self.min < x && x < self.max
    }

    /// `x` moved into the range: `min` below it, `max` above it.
    pub fn clamp(&self, x: Fixed) -> (r: Fixed)
        ensures
            r == self.clamp_spec(x),
    {
        if x < self.min {
            self.min
        } else if x > self.max {
            self.max
        } else {
            x
        }
    }

    /// The interval that holds nothing: from `+inf` down to `-inf`.
    pub fn empty() -> (r: Interval)
        ensures
            r.min@ == LIMIT && r.max@ == -LIMIT,
    {
        Interval { min: Fixed::infinity(), max: Fixed::neg_infinity() }
    }

    /// The interval that holds everything: from `-inf` up to `+inf`.
    pub fn universe() -> (r: Interval)
        ensures
            r.min@ == -LIMIT && r.max@ == LIMIT,
    {
        Interval { min: Fixed::neg_infinity(), max: Fixed::infinity() }
    }
}

impl Default for Interval {
    fn default() -> (r: Interval)
        ensures
            r.min@ == LIMIT && r.max@ == -LIMIT,
    {
        Interval::empty()
    }
}

/// A well-formed interval contains both its ends and surrounds neither;
/// clamping moves a value outside it to the nearer end and keeps a value
/// inside it.
pub proof fn lemma_interval_ends(i: Interval, x: Fixed)
    requires
        i.min@ <= i.max@,
    ensures
        i.contains_spec(i.min),
        i.contains_spec(i.max),
        !i.surrounds_spec(i.min),
        !i.surrounds_spec(i.max),
        x@ < i.min@ ==> i.clamp_spec(x) == i.min,
        x@ > i.max@ ==> i.clamp_spec(x) == i.max,
        i.contains_spec(x) ==> i.clamp_spec(x) == x,
        i.contains_spec(i.clamp_spec(x)),
{
}

} // verus!
