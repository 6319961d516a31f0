//! Rays: an origin and a direction.
use vstd::prelude::*;
use crate::fixed::{lemma_div_trunc_exact, Fixed, SCALE};
use crate::vec::{vec3, Point3, Vec3};

verus! {

#[derive(Clone, Copy, Debug, PartialEq, Eq, Structural)]
pub struct Ray {
    pub origin: Point3,
    pub dir: Vec3,
}

impl Ray {
    /// The point `origin + t * direction`.
    pub open spec fn at_spec(self, t: Fixed) -> Point3 {
        self.origin.plus(self.dir.mul_scalar(t))
    }

    pub fn new(origin: Point3, direction: Vec3) -> (r: Ray)
        ensures
            r == (Ray { origin, dir: direction }),
    {
        Ray { origin, dir: direction }
    }

    pub fn origin(&self) -> (r: Point3)
        ensures
            r == self.origin,
    {
        self.origin
    }

    pub fn direction(&self) -> (r: Vec3)
        ensures
            r == self.dir,
    {
        self.dir
    }

    pub fn at(&self, t: Fixed) -> (r: Point3)
        ensures
            r == self.at_spec(t),
    {
        self.origin + self.dir * t
    }
}

impl Default for Ray {
    fn default() -> (r: Ray)
        ensures
            r == (Ray { origin: Vec3::zero_spec(), dir: Vec3::zero_spec() }),
    {
        Ray { origin: Vec3::default(), dir: Vec3::default() }
    }
}

/// Every component of `v` lies in the range that arithmetic produces.
pub open spec fn vec_in_range(v: Vec3) -> bool {
    v.x.in_range() && v.y.in_range() && v.z.in_range()
}

/// A ray is at its origin at `t = 0`, and at `origin + direction` at `t = 1`.
pub proof fn lemma_ray_at_endpoints(r: Ray)
    requires
        vec_in_range(r.origin),
        vec_in_range(r.dir),
    ensures
        r.at_spec(Fixed::sat(0)) == r.origin,
        r.at_spec(Fixed::sat(SCALE as int)) == r.origin.plus(r.dir),
{
    let d = r.dir;
    lemma_div_trunc_exact(0, SCALE as int);
    assert(d.x@ * 0 == 0 && d.y@ * 0 == 0 && d.z@ * 0 == 0);
    lemma_div_trunc_exact(d.x@, SCALE as int);
    lemma_div_trunc_exact(d.y@, SCALE as int);
    lemma_div_trunc_exact(d.z@, SCALE as int);
    assert(d.mul_scalar(Fixed::sat(SCALE as int)) == d);
    assert(d.mul_scalar(Fixed::sat(0)) == vec3(Fixed::sat(0), Fixed::sat(0), Fixed::sat(0)));
}

} // verus!
