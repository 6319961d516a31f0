//! Spheres.
use std::rc::Rc;
use vstd::prelude::*;
use crate::fixed::{lemma_floor_sqrt_exists, lemma_over_monotone, Fixed, SCALE};
use crate::hittable::{face_normal, is_front_face, HitRecord, Hittable};
use crate::interval::Interval;
use crate::material::Material;
use crate::ray::Ray;
use crate::vec::{dot, dot_of, lemma_dot_negated, lemma_length_squared_nonneg, Point3, Vec3};

verus! {

#[derive(Clone, Debug)]
pub struct Sphere {
    center: Point3,
    radius: Fixed,
    mat: Rc<Material>,
}

impl Sphere {
    pub closed spec fn center_spec(&self) -> Point3 {
        self.center
    }

    pub closed spec fn radius_spec(&self) -> Fixed {
        self.radius
    }

    pub closed spec fn mat_spec(&self) -> Material {
        *self.mat
    }

    /// `h^2 - a*c` with `a = |d|^2`, `h = d . (center - origin)` and
    /// `c = |center - origin|^2 - radius^2`, for the ray's direction `d`.
    pub open spec fn discriminant_spec(&self, r: Ray) -> Fixed {
        let oc = self.center_spec().minus(r.origin);
        let a = r.dir.length_squared_spec();
        let h = dot_of(r.dir, oc);
        let c = oc.length_squared_spec().minus(self.radius_spec().times(self.radius_spec()));
        h.times(h).minus(a.times(c))
    }

    /// The two roots `(h - sqrt(d)) / a` and `(h + sqrt(d)) / a` of the ray's
    /// quadratic, for the discriminant `d`.
    pub open spec fn roots(&self, r: Ray) -> (Fixed, Fixed) {
        let oc = self.center_spec().minus(r.origin);
        let a = r.dir.length_squared_spec();
        let h = dot_of(r.dir, oc);
        let sqrtd = self.discriminant_spec(r).root();
        (h.minus(sqrtd).over(a), h.plus(sqrtd).over(a))
    }

    /// The nearer root of the ray's quadratic that `ray_t` surrounds, else
    /// the farther one if it does, else none.
    pub open spec fn root_in(&self, r: Ray, ray_t: Interval) -> Option<Fixed> {
        let discr = self.discriminant_spec(r);
        let (near, far) = self.roots(r);
        if discr@ < 0 {
            None
        } else if ray_t.surrounds_spec(near) {
            Some(near)
        } else if ray_t.surrounds_spec(far) {
            Some(far)
        } else {
            None
        }
    }

    /// The normal at a point of the surface, pointing outward.
    pub open spec fn outward_normal(&self, p: Point3) -> Vec3 {
        p.minus(self.center_spec()).div_scalar(self.radius_spec())
    }

    /// A sphere; a negative radius counts as zero.
    pub fn new(center: Point3, radius: Fixed, mat: Rc<Material>) -> (r: Sphere)
        ensures
            r.center_spec() == center,
            r.radius_spec() == (if radius@ < 0 {
                Fixed::sat(0)
            } else {
                radius
            }),
            r.mat_spec() == *mat,
    {
        let radius = if radius < Fixed::zero() {
            Fixed::zero()
        } else {
            radius
        };
        Sphere { center, radius, mat }
    }

    pub fn center(&self) -> (r: Point3)
        ensures
            r == self.center_spec(),
    {
        self.center
    }

    pub fn radius(&self) -> (r: Fixed)
        ensures
            r == self.radius_spec(),
    {
        self.radius
    }

    pub fn discriminant(&self, r: &Ray) -> (d: Fixed)
        ensures
            d == self.discriminant_spec(*r),
    {
        let oc = self.center - r.origin();
        let a = r.direction().length_squared();
        let h = dot(r.direction(), oc);
        let c = oc.length_squared() - self.radius * self.radius;
        h * h - a * c
    }
}

/// A ray that grazes the sphere, with a zero discriminant, has a single
/// root.
pub proof fn lemma_tangent_single_root(s: Sphere, r: Ray)
    requires
        s.discriminant_spec(r)@ == 0,
    ensures
        s.roots(r).0 == s.roots(r).1,
{
}

impl Hittable for Sphere {
    /// A sphere of radius zero has no surface and is never hit.
    open spec fn hit_spec(&self, r: Ray, ray_t: Interval) -> Option<HitRecord> {
        if self.radius_spec()@ == 0 {
            None
        } else {
            match self.root_in(r, ray_t) {
                None => None,
                Some(t) => {
                    let p = r.at_spec(t);
                    let outward = self.outward_normal(p);
                    Some(
                        HitRecord {
                            p,
                            normal: face_normal(r, outward),
                            mat: Rc::new(self.mat_spec()),
                            t,
                            front_facing: is_front_face(r, outward),
                        },
                    )
                },
            }
        }
    }

    fn hit(&self, r: &Ray, ray_t: Interval, rec: &mut HitRecord) -> (b: bool) {
        if self.radius == Fixed::zero() {
            return false;
        }
        let oc = self.center - r.origin();
        let a = r.direction().length_squared();
        let h = dot(r.direction(), oc);
        let discr = self.discriminant(r);
        if discr < Fixed::zero() {
            return false;
        }
        let sqrtd = discr.sqrt();
        let mut root = (h - sqrtd) / a;
        if !ray_t.surrounds(root) {
            root = (h + sqrtd) / a;
            if !ray_t.surrounds(root) {
                return false;
            }
        }
        rec.t = root;
        rec.p = r.at(rec.t);
        let outward_normal = (rec.p - self.center) / self.radius;
        rec.set_face_normal(r, outward_normal);
        rec.mat = self.mat.clone();
        proof {
            lemma_dot_negated(r.dir, outward_normal);
        }
        true
    }

    proof fn lemma_hit_narrows(&self, r: Ray, min: Fixed, max: Fixed, max2: Fixed) {
        let oc = self.center_spec().minus(r.origin);
        let a = r.dir.length_squared_spec();
        let h = dot_of(r.dir, oc);
        let discr = self.discriminant_spec(r);
        let sqrtd = discr.root();
        if discr@ > 0 {
            lemma_floor_sqrt_exists(discr@ * SCALE);
        }
        lemma_length_squared_nonneg(r.dir);
        lemma_over_monotone(h.minus(sqrtd), h.plus(sqrtd), a);
    }
}

} // verus!
