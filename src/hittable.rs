//! What a ray can hit, and the record of a hit.
use core::ops::Neg;
use std::rc::Rc;
use vstd::prelude::*;
use crate::color::Color;
use crate::fixed::Fixed;
use crate::interval::Interval;
use crate::material::{Lambertian, Material};
use crate::ray::Ray;
use crate::vec::{dot, dot_of, Point3, Vec3};

verus! {

/// Where a ray meets a surface.
#[derive(Clone, Debug)]
pub struct HitRecord {
    pub p: Point3,
    /// Points against the incoming ray.
    pub normal: Vec3,
    pub mat: Rc<Material>,
    pub t: Fixed,
    /// Whether the ray came from the outside of the surface.
    pub front_facing: bool,
}

/// Whether the ray `r` meets the outward normal `outward` from outside.
pub open spec fn is_front_face(r: Ray, outward: Vec3) -> bool {
    dot_of(r.dir, outward)@ < 0
}

/// The outward normal turned to point against the ray `r`.
pub open spec fn face_normal(r: Ray, outward: Vec3) -> Vec3 {
    if is_front_face(r, outward) {
        outward
    } else {
        outward.negated()
    }
}

/// Whether `rec` is a hit that `ray_t` admits and whose normal points against
/// the ray `r`.
pub open spec fn is_valid_hit(rec: HitRecord, r: Ray, ray_t: Interval) -> bool {
    ray_t.surrounds_spec(rec.t) && dot_of(r.dir, rec.normal)@ <= 0
}

impl HitRecord {
    /// The record with `front_facing` and `normal` set from the outward normal.
    pub open spec fn with_face(self, r: Ray, outward: Vec3) -> HitRecord {
        HitRecord { front_facing: is_front_face(r, outward), normal: face_normal(r, outward), ..self }
    }

    /// Sets `front_facing` from the side the ray comes from, and turns the
    /// outward normal to point against the ray.
    pub fn set_face_normal(&mut self, ray: &Ray, outward_normal: Vec3)
        ensures
            *final(self) == old(self).with_face(*ray, outward_normal),
    {
        self.front_facing = dot(ray.dir, outward_normal) < Fixed::zero();
        self.normal = if self.front_facing {
            outward_normal
        } else {
            outward_normal.neg()
        };
    }
}

impl Default for HitRecord {
    fn default() -> (r: HitRecord)
        ensures
            r.p == Vec3::zero_spec(),
            r.normal == Vec3::zero_spec(),
            r.t@ == 0,
            !r.front_facing,
    {
        HitRecord {
            p: Vec3::default(),
            normal: Vec3::default(),
            mat: Rc::new(Material::Lambertian(Lambertian::new(Color::default()))),
            t: Fixed::zero(),
            front_facing: false,
        }
    }
}

/// Something a ray can hit.
pub trait Hittable {
    /// The hit of `r` with a parameter inside `ray_t`, if any.
    spec fn hit_spec(&self, r: Ray, ray_t: Interval) -> Option<HitRecord>;

    /// Tests `r` for a hit with a parameter strictly inside `ray_t`; on a hit
    /// fills `rec`, else leaves it as it was.
    fn hit(&self, r: &Ray, ray_t: Interval, rec: &mut HitRecord) -> (b: bool)
        ensures
            b == self.hit_spec(*r, ray_t).is_some(),
            b ==> *final(rec) == self.hit_spec(*r, ray_t).unwrap(),
            !b ==> *final(rec) == *old(rec),
            b ==> is_valid_hit(*final(rec), *r, ray_t),
    ;

    /// Lowering the upper end of the interval from `max` to `max2` keeps a
    /// hit below `max2` and loses any other; a hit lies strictly inside its
    /// interval.
    proof fn lemma_hit_narrows(&self, r: Ray, min: Fixed, max: Fixed, max2: Fixed)
        requires
            max2@ <= max@,
        ensures
            ({
                let wide = self.hit_spec(r, Interval { min, max });
                let narrow = self.hit_spec(r, Interval { min, max: max2 });
                &&& wide is None ==> narrow is None
                &&& wide is Some && wide.unwrap().t@ < max2@ ==> narrow == wide
                &&& wide is Some && wide.unwrap().t@ >= max2@ ==> narrow is None
                &&& wide is Some ==> min@ < wide.unwrap().t@ < max@
            }),
    ;
}

/// The scene: the closest hit among its members.
pub struct HittableList<H> {
    objects: Vec<H>,
}

/// The closest hit of `r` among the first `n` of `objects` inside
/// `[min, max]`: each member is tested up to the closest hit so far.
pub open spec fn closest_hit<H: Hittable>(
    objects: Seq<H>,
    r: Ray,
    min: Fixed,
    max: Fixed,
    n: nat,
) -> Option<HitRecord>
    decreases n,
{
    if n == 0 {
        None
    } else {
        let prev = closest_hit(objects, r, min, max, (n - 1) as nat);
        let upper = match prev {
            Some(rec) => rec.t,
            None => max,
        };
        match objects[n - 1].hit_spec(r, Interval { min, max: upper }) {
            Some(rec) => Some(rec),
            None => prev,
        }
    }
}

/// Lowering the upper end of the interval of a scan from `max` to `max2`
/// keeps a closest hit below `max2` and loses any other.
proof fn lemma_closest_narrows<H: Hittable>(
    objects: Seq<H>,
    r: Ray,
    min: Fixed,
    max: Fixed,
    max2: Fixed,
    n: nat,
)
    requires
        max2@ <= max@,
        n <= objects.len(),
    ensures
        ({
            let wide = closest_hit(objects, r, min, max, n);
            let narrow = closest_hit(objects, r, min, max2, n);
            &&& wide is None ==> narrow is None
            &&& wide is Some && wide.unwrap().t@ < max2@ ==> narrow == wide
            &&& wide is Some && wide.unwrap().t@ >= max2@ ==> narrow is None
            &&& wide is Some ==> min@ < wide.unwrap().t@ < max@
        }),
    decreases n,
{
    if n > 0 {
        let k = (n - 1) as nat;
        lemma_closest_narrows(objects, r, min, max, max2, k);
        let e = objects[n - 1];
        let prev_wide = closest_hit(objects, r, min, max, k);
        let prev_narrow = closest_hit(objects, r, min, max2, k);
        match prev_wide {
            None => {
                e.lemma_hit_narrows(r, min, max, max2);
            },
            Some(p) => {
                e.lemma_hit_narrows(r, min, p.t, p.t);
                if p.t@ >= max2@ {
                    e.lemma_hit_narrows(r, min, p.t, max2);
                }
            },
        }
    }
}

/// What the closest hit of a scan is: a hit that one of the members has in
/// the whole interval, with no member hitting strictly nearer; or, where
/// the scan finds none, no member hits at all.
pub proof fn lemma_closest_is_nearest<H: Hittable>(
    objects: Seq<H>,
    r: Ray,
    min: Fixed,
    max: Fixed,
    n: nat,
)
    requires
        n <= objects.len(),
    ensures
        closest_hit(objects, r, min, max, n) is None ==> forall|k: int|
            0 <= k < n ==> (#[trigger] objects[k]).hit_spec(r, Interval { min, max }) is None,
        closest_hit(objects, r, min, max, n) is Some ==> {
            let rec = closest_hit(objects, r, min, max, n).unwrap();
            &&& exists|k: int|
                0 <= k < n && (#[trigger] objects[k]).hit_spec(r, Interval { min, max }) == Some(rec)
            &&& forall|k: int|
                0 <= k < n ==> (#[trigger] objects[k]).hit_spec(r, Interval { min, max: rec.t }) is None
        },
    decreases n,
{
    if n > 0 {
        let k = (n - 1) as nat;
        lemma_closest_is_nearest(objects, r, min, max, k);
        lemma_closest_narrows(objects, r, min, max, max, k);
        let e = objects[n - 1];
        let prev = closest_hit(objects, r, min, max, k);
        match prev {
            None => {
                e.lemma_hit_narrows(r, min, max, max);
                match e.hit_spec(r, Interval { min, max }) {
                    None => {},
                    Some(q) => {
                        e.lemma_hit_narrows(r, min, max, q.t);
                        assert forall|i: int| 0 <= i < n implies (#[trigger] objects[i]).hit_spec(
                            r,
                            Interval { min, max: q.t },
                        ) is None by {
                            if i < k {
                                objects[i].lemma_hit_narrows(r, min, max, q.t);
                            }
                        }
                        assert(objects[n - 1].hit_spec(r, Interval { min, max }) == Some(q));
                    },
                }
            },
            Some(p) => {
                let pk = choose|i: int|
                    0 <= i < k && (#[trigger] objects[i]).hit_spec(r, Interval { min, max }) == Some(p);
                e.lemma_hit_narrows(r, min, max, p.t);
                match e.hit_spec(r, Interval { min, max: p.t }) {
                    None => {
                        assert(objects[pk].hit_spec(r, Interval { min, max }) == Some(p));
                    },
                    Some(q) => {
                        e.lemma_hit_narrows(r, min, p.t, q.t);
                        assert forall|i: int| 0 <= i < n implies (#[trigger] objects[i]).hit_spec(
                            r,
                            Interval { min, max: q.t },
                        ) is None by {
                            if i < k {
                                objects[i].lemma_hit_narrows(r, min, p.t, q.t);
                            }
                        }
                        assert(objects[n - 1].hit_spec(r, Interval { min, max }) == Some(q));
                    },
                }
            },
        }
    }
}

impl<H: Hittable> HittableList<H> {
    pub closed spec fn objects_spec(&self) -> Seq<H> {
        self.objects@
    }

    pub fn new() -> (r: HittableList<H>)
        ensures
            r.objects_spec() == Seq::<H>::empty(),
    {
        HittableList { objects: Vec::new() }
    }

    /// Removes every member.
    pub fn clear(&mut self)
        ensures
            final(self).objects_spec() == Seq::<H>::empty(),
    {
        self.objects.clear();
    }

    /// Appends a member.
    pub fn add(&mut self, object: H)
        ensures
            final(self).objects_spec() == old(self).objects_spec().push(object),
    {
        self.objects.push(object);
    }

    pub fn len(&self) -> (r: usize)
        ensures
            r == self.objects_spec().len(),
    {
        self.objects.len()
    }
}

impl<H: Hittable> Default for HittableList<H> {
    fn default() -> (r: HittableList<H>)
        ensures
            r.objects_spec() == Seq::<H>::empty(),
    {
        HittableList::new()
    }
}

impl<H: Hittable> Hittable for HittableList<H> {
    open spec fn hit_spec(&self, r: Ray, ray_t: Interval) -> Option<HitRecord> {
        closest_hit(self.objects_spec(), r, ray_t.min, ray_t.max, self.objects_spec().len())
    }

    fn hit(&self, r: &Ray, ray_t: Interval, rec: &mut HitRecord) -> (b: bool) {
        let mut has_hit = false;
        let mut closest = ray_t.max;
        let mut i: usize = 0;
        while i < self.objects.len()
            invariant
                i <= self.objects@.len(),
                has_hit == closest_hit(self.objects@, *r, ray_t.min, ray_t.max, i as nat).is_some(),
                has_hit ==> *rec == closest_hit(
                    self.objects@,
                    *r,
                    ray_t.min,
                    ray_t.max,
                    i as nat,
                ).unwrap(),
                !has_hit ==> *rec == *old(rec),
                closest == (if has_hit {
                    rec.t
                } else {
                    ray_t.max
                }),
                has_hit ==> is_valid_hit(*rec, *r, ray_t),
            decreases self.objects@.len() - i,
        {
            if self.objects[i].hit(r, Interval::new(ray_t.min, closest), rec) {
                has_hit = true;
                closest = rec.t;
            }
            i = i + 1;
        }
        has_hit
    }

    proof fn lemma_hit_narrows(&self, r: Ray, min: Fixed, max: Fixed, max2: Fixed) {
        lemma_closest_narrows(self.objects_spec(), r, min, max, max2, self.objects_spec().len());
    }
}

} // verus!
