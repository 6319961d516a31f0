//! Surface materials and how they scatter light.
use vstd::prelude::*;
use crate::color::Color;
use crate::hittable::HitRecord;
use crate::ray::Ray;
use crate::vec::{lemma_sphere_sample_exists, reflect_of, Vec3};

verus! {

/// A diffuse surface.
#[derive(Clone, Copy, Debug, PartialEq, Eq, Structural)]
pub struct Lambertian {
    pub albedo: Color,
}

/// A mirror surface.
#[derive(Clone, Copy, Debug, PartialEq, Eq, Structural)]
pub struct Metal {
    pub albedo: Color,
}

/// The materials a surface can have.
#[derive(Clone, Copy, Debug, PartialEq, Eq, Structural)]
pub enum Material {
    Lambertian(Lambertian),
    Metal(Metal),
}

/// The diffuse bounce direction: the normal plus a unit sample, or the
/// normal alone where that sum nearly cancels out.
pub open spec fn diffuse_direction(normal: Vec3, unit: Vec3) -> Vec3 {
    let d = normal.plus(unit);
    if d.near_zero_spec() {
        normal
    } else {
        d
    }
}

impl Lambertian {
    /// What a diffuse bounce produces: the albedo, and a ray from the hit
    /// point along `diffuse_direction`.
    pub open spec fn scatter_spec(self, rec: HitRecord, unit: Vec3) -> (Color, Ray) {
        (self.albedo, Ray { origin: rec.p, dir: diffuse_direction(rec.normal, unit) })
    }

    pub fn new(albedo: Color) -> (r: Lambertian)
        ensures
            r.albedo == albedo,
    {
        Lambertian { albedo }
    }

    /// Scatters with the unit sample `unit`; never absorbs.
    pub fn scatter_with(
        &self,
        r_in: &Ray,
        rec: &HitRecord,
        unit: Vec3,
        attenuation: &mut Color,
        scattered: &mut Ray,
    ) -> (r: bool)
        ensures
            r,
            (*final(attenuation), *final(scattered)) == self.scatter_spec(*rec, unit),
    {
        let sum = rec.normal + unit;
        let dir = if sum.near_zero() {
            rec.normal
        } else {
            sum
        };
        *scattered = Ray::new(rec.p, dir);
        *attenuation = self.albedo;
        true
    }

    /// Scatters in a random direction: the normal plus a random point on the
    /// unit sphere. Never absorbs.
    pub fn scatter(
        &self,
        r_in: &Ray,
        rec: &HitRecord,
        attenuation: &mut Color,
        scattered: &mut Ray,
    ) -> (r: bool)
        ensures
            r,
            exists|u: Vec3|
                Vec3::is_sphere_sample(u) && (*final(attenuation), *final(scattered))
                    == self.scatter_spec(*rec, u),
    {
        let u = Vec3::random_normal();
        self.scatter_with(r_in, rec, u, attenuation, scattered)
    }
}

impl Metal {
    /// What a mirror bounce produces: the albedo, and the incoming direction
    /// reflected about the normal.
    pub open spec fn scatter_spec(self, r_in: Ray, rec: HitRecord) -> (Color, Ray) {
        (self.albedo, Ray { origin: rec.p, dir: reflect_of(r_in.dir, rec.normal) })
    }

    pub fn new(albedo: Color) -> (r: Metal)
        ensures
            r.albedo == albedo,
    {
        Metal { albedo }
    }

    /// Reflects the incoming ray about the normal; never absorbs.
    pub fn scatter(
        &self,
        r_in: &Ray,
        rec: &HitRecord,
        attenuation: &mut Color,
        scattered: &mut Ray,
    ) -> (r: bool)
        ensures
            r,
            (*final(attenuation), *final(scattered)) == self.scatter_spec(*r_in, *rec),
    {
        *scattered = Ray::new(rec.p, Vec3::reflect(r_in.dir, rec.normal));
        *attenuation = self.albedo;
        true
    }
}

impl Material {
    /// The attenuation and the outgoing ray, or `None` where the light is
    /// absorbed; `unit` is the random unit sample a diffuse bounce uses.
    pub open spec fn scatter_spec(self, r_in: Ray, rec: HitRecord, unit: Vec3) -> Option<(Color, Ray)> {
        match self {
            Material::Lambertian(l) => Some(l.scatter_spec(rec, unit)),
            Material::Metal(m) => Some(m.scatter_spec(r_in, rec)),
        }
    }

    /// Scatters with the unit sample `unit` where a diffuse bounce needs one.
    pub fn scatter_with(
        &self,
        r_in: &Ray,
        rec: &HitRecord,
        unit: Vec3,
        attenuation: &mut Color,
        scattered: &mut Ray,
    ) -> (r: bool)
        ensures
            r == self.scatter_spec(*r_in, *rec, unit).is_some(),
            r ==> (*final(attenuation), *final(scattered)) == self.scatter_spec(
                *r_in,
                *rec,
                unit,
            ).unwrap(),
            !r ==> *final(attenuation) == *old(attenuation) && *final(scattered) == *old(scattered),
    {
        match self {
            Material::Lambertian(l) => l.scatter_with(r_in, rec, unit, attenuation, scattered),
            Material::Metal(m) => m.scatter(r_in, rec, attenuation, scattered),
        }
    }

    /// Scatters the incoming ray; a diffuse bounce draws a random unit
    /// sample, a mirror bounce draws nothing.
    pub fn scatter(
        &self,
        r_in: &Ray,
        rec: &HitRecord,
        attenuation: &mut Color,
        scattered: &mut Ray,
    ) -> (r: bool)
        ensures
            exists|u: Vec3|
                {
                    &&& Vec3::is_sphere_sample(u)
                    &&& r == self.scatter_spec(*r_in, *rec, u).is_some()
                    &&& r ==> (*final(attenuation), *final(scattered)) == self.scatter_spec(
                        *r_in,
                        *rec,
                        u,
                    ).unwrap()
                },
    {
        match self {
            Material::Lambertian(l) => l.scatter(r_in, rec, attenuation, scattered),
            Material::Metal(m) => {
                proof {
                    lemma_sphere_sample_exists();
                }
                m.scatter(r_in, rec, attenuation, scattered)
            },
        }
    }
}

} // verus!
