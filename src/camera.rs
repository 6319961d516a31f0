//! The camera: viewport geometry, ray generation, path tracing and the
//! render loop.
use vstd::prelude::*;
use crate::color::{color_line, print_color, push_signed_decimal, signed_decimal, Color};
use crate::fixed::{div_trunc, Fixed, LIMIT, SCALE};
use crate::hittable::{HitRecord, Hittable};
use crate::interval::Interval;
use crate::ray::Ray;
use crate::sampling::random_fraction;
use crate::vec::{vec3, Point3, Vec3};

verus! {

pub struct Camera {
    /// Image width over image height.
    pub aspect_ratio: Fixed,
    /// Image width in pixels.
    pub image_width: i32,
    /// Rays averaged per pixel.
    pub samples_per_pixel: i32,
    /// Bounces a ray may take before it counts as absorbed.
    pub max_depth: i32,
    pub image_height: i32,
    pub center: Point3,
    pub pixel_origin: Point3,
    pub pixel_delta_u: Vec3,
    pub pixel_delta_v: Vec3,
    pub pixel_samples_scale: Fixed,
}

/// The image height for a width and an aspect ratio:
/// `round(width / aspect)`, at least 1 and at most `i32::MAX`.
pub open spec fn height_for(width: i32, aspect: Fixed) -> int {
    let q = Fixed::of_int(width as int).over(aspect).plus(Fixed::sat(SCALE / 2));
    let n = div_trunc(q@, SCALE as int);
    if n < 1 {
        1
    } else if n > i32::MAX {
        i32::MAX as int
    } else {
        n
    }
}

/// Horizontal extent of the viewport for an image of `width` by `height`
/// pixels; the viewport is 2 units high.
pub open spec fn view_u_for(width: i32, height: i32) -> Vec3 {
    vec3(
        Fixed::of_int(2).times(Fixed::of_int(width as int).over(Fixed::of_int(height as int))),
        Fixed::sat(0),
        Fixed::sat(0),
    )
}

/// Vertical extent of the viewport, pointing down the image.
pub open spec fn view_v_spec() -> Vec3 {
    vec3(Fixed::sat(0), Fixed::of_int(2).negated(), Fixed::sat(0))
}

/// The sky seen along a ray that hits nothing: white blended into
/// `(0.5, 0.7, 1.0)` by `a = (unit(direction).y + 1) / 2`.
pub open spec fn background(r: Ray) -> Color {
    let a = Fixed::sat(SCALE / 2).times(r.dir.unit_spec().y.plus(Fixed::sat(SCALE as int)));
    let white = Vec3::splat(Fixed::sat(SCALE as int));
    let blue = vec3(Fixed::sat(500_000), Fixed::sat(700_000), Fixed::sat(SCALE as int));
    white.mul_scalar(Fixed::sat(SCALE as int).minus(a)).plus(blue.mul_scalar(a))
}

/// The interval of ray parameters a bounce may hit: `(0, +inf)`.
pub open spec fn forward_interval() -> Interval {
    Interval { min: Fixed::sat(0), max: Fixed::sat(LIMIT as int) }
}

/// The colour a ray carries back with `depth` bounces left, where the
/// `k`-th bounce uses `units[k]` as its random unit sample.
pub open spec fn trace<W: Hittable>(world: W, r: Ray, depth: int, units: Seq<Vec3>) -> Color
    decreases depth,
{
    if depth <= 0 {
        Vec3::zero_spec()
    } else {
        match world.hit_spec(r, forward_interval()) {
            None => background(r),
            Some(rec) => match (*rec.mat).scatter_spec(r, rec, units[0]) {
                None => Vec3::zero_spec(),
                Some(bounce) => bounce.0.mul_elem(trace(world, bounce.1, depth - 1, units.drop_first())),
            },
        }
    }
}

/// With a single bounce left, a ray that hits anything comes back black:
/// the bounce scatters, and the scattered ray has no bounces left.
pub proof fn lemma_last_bounce_is_black<W: Hittable>(world: W, r: Ray, units: Seq<Vec3>)
    requires
        world.hit_spec(r, forward_interval()) is Some,
    ensures
        trace(world, r, 1, units) == Vec3::zero_spec(),
{
    let rec = world.hit_spec(r, forward_interval()).unwrap();
    let bounce = (*rec.mat).scatter_spec(r, rec, units[0]).unwrap();
    let att = bounce.0;
    assert(trace(world, bounce.1, 0, units.drop_first()) == Vec3::zero_spec());
    assert(att.x@ * 0 == 0 && att.y@ * 0 == 0 && att.z@ * 0 == 0);
}

pub open spec fn all_sphere_samples(units: Seq<Vec3>) -> bool {
    forall|k: int| 0 <= k < units.len() ==> #[trigger] Vec3::is_sphere_sample(units[k])
}

/// Whether `o` is a jitter offset: x and y in `[-0.5, 0.5)`, z zero.
pub open spec fn is_square_offset(o: Vec3) -> bool {
    -SCALE / 2 <= o.x@ < SCALE / 2 && -SCALE / 2 <= o.y@ < SCALE / 2 && o.z@ == 0
}

/// The sum of a sequence of colours, added left to right.
pub open spec fn color_sum(cs: Seq<Color>) -> Color
    decreases cs.len(),
{
    if cs.len() == 0 {
        Vec3::zero_spec()
    } else {
        color_sum(cs.drop_last()).plus(cs.last())
    }
}

/// The pixel lines of `cs`, each colour scaled by `scale`.
pub open spec fn pixel_lines(cs: Seq<Color>, scale: Fixed) -> Seq<u8>
    decreases cs.len(),
{
    if cs.len() == 0 {
        Seq::empty()
    } else {
        pixel_lines(cs.drop_last(), scale) + color_line(cs.last().mul_scalar(scale))
    }
}

/// The plain PPM header: the ASCII magic number, the width and height, and
/// the largest channel value, 255.
pub open spec fn ppm_header(width: int, height: int) -> Seq<u8> {
    seq![80u8, 51u8, 10u8] + signed_decimal(width) + seq![32u8] + signed_decimal(height) + seq![
        10u8,
        50u8,
        53u8,
        53u8,
        10u8,
    ]
}

/// Where pixel `(i, j)` stands in row-major order, `width` pixels a row.
pub open spec fn pixel_index(i: int, j: int, width: int) -> int {
    j * width + i
}

proof fn lemma_pixel_index_before(ii: int, jj: int, i: int, j: int, w: int)
    requires
        0 <= jj,
        0 <= ii < w,
        0 <= i,
        jj < j || (jj == j && ii < i),
    ensures
        pixel_index(ii, jj, w) < pixel_index(i, j, w),
{
    if jj < j {
        assert(jj * w + ii < j * w + i) by (nonlinear_arith)
            requires
                0 <= jj < j,
                0 <= ii < w,
                0 <= i,
        ;
    }
}

pub open spec fn nonneg(n: i32) -> int {
    if n < 0 {
        0
    } else {
        n as int
    }
}

/// The sky seen along a ray that hits nothing.
pub fn sky(r: &Ray) -> (c: Color)
    ensures
        c == background(*r),
{
    let a = Fixed::half() * (r.direction().to_normal().y() + Fixed::one());
    let white = Color::new(Fixed::one(), Fixed::one(), Fixed::one());
    let blue = Color::new(Fixed { raw: 500_000 }, Fixed { raw: 700_000 }, Fixed::one());
    (Fixed::one() - a) * white + a * blue
}

impl Camera {
    /// Whether the derived state matches the configuration.
    pub open spec fn is_initialized(&self) -> bool {
        let h = self.image_height;
        let w = self.image_width;
        let view_u = view_u_for(w, h);
        let view_v = view_v_spec();
        let du = view_u.div_scalar(Fixed::of_int(w as int));
        let dv = view_v.div_scalar(Fixed::of_int(h as int));
        let upper_left = self.center.minus(vec3(Fixed::sat(0), Fixed::sat(0), Fixed::sat(SCALE as int))).minus(
            view_u.div_scalar(Fixed::of_int(2)),
        ).minus(view_v.div_scalar(Fixed::of_int(2)));
        &&& h == height_for(w, self.aspect_ratio)
        &&& self.pixel_samples_scale == Fixed::sat(SCALE as int).over(Fixed::of_int(self.samples_per_pixel as int))
        &&& self.pixel_delta_u == du
        &&& self.pixel_delta_v == dv
        &&& self.pixel_origin == upper_left.plus(du.plus(dv).mul_scalar(Fixed::sat(SCALE / 2)))
    }

    /// The ray through pixel `(i, j)` moved by the jitter `offset`.
    pub open spec fn ray_through(&self, i: int, j: int, offset: Vec3) -> Ray {
        let px = self.pixel_origin.plus(
            self.pixel_delta_u.mul_scalar(Fixed::of_int(i).plus(offset.x)),
        ).plus(self.pixel_delta_v.mul_scalar(Fixed::of_int(j).plus(offset.y)));
        Ray { origin: self.center, dir: px.minus(self.center) }
    }

    /// Whether `c` is a colour one sample of pixel `(i, j)` can have.
    pub open spec fn is_pixel_sample<W: Hittable>(&self, world: W, i: int, j: int, c: Color) -> bool {
        exists|offset: Vec3, units: Seq<Vec3>|
            #![trigger self.ray_through(i, j, offset), all_sphere_samples(units)]
            is_square_offset(offset) && all_sphere_samples(units) && c == trace(
                world,
                self.ray_through(i, j, offset),
                self.max_depth as int,
                units,
            )
    }

    /// Whether `c` is a sum of `samples_per_pixel` samples of pixel `(i, j)`.
    pub open spec fn is_pixel_sum<W: Hittable>(&self, world: W, i: int, j: int, c: Color) -> bool {
        exists|cs: Seq<Color>|
            #![trigger color_sum(cs)]
            cs.len() == nonneg(self.samples_per_pixel) && (forall|k: int|
                0 <= k < cs.len() ==> #[trigger] self.is_pixel_sample(world, i, j, cs[k]))
                && c == color_sum(cs)
    }

    /// Whether `sums` holds, in row-major order, a sample sum for each of
    /// the first `count` pixels of an image `width` pixels wide.
    pub open spec fn are_pixel_sums<W: Hittable>(&self, world: W, sums: Seq<Color>, width: int, count: int) -> bool {
        forall|i: int, j: int|
            0 <= j && 0 <= i < width && pixel_index(i, j, width) < count ==> #[trigger] self.is_pixel_sum(
                world,
                i,
                j,
                sums[pixel_index(i, j, width)],
            )
    }

    pub fn new() -> (r: Camera)
        ensures
            r.aspect_ratio@ == SCALE,
            r.image_width == 100,
            r.samples_per_pixel == 10,
            r.max_depth == 10,
            r.center == Vec3::zero_spec(),
    {
        Camera::default()
    }

    pub fn image_height(&self) -> (r: i32)
        ensures
            r == self.image_height,
    {
        self.image_height
    }

    /// Derives the image height, the per-sample scale and the viewport from
    /// the configuration.
    pub fn initialize(&mut self)
        ensures
            final(self).aspect_ratio == old(self).aspect_ratio,
            final(self).image_width == old(self).image_width,
            final(self).samples_per_pixel == old(self).samples_per_pixel,
            final(self).max_depth == old(self).max_depth,
            final(self).center == old(self).center,
            final(self).is_initialized(),
    {
        let q = Fixed::from_int(self.image_width as i64) / self.aspect_ratio + Fixed::half();
        let n = q.trunc();
        self.image_height = if n < 1 {
            1
        } else if n > i32::MAX as i64 {
            i32::MAX
        } else {
            n as i32
        };
        self.pixel_samples_scale = Fixed::one() / Fixed::from_int(self.samples_per_pixel as i64);
        let focal_length = Fixed::one();
        let view_height = Fixed::from_int(2);
        let view_width = view_height * (Fixed::from_int(self.image_width as i64) / Fixed::from_int(
            self.image_height as i64,
        ));
        let view_u = Vec3::new(view_width, Fixed::zero(), Fixed::zero());
        let view_v = Vec3::new(Fixed::zero(), core::ops::Neg::neg(view_height), Fixed::zero());
        self.pixel_delta_u = view_u / Fixed::from_int(self.image_width as i64);
        self.pixel_delta_v = view_v / Fixed::from_int(self.image_height as i64);
        let two = Fixed::from_int(2);
        let view_upper_left = self.center - Vec3::new(Fixed::zero(), Fixed::zero(), focal_length)
            - view_u / two - view_v / two;
        self.pixel_origin = view_upper_left + Fixed::half() * (self.pixel_delta_u
            + self.pixel_delta_v);
    }

    /// The ray through pixel `(i, j)` moved by the jitter `offset`.
    pub fn get_ray_with(&self, i: i32, j: i32, offset: Vec3) -> (r: Ray)
        ensures
            r == self.ray_through(i as int, j as int, offset),
    {
        let px_sample = self.pixel_origin + (Fixed::from_int(i as i64) + offset.x)
            * self.pixel_delta_u + (Fixed::from_int(j as i64) + offset.y) * self.pixel_delta_v;
        let ray_origin = self.center;
        Ray::new(ray_origin, px_sample - ray_origin)
    }

    /// A ray through pixel `(i, j)`, jittered at random within the pixel.
    pub fn get_ray(&self, i: i32, j: i32) -> (r: Ray)
        ensures
            exists|offset: Vec3| is_square_offset(offset) && r == self.ray_through(i as int, j as int, offset),
    {
        let offset = self.sample_square();
        self.get_ray_with(i, j, offset)
    }

    /// A random jitter in `[-0.5, 0.5)^2`.
    pub fn sample_square(&self) -> (r: Vec3)
        ensures
            is_square_offset(r),
    {
        let u = random_fraction();
        let v = random_fraction();
        Vec3::new(u - Fixed::half(), v - Fixed::half(), Fixed::zero())
    }

    /// The colour along `r` with `depth` bounces left, where bounce `k`
    /// uses the unit sample `units[k]`.
    pub fn ray_color_with<W: Hittable>(&self, r: &Ray, depth: i32, world: &W, units: &Vec<Vec3>) -> (c: Color)
        requires
            depth <= units@.len(),
        ensures
            c == trace(*world, *r, depth as int, units@),
    {
        proof {
            assert(units@.subrange(0, units@.len() as int) =~= units@);
        }
        self.ray_color_from(r, depth, world, units, 0)
    }

    fn ray_color_from<W: Hittable>(
        &self,
        r: &Ray,
        depth: i32,
        world: &W,
        units: &Vec<Vec3>,
        next: usize,
    ) -> (c: Color)
        requires
            next <= units@.len(),
            depth <= units@.len() - next,
        ensures
            c == trace(*world, *r, depth as int, units@.subrange(next as int, units@.len() as int)),
        decreases depth,
    {
        if depth <= 0 {
            return Color::default();
        }
        let remaining = units.len() - next;
        assert(remaining >= 1);
        let mut rec = HitRecord::default();
        if world.hit(r, Interval::new(Fixed::zero(), Fixed::infinity()), &mut rec) {
            let mut attenuation = Color::default();
            let mut scattered = Ray::default();
            if rec.mat.scatter_with(r, &rec, units[next], &mut attenuation, &mut scattered) {
                let c = self.ray_color_from(&scattered, depth - 1, world, units, next + 1);
                proof {
                    let rest = units@.subrange(next as int, units@.len() as int);
                    assert(rest.drop_first() =~= units@.subrange(next + 1, units@.len() as int));
                }
                return attenuation * c;
            }
            return Color::default();
        }
        sky(r)
    }

    /// The colour along `r` with `depth` bounces left, drawing a random unit
    /// sample at each bounce. With no bounces left it is black; a ray that
    /// hits nothing gets the sky.
    pub fn ray_color<W: Hittable>(&self, r: &Ray, depth: i32, world: &W) -> (c: Color)
        ensures
            exists|units: Seq<Vec3>| all_sphere_samples(units) && c == trace(*world, *r, depth as int, units),
            depth <= 0 ==> c == Vec3::zero_spec(),
            depth > 0 && world.hit_spec(*r, forward_interval()) is None ==> c == background(*r),
        decreases depth,
    {
        if depth <= 0 {
            proof {
                assert(all_sphere_samples(Seq::<Vec3>::empty()));
            }
            return Color::default();
        }
        let mut rec = HitRecord::default();
        if world.hit(r, Interval::new(Fixed::zero(), Fixed::infinity()), &mut rec) {
            let mut attenuation = Color::default();
            let mut scattered = Ray::default();
            let ok = rec.mat.scatter(r, &rec, &mut attenuation, &mut scattered);
            let ghost u = choose|u: Vec3|
                {
                    &&& Vec3::is_sphere_sample(u)
                    &&& ok == (*rec.mat).scatter_spec(*r, rec, u).is_some()
                    &&& ok ==> (attenuation, scattered) == (*rec.mat).scatter_spec(*r, rec, u).unwrap()
                };
            if ok {
                let c = self.ray_color(&scattered, depth - 1, world);
                let ghost rest = choose|units: Seq<Vec3>|
                    all_sphere_samples(units) && c == trace(*world, scattered, depth - 1, units);
                proof {
                    let units = seq![u] + rest;
                    assert(units.drop_first() =~= rest);
                    assert(all_sphere_samples(units)) by {
                        assert forall|k: int| 0 <= k < units.len() implies #[trigger] Vec3::is_sphere_sample(units[k]) by {
                            if k > 0 {
                                assert(units[k] == rest[k - 1]);
                            }
                        }
                    }
                    assert(attenuation.mul_elem(c) == trace(*world, *r, depth as int, units));
                }
                return attenuation * c;
            }
            proof {
                let units = seq![u];
                assert(all_sphere_samples(units));
                assert(Vec3::zero_spec() == trace(*world, *r, depth as int, units));
            }
            return Color::default();
        }
        proof {
            assert(all_sphere_samples(Seq::<Vec3>::empty()));
            assert(background(*r) == trace(*world, *r, depth as int, Seq::<Vec3>::empty()));
        }
        sky(r)
    }
}

impl Camera {
    /// The sum of `samples_per_pixel` random samples of pixel `(i, j)`.
    fn pixel_color<W: Hittable>(&self, i: i32, j: i32, world: &W) -> (c: Color)
        ensures
            self.is_pixel_sum(*world, i as int, j as int, c),
    {
        let mut pcol = Color::default();
        let mut s: i32 = 0;
        let ghost mut cs: Seq<Color> = Seq::empty();
        while s < self.samples_per_pixel
            invariant
                0 <= s,
                s <= nonneg(self.samples_per_pixel),
                cs.len() == s,
                pcol == color_sum(cs),
                forall|k: int| 0 <= k < cs.len() ==> #[trigger] self.is_pixel_sample(*world, i as int, j as int, cs[k]),
            decreases self.samples_per_pixel - s,
        {
            let r = self.get_ray(i, j);
            let c = self.ray_color(&r, self.max_depth, world);
            proof {
                let offset = choose|o: Vec3| is_square_offset(o) && r == self.ray_through(i as int, j as int, o);
                let units = choose|u: Seq<Vec3>|
                    all_sphere_samples(u) && c == trace(*world, r, self.max_depth as int, u);
                assert(self.ray_through(i as int, j as int, offset) == r);
                assert(all_sphere_samples(units));
                assert(self.is_pixel_sample(*world, i as int, j as int, c));
                assert(cs.push(c).drop_last() =~= cs);
                cs = cs.push(c);
            }
            pcol = pcol + c;
            s = s + 1;
        }
        pcol
    }

    /// Appends the pixel lines of every pixel, top row first, each row left
    /// to right.
    fn render_pixels<W: Hittable>(&self, world: &W, out: &mut Vec<u8>)
        requires
            self.image_height >= 1,
        ensures
            exists|sums: Seq<Color>|
                {
                    &&& sums.len() == self.image_height * nonneg(self.image_width)
                    &&& self.are_pixel_sums(*world, sums, nonneg(self.image_width), sums.len() as int)
                    &&& final(out)@ == old(out)@ + pixel_lines(sums, self.pixel_samples_scale)
                },
    {
        let ghost wp = nonneg(self.image_width);
        let ghost start = out@;
        let ghost mut sums: Seq<Color> = Seq::empty();
        let mut j: i32 = 0;
        while j < self.image_height
            invariant
                0 <= j <= self.image_height,
                sums.len() == j * wp,
                wp == nonneg(self.image_width),
                self.are_pixel_sums(*world, sums, wp, sums.len() as int),
                out@ == start + pixel_lines(sums, self.pixel_samples_scale),
            decreases self.image_height - j,
        {
            let mut i: i32 = 0;
            while i < self.image_width
                invariant
                    0 <= j < self.image_height,
                    0 <= i <= wp,
                    wp == nonneg(self.image_width),
                    sums.len() == j * wp + i,
                    self.are_pixel_sums(*world, sums, wp, sums.len() as int),
                    out@ == start + pixel_lines(sums, self.pixel_samples_scale),
                decreases self.image_width - i,
            {
                let pcol = self.pixel_color(i, j, world);
                print_color(out, &(pcol * self.pixel_samples_scale));
                proof {
                    let old_sums = sums;
                    sums = sums.push(pcol);
                    assert(sums.drop_last() =~= old_sums);
                    assert forall|ii: int, jj: int|
                        0 <= jj && 0 <= ii < wp && pixel_index(ii, jj, wp) < sums.len() implies #[trigger] self.is_pixel_sum(
                            *world,
                            ii,
                            jj,
                            sums[pixel_index(ii, jj, wp)],
                        ) by {
                        if pixel_index(ii, jj, wp) < old_sums.len() {
                            assert(old_sums[pixel_index(ii, jj, wp)] == sums[pixel_index(ii, jj, wp)]);
                        } else {
                            if jj < j || (jj == j && ii < i) {
                                lemma_pixel_index_before(ii, jj, i as int, j as int, wp);
                            } else if jj == j && ii > i {
                                lemma_pixel_index_before(i as int, j as int, ii, jj, wp);
                            } else if jj > j {
                                lemma_pixel_index_before(i as int, j as int, ii, jj, wp);
                            }
                        }
                    }
                }
                i = i + 1;
            }
            proof {
                assert(j * wp + wp == (j + 1) * wp) by (nonlinear_arith);
            }
            j = j + 1;
        }
    }

    /// Renders `world`: derives the camera state, then returns the image as
    /// plain PPM text, with each pixel the average of `samples_per_pixel`
    /// random samples, gamma-corrected and scaled to bytes.
    pub fn render<W: Hittable>(&mut self, world: &W) -> (out: Vec<u8>)
        ensures
            final(self).aspect_ratio == old(self).aspect_ratio,
            final(self).image_width == old(self).image_width,
            final(self).samples_per_pixel == old(self).samples_per_pixel,
            final(self).max_depth == old(self).max_depth,
            final(self).center == old(self).center,
            final(self).is_initialized(),
            exists|sums: Seq<Color>|
                {
                    &&& sums.len() == final(self).image_height * nonneg(final(self).image_width)
                    &&& final(self).are_pixel_sums(
                        *world,
                        sums,
                        nonneg(final(self).image_width),
                        sums.len() as int,
                    )
                    &&& out@ == ppm_header(final(self).image_width as int, final(self).image_height as int)
                        + pixel_lines(sums, final(self).pixel_samples_scale)
                },
    {
        self.initialize();
        let mut out: Vec<u8> = Vec::new();
        out.push(80u8);
        out.push(51u8);
        out.push(10u8);
        push_signed_decimal(&mut out, self.image_width as i64);
        out.push(32u8);
        push_signed_decimal(&mut out, self.image_height as i64);
        out.push(10u8);
        out.push(50u8);
        out.push(53u8);
        out.push(53u8);
        out.push(10u8);
        let ghost header = out@;
        assert(header =~= ppm_header(self.image_width as int, self.image_height as int));
        self.render_pixels(world, &mut out);
        out
    }
}

impl Default for Camera {
    fn default() -> (r: Camera)
        ensures
            r.aspect_ratio@ == SCALE,
            r.image_width == 100,
            r.samples_per_pixel == 10,
            r.max_depth == 10,
            r.center == Vec3::zero_spec(),
    {
        Camera {
            aspect_ratio: Fixed::one(),
            image_width: 100,
            samples_per_pixel: 10,
            max_depth: 10,
            image_height: 0,
            center: Vec3::default(),
            pixel_origin: Vec3::default(),
            pixel_delta_u: Vec3::default(),
            pixel_delta_v: Vec3::default(),
            pixel_samples_scale: Fixed::zero(),
        }
    }
}

} // verus!
