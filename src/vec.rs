//! Three-component vectors: points, directions and colours.
use core::ops::Neg;
use vstd::prelude::*;
use crate::fixed::{
    abs, floor_sqrt, isqrt, lemma_div_trunc_exact, lemma_mul_abs_bound, lemma_times_error, Fixed, LIMIT,
    SCALE,
};
use crate::sampling::{is_fraction, lerp, random_range};

verus! {

/// How many candidates `Vec3::random_normal` draws before it settles for a
/// fixed direction; the chance of reaching it is below `0.48^64`.
pub const MAX_SPHERE_DRAWS: u32 = 64;

/// Magnitude, in millionths, below which a component counts as zero for
/// `Vec3::near_zero`.
pub const NEAR_ZERO_RAW: i64 = 10;

#[derive(Clone, Copy, Debug, PartialEq, Eq, Structural)]
pub struct Vec3 {
    pub x: Fixed,
    pub y: Fixed,
    pub z: Fixed,
}

/// A point in space.
pub type Point3 = Vec3;

pub open spec fn vec3(x: Fixed, y: Fixed, z: Fixed) -> Vec3 {
    Vec3 { x, y, z }
}

/// `a.x*b.x + a.y*b.y + a.z*b.z`, each product and sum in `Fixed`.
pub open spec fn dot_of(a: Vec3, b: Vec3) -> Fixed {
    a.x.times(b.x).plus(a.y.times(b.y)).plus(a.z.times(b.z))
}

pub open spec fn cross_of(a: Vec3, b: Vec3) -> Vec3 {
    vec3(
        a.y.times(b.z).minus(a.z.times(b.y)),
        a.z.times(b.x).minus(a.x.times(b.z)),
        a.x.times(b.y).minus(a.y.times(b.x)),
    )
}

/// `v - 2 * dot(v, n) * n`: `v` mirrored about the plane with normal `n`.
pub open spec fn reflect_of(v: Vec3, n: Vec3) -> Vec3 {
    v.minus(n.mul_scalar(Fixed::of_int(2).times(dot_of(v, n))))
}

impl Vec3 {
    pub open spec fn plus(self, o: Vec3) -> Vec3 {
        vec3(self.x.plus(o.x), self.y.plus(o.y), self.z.plus(o.z))
    }

    pub open spec fn minus(self, o: Vec3) -> Vec3 {
        vec3(self.x.minus(o.x), self.y.minus(o.y), self.z.minus(o.z))
    }

    pub open spec fn mul_elem(self, o: Vec3) -> Vec3 {
        vec3(self.x.times(o.x), self.y.times(o.y), self.z.times(o.z))
    }

    pub open spec fn div_elem(self, o: Vec3) -> Vec3 {
        vec3(self.x.over(o.x), self.y.over(o.y), self.z.over(o.z))
    }

    pub open spec fn mul_scalar(self, k: Fixed) -> Vec3 {
        vec3(self.x.times(k), self.y.times(k), self.z.times(k))
    }

    pub open spec fn div_scalar(self, k: Fixed) -> Vec3 {
        vec3(self.x.over(k), self.y.over(k), self.z.over(k))
    }

    pub open spec fn negated(self) -> Vec3 {
        vec3(self.x.negated(), self.y.negated(), self.z.negated())
    }

    pub open spec fn splat(k: Fixed) -> Vec3 {
        vec3(k, k, k)
    }

    pub open spec fn zero_spec() -> Vec3 {
        Vec3::splat(Fixed::sat(0))
    }

    pub open spec fn length_squared_spec(self) -> Fixed {
        dot_of(self, self)
    }

    /// The exact sum of the squared components, in square millionths.
    pub open spec fn norm_squared(self) -> int {
        self.x@ * self.x@ + self.y@ * self.y@ + self.z@ * self.z@
    }

    /// The Euclidean length, rounded down to a millionth.
    pub open spec fn length_spec(self) -> Fixed {
        Fixed::sat(floor_sqrt(self.norm_squared()))
    }

    /// `v / length(v)`.
    pub open spec fn unit_spec(self) -> Vec3 {
        self.div_scalar(self.length_spec())
    }

    pub open spec fn near_zero_spec(self) -> bool {
        -NEAR_ZERO_RAW < self.x@ < NEAR_ZERO_RAW && -NEAR_ZERO_RAW < self.y@ < NEAR_ZERO_RAW
            && -NEAR_ZERO_RAW < self.z@ < NEAR_ZERO_RAW
    }

    /// Whether rejection sampling keeps the candidate `p`: it lies in the
    /// unit ball and is not the origin.
    pub open spec fn accepts_candidate(p: Vec3) -> bool {
        0 < p.length_squared_spec()@ <= SCALE
    }

    /// Whether `u` is the normalised form of a candidate that rejection
    /// sampling keeps, where every candidate component is drawn in
    /// `[-1, 1)`.
    pub open spec fn is_sphere_sample(u: Vec3) -> bool {
        exists|p: Vec3|
            #![trigger Vec3::accepts_candidate(p), p.unit_spec()]
            -SCALE <= p.x@ < SCALE && -SCALE <= p.y@ < SCALE && -SCALE <= p.z@ < SCALE
                && Vec3::accepts_candidate(p) && u == p.unit_spec()
    }

    pub fn new(x: Fixed, y: Fixed, z: Fixed) -> (r: Vec3)
        ensures
            r == vec3(x, y, z),
    {
        Vec3 { x, y, z }
    }

    pub fn x(&self) -> (r: Fixed)
        ensures
            r == self.x,
    {
        self.x
    }

    pub fn y(&self) -> (r: Fixed)
        ensures
            r == self.y,
    {
        self.y
    }

    pub fn z(&self) -> (r: Fixed)
        ensures
            r == self.z,
    {
        self.z
    }

    /// The components as an array `[x, y, z]`.
    pub fn v(&self) -> (r: [Fixed; 3])
        ensures
            r@ == seq![self.x, self.y, self.z],
    {
        [self.x, self.y, self.z]
    }

    pub fn length_squared(&self) -> (r: Fixed)
        ensures
            r == self.length_squared_spec(),
    {
        dot(*self, *self)
    }

    pub fn length(&self) -> (r: Fixed)
        ensures
            r == self.length_spec(),
    {
        proof {
            let (x, y, z) = (self.x@, self.y@, self.z@);
            assert(0 <= x * x <= 0x4000_0000_0000_0000_0000_0000_0000_0000) by (nonlinear_arith)
                requires
                    -0x8000_0000_0000_0000 <= x < 0x8000_0000_0000_0000,
            ;
            assert(0 <= y * y <= 0x4000_0000_0000_0000_0000_0000_0000_0000) by (nonlinear_arith)
                requires
                    -0x8000_0000_0000_0000 <= y < 0x8000_0000_0000_0000,
            ;
            assert(0 <= z * z <= 0x4000_0000_0000_0000_0000_0000_0000_0000) by (nonlinear_arith)
                requires
                    -0x8000_0000_0000_0000 <= z < 0x8000_0000_0000_0000,
            ;
        }
        let ax: u128 = (self.x.raw as i128 * self.x.raw as i128) as u128;
        let ay: u128 = (self.y.raw as i128 * self.y.raw as i128) as u128;
        let az: u128 = (self.z.raw as i128 * self.z.raw as i128) as u128;
        let s: u128 = floor_sqrt_sum(ax, ay, az);
        if s > LIMIT as u128 {
            Fixed { raw: LIMIT }
        } else {
            Fixed { raw: s as i64 }
        }
    }

    /// The vector scaled to unit length; the zero vector stays zero.
    pub fn to_normal(&self) -> (r: Vec3)
        ensures
            r == self.unit_spec(),
    {
        *self / self.length()
    }

    /// Whether every component is within `NEAR_ZERO_RAW` millionths of zero.
    pub fn near_zero(&self) -> (r: bool)
        ensures
            r == self.near_zero_spec(),
    {
        -NEAR_ZERO_RAW < self.x.raw && self.x.raw < NEAR_ZERO_RAW && -NEAR_ZERO_RAW < self.y.raw
            && self.y.raw < NEAR_ZERO_RAW && -NEAR_ZERO_RAW < self.z.raw && self.z.raw
            < NEAR_ZERO_RAW
    }

    /// `v` mirrored about the plane with normal `n`: `v - 2 * dot(v, n) * n`.
    pub fn reflect(v: Vec3, n: Vec3) -> (r: Vec3)
        ensures
            r == reflect_of(v, n),
    {
        v - n * (Fixed::from_int(2) * dot(v, n))
    }

    /// A vector whose components are drawn uniformly in `[0, 1)`.
    pub fn random() -> (r: Vec3)
        ensures
            is_fraction(r.x) && is_fraction(r.y) && is_fraction(r.z),
    {
        let x = crate::sampling::random_fraction();
        let y = crate::sampling::random_fraction();
        let z = crate::sampling::random_fraction();
        Vec3 { x, y, z }
    }

    /// A vector whose components are drawn by `random_range(min, max)`.
    pub fn rand_range(min: Fixed, max: Fixed) -> (r: Vec3)
        ensures
            exists|u: Fixed| is_fraction(u) && r.x == lerp(min, max, u),
            exists|u: Fixed| is_fraction(u) && r.y == lerp(min, max, u),
            exists|u: Fixed| is_fraction(u) && r.z == lerp(min, max, u),
    {
        let x = random_range(min, max);
        let y = random_range(min, max);
        let z = random_range(min, max);
        Vec3 { x, y, z }
    }

    /// The unit vector of candidate `p` if rejection sampling keeps it.
    pub fn unit_from_candidate(p: Vec3) -> (r: Option<Vec3>)
        ensures
            r == (if Vec3::accepts_candidate(p) {
                Some(p.unit_spec())
            } else {
                None
            }),
    {
        let lsq = p.length_squared();
        if Fixed::zero() < lsq && lsq <= Fixed::one() {
            Some(p.to_normal())
        } else {
            None
        }
    }

    /// A direction drawn uniformly on the unit sphere, by drawing candidates
    /// in `[-1, 1)^3` until one falls inside the unit ball and normalising it.
    pub fn random_normal() -> (r: Vec3)
        ensures
            Vec3::is_sphere_sample(r),
    {
        let mut tries: u32 = 0;
        while tries < MAX_SPHERE_DRAWS
            invariant
                tries <= MAX_SPHERE_DRAWS,
            decreases MAX_SPHERE_DRAWS - tries,
        {
            let p = Vec3::rand_range(Fixed::from_int(-1), Fixed::one());
            proof {
                lemma_lerp_range(p.x);
                lemma_lerp_range(p.y);
                lemma_lerp_range(p.z);
            }
            match Vec3::unit_from_candidate(p) {
                Some(u) => {
                    return u;
                },
                None => {},
            }
            tries = tries + 1;
        }
        let p = Vec3 { x: Fixed::zero(), y: Fixed::zero(), z: Fixed::from_int(-1) };
        proof {
            lemma_sphere_sample_exists();
        }
        p.to_normal()
    }
}

/// The candidate `(0, 0, -1)` is kept, so its unit vector is a sphere
/// sample.
pub proof fn lemma_sphere_sample_exists()
    ensures
        Vec3::is_sphere_sample(vec3(Fixed::sat(0), Fixed::sat(0), Fixed::of_int(-1)).unit_spec()),
{
    let p = vec3(Fixed::sat(0), Fixed::sat(0), Fixed::of_int(-1));
    assert(p.x@ == 0 && p.y@ == 0 && p.z@ == -SCALE);
    lemma_div_trunc_exact(-SCALE, SCALE as int);
    lemma_div_trunc_exact(0, SCALE as int);
    lemma_div_trunc_exact(SCALE as int, SCALE as int);
    assert((-SCALE) * (-SCALE) == SCALE * SCALE);
    assert(Vec3::accepts_candidate(p));
}

/// A draw of `random_range(-1, 1)` lies in `[-1, 1)`.
proof fn lemma_lerp_range(c: Fixed)
    requires
        exists|u: Fixed| is_fraction(u) && c == lerp(Fixed::of_int(-1), Fixed::sat(SCALE as int), u),
    ensures
        -SCALE <= c@ < SCALE,
{
    let u = choose|u: Fixed| is_fraction(u) && c == lerp(Fixed::of_int(-1), Fixed::sat(SCALE as int), u);
    let p = 2 * SCALE * u@;
    assert(0 <= p < 2 * SCALE * SCALE) by (nonlinear_arith)
        requires
            0 <= u@ < SCALE,
            p == 2 * SCALE * u@,
    ;
    assert(0 <= p / (SCALE as int) < 2 * SCALE) by (nonlinear_arith)
        requires
            0 <= p < 2 * SCALE * SCALE,
    ;
}

/// Negating the right operand negates a product.
proof fn lemma_times_negated(a: Fixed, b: Fixed)
    requires
        b.in_range(),
    ensures
        a.times(b.negated()) == a.times(b).negated(),
{
    assert(a@ * (-b@) == -(a@ * b@)) by (nonlinear_arith);
}

/// Negating the right vector negates a dot product.
pub proof fn lemma_dot_negated(a: Vec3, b: Vec3)
    requires
        b.x.in_range(),
        b.y.in_range(),
        b.z.in_range(),
    ensures
        dot_of(a, b.negated()) == dot_of(a, b).negated(),
{
    lemma_times_negated(a.x, b.x);
    lemma_times_negated(a.y, b.y);
    lemma_times_negated(a.z, b.z);
}

/// The largest component magnitude, in millionths (ten thousand units), for
/// which cross and dot products of vectors cannot saturate.
pub const CROSS_BOUND: i64 = 10_000_000_000;

pub open spec fn is_bounded(v: Vec3) -> bool {
    abs(v.x@) <= CROSS_BOUND && abs(v.y@) <= CROSS_BOUND && abs(v.z@) <= CROSS_BOUND
}

/// The difference of two products of bounded components, and `SCALE` times
/// its truncated value, differ by less than two units of resolution.
proof fn lemma_cross_component(p: Fixed, q: Fixed, r: Fixed, s: Fixed)
    requires
        abs(p@) <= CROSS_BOUND,
        abs(q@) <= CROSS_BOUND,
        abs(r@) <= CROSS_BOUND,
        abs(s@) <= CROSS_BOUND,
    ensures
        -2 * SCALE < (p@ * q@ - r@ * s@) - SCALE * p.times(q).minus(r.times(s))@ < 2 * SCALE,
        abs(p.times(q).minus(r.times(s))@) <= 200_000_000_000_002,
{
    lemma_mul_abs_bound(p@, q@, CROSS_BOUND as int, CROSS_BOUND as int);
    lemma_mul_abs_bound(r@, s@, CROSS_BOUND as int, CROSS_BOUND as int);
    lemma_times_error(p, q);
    lemma_times_error(r, s);
}

/// `SCALE` times a truncated product of a cross component and a bounded
/// component, against the exact product.
proof fn lemma_dot_term(c: Fixed, a: Fixed)
    requires
        abs(c@) <= 200_000_000_000_002,
        abs(a@) <= CROSS_BOUND,
    ensures
        -SCALE < c@ * a@ - SCALE * c.times(a)@ < SCALE,
        abs(c.times(a)@) <= 2_000_000_000_000_020_001,
{
    lemma_mul_abs_bound(c@, a@, 200_000_000_000_002, CROSS_BOUND as int);
    lemma_times_error(c, a);
}

/// The dot product of `cross(a, b)` with `a` is zero up to rounding.
proof fn lemma_cross_dot_first(a: Vec3, b: Vec3)
    requires
        is_bounded(a),
        is_bounded(b),
    ensures
        abs(dot_of(cross_of(a, b), a)@) * SCALE <= 2 * (abs(a.x@) + abs(a.y@) + abs(a.z@)) + 3
            * SCALE,
{
    let c = cross_of(a, b);
    lemma_cross_component(a.y, b.z, a.z, b.y);
    lemma_cross_component(a.z, b.x, a.x, b.z);
    lemma_cross_component(a.x, b.y, a.y, b.x);
    lemma_dot_term(c.x, a.x);
    lemma_dot_term(c.y, a.y);
    lemma_dot_term(c.z, a.z);
    let (ax, ay, az) = (a.x@, a.y@, a.z@);
    let (bx, by, bz) = (b.x@, b.y@, b.z@);
    let (cx, cy, cz) = (c.x@, c.y@, c.z@);
    let d = dot_of(c, a)@;
    let ux = c.x.times(a.x)@;
    let uy = c.y.times(a.y)@;
    let uz = c.z.times(a.z)@;
    assert(d == ux + uy + uz);
    // errors of the cross components and of the dot terms
    let ex = SCALE * cx - (ay * bz - az * by);
    let ey = SCALE * cy - (az * bx - ax * bz);
    let ez = SCALE * cz - (ax * by - ay * bx);
    let f = SCALE * d - (cx * ax + cy * ay + cz * az);
    assert(-3 * SCALE < f < 3 * SCALE);
    assert((ay * bz - az * by) * ax + (az * bx - ax * bz) * ay + (ax * by - ay * bx) * az == 0)
        by (nonlinear_arith);
    assert(SCALE * (SCALE * d) == ex * ax + ey * ay + ez * az + SCALE * f) by (nonlinear_arith)
        requires
            ex == SCALE * cx - (ay * bz - az * by),
            ey == SCALE * cy - (az * bx - ax * bz),
            ez == SCALE * cz - (ax * by - ay * bx),
            f == SCALE * d - (cx * ax + cy * ay + cz * az),
            (ay * bz - az * by) * ax + (az * bx - ax * bz) * ay + (ax * by - ay * bx) * az == 0,
    ;
    lemma_mul_abs_bound(ex, ax, 2 * SCALE, abs(ax));
    lemma_mul_abs_bound(ey, ay, 2 * SCALE, abs(ay));
    lemma_mul_abs_bound(ez, az, 2 * SCALE, abs(az));
    let bound = 2 * (abs(ax) + abs(ay) + abs(az)) + 3 * SCALE;
    assert(abs(SCALE * (SCALE * d)) <= SCALE * bound) by (nonlinear_arith)
        requires
            SCALE * (SCALE * d) == ex * ax + ey * ay + ez * az + SCALE * f,
            abs(ex * ax) <= 2 * SCALE * abs(ax),
            abs(ey * ay) <= 2 * SCALE * abs(ay),
            abs(ez * az) <= 2 * SCALE * abs(az),
            -3 * SCALE < f < 3 * SCALE,
            bound == 2 * (abs(ax) + abs(ay) + abs(az)) + 3 * SCALE,
    ;
    assert(abs(d) * SCALE <= bound) by (nonlinear_arith)
        requires
            abs(SCALE * (SCALE * d)) <= SCALE * bound,
    ;
}

/// Multiplication of values commutes.
proof fn lemma_times_commutes(a: Fixed, b: Fixed)
    ensures
        a.times(b) == b.times(a),
{
    assert(a@ * b@ == b@ * a@) by (nonlinear_arith);
}

/// The cross product is orthogonal to both factors: its dot product with
/// either factor is zero up to the rounding of the products involved, at
/// most `2 * (|v.x| + |v.y| + |v.z|) / SCALE + 3` millionths for factor `v`,
/// where no component exceeds `CROSS_BOUND` in magnitude.
pub proof fn lemma_cross_orthogonal(a: Vec3, b: Vec3)
    requires
        is_bounded(a),
        is_bounded(b),
    ensures
        abs(dot_of(cross_of(a, b), a)@) * SCALE <= 2 * (abs(a.x@) + abs(a.y@) + abs(a.z@)) + 3
            * SCALE,
        abs(dot_of(cross_of(a, b), b)@) * SCALE <= 2 * (abs(b.x@) + abs(b.y@) + abs(b.z@)) + 3
            * SCALE,
{
    lemma_cross_dot_first(a, b);
    lemma_cross_dot_first(b, a);
    let c = cross_of(a, b);
    let c2 = cross_of(b, a);
    lemma_times_commutes(a.y, b.z);
    lemma_times_commutes(a.z, b.y);
    lemma_times_commutes(a.z, b.x);
    lemma_times_commutes(a.x, b.z);
    lemma_times_commutes(a.x, b.y);
    lemma_times_commutes(a.y, b.x);
    lemma_cross_component(a.y, b.z, a.z, b.y);
    lemma_cross_component(a.z, b.x, a.x, b.z);
    lemma_cross_component(a.x, b.y, a.y, b.x);
    assert(c == c2.negated());
    lemma_times_commutes(c.x, b.x);
    lemma_times_commutes(c.y, b.y);
    lemma_times_commutes(c.z, b.z);
    lemma_times_commutes(c2.x, b.x);
    lemma_times_commutes(c2.y, b.y);
    lemma_times_commutes(c2.z, b.z);
    lemma_dot_negated(b, c2);
    assert(dot_of(c, b) == dot_of(b, c));
    assert(dot_of(c2, b) == dot_of(b, c2));
}

/// A squared length is never negative.
pub proof fn lemma_length_squared_nonneg(v: Vec3)
    ensures
        v.length_squared_spec()@ >= 0,
{
    assert(v.x@ * v.x@ >= 0 && v.y@ * v.y@ >= 0 && v.z@ * v.z@ >= 0) by (nonlinear_arith);
}

/// Vector addition commutes.
pub proof fn lemma_add_commutes(a: Vec3, b: Vec3)
    ensures
        a.plus(b) == b.plus(a),
{
}

/// The square root, rounded down, of `a + b + c`.
fn floor_sqrt_sum(a: u128, b: u128, c: u128) -> (r: u128)
    requires
        a <= 0x4000_0000_0000_0000_0000_0000_0000_0000,
        b <= 0x4000_0000_0000_0000_0000_0000_0000_0000,
        c <= 0x4000_0000_0000_0000_0000_0000_0000_0000,
    ensures
        r == floor_sqrt(a + b + c),
{
    let n: u128 = a + b + c;
    isqrt(n)
}

pub fn dot(a: Vec3, b: Vec3) -> (r: Fixed)
    ensures
        r == dot_of(a, b),
{
    a.x * b.x + a.y * b.y + a.z * b.z
}

pub fn cross(a: Vec3, b: Vec3) -> (r: Vec3)
    ensures
        r == cross_of(a, b),
{
    Vec3::new(a.y * b.z - a.z * b.y, a.z * b.x - a.x * b.z, a.x * b.y - a.y * b.x)
}

impl core::ops::Add for Vec3 {
    type Output = Vec3;

    fn add(self, rhs: Vec3) -> (r: Vec3) {
        Vec3 { x: self.x + rhs.x, y: self.y + rhs.y, z: self.z + rhs.z }
    }
}

impl vstd::std_specs::ops::AddSpecImpl for Vec3 {
    open spec fn obeys_add_spec() -> bool {
        true
    }

    open spec fn add_req(self, rhs: Vec3) -> bool {
        true
    }

    open spec fn add_spec(self, rhs: Vec3) -> Vec3 {
        self.plus(rhs)
    }
}

impl core::ops::Sub for Vec3 {
    type Output = Vec3;

    fn sub(self, rhs: Vec3) -> (r: Vec3) {
        Vec3 { x: self.x - rhs.x, y: self.y - rhs.y, z: self.z - rhs.z }
    }
}

impl vstd::std_specs::ops::SubSpecImpl for Vec3 {
    open spec fn obeys_sub_spec() -> bool {
        true
    }

    open spec fn sub_req(self, rhs: Vec3) -> bool {
        true
    }

    open spec fn sub_spec(self, rhs: Vec3) -> Vec3 {
        self.minus(rhs)
    }
}

impl core::ops::Mul for Vec3 {
    type Output = Vec3;

    fn mul(self, rhs: Vec3) -> (r: Vec3) {
        Vec3 { x: self.x * rhs.x, y: self.y * rhs.y, z: self.z * rhs.z }
    }
}

impl vstd::std_specs::ops::MulSpecImpl for Vec3 {
    open spec fn obeys_mul_spec() -> bool {
        true
    }

    open spec fn mul_req(self, rhs: Vec3) -> bool {
        true
    }

    open spec fn mul_spec(self, rhs: Vec3) -> Vec3 {
        self.mul_elem(rhs)
    }
}

impl core::ops::Div for Vec3 {
    type Output = Vec3;

    fn div(self, rhs: Vec3) -> (r: Vec3) {
        Vec3 { x: self.x / rhs.x, y: self.y / rhs.y, z: self.z / rhs.z }
    }
}

impl vstd::std_specs::ops::DivSpecImpl for Vec3 {
    open spec fn obeys_div_spec() -> bool {
        true
    }

    open spec fn div_req(self, rhs: Vec3) -> bool {
        true
    }

    open spec fn div_spec(self, rhs: Vec3) -> Vec3 {
        self.div_elem(rhs)
    }
}

impl core::ops::Mul<Fixed> for Vec3 {
    type Output = Vec3;

    fn mul(self, k: Fixed) -> (r: Vec3) {
        Vec3 { x: self.x * k, y: self.y * k, z: self.z * k }
    }
}

impl vstd::std_specs::ops::MulSpecImpl<Fixed> for Vec3 {
    open spec fn obeys_mul_spec() -> bool {
        true
    }

    open spec fn mul_req(self, k: Fixed) -> bool {
        true
    }

    open spec fn mul_spec(self, k: Fixed) -> Vec3 {
        self.mul_scalar(k)
    }
}

impl core::ops::Div<Fixed> for Vec3 {
    type Output = Vec3;

    fn div(self, k: Fixed) -> (r: Vec3) {
        Vec3 { x: self.x / k, y: self.y / k, z: self.z / k }
    }
}

impl vstd::std_specs::ops::DivSpecImpl<Fixed> for Vec3 {
    open spec fn obeys_div_spec() -> bool {
        true
    }

    open spec fn div_req(self, k: Fixed) -> bool {
        true
    }

    open spec fn div_spec(self, k: Fixed) -> Vec3 {
        self.div_scalar(k)
    }
}

impl core::ops::Mul<Vec3> for Fixed {
    type Output = Vec3;

    fn mul(self, v: Vec3) -> (r: Vec3) {
        v * self
    }
}

impl vstd::std_specs::ops::MulSpecImpl<Vec3> for Fixed {
    open spec fn obeys_mul_spec() -> bool {
        true
    }

    open spec fn mul_req(self, v: Vec3) -> bool {
        true
    }

    open spec fn mul_spec(self, v: Vec3) -> Vec3 {
        v.mul_scalar(self)
    }
}

impl core::ops::Neg for Vec3 {
    type Output = Vec3;

    fn neg(self) -> (r: Vec3) {
        Vec3 { x: self.x.neg(), y: self.y.neg(), z: self.z.neg() }
    }
}

impl vstd::std_specs::ops::NegSpecImpl for Vec3 {
    open spec fn obeys_neg_spec() -> bool {
        true
    }

    open spec fn neg_req(self) -> bool {
        true
    }

    open spec fn neg_spec(self) -> Vec3 {
        self.negated()
    }
}

impl core::ops::AddAssign for Vec3 {
    fn add_assign(&mut self, rhs: Vec3) {
        *self = *self + rhs;
    }
}

impl core::ops::SubAssign for Vec3 {
    fn sub_assign(&mut self, rhs: Vec3) {
        *self = *self - rhs;
    }
}

impl core::ops::MulAssign for Vec3 {
    fn mul_assign(&mut self, rhs: Vec3) {
        *self = *self * rhs;
    }
}

impl core::ops::DivAssign for Vec3 {
    fn div_assign(&mut self, rhs: Vec3) {
        *self = *self / rhs;
    }
}

impl core::ops::MulAssign<Fixed> for Vec3 {
    fn mul_assign(&mut self, rhs: Fixed) {
        *self = *self * rhs;
    }
}

impl core::ops::DivAssign<Fixed> for Vec3 {
    fn div_assign(&mut self, rhs: Fixed) {
        *self = *self / rhs;
    }
}

impl Default for Vec3 {
    fn default() -> (r: Vec3)
        ensures
            r == Vec3::zero_spec(),
    {
        Vec3 { x: Fixed::zero(), y: Fixed::zero(), z: Fixed::zero() }
    }
}

impl From<Fixed> for Vec3 {
    fn from(k: Fixed) -> (r: Vec3) {
        Vec3 { x: k, y: k, z: k }
    }
}

impl vstd::std_specs::convert::FromSpecImpl<Fixed> for Vec3 {
    open spec fn obeys_from_spec() -> bool {
        true
    }

    open spec fn from_spec(k: Fixed) -> Vec3 {
        Vec3::splat(k)
    }
}

} // verus!
