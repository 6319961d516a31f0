//! Decimal fixed-point scalars: the number type of every coordinate, distance
//! and colour channel in the renderer.
//!
//! A `Fixed` holds a whole number of millionths. Arithmetic saturates at
//! `±LIMIT` millionths (the stand-in for an infinite value), products and
//! quotients are truncated toward zero, and a quotient by zero saturates
//! with the sign of the dividend.
use vstd::prelude::*;

verus! {

/// Millionths per unit.
pub const SCALE: i64 = 1_000_000;

/// The largest magnitude a value takes, in millionths.
pub const LIMIT: i64 = 9_223_372_036_854_775_807;

/// Clamps an exact result into `[-LIMIT, LIMIT]`.
pub open spec fn saturate(x: int) -> int {
    if x > LIMIT {
        LIMIT as int
    } else if x < -LIMIT {
        -LIMIT
    } else {
        x
    }
}

pub open spec fn abs(x: int) -> int {
    if x < 0 {
        -x
    } else {
        x
    }
}

/// Division rounding toward zero (as Rust's integer `/` does).
pub open spec fn div_trunc(n: int, d: int) -> int {
    if (n < 0) == (d < 0) {
        abs(n) / abs(d)
    } else {
        -(abs(n) / abs(d))
    }
}

/// Dividing an exact multiple of `d` by `d` loses nothing.
pub proof fn lemma_div_trunc_exact(k: int, d: int)
    requires
        d > 0,
    ensures
        div_trunc(k * d, d) == k,
{
    if k >= 0 {
        assert(k * d >= 0) by (nonlinear_arith)
            requires
                k >= 0,
                d > 0,
        ;
        vstd::arithmetic::div_mod::lemma_div_by_multiple(k, d);
    } else {
        assert(k * d < 0 && abs(k * d) == (-k) * d) by (nonlinear_arith)
            requires
                k < 0,
                d > 0,
        ;
        vstd::arithmetic::div_mod::lemma_div_by_multiple(-k, d);
    }
}

/// Truncating division is off by less than one divisor.
pub proof fn lemma_div_trunc_error(n: int, d: int)
    requires
        d > 0,
    ensures
        -d < n - d * div_trunc(n, d) < d,
{
    if n >= 0 {
        vstd::arithmetic::div_mod::lemma_fundamental_div_mod(n, d);
        vstd::arithmetic::div_mod::lemma_mod_pos_bound(n, d);
        assert(div_trunc(n, d) == n / d);
        assert(n == d * (n / d) + n % d);
    } else {
        let m = -n;
        vstd::arithmetic::div_mod::lemma_fundamental_div_mod(m, d);
        vstd::arithmetic::div_mod::lemma_mod_pos_bound(m, d);
        assert(div_trunc(n, d) == -(m / d));
        assert(m == d * (m / d) + m % d);
        assert(d * div_trunc(n, d) == -(d * (m / d))) by (nonlinear_arith)
            requires
                div_trunc(n, d) == -(m / d),
        ;
    }
}

pub open spec fn is_floor_sqrt(r: int, n: int) -> bool {
    0 <= r && r * r <= n && n < (r + 1) * (r + 1)
}

/// The integer square root, rounded down.
pub open spec fn floor_sqrt(n: int) -> int {
    choose|r: int| is_floor_sqrt(r, n)
}

pub proof fn lemma_floor_sqrt_unique(r: int, s: int, n: int)
    requires
        is_floor_sqrt(r, n),
        is_floor_sqrt(s, n),
    ensures
        r == s,
{
    if r < s {
        assert((r + 1) * (r + 1) <= s * s) by (nonlinear_arith)
            requires
                0 <= r,
                r + 1 <= s,
        ;
    } else if s < r {
        assert((s + 1) * (s + 1) <= r * r) by (nonlinear_arith)
            requires
                0 <= s,
                s + 1 <= r,
        ;
    }
}

/// Every value that is not negative has a square root.
pub proof fn lemma_floor_sqrt_exists(n: int)
    requires
        n >= 0,
    ensures
        is_floor_sqrt(floor_sqrt(n), n),
    decreases n,
{
    if n == 0 {
        assert(is_floor_sqrt(0, 0));
    } else {
        lemma_floor_sqrt_exists(n - 1);
        let r = floor_sqrt(n - 1);
        if (r + 1) * (r + 1) <= n {
            assert(n < (r + 2) * (r + 2)) by (nonlinear_arith)
                requires
                    0 <= r,
                    n - 1 < (r + 1) * (r + 1),
            ;
            assert(is_floor_sqrt(r + 1, n));
        } else {
            assert(is_floor_sqrt(r, n));
        }
    }
}

pub proof fn lemma_floor_sqrt_is(r: int, n: int)
    requires
        is_floor_sqrt(r, n),
    ensures
        floor_sqrt(n) == r,
{
    lemma_floor_sqrt_unique(floor_sqrt(n), r, n);
}

/// Truncating division by a positive divisor keeps order.
pub proof fn lemma_div_trunc_monotone(n1: int, n2: int, d: int)
    requires
        n1 <= n2,
        d > 0,
    ensures
        div_trunc(n1, d) <= div_trunc(n2, d),
{
    if n1 >= 0 {
        vstd::arithmetic::div_mod::lemma_div_is_ordered(n1, n2, d);
    } else if n2 < 0 {
        vstd::arithmetic::div_mod::lemma_div_is_ordered(-n2, -n1, d);
    } else {
        vstd::arithmetic::div_mod::lemma_div_pos_is_pos(n2, d);
        vstd::arithmetic::div_mod::lemma_div_pos_is_pos(-n1, d);
    }
}

/// Dividing by a value that is not negative keeps order.
pub proof fn lemma_over_monotone(x: Fixed, y: Fixed, a: Fixed)
    requires
        x@ <= y@,
        a@ >= 0,
    ensures
        x.over(a)@ <= y.over(a)@,
{
    if a@ > 0 {
        assert(x@ * SCALE <= y@ * SCALE) by (nonlinear_arith)
            requires
                x@ <= y@,
        ;
        lemma_div_trunc_monotone(x@ * SCALE, y@ * SCALE, a@);
    }
}

/// A product that cannot saturate is the exact product, divided by `SCALE`
/// with an error below one.
pub proof fn lemma_times_error(a: Fixed, b: Fixed)
    requires
        -4_000_000_000_000_000_000_000_000 <= a@ * b@ <= 4_000_000_000_000_000_000_000_000,
    ensures
        -SCALE < a@ * b@ - SCALE * a.times(b)@ < SCALE,
        -4_000_000_000_000_000_001 <= a.times(b)@ <= 4_000_000_000_000_000_001,
{
    lemma_div_trunc_error(a@ * b@, SCALE as int);
}

/// The absolute value of a product is bounded by the product of bounds.
pub proof fn lemma_mul_abs_bound(x: int, y: int, bx: int, by: int)
    requires
        abs(x) <= bx,
        abs(y) <= by,
    ensures
        abs(x * y) <= bx * by,
{
    assert(abs(x * y) == abs(x) * abs(y)) by (nonlinear_arith);
    assert(abs(x) * abs(y) <= bx * by) by (nonlinear_arith)
        requires
            0 <= abs(x) <= bx,
            0 <= abs(y) <= by,
    ;
}

/// Relies on num::integer::sqrt: on an unsigned integer it returns the
/// square root rounded down, `r * r <= n < (r + 1) * (r + 1)`.
#[verifier::external_body]
fn floor_sqrt_u128(n: u128) -> (r: u128)
    ensures
        r * r <= n,
        n < (r + 1) * (r + 1),
{
    num::integer::sqrt(n)
}

/// The square root of `n`, rounded down.
pub fn isqrt(n: u128) -> (r: u128)
    ensures
        is_floor_sqrt(r as int, n as int),
        r == floor_sqrt(n as int),
{
    let r = floor_sqrt_u128(n);
    proof {
        lemma_floor_sqrt_is(r as int, n as int);
    }
    r
}

/// A decimal fixed-point number: `raw` millionths.
#[derive(Clone, Copy, Debug, PartialEq, Eq, Structural)]
pub struct Fixed {
    pub raw: i64,
}

impl View for Fixed {
    type V = int;

    open spec fn view(&self) -> int {
        self.raw as int
    }
}

/// `n / d` rounded toward zero, on operands far from the ends of `i128`.
fn div_trunc_wide(n: i128, d: i128) -> (q: i128)
    requires
        d != 0,
        -0x4000_0000_0000_0000_0000_0000_0000_0000 <= n <= 0x4000_0000_0000_0000_0000_0000_0000_0000,
        -0x4000_0000_0000_0000_0000_0000_0000_0000 <= d <= 0x4000_0000_0000_0000_0000_0000_0000_0000,
    ensures
        q == div_trunc(n as int, d as int),
{
    let na: i128 = if n < 0 { -n } else { n };
    let da: i128 = if d < 0 { -d } else { d };
    let m: i128 = na / da;
    if (n < 0) == (d < 0) {
        m
    } else {
        -m
    }
}

fn saturate_wide(x: i128) -> (r: Fixed)
    ensures
        r@ == saturate(x as int),
{
    if x > LIMIT as i128 {
        Fixed { raw: LIMIT }
    } else if x < -(LIMIT as i128) {
        Fixed { raw: -LIMIT }
    } else {
        Fixed { raw: x as i64 }
    }
}

impl Fixed {
    /// The value `saturate(x)` millionths.
    pub open spec fn sat(x: int) -> Fixed {
        Fixed { raw: saturate(x) as i64 }
    }

    pub open spec fn plus(self, o: Fixed) -> Fixed {
        Fixed::sat(self@ + o@)
    }

    pub open spec fn minus(self, o: Fixed) -> Fixed {
        Fixed::sat(self@ - o@)
    }

    pub open spec fn negated(self) -> Fixed {
        Fixed::sat(-self@)
    }

    pub open spec fn times(self, o: Fixed) -> Fixed {
        Fixed::sat(div_trunc(self@ * o@, SCALE as int))
    }

    pub open spec fn over(self, o: Fixed) -> Fixed {
        if o@ == 0 {
            if self@ > 0 {
                Fixed::sat(LIMIT as int)
            } else if self@ < 0 {
                Fixed::sat(-LIMIT)
            } else {
                Fixed::sat(0)
            }
        } else {
            Fixed::sat(div_trunc(self@ * SCALE, o@))
        }
    }

    /// Square root; zero for values that are not positive.
    pub open spec fn root(self) -> Fixed {
        if self@ <= 0 {
            Fixed::sat(0)
        } else {
            Fixed::sat(floor_sqrt(self@ * SCALE))
        }
    }

    /// The value of an integer number of units.
    pub open spec fn of_int(n: int) -> Fixed {
        Fixed::sat(n * SCALE)
    }

    /// Whether the value lies in the symmetric range that every operation
    /// produces.
    pub open spec fn in_range(self) -> bool {
        -LIMIT <= self@
    }

    pub fn from_raw(raw: i64) -> (r: Fixed)
        ensures
            r == Fixed::sat(raw as int),
    {
        if raw < -LIMIT {
            Fixed { raw: -LIMIT }
        } else {
            Fixed { raw }
        }
    }

    pub fn from_int(n: i64) -> (r: Fixed)
        ensures
            r == Fixed::of_int(n as int),
    {
        proof {
            assert(-0x8000_0000_0000_0000 * 1_000_000 <= n * SCALE <= 0x8000_0000_0000_0000 * 1_000_000)
                by (nonlinear_arith)
                requires
                    -0x8000_0000_0000_0000 <= n < 0x8000_0000_0000_0000,
            ;
        }
        saturate_wide(n as i128 * SCALE as i128)
    }

    /// The quotient `num / den`, as `Fixed` division computes it.
    pub fn ratio(num: i64, den: i64) -> (r: Fixed)
        ensures
            r == Fixed::of_int(num as int).over(Fixed::of_int(den as int)),
    {
        Fixed::from_int(num) / Fixed::from_int(den)
    }

    pub fn zero() -> (r: Fixed)
        ensures
            r@ == 0,
    {
        Fixed { raw: 0 }
    }

    pub fn one() -> (r: Fixed)
        ensures
            r@ == SCALE,
    {
        Fixed { raw: SCALE }
    }

    /// One half.
    pub fn half() -> (r: Fixed)
        ensures
            r@ == SCALE / 2,
    {
        Fixed { raw: SCALE / 2 }
    }

    /// The largest value, which stands for positive infinity.
    pub fn infinity() -> (r: Fixed)
        ensures
            r@ == LIMIT,
    {
        Fixed { raw: LIMIT }
    }

    /// The smallest value, which stands for negative infinity.
    pub fn neg_infinity() -> (r: Fixed)
        ensures
            r@ == -LIMIT,
    {
        Fixed { raw: -LIMIT }
    }

    pub fn sqrt(self) -> (r: Fixed)
        ensures
            r == self.root(),
    {
        if self.raw <= 0 {
            Fixed { raw: 0 }
        } else {
            let n: u128 = self.raw as u128 * SCALE as u128;
            let s: u128 = isqrt(n);
            proof {
                assert(s < 0x100_0000_0000_0000) by (nonlinear_arith)
                    requires
                        s * s <= n,
                        n < 0x100_0000_0000_0000 * 0x100_0000_0000_0000,
                ;
            }
            Fixed { raw: s as i64 }
        }
    }

    /// The value rounded toward zero to a whole number of units.
    pub fn trunc(self) -> (r: i64)
        ensures
            r == div_trunc(self@, SCALE as int),
    {
        div_trunc_wide(self.raw as i128, SCALE as i128) as i64
    }
}

impl core::ops::Add for Fixed {
    type Output = Fixed;

    fn add(self, rhs: Fixed) -> (r: Fixed) {
        saturate_wide(self.raw as i128 + rhs.raw as i128)
    }
}

impl vstd::std_specs::ops::AddSpecImpl for Fixed {
    open spec fn obeys_add_spec() -> bool {
        true
    }

    open spec fn add_req(self, rhs: Fixed) -> bool {
        true
    }

    open spec fn add_spec(self, rhs: Fixed) -> Fixed {
        self.plus(rhs)
    }
}

impl core::ops::Sub for Fixed {
    type Output = Fixed;

    fn sub(self, rhs: Fixed) -> (r: Fixed) {
        saturate_wide(self.raw as i128 - rhs.raw as i128)
    }
}

impl vstd::std_specs::ops::SubSpecImpl for Fixed {
    open spec fn obeys_sub_spec() -> bool {
        true
    }

    open spec fn sub_req(self, rhs: Fixed) -> bool {
        true
    }

    open spec fn sub_spec(self, rhs: Fixed) -> Fixed {
        self.minus(rhs)
    }
}

impl core::ops::Neg for Fixed {
    type Output = Fixed;

    fn neg(self) -> (r: Fixed) {
        saturate_wide(-(self.raw as i128))
    }
}

impl vstd::std_specs::ops::NegSpecImpl for Fixed {
    open spec fn obeys_neg_spec() -> bool {
        true
    }

    open spec fn neg_req(self) -> bool {
        true
    }

    open spec fn neg_spec(self) -> Fixed {
        self.negated()
    }
}

impl core::ops::Mul for Fixed {
    type Output = Fixed;

    fn mul(self, rhs: Fixed) -> (r: Fixed) {
        proof {
            let a = self.raw as int;
            let b = rhs.raw as int;
            assert(-0x4000_0000_0000_0000_0000_0000_0000_0000 <= a * b
                <= 0x4000_0000_0000_0000_0000_0000_0000_0000) by (nonlinear_arith)
                requires
                    -0x8000_0000_0000_0000 <= a < 0x8000_0000_0000_0000,
                    -0x8000_0000_0000_0000 <= b < 0x8000_0000_0000_0000,
            ;
        }
        let p: i128 = self.raw as i128 * rhs.raw as i128;
        saturate_wide(div_trunc_wide(p, SCALE as i128))
    }
}

impl vstd::std_specs::ops::MulSpecImpl for Fixed {
    open spec fn obeys_mul_spec() -> bool {
        true
    }

    open spec fn mul_req(self, rhs: Fixed) -> bool {
        true
    }

    open spec fn mul_spec(self, rhs: Fixed) -> Fixed {
        self.times(rhs)
    }
}

impl core::ops::Div for Fixed {
    type Output = Fixed;

    fn div(self, rhs: Fixed) -> (r: Fixed) {
        if rhs.raw == 0 {
            if self.raw > 0 {
                Fixed { raw: LIMIT }
            } else if self.raw < 0 {
                Fixed { raw: -LIMIT }
            } else {
                Fixed { raw: 0 }
            }
        } else {
            proof {
                let a = self.raw as int;
                assert(-0x8000_0000_0000_0000 * 1_000_000 <= a * SCALE <= 0x8000_0000_0000_0000 * 1_000_000)
                    by (nonlinear_arith)
                    requires
                        -0x8000_0000_0000_0000 <= a < 0x8000_0000_0000_0000,
                ;
            }
            let n: i128 = self.raw as i128 * SCALE as i128;
            saturate_wide(div_trunc_wide(n, rhs.raw as i128))
        }
    }
}

impl vstd::std_specs::ops::DivSpecImpl for Fixed {
    open spec fn obeys_div_spec() -> bool {
        true
    }

    open spec fn div_req(self, rhs: Fixed) -> bool {
        true
    }

    open spec fn div_spec(self, rhs: Fixed) -> Fixed {
        self.over(rhs)
    }
}

impl PartialOrd for Fixed {
    fn partial_cmp(&self, other: &Fixed) -> (r: Option<core::cmp::Ordering>) {
        if self.raw < other.raw {
            Some(core::cmp::Ordering::Less)
        } else if self.raw > other.raw {
            Some(core::cmp::Ordering::Greater)
        } else {
            Some(core::cmp::Ordering::Equal)
        }
    }
}

impl vstd::std_specs::cmp::PartialOrdSpecImpl for Fixed {
    open spec fn obeys_partial_cmp_spec() -> bool {
        true
    }

    open spec fn partial_cmp_spec(&self, other: &Fixed) -> Option<core::cmp::Ordering> {
        if self@ < other@ {
            Some(core::cmp::Ordering::Less)
        } else if self@ > other@ {
            Some(core::cmp::Ordering::Greater)
        } else {
            Some(core::cmp::Ordering::Equal)
        }
    }
}

} // verus!
