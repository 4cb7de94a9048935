//! Exact unsigned fractions with reducing arithmetic.
use std::cmp::Ordering;
use vstd::arithmetic::div_mod::{
    lemma_fundamental_div_mod, lemma_fundamental_div_mod_converse, lemma_mod_multiples_basic,
};
use vstd::prelude::*;

verus! {

/// Greatest common divisor, by Euclid's algorithm.
pub open spec fn gcd(a: nat, b: nat) -> nat
    decreases b,
{
    if b == 0 {
        a
    } else {
        gcd(b, a % b)
    }
}

/// A nonzero second argument gives a nonzero greatest common divisor.
pub proof fn lemma_gcd_pos(a: nat, b: nat)
    requires
        b > 0,
    ensures
        gcd(a, b) > 0,
    decreases b,
{
    if a % b != 0 {
        lemma_gcd_pos(b, a % b);
    } else {
        assert(gcd(b, 0) == b);
    }
}

/// A sum of multiples of `g` is a multiple of `g`.
proof fn lemma_combination(a: int, b: int, r: int, q: int, g: int)
    requires
        g > 0,
        b % g == 0,
        r % g == 0,
        a == q * b + r,
    ensures
        a % g == 0,
{
    lemma_fundamental_div_mod(b, g);
    lemma_fundamental_div_mod(r, g);
    let k = q * (b / g) + r / g;
    assert(a == k * g) by (nonlinear_arith)
        requires
            a == q * b + r,
            b == g * (b / g) + 0,
            r == g * (r / g) + 0,
            k == q * (b / g) + r / g,
    ;
    lemma_mod_multiples_basic(k, g);
}

/// The greatest common divisor divides both arguments.
pub proof fn lemma_gcd_divides(a: nat, b: nat)
    requires
        b > 0,
    ensures
        gcd(a, b) > 0,
        a % gcd(a, b) == 0,
        b % gcd(a, b) == 0,
    decreases b,
{
    lemma_gcd_pos(a, b);
    let g = gcd(a, b);
    let r = a % b;
    lemma_fundamental_div_mod(a as int, b as int);
    if r == 0 {
        assert(gcd(b, 0) == b);
        lemma_mod_multiples_basic(1, b as int);
        lemma_mod_multiples_basic((a / b) as int, b as int);
        assert(a == (a / b) * b) by (nonlinear_arith)
            requires
                a == b * (a / b) + 0,
        ;
    } else {
        lemma_gcd_divides(b, r);
        lemma_combination(a as int, b as int, r as int, (a / b) as int, g as int);
    }
}

/// Every common divisor divides the greatest common divisor.
pub proof fn lemma_gcd_greatest(a: nat, b: nat, c: nat)
    requires
        c > 0,
        a % c == 0,
        b % c == 0,
    ensures
        gcd(a, b) % c == 0,
    decreases b,
{
    if b > 0 {
        let r = a % b;
        lemma_fundamental_div_mod(a as int, b as int);
        let q: int = (a / b) as int;
        assert(r == (-q) * b + a) by (nonlinear_arith)
            requires
                a == b * q + r,
        ;
        lemma_combination(r as int, b as int, a as int, -q, c as int);
        lemma_gcd_greatest(b, r, c);
    }
}

/// Scaling both arguments scales the remainder.
proof fn lemma_mod_scale(a: nat, b: nat, k: nat)
    requires
        b > 0,
        k > 0,
    ensures
        (a * k) % (b * k) == (a % b) * k,
{
    lemma_fundamental_div_mod(a as int, b as int);
    let q = a / b;
    let r = a % b;
    assert(a * k == q * (b * k) + r * k) by (nonlinear_arith)
        requires
            a == b * q + r,
    ;
    assert(0 <= r * k < b * k) by (nonlinear_arith)
        requires
            0 <= r < b,
            k > 0,
    ;
    lemma_fundamental_div_mod_converse((a * k) as int, (b * k) as int, q as int, (r * k) as int);
}

/// The greatest common divisor scales with its arguments.
pub proof fn lemma_gcd_mul(a: nat, b: nat, k: nat)
    requires
        k > 0,
    ensures
        gcd((a * k) as nat, (b * k) as nat) == gcd(a, b) * k,
    decreases b,
{
    if b == 0 {
        assert(b * k == 0);
    } else {
        assert(b * k > 0) by (nonlinear_arith)
            requires
                b > 0,
                k > 0,
        ;
        lemma_mod_scale(a, b, k);
        lemma_gcd_mul(b, a % b, k);
    }
}

/// If `q` has no factor in common with `p` and divides `p * m`, it divides `m`.
proof fn lemma_coprime_divides(p: nat, q: nat, m: nat)
    requires
        q > 0,
        gcd(p, q) == 1,
        (p * m) % q == 0,
    ensures
        m % q == 0,
{
    if m > 0 {
        lemma_gcd_mul(p, q, m);
        lemma_mod_multiples_basic(m as int, q as int);
        assert((q * m) % q == 0) by (nonlinear_arith)
            requires
                (m * q) % q == 0,
        ;
        lemma_gcd_greatest((p * m) as nat, (q * m) as nat, q);
    }
}

/// Two fractions in lowest terms with the same value are the same.
proof fn lemma_lowest_unique(p1: nat, q1: nat, p2: nat, q2: nat)
    requires
        q1 > 0,
        q2 > 0,
        gcd(p1, q1) == 1,
        gcd(p2, q2) == 1,
        p1 * q2 == p2 * q1,
    ensures
        p1 == p2,
        q1 == q2,
{
    lemma_mod_multiples_basic(p2 as int, q1 as int);
    lemma_coprime_divides(p1, q1, q2);
    lemma_mod_multiples_basic(p1 as int, q2 as int);
    lemma_coprime_divides(p2, q2, q1);
    lemma_fundamental_div_mod(q2 as int, q1 as int);
    lemma_fundamental_div_mod(q1 as int, q2 as int);
    assert(q1 == q2) by (nonlinear_arith)
        requires
            q1 > 0,
            q2 > 0,
            q2 == q1 * (q2 / q1) + 0,
            q1 == q2 * (q1 / q2) + 0,
    ;
    assert(p1 == p2) by (nonlinear_arith)
        requires
            p1 * q2 == p2 * q1,
            q1 == q2,
            q1 > 0,
    ;
}

/// A result of `lowest` is in lowest terms, has a nonzero denominator and
/// has the value `n / d`.
pub proof fn lemma_lowest(n: nat, d: nat)
    requires
        d > 0,
    ensures
        lowest(n, d) matches Ok(f) ==> gcd(f.num as nat, f.den as nat) == 1 && f.den > 0 && f.num
            * d == n * f.den,
{
    let g = gcd(n, d);
    lemma_gcd_divides(n, d);
    let p = n / g;
    let q = d / g;
    lemma_fundamental_div_mod(n as int, g as int);
    lemma_fundamental_div_mod(d as int, g as int);
    lemma_gcd_mul(p, q, g);
    assert(p * g == n && q * g == d) by (nonlinear_arith)
        requires
            n == g * p + 0,
            d == g * q + 0,
    ;
    assert(gcd(p, q) == 1) by (nonlinear_arith)
        requires
            g == gcd(p, q) * g,
            g > 0,
    ;
    assert(q > 0) by (nonlinear_arith)
        requires
            q * g == d,
            d > 0,
    ;
    assert(p * d == n * q) by (nonlinear_arith)
        requires
            p * g == n,
            q * g == d,
    ;
}

/// The product of two bytes is at most `255 * 255`.
proof fn lemma_byte_product(x: u8, y: u8)
    ensures
        0 <= x * y <= 65025,
        x > 0 && y > 0 ==> x * y > 0,
{
    assert(0 <= x * y <= 65025 && (x > 0 && y > 0 ==> x * y > 0)) by (nonlinear_arith)
        requires
            x <= 255,
            y <= 255,
    ;
}

/// Why a fraction operation has no result.
#[derive(Clone, Copy, Debug, PartialEq, Eq, Structural)]
pub enum FractionError {
    /// An operand, or the result, would have a zero denominator.
    ZeroDenominator,
    /// The result in lowest terms does not fit in eight bits.
    Overflow,
    /// The result would be negative.
    Negative,
}

/// The fraction `n / d` in lowest terms, when both parts fit in eight bits.
pub open spec fn lowest(n: nat, d: nat) -> Result<Fraction, FractionError> {
    let g = gcd(n, d);
    if n / g > 255 || d / g > 255 {
        Err(FractionError::Overflow)
    } else {
        Ok(Fraction { num: (n / g) as u8, den: (d / g) as u8 })
    }
}

/// Something that can tell whether it is zero.
pub trait IsZero: Sized {
    /// Whether the value is zero.
    spec fn zero(self) -> bool;

    /// Returns whether the value is zero.
    fn is_zero(self) -> (r: bool)
        ensures
            r == self.zero(),
    ;
}

impl IsZero for u8 {
    open spec fn zero(self) -> bool {
        self == 0
    }

    fn is_zero(self) -> (r: bool) {
        self == 0
    }
}

impl IsZero for u16 {
    open spec fn zero(self) -> bool {
        self == 0
    }

    fn is_zero(self) -> (r: bool) {
        self == 0
    }
}

impl IsZero for u32 {
    open spec fn zero(self) -> bool {
        self == 0
    }

    fn is_zero(self) -> (r: bool) {
        self == 0
    }
}

impl IsZero for u64 {
    open spec fn zero(self) -> bool {
        self == 0
    }

    fn is_zero(self) -> (r: bool) {
        self == 0
    }
}

impl IsZero for u128 {
    open spec fn zero(self) -> bool {
        self == 0
    }

    fn is_zero(self) -> (r: bool) {
        self == 0
    }
}

/// An unsigned fraction; well formed when its denominator is not zero.
#[derive(Clone, Copy, Debug, PartialEq, Eq, Structural)]
pub struct Fraction {
    pub num: u8,
    pub den: u8,
}

impl Fraction {
    /// A fraction is well formed when its denominator is not zero.
    pub open spec fn wf(self) -> bool {
        self.den != 0
    }

    /// Creates a fraction from a numerator and a denominator, as given.
    pub fn new(num: u8, den: u8) -> (r: Self)
        ensures
            r.num == num,
            r.den == den,
    {
        Fraction { num, den }
    }

    /// The reciprocal, `1 / self`: numerator and denominator swapped.
    pub fn recip(self) -> (r: Self)
        ensures
            r.num == self.den,
            r.den == self.num,
    {
        Fraction { num: self.den, den: self.num }
    }
}

impl Fraction {
    /// `self + other`, in lowest terms.
    pub open spec fn spec_add(self, other: Fraction) -> Result<Fraction, FractionError> {
        if self.den == 0 || other.den == 0 {
            Err(FractionError::ZeroDenominator)
        } else {
            lowest(
                (self.num * other.den + other.num * self.den) as nat,
                (self.den * other.den) as nat,
            )
        }
    }

    /// `self - other`, in lowest terms; negative results have no value.
    pub open spec fn spec_sub(self, other: Fraction) -> Result<Fraction, FractionError> {
        if self.den == 0 || other.den == 0 {
            Err(FractionError::ZeroDenominator)
        } else if self.num * other.den < other.num * self.den {
            Err(FractionError::Negative)
        } else {
            lowest(
                (self.num * other.den - other.num * self.den) as nat,
                (self.den * other.den) as nat,
            )
        }
    }

    /// `self * other`, in lowest terms.
    pub open spec fn spec_mul(self, other: Fraction) -> Result<Fraction, FractionError> {
        if self.den == 0 || other.den == 0 {
            Err(FractionError::ZeroDenominator)
        } else {
            lowest((self.num * other.num) as nat, (self.den * other.den) as nat)
        }
    }

    /// `self / other`, that is `self` times the reciprocal of `other`.
    pub open spec fn spec_div(self, other: Fraction) -> Result<Fraction, FractionError> {
        self.spec_mul(Fraction { num: other.den, den: other.num })
    }

    /// Adds two fractions; the result is in lowest terms.
    pub fn add(self, other: Fraction) -> (r: Result<Fraction, FractionError>)
        ensures
            r == self.spec_add(other),
    {
        if self.den == 0 || other.den == 0 {
            return Err(FractionError::ZeroDenominator);
        }
        proof {
            lemma_byte_product(self.num, other.den);
            lemma_byte_product(other.num, self.den);
            lemma_byte_product(self.den, other.den);
        }
        let n1 = self.num as u32 * other.den as u32;
        let n2 = other.num as u32 * self.den as u32;
        let d = self.den as u32 * other.den as u32;
        reduce(n1 + n2, d)
    }

    /// Subtracts `other` from `self`; the result is in lowest terms.
    pub fn sub(self, other: Fraction) -> (r: Result<Fraction, FractionError>)
        ensures
            r == self.spec_sub(other),
    {
        if self.den == 0 || other.den == 0 {
            return Err(FractionError::ZeroDenominator);
        }
        proof {
            lemma_byte_product(self.num, other.den);
            lemma_byte_product(other.num, self.den);
            lemma_byte_product(self.den, other.den);
        }
        let n1 = self.num as u32 * other.den as u32;
        let n2 = other.num as u32 * self.den as u32;
        let d = self.den as u32 * other.den as u32;
        if n1 < n2 {
            return Err(FractionError::Negative);
        }
        reduce(n1 - n2, d)
    }

    /// Multiplies two fractions; the result is in lowest terms.
    pub fn mul(self, other: Fraction) -> (r: Result<Fraction, FractionError>)
        ensures
            r == self.spec_mul(other),
    {
        if self.den == 0 || other.den == 0 {
            return Err(FractionError::ZeroDenominator);
        }
        proof {
            lemma_byte_product(self.num, other.num);
            lemma_byte_product(self.den, other.den);
        }
        let n = self.num as u32 * other.num as u32;
        let d = self.den as u32 * other.den as u32;
        reduce(n, d)
    }

    /// How `self` compares with `other` by value: `self.num * other.den`
    /// against `other.num * self.den`. Fractions with a zero denominator do
    /// not compare.
    pub open spec fn spec_cmp(self, other: Fraction) -> Option<Ordering> {
        if self.den == 0 || other.den == 0 {
            None
        } else if self.num * other.den < other.num * self.den {
            Some(Ordering::Less)
        } else if self.num * other.den == other.num * self.den {
            Some(Ordering::Equal)
        } else {
            Some(Ordering::Greater)
        }
    }

    /// `n * self` truncated toward zero, when the result fits in an `i32`.
    pub open spec fn spec_mul_int(self, n: i32) -> Option<i32> {
        let m = (if n < 0 { -n } else { n as int }) * self.num / (self.den as int);
        let v = if n < 0 { -m } else { m };
        if self.den == 0 || v < i32::MIN || v > i32::MAX {
            None
        } else {
            Some(v as i32)
        }
    }

    /// Compares two fractions by value, by cross multiplication.
    pub fn partial_cmp(&self, other: &Fraction) -> (r: Option<Ordering>)
        ensures
            r == self.spec_cmp(*other),
    {
        if self.den == 0 || other.den == 0 {
            return None;
        }
        proof {
            lemma_byte_product(self.num, other.den);
            lemma_byte_product(other.num, self.den);
        }
        let a = self.num as u32 * other.den as u32;
        let b = other.num as u32 * self.den as u32;
        if a < b {
            Some(Ordering::Less)
        } else if a == b {
            Some(Ordering::Equal)
        } else {
            Some(Ordering::Greater)
        }
    }

    /// Multiplies an integer by this fraction, truncating toward zero.
    pub fn mul_int(self, n: i32) -> (r: Option<i32>)
        ensures
            r == self.spec_mul_int(n),
    {
        if self.den == 0 {
            return None;
        }
        let magnitude: u64 = if n < 0 { (-(n as i64)) as u64 } else { n as u64 };
        assert(magnitude * self.num <= 2147483648 * 255) by (nonlinear_arith)
            requires
                magnitude <= 2147483648,
                self.num <= 255,
        ;
        let m = magnitude * self.num as u64 / self.den as u64;
        assert(m <= magnitude * self.num) by (nonlinear_arith)
            requires
                m == (magnitude * self.num) / (self.den as int),
                self.den >= 1,
        ;
        if n < 0 {
            if m > 2147483648 {
                None
            } else {
                Some((-(m as i64)) as i32)
            }
        } else {
            if m > 2147483647 {
                None
            } else {
                Some(m as i32)
            }
        }
    }

    /// Divides `self` by `other`: multiplies by its reciprocal.
    pub fn div(self, other: Fraction) -> (r: Result<Fraction, FractionError>)
        ensures
            r == self.spec_div(other),
    {
        self.mul(other.recip())
    }
}

/// Addition commutes: `a + b == b + a`.
pub proof fn lemma_add_commutative(a: Fraction, b: Fraction)
    ensures
        a.spec_add(b) == b.spec_add(a),
{
    assert(a.den * b.den == b.den * a.den) by (nonlinear_arith);
}

/// Every result of adding, subtracting, multiplying or dividing two
/// fractions is in lowest terms, with a nonzero denominator.
pub proof fn lemma_results_in_lowest_terms(a: Fraction, b: Fraction)
    ensures
        a.spec_add(b) matches Ok(r) ==> gcd(r.num as nat, r.den as nat) == 1 && r.den > 0,
        a.spec_sub(b) matches Ok(r) ==> gcd(r.num as nat, r.den as nat) == 1 && r.den > 0,
        a.spec_mul(b) matches Ok(r) ==> gcd(r.num as nat, r.den as nat) == 1 && r.den > 0,
        a.spec_div(b) matches Ok(r) ==> gcd(r.num as nat, r.den as nat) == 1 && r.den > 0,
{
    lemma_byte_product(a.num, b.den);
    lemma_byte_product(b.num, a.den);
    lemma_byte_product(a.den, b.den);
    lemma_byte_product(a.num, b.num);
    lemma_byte_product(a.den, b.num);
    if a.den != 0 && b.den != 0 {
        lemma_lowest((a.num * b.den + b.num * a.den) as nat, (a.den * b.den) as nat);
        lemma_lowest((a.num * b.den - b.num * a.den) as nat, (a.den * b.den) as nat);
        lemma_lowest((a.num * b.num) as nat, (a.den * b.den) as nat);
    }
    if a.den != 0 && b.num != 0 {
        lemma_lowest((a.num * b.den) as nat, (a.den * b.num) as nat);
    }
}

/// From `x = p / q` and `l = x + c` by value, `l = p / q + c` by value.
proof fn lemma_sum_value(ln: int, ld: int, xn: int, xd: int, cn: int, cd: int, p: int, q: int)
    requires
        xn * q == p * xd,
        ln * (xd * cd) == (xn * cd + cn * xd) * ld,
        xd > 0,
    ensures
        ln * (q * cd) == (p * cd + cn * q) * ld,
{
    assert((xn * cd + cn * xd) * q == xd * (p * cd + cn * q)) by (nonlinear_arith)
        requires
            xn * q == p * xd,
    ;
    let e = xn * cd + cn * xd;
    let f = p * cd + cn * q;
    assert(ln * (xd * cd) * q == e * ld * q);
    assert(ln * (xd * cd) * q == xd * (ln * (q * cd))) by (nonlinear_arith);
    assert(e * ld * q == (e * q) * ld) by (nonlinear_arith);
    assert((e * q) * ld == (xd * f) * ld);
    assert((xd * f) * ld == xd * (f * ld)) by (nonlinear_arith);
    assert(xd * (ln * (q * cd)) == xd * ((p * cd + cn * q) * ld));
    assert(ln * (q * cd) == (p * cd + cn * q) * ld) by (nonlinear_arith)
        requires
            xd * (ln * (q * cd)) == xd * ((p * cd + cn * q) * ld),
            xd > 0,
    ;
}

/// A sum that exists is in lowest terms and has the value of the sum.
proof fn lemma_add_value(x: Fraction, c: Fraction)
    requires
        x.spec_add(c) is Ok,
    ensures
        x.den > 0,
        c.den > 0,
        x.spec_add(c).unwrap().den > 0,
        gcd(x.spec_add(c).unwrap().num as nat, x.spec_add(c).unwrap().den as nat) == 1,
        x.spec_add(c).unwrap().num * (x.den * c.den) == (x.num * c.den + c.num * x.den)
            * x.spec_add(c).unwrap().den,
{
    lemma_byte_product(x.num, c.den);
    lemma_byte_product(c.num, x.den);
    lemma_byte_product(x.den, c.den);
    lemma_lowest((x.num * c.den + c.num * x.den) as nat, (x.den * c.den) as nat);
}

/// Addition is associative: `(a + b) + c == a + (b + c)`, wherever all the
/// sums exist (a sum on either side may overflow while the other does not).
pub proof fn lemma_add_associative(a: Fraction, b: Fraction, c: Fraction)
    requires
        a.spec_add(b) is Ok,
        a.spec_add(b).unwrap().spec_add(c) is Ok,
        b.spec_add(c) is Ok,
        a.spec_add(b.spec_add(c).unwrap()) is Ok,
    ensures
        a.spec_add(b).unwrap().spec_add(c) == a.spec_add(b.spec_add(c).unwrap()),
{
    let x = a.spec_add(b).unwrap();
    let l = x.spec_add(c).unwrap();
    let y = b.spec_add(c).unwrap();
    let r = a.spec_add(y).unwrap();
    lemma_add_value(a, b);
    lemma_add_value(x, c);
    lemma_add_value(b, c);
    lemma_add_value(a, y);
    let an = a.num as int;
    let ad = a.den as int;
    let bn = b.num as int;
    let bd = b.den as int;
    let cn = c.num as int;
    let cd = c.den as int;
    let d = ad * bd * cd;
    let n = an * bd * cd + bn * ad * cd + cn * ad * bd;
    lemma_sum_value(
        l.num as int,
        l.den as int,
        x.num as int,
        x.den as int,
        cn,
        cd,
        an * bd + bn * ad,
        ad * bd,
    );
    assert((ad * bd) * cd == d) by (nonlinear_arith)
        requires
            d == ad * bd * cd,
    ;
    assert((an * bd + bn * ad) * cd + cn * (ad * bd) == n) by (nonlinear_arith)
        requires
            n == an * bd * cd + bn * ad * cd + cn * ad * bd,
    ;
    assert(l.num * d == n * l.den);
    assert(r.num * (y.den * ad) == (y.num * ad + an * y.den) * r.den) by (nonlinear_arith)
        requires
            r.num * (ad * y.den) == (an * y.den + y.num * ad) * r.den,
    ;
    lemma_sum_value(
        r.num as int,
        r.den as int,
        y.num as int,
        y.den as int,
        an,
        ad,
        bn * cd + cn * bd,
        bd * cd,
    );
    assert((bd * cd) * ad == d) by (nonlinear_arith)
        requires
            d == ad * bd * cd,
    ;
    assert((bn * cd + cn * bd) * ad + an * (bd * cd) == n) by (nonlinear_arith)
        requires
            n == an * bd * cd + bn * ad * cd + cn * ad * bd,
    ;
    assert(r.num * d == n * r.den);
    assert(d > 0) by (nonlinear_arith)
        requires
            ad > 0,
            bd > 0,
            cd > 0,
            d == ad * bd * cd,
    ;
    assert(l.num * r.den == r.num * l.den) by (nonlinear_arith)
        requires
            l.num * d == n * l.den,
            r.num * d == n * r.den,
            d > 0,
    ;
    lemma_lowest_unique(l.num as nat, l.den as nat, r.num as nat, r.den as nat);
}

/// The fraction `n / d` reduced by the greatest common divisor of its parts.
fn reduce(n: u32, d: u32) -> (r: Result<Fraction, FractionError>)
    requires
        d > 0,
    ensures
        r == lowest(n as nat, d as nat),
{
    let g = gcd_i(n, d);
    proof {
        lemma_gcd_pos(n as nat, d as nat);
    }
    let num = n / g;
    let den = d / g;
    if num > 255 || den > 255 {
        Err(FractionError::Overflow)
    } else {
        Ok(Fraction { num: num as u8, den: den as u8 })
    }
}

impl IsZero for Fraction {
    open spec fn zero(self) -> bool {
        self.num == 0 && self.den != 0
    }

    fn is_zero(self) -> (r: bool) {
        self.num == 0 && self.den != 0
    }
}

/// Iterative greatest common divisor.
pub fn gcd_i(a: u32, b: u32) -> (r: u32)
    ensures
        r as nat == gcd(a as nat, b as nat),
{
    let ghost g = gcd(a as nat, b as nat);
    let mut x = a;
    let mut y = b;
    if x.is_zero() {
        proof {
            if y != 0 {
                assert(0nat % (y as nat) == 0) by (nonlinear_arith) requires y != 0;
                assert(gcd(y as nat, 0) == y);
            }
        }
        return y;
    } else if y.is_zero() {
        return x;
    }
    loop
        invariant
            x != 0,
            y != 0,
            g == gcd(a as nat, b as nat),
            gcd(x as nat, y as nat) == g,
        decreases y,
    {
        let ghost (x1, y1) = (x, y);
        x %= y;
        assert(gcd(x1 as nat, y1 as nat) == gcd(y1 as nat, x as nat));
        if x.is_zero() {
            assert(gcd(y as nat, 0) == y);
            return y;
        }
        y %= x;
        assert(gcd(y1 as nat, x as nat) == gcd(x as nat, y as nat));
        if y.is_zero() {
            assert(gcd(x as nat, 0) == x);
            return x;
        }
    }
}

} // verus!
