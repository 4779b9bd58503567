//! Exact scalars: rational numbers of arbitrary precision.
//!
//! Every geometric quantity of this library is a `Scalar`. Its view is the real
//! number it stands for, and its arithmetic is exact: sums, products and
//! quotients are never rounded, so tests such as "is this dot product zero"
//! have one answer.
use crate::utils::integer::Integer;
use crate::utils::natural::{
    coprime, lemma_coprime_negated, lemma_coprime_to_one, lemma_exact_division,
    lemma_quotients_coprime, Natural, Sign,
};
use vstd::arithmetic::power2::{lemma_pow2_pos, pow2};
use vstd::prelude::*;
use vstd::std_specs::cmp::PartialEqSpecImpl;

verus! {

/// The quotient of two integers as a real number.
pub open spec fn ratio(n: int, d: int) -> real {
    (n as real) / (d as real)
}

/// The sign of a real number.
pub open spec fn real_sign(x: real) -> Sign {
    if x < 0real {
        Sign::Negative
    } else if x == 0real {
        Sign::Zero
    } else {
        Sign::Positive
    }
}

proof fn lemma_ratio_add(a: int, b: int, c: int, d: int)
    requires
        b > 0,
        d > 0,
    ensures
        b * d > 0,
        ratio(a, b) + ratio(c, d) == ratio(a * d + c * b, b * d),
{
    assert(b * d > 0) by (nonlinear_arith)
        requires
            b > 0,
            d > 0,
    ;
    assert((a as real) / (b as real) + (c as real) / (d as real) == ((a * d + c * b) as real) / ((b
        * d) as real)) by (nonlinear_arith)
        requires
            b > 0,
            d > 0,
    ;
}

proof fn lemma_ratio_mul(a: int, b: int, c: int, d: int)
    requires
        b > 0,
        d > 0,
    ensures
        b * d > 0,
        ratio(a, b) * ratio(c, d) == ratio(a * c, b * d),
{
    assert(b * d > 0) by (nonlinear_arith)
        requires
            b > 0,
            d > 0,
    ;
    assert(((a as real) / (b as real)) * ((c as real) / (d as real)) == ((a * c) as real) / ((b
        * d) as real)) by (nonlinear_arith)
        requires
            b > 0,
            d > 0,
    ;
}

proof fn lemma_ratio_neg(a: int, b: int)
    requires
        b > 0,
    ensures
        -ratio(a, b) == ratio(-a, b),
{
    assert(-((a as real) / (b as real)) == ((-a) as real) / (b as real)) by (nonlinear_arith)
        requires
            b > 0,
    ;
}

proof fn lemma_ratio_sign(a: int, b: int)
    requires
        b > 0,
    ensures
        ratio(a, b) < 0real <==> a < 0,
        ratio(a, b) == 0real <==> a == 0,
        ratio(a, b) > 0real <==> a > 0,
{
    assert(((a as real) / (b as real) < 0real <==> a < 0) && ((a as real) / (b as real) == 0real
        <==> a == 0)) by (nonlinear_arith)
        requires
            b > 0,
    ;
}

proof fn lemma_ratio_div(a: int, b: int, c: int, d: int)
    requires
        b > 0,
        d > 0,
        c != 0,
    ensures
        c > 0 ==> b * c > 0 && ratio(a, b) / ratio(c, d) == ratio(a * d, b * c),
        c < 0 ==> b * (-c) > 0 && ratio(a, b) / ratio(c, d) == ratio(-(a * d), b * (-c)),
{
    if c > 0 {
        assert(b * c > 0) by (nonlinear_arith)
            requires
                b > 0,
                c > 0,
        ;
        assert(((a as real) / (b as real)) / ((c as real) / (d as real)) == ((a * d) as real) / ((b
            * c) as real)) by (nonlinear_arith)
            requires
                b > 0,
                d > 0,
                c > 0,
        ;
    } else {
        assert(b * (-c) > 0) by (nonlinear_arith)
            requires
                b > 0,
                c < 0,
        ;
        assert(((a as real) / (b as real)) / ((c as real) / (d as real)) == ((-(a * d)) as real)
            / ((b * (-c)) as real)) by (nonlinear_arith)
            requires
                b > 0,
                d > 0,
                c < 0,
        ;
    }
}

/// A factor common to both terms of a quotient cancels.
proof fn lemma_ratio_cancel(a: int, b: int, g: int)
    requires
        b > 0,
        g > 0,
    ensures
        b * g > 0,
        ratio(a * g, b * g) == ratio(a, b),
        ratio(-(a * g), b * g) == ratio(-a, b),
{
    assert(b * g > 0) by (nonlinear_arith)
        requires
            b > 0,
            g > 0,
    ;
    assert(((a * g) as real) / ((b * g) as real) == (a as real) / (b as real))
        by (nonlinear_arith)
        requires
            b > 0,
            g > 0,
    ;
    assert(((-(a * g)) as real) / ((b * g) as real) == ((-a) as real) / (b as real))
        by (nonlinear_arith)
        requires
            b > 0,
            g > 0,
    ;
}

proof fn lemma_ratio_one(a: int)
    ensures
        ratio(a, 1) == a as real,
{
    assert((a as real) / (1int as real) == a as real) by (nonlinear_arith);
}

/// Whether the bits of an IEEE 754 double stand for a number: neither an
/// infinity nor a NaN, whose exponent field holds all ones.
pub open spec fn double_is_finite(bits: u64) -> bool {
    (bits / 0x10_0000_0000_0000) % 2048 != 2047
}

/// The significand of the double with the bits given, as an integer: the
/// fraction field, with the hidden bit where the exponent field is not zero.
pub open spec fn double_significand(bits: u64) -> int {
    if (bits / 0x10_0000_0000_0000) % 2048 == 0 {
        (bits % 0x10_0000_0000_0000) as int
    } else {
        bits % 0x10_0000_0000_0000 + 0x10_0000_0000_0000
    }
}

/// The exponent of two that goes with `double_significand`, plus 1075.
pub open spec fn double_exponent(bits: u64) -> int {
    if (bits / 0x10_0000_0000_0000) % 2048 == 0 {
        1
    } else {
        ((bits / 0x10_0000_0000_0000) % 2048) as int
    }
}

/// The number that the bits of a finite IEEE 754 double stand for.
pub open spec fn double_value(bits: u64) -> real {
    let m = double_significand(bits);
    let e = double_exponent(bits);
    let magnitude = if e >= 1075 {
        (m * pow2((e - 1075) as nat)) as real
    } else {
        ratio(m, pow2((1075 - e) as nat) as int)
    };
    if bits >= 0x8000_0000_0000_0000 {
        -magnitude
    } else {
        magnitude
    }
}

/// An exact rational number.
#[derive(Debug)]
pub struct Scalar {
    num: Integer,
    den: Natural,
}

impl View for Scalar {
    type V = real;

    closed spec fn view(&self) -> real {
        ratio(self.num@, self.den@ as int)
    }
}

impl Clone for Scalar {
    fn clone(&self) -> (r: Self)
        ensures
            r@ == self@,
    {
        proof {
            use_type_invariant(self);
        }
        Scalar { num: self.num.clone(), den: self.den.clone() }
    }
}

impl PartialEq for Scalar {
    /// Two scalars are equal when they stand for the same number.
    fn eq(&self, other: &Self) -> (r: bool) {
        self.equals(other)
    }
}

impl PartialEqSpecImpl for Scalar {
    open spec fn obeys_eq_spec() -> bool {
        true
    }

    open spec fn eq_spec(&self, other: &Self) -> bool {
        self@ == other@
    }
}

impl Scalar {
    /// The denominator is positive, and the quotient is in lowest terms.
    #[verifier::type_invariant]
    spec fn well_formed(&self) -> bool {
        self.den@ > 0 && coprime(self.num@, self.den@ as int)
    }

    /// The quotient `num / den` in lowest terms.
    fn lowest_terms(num: Integer, den: Natural) -> (r: Scalar)
        requires
            den@ > 0,
        ensures
            r@ == ratio(num@, den@ as int),
    {
        let size: Natural = num.abs();
        let g: Natural = Natural::gcd(&size, &den);
        let (top, top_rest) = size.div_rem(&g);
        let (bottom, bottom_rest) = den.div_rem(&g);
        proof {
            lemma_exact_division(g@ as int, size@ as int, top@ as int, top_rest@ as int);
            lemma_exact_division(g@ as int, den@ as int, bottom@ as int, bottom_rest@ as int);
            assert(bottom@ > 0) by (nonlinear_arith)
                requires
                    bottom@ * g@ > 0,
                    g@ > 0,
            ;
            lemma_ratio_cancel(top@ as int, bottom@ as int, g@ as int);
            lemma_quotients_coprime(
                g@ as int,
                size@ as int,
                den@ as int,
                top@ as int,
                bottom@ as int,
            );
            lemma_coprime_negated(top@ as int, bottom@ as int);
        }
        Scalar { num: Integer::from_sign_magnitude(num.is_negative(), top), den: bottom }
    }

    /// The number zero.
    pub fn zero() -> (r: Scalar)
        ensures
            r@ == 0real,
    {
        Scalar::from_int(0)
    }

    /// The number one.
    pub fn one() -> (r: Scalar)
        ensures
            r@ == 1real,
    {
        Scalar::from_int(1)
    }

    /// The integer `n`.
    pub fn from_int(n: i64) -> (r: Scalar)
        ensures
            r@ == n as real,
    {
        proof {
            lemma_ratio_one(n as int);
            lemma_coprime_to_one(n as int);
        }
        Scalar { num: Integer::from_i64(n), den: Natural::from_u64(1) }
    }

    /// The exact value of the IEEE 754 double with the bits given, or nothing
    /// where the bits stand for an infinity or a NaN.
    pub fn from_double_bits(bits: u64) -> (r: Option<Scalar>)
        ensures
            r is Some <==> double_is_finite(bits),
            r is Some ==> r->Some_0@ == double_value(bits),
    {
        let field: u64 = (bits / 0x10_0000_0000_0000) % 2048;
        let fraction: u64 = bits % 0x10_0000_0000_0000;
        let negative: bool = bits >= 0x8000_0000_0000_0000;
        if field == 2047 {
            return None;
        }
        let significand: u64 = if field == 0 {
            fraction
        } else {
            fraction + 0x10_0000_0000_0000
        };
        let exponent: u32 = if field == 0 {
            1
        } else {
            field as u32
        };
        let m: Natural = Natural::from_u64(significand);
        if exponent >= 1075 {
            let num: Natural = m.mul(&Natural::pow2(exponent - 1075));
            proof {
                lemma_ratio_one(num@ as int);
                lemma_ratio_neg(num@ as int, 1);
                lemma_ratio_one(-(num@ as int));
                lemma_coprime_to_one(num@ as int);
                lemma_coprime_to_one(-(num@ as int));
            }
            Some(
                Scalar {
                    num: Integer::from_sign_magnitude(negative, num),
                    den: Natural::from_u64(1),
                },
            )
        } else {
            let den: Natural = Natural::pow2(1075 - exponent);
            proof {
                lemma_pow2_pos((1075 - exponent) as nat);
                lemma_ratio_neg(m@ as int, den@ as int);
            }
            Some(Scalar::lowest_terms(Integer::from_sign_magnitude(negative, m), den))
        }
    }

    /// The quotient `num / den`, or nothing where `den` is zero.
    pub fn from_ratio(num: i64, den: i64) -> (r: Option<Scalar>)
        ensures
            den == 0 <==> r is None,
            den != 0 ==> r->Some_0@ == ratio(num as int, den as int),
    {
        if den == 0 {
            None
        } else {
            let n: Scalar = Scalar::from_int(num);
            let d: Scalar = Scalar::from_int(den);
            Some(n.div(&d))
        }
    }

    /// The quotient of an integer and a natural number, or nothing where the
    /// natural number is zero.
    pub fn from_parts(num: Integer, den: Natural) -> (r: Option<Scalar>)
        ensures
            den@ == 0 <==> r is None,
            den@ != 0 ==> r->Some_0@ == ratio(num@, den@ as int),
    {
        if den.is_zero() {
            None
        } else {
            Some(Scalar::lowest_terms(num, den))
        }
    }

    /// The numerator of the number written as a quotient in lowest terms,
    /// with a positive denominator.
    pub closed spec fn numerator_spec(&self) -> int {
        self.num@
    }

    /// The denominator of the number written as a quotient in lowest terms;
    /// it is positive.
    pub closed spec fn denominator_spec(&self) -> int {
        self.den@ as int
    }

    /// The numerator of the number written as a quotient in lowest terms.
    pub fn numerator(&self) -> (r: Integer)
        ensures
            r@ == self.numerator_spec(),
            self.denominator_spec() > 0,
            coprime(self.numerator_spec(), self.denominator_spec()),
            self@ == ratio(self.numerator_spec(), self.denominator_spec()),
    {
        proof {
            use_type_invariant(self);
        }
        self.num.clone()
    }

    /// The denominator of the number written as a quotient in lowest terms.
    pub fn denominator(&self) -> (r: Natural)
        ensures
            r@ == self.denominator_spec(),
            self.denominator_spec() > 0,
            coprime(self.numerator_spec(), self.denominator_spec()),
            self@ == ratio(self.numerator_spec(), self.denominator_spec()),
    {
        proof {
            use_type_invariant(self);
        }
        self.den.clone()
    }

    pub fn signum(&self) -> (r: Sign)
        ensures
            r == real_sign(self@),
    {
        proof {
            use_type_invariant(self);
            lemma_ratio_sign(self.num@, self.den@ as int);
        }
        self.num.signum()
    }

    pub fn is_zero(&self) -> (r: bool)
        ensures
            r == (self@ == 0real),
    {
        proof {
            use_type_invariant(self);
            lemma_ratio_sign(self.num@, self.den@ as int);
        }
        self.num.is_zero()
    }

    pub fn is_negative(&self) -> (r: bool)
        ensures
            r == (self@ < 0real),
    {
        proof {
            use_type_invariant(self);
            lemma_ratio_sign(self.num@, self.den@ as int);
        }
        self.num.is_negative()
    }

    pub fn is_positive(&self) -> (r: bool)
        ensures
            r == (self@ > 0real),
    {
        !self.is_zero() && !self.is_negative()
    }

    pub fn neg(&self) -> (r: Scalar)
        ensures
            r@ == -self@,
    {
        proof {
            use_type_invariant(self);
            lemma_ratio_neg(self.num@, self.den@ as int);
            lemma_coprime_negated(self.num@, self.den@ as int);
        }
        Scalar { num: self.num.neg(), den: self.den.clone() }
    }

    pub fn add(&self, other: &Scalar) -> (r: Scalar)
        ensures
            r@ == self@ + other@,
    {
        proof {
            use_type_invariant(self);
            use_type_invariant(other);
            lemma_ratio_add(self.num@, self.den@ as int, other.num@, other.den@ as int);
        }
        let left: Integer = self.num.mul(&Integer::from_natural(other.den.clone()));
        let right: Integer = other.num.mul(&Integer::from_natural(self.den.clone()));
        Scalar::lowest_terms(left.add(&right), self.den.mul(&other.den))
    }

    pub fn sub(&self, other: &Scalar) -> (r: Scalar)
        ensures
            r@ == self@ - other@,
    {
        let minus: Scalar = other.neg();
        self.add(&minus)
    }

    pub fn mul(&self, other: &Scalar) -> (r: Scalar)
        ensures
            r@ == self@ * other@,
    {
        proof {
            use_type_invariant(self);
            use_type_invariant(other);
            lemma_ratio_mul(self.num@, self.den@ as int, other.num@, other.den@ as int);
        }
        Scalar::lowest_terms(self.num.mul(&other.num), self.den.mul(&other.den))
    }

    /// The quotient of a number and one that is not zero.
    pub fn div(&self, other: &Scalar) -> (r: Scalar)
        requires
            other@ != 0real,
        ensures
            r@ == self@ / other@,
    {
        proof {
            use_type_invariant(self);
            use_type_invariant(other);
            lemma_ratio_sign(other.num@, other.den@ as int);
            lemma_ratio_div(self.num@, self.den@ as int, other.num@, other.den@ as int);
        }
        let top: Integer = self.num.mul(&Integer::from_natural(other.den.clone()));
        let den: Natural = self.den.mul(&other.num.abs());
        if other.num.is_negative() {
            Scalar::lowest_terms(top.neg(), den)
        } else {
            Scalar::lowest_terms(top, den)
        }
    }

    /// The sign of `self - other`.
    pub fn compare(&self, other: &Scalar) -> (r: Sign)
        ensures
            r == real_sign(self@ - other@),
    {
        let difference: Scalar = self.sub(other);
        difference.signum()
    }

    /// Whether the two stand for the same number.
    pub fn equals(&self, other: &Scalar) -> (r: bool)
        ensures
            r == (self@ == other@),
    {
        let difference: Scalar = self.sub(other);
        difference.is_zero()
    }

    pub fn less_than(&self, other: &Scalar) -> (r: bool)
        ensures
            r == (self@ < other@),
    {
        let difference: Scalar = self.sub(other);
        difference.is_negative()
    }

    pub fn at_most(&self, other: &Scalar) -> (r: bool)
        ensures
            r == (self@ <= other@),
    {
        let difference: Scalar = other.sub(self);
        !difference.is_negative()
    }
}

} // verus!
