//! Distributive laws of real arithmetic, for proofs of polynomial identities.
//!
//! The solver reorders and regroups the factors of a product by itself, but it
//! does not multiply out a product of sums. A proof of a polynomial identity
//! therefore calls these lemmas for each product to be multiplied out, and
//! leaves the comparison of the resulting monomials to linear arithmetic.
use vstd::prelude::*;

verus! {

pub proof fn lemma_distribute2(k: real, a: real, b: real)
    ensures
        k * (a + b) == k * a + k * b,
        k * (a - b) == k * a - k * b,
        (a + b) * k == a * k + b * k,
        (a - b) * k == a * k - b * k,
{
    assert(k * (a + b) == k * a + k * b) by (nonlinear_arith);
    assert(k * (a - b) == k * a - k * b) by (nonlinear_arith);
    assert((a + b) * k == a * k + b * k) by (nonlinear_arith);
    assert((a - b) * k == a * k - b * k) by (nonlinear_arith);
}

pub proof fn lemma_distribute3(k: real, a: real, b: real, c: real)
    ensures
        k * (a + b + c) == k * a + k * b + k * c,
        (a + b + c) * k == a * k + b * k + c * k,
{
    lemma_distribute2(k, a + b, c);
    lemma_distribute2(k, a, b);
}

/// A product with a negated factor is the negated product.
pub proof fn lemma_negate_factor(a: real, b: real)
    ensures
        a * (-b) == -(a * b),
        (-a) * b == -(a * b),
        (-a) * (-b) == a * b,
{
    assert(a * (-b) == -(a * b)) by (nonlinear_arith);
    assert((-a) * b == -(a * b)) by (nonlinear_arith);
    assert((-a) * (-b) == a * b) by (nonlinear_arith);
}

/// Every way to order and group a product of three factors gives the same number.
pub proof fn lemma_product3(a: real, b: real, c: real)
    ensures
        a * (b * c) == (a * b) * c,
        a * (c * b) == (a * b) * c,
        (a * c) * b == (a * b) * c,
        (c * a) * b == (a * b) * c,
        b * (a * c) == (a * b) * c,
        b * (c * a) == (a * b) * c,
        (b * a) * c == (a * b) * c,
        (b * c) * a == (a * b) * c,
        (c * b) * a == (a * b) * c,
        c * (a * b) == (a * b) * c,
        c * (b * a) == (a * b) * c,
{
    assert(a * (b * c) == (a * b) * c) by (nonlinear_arith);
    assert(a * (c * b) == (a * b) * c) by (nonlinear_arith);
    assert((a * c) * b == (a * b) * c) by (nonlinear_arith);
    assert((c * a) * b == (a * b) * c) by (nonlinear_arith);
    assert(b * (a * c) == (a * b) * c) by (nonlinear_arith);
    assert(b * (c * a) == (a * b) * c) by (nonlinear_arith);
    assert((b * a) * c == (a * b) * c) by (nonlinear_arith);
    assert((b * c) * a == (a * b) * c) by (nonlinear_arith);
    assert((c * b) * a == (a * b) * c) by (nonlinear_arith);
    assert(c * (a * b) == (a * b) * c) by (nonlinear_arith);
    assert(c * (b * a) == (a * b) * c) by (nonlinear_arith);
}

/// The factors of a product may be swapped.
pub proof fn lemma_commute(a: real, b: real)
    ensures
        a * b == b * a,
{
    assert(a * b == b * a) by (nonlinear_arith);
}

/// A factor is multiplied into a sum of four terms term by term, whatever the
/// signs of the terms.
pub proof fn lemma_distribute_signed(k: real, p: real, q: real, r: real, s: real)
    ensures
        (p - q - r - s) * k == p * k - q * k - r * k - s * k,
        (p + q + r - s) * k == p * k + q * k + r * k - s * k,
        (p - q + r + s) * k == p * k - q * k + r * k + s * k,
        (p + q - r + s) * k == p * k + q * k - r * k + s * k,
        (p + q + r + s) * k == p * k + q * k + r * k + s * k,
        k * (p - q - r - s) == k * p - k * q - k * r - k * s,
        k * (p + q + r - s) == k * p + k * q + k * r - k * s,
        k * (p - q + r + s) == k * p - k * q + k * r + k * s,
        k * (p + q - r + s) == k * p + k * q - k * r + k * s,
        k * (p + q + r + s) == k * p + k * q + k * r + k * s,
{
    lemma_distribute2(k, p - q - r, s);
    lemma_distribute2(k, p - q, r);
    lemma_distribute2(k, p, q);
    lemma_distribute2(k, p + q + r, s);
    lemma_distribute2(k, p + q, r);
    lemma_distribute2(k, p - q + r, s);
    lemma_distribute2(k, p + q - r, s);
}

/// Products with zero and with one.
pub proof fn lemma_zero_one(a: real)
    ensures
        a * 0real == 0real,
        0real * a == 0real,
        a * 1real == a,
        1real * a == a,
{
    assert(a * 0real == 0real) by (nonlinear_arith);
    assert(0real * a == 0real) by (nonlinear_arith);
    assert(a * 1real == a) by (nonlinear_arith);
    assert(1real * a == a) by (nonlinear_arith);
}

/// The reciprocal of a number other than zero.
pub proof fn lemma_reciprocal(n: real)
    requires
        n != 0real,
    ensures
        n * (1real / n) == 1real,
        (1real / n) * n == 1real,
        1real / n != 0real,
{
    assert(n * (1real / n) == 1real) by (nonlinear_arith)
        requires
            n != 0real,
    ;
    assert((1real / n) * n == 1real) by (nonlinear_arith)
        requires
            n != 0real,
    ;
    assert(1real / n != 0real) by (nonlinear_arith)
        requires
            n != 0real,
    ;
}

/// To divide by a number other than zero is to multiply by its reciprocal.
pub proof fn lemma_divide_is_scale(a: real, n: real)
    requires
        n != 0real,
    ensures
        a / n == a * (1real / n),
{
    assert(a / n == a * (1real / n)) by (nonlinear_arith)
        requires
            n != 0real,
    ;
}

/// A factor other than zero cancels against a division by it.
pub proof fn lemma_multiply_divide(a: real, k: real)
    requires
        k != 0real,
    ensures
        (a * k) / k == a,
{
    assert((a * k) / k == a) by (nonlinear_arith)
        requires
            k != 0real,
    ;
}

/// The square of a product is the product of the squares.
pub proof fn lemma_square_of_product(a: real, k: real)
    ensures
        (a * k) * (a * k) == (a * a) * (k * k),
{
    assert((a * k) * (a * k) == (a * a) * (k * k)) by (nonlinear_arith);
}

/// A divisor other than zero cancels against a multiplication by it.
pub proof fn lemma_divide_multiply(a: real, k: real)
    requires
        k != 0real,
    ensures
        k * (a / k) == a,
        (a / k) * k == a,
{
    assert(k * (a / k) == a) by (nonlinear_arith)
        requires
            k != 0real,
    ;
    assert((a / k) * k == a) by (nonlinear_arith)
        requires
            k != 0real,
    ;
}

/// A factor other than zero, common to both terms of a quotient, cancels; and
/// a product with it is zero just where the other factor is.
pub proof fn lemma_cancel_common_factor(a: real, b: real, k: real)
    requires
        k != 0real,
    ensures
        a * k == 0real <==> a == 0real,
        b != 0real ==> (a * k) / (b * k) == a / b,
{
    assert(a * k == 0real <==> a == 0real) by (nonlinear_arith)
        requires
            k != 0real,
    ;
    if b != 0real {
        let q = a / b;
        lemma_divide_multiply(a, b);
        lemma_product3(q, b, k);
        assert(b * k != 0real) by (nonlinear_arith)
            requires
                b != 0real,
                k != 0real,
        ;
        lemma_multiply_divide(q, b * k);
    }
}

/// A square is not negative, and it is zero just where the number is.
pub proof fn lemma_square(a: real)
    ensures
        a * a >= 0real,
        a * a == 0real <==> a == 0real,
{
    assert(a * a >= 0real && (a * a == 0real <==> a == 0real)) by (nonlinear_arith);
}

/// The square of a quotient is the quotient of the squares.
pub proof fn lemma_square_of_quotient(a: real, k: real)
    requires
        k != 0real,
    ensures
        (a / k) * (a / k) == (a * a) / (k * k),
        k * k != 0real,
{
    assert((a / k) * (a / k) == (a * a) / (k * k)) by (nonlinear_arith)
        requires
            k != 0real,
    ;
    assert(k * k != 0real) by (nonlinear_arith)
        requires
            k != 0real,
    ;
}

/// Quotients by one divisor add up to the quotient of the sum.
pub proof fn lemma_sum_of_quotients(a: real, b: real, c: real, k: real)
    requires
        k != 0real,
    ensures
        a / k + b / k + c / k == (a + b + c) / k,
        a / k + b / k == (a + b) / k,
{
    assert(a / k + b / k == (a + b) / k) by (nonlinear_arith)
        requires
            k != 0real,
    ;
    assert((a + b) / k + c / k == (a + b + c) / k) by (nonlinear_arith)
        requires
            k != 0real,
    ;
}

/// A number other than zero, divided by itself, is one.
pub proof fn lemma_divide_by_itself(k: real)
    requires
        k != 0real,
    ensures
        k / k == 1real,
{
    assert(k / k == 1real) by (nonlinear_arith)
        requires
            k != 0real,
    ;
}

/// The one root of a linear equation whose slope is not zero.
pub proof fn lemma_linear_root(a: real, k: real, t: real)
    requires
        k != 0real,
    ensures
        a + k * t == 0real <==> t == (-a) / k,
{
    assert(a + k * t == 0real <==> t == (-a) / k) by (nonlinear_arith)
        requires
            k != 0real,
    ;
}

/// The square of a sum.
pub proof fn lemma_square_of_sum(a: real, b: real)
    ensures
        (a + b) * (a + b) == a * a + 2real * (a * b) + b * b,
{
    assert((a + b) * (a + b) == a * a + 2real * (a * b) + b * b) by (nonlinear_arith);
}

} // verus!
