//! Arbitrary-precision natural numbers, stored as little-endian 32-bit limbs.
use vstd::arithmetic::power2::{
    lemma2_to64, lemma_pow2_adds, lemma_pow2_strictly_increases, lemma_pow2_unfold, pow2,
};
use vstd::prelude::*;

verus! {

/// The weight of limb `k`: the radix `2^32` raised to the power `k`.
pub open spec fn weight(k: nat) -> nat
    decreases k,
{
    if k == 0 {
        1
    } else {
        0x1_0000_0000 * weight((k - 1) as nat)
    }
}

/// The number that a little-endian sequence of limbs stands for.
pub open spec fn limbs_value(s: Seq<u32>) -> nat
    decreases s.len(),
{
    if s.len() == 0 {
        0
    } else {
        limbs_value(s.drop_last()) + (s.last() as nat) * weight((s.len() - 1) as nat)
    }
}

/// A limb sequence is canonical when its most significant limb is not zero.
pub open spec fn canonical(s: Seq<u32>) -> bool {
    s.len() > 0 ==> s.last() != 0
}

/// Limb `i` of `s`, reading zero beyond its end.
spec fn limb_at(s: Seq<u32>, i: int) -> nat {
    if 0 <= i < s.len() {
        s[i] as nat
    } else {
        0
    }
}

/// The value of the lowest `i` limbs of `s`.
spec fn low_value(s: Seq<u32>, i: int) -> nat {
    if i >= s.len() {
        limbs_value(s)
    } else {
        limbs_value(s.take(i))
    }
}

/// Every weight is positive.
proof fn lemma_weight_positive(k: nat)
    ensures
        weight(k) > 0,
    decreases k,
{
    if k > 0 {
        lemma_weight_positive((k - 1) as nat);
    }
}

/// The weight of a sum of positions is the product of the weights.
proof fn lemma_weight_add(a: nat, b: nat)
    ensures
        weight(a + b) == weight(a) * weight(b),
    decreases a,
{
    if a == 0 {
        assert(weight(0) * weight(b) == weight(b)) by (nonlinear_arith)
            requires
                weight(0) == 1,
        ;
    } else {
        let p = (a - 1) as nat;
        lemma_weight_add(p, b);
        assert(weight(a + b) == 0x1_0000_0000 * weight((a + b - 1) as nat));
        assert((a + b - 1) as nat == p + b);
        assert(0x1_0000_0000 * (weight(p) * weight(b)) == (0x1_0000_0000 * weight(p)) * weight(b))
            by (nonlinear_arith);
    }
}

/// A higher limb does not weigh less.
proof fn lemma_weight_monotone(a: nat, b: nat)
    requires
        a <= b,
    ensures
        weight(a) <= weight(b),
    decreases b,
{
    if a < b {
        lemma_weight_monotone(a, (b - 1) as nat);
        lemma_weight_positive((b - 1) as nat);
    }
}

/// Putting a limb above a limb sequence adds the limb times its weight.
proof fn lemma_value_push(s: Seq<u32>, x: u32)
    ensures
        limbs_value(s.push(x)) == limbs_value(s) + (x as nat) * weight(s.len()),
{
    assert(s.push(x).drop_last() =~= s);
}

/// One more limb adds its value times its weight to the value of the limbs below it.
proof fn lemma_low_step(s: Seq<u32>, i: int)
    requires
        0 <= i,
    ensures
        low_value(s, i + 1) == low_value(s, i) + limb_at(s, i) * weight(i as nat),
{
    if i < s.len() {
        assert(s.take(i + 1) =~= s.take(i).push(s[i]));
        lemma_value_push(s.take(i), s[i]);
        if i + 1 == s.len() {
            assert(s.take(i + 1) =~= s);
        }
    } else {
        assert(0 * weight(i as nat) == 0) by (nonlinear_arith);
    }
}

/// No limbs have the value zero.
proof fn lemma_low_zero(s: Seq<u32>)
    ensures
        low_value(s, 0) == 0,
{
    if s.len() > 0 {
        assert(s.take(0) =~= Seq::<u32>::empty());
    }
}

/// A limb sequence stands for a number under the weight of the next limb.
proof fn lemma_value_bound(s: Seq<u32>)
    ensures
        limbs_value(s) < weight(s.len()),
    decreases s.len(),
{
    if s.len() > 0 {
        let w = weight((s.len() - 1) as nat);
        lemma_value_bound(s.drop_last());
        assert((s.last() as nat) * w <= 0xffff_ffff * w) by (nonlinear_arith)
            requires
                s.last() <= 0xffff_ffff,
                w >= 0,
        ;
    }
}

/// A canonical limb sequence stands for a number of at least the weight of its last limb.
proof fn lemma_canonical_lower_bound(s: Seq<u32>)
    requires
        canonical(s),
        s.len() > 0,
    ensures
        limbs_value(s) >= weight((s.len() - 1) as nat),
{
    let w = weight((s.len() - 1) as nat);
    assert((s.last() as nat) * w >= w) by (nonlinear_arith)
        requires
            s.last() >= 1,
            w >= 0,
    ;
}

/// Strips zero limbs from the most significant end.
fn trim(v: Vec<u32>) -> (r: Vec<u32>)
    ensures
        canonical(r@),
        limbs_value(r@) == limbs_value(v@),
        r@.len() <= v@.len(),
{
    let mut r = v;
    while r.len() > 0 && r[r.len() - 1] == 0
        invariant
            limbs_value(r@) == limbs_value(v@),
            r@.len() <= v@.len(),
        decreases r.len(),
    {
        proof {
            assert(0 * weight((r@.len() - 1) as nat) == 0) by (nonlinear_arith);
        }
        r.pop();
    }
    r
}

/// Reads limb `i`, or zero beyond the end.
fn limb_or_zero(v: &Vec<u32>, i: usize) -> (x: u64)
    ensures
        x == limb_at(v@, i as int),
{
    if i < v.len() {
        v[i] as u64
    } else {
        0
    }
}

/// Adds two limb sequences.
fn add_limbs(a: &Vec<u32>, b: &Vec<u32>) -> (r: Vec<u32>)
    ensures
        canonical(r@),
        limbs_value(r@) == limbs_value(a@) + limbs_value(b@),
{
    let n: usize = if a.len() >= b.len() {
        a.len()
    } else {
        b.len()
    };
    let mut r: Vec<u32> = Vec::new();
    let mut carry: u64 = 0;
    let mut i: usize = 0;
    proof {
        lemma_low_zero(a@);
        lemma_low_zero(b@);
    }
    while i < n
        invariant
            i <= n,
            n >= a.len(),
            n >= b.len(),
            r@.len() == i,
            carry <= 1,
            limbs_value(r@) + carry * weight(i as nat) == low_value(a@, i as int) + low_value(
                b@,
                i as int,
            ),
        decreases n - i,
    {
        let x: u64 = limb_or_zero(a, i);
        let y: u64 = limb_or_zero(b, i);
        let t: u64 = x + y + carry;
        let digit: u32 = (t % 0x1_0000_0000) as u32;
        let next: u64 = t / 0x1_0000_0000;
        proof {
            let w = weight(i as nat);
            lemma_low_step(a@, i as int);
            lemma_low_step(b@, i as int);
            lemma_value_push(r@, digit);
            assert(weight((i + 1) as nat) == 0x1_0000_0000 * w);
            assert(digit + 0x1_0000_0000 * next == t);
            assert(digit * w + next * (0x1_0000_0000 * w) == (x + y + carry) * w)
                by (nonlinear_arith)
                requires
                    digit + 0x1_0000_0000 * next == x + y + carry,
            ;
            assert((x + y + carry) * w == x * w + y * w + carry * w) by (nonlinear_arith);
        }
        r.push(digit);
        carry = next;
        i = i + 1;
    }
    if carry > 0 {
        proof {
            lemma_value_push(r@, 1u32);
        }
        r.push(1);
    }
    trim(r)
}

/// Subtracts the smaller limb sequence from the larger.
fn sub_limbs(a: &Vec<u32>, b: &Vec<u32>) -> (r: Vec<u32>)
    requires
        limbs_value(a@) >= limbs_value(b@),
    ensures
        canonical(r@),
        limbs_value(r@) == limbs_value(a@) - limbs_value(b@),
{
    let n: usize = if a.len() >= b.len() {
        a.len()
    } else {
        b.len()
    };
    let mut r: Vec<u32> = Vec::new();
    let mut borrow: u64 = 0;
    let mut i: usize = 0;
    proof {
        lemma_low_zero(a@);
        lemma_low_zero(b@);
    }
    while i < n
        invariant
            i <= n,
            n >= a.len(),
            n >= b.len(),
            r@.len() == i,
            borrow <= 1,
            limbs_value(r@) + low_value(b@, i as int) == low_value(a@, i as int) + borrow * weight(
                i as nat,
            ),
        decreases n - i,
    {
        let x: u64 = limb_or_zero(a, i);
        let y: u64 = limb_or_zero(b, i);
        let t: u64 = x + 0x1_0000_0000 - y - borrow;
        let digit: u32 = (t % 0x1_0000_0000) as u32;
        let next: u64 = 1 - t / 0x1_0000_0000;
        proof {
            let w = weight(i as nat);
            lemma_low_step(a@, i as int);
            lemma_low_step(b@, i as int);
            lemma_value_push(r@, digit);
            assert(weight((i + 1) as nat) == 0x1_0000_0000 * w);
            assert(digit + 0x1_0000_0000 * (1 - next) == x + 0x1_0000_0000 - y - borrow);
            assert(digit * w + y * w + borrow * w == x * w + next * (0x1_0000_0000 * w))
                by (nonlinear_arith)
                requires
                    digit + 0x1_0000_0000 * (1 - next) == x + 0x1_0000_0000 - y - borrow,
            ;
        }
        r.push(digit);
        borrow = next;
        i = i + 1;
    }
    proof {
        lemma_value_bound(r@);
        if borrow == 1 {
            assert(1 * weight(n as nat) == weight(n as nat)) by (nonlinear_arith);
        } else {
            assert(0 * weight(n as nat) == 0) by (nonlinear_arith);
        }
    }
    trim(r)
}

/// How a first number stands to a second.
#[derive(Clone, Copy, Debug, PartialEq, Eq, Structural)]
pub enum Sign {
    Negative,
    Zero,
    Positive,
}

/// The sign of an integer.
pub open spec fn sign_of(n: int) -> Sign {
    if n < 0 {
        Sign::Negative
    } else if n == 0 {
        Sign::Zero
    } else {
        Sign::Positive
    }
}

/// Limb sequences that agree from limb `i` on differ by what their lower limbs differ by.
proof fn lemma_same_high_limbs(a: Seq<u32>, b: Seq<u32>, i: int)
    requires
        a.len() == b.len(),
        0 <= i <= a.len(),
        forall|k: int| i <= k < a.len() ==> a[k] == b[k],
    ensures
        limbs_value(a) - limbs_value(a.take(i)) == limbs_value(b) - limbs_value(b.take(i)),
    decreases a.len() - i,
{
    if i == a.len() {
        assert(a.take(i) =~= a);
        assert(b.take(i) =~= b);
    } else {
        lemma_same_high_limbs(a, b, i + 1);
        assert(a.take(i + 1) =~= a.take(i).push(a[i]));
        assert(b.take(i + 1) =~= b.take(i).push(b[i]));
        lemma_value_push(a.take(i), a[i]);
        lemma_value_push(b.take(i), b[i]);
    }
}

/// Of two limb sequences of one length, the smaller is the one with the
/// smaller limb where they first differ, from the top.
proof fn lemma_first_difference(a: Seq<u32>, b: Seq<u32>, i: int)
    requires
        a.len() == b.len(),
        0 <= i < a.len(),
        forall|k: int| i < k < a.len() ==> a[k] == b[k],
        a[i] < b[i],
    ensures
        limbs_value(a) < limbs_value(b),
{
    let w = weight(i as nat);
    lemma_same_high_limbs(a, b, i + 1);
    assert(a.take(i + 1) =~= a.take(i).push(a[i]));
    assert(b.take(i + 1) =~= b.take(i).push(b[i]));
    lemma_value_push(a.take(i), a[i]);
    lemma_value_push(b.take(i), b[i]);
    lemma_value_bound(a.take(i));
    assert((a[i] as nat) * w + w <= (b[i] as nat) * w) by (nonlinear_arith)
        requires
            a[i] + 1 <= b[i],
            w >= 0,
    ;
}

/// A canonical limb sequence stands for more than any shorter one.
proof fn lemma_longer_is_larger(a: Seq<u32>, b: Seq<u32>)
    requires
        canonical(b),
        a.len() < b.len(),
    ensures
        limbs_value(a) < limbs_value(b),
{
    lemma_value_bound(a);
    lemma_canonical_lower_bound(b);
    lemma_weight_monotone(a.len(), (b.len() - 1) as nat);
}

/// Compares two canonical limb sequences by the numbers they stand for.
fn compare_limbs(a: &Vec<u32>, b: &Vec<u32>) -> (r: Sign)
    requires
        canonical(a@),
        canonical(b@),
    ensures
        r == sign_of(limbs_value(a@) - limbs_value(b@)),
{
    if a.len() < b.len() {
        proof {
            lemma_longer_is_larger(a@, b@);
        }
        return Sign::Negative;
    }
    if a.len() > b.len() {
        proof {
            lemma_longer_is_larger(b@, a@);
        }
        return Sign::Positive;
    }
    let mut i: usize = a.len();
    while i > 0
        invariant
            a.len() == b.len(),
            i <= a.len(),
            forall|k: int| i <= k < a.len() ==> a@[k] == b@[k],
        decreases i,
    {
        i = i - 1;
        if a[i] < b[i] {
            proof {
                lemma_first_difference(a@, b@, i as int);
            }
            return Sign::Negative;
        }
        if a[i] > b[i] {
            proof {
                lemma_first_difference(b@, a@, i as int);
            }
            return Sign::Positive;
        }
    }
    proof {
        assert(a@ =~= b@);
    }
    Sign::Zero
}

/// Multiplies a limb sequence by one limb and by `weight(shift)`.
fn mul_limb_shifted(b: &Vec<u32>, m: u32, shift: usize) -> (r: Vec<u32>)
    ensures
        canonical(r@),
        limbs_value(r@) == limbs_value(b@) * m * weight(shift as nat),
{
    let mut r: Vec<u32> = Vec::new();
    let mut k: usize = 0;
    while k < shift
        invariant
            k <= shift,
            r@.len() == k,
            limbs_value(r@) == 0,
        decreases shift - k,
    {
        proof {
            lemma_value_push(r@, 0u32);
            assert(0 * weight(k as nat) == 0) by (nonlinear_arith);
        }
        r.push(0);
        k = k + 1;
    }
    let ghost ws = weight(shift as nat);
    let mut carry: u64 = 0;
    let mut j: usize = 0;
    proof {
        lemma_low_zero(b@);
        assert(0 * weight(shift as nat) == 0) by (nonlinear_arith);
        assert(0 * m * ws == 0) by (nonlinear_arith);
    }
    while j < b.len()
        invariant
            j <= b.len(),
            r@.len() == shift + j,
            carry <= 0xffff_ffff,
            ws == weight(shift as nat),
            limbs_value(r@) + carry * weight((shift + j) as nat) == low_value(b@, j as int) * m
                * ws,
        decreases b.len() - j,
    {
        let x: u64 = b[j] as u64;
        assert(x * m <= 0xffff_ffff * 0xffff_ffff) by (nonlinear_arith)
            requires
                x <= 0xffff_ffff,
                m <= 0xffff_ffff,
        ;
        let t: u64 = x * (m as u64) + carry;
        let digit: u32 = (t % 0x1_0000_0000) as u32;
        let next: u64 = t / 0x1_0000_0000;
        proof {
            let wj = weight(j as nat);
            let w = weight((shift + j) as nat);
            lemma_weight_add(shift as nat, j as nat);
            lemma_low_step(b@, j as int);
            lemma_value_push(r@, digit);
            assert(weight((shift + j + 1) as nat) == 0x1_0000_0000 * w);
            assert(digit + 0x1_0000_0000 * next == x * m + carry);
            assert(digit * w + next * (0x1_0000_0000 * w) == x * m * w + carry * w)
                by (nonlinear_arith)
                requires
                    digit + 0x1_0000_0000 * next == x * m + carry,
            ;
            let lo = low_value(b@, j as int);
            assert((lo + x * wj) * m * ws == lo * m * ws + x * m * w) by (nonlinear_arith)
                requires
                    w == ws * wj,
            ;
        }
        r.push(digit);
        carry = next;
        j = j + 1;
    }
    proof {
        lemma_value_push(r@, carry as u32);
    }
    r.push(carry as u32);
    trim(r)
}

/// Multiplies two limb sequences.
fn mul_limbs(a: &Vec<u32>, b: &Vec<u32>) -> (r: Vec<u32>)
    ensures
        canonical(r@),
        limbs_value(r@) == limbs_value(a@) * limbs_value(b@),
{
    let mut r: Vec<u32> = Vec::new();
    let mut i: usize = 0;
    proof {
        lemma_low_zero(a@);
        assert(0 * limbs_value(b@) == 0) by (nonlinear_arith);
    }
    while i < a.len()
        invariant
            i <= a.len(),
            canonical(r@),
            limbs_value(r@) == low_value(a@, i as int) * limbs_value(b@),
        decreases a.len() - i,
    {
        let row: Vec<u32> = mul_limb_shifted(b, a[i], i);
        proof {
            let lo = low_value(a@, i as int);
            let x = a@[i as int] as nat;
            let w = weight(i as nat);
            let vb = limbs_value(b@);
            lemma_low_step(a@, i as int);
            assert((lo + x * w) * vb == lo * vb + vb * x * w) by (nonlinear_arith);
        }
        r = add_limbs(&r, &row);
        i = i + 1;
    }
    r
}

/// The weight of limb `q` is two to the power `32 q`.
proof fn lemma_weight_is_pow2(q: nat)
    ensures
        weight(q) == pow2(32 * q),
    decreases q,
{
    lemma2_to64();
    if q > 0 {
        lemma_weight_is_pow2((q - 1) as nat);
        lemma_pow2_adds(32, 32 * ((q - 1) as nat));
        assert(32 + 32 * ((q - 1) as nat) == 32 * q);
    }
}

/// Two to the power `r`, for a power that fits in one limb.
fn limb_pow2(r: u32) -> (p: u32)
    requires
        r < 32,
    ensures
        p == pow2(r as nat),
{
    let mut p: u32 = 1;
    let mut i: u32 = 0;
    proof {
        lemma2_to64();
    }
    while i < r
        invariant
            i <= r < 32,
            p == pow2(i as nat),
        decreases r - i,
    {
        proof {
            lemma_pow2_unfold((i + 1) as nat);
            lemma_pow2_strictly_increases((i + 1) as nat, 32);
            lemma2_to64();
        }
        p = p * 2;
        i = i + 1;
    }
    p
}

/// Putting a limb below a limb sequence multiplies its value by the radix and
/// adds the limb.
proof fn lemma_value_prepend(x: u32, s: Seq<u32>)
    ensures
        limbs_value(seq![x] + s) == x + 0x1_0000_0000 * limbs_value(s),
    decreases s.len(),
{
    if s.len() == 0 {
        assert(seq![x] + s =~= Seq::<u32>::empty().push(x));
        lemma_value_push(Seq::<u32>::empty(), x);
        assert(weight(0) == 1);
        assert((x as nat) * 1 == x) by (nonlinear_arith);
    } else {
        let whole = seq![x] + s;
        let top = s.last() as nat;
        let w = weight((s.len() - 1) as nat);
        assert(whole.drop_last() =~= seq![x] + s.drop_last());
        assert(whole.last() == s.last());
        assert(whole.len() == s.len() + 1);
        lemma_value_prepend(x, s.drop_last());
        assert(weight(s.len()) == 0x1_0000_0000 * w);
        assert(limbs_value(whole) == limbs_value(whole.drop_last()) + top * weight(s.len()));
        assert(limbs_value(s) == limbs_value(s.drop_last()) + top * w);
        assert(top * (0x1_0000_0000 * w) == 0x1_0000_0000 * (top * w)) by (nonlinear_arith);
    }
}

/// The limb sequence with one more limb below it.
fn prepend_limb(x: u32, v: &Vec<u32>) -> (r: Vec<u32>)
    ensures
        r@ == seq![x] + v@,
{
    let mut r: Vec<u32> = Vec::new();
    r.push(x);
    let mut i: usize = 0;
    while i < v.len()
        invariant
            i <= v.len(),
            r@ == seq![x] + v@.take(i as int),
        decreases v.len() - i,
    {
        r.push(v[i]);
        assert(r@ =~= seq![x] + v@.take(i + 1));
        i = i + 1;
    }
    assert(v@.take(v.len() as int) =~= v@);
    r
}

/// The largest limb `d` with `d * b <= r`, for `r` below the radix times `b`.
fn quotient_limb(r: &Vec<u32>, b: &Vec<u32>) -> (d: u32)
    requires
        canonical(r@),
        limbs_value(b@) > 0,
        limbs_value(r@) < 0x1_0000_0000 * limbs_value(b@),
    ensures
        d * limbs_value(b@) <= limbs_value(r@) < (d + 1) * limbs_value(b@),
{
    let ghost vb = limbs_value(b@);
    let ghost vr = limbs_value(r@);
    let mut d: u64 = 0;
    let mut step: u64 = 0x1_0000_0000;
    let mut k: u32 = 32;
    proof {
        lemma2_to64();
        assert(0 * vb == 0) by (nonlinear_arith);
    }
    while k > 0
        invariant
            k <= 32,
            step == pow2(k as nat),
            d + step <= 0x1_0000_0000,
            d * vb <= vr < (d + step) * vb,
            vb == limbs_value(b@),
            vr == limbs_value(r@),
            canonical(r@),
        decreases k,
    {
        proof {
            lemma_pow2_unfold(k as nat);
        }
        let half: u64 = step / 2;
        let candidate: u64 = d + half;
        let product: Vec<u32> = mul_limb_shifted(b, candidate as u32, 0);
        proof {
            assert(weight(0) == 1);
            assert(vb * candidate * 1 == candidate * vb) by (nonlinear_arith);
        }
        match compare_limbs(&product, r) {
            Sign::Positive => {},
            _ => {
                d = candidate;
            },
        }
        step = half;
        k = k - 1;
    }
    proof {
        lemma2_to64();
    }
    d as u32
}

/// Divides one limb sequence by another, which is not zero: the quotient and
/// the remainder.
fn divide_limbs(a: &Vec<u32>, b: &Vec<u32>) -> (r: (Vec<u32>, Vec<u32>))
    requires
        limbs_value(b@) > 0,
    ensures
        canonical(r.0@),
        canonical(r.1@),
        limbs_value(a@) == limbs_value(r.0@) * limbs_value(b@) + limbs_value(r.1@),
        limbs_value(r.1@) < limbs_value(b@),
{
    let ghost vb = limbs_value(b@);
    let mut quotient: Vec<u32> = Vec::new();
    let mut rest: Vec<u32> = Vec::new();
    let mut j: usize = a.len();
    proof {
        assert(a@.skip(j as int) =~= Seq::<u32>::empty());
        assert(0 * vb + 0 == 0) by (nonlinear_arith);
    }
    while j > 0
        invariant
            j <= a.len(),
            vb == limbs_value(b@),
            vb > 0,
            canonical(rest@),
            limbs_value(a@.skip(j as int)) == limbs_value(quotient@) * vb + limbs_value(rest@),
            limbs_value(rest@) < vb,
        decreases j,
    {
        j = j - 1;
        let ghost old_q = limbs_value(quotient@);
        let ghost old_r = limbs_value(rest@);
        let shifted: Vec<u32> = trim(prepend_limb(a[j], &rest));
        proof {
            lemma_value_prepend(a@[j as int], rest@);
            assert(a@.skip(j as int) =~= seq![a@[j as int]] + a@.skip(j + 1));
            lemma_value_prepend(a@[j as int], a@.skip(j + 1));
            assert(0x1_0000_0000 * old_r + a@[j as int] < 0x1_0000_0000 * vb) by (nonlinear_arith)
                requires
                    old_r + 1 <= vb,
                    a@[j as int] < 0x1_0000_0000,
            ;
        }
        let d: u32 = quotient_limb(&shifted, b);
        let taken: Vec<u32> = mul_limb_shifted(b, d, 0);
        proof {
            assert(weight(0) == 1);
            assert(vb * d * 1 == d * vb) by (nonlinear_arith);
        }
        rest = sub_limbs(&shifted, &taken);
        proof {
            lemma_value_prepend(d, quotient@);
        }
        quotient = prepend_limb(d, &quotient);
        proof {
            let new_r = limbs_value(rest@);
            assert(limbs_value(quotient@) == d + 0x1_0000_0000 * old_q);
            assert(new_r == 0x1_0000_0000 * old_r + a@[j as int] - d * vb);
            assert(a@[j as int] + 0x1_0000_0000 * (old_q * vb + old_r) == (d + 0x1_0000_0000
                * old_q) * vb + new_r) by (nonlinear_arith)
                requires
                    new_r == 0x1_0000_0000 * old_r + a@[j as int] - d * vb,
            ;
            assert(new_r < vb) by (nonlinear_arith)
                requires
                    new_r == 0x1_0000_0000 * old_r + a@[j as int] - d * vb,
                    0x1_0000_0000 * old_r + a@[j as int] < (d + 1) * vb,
            ;
        }
    }
    proof {
        assert(a@.skip(0) =~= a@);
    }
    (trim(quotient), rest)
}

/// Whether `n` is a multiple of `d`.
pub open spec fn divides(d: int, n: int) -> bool {
    exists|k: int| n == #[trigger] (k * d)
}

/// Whether the two numbers have no common divisor but one and minus one.
pub open spec fn coprime(a: int, b: int) -> bool {
    forall|d: int| #[trigger] divides(d, a) && divides(d, b) ==> divides(d, 1)
}

/// Two numbers divided by their greatest common divisor are coprime.
pub proof fn lemma_quotients_coprime(g: int, a: int, b: int, p: int, q: int)
    requires
        g > 0,
        a == p * g,
        b == q * g,
        forall|d: int| divides(d, a) && divides(d, b) ==> #[trigger] divides(d, g),
    ensures
        coprime(p, q),
{
    assert forall|d: int| #[trigger] divides(d, p) && divides(d, q) implies divides(d, 1) by {
        let kp = choose|k: int| p == #[trigger] (k * d);
        let kq = choose|k: int| q == #[trigger] (k * d);
        assert(a == kp * (d * g)) by (nonlinear_arith)
            requires
                a == p * g,
                p == kp * d,
        ;
        assert(b == kq * (d * g)) by (nonlinear_arith)
            requires
                b == q * g,
                q == kq * d,
        ;
        assert(divides(d * g, a));
        assert(divides(d * g, b));
        assert(divides(d * g, g));
        let k = choose|k: int| g == #[trigger] (k * (d * g));
        assert(k * d == 1) by (nonlinear_arith)
            requires
                g == k * (d * g),
                g > 0,
        ;
        assert(divides(d, 1));
    }
}

/// A number and its negative have the same divisors.
pub proof fn lemma_coprime_negated(a: int, b: int)
    requires
        coprime(a, b),
    ensures
        coprime(-a, b),
{
    assert forall|d: int| #[trigger] divides(d, -a) && divides(d, b) implies divides(d, 1) by {
        let k = choose|k: int| -a == #[trigger] (k * d);
        assert(a == (-k) * d) by (nonlinear_arith)
            requires
                -a == k * d,
        ;
        assert(divides(d, a));
    }
}

/// Every number is coprime to one.
pub proof fn lemma_coprime_to_one(a: int)
    ensures
        coprime(a, 1),
{
}

/// Where `x == q y + r`, the common divisors of `y` and `r` are those of `x` and `y`.
proof fn lemma_divides_remainder(d: int, x: int, y: int, q: int, r: int)
    requires
        x == q * y + r,
    ensures
        (divides(d, y) && divides(d, r)) <==> (divides(d, x) && divides(d, y)),
{
    if divides(d, y) && divides(d, r) {
        let ky = choose|k: int| y == #[trigger] (k * d);
        let kr = choose|k: int| r == #[trigger] (k * d);
        assert(q * (ky * d) + kr * d == (q * ky + kr) * d) by (nonlinear_arith);
        assert(x == (q * ky + kr) * d);
    }
    if divides(d, x) && divides(d, y) {
        let kx = choose|k: int| x == #[trigger] (k * d);
        let ky = choose|k: int| y == #[trigger] (k * d);
        assert(kx * d - q * (ky * d) == (kx - q * ky) * d) by (nonlinear_arith);
        assert(r == (kx - q * ky) * d);
    }
}

/// A division by a divisor leaves no remainder.
pub proof fn lemma_exact_division(g: int, n: int, q: int, r: int)
    requires
        g > 0,
        divides(g, n),
        n == q * g + r,
        0 <= r < g,
    ensures
        r == 0,
        n == q * g,
{
    let k = choose|k: int| n == #[trigger] (k * g);
    assert((k - q) * g == r) by (nonlinear_arith)
        requires
            k * g == q * g + r,
    ;
    if k - q >= 1 {
        assert((k - q) * g >= g) by (nonlinear_arith)
            requires
                k - q >= 1,
                g > 0,
        ;
    }
    if k - q <= -1 {
        assert((k - q) * g < 0) by (nonlinear_arith)
            requires
                k - q <= -1,
                g > 0,
        ;
    }
    assert(0 * g == 0) by (nonlinear_arith);
}

/// An arbitrary-precision natural number.
#[derive(Debug)]
pub struct Natural {
    limbs: Vec<u32>,
}

impl View for Natural {
    type V = nat;

    closed spec fn view(&self) -> nat {
        limbs_value(self.limbs@)
    }
}

impl Clone for Natural {
    fn clone(&self) -> (r: Self)
        ensures
            r@ == self@,
    {
        proof {
            use_type_invariant(self);
        }
        let limbs: Vec<u32> = self.limbs.clone();
        assert(limbs@ =~= self.limbs@);
        Natural { limbs }
    }
}

impl Natural {
    #[verifier::type_invariant]
    spec fn well_formed(&self) -> bool {
        canonical(self.limbs@)
    }

    /// The number zero.
    pub fn zero() -> (r: Natural)
        ensures
            r@ == 0,
    {
        Natural { limbs: Vec::new() }
    }

    /// The number `n`.
    pub fn from_u64(n: u64) -> (r: Natural)
        ensures
            r@ == n,
    {
        let mut limbs: Vec<u32> = Vec::new();
        let lo: u32 = (n % 0x1_0000_0000) as u32;
        let hi: u32 = (n / 0x1_0000_0000) as u32;
        proof {
            lemma_value_push(limbs@, lo);
            lemma_value_push(limbs@.push(lo), hi);
            assert(weight(1) == 0x1_0000_0000 * weight(0));
            assert(lo * 1 + hi * 0x1_0000_0000 == n) by (nonlinear_arith)
                requires
                    lo + 0x1_0000_0000 * hi == n,
            ;
        }
        limbs.push(lo);
        limbs.push(hi);
        Natural { limbs: trim(limbs) }
    }

    /// Two to the power `k`.
    pub fn pow2(k: u32) -> (r: Natural)
        ensures
            r@ == pow2(k as nat),
    {
        let mut one: Vec<u32> = Vec::new();
        one.push(1);
        let q: u32 = k / 32;
        let limbs: Vec<u32> = mul_limb_shifted(&one, limb_pow2(k % 32), q as usize);
        proof {
            lemma_value_push(Seq::<u32>::empty(), 1u32);
            assert(one@ =~= Seq::<u32>::empty().push(1u32));
            lemma_weight_is_pow2(q as nat);
            lemma_pow2_adds((k % 32) as nat, 32 * (q as nat));
            assert((k % 32) + 32 * q == k);
            let a = pow2((k % 32) as nat);
            let b = weight(q as nat);
            assert(limbs_value(one@) == 1);
            assert(limbs_value(one@) * a * b == a * b) by (nonlinear_arith)
                requires
                    limbs_value(one@) == 1,
            ;
        }
        Natural { limbs }
    }

    /// Builds the number that little-endian 32-bit limbs stand for.
    pub fn from_limbs(limbs: Vec<u32>) -> (r: Natural)
        ensures
            r@ == limbs_value(limbs@),
    {
        Natural { limbs: trim(limbs) }
    }

    /// The little-endian 32-bit limbs of the number, the most significant one not zero.
    pub fn to_limbs(&self) -> (r: Vec<u32>)
        ensures
            limbs_value(r@) == self@,
            canonical(r@),
    {
        proof {
            use_type_invariant(self);
        }
        let r: Vec<u32> = self.limbs.clone();
        assert(r@ =~= self.limbs@);
        r
    }

    pub fn is_zero(&self) -> (r: bool)
        ensures
            r == (self@ == 0),
    {
        proof {
            use_type_invariant(self);
            if self.limbs@.len() > 0 {
                lemma_canonical_lower_bound(self.limbs@);
                lemma_weight_positive((self.limbs@.len() - 1) as nat);
            }
        }
        self.limbs.len() == 0
    }

    /// The sign of `self - other`.
    pub fn compare(&self, other: &Natural) -> (r: Sign)
        ensures
            r == sign_of(self@ - other@),
    {
        proof {
            use_type_invariant(self);
            use_type_invariant(other);
        }
        compare_limbs(&self.limbs, &other.limbs)
    }

    pub fn add(&self, other: &Natural) -> (r: Natural)
        ensures
            r@ == self@ + other@,
    {
        Natural { limbs: add_limbs(&self.limbs, &other.limbs) }
    }

    /// The difference `self - other` of a number and one that is not larger.
    pub fn sub(&self, other: &Natural) -> (r: Natural)
        requires
            self@ >= other@,
        ensures
            r@ == self@ - other@,
    {
        Natural { limbs: sub_limbs(&self.limbs, &other.limbs) }
    }

    pub fn mul(&self, other: &Natural) -> (r: Natural)
        ensures
            r@ == self@ * other@,
    {
        Natural { limbs: mul_limbs(&self.limbs, &other.limbs) }
    }

    /// The quotient and the remainder of a division by a number other than zero.
    pub fn div_rem(&self, divisor: &Natural) -> (r: (Natural, Natural))
        requires
            divisor@ > 0,
        ensures
            self@ == r.0@ * divisor@ + r.1@,
            r.1@ < divisor@,
    {
        let (quotient, rest) = divide_limbs(&self.limbs, &divisor.limbs);
        (Natural { limbs: quotient }, Natural { limbs: rest })
    }

    /// The greatest common divisor of two numbers that are not both zero.
    pub fn gcd(a: &Natural, b: &Natural) -> (g: Natural)
        requires
            a@ > 0 || b@ > 0,
        ensures
            g@ > 0,
            divides(g@ as int, a@ as int),
            divides(g@ as int, b@ as int),
            forall|d: int|
                divides(d, a@ as int) && divides(d, b@ as int) ==> #[trigger] divides(
                    d,
                    g@ as int,
                ),
    {
        let mut x: Natural = a.clone();
        let mut y: Natural = b.clone();
        while !y.is_zero()
            invariant
                x@ > 0 || y@ > 0,
                forall|d: int|
                    (#[trigger] divides(d, x@ as int) && divides(d, y@ as int)) <==> (divides(
                        d,
                        a@ as int,
                    ) && divides(d, b@ as int)),
            decreases y@,
        {
            let (q, r) = x.div_rem(&y);
            proof {
                assert forall|d: int|
                    (#[trigger] divides(d, y@ as int) && divides(d, r@ as int)) <==> (divides(
                        d,
                        a@ as int,
                    ) && divides(d, b@ as int)) by {
                    assert(x@ as int == (q@ as int) * (y@ as int) + (r@ as int));
                    lemma_divides_remainder(d, x@ as int, y@ as int, q@ as int, r@ as int);
                    assert((divides(d, x@ as int) && divides(d, y@ as int)) <==> (divides(
                        d,
                        a@ as int,
                    ) && divides(d, b@ as int)));
                }
            }
            x = y;
            y = r;
        }
        proof {
            assert(x@ as int == 1 * (x@ as int)) by (nonlinear_arith);
            assert(divides(x@ as int, x@ as int));
            assert(0 == 0 * (x@ as int)) by (nonlinear_arith);
            assert(divides(x@ as int, 0));
            assert forall|d: int| divides(d, a@ as int) && divides(d, b@ as int) implies divides(
                d,
                x@ as int,
            ) by {
                assert(divides(d, x@ as int) && divides(d, y@ as int));
            }
        }
        x
    }
}

} // verus!
