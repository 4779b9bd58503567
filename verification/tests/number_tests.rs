use yagl::scalar::Scalar;
use yagl::utils::integer::Integer;
use yagl::utils::natural::{Natural, Sign};

#[test]
fn natural_addition_carries_across_limbs() {
    let a = Natural::from_u64(u64::MAX);
    let one = Natural::from_u64(1);
    let sum = a.add(&one);
    assert_eq!(sum.to_limbs(), vec![0, 0, 1]);
}

#[test]
fn natural_subtraction_borrows_across_limbs() {
    let big = Natural::from_limbs(vec![0, 0, 1]);
    let one = Natural::from_u64(1);
    let difference = big.sub(&one);
    assert_eq!(difference.to_limbs(), vec![u32::MAX, u32::MAX]);
}

#[test]
fn natural_product_of_two_large_numbers() {
    let a = Natural::from_u64(u64::MAX);
    let square = a.mul(&a);
    // (2^64 - 1)^2 = 2^128 - 2^65 + 1
    assert_eq!(square.to_limbs(), vec![1, 0, u32::MAX - 1, u32::MAX]);
}

#[test]
fn natural_zero_has_no_limbs() {
    assert!(Natural::zero().is_zero());
    assert!(Natural::from_u64(0).to_limbs().is_empty());
    assert!(Natural::from_limbs(vec![0, 0, 0]).is_zero());
    assert!(!Natural::from_u64(7).is_zero());
    let seven = Natural::from_u64(7);
    assert!(seven.sub(&seven).is_zero());
    assert!(seven.mul(&Natural::zero()).is_zero());
}

#[test]
fn natural_compare_by_value() {
    let small = Natural::from_u64(u64::MAX);
    let large = Natural::from_limbs(vec![0, 0, 1]);
    assert_eq!(small.compare(&large), Sign::Negative);
    assert_eq!(large.compare(&small), Sign::Positive);
    assert_eq!(large.compare(&Natural::from_limbs(vec![0, 0, 1, 0])), Sign::Zero);
    let a = Natural::from_limbs(vec![5, 9]);
    let b = Natural::from_limbs(vec![6, 9]);
    assert_eq!(a.compare(&b), Sign::Negative);
}

#[test]
fn natural_power_of_two() {
    assert_eq!(Natural::pow2(0).to_limbs(), vec![1]);
    assert_eq!(Natural::pow2(31).to_limbs(), vec![1u32 << 31]);
    assert_eq!(Natural::pow2(32).to_limbs(), vec![0, 1]);
    assert_eq!(Natural::pow2(70).to_limbs(), vec![0, 0, 64]);
}

#[test]
fn natural_division_with_remainder() {
    let a = Natural::from_u64(1_000_000_007);
    let b = Natural::from_u64(12_345);
    let (q, r) = a.div_rem(&b);
    assert_eq!(q.to_limbs(), vec![81_004]);
    assert_eq!(r.to_limbs(), vec![5_627]);
    let (q, r) = b.div_rem(&a);
    assert!(q.is_zero());
    assert_eq!(r.to_limbs(), vec![12_345]);
    let (q, r) = a.div_rem(&a);
    assert_eq!(q.to_limbs(), vec![1]);
    assert!(r.is_zero());
}

#[test]
fn natural_division_of_many_limbs() {
    // (2^128 - 2^65 + 1) / (2^64 - 1) = 2^64 - 1
    let a = Natural::from_limbs(vec![1, 0, u32::MAX - 1, u32::MAX]);
    let b = Natural::from_u64(u64::MAX);
    let (q, r) = a.div_rem(&b);
    assert_eq!(q.to_limbs(), vec![u32::MAX, u32::MAX]);
    assert!(r.is_zero());
    // 2^96 / (2^32 + 1) = 2^64 - 2^32 + 1, remainder 2^32 - 1 ... checked by multiplying back
    let c = Natural::from_limbs(vec![0, 0, 0, 1]);
    let d = Natural::from_limbs(vec![1, 1]);
    let (q, r) = c.div_rem(&d);
    assert_eq!(r.compare(&d), Sign::Negative);
    assert_eq!(q.mul(&d).add(&r).compare(&c), Sign::Zero);
}

#[test]
fn natural_greatest_common_divisor() {
    let a = Natural::from_u64(2 * 3 * 5 * 7 * 11);
    let b = Natural::from_u64(3 * 7 * 13);
    assert_eq!(Natural::gcd(&a, &b).to_limbs(), vec![21]);
    assert_eq!(Natural::gcd(&b, &a).to_limbs(), vec![21]);
    assert_eq!(Natural::gcd(&a, &Natural::zero()).to_limbs(), a.to_limbs());
    assert_eq!(Natural::gcd(&Natural::zero(), &b).to_limbs(), b.to_limbs());
    let p = Natural::pow2(100);
    let q = Natural::pow2(70).mul(&Natural::from_u64(3));
    assert_eq!(Natural::gcd(&p, &q).to_limbs(), Natural::pow2(70).to_limbs());
}

#[test]
fn integer_arithmetic_with_signs() {
    let a = Integer::from_i64(-7);
    let b = Integer::from_i64(3);
    assert_eq!(a.add(&b).compare(&Integer::from_i64(-4)), Sign::Zero);
    assert_eq!(a.sub(&b).compare(&Integer::from_i64(-10)), Sign::Zero);
    assert_eq!(b.sub(&a).compare(&Integer::from_i64(10)), Sign::Zero);
    assert_eq!(a.mul(&b).compare(&Integer::from_i64(-21)), Sign::Zero);
    assert_eq!(a.mul(&a).compare(&Integer::from_i64(49)), Sign::Zero);
    assert_eq!(a.neg().compare(&Integer::from_i64(7)), Sign::Zero);
    assert_eq!(a.signum(), Sign::Negative);
    assert_eq!(b.signum(), Sign::Positive);
    assert_eq!(a.add(&a.neg()).signum(), Sign::Zero);
    assert!(a.is_negative());
    assert!(!a.add(&a.neg()).is_negative());
    assert!(Integer::zero().is_zero());
}

#[test]
fn integer_from_the_smallest_i64() {
    let least = Integer::from_i64(i64::MIN);
    assert_eq!(least.abs().to_limbs(), vec![0, 1u32 << 31]);
    assert!(least.is_negative());
    let back = least.add(&Integer::from_i64(i64::MAX));
    assert_eq!(back.compare(&Integer::from_i64(-1)), Sign::Zero);
}

#[test]
fn integer_from_sign_and_magnitude() {
    let n = Integer::from_sign_magnitude(true, Natural::from_u64(12));
    assert_eq!(n.compare(&Integer::from_i64(-12)), Sign::Zero);
    let zero = Integer::from_sign_magnitude(true, Natural::zero());
    assert!(zero.is_zero());
    assert!(!zero.is_negative());
    let m = Integer::from_natural(Natural::from_u64(12));
    assert_eq!(m.add(&n).signum(), Sign::Zero);
}

#[test]
fn scalar_sum_of_halves_is_one() {
    let half = Scalar::from_ratio(1, 2).unwrap();
    let sum = half.add(&half);
    assert!(sum.equals(&Scalar::one()));
}

#[test]
fn scalar_from_ratio_rejects_zero_denominator() {
    assert!(Scalar::from_ratio(3, 0).is_none());
    assert!(Scalar::from_ratio(0, 3).unwrap().is_zero());
}

#[test]
fn scalar_compare_orders_fractions() {
    let third = Scalar::from_ratio(1, 3).unwrap();
    let half = Scalar::from_ratio(-1, -2).unwrap();
    assert_eq!(third.compare(&half), Sign::Negative);
    assert_eq!(half.compare(&third), Sign::Positive);
    assert_eq!(half.compare(&half), Sign::Zero);
    assert!(third.less_than(&half));
    assert!(!half.less_than(&third));
    assert!(third.at_most(&half));
    assert!(half.at_most(&half));
    assert!(!half.at_most(&third));
}

#[test]
fn scalar_signs() {
    let minus = Scalar::from_ratio(3, -4).unwrap();
    assert_eq!(minus.signum(), Sign::Negative);
    assert!(minus.is_negative());
    assert!(!minus.is_positive());
    assert!(minus.neg().is_positive());
    assert_eq!(Scalar::zero().signum(), Sign::Zero);
    assert!(!Scalar::zero().is_positive());
    assert!(!Scalar::zero().is_negative());
}

#[test]
fn scalar_division() {
    let a = Scalar::from_ratio(3, 4).unwrap();
    let b = Scalar::from_ratio(-9, 8).unwrap();
    assert_eq!(a.div(&b), Scalar::from_ratio(-2, 3).unwrap());
    assert_eq!(b.div(&a), Scalar::from_ratio(-3, 2).unwrap());
    assert_eq!(a.mul(&b), Scalar::from_ratio(-27, 32).unwrap());
    assert_eq!(a.sub(&b), Scalar::from_ratio(15, 8).unwrap());
}

#[test]
fn scalar_large_products_stay_exact() {
    let big = Scalar::from_int(i64::MAX);
    let square = big.mul(&big);
    let cube = square.mul(&big);
    let back = cube.div(&square);
    assert!(back.equals(&big));
    assert!(cube.sub(&cube).is_zero());
}

#[test]
fn scalar_is_kept_in_lowest_terms() {
    let x = Scalar::from_ratio(6, 4).unwrap();
    assert_eq!(x.numerator().abs().to_limbs(), vec![3]);
    assert_eq!(x.denominator().to_limbs(), vec![2]);
    let sum = Scalar::from_ratio(1, 6).unwrap().add(&Scalar::from_ratio(1, 3).unwrap());
    assert_eq!(sum.numerator().abs().to_limbs(), vec![1]);
    assert_eq!(sum.denominator().to_limbs(), vec![2]);
    let product = Scalar::from_ratio(2, 3).unwrap().mul(&Scalar::from_ratio(3, 2).unwrap());
    assert_eq!(product.denominator().to_limbs(), vec![1]);
}

#[test]
fn scalar_numerator_and_denominator() {
    let x = Scalar::from_ratio(6, -4).unwrap();
    let num = x.numerator();
    let den = x.denominator();
    assert!(num.is_negative());
    assert!(!den.is_zero());
    let rebuilt = Scalar::from_parts(num, den).unwrap();
    assert_eq!(rebuilt, Scalar::from_ratio(-3, 2).unwrap());
    assert!(Scalar::from_parts(Integer::from_i64(5), Natural::zero()).is_none());
}

#[test]
fn scalar_from_double_bits_reads_exact_values() {
    let one = Scalar::from_double_bits(1.0f64.to_bits()).unwrap();
    assert_eq!(one, Scalar::one());
    let x = Scalar::from_double_bits((-4.5f64).to_bits()).unwrap();
    assert_eq!(x, Scalar::from_ratio(-9, 2).unwrap());
    let y = Scalar::from_double_bits(0.1f64.to_bits()).unwrap();
    // 0.1 as a double is 3602879701896397 / 2^55, not one tenth
    assert_ne!(y, Scalar::from_ratio(1, 10).unwrap());
    assert_eq!(y, Scalar::from_ratio(3602879701896397, 1i64 << 55).unwrap());
    let big = Scalar::from_double_bits(1e300f64.to_bits()).unwrap();
    assert!(big.is_positive());
    assert!(Scalar::from_int(i64::MAX).less_than(&big));
}

#[test]
fn scalar_from_double_bits_zero_and_subnormal() {
    assert!(Scalar::from_double_bits(0.0f64.to_bits()).unwrap().is_zero());
    assert!(Scalar::from_double_bits((-0.0f64).to_bits()).unwrap().is_zero());
    let tiny = Scalar::from_double_bits(1).unwrap();
    assert!(tiny.is_positive());
    // the smallest subnormal is 2^-1074: times 2^1074 it is one
    let factor =
        Scalar::from_parts(Integer::from_natural(Natural::pow2(1074)), Natural::from_u64(1))
            .unwrap();
    assert_eq!(tiny.mul(&factor), Scalar::one());
    let least_normal = Scalar::from_double_bits(f64::MIN_POSITIVE.to_bits()).unwrap();
    let largest_subnormal = Scalar::from_double_bits(0x000f_ffff_ffff_ffff).unwrap();
    assert!(largest_subnormal.less_than(&least_normal));
}

#[test]
fn scalar_from_double_bits_rejects_infinities_and_nan() {
    assert!(Scalar::from_double_bits(f64::INFINITY.to_bits()).is_none());
    assert!(Scalar::from_double_bits(f64::NEG_INFINITY.to_bits()).is_none());
    assert!(Scalar::from_double_bits(f64::NAN.to_bits()).is_none());
    assert!(Scalar::from_double_bits(f64::MAX.to_bits()).is_some());
}
