//! Arbitrary-precision integers: a sign and a magnitude.
use crate::utils::natural::{sign_of, Natural, Sign};
use vstd::prelude::*;

verus! {

/// An arbitrary-precision integer.
#[derive(Debug)]
pub struct Integer {
    negative: bool,
    magnitude: Natural,
}

impl View for Integer {
    type V = int;

    closed spec fn view(&self) -> int {
        if self.negative {
            -(self.magnitude@ as int)
        } else {
            self.magnitude@ as int
        }
    }
}

impl Clone for Integer {
    fn clone(&self) -> (r: Self)
        ensures
            r@ == self@,
    {
        Integer { negative: self.negative, magnitude: self.magnitude.clone() }
    }
}

impl Integer {
    /// The number zero.
    pub fn zero() -> (r: Integer)
        ensures
            r@ == 0,
    {
        Integer { negative: false, magnitude: Natural::zero() }
    }

    /// The number `n`.
    pub fn from_i64(n: i64) -> (r: Integer)
        ensures
            r@ == n,
    {
        if n < 0 {
            let m: u64 = (-(n + 1)) as u64 + 1;
            Integer { negative: true, magnitude: Natural::from_u64(m) }
        } else {
            Integer { negative: false, magnitude: Natural::from_u64(n as u64) }
        }
    }

    /// The natural number `n` as an integer.
    pub fn from_natural(n: Natural) -> (r: Integer)
        ensures
            r@ == n@,
    {
        Integer { negative: false, magnitude: n }
    }

    /// The integer of the given magnitude, negated where `negative` is set.
    pub fn from_sign_magnitude(negative: bool, magnitude: Natural) -> (r: Integer)
        ensures
            r@ == if negative {
                -(magnitude@ as int)
            } else {
                magnitude@ as int
            },
    {
        Integer { negative, magnitude }
    }

    /// The absolute value.
    pub fn abs(&self) -> (r: Natural)
        ensures
            r@ == if self@ < 0 {
                -self@
            } else {
                self@
            },
    {
        self.magnitude.clone()
    }

    pub fn signum(&self) -> (r: Sign)
        ensures
            r == sign_of(self@),
    {
        if self.magnitude.is_zero() {
            Sign::Zero
        } else if self.negative {
            Sign::Negative
        } else {
            Sign::Positive
        }
    }

    pub fn is_zero(&self) -> (r: bool)
        ensures
            r == (self@ == 0),
    {
        self.magnitude.is_zero()
    }

    pub fn is_negative(&self) -> (r: bool)
        ensures
            r == (self@ < 0),
    {
        self.negative && !self.magnitude.is_zero()
    }

    pub fn neg(&self) -> (r: Integer)
        ensures
            r@ == -self@,
    {
        Integer { negative: !self.negative, magnitude: self.magnitude.clone() }
    }

    pub fn add(&self, other: &Integer) -> (r: Integer)
        ensures
            r@ == self@ + other@,
    {
        if self.negative == other.negative {
            Integer { negative: self.negative, magnitude: self.magnitude.add(&other.magnitude) }
        } else {
            match self.magnitude.compare(&other.magnitude) {
                Sign::Negative => Integer {
                    negative: other.negative,
                    magnitude: other.magnitude.sub(&self.magnitude),
                },
                _ => Integer {
                    negative: self.negative,
                    magnitude: self.magnitude.sub(&other.magnitude),
                },
            }
        }
    }

    pub fn sub(&self, other: &Integer) -> (r: Integer)
        ensures
            r@ == self@ - other@,
    {
        let minus: Integer = other.neg();
        self.add(&minus)
    }

    pub fn mul(&self, other: &Integer) -> (r: Integer)
        ensures
            r@ == self@ * other@,
    {
        let magnitude: Natural = self.magnitude.mul(&other.magnitude);
        proof {
            let a = self.magnitude@ as int;
            let b = other.magnitude@ as int;
            assert((-a) * b == -(a * b)) by (nonlinear_arith);
            assert(a * (-b) == -(a * b)) by (nonlinear_arith);
            assert((-a) * (-b) == a * b) by (nonlinear_arith);
        }
        Integer { negative: self.negative != other.negative, magnitude }
    }

    /// The sign of `self - other`.
    pub fn compare(&self, other: &Integer) -> (r: Sign)
        ensures
            r == sign_of(self@ - other@),
    {
        let difference: Integer = self.sub(other);
        difference.signum()
    }
}

} // verus!
