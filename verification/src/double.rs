//! Measured quantities: IEEE 754 doubles, held as their bit patterns.
//!
//! The crate compares measurements with fixed limits and carries them into reports; it
//! does no arithmetic on them. A non-negative double grows with its bit pattern, so the
//! comparisons are exact comparisons of integers.

use vstd::arithmetic::power2::{
    lemma2_to64, lemma_pow2_adds, lemma_pow2_pos, lemma_pow2_strictly_increases, pow2,
};
use vstd::prelude::*;

verus! {

/// A double with the given bit pattern.
#[derive(Debug, Clone, Copy, PartialEq, Eq, Structural)]
pub struct Double {
    pub bits: u64,
}

/// The bit pattern of positive infinity.
pub const INFINITY_BITS: u64 = 0x7ff0_0000_0000_0000;

/// The bit pattern of negative zero.
pub const NEGATIVE_ZERO_BITS: u64 = 0x8000_0000_0000_0000;

/// The value, as a multiple of the smallest positive double, of the non-negative double
/// with biased exponent `exponent` and fraction `fraction`.
pub open spec fn units(exponent: nat, fraction: nat) -> nat {
    if exponent == 0 {
        fraction
    } else {
        (0x10_0000_0000_0000 + fraction) * pow2((exponent - 1) as nat)
    }
}

/// How many of the smallest positive double a whole number makes.
pub open spec fn whole_units(n: nat) -> nat {
    n * pow2(1074)
}

impl Double {
    /// Zero, a positive number or positive infinity.
    pub open spec fn is_non_negative(self) -> bool {
        self.bits <= INFINITY_BITS
    }

    /// The value of a non-negative double, as a multiple of the smallest positive double.
    pub open spec fn value(self) -> nat {
        units(self.bits as nat / 0x10_0000_0000_0000, self.bits as nat % 0x10_0000_0000_0000)
    }

    /// The double is a number that is not below `limit`, a positive one.
    pub open spec fn reaches(self, limit: Double) -> bool {
        self.is_non_negative() && self.value() >= limit.value()
    }

    /// The double is a number above `limit`, a positive one.
    pub open spec fn exceeds(self, limit: Double) -> bool {
        self.is_non_negative() && self.value() > limit.value()
    }

    /// The double is a number that is not below the whole number `n`, a positive one.
    pub open spec fn reaches_whole(self, n: nat) -> bool {
        self.is_non_negative() && self.value() >= whole_units(n)
    }

    /// The double is a number above the whole number `n`.
    pub open spec fn exceeds_whole(self, n: nat) -> bool {
        self.is_non_negative() && self.value() > whole_units(n)
    }

    /// The double is the whole number `n`.
    pub open spec fn is_whole(self, n: nat) -> bool {
        self.is_non_negative() && self.value() == whole_units(n)
    }

    /// The double is zero, of either sign.
    pub open spec fn is_zero_spec(self) -> bool {
        self.bits == 0 || self.bits == NEGATIVE_ZERO_BITS
    }

    /// The double is not below `limit`.
    pub fn at_least(self, limit: Double) -> (r: bool)
        requires
            limit.is_non_negative(),
        ensures
            r == self.reaches(limit),
    {
        proof {
            if self.is_non_negative() {
                if self.bits < limit.bits {
                    lemma_value_increases(self, limit);
                } else if limit.bits < self.bits {
                    lemma_value_increases(limit, self);
                }
            }
        }
        self.bits <= INFINITY_BITS && self.bits >= limit.bits
    }

    /// The double is above `limit`.
    pub fn above(self, limit: Double) -> (r: bool)
        requires
            limit.is_non_negative(),
        ensures
            r == self.exceeds(limit),
    {
        proof {
            if self.is_non_negative() {
                if self.bits < limit.bits {
                    lemma_value_increases(self, limit);
                } else if limit.bits < self.bits {
                    lemma_value_increases(limit, self);
                }
            }
        }
        self.bits <= INFINITY_BITS && self.bits > limit.bits
    }

    /// The double is zero, of either sign.
    pub fn is_zero(self) -> (r: bool)
        ensures
            r == self.is_zero_spec(),
    {
        self.bits == 0 || self.bits == NEGATIVE_ZERO_BITS
    }
}

/// Nothing was measured, or zero was.
pub fn is_zero_f64(v: &Option<Double>) -> (r: bool)
    ensures
        r == match *v {
            None => true,
            Some(x) => x.is_zero_spec(),
        },
{
    match v {
        None => true,
        Some(x) => x.is_zero(),
    }
}

/// A non-negative double with the larger bit pattern has the larger value.
pub proof fn lemma_value_increases(a: Double, b: Double)
    requires
        a.bits < b.bits,
        b.is_non_negative(),
    ensures
        a.value() < b.value(),
{
    let one: nat = 0x10_0000_0000_0000;
    let (ea, fa) = (a.bits as nat / one, a.bits as nat % one);
    let (eb, fb) = (b.bits as nat / one, b.bits as nat % one);
    assert(ea <= eb);
    if ea == eb {
        assert(fa < fb);
        if ea > 0 {
            let p = pow2((ea - 1) as nat);
            lemma_pow2_pos((ea - 1) as nat);
            assert((one + fa) * p < (one + fb) * p) by (nonlinear_arith)
                requires
                    fa < fb,
                    p > 0,
            ;
        }
    } else {
        let pb = pow2((eb - 1) as nat);
        lemma_pow2_pos((eb - 1) as nat);
        assert(one * pb <= (one + fb) * pb) by (nonlinear_arith)
            requires
                pb > 0,
                fb >= 0,
        ;
        if ea == 0 {
            assert(one <= one * pb) by (nonlinear_arith)
                requires
                    pb >= 1,
            ;
        } else {
            let pa = pow2((ea - 1) as nat);
            let gap = (eb - ea) as nat;
            lemma_pow2_adds((ea - 1) as nat, gap);
            lemma_pow2_pos((ea - 1) as nat);
            lemma_pow2_strictly_increases(0, gap);
            lemma2_to64();
            assert((one + fa) * pa < one * (pa * pow2(gap))) by (nonlinear_arith)
                requires
                    fa < one,
                    pa > 0,
                    pow2(gap) >= 2,
            ;
        }
    }
}

/// A double whose significand is `n` shifted to the left as its exponent calls for is the
/// whole number `n`.
pub proof fn lemma_whole(d: Double, n: nat, shift: nat)
    requires
        d.is_non_negative(),
        shift < 1074,
        d.bits as nat / 0x10_0000_0000_0000 == 1075 - shift,
        0x10_0000_0000_0000 + d.bits as nat % 0x10_0000_0000_0000 == n * pow2(shift),
    ensures
        d.is_whole(n),
{
    let low = (1074 - shift) as nat;
    lemma_pow2_adds(shift, low);
    assert((n * pow2(shift)) * pow2(low) == n * (pow2(shift) * pow2(low))) by (nonlinear_arith);
}

/// A double that is a whole number compares with whole numbers as that number does, and any
/// double that is not below another one that reaches a whole number reaches it too.
pub proof fn doubles_compare_by_value(d: Double, e: Double, m: nat, n: nat)
    ensures
        d.is_whole(m) ==> d.reaches_whole(n) == (m >= n) && d.exceeds_whole(n) == (m > n),
        d.is_non_negative() && e.is_non_negative() && d.bits <= e.bits && d.reaches_whole(n)
            ==> e.reaches_whole(n),
        d.is_non_negative() && e.is_non_negative() && d.bits <= e.bits && d.exceeds_whole(n)
            ==> e.exceeds_whole(n),
        d.exceeds_whole(n) ==> d.reaches_whole(n),
        d.reaches_whole(n + 1) ==> d.exceeds_whole(n),
        d.reaches(e) && e.is_non_negative() ==> d.bits >= e.bits,
        d.is_non_negative() && e.is_non_negative() && d.bits >= e.bits ==> d.reaches(e),
        d.exceeds(e) && e.is_non_negative() ==> d.bits > e.bits,
        d.is_non_negative() && e.is_non_negative() && d.bits > e.bits ==> d.exceeds(e),
        d.bits > 0x7ff0_0000_0000_0000 ==> !d.reaches_whole(n) && !d.exceeds_whole(n) && !d.reaches(
            e,
        ) && !d.exceeds(e),
{
    let p = pow2(1074);
    lemma_pow2_pos(1074);
    assert((m * p >= n * p) == (m >= n)) by (nonlinear_arith)
        requires
            p > 0,
    ;
    assert((m * p > n * p) == (m > n)) by (nonlinear_arith)
        requires
            p > 0,
    ;
    assert((n + 1) * p > n * p) by (nonlinear_arith)
        requires
            p > 0,
    ;
    if d.bits < e.bits && e.is_non_negative() {
        lemma_value_increases(d, e);
    }
    if e.bits < d.bits && d.is_non_negative() {
        lemma_value_increases(e, d);
    }
}

} // verus!
