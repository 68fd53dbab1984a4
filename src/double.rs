use vstd::arithmetic::power2::{lemma2_to64, lemma_pow2_pos, lemma_pow2_strictly_increases, lemma_pow2_unfold, pow2};
use vstd::prelude::*;

verus! {

/// The sign bit of a double's bit pattern.
pub const SIGN_BIT: u64 = 0x8000_0000_0000_0000;

/// The magnitude bits of an infinity; every larger magnitude is a NaN.
pub const INFINITY_MAGNITUDE: u64 = 0x7FF0_0000_0000_0000;

/// One unit of the biased exponent field: the fraction field holds 52 bits.
pub const FRACTION_SPAN: u64 = 0x10_0000_0000_0000;

/// An IEEE-754 double-precision number, held as its 64-bit pattern.
#[derive(Clone, Copy, Debug, PartialEq, Eq)]
pub struct Double {
    pub bits: u64,
}

/// The sign bit is set (a negative number, a negative zero or a negative NaN).
pub open spec fn is_negative_bits(d: Double) -> bool {
    d.bits >= SIGN_BIT
}

/// The bit pattern without its sign bit.
pub open spec fn magnitude(d: Double) -> nat {
    if is_negative_bits(d) {
        (d.bits - SIGN_BIT) as nat
    } else {
        d.bits as nat
    }
}

/// Neither an infinity nor a NaN: the exponent field is not all ones.
pub open spec fn finite_value(d: Double) -> bool {
    magnitude(d) < INFINITY_MAGNITUDE
}

/// The value of a non-negative double with magnitude bits `m`, times 2^1074.
/// Every finite double is a whole multiple of 2^-1074, so this is an exact integer.
pub open spec fn magnitude_value(m: nat) -> nat {
    let e = m / (FRACTION_SPAN as nat);
    let f = m % (FRACTION_SPAN as nat);
    if e == 0 {
        f
    } else {
        ((FRACTION_SPAN + f) * pow2((e - 1) as nat)) as nat
    }
}

/// The real value of a finite double, times 2^1074.
pub open spec fn scaled_value(d: Double) -> int {
    if is_negative_bits(d) {
        -(magnitude_value(magnitude(d)) as int)
    } else {
        magnitude_value(magnitude(d)) as int
    }
}

/// Below every value of the next exponent: (2^52 + f) * 2^(e-1) < 2^52 * 2^e.
proof fn lemma_below_next_exponent(m: nat)
    ensures
        magnitude_value(m) < FRACTION_SPAN * pow2(m / (FRACTION_SPAN as nat)),
{
    let e = m / (FRACTION_SPAN as nat);
    let f = m % (FRACTION_SPAN as nat);
    assert(f < FRACTION_SPAN);
    if e == 0 {
        lemma2_to64();
    } else {
        lemma_pow2_unfold(e);
        let q = pow2((e - 1) as nat);
        lemma_pow2_pos((e - 1) as nat);
        assert((FRACTION_SPAN + f) * q < (2 * FRACTION_SPAN) * q) by (nonlinear_arith)
            requires
                f < FRACTION_SPAN,
                q > 0,
        ;
        assert((2 * FRACTION_SPAN) * q == FRACTION_SPAN * (2 * q)) by (nonlinear_arith);
    }
}

/// The value of a non-negative double grows strictly with its magnitude bits.
pub proof fn lemma_magnitude_value_strictly_increases(m1: nat, m2: nat)
    requires
        m1 < m2,
    ensures
        magnitude_value(m1) < magnitude_value(m2),
{
    let s = FRACTION_SPAN as nat;
    let e1 = m1 / s;
    let e2 = m2 / s;
    let f1 = m1 % s;
    let f2 = m2 % s;
    assert(m1 == s * e1 + f1 && m2 == s * e2 + f2 && f1 < s && f2 < s);
    assert(e1 <= e2) by (nonlinear_arith)
        requires
            m1 == s * e1 + f1,
            m2 == s * e2 + f2,
            f1 < s,
            f2 < s,
            m1 < m2,
            s > 0,
    ;
    if e1 == e2 {
        assert(f1 < f2);
        if e1 != 0 {
            let q = pow2((e1 - 1) as nat);
            lemma_pow2_pos((e1 - 1) as nat);
            assert((s + f1) * q < (s + f2) * q) by (nonlinear_arith)
                requires
                    f1 < f2,
                    q > 0,
            ;
        }
    } else {
        lemma_below_next_exponent(m1);
        let q = pow2((e2 - 1) as nat);
        if e1 < e2 - 1 {
            lemma_pow2_strictly_increases(e1, (e2 - 1) as nat);
        }
        let p = pow2(e1);
        assert(s * p <= (s + f2) * q) by (nonlinear_arith)
            requires
                p <= q,
        ;
    }
}

/// The value of a non-negative double with magnitude bits zero is zero, and
/// positive for any other magnitude.
proof fn lemma_magnitude_value_zero(m: nat)
    ensures
        magnitude_value(0) == 0,
        m > 0 ==> magnitude_value(m) > 0,
{
    assert(0nat / (FRACTION_SPAN as nat) == 0 && 0nat % (FRACTION_SPAN as nat) == 0);
    if m > 0 {
        lemma_magnitude_value_strictly_increases(0, m);
    }
}

impl Double {
    /// The double whose bit pattern is `bits`.
    pub fn from_bits(bits: u64) -> (r: Double)
        ensures
            r.bits == bits,
    {
        Double { bits }
    }

    /// The sign bit and the magnitude bits of this double.
    fn split(&self) -> (r: (bool, u64))
        ensures
            r.0 == is_negative_bits(*self),
            r.1 as nat == magnitude(*self),
    {
        if self.bits >= SIGN_BIT {
            (true, self.bits - SIGN_BIT)
        } else {
            (false, self.bits)
        }
    }

    /// Whether this double is a finite number: neither an infinity nor a NaN.
    pub fn is_finite(&self) -> (r: bool)
        ensures
            r == finite_value(*self),
    {
        let (_, m) = self.split();
        m < INFINITY_MAGNITUDE
    }

    /// Whether the value of this double is less than that of `other`.
    /// A negative zero and a positive zero are equal.
    pub fn less_than(&self, other: &Double) -> (r: bool)
        requires
            finite_value(*self),
            finite_value(*other),
        ensures
            r == (scaled_value(*self) < scaled_value(*other)),
    {
        let (na, ma) = self.split();
        let (nb, mb) = other.split();
        proof {
            lemma_magnitude_value_zero(ma as nat);
            lemma_magnitude_value_zero(mb as nat);
            if ma < mb {
                lemma_magnitude_value_strictly_increases(ma as nat, mb as nat);
            } else if mb < ma {
                lemma_magnitude_value_strictly_increases(mb as nat, ma as nat);
            }
        }
        if !na && !nb {
            ma < mb
        } else if na && nb {
            mb < ma
        } else if na {
            !(ma == 0 && mb == 0)
        } else {
            false
        }
    }

    /// Whether the value of this double is at most that of `other`.
    pub fn at_most(&self, other: &Double) -> (r: bool)
        requires
            finite_value(*self),
            finite_value(*other),
        ensures
            r == (scaled_value(*self) <= scaled_value(*other)),
    {
        !other.less_than(self)
    }
}

} // verus!
