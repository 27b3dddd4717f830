//! Numbers of the language: IEEE-754 binary64 values, held by their bit
//! pattern.
//!
//! A pattern is a sign, eleven bits of exponent and fifty-two bits of
//! fraction. The library never performs rounding arithmetic itself. What can
//! be read off the pattern exactly (sign, order, whether the number is whole,
//! its conversion to an integer) is computed here; addition, subtraction,
//! multiplication, division, remainder and decimal text are supplied by
//! the host.

use vstd::prelude::*;
use vstd::arithmetic::div_mod::{lemma_basic_div, lemma_small_mod};
use vstd::arithmetic::power2::{
    lemma2_to64, lemma2_to64_rest, lemma_pow2_pos, lemma_pow2_strictly_increases, pow2,
};
use vstd::bits::{lemma_u64_shl_is_mul, lemma_u64_shr_is_div};

verus! {

/// The bit of the sign.
pub const SIGN_BIT: u64 = 0x8000_0000_0000_0000;

/// The bits of the exponent.
pub const EXPONENT_BITS: u64 = 0x7ff0_0000_0000_0000;

/// The bits of the fraction.
pub const FRACTION_BITS: u64 = 0x000f_ffff_ffff_ffff;

/// The bit that a normal number has in front of its fraction without
/// storing it.
pub const HIDDEN_BIT: u64 = 0x0010_0000_0000_0000;

/// The bit pattern of `1.0`.
pub const ONE_BITS: u64 = 0x3ff0_0000_0000_0000;

/// A binary64 number, identified by its bit pattern.
#[derive(Clone, Copy, Debug)]
pub struct Number {
    pub bits: u64,
}

/// Whether the sign bit is set.
pub open spec fn bits_negative(bits: u64) -> bool {
    bits >= 0x8000_0000_0000_0000
}

/// The exponent as it is stored, from 0 to 2047.
pub open spec fn bits_exponent(bits: u64) -> nat {
    (bits as nat / 0x0010_0000_0000_0000) % 0x800
}

/// The fraction as it is stored, below 2^52.
pub open spec fn bits_fraction(bits: u64) -> nat {
    bits as nat % 0x0010_0000_0000_0000
}

/// Whether the pattern stands for "not a number".
pub open spec fn bits_nan(bits: u64) -> bool {
    bits_exponent(bits) == 2047 && bits_fraction(bits) != 0
}

/// Whether the pattern stands for a number that is not infinite.
pub open spec fn bits_finite(bits: u64) -> bool {
    bits_exponent(bits) != 2047
}

/// The significand of a finite pattern: the pattern stands for plus or
/// minus `significand * 2^scale`.
pub open spec fn bits_significand(bits: u64) -> nat {
    if bits_exponent(bits) == 0 {
        bits_fraction(bits)
    } else {
        bits_fraction(bits) + 0x0010_0000_0000_0000
    }
}

/// The scale of a finite pattern: the pattern stands for plus or minus
/// `significand * 2^scale`.
pub open spec fn bits_scale(bits: u64) -> int {
    if bits_exponent(bits) == 0 {
        -1074
    } else {
        bits_exponent(bits) - 1075
    }
}

/// The place of a pattern on the number line, for patterns that are
/// numbers: exponent and fraction read as one integer, negated under a
/// sign. Numbers compare as their keys do; both zeros have key 0.
pub open spec fn bits_key(bits: u64) -> int {
    if bits_negative(bits) {
        -(bits as int % 0x8000_0000_0000_0000)
    } else {
        bits as int
    }
}

/// Whether the pattern stands for a finite number without fractional part.
pub open spec fn bits_integral(bits: u64) -> bool {
    bits_finite(bits) && (bits_scale(bits) >= 0 || bits_significand(bits) % pow2(
        (-bits_scale(bits)) as nat,
    ) == 0)
}

/// The whole part of the magnitude of a finite pattern.
pub open spec fn bits_whole(bits: u64) -> nat {
    if bits_scale(bits) >= 0 {
        bits_significand(bits) * pow2(bits_scale(bits) as nat)
    } else {
        bits_significand(bits) / pow2((-bits_scale(bits)) as nat)
    }
}

/// The integer that a pattern converts to: the number without its
/// fractional part where that lies in the range of `i64`, the nearest end of
/// the range where it does not, 0 for "not a number".
pub open spec fn bits_to_i64(bits: u64) -> i64 {
    if bits_nan(bits) {
        0
    } else if !bits_finite(bits) || bits_whole(bits) > i64::MAX {
        if bits_negative(bits) {
            i64::MIN
        } else {
            i64::MAX
        }
    } else if bits_negative(bits) {
        (-(bits_whole(bits) as int)) as i64
    } else {
        bits_whole(bits) as i64
    }
}

/// The pattern with the other sign.
pub open spec fn bits_negated(bits: u64) -> u64 {
    if bits_negative(bits) {
        (bits - 0x8000_0000_0000_0000) as u64
    } else {
        (bits + 0x8000_0000_0000_0000) as u64
    }
}

impl Number {
    /// The number with the given bit pattern.
    pub fn from_bits(bits: u64) -> (r: Number)
        ensures
            r.bits == bits,
    {
        Number { bits }
    }

    /// The number one.
    pub fn one() -> (r: Number)
        ensures
            r.bits == ONE_BITS,
    {
        Number { bits: ONE_BITS }
    }

    pub open spec fn spec_is_nan(self) -> bool {
        bits_nan(self.bits)
    }

    pub open spec fn key(self) -> int {
        bits_key(self.bits)
    }

    /// Numeric equality: no "not a number" equals anything, the two zeros
    /// are equal.
    pub open spec fn spec_num_eq(self, other: Number) -> bool {
        !self.is_nan() && !other.is_nan() && self.key() == other.key()
    }

    /// Numeric order: nothing is below or above a "not a number".
    pub open spec fn spec_num_lt(self, other: Number) -> bool {
        !self.is_nan() && !other.is_nan() && self.key() < other.key()
    }

    pub open spec fn spec_num_le(self, other: Number) -> bool {
        !self.is_nan() && !other.is_nan() && self.key() <= other.key()
    }

    pub open spec fn spec_negate(self) -> Number {
        Number { bits: bits_negated(self.bits) }
    }

    pub open spec fn spec_is_integral(self) -> bool {
        bits_integral(self.bits)
    }

    pub open spec fn spec_to_i64(self) -> i64 {
        bits_to_i64(self.bits)
    }

    /// The sign, the stored exponent and the stored fraction.
    fn parts(self) -> (r: (bool, u64, u64))
        ensures
            r.0 == bits_negative(self.bits),
            r.1 == bits_exponent(self.bits),
            r.2 == bits_fraction(self.bits),
            r.1 <= 2047,
            r.2 < 0x0010_0000_0000_0000,
    {
        let bits = self.bits;
        let negative = bits & SIGN_BIT != 0;
        let e: u64 = (bits & EXPONENT_BITS) >> 52;
        let f: u64 = bits & FRACTION_BITS;
        assert((bits & 0x8000_0000_0000_0000 != 0) == (bits >= 0x8000_0000_0000_0000))
            by (bit_vector);
        assert((bits & 0x7ff0_0000_0000_0000) >> 52 == (bits / 0x0010_0000_0000_0000) % 0x800)
            by (bit_vector);
        assert(bits & 0x000f_ffff_ffff_ffff == bits % 0x0010_0000_0000_0000) by (bit_vector);
        (negative, e, f)
    }

    /// Whether this is "not a number".
    #[verifier::when_used_as_spec(spec_is_nan)]
    pub fn is_nan(self) -> (r: bool)
        ensures
            r == bits_nan(self.bits),
    {
        let (_, e, f) = self.parts();
        e == 2047 && f != 0
    }

    /// The magnitude of the key, and whether the key is negative.
    fn split_key(self) -> (r: (bool, u64))
        ensures
            r.1 <= 0x7fff_ffff_ffff_ffff,
            self.key() == if r.0 {
                -(r.1 as int)
            } else {
                r.1 as int
            },
            r.0 ==> r.1 > 0,
    {
        let bits = self.bits;
        let magnitude = bits & !SIGN_BIT;
        let negative = bits & SIGN_BIT != 0;
        assert(bits & !0x8000_0000_0000_0000 == bits % 0x8000_0000_0000_0000) by (bit_vector);
        assert((bits & 0x8000_0000_0000_0000 != 0) == (bits >= 0x8000_0000_0000_0000))
            by (bit_vector);
        (negative && magnitude > 0, magnitude)
    }

    /// Numeric equality.
    #[verifier::when_used_as_spec(spec_num_eq)]
    pub fn num_eq(self, other: Number) -> (r: bool)
        ensures
            r == self.spec_num_eq(other),
    {
        if self.is_nan() || other.is_nan() {
            return false;
        }
        let (an, am) = self.split_key();
        let (bn, bm) = other.split_key();
        an == bn && am == bm
    }

    /// Whether this number is strictly below the other.
    #[verifier::when_used_as_spec(spec_num_lt)]
    pub fn num_lt(self, other: Number) -> (r: bool)
        ensures
            r == self.spec_num_lt(other),
    {
        if self.is_nan() || other.is_nan() {
            return false;
        }
        let (an, am) = self.split_key();
        let (bn, bm) = other.split_key();
        if an {
            !bn || am > bm
        } else {
            !bn && am < bm
        }
    }

    /// Whether this number is below or equal to the other.
    #[verifier::when_used_as_spec(spec_num_le)]
    pub fn num_le(self, other: Number) -> (r: bool)
        ensures
            r == self.spec_num_le(other),
    {
        if self.is_nan() || other.is_nan() {
            return false;
        }
        let (an, am) = self.split_key();
        let (bn, bm) = other.split_key();
        if an {
            !bn || am >= bm
        } else {
            !bn && am <= bm
        }
    }

    /// The number with the other sign.
    #[verifier::when_used_as_spec(spec_negate)]
    pub fn negate(self) -> (r: Number)
        ensures
            r == self.spec_negate(),
    {
        let bits = self.bits;
        assert(bits ^ 0x8000_0000_0000_0000 == if bits >= 0x8000_0000_0000_0000 {
            (bits - 0x8000_0000_0000_0000) as u64
        } else {
            (bits + 0x8000_0000_0000_0000) as u64
        }) by (bit_vector);
        Number { bits: bits ^ SIGN_BIT }
    }

    /// Whether this is a finite number without fractional part.
    #[verifier::when_used_as_spec(spec_is_integral)]
    pub fn is_integral(self) -> (r: bool)
        ensures
            r == self.spec_is_integral(),
    {
        let (_, e, f) = self.parts();
        proof {
            lemma2_to64_rest();
        }
        if e == 0 {
            proof {
                lemma_pow2_strictly_increases(52, 1074);
                lemma_small_mod(f as nat, pow2(1074));
            }
            f == 0
        } else if e < 1023 {
            proof {
                let k = (1075 - e) as nat;
                if k > 53 {
                    lemma_pow2_strictly_increases(53, k);
                }
                lemma_small_mod((f + HIDDEN_BIT) as nat, pow2(k));
            }
            false
        } else if e < 1075 {
            let k: u64 = 1075 - e;
            let m: u64 = f + HIDDEN_BIT;
            proof {
                lemma_pow2_pos(k as nat);
                if k < 52 {
                    lemma_pow2_strictly_increases(k as nat, 52);
                }
                lemma_u64_shl_is_mul(1, k);
            }
            m % (1u64 << k) == 0
        } else {
            e != 2047
        }
    }

    /// This number as an integer: without its fractional part where that
    /// lies in the range of `i64`, the nearest end of the range where it
    /// does not, 0 for "not a number".
    #[verifier::when_used_as_spec(spec_to_i64)]
    pub fn to_i64(self) -> (r: i64)
        ensures
            r == self.spec_to_i64(),
    {
        let (negative, e, f) = self.parts();
        proof {
            lemma2_to64();
            lemma2_to64_rest();
        }
        if e == 2047 {
            if f != 0 {
                0
            } else if negative {
                i64::MIN
            } else {
                i64::MAX
            }
        } else if e >= 1086 {
            proof {
                let k = (e - 1075) as nat;
                if k > 11 {
                    lemma_pow2_strictly_increases(11, k);
                }
                let m = (f + HIDDEN_BIT) as int;
                let p = pow2(k) as int;
                assert(m * p >= 0x8000_0000_0000_0000) by (nonlinear_arith)
                    requires
                        m >= 0x0010_0000_0000_0000,
                        p >= 0x800,
                ;
            }
            if negative {
                i64::MIN
            } else {
                i64::MAX
            }
        } else if e < 1023 {
            proof {
                let k = (-bits_scale(self.bits)) as nat;
                if k > 53 {
                    lemma_pow2_strictly_increases(53, k);
                }
                lemma_basic_div(bits_significand(self.bits) as int, pow2(k) as int);
            }
            0
        } else {
            let m: u64 = f + HIDDEN_BIT;
            let magnitude: u64 = if e >= 1075 {
                let k: u64 = e - 1075;
                proof {
                    if k < 10 {
                        lemma_pow2_strictly_increases(k as nat, 10);
                    }
                    lemma_pow2_pos(k as nat);
                    let p = pow2(k as nat) as int;
                    assert(m * p < 0x8000_0000_0000_0000) by (nonlinear_arith)
                        requires
                            0 <= m < 0x0020_0000_0000_0000,
                            0 < p <= 0x400,
                    ;
                    lemma_u64_shl_is_mul(m, k);
                }
                m << k
            } else {
                let k: u64 = 1075 - e;
                proof {
                    lemma_u64_shr_is_div(m, k);
                    lemma_pow2_pos(k as nat);
                    assert(m as nat / pow2(k as nat) <= m) by (nonlinear_arith)
                        requires
                            pow2(k as nat) > 0,
                    ;
                }
                m >> k
            };
            if negative {
                -(magnitude as i64)
            } else {
                magnitude as i64
            }
        }
    }
}

} // verus!
