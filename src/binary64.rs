use vstd::arithmetic::div_mod::lemma_basic_div;
use vstd::arithmetic::power2::{
    lemma2_to64,
    lemma2_to64_rest,
    lemma_pow2_pos,
    lemma_pow2_strictly_increases,
    lemma_pow2_unfold,
    pow2,
};
use vstd::prelude::*;

verus! {

/// 2 to the 52nd: one past the largest fraction field.
pub const FRACTION_SPAN: u64 = 0x10_0000_0000_0000;

/// 2 to the 63rd: the sign bit.
pub const SIGN_BIT: u64 = 0x8000_0000_0000_0000;

/// An IEEE 754 binary64 number, held as its 64-bit pattern.
///
/// Values of this kind pass through the library unchanged; the one
/// computation made on them is the rounding of [`Binary64::round_to_u16`].
#[derive(Clone, Copy, Debug, PartialEq, Eq, Structural, Hash)]
pub struct Binary64 {
    pub bits: u64,
}

impl Binary64 {
    /// The sign bit is set.
    pub open spec fn is_negative(self) -> bool {
        self.bits >= SIGN_BIT
    }

    /// The 11-bit biased exponent field.
    pub open spec fn biased_exponent(self) -> nat {
        ((self.bits / FRACTION_SPAN) % 0x800) as nat
    }

    /// The 52-bit fraction field.
    pub open spec fn fraction(self) -> nat {
        (self.bits % FRACTION_SPAN) as nat
    }

    pub open spec fn is_nan(self) -> bool {
        self.biased_exponent() == 0x7FF && self.fraction() != 0
    }

    pub open spec fn is_infinite(self) -> bool {
        self.biased_exponent() == 0x7FF && self.fraction() == 0
    }

    /// The integer significand of a finite value: its magnitude is
    /// `significand * 2^(exponent)`.
    pub open spec fn significand(self) -> nat {
        if self.biased_exponent() == 0 {
            self.fraction()
        } else {
            (self.fraction() + FRACTION_SPAN) as nat
        }
    }

    /// The power of two that scales the significand of a finite value.
    pub open spec fn exponent(self) -> int {
        if self.biased_exponent() == 0 {
            -1074
        } else {
            self.biased_exponent() - 1075
        }
    }

    /// The magnitude of a finite value rounded to the nearest integer, halves
    /// rounded up.
    pub open spec fn rounded_magnitude(self) -> nat {
        if self.exponent() >= 0 {
            self.significand() * pow2(self.exponent() as nat)
        } else {
            let s = (-self.exponent()) as nat;
            ((self.significand() + pow2((s - 1) as nat)) / pow2(s)) as nat
        }
    }

    /// The value rounded half away from zero, then converted to `u16` with
    /// saturation: NaN and negative values give 0, values past the range
    /// give `u16::MAX`.
    pub open spec fn saturating_round(self) -> u16 {
        if self.is_nan() || self.is_negative() {
            0
        } else if self.is_infinite() || self.rounded_magnitude() > 0xFFFF {
            0xFFFF
        } else {
            self.rounded_magnitude() as u16
        }
    }

    pub fn from_bits(bits: u64) -> (r: Self)
        ensures
            r.bits == bits,
    {
        Binary64 { bits }
    }

    pub fn to_bits(self) -> (r: u64)
        ensures
            r == self.bits,
    {
        self.bits
    }

    /// Positive zero.
    pub fn zero() -> (r: Self)
        ensures
            r.bits == 0,
    {
        Binary64 { bits: 0 }
    }

    /// The value rounded half away from zero and converted to `u16`, as
    /// `x.round() as u16` does.
    pub fn round_to_u16(self) -> (r: u16)
        ensures
            r == self.saturating_round(),
    {
        let bits = self.bits;
        let negative = bits >= SIGN_BIT;
        let biased = (bits / FRACTION_SPAN) % 0x800;
        let fraction = bits % FRACTION_SPAN;
        if biased == 0x7FF {
            if fraction != 0 || negative {
                return 0;
            } else {
                return 0xFFFF;
            }
        }
        if negative {
            return 0;
        }
        let significand = if biased == 0 {
            fraction
        } else {
            fraction + FRACTION_SPAN
        };
        let effective = if biased == 0 {
            1
        } else {
            biased
        };
        if effective >= 1075 {
            proof {
                let k = (self.exponent()) as nat;
                lemma_pow2_pos(k);
                assert(self.significand() * pow2(k) >= self.significand()) by (nonlinear_arith)
                    requires
                        pow2(k) > 0,
                ;
            }
            return 0xFFFF;
        }
        let shift = 1075 - effective;
        proof {
            lemma2_to64();
            lemma2_to64_rest();
        }
        if shift >= 54 {
            proof {
                let s = shift as nat;
                lemma_pow2_unfold(s);
                if s - 1 > 53 {
                    lemma_pow2_strictly_increases(53, (s - 1) as nat);
                }
                lemma_basic_div(
                    (self.significand() + pow2((s - 1) as nat)) as int,
                    pow2(s) as int,
                );
            }
            return 0;
        }
        let mut scale: u64 = 1;
        let mut i: u64 = 0;
        while i < shift
            invariant
                i <= shift <= 53,
                scale == pow2(i as nat),
                pow2(54) == 0x40_0000_0000_0000,
            decreases shift - i,
        {
            proof {
                lemma_pow2_unfold((i + 1) as nat);
                lemma_pow2_strictly_increases((i + 1) as nat, 54);
            }
            scale = scale * 2;
            i = i + 1;
        }
        proof {
            lemma_pow2_unfold(shift as nat);
        }
        let rounded = (significand + scale / 2) / scale;
        if rounded > 0xFFFF {
            0xFFFF
        } else {
            rounded as u16
        }
    }
}

} // verus!
