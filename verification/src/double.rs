//! Double-precision numbers, carried by their bit patterns.

use vstd::arithmetic::power2::{
    lemma2_to64, lemma2_to64_rest, lemma_pow2_adds, lemma_pow2_pos, lemma_pow2_unfold, pow2,
};
use vstd::prelude::*;

verus! {

/// The bit pattern of positive infinity.
pub const INFINITY_BITS: u64 = 0x7FF0_0000_0000_0000;

/// The bit pattern of the number one.
pub const ONE_BITS: u64 = 0x3FF0_0000_0000_0000;

/// The bit that is set in the pattern of a negative number.
pub const SIGN_BIT: u64 = 0x8000_0000_0000_0000;

/// The least significand of a normal number.
pub const LEAST_SIGNIFICAND: u64 = 0x0010_0000_0000_0000;

/// An IEEE 754 double-precision number, held as its bits.
#[derive(Debug, Clone, Copy, PartialEq, Eq, Structural)]
pub struct Double {
    pub bits: u64,
}

impl Double {
    /// Whether the number is greater than zero.
    ///
    /// The bit patterns of the positive numbers are those from just above zero
    /// up to infinity. Above them lie the not-a-number patterns and everything
    /// that has the sign bit set.
    pub open spec fn positive(self) -> bool {
        0 < self.bits <= INFINITY_BITS
    }

    /// Whether the number is greater than zero.
    pub fn is_positive(&self) -> (yes: bool)
        ensures
            yes == self.positive(),
    {
        0 < self.bits && self.bits <= INFINITY_BITS
    }
}

/// A number is greater than zero exactly if its sign is clear, it is not zero, and
/// it is a number at all: its exponent is not the greatest one, or it has no
/// fraction, which makes it infinite.
pub proof fn law_positive_numbers_have_a_clear_sign(d: Double)
    ensures
        ({
            let sign = d.bits as int / 0x8000_0000_0000_0000;
            let exponent = d.bits as int / 0x0010_0000_0000_0000 % 2048;
            let fraction = d.bits as int % 0x0010_0000_0000_0000;
            d.positive() <==> sign == 0 && !(exponent == 0 && fraction == 0) && !(exponent == 2047
                && fraction > 0)
        }),
{
}

// ---------------------------------------------------------------------------
// Integers
// ---------------------------------------------------------------------------

/// The exponent of the greatest power of two that is not above `m`.
pub open spec fn binary_exponent(m: nat) -> nat
    decreases m,
{
    if m < 2 {
        0
    } else {
        binary_exponent(m / 2) + 1
    }
}

/// `m` divided by `unit` and rounded to the nearest integer, and to the even one
/// where two are equally near.
pub open spec fn rounded(m: nat, unit: nat) -> nat {
    let whole = m / unit;
    let rest = m % unit;
    if 2 * rest > unit || (2 * rest == unit && whole % 2 == 1) {
        whole + 1
    } else {
        whole
    }
}

/// The 53 bits that a double keeps of `m`, counted from its highest bit.
pub open spec fn significand(m: nat) -> nat {
    let exponent = binary_exponent(m);
    if exponent <= 52 {
        m * pow2((52 - exponent) as nat)
    } else {
        rounded(m, pow2((exponent - 52) as nat))
    }
}

/// The bits of the double nearest to an integer: zero for zero, and otherwise the
/// sign, the exponent with its bias of 1023, and the significand without its
/// highest bit. A significand that was rounded up to one bit more carries over
/// into the exponent.
pub open spec fn nearest_double_bits(n: int) -> u64 {
    if n == 0 {
        0
    } else {
        let m: nat = if n < 0 {
            (-n) as nat
        } else {
            n as nat
        };
        let sign: int = if n < 0 {
            SIGN_BIT as int
        } else {
            0
        };
        (sign + (1022 + binary_exponent(m)) * LEAST_SIGNIFICAND + significand(m)) as u64
    }
}

/// The double nearest to an integer is greater than zero exactly if the integer is.
pub proof fn law_the_nearest_double_keeps_the_sign(n: int)
    requires
        i64::MIN <= n <= u64::MAX,
    ensures
        (Double { bits: nearest_double_bits(n) }).positive() <==> n > 0,
{
    if n != 0 {
        let m: nat = if n < 0 {
            (-n) as nat
        } else {
            n as nat
        };
        let exponent = binary_exponent(m);
        lemma_binary_exponent(m);
        lemma_significand(m);
        lemma2_to64_rest();
        if exponent > 63 {
            lemma_pow2_adds(64, (exponent - 64) as nat);
            lemma_pow2_pos((exponent - 64) as nat);
            assert(pow2(64) * pow2((exponent - 64) as nat) >= pow2(64)) by (nonlinear_arith)
                requires
                    pow2((exponent - 64) as nat) >= 1,
            ;
        }
        assert(exponent <= 63);
        assert(exponent * LEAST_SIGNIFICAND <= 63 * LEAST_SIGNIFICAND) by (nonlinear_arith)
            requires
                exponent <= 63,
        ;
        assert((1022 + exponent) * LEAST_SIGNIFICAND == 1022 * LEAST_SIGNIFICAND + exponent
            * LEAST_SIGNIFICAND) by (nonlinear_arith);
        assert(0 <= exponent * LEAST_SIGNIFICAND) by (nonlinear_arith);
    }
}

/// Of an integer that 53 bits can hold, the nearest double is the integer itself:
/// its exponent and its fraction give it back, and so does its sign.
pub proof fn law_integers_of_53_bits_are_exact(n: int)
    requires
        0 < n < 0x0020_0000_0000_0000 || -0x0020_0000_0000_0000 < n < 0,
    ensures
        ({
            let bits = nearest_double_bits(n) as int;
            let exponent = bits / 0x0010_0000_0000_0000 % 2048;
            let fraction = bits % 0x0010_0000_0000_0000;
            &&& bits / 0x8000_0000_0000_0000 == if n < 0 {
                1int
            } else {
                0
            }
            &&& 1023 <= exponent <= 1075
            &&& (0x0010_0000_0000_0000 + fraction) * pow2((exponent - 1023) as nat) == (if n < 0 {
                -n
            } else {
                n
            }) * 0x0010_0000_0000_0000
        }),
{
    let m: nat = if n < 0 {
        (-n) as nat
    } else {
        n as nat
    };
    let e = binary_exponent(m);
    lemma_binary_exponent(m);
    lemma2_to64_rest();
    if e > 52 {
        lemma_pow2_adds(53, (e - 53) as nat);
        lemma_pow2_pos((e - 53) as nat);
        assert(pow2(53) * pow2((e - 53) as nat) >= pow2(53)) by (nonlinear_arith)
            requires
                pow2((e - 53) as nat) >= 1,
        ;
    }
    let scale = pow2((52 - e) as nat);
    let s = significand(m);
    lemma_pow2_adds(e, (52 - e) as nat);
    lemma_pow2_adds(e + 1, (52 - e) as nat);
    lemma_pow2_pos((52 - e) as nat);
    lemma_pow2_pos(e);
    assert(pow2(e) * scale <= m * scale < pow2(e + 1) * scale) by (nonlinear_arith)
        requires
            pow2(e) <= m < pow2(e + 1),
            scale > 0,
    ;
    let unit = 0x0010_0000_0000_0000int;
    assert(unit <= s < 2 * unit);
    let sign: int = if n < 0 {
        0x8000_0000_0000_0000
    } else {
        0
    };
    assert((1022 + e) * LEAST_SIGNIFICAND == 1022 * unit + e * unit) by (nonlinear_arith)
        requires
            unit == LEAST_SIGNIFICAND,
    ;
    let bits = sign + 1022 * unit + e * unit + s;
    assert(0 <= e * unit <= 52 * unit) by (nonlinear_arith)
        requires
            0 <= e <= 52,
            unit > 0,
    ;
    assert(nearest_double_bits(n) as int == bits);
    assert(bits / unit == sign / unit + 1023 + e && bits % unit == s - unit) by (nonlinear_arith)
        requires
            bits == sign + 1022 * unit + e * unit + s,
            unit <= s < 2 * unit,
            unit == 0x0010_0000_0000_0000,
            sign == 0 || sign == 2048 * unit,
            e >= 0,
    ;
    assert(s * pow2(e) == m * unit) by (nonlinear_arith)
        requires
            s == m * scale,
            pow2(e) * scale == unit,
    ;
}

/// Rounding never goes further than half a unit, and where it goes just as far, it
/// goes to an even number of units.
pub proof fn law_rounding_goes_to_the_nearest(m: nat, unit: nat)
    requires
        unit > 0,
    ensures
        -(unit as int) <= 2 * (m - rounded(m, unit) * unit) <= unit,
        2 * (m - rounded(m, unit) * unit) == unit || 2 * (rounded(m, unit) * unit - m) == unit
            ==> rounded(m, unit) % 2 == 0,
{
    let whole = m / unit;
    let rest = m % unit;
    assert(m == whole * unit + rest && 0 <= rest < unit) by (nonlinear_arith)
        requires
            unit > 0,
            whole == m / unit,
            rest == m % unit,
    ;
    assert((whole + 1) * unit == whole * unit + unit) by (nonlinear_arith);
}

/// `ONE_BITS` are the bits of one.
pub proof fn lemma_one_bits()
    ensures
        nearest_double_bits(1) == ONE_BITS,
{
    lemma2_to64();
    lemma2_to64_rest();
}

proof fn lemma_binary_exponent(m: nat)
    requires
        m > 0,
    ensures
        pow2(binary_exponent(m)) <= m < pow2(binary_exponent(m) + 1),
    decreases m,
{
    if m < 2 {
        lemma2_to64();
    } else {
        lemma_binary_exponent(m / 2);
        lemma_pow2_unfold(binary_exponent(m));
        lemma_pow2_unfold(binary_exponent(m) + 1);
    }
}

proof fn lemma_significand(m: nat)
    requires
        m > 0,
    ensures
        LEAST_SIGNIFICAND <= significand(m) <= 2 * LEAST_SIGNIFICAND,
{
    let exponent = binary_exponent(m);
    lemma_binary_exponent(m);
    lemma2_to64_rest();
    assert(pow2(52) == LEAST_SIGNIFICAND);
    assert(pow2(53) == 2 * LEAST_SIGNIFICAND);
    if exponent <= 52 {
        let scale = pow2((52 - exponent) as nat);
        lemma_pow2_adds(exponent, (52 - exponent) as nat);
        lemma_pow2_adds(exponent + 1, (52 - exponent) as nat);
        assert(pow2(exponent) * scale <= m * scale <= pow2(exponent + 1) * scale)
            by (nonlinear_arith)
            requires
                pow2(exponent) <= m < pow2(exponent + 1),
                scale >= 0,
        ;
    } else {
        let unit = pow2((exponent - 52) as nat);
        lemma_pow2_pos((exponent - 52) as nat);
        lemma_pow2_adds(52, (exponent - 52) as nat);
        lemma_pow2_adds(53, (exponent - 52) as nat);
        assert(pow2(52) <= m / unit < pow2(53)) by (nonlinear_arith)
            requires
                unit > 0,
                pow2(52) * unit <= m < pow2(53) * unit,
        ;
    }
}

} // verus!
