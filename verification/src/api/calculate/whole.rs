//! Which double-precision numbers are whole and not negative, told from the
//! sixty-four bits that such a number is kept in.
//!
//! The bits are a sign, eleven bits of exponent and fifty-two bits of
//! fraction. A number with exponent 0 is its fraction times two to the power
//! of -1074; with exponent 2047 it is infinite or no number at all; with
//! any other exponent `e` it is two to the power of 52, plus the fraction,
//! times two to the power of `e - 1075`.

use vstd::arithmetic::div_mod::{lemma_fundamental_div_mod, lemma_mod_multiples_basic};
use vstd::arithmetic::mul::{lemma_mul_inequality, lemma_mul_is_commutative};
use vstd::arithmetic::power2::{
    lemma2_to64, lemma2_to64_rest, lemma_pow2_pos, lemma_pow2_strictly_increases, pow2,
};
use vstd::bits::lemma_u64_shl_is_mul;
use vstd::prelude::*;

verus! {

/// The sign bit: 1 for what is below zero, and for the zero with a sign.
pub open spec fn sign_of(bits: u64) -> nat {
    (bits as nat) / pow2(63)
}

/// The eleven bits of the exponent.
pub open spec fn exponent_of(bits: u64) -> nat {
    ((bits as nat) / pow2(52)) % 2048
}

/// The fifty-two bits of the fraction.
pub open spec fn fraction_of(bits: u64) -> nat {
    (bits as nat) % pow2(52)
}

/// The whole number that is scaled by a power of two to give the size of
/// the number.
pub open spec fn significand(bits: u64) -> nat {
    if exponent_of(bits) == 0 {
        fraction_of(bits)
    } else {
        pow2(52) + fraction_of(bits)
    }
}

/// The power of two that the significand is multiplied by, where it is
/// multiplied.
pub open spec fn raised(bits: u64) -> nat {
    if exponent_of(bits) > 1075 {
        (exponent_of(bits) - 1075) as nat
    } else {
        0
    }
}

/// The power of two that the significand is divided by, where it is
/// divided.
pub open spec fn lowered(bits: u64) -> nat {
    if exponent_of(bits) == 0 {
        1074
    } else if exponent_of(bits) < 1075 {
        (1075 - exponent_of(bits)) as nat
    } else {
        0
    }
}

/// Whether the number kept in `bits` is the whole number `count`: it is
/// finite, its size is exactly `count`, and it is not below zero.
pub open spec fn is_count(bits: u64, count: nat) -> bool {
    &&& exponent_of(bits) != 2047
    &&& sign_of(bits) == 0 || count == 0
    &&& significand(bits) * pow2(raised(bits)) == count * pow2(lowered(bits))
}

/// What a number is, as far as counting goes.
#[derive(Debug, Clone, Copy, PartialEq, Eq, Structural)]
pub enum Whole {
    /// Not a whole number, or below zero, or not finite.
    Not,
    /// This whole number.
    Count(u64),
    /// A whole number too large for sixty-four bits.
    Beyond,
}

/// A number is at most one count.
pub proof fn lemma_one_count(bits: u64, one: nat, other: nat)
    requires
        is_count(bits, one),
        is_count(bits, other),
    ensures
        one == other,
{
    let scale = pow2(lowered(bits));
    lemma_pow2_pos(lowered(bits));
    assert(one * scale == other * scale ==> one == other) by (nonlinear_arith)
        requires
            scale > 0,
    ;
}

/// A significand that is not a multiple of the power of two it is divided
/// by gives no whole number.
proof fn lemma_no_count(bits: u64)
    requires
        raised(bits) == 0,
        significand(bits) % pow2(lowered(bits)) != 0,
    ensures
        forall|count: nat| !is_count(bits, count),
{
    let scale = pow2(lowered(bits));
    lemma_pow2_pos(lowered(bits));
    lemma2_to64();
    assert forall|count: nat| !is_count(bits, count) by {
        lemma_mod_multiples_basic(count as int, scale as int);
    }
}

/// Reads from the bits of a double-precision number whether it is a whole
/// number that is not below zero, and which. Both zeros are the count 0.
pub fn whole(bits: u64) -> (found: Whole)
    ensures
        match found {
            Whole::Count(count) => is_count(bits, count as nat),
            Whole::Beyond => exists|count: nat| count > u64::MAX && is_count(bits, count),
            Whole::Not => forall|count: nat| !is_count(bits, count),
        },
{
    let sign = bits >> 63;
    let exponent = (bits >> 52) & 0x7ff;
    let fraction = bits & 0xf_ffff_ffff_ffff;
    proof {
        lemma2_to64();
        lemma2_to64_rest();
        assert(bits >> 63 == bits / 0x8000_0000_0000_0000) by (bit_vector);
        assert((bits >> 52) & 0x7ff == (bits / 0x10_0000_0000_0000) % 0x800) by (bit_vector);
        assert(bits & 0xf_ffff_ffff_ffff == bits % 0x10_0000_0000_0000) by (bit_vector);
        assert(sign == sign_of(bits));
        assert(exponent == exponent_of(bits));
        assert(fraction == fraction_of(bits));
    }
    if exponent == 0x7ff {
        return Whole::Not;
    }
    if exponent == 0 {
        if fraction == 0 {
            assert(is_count(bits, 0)) by {
                assert(0 * pow2(raised(bits)) == 0 * pow2(lowered(bits))) by (nonlinear_arith);
            }
            return Whole::Count(0);
        }
        proof {
            lemma_pow2_strictly_increases(52, 1074);
            assert(significand(bits) % pow2(1074) == significand(bits)) by (nonlinear_arith)
                requires
                    significand(bits) < pow2(1074),
            ;
            lemma_no_count(bits);
        }
        return Whole::Not;
    }
    let size: u64 = 0x10_0000_0000_0000 + fraction;
    assert(size == significand(bits));
    if sign != 0 {
        proof {
            lemma_pow2_pos(raised(bits));
            assert forall|count: nat| !is_count(bits, count) by {
                assert(significand(bits) * pow2(raised(bits)) > 0) by (nonlinear_arith)
                    requires
                        significand(bits) > 0,
                        pow2(raised(bits)) > 0,
                ;
            }
        }
        return Whole::Not;
    }
    if exponent < 1023 {
        proof {
            let down = lowered(bits);
            if down > 53 {
                lemma_pow2_strictly_increases(53, down);
            }
            assert(significand(bits) % pow2(down) == significand(bits)) by (nonlinear_arith)
                requires
                    significand(bits) < pow2(down),
            ;
            lemma_no_count(bits);
        }
        Whole::Not
    } else if exponent <= 1075 {
        let down: u64 = 1075 - exponent;
        proof {
            lemma_pow2_pos(down as nat);
            if down < 52 {
                lemma_pow2_strictly_increases(down as nat, 52);
            }
            lemma_u64_shl_is_mul(1, down);
        }
        let scale: u64 = 1u64 << down;
        assert(scale == pow2(down as nat));
        if size % scale == 0 {
            let count = size / scale;
            proof {
                lemma_fundamental_div_mod(size as int, scale as int);
                lemma_mul_is_commutative(scale as int, count as int);
                assert(count * pow2(lowered(bits)) == size);
                assert(significand(bits) * pow2(raised(bits)) == size) by (nonlinear_arith)
                    requires
                        significand(bits) == size,
                        pow2(raised(bits)) == 1,
                ;
            }
            Whole::Count(count)
        } else {
            proof {
                lemma_no_count(bits);
            }
            Whole::Not
        }
    } else if exponent <= 1086 {
        let up: u64 = exponent - 1075;
        proof {
            lemma_pow2_pos(up as nat);
            if up < 11 {
                lemma_pow2_strictly_increases(up as nat, 11);
            }
            lemma_mul_inequality(pow2(up as nat) as int, 2048, size as int);
            lemma_mul_is_commutative(pow2(up as nat) as int, size as int);
            assert(size * 2048 <= u64::MAX);
            lemma_u64_shl_is_mul(size, up);
            let count = (size << up) as nat;
            assert(count * pow2(lowered(bits)) == count) by (nonlinear_arith)
                requires
                    pow2(lowered(bits)) == 1,
            ;
        }
        Whole::Count(size << up)
    } else {
        proof {
            let up = raised(bits);
            if up > 12 {
                lemma_pow2_strictly_increases(12, up);
            }
            let count = significand(bits) * pow2(up);
            assert(count >= 0x10_0000_0000_0000 * 4096) by (nonlinear_arith)
                requires
                    count == significand(bits) * pow2(up),
                    significand(bits) >= 0x10_0000_0000_0000,
                    pow2(up) >= 4096,
            ;
            assert(count * pow2(lowered(bits)) == count) by (nonlinear_arith)
                requires
                    pow2(lowered(bits)) == 1,
            ;
            assert(is_count(bits, count));
        }
        Whole::Beyond
    }
}

} // verus!
