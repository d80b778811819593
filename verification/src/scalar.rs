//! Elementary functions on binary64 encodings.
//!
//! The exponential and the logarithm are evaluated here by the classical
//! route: range reduction against powers of two (read and written directly
//! in the exponent field of the encoding), then a fixed-degree polynomial in
//! the reduced argument, every arithmetic step going through the named
//! primitive operations of `fp`. Each function's contract states its value
//! as the exact composition of those named operations, so callers and the
//! functions built on top (the activations, the losses) are pinned to one
//! deterministic result per input.
//!
//! Saturation choices, stated once: `exp` returns infinity for arguments at
//! or above 709 and zero for arguments at or below -708, slightly inside the
//! true overflow and subnormal-underflow boundaries of binary64.

use crate::fp::{
    add_bits, div_bits, fp_add, fp_div, fp_is_nan, fp_lt, fp_mul, fp_of_int, fp_round_int, fp_sub,
    is_nan_bits, lt_bits, mul_bits, of_int_bits, round_int_bits, sub_bits, B_HALF, B_INF, B_NEG_INF,
    B_ONE, B_QNAN, B_TWO, B_ZERO, MANT_MASK,
};
use vstd::prelude::*;

verus! {

/// Bit encoding of ln 2.
pub const B_LN2: u64 = 0x3FE62E42FEFA39EF;
/// Bit encoding of log2 e.
pub const B_LOG2E: u64 = 0x3FF71547652B82FE;
/// Bit encoding of 1 / ln 10.
pub const B_INV_LN10: u64 = 0x3FDBCB7B1526E50D;
/// Bit encoding of sqrt 2.
pub const B_SQRT2: u64 = 0x3FF6A09E667F3BCD;
/// Bit encoding of 709.0, the saturation threshold of `exp` toward infinity.
pub const B_EXP_HI: u64 = 0x4086280000000000;
/// Bit encoding of -708.0, the saturation threshold of `exp` toward zero.
pub const B_EXP_LO: u64 = 0xC086200000000000;
/// Bit encoding of 2^64, the rescaling factor for subnormal logarithm inputs.
pub const B_TWO_POW_64: u64 = 0x43F0000000000000;

/// Bit encodings of 1/k! for k = 0..12, the Taylor coefficients of `exp`.
pub const EC0: u64 = 0x3FF0000000000000;
pub const EC1: u64 = 0x3FF0000000000000;
pub const EC2: u64 = 0x3FE0000000000000;
pub const EC3: u64 = 0x3FC5555555555555;
pub const EC4: u64 = 0x3FA5555555555555;
pub const EC5: u64 = 0x3F81111111111111;
pub const EC6: u64 = 0x3F56C16C16C16C17;
pub const EC7: u64 = 0x3F2A01A01A01A01A;
pub const EC8: u64 = 0x3EFA01A01A01A01A;
pub const EC9: u64 = 0x3EC71DE3A556C734;
pub const EC10: u64 = 0x3E927E4FB7789F5C;
pub const EC11: u64 = 0x3E5AE64567F544E4;
pub const EC12: u64 = 0x3E21EED8EFF8D898;

/// Bit encodings of 1/(2k+1) for k = 0..10, the series coefficients of `ln`.
pub const LC0: u64 = 0x3FF0000000000000;
pub const LC1: u64 = 0x3FD5555555555555;
pub const LC2: u64 = 0x3FC999999999999A;
pub const LC3: u64 = 0x3FC2492492492492;
pub const LC4: u64 = 0x3FBC71C71C71C71C;
pub const LC5: u64 = 0x3FB745D1745D1746;
pub const LC6: u64 = 0x3FB3B13B13B13B14;
pub const LC7: u64 = 0x3FB1111111111111;
pub const LC8: u64 = 0x3FAE1E1E1E1E1E1E;
pub const LC9: u64 = 0x3FAAF286BCA1AF28;
pub const LC10: u64 = 0x3FA8618618618618;

/// One Horner step: `p * r + c` on encodings.
pub open spec fn hstep(p: u64, r: u64, c: u64) -> u64 {
    fp_add(fp_mul(p, r), c)
}

fn hstep_bits(p: u64, r: u64, c: u64) -> (o: u64)
    ensures
        o == hstep(p, r, c),
{
    add_bits(mul_bits(p, r), c)
}

/// The Taylor polynomial of `exp` of degree 12, evaluated by Horner's rule
/// at the encoding `r`.
pub open spec fn exp_poly(r: u64) -> u64 {
    hstep(
        hstep(
            hstep(
                hstep(
                    hstep(
                        hstep(
                            hstep(
                                hstep(
                                    hstep(
                                        hstep(hstep(hstep(EC12, r, EC11), r, EC10), r, EC9),
                                        r,
                                        EC8,
                                    ),
                                    r,
                                    EC7,
                                ),
                                r,
                                EC6,
                            ),
                            r,
                            EC5,
                        ),
                        r,
                        EC4,
                    ),
                    r,
                    EC3,
                ),
                r,
                EC2,
            ),
            r,
            EC1,
        ),
        r,
        EC0,
    )
}

/// The odd series of `ln` of degree 10 in the squared argument, evaluated by
/// Horner's rule at the encoding `s`.
pub open spec fn ln_poly(s: u64) -> u64 {
    hstep(
        hstep(
            hstep(
                hstep(
                    hstep(
                        hstep(
                            hstep(hstep(hstep(hstep(LC10, s, LC9), s, LC8), s, LC7), s, LC6),
                            s,
                            LC5,
                        ),
                        s,
                        LC4,
                    ),
                    s,
                    LC3,
                ),
                s,
                LC2,
            ),
            s,
            LC1,
        ),
        s,
        LC0,
    )
}

/// The exponent-field clamp of the reduction index of `exp`.
pub open spec fn exp_reduction_index(x: u64) -> i64 {
    let k0 = fp_round_int(fp_mul(x, B_LOG2E));
    if k0 < -1022 {
        -1022i64
    } else if k0 > 1023 {
        1023i64
    } else {
        k0
    }
}

/// The encoding of 2^k built directly in the exponent field, for
/// -1022 <= k <= 1023.
pub open spec fn pow2_encoding(k: i64) -> u64 {
    ((1023 + k) as u64) << 52
}

/// The value of `exp_bits`: NaN for NaN, saturated beyond the thresholds,
/// elsewhere the reduced Taylor evaluation scaled back by 2^k.
pub open spec fn fp_exp(x: u64) -> u64 {
    if fp_is_nan(x) {
        B_QNAN
    } else if !fp_lt(x, B_EXP_HI) {
        B_INF
    } else if !fp_lt(B_EXP_LO, x) {
        B_ZERO
    } else {
        let k = exp_reduction_index(x);
        let r = fp_sub(x, fp_mul(fp_of_int(k as int), B_LN2));
        fp_mul(exp_poly(r), pow2_encoding(k))
    }
}

/// e raised to the double encoded by `x`, computed by range reduction
/// `x = k ln 2 + r` and a degree-12 Taylor polynomial in `r`.
pub fn exp_bits(x: u64) -> (o: u64)
    ensures
        o == fp_exp(x),
{
    if is_nan_bits(x) {
        return B_QNAN;
    }
    if !lt_bits(x, B_EXP_HI) {
        return B_INF;
    }
    if !lt_bits(B_EXP_LO, x) {
        return B_ZERO;
    }
    let k0: i64 = round_int_bits(mul_bits(x, B_LOG2E));
    let k: i64 = if k0 < -1022 {
        -1022
    } else if k0 > 1023 {
        1023
    } else {
        k0
    };
    let r: u64 = sub_bits(x, mul_bits(of_int_bits(k), B_LN2));
    let mut p: u64 = EC12;
    p = hstep_bits(p, r, EC11);
    p = hstep_bits(p, r, EC10);
    p = hstep_bits(p, r, EC9);
    p = hstep_bits(p, r, EC8);
    p = hstep_bits(p, r, EC7);
    p = hstep_bits(p, r, EC6);
    p = hstep_bits(p, r, EC5);
    p = hstep_bits(p, r, EC4);
    p = hstep_bits(p, r, EC3);
    p = hstep_bits(p, r, EC2);
    p = hstep_bits(p, r, EC1);
    p = hstep_bits(p, r, EC0);
    let scale: u64 = ((1023 + k) as u64) << 52;
    mul_bits(p, scale)
}

/// The input of the logarithm's mantissa extraction: subnormal encodings are
/// first rescaled by 2^64 so the exponent field is populated.
pub open spec fn ln_scaled(x: u64) -> u64 {
    if x >> 52 == 0 {
        fp_mul(x, B_TWO_POW_64)
    } else {
        x
    }
}

/// The exponent correction paired with `ln_scaled`.
pub open spec fn ln_scale_adjust(x: u64) -> int {
    if x >> 52 == 0 {
        -64
    } else {
        0
    }
}

/// The value of `ln_bits` on a positive finite nonzero encoding `x`:
/// `x = 2^e m` with `m` normalized into `[sqrt 2 / 2, sqrt 2)`, then
/// `e ln 2 + 2 t P(t^2)` with `t = (m - 1)/(m + 1)`.
pub open spec fn fp_ln_positive(x: u64) -> u64 {
    let x1 = ln_scaled(x);
    let m0 = (x1 & MANT_MASK) | B_ONE;
    let e0 = (x1 >> 52) as int - 1023 + ln_scale_adjust(x);
    let m = if !fp_lt(m0, B_SQRT2) {
        fp_mul(m0, B_HALF)
    } else {
        m0
    };
    let e = if !fp_lt(m0, B_SQRT2) {
        e0 + 1
    } else {
        e0
    };
    let t = fp_div(fp_sub(m, B_ONE), fp_add(m, B_ONE));
    let s = fp_mul(t, t);
    fp_add(fp_mul(fp_of_int(e), B_LN2), fp_mul(fp_mul(B_TWO, t), ln_poly(s)))
}

/// The value of `ln_bits`: NaN for NaN or negative input, negative infinity
/// at zero, infinity at infinity, elsewhere `fp_ln_positive`.
pub open spec fn fp_ln(x: u64) -> u64 {
    if fp_is_nan(x) {
        B_QNAN
    } else if x == B_ZERO || x == crate::fp::B_NEG_ZERO {
        B_NEG_INF
    } else if x >> 63 == 1 {
        B_QNAN
    } else if x == B_INF {
        B_INF
    } else {
        fp_ln_positive(x)
    }
}

/// The natural logarithm of the double encoded by `x`.
pub fn ln_bits(x: u64) -> (o: u64)
    ensures
        o == fp_ln(x),
{
    if is_nan_bits(x) {
        return B_QNAN;
    }
    if x == B_ZERO || x == crate::fp::B_NEG_ZERO {
        return B_NEG_INF;
    }
    if x >> 63 == 1 {
        return B_QNAN;
    }
    if x == B_INF {
        return B_INF;
    }
    let x1: u64 = if x >> 52 == 0 {
        mul_bits(x, B_TWO_POW_64)
    } else {
        x
    };
    let adjust: i64 = if x >> 52 == 0 {
        -64
    } else {
        0
    };
    let m0: u64 = (x1 & MANT_MASK) | B_ONE;
    assert(x1 >> 52 < 4096) by (bit_vector);
    let e0: i64 = ((x1 >> 52) as i64) - 1023 + adjust;
    let below_sqrt2: bool = lt_bits(m0, B_SQRT2);
    let m: u64 = if !below_sqrt2 {
        mul_bits(m0, B_HALF)
    } else {
        m0
    };
    let e: i64 = if !below_sqrt2 {
        e0 + 1
    } else {
        e0
    };
    let t: u64 = div_bits(sub_bits(m, B_ONE), add_bits(m, B_ONE));
    let s: u64 = mul_bits(t, t);
    let mut p: u64 = LC10;
    p = hstep_bits(p, s, LC9);
    p = hstep_bits(p, s, LC8);
    p = hstep_bits(p, s, LC7);
    p = hstep_bits(p, s, LC6);
    p = hstep_bits(p, s, LC5);
    p = hstep_bits(p, s, LC4);
    p = hstep_bits(p, s, LC3);
    p = hstep_bits(p, s, LC2);
    p = hstep_bits(p, s, LC1);
    p = hstep_bits(p, s, LC0);
    add_bits(mul_bits(of_int_bits(e), B_LN2), mul_bits(mul_bits(B_TWO, t), p))
}

/// The value of `log10_bits`: the natural logarithm scaled by 1 / ln 10.
pub open spec fn fp_log10(x: u64) -> u64 {
    fp_mul(fp_ln(x), B_INV_LN10)
}

/// The base-10 logarithm of the double encoded by `x`.
pub fn log10_bits(x: u64) -> (o: u64)
    ensures
        o == fp_log10(x),
{
    mul_bits(ln_bits(x), B_INV_LN10)
}

} // verus!
