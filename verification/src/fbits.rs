//! Integer reading of IEEE-754 single-precision bit patterns.
//!
//! Elevation samples and mesh attributes are single-precision values; this
//! crate carries them as raw bit patterns (`u32`) and decides everything it
//! needs to know about them — sign, NaN-ness, the clamped integer value used
//! for palette rows, membership in the unit interval — with integer
//! arithmetic on those patterns. A pattern is `sign (1 bit) | biased
//! exponent (8 bits) | fraction (23 bits)`; a finite value with biased
//! exponent `e >= 1` denotes `(2^23 + fraction) * 2^(e - 150)`, so its
//! integer part can be read off with a shift.

use vstd::prelude::*;

use vstd::arithmetic::div_mod::{
    lemma_basic_div,
    lemma_div_denominator,
    lemma_div_multiples_vanish,
};
use vstd::arithmetic::power2::{
    lemma2_to64,
    lemma_pow2_adds,
    lemma_pow2_pos,
    lemma_pow2_strictly_increases,
    pow2,
};
use vstd::bits::{lemma_u32_shr_is_div, lemma_u64_shl_is_mul, lemma_u64_shr_is_div};

verus! {

/// Sign bit of a single-precision pattern: 0 for non-negative values.
pub open spec fn f32_sign(b: u32) -> u32 {
    b >> 31
}

/// Biased exponent field of a single-precision pattern.
pub open spec fn f32_exp(b: u32) -> u32 {
    (b >> 23) & 0xff
}

/// Fraction field of a single-precision pattern.
pub open spec fn f32_frac(b: u32) -> u32 {
    b & 0x7f_ffff
}

/// The pattern denotes NaN: exponent all ones, fraction non-zero.
pub open spec fn f32_is_nan(b: u32) -> bool {
    f32_exp(b) == 0xff && f32_frac(b) != 0
}

/// The pattern denotes a value that is at least zero: it is not NaN, and
/// either its sign bit is clear or its magnitude is zero (negative zero
/// counts, as it compares equal to zero).
pub open spec fn f32_is_nonneg(b: u32) -> bool {
    !f32_is_nan(b) && (f32_sign(b) == 0 || b & 0x7fff_ffff == 0)
}

/// Integer part of the denoted value, clamped to `[0, 255]`, for a
/// non-negative pattern. Patterns below 1.0 (biased exponent at most 126,
/// subnormals and zeros included) floor to 0; patterns of 256.0 and above
/// (biased exponent at least 135, infinity included) clamp to 255; in
/// between, the exponent places the binary point `150 - e` bits into the
/// significand `2^23 + fraction`, so a right shift reads the integer part.
pub open spec fn spec_clamp255(b: u32) -> u32 {
    if f32_exp(b) <= 126 {
        0
    } else if f32_exp(b) <= 134 {
        ((0x80_0000 + f32_frac(b)) as u32) >> ((150 - f32_exp(b)) as u32)
    } else {
        255
    }
}

/// The pattern denotes a finite value: the exponent field is not all ones
/// (which would make it an infinity or NaN).
pub open spec fn f32_is_finite(b: u32) -> bool {
    f32_exp(b) != 0xff
}

/// Whether the pattern denotes a value in `[0.0, 1.0]`. For patterns with a
/// clear sign bit, unsigned order of the bits agrees with the order of the
/// denoted values (exponent and fraction compare lexicographically), so the
/// comparison against the pattern of 1.0 (`0x3f80_0000`) decides it.
pub open spec fn f32_in_unit(b: u32) -> bool {
    f32_is_nonneg(b) && (b & 0x7fff_ffff) <= 0x3f80_0000
}

/// Decides `f32_is_nonneg`.
pub fn check_nonneg(b: u32) -> (r: bool)
    ensures
        r == f32_is_nonneg(b),
{
    let e: u32 = (b >> 23) & 0xff;
    let f: u32 = b & 0x7f_ffff;
    !(e == 0xff && f != 0) && (b >> 31 == 0 || b & 0x7fff_ffff == 0)
}

/// Decides `f32_is_finite`.
pub fn check_finite(b: u32) -> (r: bool)
    ensures
        r == f32_is_finite(b),
{
    (b >> 23) & 0xff != 0xff
}

/// Decides `f32_in_unit`.
pub fn check_in_unit(b: u32) -> (r: bool)
    ensures
        r == f32_in_unit(b),
{
    check_nonneg(b) && (b & 0x7fff_ffff) <= 0x3f80_0000
}

/// Integer part of a non-negative single-precision value, clamped to
/// `[0, 255]`, read directly off the bit pattern.
pub fn clamp255(b: u32) -> (r: u32)
    requires
        f32_is_nonneg(b),
    ensures
        r == spec_clamp255(b),
        r <= 255,
{
    let e: u32 = (b >> 23) & 0xff;
    if e <= 126 {
        0
    } else if e <= 134 {
        proof {
            assert((b & 0x7f_ffff) < 0x80_0000 && 127 <= ((b >> 23) & 0xff)
                && ((b >> 23) & 0xff) <= 134
                ==> ((0x80_0000 + (b & 0x7f_ffff)) as u32) >> ((150 - ((b >> 23) & 0xff)) as u32)
                    <= 255) by (bit_vector);
            assert((b & 0x7f_ffff) < 0x80_0000) by (bit_vector);
        }
        let f: u32 = b & 0x7f_ffff;
        (0x80_0000 + f) >> (150 - e)
    } else {
        255
    }
}

/// The bit pattern of 0.0 floors to 0, so height zero selects the palette's
/// bottom row.
pub proof fn lemma_clamp255_zero()
    ensures
        spec_clamp255(0) == 0,
{
    assert((0u32 >> 23) & 0xff == 0) by (bit_vector);
}

/// `0x437f_0000` is the bit pattern of 255.0; it clamps to 255, selecting
/// the palette's top row.
pub proof fn lemma_clamp255_max()
    ensures
        spec_clamp255(0x437f_0000) == 255,
{
    assert((0x437f_0000u32 >> 23) & 0xff == 134) by (bit_vector);
    assert(((0x80_0000 + (0x437f_0000u32 & 0x7f_ffff)) as u32)
        >> ((150 - ((0x437f_0000u32 >> 23) & 0xff)) as u32) == 255) by (bit_vector);
}

/// The value a finite pattern denotes, scaled by `2^149` to make it an
/// integer: a subnormal pattern (biased exponent 0) denotes
/// `fraction * 2^-149`, so its scaled value is the fraction itself, and a
/// normal pattern with biased exponent `e` denotes
/// `(2^23 + fraction) * 2^(e - 150)`, so its scaled value is
/// `(2^23 + fraction) * 2^(e - 1)`.
pub open spec fn f32_val_scaled(b: u32) -> nat {
    if f32_exp(b) == 0 {
        f32_frac(b) as nat
    } else {
        ((0x80_0000 + f32_frac(b)) as nat) * pow2((f32_exp(b) - 1) as nat)
    }
}

/// The bit-level clamp really is the mathematical floor of the denoted
/// value, clamped to 255: for every finite pattern with a clear sign bit,
/// `spec_clamp255` equals `min(floor(value), 255)`, where the floor is the
/// scaled value shifted back down by `2^149`.
pub proof fn lemma_clamp255_is_floor(b: u32)
    requires
        f32_sign(b) == 0,
        f32_exp(b) != 255,
    ensures
        ({
            let floor = f32_val_scaled(b) / pow2(149);
            (spec_clamp255(b) as nat) == if floor < 255 {
                floor
            } else {
                255 as nat
            }
        }),
{
    let e = f32_exp(b) as nat;
    let f = f32_frac(b) as nat;
    let m: nat = (0x80_0000 + f32_frac(b)) as nat;
    assert(f32_frac(b) < 0x80_0000 && f32_exp(b) < 256) by (bit_vector);
    lemma2_to64();
    lemma_pow2_pos(149);
    if e == 0 {
        lemma_pow2_strictly_increases(23, 149);
        lemma_basic_div(f as int, pow2(149) as int);
    } else if e <= 126 {
        lemma_pow2_pos((e - 1) as nat);
        lemma_pow2_adds(24, (e - 1) as nat);
        if 23 + e < 149 {
            lemma_pow2_strictly_increases((23 + e) as nat, 149);
        }
        assert(m * pow2((e - 1) as nat) < pow2(149)) by (nonlinear_arith)
            requires
                m < pow2(24),
                pow2(24) * pow2((e - 1) as nat) == pow2((23 + e) as nat),
                pow2((23 + e) as nat) <= pow2(149),
                0 < pow2((e - 1) as nat),
        ;
        lemma_basic_div((m * pow2((e - 1) as nat)) as int, pow2(149) as int);
    } else if e <= 150 {
        let sh = (150 - e) as nat;
        lemma_pow2_pos(sh);
        lemma_pow2_pos((e - 1) as nat);
        lemma_pow2_adds((e - 1) as nat, sh);
        lemma_div_denominator(
            (m * pow2((e - 1) as nat)) as int,
            pow2((e - 1) as nat) as int,
            pow2(sh) as int,
        );
        lemma_div_multiples_vanish(m as int, pow2((e - 1) as nat) as int);
        assert(pow2((e - 1) as nat) * m == m * pow2((e - 1) as nat)) by (nonlinear_arith);
        assert(f32_val_scaled(b) / pow2(149) == m / pow2(sh));
        lemma_pow2_adds(8, sh);
        if e <= 134 {
            // One of the shifted cases: the floor fits under 256.
            if 24 < 8 + sh {
                lemma_pow2_strictly_increases(24, (8 + sh) as nat);
            }
            assert(m / pow2(sh) < 256) by (nonlinear_arith)
                requires
                    m < pow2(24),
                    pow2(24) <= pow2(8) * pow2(sh),
                    pow2(8) == 256,
                    0 < pow2(sh),
            ;
            lemma_u32_shr_is_div(
                (0x80_0000 + f32_frac(b)) as u32,
                (150 - f32_exp(b)) as u32,
            );
        } else {
            // The denoted value is 256 or more: the clamp saturates.
            if 8 + sh < 23 {
                lemma_pow2_strictly_increases((8 + sh) as nat, 23);
            }
            assert(m / pow2(sh) >= 256) by (nonlinear_arith)
                requires
                    m >= pow2(23),
                    pow2(8) * pow2(sh) <= pow2(23),
                    pow2(8) == 256,
                    0 < pow2(sh),
        ;
        }
    } else {
        let k = (e - 150) as nat;
        lemma_pow2_pos(k);
        lemma_pow2_adds(k, 149);
        assert(m * pow2((e - 1) as nat) == (m * pow2(k)) * pow2(149)) by (nonlinear_arith)
            requires
                pow2(k) * pow2(149) == pow2((e - 1) as nat),
        ;
        lemma_div_multiples_vanish((m * pow2(k)) as int, pow2(149) as int);
        assert(pow2(149) * (m * pow2(k)) == (m * pow2(k)) * pow2(149)) by (nonlinear_arith);
        lemma_pow2_strictly_increases(8, 23);
        assert(m * pow2(k) >= pow2(23)) by (nonlinear_arith)
            requires
                m >= pow2(23),
                pow2(k) >= 1,
        ;
    }
}

/// Unsigned bit order is value order: for finite patterns with a clear
/// sign bit, a pattern that is at most another as an integer denotes a
/// value that is at most the other's. Exponent and fraction fields compare
/// lexicographically, and a larger exponent always dominates.
pub proof fn lemma_bit_order_is_value_order(a: u32, b: u32)
    requires
        f32_sign(a) == 0,
        f32_sign(b) == 0,
        f32_exp(a) != 255,
        f32_exp(b) != 255,
        a <= b,
    ensures
        f32_val_scaled(a) <= f32_val_scaled(b),
{
    let ea = f32_exp(a) as nat;
    let eb = f32_exp(b) as nat;
    let ma: nat = (0x80_0000 + f32_frac(a)) as nat;
    let mb: nat = (0x80_0000 + f32_frac(b)) as nat;
    assert(f32_exp(a) < f32_exp(b) || (f32_exp(a) == f32_exp(b) && f32_frac(a) <= f32_frac(b)))
        by (bit_vector)
        requires a >> 31 == 0 && b >> 31 == 0 && a <= b;
    assert(f32_frac(a) < 0x80_0000 && f32_frac(b) < 0x80_0000) by (bit_vector);
    lemma2_to64();
    if ea == eb {
        if ea != 0 {
            lemma_pow2_pos((ea - 1) as nat);
            assert(ma * pow2((ea - 1) as nat) <= mb * pow2((ea - 1) as nat)) by (nonlinear_arith)
                requires
                    ma <= mb,
                    0 < pow2((ea - 1) as nat),
            ;
        }
    } else {
        // ea < eb, so b is normal and its value reaches at least 2^(eb+22),
        // while a stays under 2^(ea+23) <= 2^(eb+22).
        lemma_pow2_pos((eb - 1) as nat);
        lemma_pow2_adds(23, (eb - 1) as nat);
        assert(mb * pow2((eb - 1) as nat) >= pow2((23 + eb - 1) as nat)) by (nonlinear_arith)
            requires
                mb >= pow2(23),
                pow2(23) * pow2((eb - 1) as nat) == pow2((23 + eb - 1) as nat),
                0 < pow2((eb - 1) as nat),
        ;
        if ea == 0 {
            if 1 < eb {
                lemma_pow2_strictly_increases(23, (23 + eb - 1) as nat);
            }
        } else {
            lemma_pow2_pos((ea - 1) as nat);
            lemma_pow2_adds(24, (ea - 1) as nat);
            assert(ma * pow2((ea - 1) as nat) < pow2((24 + ea - 1) as nat)) by (nonlinear_arith)
                requires
                    ma < pow2(24),
                    pow2(24) * pow2((ea - 1) as nat) == pow2((24 + ea - 1) as nat),
                    0 < pow2((ea - 1) as nat),
            ;
            if 24 + ea - 1 < 23 + eb - 1 {
                lemma_pow2_strictly_increases((24 + ea - 1) as nat, (23 + eb - 1) as nat);
            }
        }
    }
}

/// The unit-interval test reads the value correctly: a finite pattern with
/// a clear sign bit passes exactly when the value it denotes is at most
/// 1.0, whose scaled value is `2^149`.
pub proof fn lemma_in_unit_is_value_bound(b: u32)
    requires
        f32_sign(b) == 0,
        f32_exp(b) != 255,
    ensures
        f32_in_unit(b) <==> f32_val_scaled(b) <= pow2(149),
{
    let e = f32_exp(b) as nat;
    let m: nat = (0x80_0000 + f32_frac(b)) as nat;
    assert(f32_frac(b) < 0x80_0000) by (bit_vector);
    assert((b & 0x7fff_ffff) <= 0x3f80_0000 <==> (f32_exp(b) < 127 || (f32_exp(b) == 127
        && f32_frac(b) == 0))) by (bit_vector)
        requires b >> 31 == 0;
    lemma2_to64();
    if e < 127 {
        if e == 0 {
            lemma_pow2_strictly_increases(23, 149);
        } else {
            lemma_pow2_pos((e - 1) as nat);
            lemma_pow2_adds(24, (e - 1) as nat);
            if 23 + e < 149 {
                lemma_pow2_strictly_increases((23 + e) as nat, 149);
            }
            assert(m * pow2((e - 1) as nat) < pow2(149)) by (nonlinear_arith)
                requires
                    m < pow2(24),
                    pow2(24) * pow2((e - 1) as nat) == pow2((23 + e) as nat),
                    pow2((23 + e) as nat) <= pow2(149),
                    0 < pow2((e - 1) as nat),
            ;
        }
    } else {
        lemma_pow2_pos((e - 1) as nat);
        lemma_pow2_adds(23, (e - 1) as nat);
        if e == 127 && f32_frac(b) == 0 {
            // Exactly 1.0: the scaled value meets the bound.
            assert(m * pow2(126) == pow2(149)) by (nonlinear_arith)
                requires
                    m == pow2(23),
                    pow2(23) * pow2(126) == pow2(149),
            ;
        } else if e == 127 {
            // Above 1.0 but below 2.0: a non-zero fraction pushes past it.
            assert(m * pow2(126) > pow2(149)) by (nonlinear_arith)
                requires
                    m > pow2(23),
                    pow2(23) * pow2(126) == pow2(149),
                    0 < pow2(126),
            ;
        } else {
            // 2.0 and beyond: the value reaches at least 2^(22 + e) >= 2^150.
            lemma_pow2_strictly_increases(149, (23 + e - 1) as nat);
            assert(m * pow2((e - 1) as nat) >= pow2((23 + e - 1) as nat)) by (nonlinear_arith)
                requires
                    m >= pow2(23),
                    pow2(23) * pow2((e - 1) as nat) == pow2((23 + e - 1) as nat),
                    0 < pow2((e - 1) as nat),
            ;
        }
    }
}

/// Lower edge of the accepted band for the squared length of a unit
/// vector, in `2^-60` fixed point: `(1 - 1e-4)^2 * 2^60`, rounded down.
pub const UNIT_SQ_LO: u64 = 0x0fff_2e4b_97d8_fa2c;

/// Upper edge of the accepted band for the squared length of a unit
/// vector, in `2^-60` fixed point: `(1 + 1e-4)^2 * 2^60`, rounded up.
pub const UNIT_SQ_HI: u64 = 0x1000_d1b9_c68a_be60;

/// Magnitude of the denoted value in `2^-30` fixed point, rounded down.
/// The scaled value `(2^23 + fraction) * 2^(e - 150)` becomes
/// `(2^23 + fraction) * 2^(e - 120)` at this scale: exponents up to 96
/// (magnitudes under `2^-24`, subnormals and zeros included) floor to 0,
/// exponents up to 120 shift the significand right, and exponents up to 127
/// (magnitudes under 2.0) shift it left. Patterns of magnitude 2.0 and
/// beyond — infinities and NaN included — saturate, so they never pass a
/// band check.
pub open spec fn f32_mag_fixed30(b: u32) -> u64 {
    if f32_exp(b) >= 128 {
        0xffff_ffff_ffff_ffff
    } else if f32_exp(b) <= 96 {
        0
    } else if f32_exp(b) <= 120 {
        ((0x80_0000 + f32_frac(b)) as u64) >> ((120 - f32_exp(b)) as u64)
    } else {
        ((0x80_0000 + f32_frac(b)) as u64) << ((f32_exp(b) - 120) as u64)
    }
}

/// The fixed-point magnitude really is the floor of the denoted value at
/// scale `2^30`: for finite patterns of magnitude under 2.0, shifting the
/// scaled value down by `2^119` gives exactly `f32_mag_fixed30` — whatever
/// the sign bit, since both read only exponent and fraction.
pub proof fn lemma_mag_fixed30_is_floor(b: u32)
    requires
        f32_exp(b) < 128,
    ensures
        f32_mag_fixed30(b) as nat == f32_val_scaled(b) / pow2(119),
{
    let e = f32_exp(b) as nat;
    let m: nat = (0x80_0000 + f32_frac(b)) as nat;
    assert(f32_frac(b) < 0x80_0000) by (bit_vector);
    lemma2_to64();
    lemma_pow2_pos(119);
    if e == 0 {
        lemma_pow2_strictly_increases(23, 119);
        lemma_basic_div(f32_frac(b) as int, pow2(119) as int);
    } else if e <= 96 {
        lemma_pow2_pos((e - 1) as nat);
        lemma_pow2_adds(24, (e - 1) as nat);
        if 23 + e < 119 {
            lemma_pow2_strictly_increases((23 + e) as nat, 119);
        }
        assert(m * pow2((e - 1) as nat) < pow2(119)) by (nonlinear_arith)
            requires
                m < pow2(24),
                pow2(24) * pow2((e - 1) as nat) == pow2((23 + e) as nat),
                pow2((23 + e) as nat) <= pow2(119),
                0 < pow2((e - 1) as nat),
        ;
        lemma_basic_div((m * pow2((e - 1) as nat)) as int, pow2(119) as int);
    } else if e <= 120 {
        let sh = (120 - e) as nat;
        lemma_pow2_pos(sh);
        lemma_pow2_pos((e - 1) as nat);
        lemma_pow2_adds((e - 1) as nat, sh);
        lemma_div_denominator(
            (m * pow2((e - 1) as nat)) as int,
            pow2((e - 1) as nat) as int,
            pow2(sh) as int,
        );
        lemma_div_multiples_vanish(m as int, pow2((e - 1) as nat) as int);
        assert(pow2((e - 1) as nat) * m == m * pow2((e - 1) as nat)) by (nonlinear_arith);
        lemma_u64_shr_is_div((0x80_0000 + f32_frac(b)) as u64, (120 - f32_exp(b)) as u64);
    } else {
        let k = (e - 120) as nat;
        lemma_pow2_pos(k);
        lemma_pow2_pos((e - 1) as nat);
        lemma_pow2_adds(k, 119);
        assert(m * pow2((e - 1) as nat) == (m * pow2(k)) * pow2(119)) by (nonlinear_arith)
            requires
                pow2(k) * pow2(119) == pow2((e - 1) as nat),
        ;
        lemma_div_multiples_vanish((m * pow2(k)) as int, pow2(119) as int);
        assert(pow2(119) * (m * pow2(k)) == (m * pow2(k)) * pow2(119)) by (nonlinear_arith);
        if k < 7 {
            lemma_pow2_strictly_increases(k, 7);
        }
        assert(m * pow2(k) <= 0xffff_ffff_ffff_ffff) by (nonlinear_arith)
            requires
                m < pow2(24),
                pow2(k) <= pow2(7),
                pow2(7) == 128,
                pow2(24) == 0x100_0000,
        ;
        lemma_u64_shl_is_mul((0x80_0000 + f32_frac(b)) as u64, (f32_exp(b) - 120) as u64);
    }
}

/// The three components form a unit vector to within about `1e-4` of
/// length 1: each is finite with magnitude under 2.0, and the sum of their
/// squared fixed-point magnitudes lies in the band around `2^60`, the
/// squared scaled length of an exact unit vector. The fixed-point floor
/// loses at most `3 * 2^31` of the sum, five orders of magnitude below the
/// band's half-width, so the band is faithful to the stated tolerance.
pub open spec fn spec_unit_vec3(x: u32, y: u32, z: u32) -> bool {
    &&& f32_exp(x) < 128
    &&& f32_exp(y) < 128
    &&& f32_exp(z) < 128
    &&& UNIT_SQ_LO <= f32_mag_fixed30(x) * f32_mag_fixed30(x) + f32_mag_fixed30(y)
        * f32_mag_fixed30(y) + f32_mag_fixed30(z) * f32_mag_fixed30(z)
    &&& f32_mag_fixed30(x) * f32_mag_fixed30(x) + f32_mag_fixed30(y) * f32_mag_fixed30(y)
        + f32_mag_fixed30(z) * f32_mag_fixed30(z) <= UNIT_SQ_HI
}

/// Magnitude in `2^-30` fixed point of a pattern of magnitude under 2.0.
fn mag_fixed30(b: u32) -> (r: u64)
    requires
        f32_exp(b) < 128,
    ensures
        r == f32_mag_fixed30(b),
        r < 0x8000_0000,
{
    let e: u32 = (b >> 23) & 0xff;
    if e <= 96 {
        0
    } else {
        proof {
            assert((b & 0x7f_ffff) < 0x80_0000) by (bit_vector);
            assert(96 < ((b >> 23) & 0xff) && ((b >> 23) & 0xff) <= 120
                ==> ((0x80_0000 + (b & 0x7f_ffff)) as u64) >> ((120 - ((b >> 23) & 0xff)) as u64)
                    < 0x8000_0000) by (bit_vector);
            assert(120 < ((b >> 23) & 0xff) && ((b >> 23) & 0xff) < 128
                ==> ((0x80_0000 + (b & 0x7f_ffff)) as u64) << ((((b >> 23) & 0xff) - 120) as u64)
                    < 0x8000_0000) by (bit_vector);
        }
        let m: u64 = (0x80_0000 + (b & 0x7f_ffff)) as u64;
        if e <= 120 {
            m >> ((120 - e) as u64)
        } else {
            m << ((e - 120) as u64)
        }
    }
}

/// Decides `spec_unit_vec3`.
pub fn check_unit_vec3(x: u32, y: u32, z: u32) -> (r: bool)
    ensures
        r == spec_unit_vec3(x, y, z),
{
    let ex: u32 = (x >> 23) & 0xff;
    let ey: u32 = (y >> 23) & 0xff;
    let ez: u32 = (z >> 23) & 0xff;
    if ex >= 128 || ey >= 128 || ez >= 128 {
        return false;
    }
    let mx: u64 = mag_fixed30(x);
    let my: u64 = mag_fixed30(y);
    let mz: u64 = mag_fixed30(z);
    proof {
        assert(mx * mx < 0x4000_0000_0000_0000 && my * my < 0x4000_0000_0000_0000
            && mz * mz < 0x4000_0000_0000_0000) by (nonlinear_arith)
            requires mx < 0x8000_0000 && my < 0x8000_0000 && mz < 0x8000_0000;
    }
    let s: u64 = mx * mx + my * my + mz * mz;
    UNIT_SQ_LO <= s && s <= UNIT_SQ_HI
}

/// The degenerate fallback, the exact up-vector `(0, 1, 0)`, passes the
/// unit check: its fixed-point squared length is exactly `2^60`.
pub proof fn lemma_up_vector_is_unit()
    ensures
        spec_unit_vec3(0, 0x3f80_0000, 0),
{
    assert((0u32 >> 23) & 0xff == 0 && (0x3f80_0000u32 >> 23) & 0xff == 127
        && (0x3f80_0000u32 & 0x7f_ffff) == 0) by (bit_vector);
    assert(((0x80_0000 + (0x3f80_0000u32 & 0x7f_ffff)) as u64)
        << ((((0x3f80_0000u32 >> 23) & 0xff) - 120) as u64) == 0x4000_0000u64) by (bit_vector);
    assert(f32_mag_fixed30(0) == 0 && f32_mag_fixed30(0x3f80_0000) == 0x4000_0000);
    assert(0x4000_0000u64 * 0x4000_0000u64 == 0x1000_0000_0000_0000) by (nonlinear_arith);
}

/// Unsigned order of non-negative patterns (clear sign bit) is the order of
/// the values they denote, so the clamped integer part is monotone in it.
pub proof fn lemma_clamp255_monotone(a: u32, b: u32)
    by (bit_vector)
    requires
        f32_sign(a) == 0,
        f32_sign(b) == 0,
        a <= b,
    ensures
        spec_clamp255(a) <= spec_clamp255(b),
{
}

} // verus!
