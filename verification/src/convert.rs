//! Conversion of fixed-point PCM samples to binary32 in the range
//! `[-1.0, 1.0]`.
//!
//! Every function returns the bit pattern of the binary32 value. An unsigned
//! sample `x` of `N` bits maps to `x * (2 / max) - 1`, a signed one to
//! `x / max`, where `max` is the greatest value of the encoding. Samples of
//! 8 and 16 bits are computed in binary32, those of 24 and 32 bits in
//! binary64 with a final conversion to binary32; each operation rounds to
//! nearest, ties to even.

use vstd::prelude::*;
use vstd::arithmetic::power2::{
    lemma2_to64, lemma2_to64_rest, lemma_pow2_adds, lemma_pow2_strictly_increases, pow2,
};

use crate::ieee::{
    binary32, lemma_bit_len_at_most, lemma_bit_len_unique, lemma_pow2_monotone,
    power_of_two, round_half_even, round_quot, round_quotient, round_sig, round_significand, to_binary32,
    Rounded,
};

verus! {

/// `s * c - 1`, with the product and the difference each rounded to `prec`
/// significant bits, as a binary32 bit pattern.
pub open spec fn unit_from_unsigned(s: nat, c: Rounded, prec: nat) -> u32 {
    let p = round_sig(s * c.sig, prec);
    let pe = p.exp + c.exp;
    let one = pow2((-pe) as nat);
    let neg = p.sig < one;
    let mag = if neg {
        one - p.sig
    } else {
        p.sig - one
    };
    let d = round_sig(mag as nat, prec);
    binary32(neg, d.sig, d.exp + pe)
}

/// `v / max`, rounded to `prec` significant bits, as a binary32 bit pattern.
pub open spec fn unit_from_signed(v: int, max: nat, prec: nat) -> u32 {
    let q = round_quot(vstd::math::abs(v) as nat, max, prec);
    binary32(v < 0, q.sig, q.exp)
}

/// The value of three bytes, least significant first.
pub open spec fn u24_le(s: [u8; 3]) -> nat {
    (s[0] + 0x100 * s[1] + 0x1_0000 * s[2]) as nat
}

/// The value of three bytes, most significant first.
pub open spec fn u24_be(s: [u8; 3]) -> nat {
    (s[2] + 0x100 * s[1] + 0x1_0000 * s[0]) as nat
}

/// The value of three bytes in the given order: least significant first, or
/// most significant first.
pub open spec fn u24_ordered(s: [u8; 3], least_first: bool) -> nat {
    if least_first {
        u24_le(s)
    } else {
        u24_be(s)
    }
}

/// The two's-complement value of a 24-bit pattern.
pub open spec fn sign_extend_24(v: nat) -> int {
    if v < 0x80_0000 {
        v as int
    } else {
        v - 0x100_0000
    }
}

/// What [`pcm_u8_to_f32`] gives: `s * (2 / 255) - 1` in binary32.
pub open spec fn spec_pcm_u8_to_f32(s: u8) -> u32 {
    unit_from_unsigned(s as nat, round_quot(2, 0xFF, 24), 24)
}

/// What [`pcm_u16_to_f32`] gives: `s * (2 / 65535) - 1` in binary32.
pub open spec fn spec_pcm_u16_to_f32(s: u16) -> u32 {
    unit_from_unsigned(s as nat, round_quot(2, 0xFFFF, 24), 24)
}

/// The conversion of a 24-bit unsigned value `v`: `v * (2 / 16777215) - 1` in
/// binary64, converted to binary32.
pub open spec fn spec_pcm_u24_to_f32(v: nat) -> u32 {
    unit_from_unsigned(v, round_quot(2, 0xFF_FFFF, 53), 53)
}

/// What [`pcm_u32_to_f32`] gives: `s * (2 / 4294967295) - 1` in binary64,
/// converted to binary32.
pub open spec fn spec_pcm_u32_to_f32(s: u32) -> u32 {
    unit_from_unsigned(s as nat, round_quot(2, 0xFFFF_FFFF, 53), 53)
}

/// What [`pcm_i8_to_f32`] gives: `s / 127` in binary32.
pub open spec fn spec_pcm_i8_to_f32(s: i8) -> u32 {
    unit_from_signed(s as int, 0x7F, 24)
}

/// What [`pcm_i16_to_f32`] gives: `s / 32767` in binary32.
pub open spec fn spec_pcm_i16_to_f32(s: i16) -> u32 {
    unit_from_signed(s as int, 0x7FFF, 24)
}

/// The conversion of a 24-bit signed value `v`: `v / 8388607` in binary64,
/// converted to binary32.
pub open spec fn spec_pcm_i24_to_f32(v: int) -> u32 {
    unit_from_signed(v, 0x7F_FFFF, 53)
}

/// What [`pcm_i32_to_f32`] gives: `s / 2147483647` in binary64, converted
/// to binary32.
pub open spec fn spec_pcm_i32_to_f32(s: i32) -> u32 {
    unit_from_signed(s as int, 0x7FFF_FFFF, 53)
}

/// `2 / 255` in binary32.
proof fn lemma_two_over_u8_max()
    ensures
        round_quot(2, 0xff, 24) == (Rounded { sig: 8421505, exp: -30 }),
{
    lemma2_to64();
    lemma2_to64_rest();
    let scaled: nat = 2 * pow2(56);
    assert(scaled / 0xff == 565157600297474);
    lemma_bit_len_unique(565157600297474, 50);
    assert(0xff * pow2(26) == 17112760320);
}

/// `2 / 65535` in binary32.
proof fn lemma_two_over_u16_max()
    ensures
        round_quot(2, 0xffff, 24) == (Rounded { sig: 8388736, exp: -38 }),
{
    lemma2_to64();
    lemma2_to64_rest();
    let scaled: nat = 2 * pow2(56);
    assert(scaled / 0xffff == 2199056810496);
    lemma_bit_len_unique(2199056810496, 42);
    assert(0xffff * pow2(18) == 17179607040);
}

/// `2 / 16777215` in binary64.
proof fn lemma_two_over_u24_max()
    ensures
        round_quot(2, 0xffffff, 53) == (Rounded { sig: 4503599895805968, exp: -75 }),
{
    lemma2_to64();
    lemma2_to64_rest();
    lemma_pow2_adds(64, 21);
    assert(pow2(85) == 38685626227668133590597632) by (nonlinear_arith)
        requires
            pow2(85) == pow2(64) * pow2(21),
            pow2(64) == 0x10000000000000000,
            pow2(21) == 0x200000,
    ;
    lemma_bit_len_unique(4611686293305311232, 63);
    assert(0xffffff * pow2(10) == 17179868160);
}

/// `2 / 4294967295` in binary64.
proof fn lemma_two_over_u32_max()
    ensures
        round_quot(2, 0xffffffff, 53) == (Rounded { sig: 4503599628419072, exp: -83 }),
{
    lemma2_to64();
    lemma2_to64_rest();
    lemma_pow2_adds(64, 21);
    assert(pow2(85) == 38685626227668133590597632) by (nonlinear_arith)
        requires
            pow2(85) == pow2(64) * pow2(21),
            pow2(64) == 0x10000000000000000,
            pow2(21) == 0x200000,
    ;
    lemma_bit_len_unique(18014398513676288, 55);
    assert(0xffffffff * pow2(2) == 17179869180);
}

/// `s * c - 1` for the constant `c = csig * 2^cexp`: [`unit_from_unsigned`].
fn scale_and_center(s: u128, width: u32, csig: u128, cexp: i64, prec: u32) -> (bits: u32)
    requires
        width <= 32,
        s < pow2(width as nat),
        prec == 24 || prec == 53,
        csig < pow2(prec as nat),
        -100 <= cexp,
        cexp + width + 1 <= 0,
    ensures
        bits == unit_from_unsigned(
            s as nat,
            Rounded { sig: csig as nat, exp: cexp as int },
            prec as nat,
        ),
{
    proof {
        lemma_pow2_adds(width as nat, prec as nat);
        lemma_pow2_monotone((width + prec) as nat, 85);
        lemma_pow2_strictly_increases(85, 126);
        crate::ieee::lemma_pow2_below_128(126);
        assert(s * csig < pow2(width as nat) * pow2(prec as nat)) by (nonlinear_arith)
            requires
                s < pow2(width as nat),
                csig < pow2(prec as nat),
        ;
        lemma_bit_len_at_most((s * csig) as nat, (width + prec) as nat);
    }
    let (p, shift) = round_significand(s * csig, prec);
    let pe: i64 = shift as i64 + cexp;
    let one = power_of_two((-pe) as u32);
    proof {
        lemma_pow2_monotone((-pe) as nat, 100);
        lemma_pow2_monotone(prec as nat, 100);
        lemma_pow2_strictly_increases(100, 101);
        lemma_pow2_strictly_increases(101, 126);
    }
    let neg = p < one;
    let mag = if neg {
        one - p
    } else {
        p - one
    };
    let (d, dshift) = round_significand(mag, prec);
    to_binary32(neg, d, dshift as i64 + pe)
}

/// `v / max`: [`unit_from_signed`].
fn divide_by_max(v: i64, max: u128, prec: u32) -> (bits: u32)
    requires
        -0x8000_0000 <= v <= 0x8000_0000,
        0 < max < 0x1_0000_0000,
        prec == 24 || prec == 53,
    ensures
        bits == unit_from_signed(v as int, max as nat, prec as nat),
{
    proof {
        lemma2_to64();
        lemma2_to64_rest();
        lemma_pow2_strictly_increases(prec as nat, 126);
    }
    let a: u128 = if v < 0 {
        (-v) as u128
    } else {
        v as u128
    };
    let (q, e) = round_quotient(a, max, prec);
    to_binary32(v < 0, q, e)
}

/// Convert a PCM sample in `u8` format to binary32 in the range
/// `[-1.0, 1.0]`.
pub fn pcm_u8_to_f32(s: u8) -> (bits: u32)
    ensures
        bits == spec_pcm_u8_to_f32(s),
        s == 0 ==> bits == 0xBF80_0000,
        s == 0xFF ==> bits == 0x3F80_0000,
{
    proof {
        lemma_least_u8();
        lemma_greatest_u8();
        lemma_two_over_u8_max();
        lemma2_to64();
    }
    scale_and_center(s as u128, 8, 8421505, -30, 24)
}

/// Convert a PCM sample in `u16` format to binary32 in the range
/// `[-1.0, 1.0]`.
pub fn pcm_u16_to_f32(s: u16) -> (bits: u32)
    ensures
        bits == spec_pcm_u16_to_f32(s),
        s == 0 ==> bits == 0xBF80_0000,
        s == 0xFFFF ==> bits == 0x3F80_0000,
{
    proof {
        lemma_least_u16();
        lemma_greatest_u16();
        lemma_two_over_u16_max();
        lemma2_to64();
    }
    scale_and_center(s as u128, 16, 8388736, -38, 24)
}

/// The conversion of a 24-bit unsigned value.
fn u24_to_f32(v: u32) -> (bits: u32)
    requires
        v <= 0xFF_FFFF,
    ensures
        bits == spec_pcm_u24_to_f32(v as nat),
{
    proof {
        lemma_two_over_u24_max();
        lemma2_to64();
        lemma2_to64_rest();
    }
    scale_and_center(v as u128, 24, 4503599895805968, -75, 53)
}

/// Convert a PCM sample in `u24` format to binary32 in the range
/// `[-1.0, 1.0]`, where the `u24` is three bytes, least significant first.
pub fn pcm_u24_to_f32_le(s: [u8; 3]) -> (bits: u32)
    ensures
        bits == spec_pcm_u24_to_f32(u24_le(s)),
        u24_le(s) == 0 ==> bits == 0xBF80_0000,
        u24_le(s) == 0xFF_FFFF ==> bits == 0x3F80_0000,
{
    proof {
        lemma_least_u24();
        lemma_greatest_u24();
    }
    u24_to_f32(s[0] as u32 + 0x100 * (s[1] as u32) + 0x1_0000 * (s[2] as u32))
}

/// Convert a PCM sample in `u24` format to binary32 in the range
/// `[-1.0, 1.0]`, where the `u24` is three bytes, most significant first.
pub fn pcm_u24_to_f32_be(s: [u8; 3]) -> (bits: u32)
    ensures
        bits == spec_pcm_u24_to_f32(u24_be(s)),
        u24_be(s) == 0 ==> bits == 0xBF80_0000,
        u24_be(s) == 0xFF_FFFF ==> bits == 0x3F80_0000,
{
    proof {
        lemma_least_u24();
        lemma_greatest_u24();
    }
    u24_to_f32(s[2] as u32 + 0x100 * (s[1] as u32) + 0x1_0000 * (s[0] as u32))
}

/// Convert a PCM sample in `u32` format to binary32 in the range
/// `[-1.0, 1.0]`.
pub fn pcm_u32_to_f32(s: u32) -> (bits: u32)
    ensures
        bits == spec_pcm_u32_to_f32(s),
        s == 0 ==> bits == 0xBF80_0000,
        s == 0xFFFF_FFFF ==> bits == 0x3F80_0000,
{
    proof {
        lemma_least_u32();
        lemma_greatest_u32();
        lemma_two_over_u32_max();
        lemma2_to64();
        lemma2_to64_rest();
    }
    scale_and_center(s as u128, 32, 4503599628419072, -83, 53)
}

/// Convert a PCM sample in `i8` format to binary32 in the range
/// `[-1.0, 1.0]`.
pub fn pcm_i8_to_f32(s: i8) -> (bits: u32)
    ensures
        bits == spec_pcm_i8_to_f32(s),
        s == 0 ==> bits == 0,
{
    divide_by_max(s as i64, 0x7F, 24)
}

/// Convert a PCM sample in `i16` format to binary32 in the range
/// `[-1.0, 1.0]`.
pub fn pcm_i16_to_f32(s: i16) -> (bits: u32)
    ensures
        bits == spec_pcm_i16_to_f32(s),
        s == 0 ==> bits == 0,
{
    divide_by_max(s as i64, 0x7FFF, 24)
}

/// The conversion of a 24-bit two's-complement pattern.
fn i24_to_f32(v: u32) -> (bits: u32)
    requires
        v <= 0xFF_FFFF,
    ensures
        bits == spec_pcm_i24_to_f32(sign_extend_24(v as nat)),
{
    let value: i64 = if v < 0x80_0000 {
        v as i64
    } else {
        v as i64 - 0x100_0000
    };
    divide_by_max(value, 0x7F_FFFF, 53)
}

/// Convert a PCM sample in `i24` format to binary32 in the range
/// `[-1.0, 1.0]`, where the `i24` is three bytes in two's complement,
/// least significant first.
pub fn pcm_i24_to_f32_le(s: [u8; 3]) -> (bits: u32)
    ensures
        bits == spec_pcm_i24_to_f32(sign_extend_24(u24_le(s))),
        u24_le(s) == 0 ==> bits == 0,
{
    i24_to_f32(s[0] as u32 + 0x100 * (s[1] as u32) + 0x1_0000 * (s[2] as u32))
}

/// Convert a PCM sample in `i24` format to binary32 in the range
/// `[-1.0, 1.0]`, where the `i24` is three bytes in two's complement,
/// most significant first.
pub fn pcm_i24_to_f32_be(s: [u8; 3]) -> (bits: u32)
    ensures
        bits == spec_pcm_i24_to_f32(sign_extend_24(u24_be(s))),
        u24_be(s) == 0 ==> bits == 0,
{
    i24_to_f32(s[2] as u32 + 0x100 * (s[1] as u32) + 0x1_0000 * (s[0] as u32))
}

/// Convert a PCM sample in `i32` format to binary32 in the range
/// `[-1.0, 1.0]`.
pub fn pcm_i32_to_f32(s: i32) -> (bits: u32)
    ensures
        bits == spec_pcm_i32_to_f32(s),
        s == 0 ==> bits == 0,
{
    divide_by_max(s as i64, 0x7FFF_FFFF, 53)
}


/// `u16::from_ne_bytes`: the value of two bytes in the byte order of the
/// machine, which is one of the two orders.
#[verifier::external_body]
fn native_u16(bytes: [u8; 2]) -> (v: u16)
    ensures
        v == bytes[0] + 0x100 * bytes[1] || v == bytes[1] + 0x100 * bytes[0],
{
    u16::from_ne_bytes(bytes)
}

/// Whether the machine puts the least significant byte first.
pub(crate) fn little_endian() -> bool {
    least_byte_first(native_u16([1, 0]))
}

/// Whether `one`, the value that the bytes 1 and 0 have in the byte order of
/// a machine, shows that the machine puts the least significant byte first:
/// it is 1 there, and 256 where the most significant byte comes first.
fn least_byte_first(one: u16) -> (little: bool)
    ensures
        little == (one == 1),
{
    one == 1
}

/// Convert a PCM sample in `u24` format to binary32 in the range
/// `[-1.0, 1.0]`, where the `u24` is three bytes in the given order.
pub fn pcm_u24_to_f32_ordered(s: [u8; 3], least_first: bool) -> (bits: u32)
    ensures
        bits == spec_pcm_u24_to_f32(u24_ordered(s, least_first)),
        u24_ordered(s, least_first) == 0 ==> bits == 0xBF80_0000,
        u24_ordered(s, least_first) == 0xFF_FFFF ==> bits == 0x3F80_0000,
{
    if least_first {
        pcm_u24_to_f32_le(s)
    } else {
        pcm_u24_to_f32_be(s)
    }
}

/// Convert a PCM sample in `i24` format to binary32 in the range
/// `[-1.0, 1.0]`, where the `i24` is three bytes in two's complement in the
/// given order.
pub fn pcm_i24_to_f32_ordered(s: [u8; 3], least_first: bool) -> (bits: u32)
    ensures
        bits == spec_pcm_i24_to_f32(sign_extend_24(u24_ordered(s, least_first))),
        u24_ordered(s, least_first) == 0 ==> bits == 0,
{
    if least_first {
        pcm_i24_to_f32_le(s)
    } else {
        pcm_i24_to_f32_be(s)
    }
}

/// Convert a PCM sample in `u24` format to binary32 in the range
/// `[-1.0, 1.0]`, where the `u24` is three bytes in the byte order of the
/// machine.
pub fn pcm_u24_to_f32_ne(s: [u8; 3]) -> (bits: u32)
    ensures
        bits == spec_pcm_u24_to_f32(u24_le(s)) || bits == spec_pcm_u24_to_f32(u24_be(s)),
        u24_le(s) == 0 ==> bits == 0xBF80_0000,
        u24_le(s) == 0xFF_FFFF ==> bits == 0x3F80_0000,
{
    pcm_u24_to_f32_ordered(s, little_endian())
}

/// Convert a PCM sample in `i24` format to binary32 in the range
/// `[-1.0, 1.0]`, where the `i24` is three bytes in two's complement in the
/// byte order of the machine.
pub fn pcm_i24_to_f32_ne(s: [u8; 3]) -> (bits: u32)
    ensures
        bits == spec_pcm_i24_to_f32(sign_extend_24(u24_le(s))) || bits == spec_pcm_i24_to_f32(
            sign_extend_24(u24_be(s)),
        ),
        u24_le(s) == 0 ==> bits == 0,
{
    pcm_i24_to_f32_ordered(s, little_endian())
}

/// The powers of two above `2^64` that the boundary values of the wide
/// encodings reach.
proof fn lemma_wide_powers()
    ensures
        pow2(75) == 0x8000000000000000000,
        pow2(76) == 0x10000000000000000000,
        pow2(83) == 0x800000000000000000000,
        pow2(84) == 0x1000000000000000000000,
{
    lemma2_to64();
    lemma_pow2_adds(64, 11);
    assert(pow2(75) == 0x8000000000000000000) by (nonlinear_arith)
        requires
            pow2(75) == pow2(64) * pow2(11),
            pow2(64) == 0x1_0000_0000_0000_0000,
            pow2(11) == 0x800,
    ;
    lemma_pow2_adds(64, 12);
    assert(pow2(76) == 0x10000000000000000000) by (nonlinear_arith)
        requires
            pow2(76) == pow2(64) * pow2(12),
            pow2(64) == 0x1_0000_0000_0000_0000,
            pow2(12) == 0x1000,
    ;
    lemma_pow2_adds(64, 19);
    assert(pow2(83) == 0x800000000000000000000) by (nonlinear_arith)
        requires
            pow2(83) == pow2(64) * pow2(19),
            pow2(64) == 0x1_0000_0000_0000_0000,
            pow2(19) == 0x80000,
    ;
    lemma_pow2_adds(64, 20);
    assert(pow2(84) == 0x1000000000000000000000) by (nonlinear_arith)
        requires
            pow2(84) == pow2(64) * pow2(20),
            pow2(64) == 0x1_0000_0000_0000_0000,
            pow2(20) == 0x100000,
    ;
}

/// The least `u8` sample converts to `-1.0`.
pub proof fn lemma_least_u8()
    ensures
        spec_pcm_u8_to_f32(0x0) == 0xbf800000u32,
{
    lemma_two_over_u8_max();
    lemma2_to64();
    lemma_bit_len_unique(1073741824, 31);
    lemma_bit_len_unique(8388608, 24);
}

/// The greatest `u8` sample converts to `1.0`.
pub proof fn lemma_greatest_u8()
    ensures
        spec_pcm_u8_to_f32(0xff) == 0x3f800000u32,
{
    lemma_two_over_u8_max();
    lemma2_to64();
    lemma_bit_len_unique(2147483775, 32);
    lemma_bit_len_unique(4194304, 23);
}

/// The least `u16` sample converts to `-1.0`.
pub proof fn lemma_least_u16()
    ensures
        spec_pcm_u16_to_f32(0x0) == 0xbf800000u32,
{
    lemma_two_over_u16_max();
    lemma2_to64();
    lemma2_to64_rest();
    lemma_bit_len_unique(274877906944, 39);
    lemma_bit_len_unique(8388608, 24);
}

/// The greatest `u16` sample converts to `1.0`.
pub proof fn lemma_greatest_u16()
    ensures
        spec_pcm_u16_to_f32(0xffff) == 0x3f800000u32,
{
    lemma_two_over_u16_max();
    lemma2_to64();
    lemma2_to64_rest();
    lemma_bit_len_unique(549755813760, 39);
    lemma_bit_len_unique(4194304, 23);
}

/// The least `u24` sample converts to `-1.0`.
pub proof fn lemma_least_u24()
    ensures
        spec_pcm_u24_to_f32(0x0) == 0xbf800000u32,
{
    lemma_two_over_u24_max();
    lemma2_to64();
    lemma2_to64_rest();
    lemma_wide_powers();
    assert(round_sig(0, 53) == (Rounded { sig: 0, exp: 0 }));
    lemma_bit_len_unique(37778931862957161709568, 76);
    assert(round_sig(37778931862957161709568, 53) == (Rounded { sig: 4503599627370496, exp: 23 }));
    lemma_bit_len_unique(4503599627370496, 53);
    assert(round_half_even(4503599627370496, pow2(29)) == 8388608);
    lemma_bit_len_unique(8388608, 24);
}

/// The greatest `u24` sample converts to `1.0`.
pub proof fn lemma_greatest_u24()
    ensures
        spec_pcm_u24_to_f32(0xffffff) == 0x3f800000u32,
{
    lemma_two_over_u24_max();
    lemma2_to64();
    lemma2_to64_rest();
    lemma_wide_powers();
    lemma_bit_len_unique(75557863725914323419120, 76);
    lemma_bit_len_unique(2251799813685248, 52);
    assert(round_half_even(2251799813685248, pow2(28)) == 8388608);
    lemma_bit_len_unique(8388608, 24);
}

/// The least `u32` sample converts to `-1.0`.
pub proof fn lemma_least_u32()
    ensures
        spec_pcm_u32_to_f32(0x0) == 0xbf800000u32,
{
    lemma_two_over_u32_max();
    lemma2_to64();
    lemma2_to64_rest();
    lemma_wide_powers();
    assert(round_sig(0, 53) == (Rounded { sig: 0, exp: 0 }));
    lemma_bit_len_unique(9671406556917033397649408, 84);
    assert(round_sig(9671406556917033397649408, 53) == (Rounded { sig: 4503599627370496, exp: 31 }));
    lemma_bit_len_unique(4503599627370496, 53);
    assert(round_half_even(4503599627370496, pow2(29)) == 8388608);
    lemma_bit_len_unique(8388608, 24);
}

/// The greatest `u32` sample converts to `1.0`.
pub proof fn lemma_greatest_u32()
    ensures
        spec_pcm_u32_to_f32(0xffffffff) == 0x3f800000u32,
{
    lemma_two_over_u32_max();
    lemma2_to64();
    lemma2_to64_rest();
    lemma_wide_powers();
    assert(4294967295 * 4503599628419072 == 19342813113834066794250240) by (nonlinear_arith);
    lemma_bit_len_unique(19342813113834066794250240, 84);
    lemma_bit_len_unique(2251799813685248, 52);
    assert(round_half_even(2251799813685248, pow2(28)) == 8388608);
    lemma_bit_len_unique(8388608, 24);
}

/// A signed sample of zero converts to `0.0`, in every encoding.
pub proof fn lemma_signed_zero()
    ensures
        spec_pcm_i8_to_f32(0) == 0u32,
        spec_pcm_i16_to_f32(0) == 0u32,
        spec_pcm_i24_to_f32(0) == 0u32,
        spec_pcm_i32_to_f32(0) == 0u32,
{
}

} // verus!
