//! Rounding of exact binary values to IEEE-754 formats, on integers.
//!
//! A magnitude is written `n * 2^exp` with a natural number `n`. Rounding is
//! to the nearest representable value, ties to the even significand: the
//! rounding that the basic arithmetic operations and conversions use.

use vstd::prelude::*;
use vstd::arithmetic::power2::{
    lemma2_to64, lemma_pow2_adds, lemma_pow2_pos, lemma_pow2_strictly_increases, lemma_pow2_unfold, pow2,
};
use vstd::arithmetic::div_mod::lemma_fundamental_div_mod;

verus! {

/// The number of binary digits of `n`: the least `k` with `n < 2^k`.
pub open spec fn bit_len(n: nat) -> nat
    decreases n,
{
    if n == 0 {
        0
    } else {
        1 + bit_len(n / 2)
    }
}

/// `n / d` rounded to the nearest integer, a tie going to the even one.
pub open spec fn round_half_even(n: nat, d: nat) -> nat {
    let q = n / d;
    let r = n % d;
    if 2 * r > d || (2 * r == d && q % 2 == 1) {
        q + 1
    } else {
        q
    }
}

/// `2^(bit_len(n) - 1) <= n < 2^bit_len(n)` for positive `n`.
pub proof fn lemma_bit_len_bounds(n: nat)
    ensures
        n < pow2(bit_len(n)),
        n > 0 ==> bit_len(n) > 0 && pow2((bit_len(n) - 1) as nat) <= n,
    decreases n,
{
    lemma2_to64();
    if n > 0 {
        lemma_bit_len_bounds(n / 2);
        let k = bit_len(n / 2);
        lemma_pow2_unfold(k + 1);
        if n / 2 > 0 {
            lemma_pow2_unfold(k);
        }
    }
}

/// The bounds of [`lemma_bit_len_bounds`] determine the bit length.
pub proof fn lemma_bit_len_unique(n: nat, k: nat)
    requires
        k > 0,
        pow2((k - 1) as nat) <= n < pow2(k),
    ensures
        bit_len(n) == k,
{
    lemma_bit_len_bounds(n);
    let b = bit_len(n);
    if b < k {
        if b < k - 1 {
            lemma_pow2_strictly_increases(b, (k - 1) as nat);
        }
    } else if b > k {
        if k < b - 1 {
            lemma_pow2_strictly_increases(k, (b - 1) as nat);
        }
    }
}

/// `2^127` and the powers below it fit in 128 bits.
pub proof fn lemma_pow2_below_128(e: nat)
    requires
        e <= 127,
    ensures
        pow2(e) <= 0x8000_0000_0000_0000_0000_0000_0000_0000,
{
    lemma2_to64();
    lemma_pow2_adds(64, 63);
    assert(pow2(63) == 0x8000_0000_0000_0000) by {
        lemma_pow2_unfold(64);
    }
    assert(pow2(127) == 0x8000_0000_0000_0000_0000_0000_0000_0000) by (nonlinear_arith)
        requires
            pow2(127) == pow2(64) * pow2(63),
            pow2(64) == 0x1_0000_0000_0000_0000,
            pow2(63) == 0x8000_0000_0000_0000,
    ;
    if e < 127 {
        lemma_pow2_strictly_increases(e, 127);
    }
}

/// `2^e`.
pub fn power_of_two(e: u32) -> (p: u128)
    requires
        e <= 127,
    ensures
        p == pow2(e as nat),
{
    let mut p: u128 = 1;
    let mut i: u32 = 0;
    proof {
        lemma2_to64();
    }
    while i < e
        invariant
            i <= e <= 127,
            p == pow2(i as nat),
        decreases e - i,
    {
        proof {
            lemma_pow2_unfold((i + 1) as nat);
            lemma_pow2_below_128((i + 1) as nat);
        }
        p = p * 2;
        i = i + 1;
    }
    p
}

/// The bit length of `n`.
pub fn bit_length(n: u128) -> (len: u32)
    requires
        n < pow2(126),
    ensures
        len == bit_len(n as nat),
        len <= 126,
{
    let mut p: u128 = 1;
    let mut len: u32 = 0;
    proof {
        lemma2_to64();
    }
    while p <= n
        invariant
            len <= 126,
            n < pow2(126),
            p == pow2(len as nat),
            len > 0 ==> pow2((len - 1) as nat) <= n,
        decreases 126 - len,
    {
        proof {
            lemma_pow2_unfold((len + 1) as nat);
            lemma_pow2_below_128((len + 1) as nat);
        }
        p = p * 2;
        len = len + 1;
    }
    proof {
        if len > 0 {
            lemma_bit_len_unique(n as nat, len as nat);
        }
    }
    len
}

/// `n / d` rounded to the nearest integer, a tie going to the even one.
pub fn half_even(n: u128, d: u128) -> (m: u128)
    requires
        d > 0,
        n < pow2(126),
    ensures
        m == round_half_even(n as nat, d as nat),
{
    let q = n / d;
    let r = n % d;
    proof {
        lemma_pow2_below_128(126);
    }
    // `2 * r` compared with `d`, without doubling
    let rest = d - r;
    if r > rest || (r == rest && q % 2 == 1) {
        q + 1
    } else {
        q
    }
}

/// `n < 2^k` bounds the bit length by `k`.
pub proof fn lemma_bit_len_at_most(n: nat, k: nat)
    requires
        n < pow2(k),
    ensures
        bit_len(n) <= k,
{
    lemma_bit_len_bounds(n);
    if bit_len(n) > k {
        if k < bit_len(n) - 1 {
            lemma_pow2_strictly_increases(k, (bit_len(n) - 1) as nat);
        }
    }
}

/// `n >= 2^k` makes the bit length exceed `k`.
pub proof fn lemma_bit_len_above(n: nat, k: nat)
    requires
        n >= pow2(k),
    ensures
        bit_len(n) > k,
{
    lemma_bit_len_bounds(n);
    if bit_len(n) < k {
        lemma_pow2_strictly_increases(bit_len(n), k);
    }
}

/// `2^a <= 2^b` for `a <= b`.
pub proof fn lemma_pow2_monotone(a: nat, b: nat)
    requires
        a <= b,
    ensures
        pow2(a) <= pow2(b),
{
    if a < b {
        lemma_pow2_strictly_increases(a, b);
    }
}

/// A quotient lies below `a` when the dividend lies below `a * b`.
pub proof fn lemma_quotient_below(n: nat, a: nat, b: nat)
    requires
        b > 0,
        n < a * b,
    ensures
        n / b < a,
{
    lemma_fundamental_div_mod(n as int, b as int);
    assert(n / b < a) by (nonlinear_arith)
        requires
            b > 0,
            n < a * b,
            n == b * (n / b) + n % b,
            0 <= n % b,
    ;
}

/// A quotient reaches `a` when the dividend reaches `a * b`.
pub proof fn lemma_quotient_reaches(n: nat, a: nat, b: nat)
    requires
        b > 0,
        n >= a * b,
    ensures
        n / b >= a,
{
    lemma_fundamental_div_mod(n as int, b as int);
    assert(n / b >= a) by (nonlinear_arith)
        requires
            b > 0,
            n >= a * b,
            n == b * (n / b) + n % b,
            n % b < b,
    ;
}

/// A magnitude `sig * 2^exp` that came out of a rounding.
pub struct Rounded {
    pub sig: nat,
    pub exp: int,
}

/// `n` rounded to `prec` significant bits.
///
/// The significand of the result has at most `prec` bits, and exactly `prec`
/// where `n` had more.
pub open spec fn round_sig(n: nat, prec: nat) -> Rounded {
    let len = bit_len(n);
    if len <= prec {
        Rounded { sig: n, exp: 0 }
    } else {
        let s = (len - prec) as nat;
        let m = round_half_even(n, pow2(s));
        if m == pow2(prec) {
            Rounded { sig: pow2((prec - 1) as nat), exp: s as int + 1 }
        } else {
            Rounded { sig: m, exp: s as int }
        }
    }
}

/// `n / d` rounded to `prec` significant bits, for `d` below `2^32`.
pub open spec fn round_quot(n: nat, d: nat, prec: nat) -> Rounded {
    if n == 0 {
        Rounded { sig: 0, exp: 0 }
    } else {
        // enough binary places that the quotient has more than `prec` bits
        let k = prec + 32;
        let scaled = n * pow2(k);
        let s = (bit_len(scaled / d) - prec) as nat;
        let m = round_half_even(scaled, d * pow2(s));
        if m == pow2(prec) {
            Rounded { sig: pow2((prec - 1) as nat), exp: s + 1 - k }
        } else {
            Rounded { sig: m, exp: s - k }
        }
    }
}

/// Rounding a value of `prec + s` bits at bit `s` gives between `2^(prec-1)`
/// and `2^prec`.
pub proof fn lemma_round_range(n: nat, d: nat, s: nat, prec: nat)
    requires
        prec >= 1,
        d > 0,
        bit_len(n / d) == prec + s,
    ensures
        pow2((prec - 1) as nat) <= round_half_even(n, d * pow2(s)) <= pow2(prec),
{
    let q = n / d;
    let big = d * pow2(s);
    lemma_bit_len_bounds(q);
    lemma_pow2_adds((prec - 1) as nat, s);
    lemma_pow2_adds(prec, s);
    assert(big > 0) by (nonlinear_arith)
        requires
            big == d * pow2(s),
            d > 0,
            pow2(s) > 0,
    ;
    lemma_fundamental_div_mod(n as int, d as int);
    // q < 2^prec * 2^s, so n < 2^prec * 2^s * d
    let hi = pow2(prec) * pow2(s);
    let lo = pow2((prec - 1) as nat) * pow2(s);
    assert(n < d * hi) by (nonlinear_arith)
        requires
            n == d * q + n % d,
            n % d < d,
            d > 0,
            q + 1 <= hi,
    ;
    assert(d * hi == pow2(prec) * big) by (nonlinear_arith)
        requires
            hi == pow2(prec) * pow2(s),
            big == d * pow2(s),
    ;
    assert(n >= d * lo) by (nonlinear_arith)
        requires
            n == d * q + n % d,
            0 <= n % d,
            d > 0,
            q >= lo,
    ;
    assert(d * lo == pow2((prec - 1) as nat) * big) by (nonlinear_arith)
        requires
            lo == pow2((prec - 1) as nat) * pow2(s),
            big == d * pow2(s),
    ;
    lemma_quotient_below(n, pow2(prec), big);
    lemma_quotient_reaches(n, pow2((prec - 1) as nat), big);
}

/// `n` rounded to `prec` significant bits: the significand and the exponent
/// of [`round_sig`].
pub fn round_significand(n: u128, prec: u32) -> (r: (u128, u32))
    requires
        n < pow2(126),
        1 <= prec <= 64,
    ensures
        r.0 == round_sig(n as nat, prec as nat).sig,
        r.1 == round_sig(n as nat, prec as nat).exp,
        r.0 < pow2(prec as nat),
        r.1 <= 126,
        bit_len(n as nat) > prec ==> r.0 >= pow2((prec - 1) as nat),
        n > 0 ==> r.0 > 0,
        r.1 == 0 || r.1 + prec <= bit_len(n as nat) + 1,
{
    let len = bit_length(n);
    if len <= prec {
        proof {
            lemma_bit_len_bounds(n as nat);
            lemma_pow2_monotone(len as nat, prec as nat);
        }
        (n, 0)
    } else {
        let s = len - prec;
        let d = power_of_two(s);
        proof {
            lemma_pow2_pos(s as nat);
        }
        let m = half_even(n, d);
        let full = power_of_two(prec);
        proof {
            lemma_round_range(n as nat, 1, s as nat, prec as nat);
            lemma_pow2_pos((prec - 1) as nat);
        }
        if m == full {
            proof {
                lemma_pow2_strictly_increases((prec - 1) as nat, prec as nat);
            }
            (power_of_two(prec - 1), s + 1)
        } else {
            (m, s)
        }
    }
}

/// `n / d` rounded to `prec` significant bits: the significand and the
/// exponent of [`round_quot`].
pub fn round_quotient(n: u128, d: u128, prec: u32) -> (r: (u128, i64))
    requires
        n < pow2(33),
        0 < d < pow2(32),
        1 <= prec <= 53,
    ensures
        r.0 == round_quot(n as nat, d as nat, prec as nat).sig,
        r.1 == round_quot(n as nat, d as nat, prec as nat).exp,
        r.0 < pow2(prec as nat),
        n > 0 ==> r.0 >= pow2((prec - 1) as nat),
        n > 0 ==> -(prec as int) - 32 < r.1 <= 35,
{
    if n == 0 {
        proof {
            lemma_pow2_pos(prec as nat);
        }
        return (0, 0);
    }
    let k = prec + 32;
    let unit = power_of_two(k);
    proof {
        lemma_pow2_adds(33, k as nat);
        lemma_pow2_monotone(33 + k as nat, 118);
        lemma_pow2_strictly_increases(118, 126);
        lemma_pow2_below_128(126);
        lemma_pow2_pos(k as nat);
        assert(n * unit < pow2(33) * pow2(k as nat)) by (nonlinear_arith)
            requires
                n < pow2(33),
                unit == pow2(k as nat),
                unit > 0,
        ;
    }
    let scaled = n * unit;
    let q = scaled / d;
    proof {
        // the quotient has more than `prec` bits and at most `prec + 65`
        lemma_pow2_adds(prec as nat, 32);
        assert(scaled >= pow2(prec as nat) * d) by (nonlinear_arith)
            requires
                scaled == n * unit,
                unit == pow2(prec as nat) * pow2(32),
                n >= 1,
                d < pow2(32),
        ;
        lemma_quotient_reaches(scaled as nat, pow2(prec as nat), d as nat);
        lemma_bit_len_above(q as nat, prec as nat);
        lemma_fundamental_div_mod(scaled as int, d as int);
        assert(q <= scaled) by (nonlinear_arith)
            requires
                scaled == d * q + scaled % d,
                d >= 1,
                0 <= scaled % d,
                q >= 0,
        ;
        lemma_bit_len_at_most(q as nat, 33 + k as nat);
    }
    let s = bit_length(q) - prec;
    let step = power_of_two(s);
    proof {
        lemma_pow2_adds(32, s as nat);
        lemma_pow2_monotone(32 + s as nat, 97);
        lemma_pow2_strictly_increases(97, 126);
        lemma_pow2_pos(s as nat);
        assert(d * step < pow2(32) * pow2(s as nat)) by (nonlinear_arith)
            requires
                d < pow2(32),
                step == pow2(s as nat),
                step > 0,
        ;
        assert(d * step > 0) by (nonlinear_arith)
            requires
                d > 0,
                step > 0,
        ;
        lemma_round_range(scaled as nat, d as nat, s as nat, prec as nat);
    }
    let m = half_even(scaled, d * step);
    let full = power_of_two(prec);
    if m == full {
        proof {
            lemma_pow2_strictly_increases((prec - 1) as nat, prec as nat);
        }
        (power_of_two(prec - 1), s as i64 + 1 - k as i64)
    } else {
        (m, s as i64 - k as i64)
    }
}

/// The binary32 bit pattern nearest to `n * 2^exp`, with the given sign.
///
/// Magnitudes below the least normal one round to a multiple of `2^-149`;
/// those that round beyond the greatest finite one give infinity.
pub open spec fn binary32(neg: bool, n: nat, exp: int) -> u32 {
    let sign: nat = if neg {
        0x8000_0000
    } else {
        0
    };
    if n == 0 {
        sign as u32
    } else if exp + bit_len(n) <= -126 {
        let m = if exp >= -149 {
            n * pow2((exp + 149) as nat)
        } else {
            round_half_even(n, pow2((-149 - exp) as nat))
        };
        (sign + m) as u32
    } else {
        let r = round_sig(n, 24);
        let len = bit_len(r.sig);
        let e = exp + r.exp + len - 1;
        if e > 127 {
            (sign + 0x7F80_0000) as u32
        } else {
            (sign + (e + 127) * 0x80_0000 + r.sig * pow2((24 - len) as nat) - 0x80_0000) as u32
        }
    }
}

/// The binary32 bit pattern nearest to `n * 2^exp`: [`binary32`].
pub fn to_binary32(neg: bool, n: u128, exp: i64) -> (bits: u32)
    requires
        n < pow2(126),
        -100_000 <= exp <= 100_000,
    ensures
        bits == binary32(neg, n as nat, exp as int),
{
    let sign: u32 = if neg {
        0x8000_0000
    } else {
        0
    };
    if n == 0 {
        return sign;
    }
    let len = bit_length(n);
    proof {
        lemma2_to64();
        lemma_bit_len_bounds(n as nat);
    }
    if exp + len as i64 <= -126 {
        let m: u128 = if exp >= -149 {
            let shift = (exp + 149) as u32;
            let unit = power_of_two(shift);
            proof {
                lemma_pow2_adds(len as nat, shift as nat);
                assert(n * unit < pow2(len as nat) * pow2(shift as nat)) by (nonlinear_arith)
                    requires
                        n < pow2(len as nat),
                        unit == pow2(shift as nat),
                        unit > 0,
                ;
            }
            n * unit
        } else {
            let s = -149 - exp;
            if s > 126 {
                proof {
                    lemma_pow2_monotone(127, s as nat);
                    lemma_pow2_unfold(127);
                    let d = pow2(s as nat);
                    vstd::arithmetic::div_mod::lemma_small_mod(n as nat, d);
                    vstd::arithmetic::div_mod::lemma_basic_div(n as int, d as int);
                }
                0
            } else {
                let d = power_of_two(s as u32);
                proof {
                    if len as int <= s {
                        lemma_pow2_monotone(len as nat, s as nat);
                        vstd::arithmetic::div_mod::lemma_basic_div(n as int, d as int);
                    } else {
                        lemma_pow2_adds(23, s as nat);
                        lemma_pow2_monotone(len as nat, (23 + s) as nat);
                        lemma_quotient_below(n as nat, pow2(23), d as nat);
                    }
                }
                half_even(n, d)
            }
        };
        sign + (m as u32)
    } else {
        let (sig, shift) = round_significand(n, 24);
        let slen = bit_length_small(sig, n, len);
        let e: i64 = exp + shift as i64 + slen as i64 - 1;
        if e > 127 {
            sign + 0x7F80_0000
        } else {
            let unit = power_of_two(24 - slen);
            proof {
                lemma_bit_len_bounds(sig as nat);
                lemma_pow2_adds((slen - 1) as nat, (24 - slen) as nat);
                lemma_pow2_adds(slen as nat, (24 - slen) as nat);
                assert(sig * unit < pow2(slen as nat) * pow2((24 - slen) as nat)) by (nonlinear_arith)
                    requires
                        sig < pow2(slen as nat),
                        unit == pow2((24 - slen) as nat),
                        unit > 0,
                ;
                assert(sig * unit >= pow2((slen - 1) as nat) * pow2((24 - slen) as nat)) by (nonlinear_arith)
                    requires
                        sig >= pow2((slen - 1) as nat),
                        unit == pow2((24 - slen) as nat),
                        unit > 0,
                ;
            }
            let frac = sig * unit - 0x80_0000;
            sign + ((e + 127) as u32) * 0x80_0000 + (frac as u32)
        }
    }
}

/// The bit length of the significand that rounding `n` to 24 bits gave.
fn bit_length_small(sig: u128, n: u128, len: u32) -> (slen: u32)
    requires
        0 < n < pow2(126),
        len == bit_len(n as nat),
        sig == round_sig(n as nat, 24).sig,
        0 < sig < pow2(24),
        len > 24 ==> sig >= pow2(23),
    ensures
        slen == bit_len(sig as nat),
        1 <= slen <= 24,
        slen + round_sig(n as nat, 24).exp >= len,
{
    proof {
        lemma_pow2_strictly_increases(24, 126);
        lemma_bit_len_at_most(sig as nat, 24);
        if len > 24 {
            lemma_bit_len_above(sig as nat, 23);
        }
    }
    bit_length(sig)
}

/// The binary32 bit pattern that a binary64 bit pattern converts to.
///
/// A NaN stays a NaN: it keeps its sign and the upper bits of its payload,
/// and is made quiet.
pub open spec fn narrow(b: u64) -> u32 {
    let neg = b >= 0x8000_0000_0000_0000;
    let sign: nat = if neg {
        0x8000_0000
    } else {
        0
    };
    let field = (b / 0x10_0000_0000_0000) % 0x800;
    let frac = b % 0x10_0000_0000_0000;
    if field == 0x7FF {
        if frac == 0 {
            (sign + 0x7F80_0000) as u32
        } else {
            (sign + 0x7FC0_0000 + (frac / 0x2000_0000) % 0x40_0000) as u32
        }
    } else if field == 0 {
        binary32(neg, frac as nat, -1074)
    } else {
        binary32(neg, (0x10_0000_0000_0000 + frac) as nat, field - 1075)
    }
}

/// The binary32 bit pattern that a binary64 bit pattern converts to:
/// [`narrow`].
pub fn binary64_to_binary32(b: u64) -> (bits: u32)
    ensures
        bits == narrow(b),
{
    let neg = b >= 0x8000_0000_0000_0000;
    let sign: u32 = if neg {
        0x8000_0000
    } else {
        0
    };
    let field = (b / 0x10_0000_0000_0000) % 0x800;
    let frac = b % 0x10_0000_0000_0000;
    proof {
        vstd::arithmetic::power2::lemma2_to64_rest();
        lemma_pow2_strictly_increases(53, 126);
    }
    if field == 0x7FF {
        if frac == 0 {
            sign + 0x7F80_0000
        } else {
            sign + 0x7FC0_0000 + ((frac / 0x2000_0000) % 0x40_0000) as u32
        }
    } else if field == 0 {
        to_binary32(neg, frac as u128, -1074)
    } else {
        to_binary32(neg, (0x10_0000_0000_0000 + frac) as u128, field as i64 - 1075)
    }
}


/// No integer is nearer to `n / d` than `round_half_even(n, d)`, and where
/// two are equally near, the even one is taken.
pub proof fn lemma_round_half_even_is_nearest(n: nat, d: nat)
    requires
        d > 0,
    ensures
        2 * vstd::math::abs(round_half_even(n, d) * d - n) <= d,
        2 * vstd::math::abs(round_half_even(n, d) * d - n) == d ==> round_half_even(n, d) % 2 == 0,
{
    let q = n / d;
    lemma_fundamental_div_mod(n as int, d as int);
    assert(q * d == d * q) by (nonlinear_arith);
    assert((q + 1) * d == d * q + d) by (nonlinear_arith);
}

/// Whether `bits` is the pattern of a finite binary32 value.
pub open spec fn is_finite32(bits: u32) -> bool {
    (bits / 0x80_0000) % 0x100 != 0xFF
}

/// The significand of a finite binary32 value, as an integer.
pub open spec fn significand32(bits: u32) -> nat {
    if (bits / 0x80_0000) % 0x100 == 0 {
        (bits % 0x80_0000) as nat
    } else {
        (0x80_0000 + bits % 0x80_0000) as nat
    }
}

/// The exponent that goes with [`significand32`]: the value is
/// `significand32(bits) * 2^exponent32(bits)`.
pub open spec fn exponent32(bits: u32) -> int {
    if (bits / 0x80_0000) % 0x100 == 0 {
        -149
    } else {
        (bits / 0x80_0000) % 0x100 - 150
    }
}

/// A value that binary32 holds is rounded to itself: its pattern comes back
/// from its sign, significand and exponent.
pub proof fn lemma_binary32_keeps_its_values(bits: u32)
    requires
        is_finite32(bits),
    ensures
        binary32(bits >= 0x8000_0000, significand32(bits), exponent32(bits)) == bits,
{
    lemma2_to64();
    let n = significand32(bits);
    if (bits / 0x80_0000) % 0x100 == 0 {
        // below the least normal magnitude: the significand is the pattern
        if n > 0 {
            lemma_bit_len_at_most(n, 23);
            assert(n * pow2(0) == n);
        }
    } else {
        lemma_bit_len_unique(n, 24);
    }
}


/// Rounding to `prec` significant bits keeps a number of up to `prec` bits
/// as it is, and brings a longer one to a nearest multiple of the place of
/// its last kept bit.
pub proof fn lemma_round_sig_is_nearest(n: nat, prec: nat)
    requires
        prec >= 1,
    ensures
        round_sig(n, prec).sig < pow2(prec),
        round_sig(n, prec).exp >= 0,
        bit_len(n) <= prec ==> round_sig(n, prec).sig == n && round_sig(n, prec).exp == 0,
        bit_len(n) > prec ==> 2 * vstd::math::abs(
            round_sig(n, prec).sig * pow2(round_sig(n, prec).exp as nat) - n,
        ) <= pow2((bit_len(n) - prec) as nat),
{
    let len = bit_len(n);
    lemma_bit_len_bounds(n);
    if len <= prec {
        lemma_pow2_monotone(len, prec);
    } else {
        let s = (len - prec) as nat;
        let m = round_half_even(n, pow2(s));
        lemma_pow2_pos(s);
        lemma_round_half_even_is_nearest(n, pow2(s));
        assert(n / 1 == n);
        assert(1 * pow2(s) == pow2(s));
        lemma_round_range(n, 1, s, prec);
        if m == pow2(prec) {
            // the carry: 2^(prec - 1) * 2^(s + 1) is 2^prec * 2^s
            lemma_pow2_adds((prec - 1) as nat, s + 1);
            lemma_pow2_adds(prec, s);
            lemma_pow2_strictly_increases((prec - 1) as nat, prec);
        }
    }
}

/// A pattern in the normal range holds what rounding to 24 significant bits
/// gave: its sign is the given one, and its significand and exponent are
/// those of the rounded magnitude, brought to 24 bits.
pub proof fn lemma_binary32_holds_the_rounded_value(neg: bool, n: nat, exp: int)
    requires
        n > 0,
        exp + bit_len(n) > -126,
        exp + round_sig(n, 24).exp + bit_len(round_sig(n, 24).sig) - 1 <= 127,
    ensures
        is_finite32(binary32(neg, n, exp)),
        (binary32(neg, n, exp) >= 0x8000_0000) == neg,
        significand32(binary32(neg, n, exp)) == round_sig(n, 24).sig * pow2(
            (24 - bit_len(round_sig(n, 24).sig)) as nat,
        ),
        exponent32(binary32(neg, n, exp)) == exp + round_sig(n, 24).exp - (24 - bit_len(
            round_sig(n, 24).sig,
        )),
{
    lemma2_to64();
    let r = round_sig(n, 24);
    let len = bit_len(r.sig);
    lemma_round_sig_is_nearest(n, 24);
    lemma_bit_len_bounds(n);
    lemma_bit_len_bounds(r.sig);
    lemma_bit_len_at_most(r.sig, 24);
    if bit_len(n) > 24 {
        assert(n / 1 == n);
        assert(1 * pow2((bit_len(n) - 24) as nat) == pow2((bit_len(n) - 24) as nat));
        lemma_round_range(n, 1, (bit_len(n) - 24) as nat, 24);
        lemma_bit_len_above(r.sig, 23);
    }
    // the significand, brought to 24 bits
    let aligned = r.sig * pow2((24 - len) as nat);
    lemma_pow2_adds((len - 1) as nat, (24 - len) as nat);
    lemma_pow2_adds(len, (24 - len) as nat);
    lemma_pow2_pos((24 - len) as nat);
    assert(0x80_0000 <= aligned < 0x100_0000) by (nonlinear_arith)
        requires
            aligned == r.sig * pow2((24 - len) as nat),
            pow2((len - 1) as nat) <= r.sig < pow2(len),
            pow2((len - 1) as nat) * pow2((24 - len) as nat) == 0x80_0000,
            pow2(len) * pow2((24 - len) as nat) == 0x100_0000,
            pow2((24 - len) as nat) > 0,
    ;
    let field = exp + r.exp + len - 1 + 127;
    let sign: nat = if neg {
        0x8000_0000
    } else {
        0
    };
    let bits = binary32(neg, n, exp);
    assert(bits == sign + field * 0x80_0000 + (aligned - 0x80_0000));
    assert(1 <= field <= 254);
    assert(bits / 0x80_0000 == (if neg {
        256 + field
    } else {
        field
    }));
}


/// Rounding a quotient to `prec` significant bits gives a significand of
/// `prec` bits, and brings the quotient to a nearest multiple of the place
/// of its last kept bit: with both sides taken `d * 2^(prec + 32)` times,
/// the result differs from `n / d` by at most half of that place.
pub proof fn lemma_round_quot_is_nearest(n: nat, d: nat, prec: nat)
    requires
        n > 0,
        0 < d < pow2(32),
        prec >= 1,
    ensures
        pow2((prec - 1) as nat) <= round_quot(n, d, prec).sig < pow2(prec),
        round_quot(n, d, prec).exp + prec + 32 >= 1,
        2 * vstd::math::abs(
            round_quot(n, d, prec).sig * pow2((round_quot(n, d, prec).exp + prec + 32) as nat) * d - n
                * pow2(prec + 32),
        ) <= d * pow2((bit_len(n * pow2(prec + 32) / d) - prec) as nat),
{
    let k = prec + 32;
    let scaled = n * pow2(k);
    let q = scaled / d;
    // the quotient has more than `prec` bits
    lemma_pow2_adds(prec, 32);
    assert(scaled >= pow2(prec) * d) by (nonlinear_arith)
        requires
            scaled == n * pow2(k),
            pow2(k) == pow2(prec) * pow2(32),
            n >= 1,
            d < pow2(32),
    ;
    lemma_quotient_reaches(scaled, pow2(prec), d);
    lemma_bit_len_above(q, prec);
    let s = (bit_len(q) - prec) as nat;
    let step = d * pow2(s);
    let m = round_half_even(scaled, step);
    lemma_pow2_pos(s);
    assert(step > 0) by (nonlinear_arith)
        requires
            step == d * pow2(s),
            d > 0,
            pow2(s) > 0,
    ;
    lemma_round_half_even_is_nearest(scaled, step);
    lemma_round_range(scaled, d, s, prec);
    assert(m * pow2(s) * d == m * step) by (nonlinear_arith)
        requires
            step == d * pow2(s),
    ;
    if m == pow2(prec) {
        // the carry: 2^(prec - 1) * 2^(s + 1) is 2^prec * 2^s
        lemma_pow2_adds((prec - 1) as nat, s + 1);
        lemma_pow2_adds(prec, s);
        lemma_pow2_strictly_increases((prec - 1) as nat, prec);
        lemma_pow2_pos((prec - 1) as nat);
    }
}

} // verus!
