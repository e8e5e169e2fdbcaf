//! IEEE 754 bit-pattern conversions, written as pure integer arithmetic.
//!
//! Untyped integer literals may resolve to F32/F64 and untyped float literals
//! may resolve to F32, so the analyzer needs the value conversions
//! `u64 -> f64`, `u64 -> f32` and `f64 -> f32`. They are computed here on the
//! bit patterns directly, with round-to-nearest, ties-to-even, exactly as the
//! hardware conversions behave. (For a NaN input the `f64 -> f32` narrowing
//! returns the canonical quiet NaN of the input's sign; NaN payloads are not
//! otherwise significant to the compiler.)

use vstd::prelude::*;
use vstd::arithmetic::power2::{
    pow2, lemma2_to64, lemma2_to64_rest, lemma_pow2_adds, lemma_pow2_subtracts,
    lemma_pow2_strictly_increases, lemma_pow2_pos,
};
use vstd::arithmetic::div_mod::lemma_fundamental_div_mod;

verus! {

/// Floor of the base-2 logarithm: the position of the highest set bit.
pub open spec fn spec_floor_log2(n: u64) -> nat
    recommends
        n >= 1,
    decreases n,
{
    if n < 2 {
        0
    } else {
        (1 + spec_floor_log2(n / 2)) as nat
    }
}

pub proof fn lemma_floor_log2_bounds(n: u64)
    requires
        n >= 1,
    ensures
        pow2(spec_floor_log2(n)) <= n < pow2(spec_floor_log2(n) + 1),
        spec_floor_log2(n) <= 63,
    decreases n,
{
    lemma2_to64();
    if n < 2 {
    } else {
        lemma_floor_log2_bounds(n / 2);
        let h = spec_floor_log2(n / 2);
        lemma_pow2_adds(h, 1);
        lemma_pow2_adds(h + 1, 1);
        assert(pow2(h + 1) == 2 * pow2(h));
        assert(pow2(h + 2) == 2 * pow2(h + 1));
        assert(n >= 2 * (n / 2 as u64));
        assert(n < 2 * (n / 2 as u64) + 2);
        if spec_floor_log2(n) > 63 {
            lemma2_to64_rest();
            if spec_floor_log2(n) > 64 {
                lemma_pow2_strictly_increases(64, spec_floor_log2(n));
            }
            assert(false);
        }
    }
}

/// Round `n / pow2(d)` to the nearest integer, ties to even.
pub open spec fn spec_rne(n: int, d: nat) -> int {
    let p = pow2(d) as int;
    let q = n / p;
    let r = n % p;
    if r * 2 > p || (r * 2 == p && q % 2 == 1) {
        q + 1
    } else {
        q
    }
}

/// Bounds of the rounded quotient, given bounds on the dividend.
pub proof fn lemma_rne_bounds(n: int, d: nat, lo: int, hi: int)
    requires
        n >= 0,
        lo >= 0,
        lo * pow2(d) <= n,
        n < hi * pow2(d),
    ensures
        lo <= spec_rne(n, d) <= hi,
{
    let p = pow2(d) as int;
    lemma_pow2_pos(d);
    lemma_fundamental_div_mod(n, p);
    let q = n / p;
    let r = n % p;
    assert(lo <= q && q < hi) by (nonlinear_arith)
        requires
            p > 0,
            lo * p <= n,
            n < hi * p,
            n == q * p + r,
            0 <= r < p,
    ;
}

/// The IEEE 754 binary64 bit pattern closest to the integer `n`
/// (round-to-nearest, ties-to-even; exact whenever `n` has at most 53
/// significant bits).
pub open spec fn spec_f64_bits_from_u64(n: u64) -> u64 {
    if n == 0 {
        0
    } else {
        let h = spec_floor_log2(n);
        if h <= 52 {
            ((h + 1022) * pow2(52) + n * pow2((52 - h) as nat)) as u64
        } else {
            ((h + 1022) * pow2(52) + spec_rne(n as int, (h - 52) as nat)) as u64
        }
    }
}

/// The IEEE 754 binary32 bit pattern closest to the integer `n`.
pub open spec fn spec_f32_bits_from_u64(n: u64) -> u32 {
    if n == 0 {
        0
    } else {
        let h = spec_floor_log2(n);
        if h <= 23 {
            ((h + 126) * pow2(23) + n * pow2((23 - h) as nat)) as u32
        } else {
            ((h + 126) * pow2(23) + spec_rne(n as int, (h - 23) as nat)) as u32
        }
    }
}

/// The binary32 bit pattern nearest the binary64 value with bit pattern `b`
/// (round-to-nearest, ties-to-even; overflow gives the infinity of the same
/// sign, NaN gives the canonical quiet NaN of the same sign).
pub open spec fn spec_f32_bits_from_f64_bits(b: u64) -> u32 {
    let sign = b / pow2(63) as u64;
    let e_field = (b / pow2(52) as u64) % pow2(11) as u64;
    let m_field = b % pow2(52) as u64;
    let sign32 = sign * pow2(31) as u64;
    if e_field == 2047 {
        if m_field == 0 {
            (sign32 + 0x7F80_0000) as u32
        } else {
            (sign32 + 0x7FC0_0000) as u32
        }
    } else if e_field == 0 {
        sign32 as u32
    } else {
        let e = e_field as int - 1023;
        let m = (pow2(52) + m_field) as int;
        if e >= 128 {
            (sign32 + 0x7F80_0000) as u32
        } else if e >= -126 {
            let bits = (e + 126) * pow2(23) + spec_rne(m, 29);
            if bits >= 0x7F80_0000 {
                (sign32 + 0x7F80_0000) as u32
            } else {
                (sign32 + bits) as u32
            }
        } else {
            let d = (-97 - e) as nat;
            if d >= 54 {
                sign32 as u32
            } else {
                (sign32 + spec_rne(m, d)) as u32
            }
        }
    }
}

/// `pow2(k)` as a machine integer.
pub fn two_pow(k: u32) -> (r: u64)
    requires
        k < 64,
    ensures
        r as nat == pow2(k as nat),
{
    let mut i: u32 = 0;
    let mut r: u64 = 1;
    proof {
        lemma2_to64();
    }
    while i < k
        invariant
            i <= k,
            k < 64,
            r as nat == pow2(i as nat),
        decreases k - i,
    {
        proof {
            lemma2_to64_rest();
            if (i as nat) < 63 {
                lemma_pow2_strictly_increases(i as nat, 63);
            }
            lemma_pow2_adds(i as nat, 1);
            lemma2_to64();
        }
        r = r * 2;
        i = i + 1;
    }
    r
}

/// Highest set bit of `n`.
pub fn floor_log2(n: u64) -> (h: u32)
    requires
        n >= 1,
    ensures
        h as nat == spec_floor_log2(n),
        h <= 63,
{
    proof {
        lemma_floor_log2_bounds(n);
    }
    let mut h: u32 = 0;
    let mut m: u64 = n;
    while m >= 2
        invariant
            m >= 1,
            spec_floor_log2(n) == h + spec_floor_log2(m),
            h <= spec_floor_log2(n),
            spec_floor_log2(n) <= 63,
        decreases m,
    {
        proof {
            assert(spec_floor_log2(m) == 1 + spec_floor_log2(m / 2));
        }
        m = m / 2;
        h = h + 1;
    }
    proof {
        lemma_floor_log2_bounds(n);
    }
    h
}

/// Round `n / pow2(d)` to nearest, ties to even.
pub fn rne_shift(n: u64, d: u32) -> (r: u64)
    requires
        1 <= d < 64,
    ensures
        r as int == spec_rne(n as int, d as nat),
{
    let p = two_pow(d);
    proof {
        lemma_pow2_pos(d as nat);
        lemma_pow2_pos((d - 1) as nat);
        lemma_pow2_adds(1, (d - 1) as nat);
        lemma2_to64();
        assert(p as nat == 2 * pow2((d - 1) as nat));
    }
    let q = n / p;
    let rem = n % p;
    let half = p / 2;
    proof {
        assert(p % 2 == 0);
        assert(p == 2 * half);
        lemma_fundamental_div_mod(n as int, p as int);
        assert(q < u64::MAX) by (nonlinear_arith)
            requires
                p >= 2,
                n as int == q * (p as int) + (rem as int),
                0 <= rem as int,
                (rem as int) < p as int,
                n <= u64::MAX,
                q >= 0,
        ;
    }
    if rem > half || (rem == half && q % 2 == 1) {
        q + 1
    } else {
        q
    }
}

/// See [`spec_f64_bits_from_u64`].
pub fn f64_bits_from_u64(n: u64) -> (r: u64)
    ensures
        r == spec_f64_bits_from_u64(n),
{
    if n == 0 {
        return 0;
    }
    let h = floor_log2(n);
    proof {
        lemma_floor_log2_bounds(n);
        lemma2_to64();
        lemma2_to64_rest();
    }
    let exp_part = (h as u64 + 1022) * two_pow(52);
    if h <= 52 {
        let shift_mul = two_pow(52 - h);
        proof {
            lemma_pow2_pos((52 - h) as nat);
            lemma_pow2_adds(h as nat, (52 - h) as nat);
            lemma_pow2_adds(h as nat + 1, (52 - h) as nat);
            assert(n * pow2((52 - h) as nat) < pow2(53)) by (nonlinear_arith)
                requires
                    n < pow2(h as nat + 1),
                    pow2(h as nat + 1) * pow2((52 - h) as nat) == pow2(53),
                    pow2((52 - h) as nat) > 0,
            ;
        }
        let keep = n * shift_mul;
        exp_part + keep
    } else {
        let d = h - 52;
        let keep = rne_shift(n, d);
        proof {
            lemma_pow2_adds(52, d as nat);
            lemma_pow2_adds(53, d as nat);
            lemma_rne_bounds(n as int, d as nat, pow2(52) as int, pow2(53) as int);
        }
        exp_part + keep
    }
}

/// See [`spec_f32_bits_from_u64`].
pub fn f32_bits_from_u64(n: u64) -> (r: u32)
    ensures
        r == spec_f32_bits_from_u64(n),
{
    if n == 0 {
        return 0;
    }
    let h = floor_log2(n);
    proof {
        lemma_floor_log2_bounds(n);
        lemma2_to64();
        lemma2_to64_rest();
    }
    let exp_part = (h as u64 + 126) * two_pow(23);
    if h <= 23 {
        let shift_mul = two_pow(23 - h);
        proof {
            lemma_pow2_pos((23 - h) as nat);
            lemma_pow2_adds(h as nat, (23 - h) as nat);
            lemma_pow2_adds(h as nat + 1, (23 - h) as nat);
            assert(n * pow2((23 - h) as nat) < pow2(24)) by (nonlinear_arith)
                requires
                    n < pow2(h as nat + 1),
                    pow2(h as nat + 1) * pow2((23 - h) as nat) == pow2(24),
                    pow2((23 - h) as nat) > 0,
            ;
        }
        let keep = n * shift_mul;
        (exp_part + keep) as u32
    } else {
        let d = h - 23;
        let keep = rne_shift(n, d);
        proof {
            lemma_pow2_adds(23, d as nat);
            lemma_pow2_adds(24, d as nat);
            lemma_rne_bounds(n as int, d as nat, pow2(23) as int, pow2(24) as int);
        }
        (exp_part + keep) as u32
    }
}

/// See [`spec_f32_bits_from_f64_bits`].
pub fn f32_bits_from_f64_bits(b: u64) -> (r: u32)
    ensures
        r == spec_f32_bits_from_f64_bits(b),
{
    proof {
        lemma2_to64();
        lemma2_to64_rest();
    }
    let p63 = two_pow(63);
    let p52 = two_pow(52);
    let p31 = two_pow(31);
    let sign = b / p63;
    let e_field = (b / p52) % two_pow(11);
    let m_field = b % p52;
    let sign32 = sign * p31;
    proof {
        assert(sign <= 1);
    }
    if e_field == 2047 {
        if m_field == 0 {
            (sign32 + 0x7F80_0000) as u32
        } else {
            (sign32 + 0x7FC0_0000) as u32
        }
    } else if e_field == 0 {
        sign32 as u32
    } else {
        let e: i32 = e_field as i32 - 1023;
        let m = p52 + m_field;
        if e >= 128 {
            (sign32 + 0x7F80_0000) as u32
        } else if e >= -126 {
            let rounded = rne_shift(m, 29);
            proof {
                lemma_pow2_adds(23, 29);
                lemma_pow2_adds(24, 29);
                lemma_rne_bounds(m as int, 29, pow2(23) as int, pow2(24) as int);
            }
            let bits = (e + 126) as u64 * two_pow(23) + rounded;
            if bits >= 0x7F80_0000 {
                (sign32 + 0x7F80_0000) as u32
            } else {
                (sign32 + bits) as u32
            }
        } else {
            let d: u32 = ((-97) - e) as u32;
            if d >= 54 {
                sign32 as u32
            } else {
                let rounded = rne_shift(m, d);
                proof {
                    lemma_pow2_adds(24, d as nat);
                    lemma_pow2_strictly_increases(53, 24 + d as nat);
                    lemma_rne_bounds(m as int, d as nat, 0, pow2(24) as int);
                }
                (sign32 + rounded) as u32
            }
        }
    }
}

} // verus!
