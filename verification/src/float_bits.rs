//! Single precision values held as their IEEE 754 bit patterns, compared exactly
//! with integer arithmetic.

use vstd::arithmetic::power2::{lemma_pow2_adds, lemma_pow2_pos, lemma_pow2_unfold, pow2};
use vstd::prelude::*;

verus! {

/// Whether the sign bit of a single precision pattern is set.
pub open spec fn f32_negative(b: u32) -> bool {
    b >= 0x8000_0000
}

/// The magnitude bits (exponent and fraction) of a single precision pattern.
pub open spec fn f32_magnitude(b: u32) -> int {
    (b % 0x8000_0000) as int
}

/// The pattern is a NaN: all exponent bits set and a nonzero fraction.
pub open spec fn f32_is_nan(b: u32) -> bool {
    f32_magnitude(b) > 0x7f80_0000
}

/// The pattern is neither infinite nor NaN.
pub open spec fn f32_is_finite(b: u32) -> bool {
    f32_magnitude(b) < 0x7f80_0000
}

/// Position of a non-NaN pattern on the number line: patterns of equal values (the
/// two zeros) share a key, and keys are ordered as the values are.
pub open spec fn f32_key(b: u32) -> int {
    if f32_negative(b) {
        -f32_magnitude(b)
    } else {
        f32_magnitude(b)
    }
}

/// `a < b` between the single precision values of two patterns (false with a NaN).
pub open spec fn f32_lt(a: u32, b: u32) -> bool {
    !f32_is_nan(a) && !f32_is_nan(b) && f32_key(a) < f32_key(b)
}

/// The pattern of positive zero.
pub const F32_ZERO_BITS: u32 = 0;

/// Whether a single precision pattern is finite.
pub fn f32_bits_is_finite(b: u32) -> (r: bool)
    ensures
        r == f32_is_finite(b),
{
    b % 0x8000_0000 < 0x7f80_0000
}

/// `a < b` between the single precision values of two patterns.
pub fn f32_bits_lt(a: u32, b: u32) -> (r: bool)
    ensures
        r == f32_lt(a, b),
{
    let ma = a % 0x8000_0000;
    let mb = b % 0x8000_0000;
    if ma > 0x7f80_0000 || mb > 0x7f80_0000 {
        return false;
    }
    let na = a >= 0x8000_0000;
    let nb = b >= 0x8000_0000;
    if na && nb {
        mb < ma
    } else if na {
        !(ma == 0 && mb == 0)
    } else if nb {
        false
    } else {
        ma < mb
    }
}

/// Number of binary digits of `h` (zero for zero).
pub open spec fn bit_len(h: nat) -> nat
    decreases h,
{
    if h == 0 {
        0
    } else {
        1 + bit_len(h / 2)
    }
}

/// The pattern of `h as f32`: `h` rounded to 24 significant bits, ties to even.
pub open spec fn f32_of_u32(h: u32) -> u32 {
    let n = bit_len(h as nat);
    if n == 0 {
        0
    } else if n <= 24 {
        ((n + 125) * 0x80_0000 + h * pow2((24 - n) as nat)) as u32
    } else {
        let p = pow2((n - 24) as nat);
        let q = h as int / p as int;
        let r = h as int % p as int;
        let q2 = if r * 2 > p || (r * 2 == p && q % 2 == 1) {
            q + 1
        } else {
            q
        };
        ((n + 125) * 0x80_0000 + q2) as u32
    }
}

proof fn lemma_bit_len_bounds(h: nat)
    requires
        h > 0,
    ensures
        pow2((bit_len(h) - 1) as nat) <= h < pow2(bit_len(h)),
        bit_len(h) >= 1,
    decreases h,
{
    lemma_pow2_unfold(bit_len(h));
    if h == 1 {
        assert(bit_len(h) == 1) by {
            assert(bit_len(0) == 0);
        }
        assert(pow2(0) == 1) by {
            vstd::arithmetic::power2::lemma2_to64();
        }
    } else {
        lemma_bit_len_bounds(h / 2);
        lemma_pow2_unfold((bit_len(h) - 1) as nat);
    }
}

proof fn lemma_bit_len_u32(h: u32)
    ensures
        bit_len(h as nat) <= 32,
{
    if h > 0 {
        lemma_bit_len_bounds(h as nat);
        vstd::arithmetic::power2::lemma2_to64();
        if bit_len(h as nat) > 33 {
            vstd::arithmetic::power2::lemma_pow2_strictly_increases(32, (bit_len(h as nat) - 1) as nat);
        }
    }
}

/// `2` to the power `k`, for small `k`.
fn pow2_u64(k: u32) -> (p: u64)
    requires
        k <= 60,
    ensures
        p == pow2(k as nat),
        p <= 0x1000_0000_0000_0000,
{
    let mut p: u64 = 1;
    let mut i: u32 = 0;
    proof {
        vstd::arithmetic::power2::lemma2_to64();
        assert(pow2(60) == 0x1000_0000_0000_0000) by {
            lemma_pow2_adds(32, 28);
        }
        if k > 0 {
            vstd::arithmetic::power2::lemma_pow2_strictly_increases(0, 60);
        }
    }
    while i < k
        invariant
            i <= k <= 60,
            p == pow2(i as nat),
            p <= pow2(60),
            pow2(60) == 0x1000_0000_0000_0000,
        decreases k - i,
    {
        proof {
            lemma_pow2_unfold((i + 1) as nat);
            if i + 1 < 60 {
                vstd::arithmetic::power2::lemma_pow2_strictly_increases((i + 1) as nat, 60);
            }
        }
        p = p * 2;
        i = i + 1;
    }
    p
}

/// The single precision pattern of `h as f32`.
pub fn f32_bits_of_u32(h: u32) -> (r: u32)
    ensures
        r == f32_of_u32(h),
{
    if h == 0 {
        return 0;
    }
    let mut n: u32 = 0;
    let mut t: u32 = h;
    proof {
        lemma_bit_len_u32(h);
    }
    while t > 0
        invariant
            bit_len(h as nat) == n + bit_len(t as nat),
            bit_len(h as nat) <= 32,
        decreases t,
    {
        t = t / 2;
        n = n + 1;
    }
    proof {
        lemma_bit_len_bounds(h as nat);
        lemma_pow2_pos((24 - n) as nat);
        lemma_pow2_pos((n - 24) as nat);
    }
    if n <= 24 {
        let p = pow2_u64(24 - n);
        proof {
            lemma_pow2_adds((n - 1) as nat, (24 - n) as nat);
            lemma_pow2_adds(n as nat, (24 - n) as nat);
            assert(pow2(24) == 0x100_0000) by {
                vstd::arithmetic::power2::lemma2_to64();
            }
            assert(h * p < pow2(n as nat) * p) by (nonlinear_arith)
                requires
                    h < pow2(n as nat),
                    p > 0,
            ;
        }
        let m = (h as u64) * p;
        ((n as u64 + 125) * 0x80_0000 + m) as u32
    } else {
        let p = pow2_u64(n - 24);
        let q = (h as u64) / p;
        let r = (h as u64) % p;
        proof {
            lemma_pow2_adds((n - 24) as nat, 24);
            assert(pow2(24) == 0x100_0000) by {
                vstd::arithmetic::power2::lemma2_to64();
            }
            assert(q < 0x100_0000) by (nonlinear_arith)
                requires
                    h < pow2(n as nat),
                    pow2(n as nat) == p * 0x100_0000,
                    q == (h as u64) / p,
                    p > 0,
            ;
        }
        let q2 = if r * 2 > p || (r * 2 == p && q % 2 == 1) {
            q + 1
        } else {
            q
        };
        ((n as u64 + 125) * 0x80_0000 + q2) as u32
    }
}


/// `m / 2^s` rounded to the nearest integer, ties to even.
pub open spec fn round_shift(m: nat, s: nat) -> nat {
    let p = pow2(s);
    let q = m / p;
    let r = m % p;
    if r * 2 > p || (r * 2 == p && q % 2 == 1) {
        q + 1
    } else {
        q
    }
}

/// The single precision pattern of `x as f32` for the double precision pattern `b`:
/// the value rounded to the nearest single precision value, ties to even, overflowing
/// to infinity; infinities are kept and every NaN becomes the quiet NaN.
pub open spec fn f32_of_f64(b: u64) -> u32 {
    let sign: int = if b >= 0x8000_0000_0000_0000 { 0x8000_0000 } else { 0 };
    let e = (b / 0x10_0000_0000_0000) % 2048;
    let f = b % 0x10_0000_0000_0000;
    if e == 2047 {
        if f == 0 {
            (sign + 0x7f80_0000) as u32
        } else {
            (sign + 0x7fc0_0000) as u32
        }
    } else {
        let m: nat = if e == 0 { f as nat } else { (f + 0x10_0000_0000_0000) as nat };
        let e2: int = if e == 0 { -1074 } else { e - 1075 };
        if m == 0 {
            sign as u32
        } else {
            let n = bit_len(m);
            let s: int = if n - 24 > -149 - e2 { n - 24 } else { -149 - e2 };
            let q = round_shift(m, s as nat);
            let mag = (e2 + s + 149) * 0x80_0000 + q;
            if mag >= 0x7f80_0000 {
                (sign + 0x7f80_0000) as u32
            } else {
                (sign + mag) as u32
            }
        }
    }
}

proof fn lemma_round_shift_large(m: nat, s: nat)
    requires
        m < pow2(53),
        s >= 54,
    ensures
        round_shift(m, s) == 0,
{
    let p = pow2(s);
    vstd::arithmetic::power2::lemma_pow2_strictly_increases(53, s);
    lemma_pow2_unfold(s);
    if s - 1 > 53 {
        vstd::arithmetic::power2::lemma_pow2_strictly_increases(53, (s - 1) as nat);
    }
    assert(m * 2 < p);
    assert(m / p == 0) by (nonlinear_arith)
        requires
            m < p,
            p > 0,
    ;
    assert(m % p == m) by (nonlinear_arith)
        requires
            m < p,
            p > 0,
    ;
}

/// The single precision pattern of `x as f32` for the double precision pattern `b`.
pub fn f32_bits_of_f64(b: u64) -> (r: u32)
    ensures
        r == f32_of_f64(b),
{
    let sign: u32 = if b >= 0x8000_0000_0000_0000 { 0x8000_0000 } else { 0 };
    let e = (b / 0x10_0000_0000_0000) % 2048;
    let f = b % 0x10_0000_0000_0000;
    if e == 2047 {
        if f == 0 {
            return sign + 0x7f80_0000;
        } else {
            return sign + 0x7fc0_0000;
        }
    }
    let m: u64 = if e == 0 { f } else { f + 0x10_0000_0000_0000 };
    if m == 0 {
        return sign;
    }
    let e2: i64 = if e == 0 { -1074 } else { e as i64 - 1075 };
    let mut n: u32 = 0;
    let mut t: u64 = m;
    proof {
        vstd::arithmetic::power2::lemma2_to64();
        assert(pow2(53) == 0x20_0000_0000_0000) by {
            lemma_pow2_adds(32, 21);
        }
        assert(pow2(52) == 0x10_0000_0000_0000) by {
            lemma_pow2_adds(32, 20);
        }
        lemma_bit_len_bounds(m as nat);
        if bit_len(m as nat) > 54 {
            vstd::arithmetic::power2::lemma_pow2_strictly_increases(53, (bit_len(m as nat) - 1) as nat);
        }
        if e != 0 && bit_len(m as nat) < 53 {
            vstd::arithmetic::power2::lemma_pow2_strictly_increases(bit_len(m as nat), 52);
        }
    }
    while t > 0
        invariant
            bit_len(m as nat) == n + bit_len(t as nat),
            bit_len(m as nat) <= 53,
        decreases t,
    {
        t = t / 2;
        n = n + 1;
    }
    let ns: i64 = n as i64 - 24;
    let sub: i64 = -149 - e2;
    let s: i64 = if ns > sub { ns } else { sub };
    assert(s >= 1);
    let q: u64 = if s >= 54 {
        proof {
            lemma_round_shift_large(m as nat, s as nat);
        }
        0
    } else {
        let p = pow2_u64(s as u32);
        proof {
            lemma_pow2_pos(s as nat);
        }
        let qq = m / p;
        let rr = m % p;
        proof {
            lemma_bit_len_bounds(m as nat);
            lemma_pow2_adds(s as nat, 24);
            if s + 24 > n {
                vstd::arithmetic::power2::lemma_pow2_strictly_increases(n as nat, (s + 24) as nat);
            }
            assert(pow2(24) == 0x100_0000);
            assert(qq < 0x100_0000) by (nonlinear_arith)
                requires
                    m < pow2(n as nat),
                    pow2(n as nat) <= pow2((s + 24) as nat),
                    pow2((s + 24) as nat) == p * 0x100_0000,
                    qq == m / p,
                    p > 0,
            ;
            assert(rr < p) by (nonlinear_arith)
                requires
                    rr == m % p,
                    p > 0,
            ;
        }
        if rr * 2 > p || (rr * 2 == p && qq % 2 == 1) {
            qq + 1
        } else {
            qq
        }
    };
    assert(q <= 0x100_0000);
    let k: i64 = e2 + s + 149;
    assert(0 <= k <= 1200);
    let mag: u64 = (k as u64) * 0x80_0000 + q;
    if mag >= 0x7f80_0000 {
        sign + 0x7f80_0000
    } else {
        sign + (mag as u32)
    }
}


/// The pattern of `h as f32` for a 64 bit unsigned integer: `h` rounded to 24
/// significant bits, ties to even.
pub open spec fn f32_of_u64(h: u64) -> u32 {
    let n = bit_len(h as nat);
    if n == 0 {
        0
    } else if n <= 24 {
        ((n + 125) * 0x80_0000 + h * pow2((24 - n) as nat)) as u32
    } else {
        ((n + 125) * 0x80_0000 + round_shift(h as nat, (n - 24) as nat)) as u32
    }
}

/// The single precision pattern of `h as f32` for a 64 bit unsigned integer.
pub fn f32_bits_of_u64(h: u64) -> (r: u32)
    ensures
        r == f32_of_u64(h),
        r < 0x8000_0000,
{
    if h == 0 {
        return 0;
    }
    let mut n: u32 = 0;
    let mut t: u64 = h;
    proof {
        vstd::arithmetic::power2::lemma2_to64();
        lemma_bit_len_bounds(h as nat);
        if bit_len(h as nat) > 65 {
            vstd::arithmetic::power2::lemma_pow2_strictly_increases(64, (bit_len(h as nat) - 1) as nat);
        }
    }
    while t > 0
        invariant
            bit_len(h as nat) == n + bit_len(t as nat),
            bit_len(h as nat) <= 64,
        decreases t,
    {
        t = t / 2;
        n = n + 1;
    }
    proof {
        lemma_bit_len_bounds(h as nat);
        lemma_pow2_pos((24 - n) as nat);
        lemma_pow2_pos((n - 24) as nat);
        assert(pow2(24) == 0x100_0000);
    }
    if n <= 24 {
        let p = pow2_u64(24 - n);
        proof {
            lemma_pow2_adds(n as nat, (24 - n) as nat);
            assert(h * p < pow2(n as nat) * p) by (nonlinear_arith)
                requires
                    h < pow2(n as nat),
                    p > 0,
            ;
        }
        let m = h * p;
        ((n as u64 + 125) * 0x80_0000 + m) as u32
    } else {
        let p = pow2_u64(n - 24);
        let q = h / p;
        let r = h % p;
        proof {
            lemma_pow2_adds((n - 24) as nat, 24);
            assert(q < 0x100_0000) by (nonlinear_arith)
                requires
                    h < pow2(n as nat),
                    pow2(n as nat) == p * 0x100_0000,
                    q == h / p,
                    p > 0,
            ;
            assert(r < p) by (nonlinear_arith)
                requires
                    r == h % p,
                    p > 0,
            ;
        }
        let q2 = if r * 2 > p || (r * 2 == p && q % 2 == 1) {
            q + 1
        } else {
            q
        };
        ((n as u64 + 125) * 0x80_0000 + q2) as u32
    }
}

} // verus!
