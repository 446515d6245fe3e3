//! Reading a coordinate from the bit pattern of an IEEE 754 binary32 number,
//! and writing it as one.
//!
//! The pattern is taken apart with whole-number arithmetic: bit 31 is the
//! sign, bits 30 to 23 the exponent and bits 22 to 0 the fraction. A pattern
//! with the exponent 255 is an infinity or no number at all. Every other
//! pattern has the value `significand / 2^halvings`, negated where the sign is
//! set.

use crate::plane::{lemma_floor_quotient, round_div};
use vstd::arithmetic::power2::{lemma2_to64, lemma_pow2_adds, lemma_pow2_strictly_increases};
use vstd::arithmetic::power2::{lemma_pow2_unfold, pow2};
use vstd::prelude::*;

verus! {

/// Bit 31: 1 for a negative number.
pub open spec fn sign(bits: u32) -> int {
    bits as int / 0x8000_0000
}

/// Bits 30 to 23.
pub open spec fn exponent(bits: u32) -> int {
    (bits as int / 0x80_0000) % 0x100
}

/// Bits 22 to 0.
pub open spec fn fraction(bits: u32) -> int {
    bits as int % 0x80_0000
}

/// The digits of the number as a whole number: the fraction, with a leading 1
/// unless the exponent is 0.
pub open spec fn significand(bits: u32) -> int {
    if exponent(bits) == 0 {
        fraction(bits)
    } else {
        fraction(bits) + 0x80_0000
    }
}

/// How often the significand is to be halved to give the magnitude. Where
/// this is not positive the magnitude is 2^23 or more.
pub open spec fn halvings(bits: u32) -> int {
    if exponent(bits) == 0 {
        149
    } else {
        150 - exponent(bits)
    }
}

/// The number of steps, `steps_per_unit` of them to 1.0, that is nearest to
/// the number with the pattern `bits`, a half rounded up. There is none where
/// the pattern is an infinity or no number, where the number is negative, and
/// where the steps would not fit into 31 bits. Both zeros give 0.
pub open spec fn steps_of_bits(bits: u32, steps_per_unit: int) -> Option<int> {
    if exponent(bits) == 0xff {
        None
    } else if significand(bits) == 0 {
        Some(0)
    } else if sign(bits) == 1 {
        None
    } else if halvings(bits) <= 0 {
        None
    } else {
        let steps = round_div(significand(bits) * steps_per_unit, pow2(halvings(bits) as nat) as int);
        if steps <= i32::MAX {
            Some(steps)
        } else {
            None
        }
    }
}

/// 2^48 and 2^49 written out.
proof fn lemma_pow2_48_49()
    ensures
        pow2(48) == 0x1_0000_0000_0000,
        pow2(49) == 0x2_0000_0000_0000,
{
    lemma2_to64();
    lemma_pow2_adds(24, 24);
    lemma_pow2_unfold(49);
}

/// The number of steps of 0.0000001 that is nearest to the number with the
/// pattern `bits`.
pub fn steps_from_bits(bits: u32) -> (r: Option<i32>)
    ensures
        match r {
            Some(steps) => steps_of_bits(bits, 10_000_000) == Some(steps as int) && steps >= 0,
            None => steps_of_bits(bits, 10_000_000) is None,
        },
{
    let sign = bits / 0x8000_0000;
    let exponent = (bits / 0x80_0000) % 0x100;
    let fraction = bits % 0x80_0000;
    if exponent == 0xff {
        return None;
    }
    let significand = if exponent == 0 { fraction } else { fraction + 0x80_0000 };
    if significand == 0 {
        return Some(0);
    }
    if sign == 1 {
        return None;
    }
    if exponent >= 150 {
        return None;
    }
    let halvings: u32 = if exponent == 0 { 149 } else { 150 - exponent };
    let n: u128 = significand as u128 * 10_000_000;
    proof {
        lemma_pow2_48_49();
    }
    if halvings >= 49 {
        proof {
            if halvings > 49 {
                lemma_pow2_strictly_increases(49, halvings as nat);
            }
            let d = pow2(halvings as nat) as int;
            lemma_floor_quotient(2 * n + d, 2 * d, 0);
        }
        return Some(0);
    }
    let mut d: u128 = 1;
    let mut i: u32 = 0;
    proof {
        lemma2_to64();
    }
    while i < halvings
        invariant
            i <= halvings <= 48,
            d == pow2(i as nat),
            0 < d <= 0x1_0000_0000_0000,
            pow2(48) == 0x1_0000_0000_0000,
        decreases halvings - i,
    {
        proof {
            lemma_pow2_unfold((i + 1) as nat);
            if i + 1 < 48 {
                lemma_pow2_strictly_increases((i + 1) as nat, 48);
            }
        }
        d = d * 2;
        i += 1;
    }
    let steps = (2 * n + d) / (2 * d);
    if steps <= i32::MAX as u128 {
        Some(steps as i32)
    } else {
        None
    }
}

/// `k` halvings bring `d` times the significand of `n / d` into line with `n`:
/// `n / d` lies between `2^23 / 2^k` and `2^24 / 2^k`.
pub open spec fn is_shift(n: int, d: int, k: int) -> bool {
    0 <= k && 0x80_0000 * d <= n * pow2(k as nat) < 0x100_0000 * d
}

/// `m` is the whole number nearest to `a / b`, and the even one of the two
/// where `a / b` lies half-way between two.
pub open spec fn is_nearest_even(m: int, a: int, b: int) -> bool {
    let twice = 2 * (m * b - a);
    -b <= twice <= b && (twice == b || twice == -b ==> m % 2 == 0)
}

/// `bits` is the pattern of the binary32 number nearest to `n / d`, the one
/// with the even significand where two are equally near: 0 for 0, and
/// otherwise, with `k` the halvings that `n / d` takes and `m` the whole number
/// nearest to `n * 2^k / d`, the pattern with the exponent `150 - k` and the
/// significand `m`. Where `m` is 2^24 this is the exponent `151 - k` with the
/// significand 2^23, the same number.
pub open spec fn is_bits_of_steps(bits: u32, n: int, d: int) -> bool {
    if n == 0 {
        bits == 0
    } else {
        exists|k: int, m: int| #[trigger] encodes(bits, n, d, k, m)
    }
}

/// `bits` is the pattern for `n / d` by the halvings `k` and the significand
/// `m`.
pub open spec fn encodes(bits: u32, n: int, d: int, k: int, m: int) -> bool {
    &&& is_shift(n, d, k)
    &&& is_nearest_even(m, n * pow2(k as nat), d)
    &&& bits == (149 - k) * 0x80_0000 + m
}

/// The pattern of the binary32 number nearest to `n` steps of 0.0000001.
pub fn steps_to_bits(n: u32) -> (bits: u32)
    ensures
        is_bits_of_steps(bits, n as int, 10_000_000),
{
    if n == 0 {
        return 0;
    }
    let d: u128 = 10_000_000;
    let mut k: u32 = 15;
    let mut scaled: u128 = n as u128 * 0x8000;
    proof {
        lemma2_to64();
        lemma_pow2_47();
    }
    while scaled < 0x80_0000 * d
        invariant
            d == 10_000_000,
            n >= 1,
            15 <= k <= 47,
            scaled == n * pow2(k as nat),
            scaled < 0x100_0000 * d,
            pow2(47) == 0x8000_0000_0000,
        decreases 47 - k,
    {
        proof {
            lemma_pow2_unfold((k + 1) as nat);
            if k == 47 {
                assert(n * pow2(47) >= pow2(47)) by (nonlinear_arith)
                    requires
                        n >= 1,
                ;
            }
            assert(n * (2 * pow2(k as nat)) == 2 * (n * pow2(k as nat))) by (nonlinear_arith);
        }
        scaled = scaled * 2;
        k += 1;
    }
    let q: u128 = scaled / d;
    let rest: u128 = scaled % d;
    let up = 2 * rest > d || (2 * rest == d && q % 2 == 1);
    let m: u128 = if up { q + 1 } else { q };
    proof {
        vstd::arithmetic::div_mod::lemma_fundamental_div_mod(scaled as int, d as int);
        assert(d * q <= scaled < 0x100_0000 * d);
        assert(q < 0x100_0000) by (nonlinear_arith)
            requires
                d * q < 0x100_0000 * d,
                d > 0,
        ;
        assert(m * d == d * q + (if up { d as int } else { 0 })) by (nonlinear_arith)
            requires
                m == q + (if up { 1int } else { 0 }),
        ;
        assert(is_shift(n as int, d as int, k as int));
        assert(is_nearest_even(m as int, n * pow2(k as nat), d as int));
    }
    let bits: u128 = (149 - k) as u128 * 0x80_0000 + m;
    assert(encodes(bits as u32, n as int, d as int, k as int, m as int));
    bits as u32
}

/// 2^47 written out.
proof fn lemma_pow2_47()
    ensures
        pow2(47) == 0x8000_0000_0000,
{
    lemma2_to64();
    lemma_pow2_adds(24, 23);
}

/// More halvings than `n / d` takes bring it to 2^24 and beyond.
proof fn lemma_shift_order(n: int, d: int, k1: int, k2: int)
    requires
        d > 0,
        0 <= k1 < k2,
        is_shift(n, d, k1),
    ensures
        n * pow2(k2 as nat) >= 0x100_0000 * d,
{
    let p1 = pow2(k1 as nat) as int;
    let p2 = pow2(k2 as nat) as int;
    lemma_pow2_unfold((k1 + 1) as nat);
    if k1 + 1 < k2 {
        lemma_pow2_strictly_increases((k1 + 1) as nat, k2 as nat);
    }
    assert(p2 >= 2 * p1);
    assert(n > 0) by (nonlinear_arith)
        requires
            n * p1 > 0,
            p1 >= 0,
    ;
    assert(n * p2 >= n * (2 * p1)) by (nonlinear_arith)
        requires
            n > 0,
            p2 >= 2 * p1,
    ;
    assert(n * (2 * p1) == 2 * (n * p1)) by (nonlinear_arith);
}

/// A number takes one number of halvings.
pub proof fn lemma_shift_unique(n: int, d: int, k1: int, k2: int)
    requires
        d > 0,
        is_shift(n, d, k1),
        is_shift(n, d, k2),
    ensures
        k1 == k2,
{
    if k1 < k2 {
        lemma_shift_order(n, d, k1, k2);
    } else if k2 < k1 {
        lemma_shift_order(n, d, k2, k1);
    }
}

/// A fraction has one nearest whole number, a tie going to the even.
pub proof fn lemma_nearest_even_unique(m1: int, m2: int, a: int, b: int)
    requires
        b > 0,
        is_nearest_even(m1, a, b),
        is_nearest_even(m2, a, b),
    ensures
        m1 == m2,
{
    let t1 = 2 * (m1 * b - a);
    let t2 = 2 * (m2 * b - a);
    assert(t1 - t2 == (2 * b) * (m1 - m2)) by (nonlinear_arith)
        requires
            t1 == 2 * (m1 * b - a),
            t2 == 2 * (m2 * b - a),
    ;
    if m1 != m2 {
        let diff = m1 - m2;
        assert(diff == 1 || diff == -1) by (nonlinear_arith)
            requires
                diff != 0,
                b > 0,
                -(2 * b) <= (2 * b) * diff <= 2 * b,
        ;
        assert((2 * b) * 1 == 2 * b && (2 * b) * (-1) == -(2 * b)) by (nonlinear_arith);
    }
}

/// The nearest binary32 number has one pattern: `is_bits_of_steps` holds of
/// one pattern only.
pub proof fn lemma_bits_of_steps_unique(b1: u32, b2: u32, n: int, d: int)
    requires
        d > 0,
        is_bits_of_steps(b1, n, d),
        is_bits_of_steps(b2, n, d),
    ensures
        b1 == b2,
{
    if n != 0 {
        let (k1, m1) = choose|k: int, m: int| #[trigger] encodes(b1, n, d, k, m);
        let (k2, m2) = choose|k: int, m: int| #[trigger] encodes(b2, n, d, k, m);
        lemma_shift_unique(n, d, k1, k2);
        lemma_nearest_even_unique(m1, m2, n * pow2(k1 as nat), d);
    }
}

/// A coordinate up to 1.0 that is written as a binary32 number and read again
/// is the same coordinate: the number nearest to `n` steps of 0.0000001 has `n`
/// as its nearest step.
pub proof fn lemma_bits_round_trip(bits: u32, n: int)
    requires
        0 <= n <= 10_000_000,
        is_bits_of_steps(bits, n, 10_000_000),
    ensures
        steps_of_bits(bits, 10_000_000) == Some(n),
{
    if n != 0 {
        let d = 10_000_000int;
        let (k, m) = choose|k: int, m: int| #[trigger] encodes(bits, n, d, k, m);
        let p = pow2(k as nat) as int;
        let a = n * p;
        lemma2_to64();
        lemma_pow2_47();
        // The halvings are between 23 and 47.
        if k < 23 {
            lemma_pow2_strictly_increases(k as nat, 23);
            assert(n * p <= d * p) by (nonlinear_arith)
                requires
                    n <= d,
                    p >= 0,
            ;
            assert(d * p < d * 0x80_0000) by (nonlinear_arith)
                requires
                    p < 0x80_0000,
                    d > 0,
            ;
        }
        if k > 47 {
            lemma_pow2_unfold(48);
            if k > 48 {
                lemma_pow2_strictly_increases(48, k as nat);
            }
            assert(n * p >= p) by (nonlinear_arith)
                requires
                    n >= 1,
                    p >= 0,
            ;
        }
        assert(23 <= k <= 47);
        // With 23 halvings the coordinate is 1.0 and the significand exact.
        if k == 23 {
            assert(n * 0x80_0000 <= d * 0x80_0000) by (nonlinear_arith)
                requires
                    n <= d,
            ;
            assert(n == d);
            assert(m == 0x80_0000) by (nonlinear_arith)
                requires
                    -d <= 2 * (m * d - d * 0x80_0000) <= d,
                    d == 10_000_000,
            ;
        } else {
            if k > 24 {
                lemma_pow2_strictly_increases(24, k as nat);
            }
            assert(p >= 0x100_0000);
        }
        let twice = 2 * (m * d - a);
        assert(-p <= twice < p);
        // The significand is between 2^23 and 2^24.
        assert(0x80_0000 <= m <= 0x100_0000) by (nonlinear_arith)
            requires
                0x80_0000 * d <= a < 0x100_0000 * d,
                -d <= 2 * (m * d - a) <= d,
                d == 10_000_000,
        ;
        if m < 0x100_0000 {
            assert(bits == (150 - k) * 0x80_0000 + (m - 0x80_0000));
            assert(exponent(bits) == 150 - k);
            assert(fraction(bits) == m - 0x80_0000);
            assert(sign(bits) == 0);
            assert(significand(bits) == m);
            assert(halvings(bits) == k);
            assert(n * (2 * p) == 2 * a) by (nonlinear_arith)
                requires
                    a == n * p,
            ;
            assert((n + 1) * (2 * p) == 2 * a + 2 * p) by (nonlinear_arith)
                requires
                    a == n * p,
            ;
            lemma_floor_quotient(2 * (m * d) + p, 2 * p, n);
            assert(round_div(m * d, p) == n);
        } else {
            assert(k >= 24);
            assert(bits == (151 - k) * 0x80_0000);
            assert(exponent(bits) == 151 - k);
            assert(fraction(bits) == 0);
            assert(sign(bits) == 0);
            assert(significand(bits) == 0x80_0000);
            assert(halvings(bits) == k - 1);
            lemma_pow2_unfold(k as nat);
            let h = pow2((k - 1) as nat) as int;
            assert(p == 2 * h);
            assert(m * d == 2 * (0x80_0000 * d)) by (nonlinear_arith)
                requires
                    m == 0x100_0000,
            ;
            assert(n * (2 * h) == a) by (nonlinear_arith)
                requires
                    a == n * p,
                    p == 2 * h,
            ;
            assert((n + 1) * (2 * h) == a + 2 * h) by (nonlinear_arith)
                requires
                    a == n * p,
                    p == 2 * h,
            ;
            lemma_floor_quotient(2 * (0x80_0000 * d) + h, 2 * h, n);
            assert(round_div(0x80_0000 * d, h) == n);
        }
    }
}

} // verus!
