//! The number type of Knight and its arithmetic.
//!
//! Numbers are signed 64-bit integers. Arithmetic never fails for want of
//! room: a result that does not fit is reduced modulo 2^64 into the range of
//! the type, which [`wrap`] states over the mathematical integers.

use vstd::arithmetic::div_mod::lemma_mod_sub_multiples_vanish;
use vstd::arithmetic::div_mod::lemma_mul_mod_noop_general;
use vstd::arithmetic::div_mod::lemma_small_mod;
use vstd::arithmetic::power::lemma_pow0;
use vstd::arithmetic::power::lemma_pow1;
use vstd::arithmetic::power::lemma_pow_adds;
use vstd::arithmetic::power::lemma_pow_mod_noop;
use vstd::arithmetic::power::lemma_pow_multiplies;
use vstd::arithmetic::power::lemma_square_is_pow2;
use vstd::arithmetic::power::pow;
use vstd::prelude::*;

verus! {

/// The number type within Knight.
pub type Number = i64;

/// How many values a number can take: 2^64.
pub open spec fn modulus() -> int {
    0x1_0000_0000_0000_0000
}

/// The number that stands for the integer `n`: the one value of the type's
/// range that differs from `n` by a multiple of 2^64.
pub open spec fn wrap(n: int) -> int {
    let low = n % modulus();
    if low > i64::MAX {
        low - modulus()
    } else {
        low
    }
}

/// Division that rounds toward zero.
pub open spec fn spec_quotient(lhs: int, rhs: int) -> int
    recommends
        rhs != 0,
{
    if lhs >= 0 && rhs > 0 {
        lhs / rhs
    } else if lhs < 0 && rhs < 0 {
        (-lhs) / (-rhs)
    } else if lhs < 0 {
        -((-lhs) / rhs)
    } else {
        -(lhs / (-rhs))
    }
}

/// What is left of `lhs` after division that rounds toward zero: it has the
/// sign of `lhs`.
pub open spec fn spec_remainder(lhs: int, rhs: int) -> int
    recommends
        rhs != 0,
{
    let size = if rhs < 0 {
        -rhs
    } else {
        rhs
    };
    if lhs >= 0 {
        lhs % size
    } else {
        -((-lhs) % size)
    }
}

/// Integer exponentiation. A negative exponent gives the integer part of the
/// reciprocal power: zero, unless the base is 1 or -1.
pub open spec fn spec_power(base: int, exponent: int) -> int {
    if exponent >= 0 {
        wrap(pow(base, exponent as nat))
    } else if base == 1 {
        1
    } else if base == -1 {
        if exponent % 2 == 0 {
            1
        } else {
            -1
        }
    } else {
        0
    }
}

/// `wrap` lands in the range of the type and keeps the residue modulo 2^64.
pub proof fn lemma_wrap(n: int)
    ensures
        i64::MIN <= wrap(n) <= i64::MAX,
        wrap(n) % modulus() == n % modulus(),
        i64::MIN <= n <= i64::MAX ==> wrap(n) == n,
{
    let low = n % modulus();
    if low > i64::MAX {
        lemma_mod_sub_multiples_vanish(low, modulus());
        lemma_small_mod(low as nat, modulus() as nat);
    } else {
        lemma_small_mod(low as nat, modulus() as nat);
    }
}

/// A number is the wrapped form of every integer with its residue.
pub proof fn lemma_wrap_unique(x: int, n: int)
    requires
        i64::MIN <= x <= i64::MAX,
        x % modulus() == n % modulus(),
    ensures
        x == wrap(n),
{
    lemma_wrap(x);
}

/// Congruent factors give congruent products.
proof fn lemma_mul_congruent(a: int, b: int, c: int, d: int)
    requires
        a % modulus() == c % modulus(),
        b % modulus() == d % modulus(),
    ensures
        (a * b) % modulus() == (c * d) % modulus(),
{
    lemma_mul_mod_noop_general(a, b, modulus());
    lemma_mul_mod_noop_general(c, d, modulus());
}

/// Wrapping a factor first does not change the wrapped product.
pub proof fn lemma_wrap_mul(a: int, b: int)
    ensures
        wrap(wrap(a) * b) == wrap(a * b),
        wrap(a * wrap(b)) == wrap(a * b),
{
    lemma_wrap(a);
    lemma_wrap(b);
    lemma_mul_congruent(wrap(a), b, a, b);
    lemma_mul_congruent(a, wrap(b), a, b);
}

/// Wrapping a term first does not change the wrapped sum.
pub proof fn lemma_wrap_add(a: int, b: int)
    ensures
        wrap(wrap(a) + b) == wrap(a + b),
        wrap(a + wrap(b)) == wrap(a + b),
{
    lemma_wrap(a);
    lemma_wrap(b);
    vstd::arithmetic::div_mod::lemma_add_mod_noop(wrap(a), b, modulus());
    vstd::arithmetic::div_mod::lemma_add_mod_noop(a, b, modulus());
    vstd::arithmetic::div_mod::lemma_add_mod_noop(a, wrap(b), modulus());
}

/// One round of exponentiation by squaring keeps the residue of the whole.
proof fn lemma_power_round(acc: int, b: int, e: nat, acc2: int, b2: int)
    requires
        e > 0,
        b2 % modulus() == (b * b) % modulus(),
        e % 2 == 1 ==> acc2 % modulus() == (acc * b) % modulus(),
        e % 2 == 0 ==> acc2 == acc,
    ensures
        (acc2 * pow(b2, e / 2)) % modulus() == (acc * pow(b, e)) % modulus(),
{
    let k = e / 2;
    let m = modulus();
    // pow(b2, k) is congruent to pow(b * b, k), which is pow(b, 2k).
    lemma_pow_mod_noop(b2, k, m);
    lemma_pow_mod_noop(b * b, k, m);
    lemma_square_is_pow2(b);
    lemma_pow_multiplies(b, 2, k);
    assert(pow(b2, k) % m == pow(b, 2 * k) % m);
    if e % 2 == 1 {
        assert(e == 2 * k + 1);
        lemma_pow_adds(b, 1, 2 * k);
        lemma_pow1(b);
        assert(pow(b, e) == b * pow(b, 2 * k));
        lemma_mul_congruent(acc2, pow(b2, k), acc * b, pow(b, 2 * k));
        assert(acc * b * pow(b, 2 * k) == acc * (b * pow(b, 2 * k))) by (nonlinear_arith);
    } else {
        assert(e == 2 * k);
        lemma_mul_congruent(acc2, pow(b2, k), acc, pow(b, 2 * k));
    }
}

/// The sum of two numbers, wrapped.
pub fn sum(lhs: Number, rhs: Number) -> (res: Number)
    ensures
        res == wrap(lhs + rhs),
{
    proof {
        lemma_wrap(lhs + rhs);
        lemma_wrap_unique(vstd::wrapping::i64_specs::wrapping_add(lhs, rhs) as int, lhs + rhs);
    }
    lhs.wrapping_add(rhs)
}

/// The difference of two numbers, wrapped.
pub fn difference(lhs: Number, rhs: Number) -> (res: Number)
    ensures
        res == wrap(lhs - rhs),
{
    proof {
        lemma_wrap(lhs - rhs);
        lemma_wrap_unique(vstd::wrapping::i64_specs::wrapping_sub(lhs, rhs) as int, lhs - rhs);
    }
    lhs.wrapping_sub(rhs)
}

/// The product of two numbers, wrapped.
pub fn product(lhs: Number, rhs: Number) -> (res: Number)
    ensures
        res == wrap(lhs * rhs),
{
    lhs.wrapping_mul(rhs)
}

/// The quotient of two numbers, rounded toward zero and wrapped.
pub fn quotient(lhs: Number, rhs: Number) -> (res: Number)
    requires
        rhs != 0,
    ensures
        res == wrap(spec_quotient(lhs as int, rhs as int)),
{
    match lhs.checked_div(rhs) {
        Some(value) => {
            proof {
                lemma_wrap(value as int);
            }
            value
        },
        None => {
            proof {
                lemma_quotient_overflow(lhs as int, rhs as int);
            }
            i64::MIN
        },
    }
}

/// What division that rounds toward zero leaves of `lhs`.
pub fn remainder(lhs: Number, rhs: Number) -> (res: Number)
    requires
        rhs != 0,
    ensures
        res == spec_remainder(lhs as int, rhs as int),
{
    match lhs.checked_rem(rhs) {
        Some(value) => value,
        None => 0,
    }
}

/// A quotient leaves the range of the type only when the least number is
/// divided by -1.
proof fn lemma_quotient_overflow(lhs: int, rhs: int)
    requires
        i64::MIN <= lhs <= i64::MAX,
        i64::MIN <= rhs <= i64::MAX,
        rhs != 0,
    ensures
        i64::MIN <= spec_quotient(lhs, rhs) <= i64::MAX || (lhs == i64::MIN && rhs == -1),
        lhs == i64::MIN && rhs == -1 ==> wrap(spec_quotient(lhs, rhs)) == i64::MIN,
{
    let x = if lhs < 0 {
        -lhs
    } else {
        lhs
    };
    let d = if rhs < 0 {
        -rhs
    } else {
        rhs
    };
    vstd::arithmetic::div_mod::lemma_div_pos_is_pos(x, d);
    vstd::arithmetic::div_mod::lemma_div_is_ordered_by_denominator(x, 1, d);
    vstd::arithmetic::div_mod::lemma_div_basics(x);
    if d >= 2 {
        vstd::arithmetic::div_mod::lemma_div_is_ordered_by_denominator(x, 2, d);
    }
    if lhs == i64::MIN && rhs == -1 {
        assert(spec_quotient(lhs, rhs) == 0x8000_0000_0000_0000);
        assert(0x8000_0000_0000_0000int % modulus() == 0x8000_0000_0000_0000) by (nonlinear_arith);
    }
}

/// Raises `base` to the power of `exponent`, wrapped.
///
/// A negative exponent gives 0, unless the base is 1 (always 1) or -1 (1 for
/// an even exponent, else -1).
pub fn power(base: Number, exponent: Number) -> (res: Number)
    ensures
        res == spec_power(base as int, exponent as int),
{
    if exponent < 0 {
        if base == 1 {
            1
        } else if base == -1 {
            if is_even(exponent) {
                1
            } else {
                -1
            }
        } else {
            0
        }
    } else {
        let mut acc: i64 = 1;
        let mut factor: i64 = base;
        let mut left: u64 = exponent as u64;
        proof {
            assert(1 * pow(base as int, exponent as nat) == pow(base as int, exponent as nat));
        }
        while left > 0
            invariant
                exponent >= 0,
                (acc * pow(factor as int, left as nat)) % modulus() == pow(
                    base as int,
                    exponent as nat,
                ) % modulus(),
            decreases left,
        {
            let odd = left % 2 == 1;
            let next_acc = if odd {
                acc.wrapping_mul(factor)
            } else {
                acc
            };
            let next_factor = factor.wrapping_mul(factor);
            proof {
                lemma_wrap(acc * factor);
                lemma_wrap(factor * factor);
                lemma_power_round(
                    acc as int,
                    factor as int,
                    left as nat,
                    next_acc as int,
                    next_factor as int,
                );
            }
            acc = next_acc;
            factor = next_factor;
            left = left / 2;
        }
        proof {
            lemma_pow0(factor as int);
            assert(acc * 1 == acc);
            lemma_wrap_unique(acc as int, pow(base as int, exponent as nat));
        }
        acc
    }
}

/// Whether a number is even.
pub fn is_even(n: Number) -> (res: bool)
    ensures
        res == (n % 2 == 0),
{
    match n.checked_rem(2) {
        Some(rest) => rest == 0,
        None => true,
    }
}

/// The exit status that a number stands for: the one value of a signed
/// 32-bit integer that differs from `n` by a multiple of 2^32.
pub open spec fn spec_exit_code(n: int) -> int {
    let low = n % 0x1_0000_0000;
    if low > i32::MAX {
        low - 0x1_0000_0000
    } else {
        low
    }
}

/// The exit status that a number stands for.
pub fn exit_code(n: Number) -> (res: i32)
    ensures
        res == spec_exit_code(n as int),
{
    match n.checked_rem_euclid(0x1_0000_0000) {
        Some(low) => if low > 0x7fff_ffff {
            (low - 0x1_0000_0000) as i32
        } else {
            low as i32
        },
        None => 0,
    }
}

/// The number that stands for a count of characters.
pub fn count_number(count: usize) -> (res: Number)
    ensures
        res == wrap(count as int),
{
    let big = count as u64;
    proof {
        lemma_wrap(count as int);
        if big > 0x7fff_ffff_ffff_ffff {
            lemma_wrap_unique(big - modulus(), count as int);
        }
    }
    if big <= 0x7fff_ffff_ffff_ffff {
        big as i64
    } else {
        ((big - 0x8000_0000_0000_0000) as i64) + i64::MIN
    }
}

} // verus!
