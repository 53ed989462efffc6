//! Exact arithmetic on products of two 128-bit numbers.
//!
//! A product of two balances can need 256 bits. It is held here as two
//! 128-bit words, high and low, so that a quotient or a square root of it can
//! be taken without loss.

use vstd::arithmetic::div_mod::{
    lemma_div_is_ordered,
    lemma_div_multiples_vanish,
    lemma_fundamental_div_mod_converse,
};
use vstd::arithmetic::mul::lemma_mul_upper_bound;
use vstd::arithmetic::power2::{
    lemma2_to64,
    lemma2_to64_rest,
    lemma_pow2_adds,
    lemma_pow2_strictly_increases,
    lemma_pow2_unfold,
    pow2,
};
use vstd::prelude::*;

verus! {

/// 2 to the power 64.
pub const WORD: u128 = 0x1_0000_0000_0000_0000;

/// 2 to the power 127: the highest bit of a 128-bit number.
pub const TOP_BIT: u128 = 0x8000_0000_0000_0000_0000_0000_0000_0000;

/// 2 to the power 128.
pub open spec fn two_128() -> int {
    0x1_0000_0000_0000_0000_0000_0000_0000_0000int
}

/// The number that the words `high` and `low` stand for.
pub open spec fn wide(high: u128, low: u128) -> int {
    high * two_128() + low
}

proof fn lemma_high_powers()
    ensures
        pow2(127) == TOP_BIT,
        pow2(128) == two_128(),
{
    lemma2_to64();
    lemma2_to64_rest();
    lemma_pow2_adds(64, 63);
    lemma_pow2_adds(64, 64);
    assert(0x1_0000_0000_0000_0000int * 0x8000_0000_0000_0000int
        == 0x8000_0000_0000_0000_0000_0000_0000_0000int) by (nonlinear_arith);
    assert(0x1_0000_0000_0000_0000int * 0x1_0000_0000_0000_0000int == two_128())
        by (nonlinear_arith);
}

/// The product of `a` and `b` in full, as a high and a low word.
pub fn mul_wide(a: u128, b: u128) -> (product: (u128, u128))
    ensures
        wide(product.0, product.1) == a * b,
{
    let a0 = a % WORD;
    let a1 = a / WORD;
    let b0 = b % WORD;
    let b1 = b / WORD;
    proof {
        let m = WORD - 1;
        lemma_mul_upper_bound(a0 as int, m, b0 as int, m);
        lemma_mul_upper_bound(a0 as int, m, b1 as int, m);
        lemma_mul_upper_bound(a1 as int, m, b0 as int, m);
        lemma_mul_upper_bound(a1 as int, m, b1 as int, m);
        assert(m * m == 0xffff_ffff_ffff_fffe_0000_0000_0000_0001) by (nonlinear_arith)
            requires
                m == 0xffff_ffff_ffff_ffff,
        ;
    }
    let low_low = a0 * b0;
    let low_high = a0 * b1;
    let high_low = a1 * b0;
    let high_high = a1 * b1;
    let mid1 = low_high + low_low / WORD;
    let mid2 = high_low + mid1 % WORD;
    let low = (mid2 % WORD) * WORD + low_low % WORD;
    let high = high_high + mid1 / WORD + mid2 / WORD;
    proof {
        assert(a * b == (a1 * b1) * two_128() + (a0 * b1) * WORD + (a1 * b0) * WORD + a0 * b0)
            by (nonlinear_arith)
            requires
                a == a1 * WORD + a0,
                b == b1 * WORD + b0,
                WORD * WORD == two_128(),
        ;
    }
    (high, low)
}

/// Divides the number `wide(high, low)` by `divisor`. The quotient fits in one
/// word because `high` is less than the divisor.
pub fn div_wide(high: u128, low: u128, divisor: u128) -> (result: (u128, u128))
    requires
        high < divisor,
    ensures
        result.0 == wide(high, low) / (divisor as int),
        result.1 == wide(high, low) % (divisor as int),
{
    let mut quotient: u128 = 0;
    let mut rest: u128 = high;
    let mut bits: u128 = low;
    let mut i: u32 = 0;
    let ghost mut scale: int = 1;
    let ghost mut taken: int = 0;
    proof {
        lemma_high_powers();
        lemma2_to64();
        assert(low * 1 == low) by (nonlinear_arith);
        assert(high * 1 == high) by (nonlinear_arith);
        assert(0 * divisor == 0) by (nonlinear_arith);
    }
    while i < 128
        invariant
            i <= 128,
            rest < divisor,
            scale == pow2(i as nat),
            pow2(127) == TOP_BIT,
            pow2(128) == two_128(),
            0 <= taken < scale,
            quotient < scale,
            low * scale == taken * two_128() + bits,
            high * scale + taken == quotient * divisor + rest,
        decreases 128 - i,
    {
        let ghost q0 = quotient as int;
        let ghost r0 = rest as int;
        proof {
            if i < 127 {
                lemma_pow2_strictly_increases(i as nat, 127);
            }
            lemma_pow2_unfold((i + 1) as nat);
            assert(low * (2 * scale) == 2 * (low * scale)) by (nonlinear_arith);
            assert(high * (2 * scale) == 2 * (high * scale)) by (nonlinear_arith);
            assert((2 * q0 + 1) * divisor == 2 * (q0 * divisor) + divisor) by (nonlinear_arith);
            assert((2 * q0) * divisor == 2 * (q0 * divisor)) by (nonlinear_arith);
        }
        let bit = bits >= TOP_BIT;
        let lower = if bit {
            bits - TOP_BIT
        } else {
            bits
        };
        bits = lower + lower;
        let gap = divisor - rest;
        if bit {
            if rest >= gap - 1 {
                rest = rest - (gap - 1);
                quotient = quotient + quotient + 1;
            } else {
                rest = rest + rest + 1;
                quotient = quotient + quotient;
            }
        } else {
            if rest >= gap {
                rest = rest - gap;
                quotient = quotient + quotient;
                quotient = quotient + 1;
            } else {
                rest = rest + rest;
                quotient = quotient + quotient;
            }
        }
        proof {
            taken = 2 * taken + if bit {
                1int
            } else {
                0int
            };
            scale = 2 * scale;
        }
        i = i + 1;
    }
    proof {
        assert(scale == two_128());
        assert(low * scale == low * two_128());
        assert(taken == low);
        assert(high * scale == high * two_128());
        lemma_fundamental_div_mod_converse(
            wide(high, low),
            divisor as int,
            quotient as int,
            rest as int,
        );
    }
    (quotient, rest)
}

/// The quotient `a * b / divisor`, rounded down, where that is defined and
/// fits in 128 bits: the product is taken in full before it is divided.
pub fn mul_div(a: u128, b: u128, divisor: u128) -> (quotient: Option<u128>)
    ensures
        match quotient {
            Some(q) => divisor > 0 && q == (a * b) / (divisor as int),
            None => divisor == 0 || (a * b) / (divisor as int) > u128::MAX,
        },
{
    if divisor == 0 {
        return None;
    }
    let (high, low) = mul_wide(a, b);
    if high >= divisor {
        proof {
            let d = divisor as int;
            assert(d * two_128() <= high * two_128()) by (nonlinear_arith)
                requires
                    d <= high,
            ;
            lemma_div_is_ordered(d * two_128(), a * b, d);
            lemma_div_multiples_vanish(two_128(), d);
        }
        return None;
    }
    let (q, _) = div_wide(high, low, divisor);
    Some(q)
}

/// The quotient `a * b / divisor`, rounded down, for a caller that knows that
/// it is defined and fits in 128 bits.
pub fn mul_div_floor(a: u128, b: u128, divisor: u128) -> (quotient: u128)
    requires
        divisor > 0,
        (a * b) / (divisor as int) <= u128::MAX,
    ensures
        quotient == (a * b) / (divisor as int),
{
    match mul_div(a, b, divisor) {
        Some(q) => q,
        None => 0,
    }
}

/// A quotient `a * b / divisor` is at most `b` when `a` is at most the
/// divisor.
pub proof fn lemma_mul_div_bound(a: int, b: int, divisor: int)
    requires
        0 <= a <= divisor,
        0 <= b,
        0 < divisor,
    ensures
        0 <= (a * b) / divisor <= b,
{
    assert(0 <= a * b <= divisor * b) by (nonlinear_arith)
        requires
            0 <= a <= divisor,
            0 <= b,
    ;
    lemma_div_is_ordered(a * b, divisor * b, divisor);
    lemma_div_is_ordered(0, a * b, divisor);
    lemma_div_multiples_vanish(b, divisor);
}

/// Whether `root` is the square root of `n`, rounded down.
pub open spec fn is_sqrt(n: int, root: int) -> bool {
    0 <= root && root * root <= n < (root + 1) * (root + 1)
}

/// The square root of `n`, rounded down.
pub open spec fn isqrt(n: int) -> int {
    choose|root: int| is_sqrt(n, root)
}

/// A number has at most one rounded-down square root.
pub proof fn lemma_sqrt_unique(n: int, r1: int, r2: int)
    requires
        is_sqrt(n, r1),
        is_sqrt(n, r2),
    ensures
        r1 == r2,
{
    if r1 < r2 {
        assert((r1 + 1) * (r1 + 1) <= r2 * r2) by (nonlinear_arith)
            requires
                0 <= r1 + 1 <= r2,
        ;
    } else if r2 < r1 {
        assert((r2 + 1) * (r2 + 1) <= r1 * r1) by (nonlinear_arith)
            requires
                0 <= r2 + 1 <= r1,
        ;
    }
}

/// Every number from 0 on has a rounded-down square root.
pub proof fn lemma_sqrt_exists(n: int)
    requires
        0 <= n,
    ensures
        is_sqrt(n, isqrt(n)),
    decreases n,
{
    if n == 0 {
        assert(is_sqrt(0, 0));
    } else {
        lemma_sqrt_exists(n - 1);
        let r = isqrt(n - 1);
        if (r + 1) * (r + 1) <= n {
            assert(n < (r + 2) * (r + 2)) by (nonlinear_arith)
                requires
                    n - 1 < (r + 1) * (r + 1),
                    0 <= r,
            ;
            assert(is_sqrt(n, r + 1));
        } else {
            assert(r * r <= n) by (nonlinear_arith)
                requires
                    r * r <= n - 1,
            ;
            assert(is_sqrt(n, r));
        }
    }
}

/// A number that passes for the rounded-down square root is it.
pub proof fn lemma_isqrt_is(n: int, root: int)
    requires
        is_sqrt(n, root),
    ensures
        isqrt(n) == root,
{
    lemma_sqrt_unique(n, root, isqrt(n));
}

/// The square root of `a * b`, rounded down. The product is taken in full,
/// so the root is exact for every pair of inputs.
pub fn sqrt_product(a: u128, b: u128) -> (root: u128)
    ensures
        is_sqrt(a * b, root as int),
        root == isqrt(a * b),
{
    let (high, low) = mul_wide(a, b);
    let mut root: u128 = 0;
    let mut bit: u128 = TOP_BIT;
    let ghost mut width: int = two_128();
    let ghost mut k: nat = 127;
    proof {
        lemma_high_powers();
        lemma2_to64();
        lemma_mul_upper_bound(a as int, two_128() - 1, b as int, two_128() - 1);
        assert((two_128() - 1) * (two_128() - 1) < two_128() * two_128()) by (nonlinear_arith);
        assert(0 * 0 == 0) by (nonlinear_arith);
    }
    while bit > 0
        invariant
            wide(high, low) == a * b,
            root * root <= a * b < (root + width) * (root + width),
            root + width <= two_128(),
            bit > 0 ==> width == 2 * bit && bit == pow2(k),
            bit == 0 ==> width == 1,
        decreases bit,
    {
        let candidate = root + bit;
        let (ch, cl) = mul_wide(candidate, candidate);
        proof {
            if k > 0 {
                lemma_pow2_unfold(k);
            } else {
                lemma2_to64();
            }
        }
        if ch < high || (ch == high && cl <= low) {
            root = candidate;
        }
        proof {
            width = bit as int;
            if k > 0 {
                k = (k - 1) as nat;
            }
        }
        bit = bit / 2;
    }
    proof {
        lemma_isqrt_is(a * b, root as int);
    }
    root
}

} // verus!
