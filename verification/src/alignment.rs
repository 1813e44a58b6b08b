//! Power-of-two alignment arithmetic.
//!
//! Every alignment the heap handles is a power of two.  This module defines
//! what that means, proves the divisibility facts the placement engine rests
//! on (a smaller power of two divides a larger one; divisibility is
//! transitive; a sum of multiples is a multiple), and provides the checked
//! round-up-to-a-multiple operation used to align bump offsets and block
//! bases.

use vstd::arithmetic::div_mod::{
    lemma_fundamental_div_mod, lemma_mod_multiples_basic, lemma_mod_self_0, lemma_small_mod,
};
use vstd::prelude::*;

verus! {

/// `n` is a power of two (`1, 2, 4, 8, ...`).
pub open spec fn is_pow2(n: nat) -> bool
    decreases n,
{
    if n == 0 {
        false
    } else if n == 1 {
        true
    } else {
        n % 2 == 0 && is_pow2(n / 2)
    }
}

/// `a` divides `b` evenly.
pub open spec fn divides(a: int, b: int) -> bool {
    b % a == 0
}

/// `x` rounded up to the next multiple of `a`.
pub open spec fn round_up(x: int, a: int) -> int
    recommends
        a >= 1,
        x >= 0,
{
    if x % a == 0 {
        x
    } else {
        x + a - x % a
    }
}

/// A power of two is positive.
pub proof fn lemma_pow2_pos(n: nat)
    requires
        is_pow2(n),
    ensures
        n >= 1,
{
}

/// Of two powers of two, the strictly smaller is at most half the larger.
pub proof fn lemma_pow2_le_half(a: nat, b: nat)
    requires
        is_pow2(a),
        is_pow2(b),
        a < b,
    ensures
        a <= b / 2,
    decreases a,
{
    if a == 1 {
        assert(b >= 2);
        assert(b / 2 >= 1);
    } else {
        assert(a % 2 == 0 && is_pow2(a / 2));
        assert(b > 1);
        assert(b % 2 == 0 && is_pow2(b / 2));
        lemma_pow2_le_half(a / 2, b / 2);
        assert(a <= b / 2) by {
            assert(a / 2 <= (b / 2) / 2);
            assert(a == 2 * (a / 2));
            assert(b / 2 == 2 * ((b / 2) / 2));
        }
    }
}

/// A smaller power of two divides a larger one.
pub proof fn lemma_pow2_divides(a: nat, b: nat)
    requires
        is_pow2(a),
        is_pow2(b),
        a <= b,
    ensures
        divides(a as int, b as int),
    decreases b,
{
    lemma_pow2_pos(a);
    if a == b {
        lemma_mod_self_0(a as int);
    } else {
        lemma_pow2_le_half(a, b);
        assert(b > 1 && b % 2 == 0 && is_pow2(b / 2));
        lemma_pow2_divides(a, b / 2);
        let q = (b / 2) as int / (a as int);
        lemma_fundamental_div_mod((b / 2) as int, a as int);
        assert((b / 2) as int == a * q);
        assert(b as int == (2 * q) * a) by (nonlinear_arith)
            requires
                (b / 2) as int == a * q,
                b % 2 == 0,
                b == 2 * (b / 2),
        {}
        lemma_mod_multiples_basic(2 * q, a as int);
    }
}

/// Divisibility is transitive.
pub proof fn lemma_divides_trans(a: int, b: int, c: int)
    requires
        a >= 1,
        b >= 1,
        divides(a, b),
        divides(b, c),
    ensures
        divides(a, c),
{
    lemma_fundamental_div_mod(b, a);
    lemma_fundamental_div_mod(c, b);
    let k = b / a;
    let m = c / b;
    assert(c == (m * k) * a) by (nonlinear_arith)
        requires
            b == a * k + 0,
            c == b * m + 0,
    {}
    lemma_mod_multiples_basic(m * k, a);
}

/// A sum of two multiples of `a` is a multiple of `a`.
pub proof fn lemma_mod_sum_zero(x: int, y: int, a: int)
    requires
        a >= 1,
        x % a == 0,
        y % a == 0,
    ensures
        (x + y) % a == 0,
{
    lemma_fundamental_div_mod(x, a);
    lemma_fundamental_div_mod(y, a);
    let p = x / a;
    let q = y / a;
    assert(x + y == (p + q) * a) by (nonlinear_arith)
        requires
            x == a * p + 0,
            y == a * q + 0,
    {}
    lemma_mod_multiples_basic(p + q, a);
}

/// Bounds of the round-up operation: the result is the least multiple of `a`
/// that is at least `x`.
pub proof fn lemma_round_up(x: int, a: int)
    requires
        a >= 1,
        x >= 0,
    ensures
        round_up(x, a) % a == 0,
        x <= round_up(x, a) < x + a,
{
    let r = x % a;
    lemma_fundamental_div_mod(x, a);
    if r != 0 {
        assert(0 < r < a);
        let q = x / a;
        assert(x + a - r == (q + 1) * a) by (nonlinear_arith)
            requires
                x == a * q + r,
        {}
        lemma_mod_multiples_basic(q + 1, a);
    }
}

/// The block size and the header alignment are powers of two.
pub proof fn lemma_heap_constants_pow2()
    ensures
        is_pow2(crate::constants::BLOCK_SIZE as nat),
        is_pow2(crate::constants::HEADER_ALIGN as nat),
{
    reveal_with_fuel(is_pow2, 17);
    assert(is_pow2(32768));
    assert(is_pow2(8));
}

/// Checked exec round-up: `Some` exactly when the rounded value fits in
/// `usize`.
pub fn round_up_to(x: usize, a: usize) -> (r: Option<usize>)
    requires
        a >= 1,
    ensures
        round_up(x as int, a as int) <= usize::MAX ==> r == Some(
            (round_up(x as int, a as int) as usize),
        ),
        round_up(x as int, a as int) > usize::MAX ==> r is None,
{
    let rem = x % a;
    proof {
        vstd::arithmetic::div_mod::lemma_mod_decreases(x as nat, a as nat);
    }
    if rem == 0 {
        Some(x)
    } else if x - rem <= usize::MAX - a {
        Some(x - rem + a)
    } else {
        None
    }
}

} // verus!
