//! Scalars as ranks.
//!
//! A renderer computes with binary64 numbers; this library only ever orders
//! them. A scalar is therefore carried as its rank: a signed 64-bit integer
//! that grows exactly as the encoded number grows. Both zeros share rank 0,
//! the infinities have the largest and the smallest rank, and a pattern that
//! encodes no number has no rank at all, which is why an input that comes
//! out of arithmetic is an `Option<i64>`.

use vstd::arithmetic::power2::{
    lemma2_to64, lemma2_to64_rest, lemma_pow2_adds, lemma_pow2_pos,
    lemma_pow2_strictly_increases, lemma_pow2_unfold, pow2,
};
use vstd::prelude::*;

verus! {

/// The sign bit of a pattern.
pub const SIGN: u64 = 0x8000_0000_0000_0000;

/// The first magnitude with a non-zero exponent field: two to the 52nd.
pub const HIDDEN: u64 = 0x0010_0000_0000_0000;

/// The rank of zero.
pub const ZERO: i64 = 0;

/// The rank of one.
pub const ONE: i64 = 0x3ff0_0000_0000_0000;

/// The rank of positive infinity, the largest rank there is.
pub const INFINITY: i64 = 0x7ff0_0000_0000_0000;

/// Whether the sign bit of `bits` is set.
pub open spec fn negative(bits: u64) -> bool {
    bits >= SIGN
}

/// The pattern without its sign bit.
pub open spec fn magnitude(bits: u64) -> u64 {
    if bits >= SIGN {
        (bits - SIGN) as u64
    } else {
        bits
    }
}

/// Whether `bits` encodes a number, infinite ones included.
pub open spec fn is_number(bits: u64) -> bool {
    magnitude(bits) <= INFINITY
}

/// Whether `r` is the rank of some pattern.
pub open spec fn is_rank(r: i64) -> bool {
    -INFINITY <= r <= INFINITY
}

/// The rank of a pattern: its magnitude, negated under a sign bit.
pub open spec fn rank_of(bits: u64) -> Option<i64> {
    if !is_number(bits) {
        None
    } else if negative(bits) {
        Some((-magnitude(bits)) as i64)
    } else {
        Some(magnitude(bits) as i64)
    }
}

/// The pattern of a rank. Rank 0 gives the pattern of positive zero.
pub open spec fn pattern_of(r: i64) -> Option<u64> {
    if !is_rank(r) {
        None
    } else if r < 0 {
        Some((SIGN - r) as u64)
    } else {
        Some(r as u64)
    }
}

/// The exponent field of a magnitude.
pub open spec fn exponent(m: u64) -> nat {
    (m / HIDDEN) as nat
}

/// The fraction field of a magnitude.
pub open spec fn fraction(m: u64) -> nat {
    (m % HIDDEN) as nat
}

/// The number that a magnitude encodes, in units of two to the minus 1074,
/// the smallest step between two encoded numbers. An all-zero exponent field
/// counts the fraction in those units; any other adds the hidden bit and
/// doubles with each exponent. The magnitude of infinity gets the power of
/// two that follows the largest finite number.
pub open spec fn scaled(m: u64) -> nat {
    if exponent(m) == 0 {
        fraction(m)
    } else {
        ((HIDDEN + fraction(m)) * pow2((exponent(m) - 1) as nat)) as nat
    }
}

/// The number that a pattern encodes, in the same units, with its sign.
pub open spec fn value(bits: u64) -> int {
    if negative(bits) {
        -(scaled(magnitude(bits)) as int)
    } else {
        scaled(magnitude(bits)) as int
    }
}

/// Whether `a` is a number below `b`. What is not a number is below nothing.
pub open spec fn below(a: Option<i64>, b: i64) -> bool {
    a matches Some(x) && x < b
}

/// Whether `a` is a number above `b`. What is not a number is above nothing.
pub open spec fn above(a: Option<i64>, b: i64) -> bool {
    a matches Some(x) && x > b
}

/// Whether `a` and `b` are numbers and `a` is the smaller. Nothing is less
/// than what is not a number, nor is that less than anything.
pub open spec fn less(a: Option<i64>, b: Option<i64>) -> bool {
    a matches Some(x) && b matches Some(y) && x < y
}

/// Gives the rank of the pattern `bits`, or `None` where it encodes no
/// number.
pub fn rank(bits: u64) -> (r: Option<i64>)
    ensures
        r == rank_of(bits),
        r matches Some(x) ==> is_rank(x),
{
    if bits >= SIGN {
        let m: u64 = bits - SIGN;
        if m > INFINITY as u64 {
            None
        } else {
            Some(-(m as i64))
        }
    } else if bits > INFINITY as u64 {
        None
    } else {
        Some(bits as i64)
    }
}

/// Gives a pattern whose rank is `r`, or `None` where `r` is the rank of
/// nothing.
pub fn pattern(r: i64) -> (bits: Option<u64>)
    ensures
        bits == pattern_of(r),
        bits matches Some(b) ==> rank_of(b) == Some(r),
        bits is Some <==> is_rank(r),
{
    if r < -INFINITY || r > INFINITY {
        None
    } else if r < 0 {
        Some(SIGN + ((-r) as u64))
    } else {
        Some(r as u64)
    }
}

/// Tells whether `a` is a number below `b`.
pub fn is_below(a: Option<i64>, b: i64) -> (r: bool)
    ensures
        r == below(a, b),
{
    match a {
        Some(x) => x < b,
        None => false,
    }
}

/// Tells whether `a` is a number above `b`.
pub fn is_above(a: Option<i64>, b: i64) -> (r: bool)
    ensures
        r == above(a, b),
{
    match a {
        Some(x) => x > b,
        None => false,
    }
}

/// Tells whether `a` and `b` are numbers and `a` is the smaller.
pub fn is_less(a: Option<i64>, b: Option<i64>) -> (r: bool)
    ensures
        r == less(a, b),
{
    match (a, b) {
        (Some(x), Some(y)) => x < y,
        _ => false,
    }
}

/// Going to the rank and back gives the pattern again, except that negative
/// zero comes back as positive zero.
pub proof fn lemma_pattern_of_rank(bits: u64)
    requires
        is_number(bits),
    ensures
        rank_of(bits) matches Some(r) && pattern_of(r) == Some(if bits == SIGN { 0 } else { bits }),
{
}

/// A larger magnitude encodes a larger number.
pub proof fn lemma_scaled_increases(m1: u64, m2: u64)
    requires
        m1 < m2,
    ensures
        scaled(m1) < scaled(m2),
{
    let e1 = exponent(m1);
    let e2 = exponent(m2);
    let f1 = fraction(m1);
    let f2 = fraction(m2);
    let h = HIDDEN as int;
    assert(m1 == h * e1 + f1 && m2 == h * e2 + f2 && f1 < h && f2 < h);
    assert(e1 <= e2) by {
        if e1 > e2 {
            assert(h * e1 >= h * (e2 + 1)) by (nonlinear_arith)
                requires
                    e1 >= e2 + 1,
                    h > 0,
            ;
        }
    }
    if e1 == e2 {
        assert(f1 < f2);
        if e1 > 0 {
            let p = pow2((e1 - 1) as nat) as int;
            lemma_pow2_pos((e1 - 1) as nat);
            assert((h + f1) * p < (h + f2) * p) by (nonlinear_arith)
                requires
                    f1 < f2,
                    p > 0,
            ;
        }
    } else {
        // scaled(m1) stays below HIDDEN * pow2(e1), which scaled(m2) reaches.
        let q = pow2((e2 - 1) as nat) as int;
        lemma_pow2_pos((e2 - 1) as nat);
        let top = pow2(e1) as int;
        lemma_pow2_pos(e1);
        if e1 < e2 - 1 {
            lemma_pow2_strictly_increases(e1, (e2 - 1) as nat);
        }
        assert(top <= q);
        assert(h * top <= (h + f2) * q) by (nonlinear_arith)
            requires
                0 < top <= q,
                0 <= f2,
                h > 0,
        ;
        if e1 == 0 {
            assert(pow2(0) == 1) by {
                lemma2_to64();
            }
        } else {
            let p = pow2((e1 - 1) as nat) as int;
            lemma_pow2_pos((e1 - 1) as nat);
            lemma_pow2_unfold(e1);
            assert((h + f1) * p < h * (2 * p)) by (nonlinear_arith)
                requires
                    f1 < h,
                    p > 0,
            ;
        }
    }
}

/// Ranks order patterns as the numbers they encode: of two patterns that
/// encode numbers, one has the smaller rank exactly when it encodes the
/// smaller number, and both have one rank exactly when they encode the same
/// number.
pub proof fn lemma_rank_orders_values(a: u64, b: u64)
    requires
        is_number(a),
        is_number(b),
    ensures
        rank_of(a)->0 < rank_of(b)->0 <==> value(a) < value(b),
        rank_of(a) == rank_of(b) <==> value(a) == value(b),
{
    let ma = magnitude(a);
    let mb = magnitude(b);
    if ma < mb {
        lemma_scaled_increases(ma, mb);
    }
    if mb < ma {
        lemma_scaled_increases(mb, ma);
    }
    if 0 < ma {
        lemma_scaled_increases(0, ma);
    }
    if 0 < mb {
        lemma_scaled_increases(0, mb);
    }
    assert(scaled(0) == 0);
}

/// The named ranks stand for the numbers they are named for: `ZERO` for
/// zero, `ONE` for one, which is two to the 1074th of the units of `scaled`,
/// and `INFINITY` for what lies above every finite number.
pub proof fn lemma_named_ranks()
    ensures
        scaled(ZERO as u64) == 0,
        scaled(ONE as u64) == pow2(1074),
        forall|m: u64| m < INFINITY ==> #[trigger] scaled(m) < scaled(INFINITY as u64),
{
    assert(exponent(ONE as u64) == 1023 && fraction(ONE as u64) == 0);
    lemma_pow2_adds(52, 1022);
    assert(pow2(52) == HIDDEN) by {
        lemma2_to64_rest();
    }
    assert forall|m: u64| m < INFINITY implies #[trigger] scaled(m) < scaled(INFINITY as u64) by {
        lemma_scaled_increases(m, INFINITY as u64);
    }
}

} // verus!
