//! Arithmetic on 32-bit TCP sequence numbers.
//!
//! Sequence numbers live on a circle of `2^32` points. A number `a` is
//! *before* `b` when walking forward from `a` reaches `b` in fewer than
//! `2^31` steps, so every comparison stays meaningful across the wrap from
//! `0xffff_ffff` to `0`.

use vstd::prelude::*;

verus! {

/// Number of forward steps from `a` to `b` around the circle, in `[0, 2^32)`.
pub open spec fn seq_distance(a: u32, b: u32) -> int {
    (b - a) % 0x1_0000_0000
}

/// The sequence number `n` steps forward of `a`.
pub open spec fn seq_plus(a: u32, n: int) -> u32 {
    ((a + n) % 0x1_0000_0000) as u32
}

/// `a` comes strictly before `b`: the forward distance from `a` to `b` lies
/// in `(0, 2^31)`.
pub open spec fn seq_before(a: u32, b: u32) -> bool {
    0 < seq_distance(a, b) < 0x8000_0000
}

/// `x` lies strictly between `start` and `end`, going forward.
pub open spec fn seq_between(start: u32, x: u32, end: u32) -> bool {
    seq_before(start, x) && seq_before(x, end)
}

/// Forward distance from `a` to `b`.
pub fn distance(a: u32, b: u32) -> (d: u32)
    ensures
        d == seq_distance(a, b),
{
    b.wrapping_sub(a)
}

/// The sequence number `n` steps forward of `a`.
pub fn advance(a: u32, n: u32) -> (r: u32)
    ensures
        r == seq_plus(a, n as int),
{
    a.wrapping_add(n)
}

/// Whether `lhs` comes strictly before `rhs`.
pub fn wrapping_lt(lhs: u32, rhs: u32) -> (r: bool)
    ensures
        r == seq_before(lhs, rhs),
{
    let d: u32 = rhs.wrapping_sub(lhs);
    0 < d && d < 0x8000_0000
}

/// Whether `x` lies strictly between `start` and `end`, going forward.
pub fn is_between_wrapped(start: u32, x: u32, end: u32) -> (r: bool)
    ensures
        r == seq_between(start, x, end),
{
    wrapping_lt(start, x) && wrapping_lt(x, end)
}

/// Walking `n` steps forward from `a` covers a distance of `n`, for every
/// `n` below `2^32`.
pub proof fn lemma_distance_of_plus(a: u32, n: int)
    requires
        0 <= n < 0x1_0000_0000,
    ensures
        seq_distance(a, seq_plus(a, n)) == n,
{
}

/// The number after `a` lies strictly between `a` and the number `k` steps
/// after `a`, for every `k` with `1 < k < 2^31`, wherever the circle wraps.
pub proof fn lemma_successor_is_between(a: u32, k: u32)
    requires
        1 < k < 0x8000_0000,
    ensures
        seq_between(a, seq_plus(a, 1), seq_plus(a, k as int)),
{
}

/// A number is never before itself, and of two distinct numbers at most one
/// is before the other.
pub proof fn lemma_before_is_strict(a: u32, b: u32)
    ensures
        !seq_before(a, a),
        seq_before(a, b) ==> !seq_before(b, a),
{
}

/// Strictly between means: `x` is reached first, within `2^31` steps of
/// `start`, and `end` follows within `2^31` steps of `x`.
pub proof fn lemma_between_by_distance(start: u32, x: u32, end: u32)
    ensures
        seq_between(start, x, end) <==> {
            &&& 0 < seq_distance(start, x) < 0x8000_0000
            &&& seq_distance(start, x) < seq_distance(start, end)
            &&& seq_distance(start, end) - seq_distance(start, x) < 0x8000_0000
        },
{
}

/// The distance is the difference, with `2^32` added where it would be
/// negative; and walking forward is the sum, with `2^32` taken off where it
/// would not fit.
pub proof fn lemma_wrap_once(a: u32, b: u32)
    ensures
        seq_distance(a, b) == if a <= b {
            b - a
        } else {
            b - a + 0x1_0000_0000
        },
        seq_plus(a, b as int) == if a + b < 0x1_0000_0000 {
            a + b
        } else {
            a + b - 0x1_0000_0000
        },
{
}

/// A window of `len` numbers that starts at `start` holds `x` exactly when
/// `x` lies strictly between the number before `start` and the first number
/// behind the window.
pub proof fn lemma_window_by_between(start: u32, len: u32, x: u32)
    requires
        len < 0x7fff_ffff,
    ensures
        seq_distance(start, x) < len <==> seq_between(
            seq_plus(start, 0xffff_ffff),
            x,
            seq_plus(start, len as int),
        ),
{
    let left = seq_plus(start, 0xffff_ffff);
    let right = seq_plus(start, len as int);
    lemma_wrap_once(start, 0xffff_ffff);
    lemma_wrap_once(start, len);
    lemma_wrap_once(start, x);
    lemma_wrap_once(left, x);
    lemma_wrap_once(x, right);
}

/// Walking on from `b` adds to the distance from `a`, as long as the walk
/// does not come round to `a` again.
pub proof fn lemma_distance_adds(a: u32, b: u32, n: int)
    requires
        0 <= n,
        seq_distance(a, b) + n < 0x1_0000_0000,
    ensures
        seq_distance(a, seq_plus(b, n)) == seq_distance(a, b) + n,
{
}

} // verus!
