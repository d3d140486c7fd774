//! Indices on a toroidal axis: every integer coordinate names the cell at
//! its true (non-negative) remainder modulo the axis length.
use vstd::prelude::*;
use vstd::arithmetic::div_mod::{lemma_fundamental_div_mod, lemma_fundamental_div_mod_converse_mod};

verus! {

/// The cell that coordinate `k` names on an axis of `len` cells.
/// Verus's `%` is Euclidean, so this lies in `0..len` for negative `k` too.
pub open spec fn wrap(k: int, len: int) -> int {
    k % len
}

/// For a negative `a`, the Euclidean remainder follows from the remainder of `-a`.
proof fn lemma_mod_of_negative(a: int, b: int)
    requires
        a < 0,
        b > 0,
    ensures
        (-a) % b == 0 ==> a % b == 0,
        (-a) % b != 0 ==> a % b == b - (-a) % b,
{
    let x = -a;
    lemma_fundamental_div_mod(x, b);
    let q = x / b;
    let m = x % b;
    if m == 0 {
        assert(a == (-q) * b + 0) by (nonlinear_arith)
            requires
                x == b * q + m,
                a == -x,
                m == 0,
        ;
        lemma_fundamental_div_mod_converse_mod(a, b, -q, 0);
    } else {
        assert(a == (-q - 1) * b + (b - m)) by (nonlinear_arith)
            requires
                x == b * q + m,
                a == -x,
        ;
        lemma_fundamental_div_mod_converse_mod(a, b, -q - 1, b - m);
    }
}

/// Rust's `%` keeps the sign of `a`; for a negative `a` it is the negated
/// remainder of `-a`.
proof fn lemma_truncated_rem(a: i32, b: i32, r: i32)
    requires
        b > 0,
        a >= 0 ==> r as int == (a as int) % (b as int),
        a < 0 ==> r as int == -((-(a as int)) % (b as int)),
    ensures
        r < 0 ==> r + b == (a as int) % (b as int),
        r >= 0 ==> r == (a as int) % (b as int),
        r < 0 ==> a < 0,
{
    if a < 0 {
        lemma_mod_of_negative(a as int, b as int);
    }
}

/// True modulo of `a` by a positive `b`: the result lies in `0..b` for
/// every `a`, negative ones included.
pub fn rem_euclid(a: i32, b: i32) -> (r: i32)
    requires
        b > 0,
    ensures
        r as int == wrap(a as int, b as int),
        0 <= r < b,
{
    let r = a % b;
    proof {
        lemma_truncated_rem(a, b, r);
    }
    if (r < 0 && b > 0) || (r > 0 && b < 0) {
        r + b
    } else {
        r
    }
}

/// The toroidal coordinate of `a` on an axis of length `b`:
/// `((a mod b) + b) mod b`, computed without leaving `i32`.
pub fn emod(a: i32, b: i32) -> (r: i32)
    requires
        b > 0,
    ensures
        r as int == wrap(a as int, b as int),
        0 <= r < b,
{
    let r = a % b;
    proof {
        lemma_truncated_rem(a, b, r);
    }
    if r < 0 {
        r + b
    } else {
        r
    }
}

/// One step along an axis from an in-range coordinate wraps only at the ends.
pub proof fn lemma_wrap_step(k: int, d: int, len: int)
    requires
        0 <= k < len,
        -1 <= d <= 1,
    ensures
        k + d < 0 ==> wrap(k + d, len) == len - 1,
        k + d == len ==> wrap(k + d, len) == 0,
        0 <= k + d < len ==> wrap(k + d, len) == k + d,
{
    if k + d < 0 {
        lemma_fundamental_div_mod_converse_mod(k + d, len, -1, len - 1);
    } else if k + d == len {
        lemma_fundamental_div_mod_converse_mod(k + d, len, 1, 0);
    } else {
        lemma_fundamental_div_mod_converse_mod(k + d, len, 0, k + d);
    }
}

} // verus!
