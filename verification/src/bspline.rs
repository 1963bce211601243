//! The clamped uniform knot vector of a cubic B-spline.
//!
//! Knots are rational numbers in `[0, 1]`; each one is kept exactly as a
//! numerator over a positive denominator.
use vstd::prelude::*;
use vstd::arithmetic::mul::lemma_mul_inequality;

verus! {

/// Degree of the B-splines this module builds knots for.
pub const DEGREE: usize = 3;

/// A knot value `num / den`, with `den > 0`.
#[derive(Clone, Copy, Debug, PartialEq, Eq, Structural)]
pub struct KnotFraction {
    pub num: usize,
    pub den: usize,
}

/// Knot `i` of the clamped uniform cubic knot vector for `n` control points,
/// as `(numerator, denominator)`: the first four knots are `0`, the knots from
/// index `n` on are `1`, and the interior knots are spaced evenly,
/// `(i - 3) / (n - 3)`.
pub open spec fn clamped_knot(n: nat, i: nat) -> (nat, nat) {
    if i <= 3 {
        (0, 1)
    } else if i >= n {
        (1, 1)
    } else {
        ((i - 3) as nat, (n - 3) as nat)
    }
}

/// Generates a clamped uniform knot vector for a degree-3 B-spline with `n`
/// control points. Returns `n + 4` knots.
pub fn clamped_knots(n: usize) -> (knots: Vec<KnotFraction>)
    requires
        n >= DEGREE,
        n + DEGREE + 1 <= usize::MAX,
    ensures
        knots.len() == n + 4,
        forall|i: int|
            0 <= i < knots.len() ==> (#[trigger] knots@[i]).num == clamped_knot(n as nat, i as nat).0
                && knots@[i].den == clamped_knot(n as nat, i as nat).1,
{
    let p: usize = DEGREE;
    let m: usize = n + p;
    let n_spans: usize = n - p;
    let mut knots: Vec<KnotFraction> = Vec::new();
    let mut i: usize = 0;
    while i <= m
        invariant
            p == 3,
            m == n + 3,
            n_spans == n - 3,
            m + 1 <= usize::MAX,
            i <= m + 1,
            knots.len() == i,
            forall|k: int|
                0 <= k < knots.len() ==> (#[trigger] knots@[k]).num == clamped_knot(n as nat, k as nat).0
                    && knots@[k].den == clamped_knot(n as nat, k as nat).1,
        decreases m + 1 - i,
    {
        let knot = if i <= p {
            KnotFraction { num: 0, den: 1 }
        } else if i >= n {
            KnotFraction { num: 1, den: 1 }
        } else {
            KnotFraction { num: i - p, den: n_spans }
        };
        knots.push(knot);
        i = i + 1;
    }
    knots
}

/// For `n >= 4` control points the knot vector is clamped: its first four
/// knots are `0` and its last four knots are `1`; every knot lies in `[0, 1]`
/// with a positive denominator.
pub proof fn lemma_knots_clamped(n: nat)
    requires
        n >= 4,
    ensures
        forall|i: nat| i < 4 ==> (#[trigger] clamped_knot(n, i)).0 == 0,
        forall|i: nat| n <= i < n + 4 ==> (#[trigger] clamped_knot(n, i)).0 == clamped_knot(n, i).1,
        forall|i: nat|
            i < n + 4 ==> 0 < (#[trigger] clamped_knot(n, i)).1 && clamped_knot(n, i).0 <= clamped_knot(
                n,
                i,
            ).1,
{
}

/// The knot vector is non-decreasing: for `i <= j`, knot `i` is at most
/// knot `j` (compared as fractions by cross-multiplication).
pub proof fn lemma_knots_nondecreasing(n: nat, i: nat, j: nat)
    requires
        n >= 3,
        i <= j < n + 4,
    ensures
        clamped_knot(n, i).0 * clamped_knot(n, j).1 <= clamped_knot(n, j).0 * clamped_knot(n, i).1,
{
    let (a, b) = clamped_knot(n, i);
    let (c, d) = clamped_knot(n, j);
    if 3 < i && i < n && 3 < j && j < n {
        lemma_mul_inequality(a as int, c as int, (n - 3) as int);
    } else if i <= 3 {
        assert(a == 0 && b == 1);
        assert(a * d <= c * b) by (nonlinear_arith)
            requires
                a == 0,
                b == 1,
        ;
    } else if i < n {
        assert(c == 1 && d == 1 && a <= b);
        assert(a * d <= c * b) by (nonlinear_arith)
            requires
                c == 1,
                d == 1,
                a <= b,
        ;
    } else {
        assert(a == 1 && b == 1 && c == 1 && d == 1);
    }
}

/// The interior knots are evenly spaced: consecutive knots below index `n`
/// after the first four differ by exactly `1 / (n - 3)`.
pub proof fn lemma_knots_uniform(n: nat, i: nat)
    requires
        3 <= i,
        i + 1 < n,
    ensures
        clamped_knot(n, i + 1).1 == n - 3,
        clamped_knot(n, i).1 == n - 3 || i == 3,
        clamped_knot(n, i + 1).0 == clamped_knot(n, i).0 + 1,
{
}

} // verus!
