//! Splitting a control polygon into cubic Bézier segments.
use vstd::prelude::*;

verus! {

/// Number of segments that `n` control points are split into.
pub open spec fn segment_count(n: nat) -> nat {
    if n < 2 {
        0
    } else {
        ((n + 1) / 3) as nat
    }
}

/// The `i`-th segment of `n` control points: it starts at `3 * i` and takes
/// up to four points, never running past the last point.
pub open spec fn segment_range(n: nat, i: nat) -> (nat, nat) {
    (3 * i, if 3 * i + 4 <= n { 3 * i + 4 } else { n })
}

/// Splits `n` control points into cubic Bézier segments of at most 4 points.
/// Adjacent segments share their junction point (C0 continuity).
/// Returns a list of `(start, end_exclusive)` index pairs.
pub fn piecewise_segment_ranges(n: usize) -> (ranges: Vec<(usize, usize)>)
    ensures
        ranges.len() == segment_count(n as nat),
        forall|i: int|
            0 <= i < ranges.len() ==> (#[trigger] ranges@[i]).0 == segment_range(n as nat, i as nat).0
                && ranges@[i].1 == segment_range(n as nat, i as nat).1,
{
    let mut ranges: Vec<(usize, usize)> = Vec::new();
    if n < 2 {
        return ranges;
    }
    let mut start: usize = 0;
    while start < n - 1
        invariant_except_break
            2 <= n,
            start < n - 1,
            start == 3 * ranges.len(),
            forall|i: int|
                0 <= i < ranges.len() ==> (#[trigger] ranges@[i]).0 == segment_range(n as nat, i as nat).0
                    && ranges@[i].1 == segment_range(n as nat, i as nat).1,
        ensures
            ranges.len() == segment_count(n as nat),
            forall|i: int|
                0 <= i < ranges.len() ==> (#[trigger] ranges@[i]).0 == segment_range(n as nat, i as nat).0
                    && ranges@[i].1 == segment_range(n as nat, i as nat).1,
        decreases n - start,
    {
        let end: usize = if n - start > 4 { start + 4 } else { n };
        ranges.push((start, end));
        if end == n {
            assert(ranges.len() == segment_count(n as nat));
            break;
        }
        start = end - 1;
    }
    ranges
}

/// The segments of `n >= 2` control points cover every point: the first one
/// starts at the first point, the last one ends after the last point, and
/// each segment begins at the point where the previous one ends, so that
/// adjacent segments share their junction point.
pub proof fn lemma_segments_chain(n: nat)
    requires
        n >= 2,
    ensures
        segment_count(n) >= 1,
        segment_range(n, 0).0 == 0,
        segment_range(n, (segment_count(n) - 1) as nat).1 == n,
        forall|i: nat|
            i + 1 < segment_count(n) ==> #[trigger] segment_range(n, i).1 - 1 == segment_range(
                n,
                i + 1,
            ).0,
{
}

/// Every segment holds between two and four control points, and all but the
/// last one hold exactly four (a full cubic).
pub proof fn lemma_segment_sizes(n: nat)
    ensures
        forall|i: nat|
            i < segment_count(n) ==> 2 <= #[trigger] segment_range(n, i).1 - segment_range(n, i).0
                <= 4,
        forall|i: nat|
            i + 1 < segment_count(n) ==> #[trigger] segment_range(n, i).1 - segment_range(n, i).0
                == 4,
{
}

} // verus!
