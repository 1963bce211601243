use spline_viz::bezier::piecewise_segment_ranges;

#[test]
fn piecewise_ranges_small_inputs() {
    assert!(piecewise_segment_ranges(0).is_empty());
    assert!(piecewise_segment_ranges(1).is_empty());
    assert_eq!(piecewise_segment_ranges(2), vec![(0, 2)]);
    assert_eq!(piecewise_segment_ranges(4), vec![(0, 4)]);
}

#[test]
fn piecewise_ranges_junction_shared() {
    // 5 points → [(0,4),(3,5)]: point at index 3 is shared
    let r = piecewise_segment_ranges(5);
    assert_eq!(r, vec![(0, 4), (3, 5)]);
    assert_eq!(r[0].1 - 1, r[1].0); // shared junction
}

#[test]
fn piecewise_ranges_7_points() {
    let r = piecewise_segment_ranges(7);
    assert_eq!(r, vec![(0, 4), (3, 7)]);
}

#[test]
fn piecewise_ranges_three_segments() {
    assert_eq!(piecewise_segment_ranges(8), vec![(0, 4), (3, 7), (6, 8)]);
    assert_eq!(piecewise_segment_ranges(10), vec![(0, 4), (3, 7), (6, 10)]);
    assert_eq!(piecewise_segment_ranges(3), vec![(0, 3)]);
}

#[test]
fn piecewise_ranges_chain_covers_all_points() {
    for n in 2..60usize {
        let r = piecewise_segment_ranges(n);
        assert_eq!(r.len(), (n + 1) / 3);
        assert_eq!(r[0].0, 0);
        assert_eq!(r[r.len() - 1].1, n);
        for w in r.windows(2) {
            assert_eq!(w[0].1 - 1, w[1].0);
            assert_eq!(w[0].1 - w[0].0, 4);
        }
        for &(s, e) in &r {
            assert!(e - s >= 2 && e - s <= 4);
        }
    }
}
