use spline_viz::hermite::sample_schedule;

#[test]
fn schedule_too_few_points_is_empty() {
    assert!(sample_schedule(0, 10).is_empty());
    assert!(sample_schedule(1, 10).is_empty());
}

#[test]
fn schedule_single_segment() {
    assert_eq!(sample_schedule(2, 3), vec![(0, 0), (0, 1), (0, 2), (0, 3)]);
}

#[test]
fn schedule_two_segments_share_junction_once() {
    assert_eq!(
        sample_schedule(3, 2),
        vec![(0, 0), (0, 1), (1, 0), (1, 1), (1, 2)]
    );
}

#[test]
fn schedule_count_matches_capacity() {
    for n in 2..8usize {
        for res in 0..6usize {
            let plan = sample_schedule(n, res);
            assert_eq!(plan.len(), (n - 1) * res + 1);
            assert_eq!(*plan.last().unwrap(), (n - 2, res));
            for &(seg, step) in &plan {
                assert!(seg < n - 1 && step <= res);
            }
        }
    }
}

#[test]
fn schedule_zero_resolution_samples_last_segment_start() {
    assert_eq!(sample_schedule(4, 0), vec![(2, 0)]);
}
