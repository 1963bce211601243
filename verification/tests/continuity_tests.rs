use spline_viz::continuity::{compute_continuity, JunctionCheck};

/// A junction between two cubic segments with the given measurement outcomes.
fn cubic_junction(
    positions_meet: bool,
    velocities_match: bool,
    directions_match: bool,
    accelerations_match: bool,
    curvatures_match: bool,
) -> JunctionCheck {
    JunctionCheck {
        comparable: true,
        positions_meet,
        velocities_match,
        directions_match,
        both_curved: true,
        accelerations_match,
        curvatures_match,
    }
}

fn smooth() -> JunctionCheck {
    cubic_junction(true, true, true, true, true)
}

#[test]
fn single_segment_is_c2_g2() {
    // one segment (0,0),(1,1),(2,1),(3,0) has no junction
    assert_eq!(compute_continuity(&[]), (2, 2));
}

#[test]
fn empty_is_c2_g2() {
    assert_eq!(compute_continuity(&[]), (2, 2));
}

#[test]
fn collinear_segments_equal_velocity_are_c2() {
    // (0,0)..(3,0) then (3,0)..(6,0): every measurement agrees at the junction
    let (c, g) = compute_continuity(&[smooth()]);
    assert!(c >= 2, "expected C2, got C{c}");
    assert!(g >= 2, "expected G2, got G{g}");
}

#[test]
fn perpendicular_tangents_at_junction_are_c0_only() {
    // moving right into moving up: positions meet, velocities, directions and
    // accelerations differ, both curvatures are zero
    let j = cubic_junction(true, false, false, false, true);
    let (c, g) = compute_continuity(&[j]);
    assert_eq!(c, 0, "expected C0");
    assert_eq!(g, 0, "expected G0");
}

#[test]
fn matching_direction_different_speed_is_g1_not_c1() {
    // speeds 0.3 and 3 in the same direction, straight segments
    let j = cubic_junction(true, false, true, true, true);
    let (c, g) = compute_continuity(&[j]);
    assert_eq!(c, 0, "expected C0 (speeds differ)");
    assert!(g >= 1, "expected at least G1 (directions match)");
}

#[test]
fn c1_but_not_c2_curvature_jump() {
    // velocity (3,0) on both sides; acceleration (0,0) against (-6,6),
    // curvature 0 against 2/3
    let j = cubic_junction(true, true, true, false, false);
    let (c, g) = compute_continuity(&[j]);
    assert_eq!(c, 1, "expected C1");
    assert_eq!(g, 1, "expected G1");
}

#[test]
fn position_gap_anywhere_gives_c0_g0() {
    let gap = cubic_junction(false, true, true, true, true);
    assert_eq!(compute_continuity(&[smooth(), gap, smooth()]), (0, 0));
}

#[test]
fn incomparable_junction_is_ignored() {
    let mut j = cubic_junction(false, false, false, false, false);
    j.comparable = false;
    assert_eq!(compute_continuity(&[j, smooth()]), (2, 2));
}

#[test]
fn non_cubic_junction_caps_at_one() {
    let mut j = smooth();
    j.both_curved = false;
    assert_eq!(compute_continuity(&[smooth(), j]), (1, 1));
}

#[test]
fn chain_takes_weakest_junction() {
    let g_only = cubic_junction(true, false, true, true, true);
    let c1 = cubic_junction(true, true, true, false, true);
    assert_eq!(compute_continuity(&[c1, smooth()]), (1, 2));
    assert_eq!(compute_continuity(&[c1, g_only]), (0, 2));
}
