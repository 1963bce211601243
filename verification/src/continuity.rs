//! Parametric (C) and geometric (G) continuity of a chain of curve segments.
//!
//! The measurements at each junction between two consecutive segments are
//! taken by the caller and handed in as a [`JunctionCheck`]; this module
//! decides the continuity levels, each `0`, `1` or `2`, that the whole chain
//! reaches.
use vstd::prelude::*;

verus! {

/// What was measured at the junction between two consecutive segments.
#[derive(Clone, Copy, Debug, PartialEq, Eq, Structural)]
pub struct JunctionCheck {
    /// Both segments have at least two control points; otherwise the junction
    /// is not taken into account.
    pub comparable: bool,
    /// The end of the left segment and the start of the right one coincide
    /// (C0 / G0).
    pub positions_meet: bool,
    /// The velocity vectors at the junction agree (C1).
    pub velocities_match: bool,
    /// The tangent directions at the junction agree (G1).
    pub directions_match: bool,
    /// Both segments have at least three control points, so that second
    /// derivatives exist.
    pub both_curved: bool,
    /// The acceleration vectors at the junction agree (C2).
    pub accelerations_match: bool,
    /// The signed curvatures at the junction agree (G2).
    pub curvatures_match: bool,
}

pub open spec fn min_level(a: nat, b: nat) -> nat {
    if a <= b {
        a
    } else {
        b
    }
}

/// The `(C, G)` levels that a single junction allows.
pub open spec fn junction_levels(j: JunctionCheck) -> (nat, nat) {
    if !j.comparable {
        (2, 2)
    } else if !j.positions_meet {
        (0, 0)
    } else {
        let c: nat = if j.velocities_match { 2 } else { 0 };
        let g: nat = if j.directions_match { 2 } else { 0 };
        if j.both_curved {
            (
                if j.accelerations_match { c } else { min_level(c, 1) },
                if j.curvatures_match { g } else { min_level(g, 1) },
            )
        } else {
            (min_level(c, 1), min_level(g, 1))
        }
    }
}

/// The `(C, G)` levels of a chain: the lowest level over its junctions, and
/// `2` for a chain without junctions.
pub open spec fn chain_levels(js: Seq<JunctionCheck>) -> (nat, nat)
    decreases js.len(),
{
    if js.len() == 0 {
        (2, 2)
    } else {
        let rest = chain_levels(js.drop_last());
        let last = junction_levels(js.last());
        (min_level(rest.0, last.0), min_level(rest.1, last.1))
    }
}

/// Computes the parametric (C) and geometric (G) continuity levels across all
/// segment junctions. Returns `(c_level, g_level)` where levels are 0, 1, or 2.
pub fn compute_continuity(junctions: &[JunctionCheck]) -> (levels: (u8, u8))
    ensures
        levels.0 == chain_levels(junctions@).0,
        levels.1 == chain_levels(junctions@).1,
        levels.0 <= 2 && levels.1 <= 2,
        levels.0 == 0 <==> exists|i: int|
            0 <= i < junctions.len() && (#[trigger] junctions@[i]).comparable && (
            !junctions@[i].positions_meet || !junctions@[i].velocities_match),
        levels.0 <= 1 <==> exists|i: int|
            0 <= i < junctions.len() && (#[trigger] junctions@[i]).comparable && (
            !junctions@[i].positions_meet || !junctions@[i].velocities_match
                || !junctions@[i].both_curved || !junctions@[i].accelerations_match),
        levels.1 == 0 <==> exists|i: int|
            0 <= i < junctions.len() && (#[trigger] junctions@[i]).comparable && (
            !junctions@[i].positions_meet || !junctions@[i].directions_match),
        levels.1 <= 1 <==> exists|i: int|
            0 <= i < junctions.len() && (#[trigger] junctions@[i]).comparable && (
            !junctions@[i].positions_meet || !junctions@[i].directions_match
                || !junctions@[i].both_curved || !junctions@[i].curvatures_match),
{
    let mut c_level: u8 = 2;
    let mut g_level: u8 = 2;
    let mut i: usize = 0;
    while i < junctions.len()
        invariant
            i <= junctions.len(),
            c_level == chain_levels(junctions@.take(i as int)).0,
            g_level == chain_levels(junctions@.take(i as int)).1,
        decreases junctions.len() - i,
    {
        let j = junctions[i];
        proof {
            assert(junctions@.take(i + 1).drop_last() =~= junctions@.take(i as int));
            assert(junctions@.take(i + 1).last() == j);
        }
        i = i + 1;
        if !j.comparable {
            continue;
        }
        if !j.positions_meet {
            c_level = 0;
            g_level = 0;
            continue;
        }
        if !j.velocities_match {
            c_level = 0;
        }
        if !j.directions_match {
            g_level = 0;
        }
        if j.both_curved {
            if !j.accelerations_match && c_level > 1 {
                c_level = 1;
            }
            if !j.curvatures_match && g_level > 1 {
                g_level = 1;
            }
        } else {
            if c_level > 1 {
                c_level = 1;
            }
            if g_level > 1 {
                g_level = 1;
            }
        }
    }
    proof {
        assert(junctions@.take(junctions.len() as int) =~= junctions@);
        lemma_chain_levels_characterized(junctions@);
    }
    (c_level, g_level)
}

/// The chain reaches exactly the lowest level that any of its junctions
/// allows, and level `2` when no junction lowers it; both levels are at
/// most `2`.
pub proof fn lemma_chain_is_weakest_junction(js: Seq<JunctionCheck>)
    ensures
        chain_levels(js).0 <= 2,
        chain_levels(js).1 <= 2,
        forall|i: int|
            0 <= i < js.len() ==> chain_levels(js).0 <= (#[trigger] junction_levels(js[i])).0
                && chain_levels(js).1 <= junction_levels(js[i]).1,
        chain_levels(js).0 == 2 || exists|i: int|
            0 <= i < js.len() && chain_levels(js).0 == (#[trigger] junction_levels(js[i])).0,
        chain_levels(js).1 == 2 || exists|i: int|
            0 <= i < js.len() && chain_levels(js).1 == (#[trigger] junction_levels(js[i])).1,
    decreases js.len(),
{
    if js.len() > 0 {
        let rest = js.drop_last();
        lemma_chain_is_weakest_junction(rest);
        assert forall|i: int| 0 <= i < js.len() implies chain_levels(js).0 <= (
        #[trigger] junction_levels(js[i])).0 && chain_levels(js).1 <= junction_levels(js[i]).1 by {
            if i < js.len() - 1 {
                assert(js[i] == rest[i]);
            }
        }
        if chain_levels(js).0 != 2 {
            if chain_levels(js).0 == junction_levels(js.last()).0 {
                assert(js.last() == js[js.len() - 1]);
            } else {
                let i = choose|i: int|
                    0 <= i < rest.len() && chain_levels(rest).0 == (#[trigger] junction_levels(
                        rest[i],
                    )).0;
                assert(js[i] == rest[i]);
            }
        }
        if chain_levels(js).1 != 2 {
            if chain_levels(js).1 == junction_levels(js.last()).1 {
                assert(js.last() == js[js.len() - 1]);
            } else {
                let i = choose|i: int|
                    0 <= i < rest.len() && chain_levels(rest).1 == (#[trigger] junction_levels(
                        rest[i],
                    )).1;
                assert(js[i] == rest[i]);
            }
        }
    }
}

/// A gap between the end of one segment and the start of the next anywhere in
/// the chain leaves the whole chain at C0 / G0.
pub proof fn lemma_gap_breaks_chain(js: Seq<JunctionCheck>, i: int)
    requires
        0 <= i < js.len(),
        js[i].comparable,
        !js[i].positions_meet,
    ensures
        chain_levels(js) == (0nat, 0nat),
{
    lemma_chain_is_weakest_junction(js);
    assert(junction_levels(js[i]) == (0nat, 0nat));
}

/// A junction at which every measurement agrees does not lower the level of
/// the chain it is appended to.
pub proof fn lemma_smooth_junction_keeps_levels(js: Seq<JunctionCheck>, j: JunctionCheck)
    requires
        j.positions_meet,
        j.velocities_match,
        j.directions_match,
        j.both_curved,
        j.accelerations_match,
        j.curvatures_match,
    ensures
        chain_levels(js.push(j)) == chain_levels(js),
{
    lemma_chain_is_weakest_junction(js);
    assert(js.push(j).drop_last() =~= js);
}

/// What each level of a chain means in terms of its measurements: the chain
/// is C0 exactly when some compared junction has a gap or a velocity jump, at
/// most C1 exactly when some compared junction has a gap, a velocity jump, a
/// segment without second derivative, or an acceleration jump; likewise G0
/// with gaps and direction changes, and at most G1 with gaps, direction
/// changes, straight segments or curvature jumps. Otherwise the level is 2.
pub proof fn lemma_chain_levels_characterized(js: Seq<JunctionCheck>)
    ensures
        chain_levels(js).0 <= 2 && chain_levels(js).1 <= 2,
        chain_levels(js).0 == 0 <==> exists|i: int|
            0 <= i < js.len() && (#[trigger] js[i]).comparable && (!js[i].positions_meet
                || !js[i].velocities_match),
        chain_levels(js).0 <= 1 <==> exists|i: int|
            0 <= i < js.len() && (#[trigger] js[i]).comparable && (!js[i].positions_meet
                || !js[i].velocities_match || !js[i].both_curved || !js[i].accelerations_match),
        chain_levels(js).1 == 0 <==> exists|i: int|
            0 <= i < js.len() && (#[trigger] js[i]).comparable && (!js[i].positions_meet
                || !js[i].directions_match),
        chain_levels(js).1 <= 1 <==> exists|i: int|
            0 <= i < js.len() && (#[trigger] js[i]).comparable && (!js[i].positions_meet
                || !js[i].directions_match || !js[i].both_curved || !js[i].curvatures_match),
{
    lemma_chain_is_weakest_junction(js);
    let c = chain_levels(js).0;
    let g = chain_levels(js).1;
    if c != 2 {
        let i = choose|i: int| 0 <= i < js.len() && c == (#[trigger] junction_levels(js[i])).0;
        assert(js[i].comparable && (!js[i].positions_meet || !js[i].velocities_match) ==> c
            == 0);
        assert(c <= 1 ==> js[i].comparable && (!js[i].positions_meet || !js[i].velocities_match
            || !js[i].both_curved || !js[i].accelerations_match));
        assert(c == 0 ==> js[i].comparable && (!js[i].positions_meet
            || !js[i].velocities_match));
    }
    if g != 2 {
        let i = choose|i: int| 0 <= i < js.len() && g == (#[trigger] junction_levels(js[i])).1;
        assert(g == 0 ==> js[i].comparable && (!js[i].positions_meet
            || !js[i].directions_match));
        assert(g <= 1 ==> js[i].comparable && (!js[i].positions_meet || !js[i].directions_match
            || !js[i].both_curved || !js[i].curvatures_match));
    }
    assert forall|i: int|
        0 <= i < js.len() && (#[trigger] js[i]).comparable && (!js[i].positions_meet
            || !js[i].velocities_match) implies c == 0 by {
        assert(c <= junction_levels(js[i]).0);
    }
    assert forall|i: int|
        0 <= i < js.len() && (#[trigger] js[i]).comparable && (!js[i].positions_meet
            || !js[i].velocities_match || !js[i].both_curved
            || !js[i].accelerations_match) implies c <= 1 by {
        assert(c <= junction_levels(js[i]).0);
    }
    assert forall|i: int|
        0 <= i < js.len() && (#[trigger] js[i]).comparable && (!js[i].positions_meet
            || !js[i].directions_match) implies g == 0 by {
        assert(g <= junction_levels(js[i]).1);
    }
    assert forall|i: int|
        0 <= i < js.len() && (#[trigger] js[i]).comparable && (!js[i].positions_meet
            || !js[i].directions_match || !js[i].both_curved
            || !js[i].curvatures_match) implies g <= 1 by {
        assert(g <= junction_levels(js[i]).1);
    }
}

} // verus!
