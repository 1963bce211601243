//! Sampling schedule of a piecewise cubic Hermite curve.
use vstd::prelude::*;
use vstd::arithmetic::div_mod::lemma_fundamental_div_mod_converse;
use vstd::arithmetic::mul::{lemma_mul_inequality, lemma_mul_is_distributive_add_other_way};

verus! {

/// The `k`-th sample of a curve with `n_segs` segments sampled `resolution`
/// times per segment, as `(segment, step)`: the curve is evaluated at local
/// parameter `step / resolution` of `segment`. Each segment contributes the
/// steps `0 .. resolution`, and the last one also its end point, step
/// `resolution`, which is the final sample.
pub open spec fn scheduled_sample(n_segs: nat, resolution: nat, k: nat) -> (nat, nat) {
    if k == n_segs * resolution {
        ((n_segs - 1) as nat, resolution)
    } else {
        (k / resolution, k % resolution)
    }
}

/// Number of samples taken of a curve through `n_points` points.
pub open spec fn sample_count(n_points: nat, resolution: nat) -> nat {
    if n_points < 2 {
        0
    } else {
        ((n_points - 1) * resolution + 1) as nat
    }
}

/// The order in which the piecewise Hermite curve through `n_points` points is
/// sampled, `resolution` evenly spaced steps per segment: returns the
/// `(segment, step)` pairs, one per sample. Junction points are sampled once,
/// as the start of the following segment, and the curve's end point is the
/// last sample.
pub fn sample_schedule(n_points: usize, resolution: usize) -> (plan: Vec<(usize, usize)>)
    requires
        n_points < 2 || (n_points - 1) * resolution + 1 <= usize::MAX,
    ensures
        plan.len() == sample_count(n_points as nat, resolution as nat),
        forall|k: int|
            0 <= k < plan.len() ==> (#[trigger] plan@[k]).0 == scheduled_sample(
                (n_points - 1) as nat,
                resolution as nat,
                k as nat,
            ).0 && plan@[k].1 == scheduled_sample(
                (n_points - 1) as nat,
                resolution as nat,
                k as nat,
            ).1,
        n_points >= 2 ==> forall|k: int|
            0 <= k < (n_points - 1) * resolution ==> (#[trigger] plan@[k]).0 == k / (
            resolution as int) && plan@[k].1 == k % (resolution as int),
        n_points >= 2 ==> plan@[(n_points - 1) * resolution].0 == n_points - 2
            && plan@[(n_points - 1) * resolution].1 == resolution,
{
    let mut plan: Vec<(usize, usize)> = Vec::new();
    if n_points < 2 {
        return plan;
    }
    let n_segs: usize = n_points - 1;
    let ghost res = resolution as nat;
    proof {
        lemma_mul_inequality(1, n_segs as int, resolution as int);
    }
    let mut seg: usize = 0;
    while seg < n_segs
        invariant
            n_segs == n_points - 1,
            n_segs >= 1,
            res == resolution,
            n_segs * res + 1 <= usize::MAX,
            res + 1 <= usize::MAX,
            seg <= n_segs,
            plan.len() == seg * res + if seg == n_segs { 1int } else { 0int },
            forall|k: int|
                0 <= k < plan.len() ==> (#[trigger] plan@[k]).0 == scheduled_sample(
                    n_segs as nat,
                    res,
                    k as nat,
                ).0 && plan@[k].1 == scheduled_sample(n_segs as nat, res, k as nat).1,
        decreases n_segs - seg,
    {
        let steps: usize = if seg == n_segs - 1 {
            resolution + 1
        } else {
            resolution
        };
        let mut j: usize = 0;
        while j < steps
            invariant
                n_segs == n_points - 1,
                n_segs >= 1,
                res == resolution,
                n_segs * res + 1 <= usize::MAX,
                seg < n_segs,
                steps == if seg == n_segs - 1 { res + 1 } else { res },
                j <= steps,
                plan.len() == seg * res + j,
                forall|k: int|
                    0 <= k < plan.len() ==> (#[trigger] plan@[k]).0 == scheduled_sample(
                        n_segs as nat,
                        res,
                        k as nat,
                    ).0 && plan@[k].1 == scheduled_sample(n_segs as nat, res, k as nat).1,
            decreases steps - j,
        {
            let ghost k = (seg * res + j) as nat;
            proof {
                lemma_mul_is_distributive_add_other_way(res as int, seg as int, 1);
                lemma_mul_inequality(seg + 1, n_segs as int, res as int);
                if j < res {
                    lemma_fundamental_div_mod_converse(k as int, res as int, seg as int, j as int);
                    assert(k < n_segs * res);
                } else {
                    assert(seg == n_segs - 1);
                    assert(k == n_segs * res);
                }
            }
            plan.push((seg, j));
            j = j + 1;
        }
        proof {
            lemma_mul_is_distributive_add_other_way(res as int, seg as int, 1);
        }
        seg = seg + 1;
    }
    proof {
        assert forall|k: int| 0 <= k < (n_points - 1) * resolution implies (#[trigger] plan@[k]).0
            == k / (resolution as int) && plan@[k].1 == k % (resolution as int) by {
            assert(k != n_segs * res);
        }
    }
    plan
}

/// Every scheduled sample names an existing segment and a step within
/// `0 ..= resolution`, so the local parameter `step / resolution` lies in
/// `[0, 1]` and both end points `segment` and `segment + 1` of the segment are
/// points of the curve.
pub proof fn lemma_schedule_in_bounds(n_segs: nat, resolution: nat, k: nat)
    requires
        n_segs >= 1,
        k <= n_segs * resolution,
    ensures
        scheduled_sample(n_segs, resolution, k).0 < n_segs,
        scheduled_sample(n_segs, resolution, k).1 <= resolution,
{
    if k < n_segs * resolution {
        assert(resolution > 0) by (nonlinear_arith)
            requires
                k < n_segs * resolution,
        ;
        lemma_quotient_below(k, n_segs, resolution);
    }
}

proof fn lemma_quotient_below(k: nat, n_segs: nat, resolution: nat)
    requires
        resolution > 0,
        k < n_segs * resolution,
    ensures
        k / resolution < n_segs,
        k % resolution < resolution,
{
    assert(k / resolution < n_segs && k % resolution < resolution) by (nonlinear_arith)
        requires
            resolution > 0,
            k < n_segs * resolution,
    ;
}

/// With at least one step per segment, the schedule starts at the start of the
/// first segment and ends at the end of the last one.
pub proof fn lemma_schedule_endpoints(n_segs: nat, resolution: nat)
    requires
        n_segs >= 1,
        resolution >= 1,
    ensures
        scheduled_sample(n_segs, resolution, 0) == (0nat, 0nat),
        scheduled_sample(n_segs, resolution, n_segs * resolution) == ((n_segs - 1) as nat, resolution),
{
    lemma_mul_inequality(1, n_segs as int, resolution as int);
}

/// Consecutive samples walk forward along the curve: the next sample is the
/// next step of the same segment, or, after the segment's last step below
/// `resolution`, the first step of the following segment.
pub proof fn lemma_schedule_in_order(n_segs: nat, resolution: nat, k: nat)
    requires
        resolution >= 1,
        k + 1 <= n_segs * resolution,
    ensures
        ({
            let a = scheduled_sample(n_segs, resolution, k);
            let b = scheduled_sample(n_segs, resolution, k + 1);
            (b.0 == a.0 && b.1 == a.1 + 1) || (b.0 == a.0 + 1 && b.1 == 0 && a.1 + 1
                == resolution)
        }),
{
    let q = k / resolution;
    let r = k % resolution;
    lemma_quotient_below(k, n_segs, resolution);
    vstd::arithmetic::div_mod::lemma_fundamental_div_mod(k as int, resolution as int);
    if r + 1 < resolution {
        lemma_fundamental_div_mod_converse((k + 1) as int, resolution as int, q as int, (r + 1) as int);
        if k + 1 == n_segs * resolution {
            assert(q * resolution + r + 1 == n_segs * resolution);
            assert(false) by (nonlinear_arith)
                requires
                    q * resolution + r + 1 == n_segs * resolution,
                    r + 1 < resolution,
                    q < n_segs,
                    0 <= r,
            ;
        }
    } else {
        lemma_mul_is_distributive_add_other_way(resolution as int, q as int, 1);
        assert(k + 1 == (q + 1) * resolution) by (nonlinear_arith)
            requires
                k == resolution * q + r,
                r + 1 == resolution,
                (q + 1) * resolution == q * resolution + resolution,
        ;
        lemma_fundamental_div_mod_converse((k + 1) as int, resolution as int, (q + 1) as int, 0);
        if k + 1 == n_segs * resolution {
            assert(q + 1 == n_segs) by (nonlinear_arith)
                requires
                    (q + 1) * resolution == n_segs * resolution,
                    resolution >= 1,
            ;
        }
    }
}

} // verus!
