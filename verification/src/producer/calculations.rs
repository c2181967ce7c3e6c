//! The yield engine's decision policy.
//!
//! The numeric side of the engine — assembling the yearly cash flows and
//! finding the roots of their polynomial through a companion-matrix
//! eigendecomposition — runs on floating point outside the library. What
//! comes back is the list of real roots, scaled to millionths; this module
//! holds the verified policy that turns that list into the one reported
//! yield: which roots count, which of several wins, and the band outside
//! which the engine reports zero.

use vstd::prelude::*;

verus! {

/// Rates are fixed-point numbers in millionths: `RATE_SCALE` units are 1.0,
/// i.e. a yield of 100 percent.
pub const RATE_SCALE: i64 = 1_000_000;

/// The sane band for a computed yield: half of `RATE_SCALE` on either side,
/// i.e. fifty percent.
pub const IRR_CLAMP_LIMIT: i64 = 500_000;

/// The absolute value, exact over `int`.
pub open spec fn abs_val(v: i64) -> int {
    if v >= 0 {
        v as int
    } else {
        -(v as int)
    }
}

/// The roots an IRR may come from: those at or above -1.0 (scaled).
pub open spec fn spec_valid_roots(roots: Seq<i64>) -> Seq<i64>
    decreases roots.len(),
{
    if roots.len() == 0 {
        Seq::empty()
    } else {
        let rest = spec_valid_roots(roots.drop_last());
        if roots.last() >= -RATE_SCALE {
            rest.push(roots.last())
        } else {
            rest
        }
    }
}

/// The winning root of a non-empty candidate list: the first one whose
/// absolute value is smallest.
pub open spec fn spec_best_root(s: Seq<i64>) -> i64
    decreases s.len(),
{
    if s.len() <= 1 {
        s[0]
    } else {
        let b = spec_best_root(s.drop_last());
        if abs_val(s.last()) < abs_val(b) {
            s.last()
        } else {
            b
        }
    }
}

/// What the root list resolves to: no valid root means no rate; otherwise the
/// winning root, shifted by -1.0 to turn a discount factor into a rate.
pub open spec fn spec_selected_rate(roots: Seq<i64>) -> Option<i64> {
    let valid = spec_valid_roots(roots);
    if valid.len() == 0 {
        None
    } else {
        Some((spec_best_root(valid) - RATE_SCALE) as i64)
    }
}

/// Selects the internal rate of return among the polynomial's real roots,
/// all scaled to millionths.
///
/// Roots below -1.0 are discarded; of those left, the first with the
/// smallest absolute value wins and is shifted by -1.0 into a rate. An empty
/// candidate list yields `None`.
pub fn select_irr_root(roots: &Vec<i64>) -> (r: Option<i64>)
    requires
        forall|k: int| 0 <= k < roots@.len() ==> i64::MIN < #[trigger] roots@[k] <= i64::MAX - RATE_SCALE,
    ensures
        r == spec_selected_rate(roots@),
{
    let n = roots.len();
    let mut potential_roots: Vec<i64> = Vec::new();
    let mut i: usize = 0;
    while i < n
        invariant
            n == roots@.len(),
            0 <= i <= n,
            potential_roots@ == spec_valid_roots(roots@.take(i as int)),
            forall|k: int|
                0 <= k < roots@.len() ==> i64::MIN < #[trigger] roots@[k] <= i64::MAX - RATE_SCALE,
        decreases n - i,
    {
        proof {
            assert(roots@.take(i + 1).drop_last() =~= roots@.take(i as int));
            assert(roots@.take(i + 1).last() == roots@[i as int]);
        }
        if roots[i] >= -RATE_SCALE {
            potential_roots.push(roots[i]);
        }
        i += 1;
    }
    proof {
        assert(roots@.take(n as int) =~= roots@);
        lemma_valid_roots_bounds(roots@);
    }

    if potential_roots.len() == 0 {
        return None;
    }

    let m = potential_roots.len();
    let mut best: i64 = potential_roots[0];
    let mut j: usize = 1;
    proof {
        assert(potential_roots@.take(1).drop_last() =~= potential_roots@.take(0));
        assert(best == spec_best_root(potential_roots@.take(1)));
    }
    while j < m
        invariant
            m == potential_roots@.len(),
            1 <= j <= m,
            best == spec_best_root(potential_roots@.take(j as int)),
            potential_roots@.contains(best),
            forall|k: int|
                0 <= k < potential_roots@.len() ==> -RATE_SCALE <= #[trigger] potential_roots@[k]
                    <= i64::MAX - RATE_SCALE,
        decreases m - j,
    {
        proof {
            assert(potential_roots@.take(j + 1).drop_last() =~= potential_roots@.take(j as int));
            assert(potential_roots@.take(j + 1).last() == potential_roots@[j as int]);
        }
        proof {
            let k = choose|k: int|
                0 <= k < potential_roots@.len() && potential_roots@[k] == best;
            assert(-RATE_SCALE <= potential_roots@[k] <= i64::MAX - RATE_SCALE);
        }
        let candidate = potential_roots[j];
        let cand_abs = if candidate >= 0 {
            candidate
        } else {
            -candidate
        };
        let best_abs = if best >= 0 {
            best
        } else {
            -best
        };
        if cand_abs < best_abs {
            best = candidate;
            proof {
                assert(potential_roots@.take(j + 1).contains(best)) by {
                    assert(potential_roots@.take(j + 1)[j as int] == best);
                }
            }
        }
        proof {
            let taken = potential_roots@.take(j + 1);
            if taken.contains(best) {
                let k = choose|k: int| 0 <= k < taken.len() && taken[k] == best;
                assert(potential_roots@[k] == best);
            }
        }
        j += 1;
    }
    proof {
        assert(potential_roots@.take(m as int) =~= potential_roots@);
        let k = choose|k: int| 0 <= k < potential_roots@.len() && potential_roots@[k] == best;
        assert(-RATE_SCALE <= potential_roots@[k] <= i64::MAX - RATE_SCALE);
    }
    Some(best - RATE_SCALE)
}

/// Every root the validity filter keeps stays within the input's bounds.
proof fn lemma_valid_roots_bounds(roots: Seq<i64>)
    requires
        forall|k: int| 0 <= k < roots.len() ==> i64::MIN < #[trigger] roots[k] <= i64::MAX - RATE_SCALE,
    ensures
        forall|k: int|
            0 <= k < spec_valid_roots(roots).len() ==> -RATE_SCALE <= #[trigger] spec_valid_roots(
                roots,
            )[k] <= i64::MAX - RATE_SCALE,
    decreases roots.len(),
{
    if roots.len() > 0 {
        assert(forall|k: int| 0 <= k < roots.len() - 1 ==> roots.drop_last()[k] == roots[k]);
        lemma_valid_roots_bounds(roots.drop_last());
        let v = spec_valid_roots(roots);
        let vr = spec_valid_roots(roots.drop_last());
        assert(roots.last() == roots[roots.len() - 1]);
        if roots.last() >= -RATE_SCALE {
            assert(v == vr.push(roots.last()));
            assert forall|k: int|
                0 <= k < v.len() implies -RATE_SCALE <= #[trigger] v[k] <= i64::MAX - RATE_SCALE by {
                if k < vr.len() {
                    assert(v[k] == vr[k]);
                } else {
                    assert(v[k] == roots.last());
                }
            }
        }
    }
}

/// The clamp rule on a computed yield.
pub open spec fn spec_clamp_irr(irr: i64) -> i64 {
    if -IRR_CLAMP_LIMIT <= irr <= IRR_CLAMP_LIMIT {
        irr
    } else {
        0
    }
}

/// Clamps a computed yield to the sane band: any rate outside plus or minus
/// fifty percent comes back as exactly zero, a conservative "unreliable"
/// signal, and any rate inside comes back unchanged.
pub fn clamp_irr(irr: i64) -> (r: i64)
    ensures
        r == spec_clamp_irr(irr),
        -IRR_CLAMP_LIMIT <= irr <= IRR_CLAMP_LIMIT ==> r == irr,
        !(-IRR_CLAMP_LIMIT <= irr <= IRR_CLAMP_LIMIT) ==> r == 0,
{
    if -IRR_CLAMP_LIMIT <= irr && irr <= IRR_CLAMP_LIMIT {
        irr
    } else {
        0
    }
}

/// The engine's whole policy after the numeric root-finding: select a rate
/// among the real roots — zero when none is valid — and clamp it to the sane
/// band.
pub fn clamped_irr_from_roots(roots: &Vec<i64>) -> (r: i64)
    requires
        forall|k: int| 0 <= k < roots@.len() ==> i64::MIN < #[trigger] roots@[k] <= i64::MAX - RATE_SCALE,
    ensures
        r == spec_clamp_irr(
            match spec_selected_rate(roots@) {
                Some(rate) => rate,
                None => 0,
            },
        ),
{
    let rate = match select_irr_root(roots) {
        Some(rate) => rate,
        None => 0,
    };
    clamp_irr(rate)
}

} // verus!
