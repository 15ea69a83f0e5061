use vstd::prelude::*;
use vstd::arithmetic::div_mod::{lemma_div_is_ordered, lemma_div_multiples_vanish, lemma_div_pos_is_pos};
use vstd::arithmetic::mul::{lemma_mul_inequality, lemma_mul_is_commutative, lemma_mul_nonnegative, lemma_mul_upper_bound};
use crate::vault::{Vault, AMOUNT_LIMIT, Milestone, milestones_wf, unlocked_percent_sum, lemma_unlocked_le_percent, lemma_percent_sum_take};

verus! {

/// The amount of the vault's principal unlocked by its schedule at time `at`,
/// irrespective of how much has been claimed.
///
/// Before the start nothing is vested; from the end everything is, which also
/// caps any truncation loss of the stepped math. Between the two, a non-empty
/// milestone list overrides time entirely; otherwise a zero step means
/// continuous linear vesting and a positive step means periodic vesting
/// (lockup-only when the step spans the whole schedule). All divisions floor.
pub open spec fn vested_spec(v: Vault, at: u64) -> int {
    if at < v.start_time {
        0
    } else if at >= v.end_time {
        v.total_amount as int
    } else if v.milestones@.len() > 0 {
        v.total_amount * unlocked_percent_sum(v.milestones@) / 100
    } else if v.step_duration == 0 {
        v.total_amount * (at - v.start_time) / (v.end_time - v.start_time)
    } else {
        let total_steps = (v.end_time - v.start_time) / (v.step_duration as int);
        let elapsed_steps = (at - v.start_time) / (v.step_duration as int);
        let steps = if elapsed_steps < total_steps {
            elapsed_steps
        } else {
            total_steps
        };
        v.total_amount * steps / total_steps
    }
}

/// What the vault still owes its beneficiary at time `at`: the vested amount
/// net of what was already released, and never negative.
pub open spec fn claimable_spec(v: Vault, at: u64) -> int {
    if vested_spec(v, at) >= v.released_amount {
        vested_spec(v, at) - v.released_amount
    } else {
        0
    }
}

/// For non-negative `a` and `0 <= b <= c`, the floored product share
/// `a * b / c` stays between 0 and `a`.
proof fn lemma_mul_div_bound(a: int, b: int, c: int)
    requires
        0 <= a,
        0 <= b <= c,
        1 <= c,
    ensures
        0 <= a * b / c <= a,
{
    lemma_mul_nonnegative(a, b);
    lemma_div_pos_is_pos(a * b, c);
    lemma_mul_inequality(b, c, a);
    lemma_mul_is_commutative(a, b);
    lemma_mul_is_commutative(a, c);
    lemma_div_is_ordered(a * b, a * c, c);
    lemma_mul_is_commutative(c, a);
    lemma_div_multiples_vanish(a, c);
}

/// A stepped schedule always spans at least one full step.
proof fn lemma_total_steps_at_least_one(span: int, step: int)
    requires
        1 <= step <= span,
    ensures
        span / step >= 1,
{
    lemma_div_is_ordered(step, span, step);
    lemma_div_multiples_vanish(1, step);
}

/// Cap of the schedule: the vested amount always lies between 0 and the
/// vault's principal.
pub proof fn lemma_vested_bounds(v: Vault, at: u64)
    requires
        v.wf(),
    ensures
        0 <= vested_spec(v, at) <= v.total_amount,
{
    if at < v.start_time {
    } else if at >= v.end_time {
    } else if v.milestones@.len() > 0 {
        lemma_unlocked_le_percent(v.milestones@);
        lemma_mul_div_bound(v.total_amount as int, unlocked_percent_sum(v.milestones@), 100);
    } else if v.step_duration == 0 {
        lemma_mul_div_bound(
            v.total_amount as int,
            at - v.start_time,
            v.end_time - v.start_time,
        );
    } else {
        let step = v.step_duration as int;
        let total_steps = (v.end_time - v.start_time) / step;
        let elapsed_steps = (at - v.start_time) / step;
        lemma_total_steps_at_least_one(v.end_time - v.start_time, step);
        lemma_div_pos_is_pos(at - v.start_time, step);
        let steps = if elapsed_steps < total_steps {
            elapsed_steps
        } else {
            total_steps
        };
        lemma_mul_div_bound(v.total_amount as int, steps, total_steps);
    }
}

/// Time boundaries of the schedule: nothing is vested before the start, and
/// the whole principal is vested at the end and at every later time.
pub proof fn lemma_time_boundaries(v: Vault, at: u64)
    requires
        v.wf(),
    ensures
        at < v.start_time ==> vested_spec(v, at) == 0,
        at >= v.end_time ==> vested_spec(v, at) == v.total_amount,
{
}

/// Cap of the release accounting: the claimable amount is never negative and
/// never exceeds the unreleased remainder of the principal.
pub proof fn lemma_claimable_bounds(v: Vault, at: u64)
    requires
        v.wf(),
    ensures
        0 <= claimable_spec(v, at),
        claimable_spec(v, at) <= v.total_amount - v.released_amount,
        v.released_amount <= v.total_amount,
{
    lemma_vested_bounds(v, at);
}

/// Sums the percentages of the unlocked milestones of a well-formed list.
fn unlocked_percent(ms: &Vec<Milestone>) -> (r: u32)
    requires
        milestones_wf(ms@),
    ensures
        r == unlocked_percent_sum(ms@),
        r <= 100,
{
    let mut sum: u32 = 0;
    let mut i: usize = 0;
    while i < ms.len()
        invariant
            i <= ms.len(),
            milestones_wf(ms@),
            sum == unlocked_percent_sum(ms@.take(i as int)),
            sum <= 100,
        decreases ms.len() - i,
    {
        proof {
            assert(ms@.take(i + 1).drop_last() =~= ms@.take(i as int));
            assert(ms@.take(i + 1).last() == ms@[i as int]);
            lemma_unlocked_le_percent(ms@.take(i + 1));
            lemma_percent_sum_take(ms@, i + 1);
        }
        if ms[i].is_unlocked {
            sum = sum + ms[i].percentage;
        }
        i = i + 1;
    }
    proof {
        assert(ms@.take(ms@.len() as int) =~= ms@);
    }
    sum
}

/// Computes the vested amount of the schedule at time `at`.
pub fn vested(v: &Vault, at: u64) -> (r: i128)
    requires
        v.wf(),
    ensures
        r == vested_spec(*v, at),
        0 <= r <= v.total_amount,
{
    proof {
        lemma_vested_bounds(*v, at);
    }
    if at < v.start_time {
        0
    } else if at >= v.end_time {
        v.total_amount
    } else if v.milestones.len() > 0 {
        let pct = unlocked_percent(&v.milestones);
        proof {
            lemma_mul_upper_bound(v.total_amount as int, AMOUNT_LIMIT as int, pct as int, 100);
        }
        let num: u128 = (v.total_amount as u128) * (pct as u128);
        (num / 100) as i128
    } else if v.step_duration == 0 {
        let span: u64 = v.end_time - v.start_time;
        let elapsed: u64 = at - v.start_time;
        proof {
            lemma_mul_upper_bound(
                v.total_amount as int,
                AMOUNT_LIMIT as int,
                elapsed as int,
                u64::MAX as int,
            );
        }
        let num: u128 = (v.total_amount as u128) * (elapsed as u128);
        (num / (span as u128)) as i128
    } else {
        let span: u64 = v.end_time - v.start_time;
        let total_steps: u64 = span / v.step_duration;
        let elapsed_steps: u64 = (at - v.start_time) / v.step_duration;
        let steps: u64 = if elapsed_steps < total_steps {
            elapsed_steps
        } else {
            total_steps
        };
        proof {
            lemma_total_steps_at_least_one(span as int, v.step_duration as int);
            lemma_mul_upper_bound(
                v.total_amount as int,
                AMOUNT_LIMIT as int,
                steps as int,
                u64::MAX as int,
            );
        }
        let num: u128 = (v.total_amount as u128) * (steps as u128);
        (num / (total_steps as u128)) as i128
    }
}

/// Computes the claimable amount of the vault at time `at`.
pub fn claimable(v: &Vault, at: u64) -> (r: i128)
    requires
        v.wf(),
    ensures
        r == claimable_spec(*v, at),
        0 <= r <= v.total_amount - v.released_amount,
{
    let ves = vested(v, at);
    if ves >= v.released_amount {
        ves - v.released_amount
    } else {
        0
    }
}

} // verus!
