use vstd::prelude::*;

verus! {

/// Every amount the ledger tracks (a vault's principal, the running
/// allocation, a token balance, the initial supply) is kept within this bound
/// so that the schedule and yield arithmetic stays inside `i128`.
pub const AMOUNT_LIMIT: i128 = 9_223_372_036_854_775_807;

/// Length of the window after a vault's creation during which the admin may
/// claw the whole principal back, in ledger time units.
pub const GRACE_PERIOD: u64 = 3600;

/// One milestone of a milestone-gated vault. Ids are caller-supplied and
/// unique within the vault's list; `percentage` is the share of the principal
/// this milestone releases once unlocked.
#[derive(Clone, Copy, Debug, PartialEq, Eq, Structural)]
pub struct Milestone {
    pub id: u64,
    pub percentage: u32,
    pub is_unlocked: bool,
}

/// One vesting grant: a principal amount released to `owner` over
/// `[start_time, end_time]` according to `step_duration`, or gated entirely by
/// `milestones` when that list is non-empty.
#[derive(Debug)]
pub struct Vault {
    /// Unique, dense, 1-based, never reused.
    pub id: u64,
    /// Beneficiary principal; changed only by transfer or key rotation.
    pub owner: u64,
    /// Optional principal allowed to claim on the owner's behalf.
    pub delegate: Option<u64>,
    /// The principal locked by this grant; immutable after creation.
    pub total_amount: i128,
    /// How much has been released so far; non-decreasing, at most
    /// `total_amount`, and jumps to `total_amount` on revoke or clawback.
    pub released_amount: i128,
    /// Portion of the not-yet-released principal currently escrowed for
    /// staking; driven back to zero by a claim that needs it.
    pub staked_amount: i128,
    /// Schedule start, in ledger time units; immutable after creation.
    pub start_time: u64,
    /// Schedule end; `end_time >= start_time`; immutable after creation.
    pub end_time: u64,
    /// 0 selects continuous linear vesting; `end_time - start_time` selects
    /// lockup-only; any other positive value selects stepped vesting.
    pub step_duration: u64,
    /// Fee associated with the vault; accounted but outside the vesting math.
    pub keeper_fee: i128,
    /// When the vault was created; fixes the clawback grace window.
    pub created_at: u64,
    /// Whether the admin may still revoke; clearing it is one-way.
    pub is_revocable: bool,
    /// Whether the owner may be changed by `transfer_beneficiary`.
    pub is_transferable: bool,
    /// False for lazily created vaults until first touched.
    pub is_initialized: bool,
    /// When non-empty, overrides time-based vesting entirely.
    pub milestones: Vec<Milestone>,
}

/// Sum of the percentages of all milestones in the list.
pub open spec fn percent_sum(ms: Seq<Milestone>) -> int
    decreases ms.len(),
{
    if ms.len() == 0 {
        0
    } else {
        percent_sum(ms.drop_last()) + ms.last().percentage
    }
}

/// Sum of the percentages of the unlocked milestones in the list.
pub open spec fn unlocked_percent_sum(ms: Seq<Milestone>) -> int
    decreases ms.len(),
{
    if ms.len() == 0 {
        0
    } else {
        unlocked_percent_sum(ms.drop_last()) + if ms.last().is_unlocked {
            ms.last().percentage as int
        } else {
            0
        }
    }
}

/// No two milestones of the list share an id.
pub open spec fn milestone_ids_unique(ms: Seq<Milestone>) -> bool {
    forall|i: int, j: int| 0 <= i < j < ms.len() ==> ms[i].id != ms[j].id
}

/// What a well-formed milestone list satisfies: unique ids, each percentage
/// at most 100, and percentages summing to at most 100, so that the vested
/// amount can never exceed the principal.
pub open spec fn milestones_wf(ms: Seq<Milestone>) -> bool {
    &&& milestone_ids_unique(ms)
    &&& forall|i: int| 0 <= i < ms.len() ==> (#[trigger] ms[i]).percentage <= 100
    &&& percent_sum(ms) <= 100
}

impl Vault {
    /// The internal invariant every stored vault satisfies: amounts within
    /// bounds, the release cap, the stake cap, a coherent schedule, and a
    /// well-formed milestone list.
    pub open spec fn wf(self) -> bool {
        &&& 0 <= self.released_amount <= self.total_amount <= AMOUNT_LIMIT
        &&& 0 <= self.staked_amount <= self.total_amount - self.released_amount
        &&& self.start_time <= self.end_time
        &&& self.step_duration <= self.end_time - self.start_time
        &&& self.keeper_fee >= 0
        &&& milestones_wf(self.milestones@)
    }
}

/// Two vault values that agree on every field (milestone lists compared by
/// their contents).
pub open spec fn vault_like(a: Vault, b: Vault) -> bool {
    &&& vault_immutable_fields(a, b)
    &&& b.owner == a.owner
    &&& b.delegate == a.delegate
    &&& b.released_amount == a.released_amount
    &&& b.staked_amount == a.staked_amount
    &&& b.is_revocable == a.is_revocable
    &&& b.is_transferable == a.is_transferable
    &&& b.is_initialized == a.is_initialized
    &&& b.milestones@ == a.milestones@
}

/// The fields of a vault no operation may change after creation.
pub open spec fn vault_immutable_fields(pre: Vault, post: Vault) -> bool {
    &&& post.id == pre.id
    &&& post.total_amount == pre.total_amount
    &&& post.start_time == pre.start_time
    &&& post.end_time == pre.end_time
    &&& post.step_duration == pre.step_duration
    &&& post.keeper_fee == pre.keeper_fee
    &&& post.created_at == pre.created_at
}

/// The vault is kept as it was, except that it is now initialized.
pub open spec fn vault_initialized_only(pre: Vault, post: Vault) -> bool {
    &&& vault_immutable_fields(pre, post)
    &&& post.owner == pre.owner
    &&& post.delegate == pre.delegate
    &&& post.released_amount == pre.released_amount
    &&& post.staked_amount == pre.staked_amount
    &&& post.is_revocable == pre.is_revocable
    &&& post.is_transferable == pre.is_transferable
    &&& post.milestones@ == pre.milestones@
    &&& post.is_initialized
}

/// Replacing one milestone shifts the percentage sum by the difference of the
/// old and new percentages.
pub proof fn lemma_percent_sum_update(ms: Seq<Milestone>, i: int, m: Milestone)
    requires
        0 <= i < ms.len(),
    ensures
        percent_sum(ms.update(i, m)) == percent_sum(ms) - ms[i].percentage + m.percentage,
    decreases ms.len(),
{
    let s2 = ms.update(i, m);
    if i == ms.len() - 1 {
        assert(s2.drop_last() =~= ms.drop_last());
    } else {
        assert(s2.drop_last() =~= ms.drop_last().update(i, m));
        lemma_percent_sum_update(ms.drop_last(), i, m);
    }
}

/// The unlocked share of a list never exceeds the whole list's percentage
/// sum, and both sums of a well-formed prefix stay non-negative.
pub proof fn lemma_unlocked_le_percent(ms: Seq<Milestone>)
    ensures
        0 <= unlocked_percent_sum(ms),
        unlocked_percent_sum(ms) <= percent_sum(ms),
    decreases ms.len(),
{
    if ms.len() > 0 {
        lemma_unlocked_le_percent(ms.drop_last());
    }
}

/// Percentage sums grow along prefixes: a prefix's sum is bounded by the
/// whole list's sum.
pub proof fn lemma_percent_sum_take(ms: Seq<Milestone>, i: int)
    requires
        0 <= i <= ms.len(),
    ensures
        percent_sum(ms.take(i)) <= percent_sum(ms),
        unlocked_percent_sum(ms.take(i)) <= unlocked_percent_sum(ms),
    decreases ms.len() - i,
{
    if i == ms.len() {
        assert(ms.take(i) =~= ms);
    } else {
        lemma_percent_sum_take(ms, i + 1);
        assert(ms.take(i + 1).drop_last() =~= ms.take(i));
        assert(ms.take(i + 1).last() == ms[i]);
    }
}

} // verus!
