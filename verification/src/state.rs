use vstd::prelude::*;
use crate::index::OwnerIndex;
use crate::vault::{Vault, AMOUNT_LIMIT};

verus! {

/// The whole contract state: governance, the vault store with its owner
/// index, and the accounting baseline for the conservation invariant. All
/// operations take it explicitly; the host environment owns the single
/// instance.
pub struct VestingContract {
    /// The principal identifier under which the contract itself holds token
    /// balances.
    pub contract_address: u64,
    /// Whether `initialize` has run; before that every operation fails.
    pub is_initialized: bool,
    /// The current administrator.
    pub admin: u64,
    /// Candidate of the two-step ownership transfer.
    pub proposed_admin: Option<u64>,
    /// When true, claims are blocked.
    pub paused: bool,
    /// One-way terminal flag; once set, every mutating operation fails.
    pub deprecated: bool,
    /// Where liquidity went when the contract was deprecated.
    pub migration_target: Option<u64>,
    /// The accounted, yield-bearing asset claims are paid in.
    pub token: Option<u64>,
    /// The assets eligible for rescue.
    pub whitelist: Vec<u64>,
    /// Accounting baseline of the conservation invariant.
    pub initial_supply: i128,
    /// Sum of all vaults' principals; kept in step with the store.
    pub total_allocated: i128,
    /// The vault store; vault ids are dense, 1-based and never reused.
    pub vaults: Vec<Vault>,
    /// The owner-to-vault-ids index over the initialized vaults.
    pub index: OwnerIndex,
}

/// Sum of the principals of a sequence of vaults.
pub open spec fn sum_total(s: Seq<Vault>) -> int
    decreases s.len(),
{
    if s.len() == 0 {
        0
    } else {
        sum_total(s.drop_last()) + s.last().total_amount
    }
}

/// Sum of the released amounts of a sequence of vaults.
pub open spec fn sum_released(s: Seq<Vault>) -> int
    decreases s.len(),
{
    if s.len() == 0 {
        0
    } else {
        sum_released(s.drop_last()) + s.last().released_amount
    }
}

/// Every vault of the sequence is well-formed.
pub open spec fn vaults_wf(s: Seq<Vault>) -> bool {
    forall|i: int| 0 <= i < s.len() ==> (#[trigger] s[i]).wf()
}

/// Vault ids are dense and 1-based: the vault at position `i` has id `i + 1`.
pub open spec fn ids_dense(s: Seq<Vault>) -> bool {
    forall|i: int| 0 <= i < s.len() ==> (#[trigger] s[i]).id == i + 1
}

/// What every operation preserves of the vaults that already exist: their
/// ids, principals and schedules never change, the released amount never
/// decreases, initialization is never undone, and irrevocability is one-way.
pub open spec fn vaults_monotone(pre: Seq<Vault>, post: Seq<Vault>) -> bool {
    &&& pre.len() <= post.len()
    &&& forall|i: int|
        0 <= i < pre.len() ==> {
            &&& (#[trigger] post[i]).id == pre[i].id
            &&& post[i].total_amount == pre[i].total_amount
            &&& post[i].start_time == pre[i].start_time
            &&& post[i].end_time == pre[i].end_time
            &&& post[i].step_duration == pre[i].step_duration
            &&& post[i].created_at == pre[i].created_at
            &&& post[i].keeper_fee == pre[i].keeper_fee
            &&& post[i].released_amount >= pre[i].released_amount
            &&& (pre[i].is_initialized ==> post[i].is_initialized)
            &&& (!pre[i].is_revocable ==> !post[i].is_revocable)
        }
}

/// The governance fields two states share when an operation leaves them
/// untouched.
pub open spec fn same_config(pre: VestingContract, post: VestingContract) -> bool {
    &&& post.contract_address == pre.contract_address
    &&& post.is_initialized == pre.is_initialized
    &&& post.admin == pre.admin
    &&& post.proposed_admin == pre.proposed_admin
    &&& post.paused == pre.paused
    &&& post.deprecated == pre.deprecated
    &&& post.migration_target == pre.migration_target
    &&& post.token == pre.token
    &&& post.whitelist@ == pre.whitelist@
    &&& post.initial_supply == pre.initial_supply
}

impl VestingContract {
    /// The state invariant every operation preserves.
    pub open spec fn wf(self) -> bool {
        &&& vaults_wf(self.vaults@)
        &&& ids_dense(self.vaults@)
        &&& self.vaults@.len() <= u64::MAX
        &&& self.total_allocated == sum_total(self.vaults@)
        &&& 0 <= self.total_allocated <= AMOUNT_LIMIT
        &&& 0 <= self.initial_supply <= AMOUNT_LIMIT
        &&& self.index.wf()
        &&& forall|o: u64, id: u64|
            #[trigger] self.index.contains(o, id) ==> 1 <= id <= self.vaults@.len()
                && self.vaults@[id - 1].owner == o && self.vaults@[id - 1].is_initialized
        &&& forall|i: int|
            0 <= i < self.vaults@.len() && (#[trigger] self.vaults@[i]).is_initialized
                ==> self.index.contains(self.vaults@[i].owner, (i + 1) as u64)
        &&& forall|i: int, j: int|
            0 <= i < j < self.whitelist@.len() ==> self.whitelist@[i] != self.whitelist@[j]
        &&& !self.is_initialized ==> {
            &&& self.vaults@.len() == 0
            &&& self.initial_supply == 0
            &&& self.total_allocated == 0
            &&& self.whitelist@.len() == 0
            &&& self.token is None
            &&& self.proposed_admin is None
            &&& !self.paused
            &&& !self.deprecated
            &&& self.migration_target is None
        }
    }

    /// Whether `id` names a stored vault.
    pub open spec fn valid_vault_id(self, id: u64) -> bool {
        1 <= id <= self.vaults@.len()
    }

    /// The vault stored under `id`.
    pub open spec fn vault_of(self, id: u64) -> Vault {
        self.vaults@[id - 1]
    }

    /// Total still locked across all vaults.
    pub open spec fn total_locked_spec(self) -> int {
        sum_total(self.vaults@) - sum_released(self.vaults@)
    }

    /// Total released across all vaults.
    pub open spec fn total_claimed_spec(self) -> int {
        sum_released(self.vaults@)
    }

    /// The un-allocated remainder of the initial supply: what backs no vault.
    pub open spec fn admin_balance_spec(self) -> int {
        self.initial_supply - sum_total(self.vaults@)
    }
}

/// Conservation: in every well-formed state, locked plus claimed plus the
/// admin balance equals the initial supply.
pub proof fn lemma_conservation(s: VestingContract)
    requires
        s.wf(),
    ensures
        s.total_locked_spec() + s.total_claimed_spec() + s.admin_balance_spec()
            == s.initial_supply,
{
}

/// Appending a vault adds its principal and released amount to the sums.
pub proof fn lemma_sum_push(s: Seq<Vault>, v: Vault)
    ensures
        sum_total(s.push(v)) == sum_total(s) + v.total_amount,
        sum_released(s.push(v)) == sum_released(s) + v.released_amount,
{
    assert(s.push(v).drop_last() =~= s);
}

/// Replacing a vault shifts the sums by the difference of the old and new
/// amounts.
pub proof fn lemma_sum_update(s: Seq<Vault>, i: int, v: Vault)
    requires
        0 <= i < s.len(),
    ensures
        sum_total(s.update(i, v)) == sum_total(s) - s[i].total_amount + v.total_amount,
        sum_released(s.update(i, v)) == sum_released(s) - s[i].released_amount
            + v.released_amount,
    decreases s.len(),
{
    let s2 = s.update(i, v);
    if i == s.len() - 1 {
        assert(s2.drop_last() =~= s.drop_last());
    } else {
        assert(s2.drop_last() =~= s.drop_last().update(i, v));
        lemma_sum_update(s.drop_last(), i, v);
    }
}

/// For well-formed vaults the released sum lies between 0 and the principal
/// sum.
pub proof fn lemma_sum_bounds(s: Seq<Vault>)
    requires
        vaults_wf(s),
    ensures
        0 <= sum_released(s) <= sum_total(s),
    decreases s.len(),
{
    if s.len() > 0 {
        assert(s.last().wf());
        lemma_sum_bounds(s.drop_last());
    }
}

/// One vault's locked remainder is bounded by the locked total, and its
/// released amount by the released total.
pub proof fn lemma_vault_le_sum(s: Seq<Vault>, i: int)
    requires
        vaults_wf(s),
        0 <= i < s.len(),
    ensures
        s[i].total_amount - s[i].released_amount <= sum_total(s) - sum_released(s),
        s[i].released_amount <= sum_released(s),
        s[i].total_amount <= sum_total(s),
    decreases s.len(),
{
    if i == s.len() - 1 {
        lemma_sum_bounds(s.drop_last());
        assert(s.last().wf());
    } else {
        lemma_vault_le_sum(s.drop_last(), i);
        assert(s.last().wf());
    }
}

/// Prefix sums are bounded by the sums of the whole sequence.
pub proof fn lemma_sum_take_le(s: Seq<Vault>, i: int)
    requires
        vaults_wf(s),
        0 <= i <= s.len(),
    ensures
        sum_total(s.take(i)) <= sum_total(s),
        sum_released(s.take(i)) <= sum_released(s),
    decreases s.len() - i,
{
    if i == s.len() {
        assert(s.take(i) =~= s);
    } else {
        lemma_sum_take_le(s, i + 1);
        s.lemma_take_succ_push(i);
        lemma_sum_push(s.take(i), s[i]);
        assert(s[i].wf());
    }
}

impl VestingContract {
    /// A blank, not yet initialized contract state registered under the given
    /// address.
    pub fn new(contract_address: u64) -> (r: VestingContract)
        ensures
            r.wf(),
            !r.is_initialized,
            r.contract_address == contract_address,
            r.vaults@.len() == 0,
            forall|o: u64, id: u64| !(#[trigger] r.index.contains(o, id)),
    {
        VestingContract {
            contract_address,
            is_initialized: false,
            admin: 0,
            proposed_admin: None,
            paused: false,
            deprecated: false,
            migration_target: None,
            token: None,
            whitelist: Vec::new(),
            initial_supply: 0,
            total_allocated: 0,
            vaults: Vec::new(),
            index: OwnerIndex::new(),
        }
    }

    /// Computes the locked and released totals across all vaults.
    pub(crate) fn compute_totals(&self) -> (r: (i128, i128))
        requires
            self.wf(),
        ensures
            r.0 == self.total_locked_spec(),
            r.1 == self.total_claimed_spec(),
    {
        proof {
            lemma_sum_bounds(self.vaults@);
        }
        let mut locked: i128 = 0;
        let mut claimed: i128 = 0;
        let mut i: usize = 0;
        while i < self.vaults.len()
            invariant
                self.wf(),
                i <= self.vaults@.len(),
                locked == sum_total(self.vaults@.take(i as int)) - sum_released(
                    self.vaults@.take(i as int),
                ),
                claimed == sum_released(self.vaults@.take(i as int)),
                0 <= claimed <= sum_total(self.vaults@.take(i as int)) <= AMOUNT_LIMIT,
                0 <= locked <= AMOUNT_LIMIT,
            decreases self.vaults@.len() - i,
        {
            proof {
                self.vaults@.lemma_take_succ_push(i as int);
                lemma_sum_push(self.vaults@.take(i as int), self.vaults@[i as int]);
                lemma_sum_take_le(self.vaults@, i + 1);
                lemma_sum_bounds(self.vaults@.take(i + 1));
                assert(self.vaults@[i as int].wf());
            }
            let v = &self.vaults[i];
            locked = locked + (v.total_amount - v.released_amount);
            claimed = claimed + v.released_amount;
            i = i + 1;
        }
        proof {
            assert(self.vaults@.take(self.vaults@.len() as int) =~= self.vaults@);
        }
        (locked, claimed)
    }

    /// Reports the locked total, the claimed total and the admin balance the
    /// conservation invariant speaks of.
    pub fn get_contract_state(&self) -> (r: (i128, i128, i128))
        requires
            self.wf(),
        ensures
            r.0 == self.total_locked_spec(),
            r.1 == self.total_claimed_spec(),
            r.2 == self.admin_balance_spec(),
    {
        let (locked, claimed) = self.compute_totals();
        (locked, claimed, self.initial_supply - self.total_allocated)
    }

    /// Checks the conservation invariant; on a well-formed state this always
    /// reports true.
    pub fn check_invariant(&self) -> (r: bool)
        requires
            self.wf(),
        ensures
            r,
    {
        let (locked, claimed, admin_balance) = self.get_contract_state();
        proof {
            lemma_conservation(*self);
            lemma_sum_bounds(self.vaults@);
        }
        locked + claimed + admin_balance == self.initial_supply
    }

    /// The current administrator, if the contract is initialized.
    pub fn get_admin(&self) -> (r: Option<u64>)
        ensures
            r == if self.is_initialized {
                Some(self.admin)
            } else {
                None::<u64>
            },
    {
        if self.is_initialized {
            Some(self.admin)
        } else {
            None
        }
    }

    /// The proposed administrator of a pending two-step transfer.
    pub fn get_proposed_admin(&self) -> (r: Option<u64>)
        ensures
            r == self.proposed_admin,
    {
        self.proposed_admin
    }

    /// Whether claims are currently blocked.
    pub fn is_paused(&self) -> (r: bool)
        ensures
            r == self.paused,
    {
        self.paused
    }

    /// Whether the contract has been deprecated by a liquidity migration.
    pub fn is_deprecated(&self) -> (r: bool)
        ensures
            r == self.deprecated,
    {
        self.deprecated
    }

    /// Where liquidity was migrated, once the contract is deprecated.
    pub fn get_migration_target(&self) -> (r: Option<u64>)
        ensures
            r == self.migration_target,
    {
        self.migration_target
    }

    /// The vault ids indexed under `owner`, in insertion order.
    pub fn get_vaults_by_owner(&self, owner: u64) -> (r: Vec<u64>)
        requires
            self.wf(),
        ensures
            forall|id: u64| r@.contains(id) <==> self.index.contains(owner, id),
    {
        self.index.ids_of(owner)
    }
}

} // verus!
