use vstd::prelude::*;
use crate::errors::VestingError;
use crate::state::{VestingContract, same_config, vaults_monotone, lemma_sum_push, lemma_sum_update};
use crate::vault::{Vault, Milestone, AMOUNT_LIMIT, milestones_wf, milestone_ids_unique, percent_sum, lemma_percent_sum_take, lemma_percent_sum_update, vault_initialized_only, vault_immutable_fields, vault_like};

verus! {

/// The parallel arrays of a batch creation: entry `j` of every array
/// describes the vault created for recipient `j`.
pub struct BatchCreateData {
    pub recipients: Vec<u64>,
    pub amounts: Vec<i128>,
    pub start_times: Vec<u64>,
    pub end_times: Vec<u64>,
    pub keeper_fees: Vec<i128>,
    pub step_durations: Vec<u64>,
}

/// All arrays of the batch have one length.
pub open spec fn batch_lengths_ok(b: BatchCreateData) -> bool {
    &&& b.amounts@.len() == b.recipients@.len()
    &&& b.start_times@.len() == b.recipients@.len()
    &&& b.end_times@.len() == b.recipients@.len()
    &&& b.keeper_fees@.len() == b.recipients@.len()
    &&& b.step_durations@.len() == b.recipients@.len()
}

/// Entry `j` of the batch describes a creatable vault.
pub open spec fn batch_entry_ok(b: BatchCreateData, j: int) -> bool {
    &&& 0 <= b.amounts@[j] <= AMOUNT_LIMIT
    &&& b.keeper_fees@[j] >= 0
    &&& b.start_times@[j] <= b.end_times@[j]
    &&& b.step_durations@[j] <= b.end_times@[j] - b.start_times@[j]
}

/// Sum of the amounts of a batch.
pub open spec fn batch_amounts_sum(s: Seq<i128>) -> int
    decreases s.len(),
{
    if s.len() == 0 {
        0
    } else {
        batch_amounts_sum(s.drop_last()) + s.last()
    }
}

/// With non-negative amounts, a prefix sum is bounded by the whole sum.
proof fn lemma_batch_sum_take_le(s: Seq<i128>, i: int)
    requires
        0 <= i <= s.len(),
        forall|k: int| 0 <= k < s.len() ==> #[trigger] s[k] >= 0,
    ensures
        batch_amounts_sum(s.take(i)) <= batch_amounts_sum(s),
        batch_amounts_sum(s.take(i)) >= 0,
    decreases s.len() - i,
{
    if i == s.len() {
        assert(s.take(i) =~= s);
        lemma_batch_sum_nonneg(s);
    } else {
        lemma_batch_sum_take_le(s, i + 1);
        s.lemma_take_succ_push(i);
        assert(s.take(i + 1).drop_last() =~= s.take(i));
        lemma_batch_sum_nonneg(s.take(i));
    }
}

proof fn lemma_batch_sum_nonneg(s: Seq<i128>)
    requires
        forall|k: int| 0 <= k < s.len() ==> #[trigger] s[k] >= 0,
    ensures
        batch_amounts_sum(s) >= 0,
    decreases s.len(),
{
    if s.len() > 0 {
        lemma_batch_sum_nonneg(s.drop_last());
    }
}

/// What a newly created vault holds.
pub open spec fn vault_created(
    v: Vault,
    id: u64,
    owner: u64,
    amount: i128,
    start_time: u64,
    end_time: u64,
    keeper_fee: i128,
    is_revocable: bool,
    is_transferable: bool,
    step_duration: u64,
    now: u64,
    initialized: bool,
) -> bool {
    &&& v.id == id
    &&& v.owner == owner
    &&& v.delegate is None
    &&& v.total_amount == amount
    &&& v.released_amount == 0
    &&& v.staked_amount == 0
    &&& v.start_time == start_time
    &&& v.end_time == end_time
    &&& v.step_duration == step_duration
    &&& v.keeper_fee == keeper_fee
    &&& v.created_at == now
    &&& v.is_revocable == is_revocable
    &&& v.is_transferable == is_transferable
    &&& v.is_initialized == initialized
    &&& v.milestones@.len() == 0
}

/// Copies a milestone list.
pub(crate) fn clone_milestones(src: &Vec<Milestone>) -> (r: Vec<Milestone>)
    ensures
        r@ == src@,
{
    let mut r: Vec<Milestone> = Vec::new();
    let mut i: usize = 0;
    while i < src.len()
        invariant
            i <= src@.len(),
            r@ =~= src@.take(i as int),
        decreases src@.len() - i,
    {
        proof {
            src@.lemma_take_succ_push(i as int);
        }
        r.push(src[i]);
        i = i + 1;
    }
    proof {
        assert(src@.take(src@.len() as int) =~= src@);
    }
    r
}

impl VestingContract {
    /// When creation of a single vault fails, and with which error: the admin
    /// guard first, then the argument checks, then the capacity bounds that
    /// keep the ledger arithmetic inside `i128`.
    pub open spec fn create_err(
        self,
        caller: u64,
        amount: i128,
        start_time: u64,
        end_time: u64,
        keeper_fee: i128,
        step_duration: u64,
    ) -> Option<VestingError> {
        if self.admin_gate_err(caller) is Some {
            self.admin_gate_err(caller)
        } else if !(0 <= amount <= AMOUNT_LIMIT) {
            Some(VestingError::InvalidArgument)
        } else if keeper_fee < 0 {
            Some(VestingError::InvalidArgument)
        } else if end_time < start_time {
            Some(VestingError::InvalidArgument)
        } else if step_duration > end_time - start_time {
            Some(VestingError::InvalidArgument)
        } else if self.total_allocated + amount > AMOUNT_LIMIT {
            Some(VestingError::InvalidArgument)
        } else if self.vaults@.len() >= u64::MAX {
            Some(VestingError::InvalidArgument)
        } else {
            None
        }
    }

    /// Marks the stored vault as initialized and indexes it under its owner;
    /// everything else is kept. Idempotent on an already initialized vault.
    pub(crate) fn ensure_vault_initialized(&mut self, i: usize)
        requires
            old(self).wf(),
            i < old(self).vaults@.len(),
        ensures
            final(self).wf(),
            same_config(*old(self), *final(self)),
            final(self).total_allocated == old(self).total_allocated,
            final(self).vaults@.len() == old(self).vaults@.len(),
            forall|k: int|
                0 <= k < old(self).vaults@.len() && k != i ==> final(self).vaults@[k] == old(
                    self,
                ).vaults@[k],
            vault_initialized_only(old(self).vaults@[i as int], final(self).vaults@[i as int]),
            vaults_monotone(old(self).vaults@, final(self).vaults@),
            forall|o2: u64, id2: u64|
                #[trigger] final(self).index.contains(o2, id2) <==> (old(self).index.contains(
                    o2,
                    id2,
                ) || (o2 == old(self).vaults@[i as int].owner && id2 == i + 1)),
    {
        let v = &self.vaults[i];
        if v.is_initialized {
            proof {
                assert(old(self).index.contains(
                    old(self).vaults@[i as int].owner,
                    (i + 1) as u64,
                ));
            }
            return ;
        }
        let id: u64 = (i as u64) + 1;
        let owner = v.owner;
        let v2 = Vault {
            id: v.id,
            owner: v.owner,
            delegate: v.delegate,
            total_amount: v.total_amount,
            released_amount: v.released_amount,
            staked_amount: v.staked_amount,
            start_time: v.start_time,
            end_time: v.end_time,
            step_duration: v.step_duration,
            keeper_fee: v.keeper_fee,
            created_at: v.created_at,
            is_revocable: v.is_revocable,
            is_transferable: v.is_transferable,
            is_initialized: true,
            milestones: clone_milestones(&v.milestones),
        };
        proof {
            lemma_sum_update(self.vaults@, i as int, v2);
            assert forall|o2: u64| !old(self).index.contains(o2, id) by {
                if old(self).index.contains(o2, id) {
                    assert(old(self).vaults@[id - 1].is_initialized);
                }
            }
        }
        self.vaults.set(i, v2);
        self.index.insert(owner, id);
    }

    /// Allocates the next vault id and stores a new vault; `init_now` decides
    /// between eager and lazy creation (a lazy vault stays outside the owner
    /// index until first touched). Creation is allowed while paused.
    fn create_vault_core(
        &mut self,
        caller: u64,
        owner: u64,
        amount: i128,
        start_time: u64,
        end_time: u64,
        keeper_fee: i128,
        is_revocable: bool,
        is_transferable: bool,
        step_duration: u64,
        now: u64,
        init_now: bool,
    ) -> (r: Result<u64, VestingError>)
        requires
            old(self).wf(),
        ensures
            final(self).wf(),
            r is Err ==> *final(self) == *old(self),
            r is Ok <==> (old(self).create_err(
                caller,
                amount,
                start_time,
                end_time,
                keeper_fee,
                step_duration,
            ) is None),
            r is Err ==> r->Err_0 == old(self).create_err(
                caller,
                amount,
                start_time,
                end_time,
                keeper_fee,
                step_duration,
            )->0,
            vaults_monotone(old(self).vaults@, final(self).vaults@),
            r is Ok ==> ({
                &&& r->Ok_0 == old(self).vaults@.len() + 1
                &&& final(self).vaults@.len() == old(self).vaults@.len() + 1
                &&& forall|k: int|
                    0 <= k < old(self).vaults@.len() ==> final(self).vaults@[k] == old(
                        self,
                    ).vaults@[k]
                &&& vault_created(
                    final(self).vaults@.last(),
                    r->Ok_0,
                    owner,
                    amount,
                    start_time,
                    end_time,
                    keeper_fee,
                    is_revocable,
                    is_transferable,
                    step_duration,
                    now,
                    init_now,
                )
                &&& final(self).total_allocated == old(self).total_allocated + amount
                &&& same_config(*old(self), *final(self))
                &&& forall|o2: u64, id2: u64|
                    #[trigger] final(self).index.contains(o2, id2) <==> (old(self).index.contains(
                        o2,
                        id2,
                    ) || (init_now && o2 == owner && id2 == old(self).vaults@.len() + 1))
            }),
    {
        let gate = self.check_admin_gate(caller);
        if let Err(e) = gate {
            return Err(e);
        }
        if amount < 0 || amount > AMOUNT_LIMIT {
            return Err(VestingError::InvalidArgument);
        }
        if keeper_fee < 0 {
            return Err(VestingError::InvalidArgument);
        }
        if end_time < start_time {
            return Err(VestingError::InvalidArgument);
        }
        if step_duration > end_time - start_time {
            return Err(VestingError::InvalidArgument);
        }
        if amount > AMOUNT_LIMIT - self.total_allocated {
            return Err(VestingError::InvalidArgument);
        }
        if (self.vaults.len() as u64) >= u64::MAX {
            return Err(VestingError::InvalidArgument);
        }
        let id: u64 = (self.vaults.len() as u64) + 1;
        let v = Vault {
            id,
            owner,
            delegate: None,
            total_amount: amount,
            released_amount: 0,
            staked_amount: 0,
            start_time,
            end_time,
            step_duration,
            keeper_fee,
            created_at: now,
            is_revocable,
            is_transferable,
            is_initialized: init_now,
            milestones: Vec::new(),
        };
        proof {
            lemma_sum_push(self.vaults@, v);
            assert forall|o2: u64| !old(self).index.contains(o2, id) by {
                if old(self).index.contains(o2, id) {
                    assert(old(self).vaults@[id - 1].is_initialized);
                }
            }
        }
        self.vaults.push(v);
        self.total_allocated = self.total_allocated + amount;
        if init_now {
            self.index.insert(owner, id);
        }
        Ok(id)
    }

    /// Creates a fully initialized vault, indexed under its owner at once.
    pub fn create_vault_full(
        &mut self,
        caller: u64,
        owner: u64,
        amount: i128,
        start_time: u64,
        end_time: u64,
        keeper_fee: i128,
        is_revocable: bool,
        is_transferable: bool,
        step_duration: u64,
        now: u64,
    ) -> (r: Result<u64, VestingError>)
        requires
            old(self).wf(),
        ensures
            final(self).wf(),
            r is Err ==> *final(self) == *old(self),
            r is Ok <==> (old(self).create_err(
                caller,
                amount,
                start_time,
                end_time,
                keeper_fee,
                step_duration,
            ) is None),
            r is Err ==> r->Err_0 == old(self).create_err(
                caller,
                amount,
                start_time,
                end_time,
                keeper_fee,
                step_duration,
            )->0,
            vaults_monotone(old(self).vaults@, final(self).vaults@),
            r is Ok ==> ({
                &&& r->Ok_0 == old(self).vaults@.len() + 1
                &&& final(self).vaults@.len() == old(self).vaults@.len() + 1
                &&& forall|k: int|
                    0 <= k < old(self).vaults@.len() ==> final(self).vaults@[k] == old(
                        self,
                    ).vaults@[k]
                &&& vault_created(
                    final(self).vaults@.last(),
                    r->Ok_0,
                    owner,
                    amount,
                    start_time,
                    end_time,
                    keeper_fee,
                    is_revocable,
                    is_transferable,
                    step_duration,
                    now,
                    true,
                )
                &&& final(self).total_allocated == old(self).total_allocated + amount
                &&& same_config(*old(self), *final(self))
                &&& forall|o2: u64, id2: u64|
                    #[trigger] final(self).index.contains(o2, id2) <==> (old(self).index.contains(
                        o2,
                        id2,
                    ) || (o2 == owner && id2 == old(self).vaults@.len() + 1))
            }),
    {
        self.create_vault_core(
            caller,
            owner,
            amount,
            start_time,
            end_time,
            keeper_fee,
            is_revocable,
            is_transferable,
            step_duration,
            now,
            true,
        )
    }

    /// Creates a lazy vault: stored and counted, but not yet marked
    /// initialized nor indexed under its owner until first touched.
    pub fn create_vault_lazy(
        &mut self,
        caller: u64,
        owner: u64,
        amount: i128,
        start_time: u64,
        end_time: u64,
        keeper_fee: i128,
        is_revocable: bool,
        is_transferable: bool,
        step_duration: u64,
        now: u64,
    ) -> (r: Result<u64, VestingError>)
        requires
            old(self).wf(),
        ensures
            final(self).wf(),
            r is Err ==> *final(self) == *old(self),
            r is Ok <==> (old(self).create_err(
                caller,
                amount,
                start_time,
                end_time,
                keeper_fee,
                step_duration,
            ) is None),
            r is Err ==> r->Err_0 == old(self).create_err(
                caller,
                amount,
                start_time,
                end_time,
                keeper_fee,
                step_duration,
            )->0,
            vaults_monotone(old(self).vaults@, final(self).vaults@),
            r is Ok ==> ({
                &&& r->Ok_0 == old(self).vaults@.len() + 1
                &&& final(self).vaults@.len() == old(self).vaults@.len() + 1
                &&& forall|k: int|
                    0 <= k < old(self).vaults@.len() ==> final(self).vaults@[k] == old(
                        self,
                    ).vaults@[k]
                &&& vault_created(
                    final(self).vaults@.last(),
                    r->Ok_0,
                    owner,
                    amount,
                    start_time,
                    end_time,
                    keeper_fee,
                    is_revocable,
                    is_transferable,
                    step_duration,
                    now,
                    false,
                )
                &&& final(self).total_allocated == old(self).total_allocated + amount
                &&& same_config(*old(self), *final(self))
                &&& forall|o2: u64, id2: u64|
                    #[trigger] final(self).index.contains(o2, id2) <==> old(self).index.contains(
                        o2,
                        id2,
                    )
            }),
    {
        self.create_vault_core(
            caller,
            owner,
            amount,
            start_time,
            end_time,
            keeper_fee,
            is_revocable,
            is_transferable,
            step_duration,
            now,
            false,
        )
    }

    /// When a batch creation fails, and with which error. Each batch entry
    /// creates a revocable, non-transferable vault; the whole batch fails if
    /// any array length or entry is off, with nothing created.
    pub open spec fn batch_err(self, caller: u64, b: BatchCreateData) -> Option<VestingError> {
        if self.admin_gate_err(caller) is Some {
            self.admin_gate_err(caller)
        } else if !batch_lengths_ok(b) {
            Some(VestingError::InvalidArgument)
        } else if !(forall|j: int| 0 <= j < b.recipients@.len() ==> batch_entry_ok(b, j)) {
            Some(VestingError::InvalidArgument)
        } else if self.total_allocated + batch_amounts_sum(b.amounts@) > AMOUNT_LIMIT {
            Some(VestingError::InvalidArgument)
        } else if self.vaults@.len() + b.recipients@.len() > u64::MAX {
            Some(VestingError::InvalidArgument)
        } else {
            None
        }
    }

    /// Creates one vault per batch entry, in order, returning the assigned
    /// ids in creation order.
    fn batch_create_core(&mut self, caller: u64, b: &BatchCreateData, now: u64, init_now: bool) -> (r:
        Result<Vec<u64>, VestingError>)
        requires
            old(self).wf(),
        ensures
            final(self).wf(),
            r is Err ==> *final(self) == *old(self),
            r is Ok <==> (old(self).batch_err(caller, *b) is None),
            r is Err ==> r->Err_0 == old(self).batch_err(caller, *b)->0,
            vaults_monotone(old(self).vaults@, final(self).vaults@),
            r is Ok ==> ({
                let n = b.recipients@.len() as int;
                let base = old(self).vaults@.len() as int;
                &&& r->Ok_0@.len() == n
                &&& forall|j: int| 0 <= j < n ==> #[trigger] r->Ok_0@[j] == base + j + 1
                &&& final(self).vaults@.len() == base + n
                &&& forall|k: int|
                    0 <= k < base ==> final(self).vaults@[k] == old(self).vaults@[k]
                &&& forall|j: int|
                    0 <= j < n ==> vault_created(
                        #[trigger] final(self).vaults@[base + j],
                        (base + j + 1) as u64,
                        b.recipients@[j],
                        b.amounts@[j],
                        b.start_times@[j],
                        b.end_times@[j],
                        b.keeper_fees@[j],
                        true,
                        false,
                        b.step_durations@[j],
                        now,
                        init_now,
                    )
                &&& final(self).total_allocated == old(self).total_allocated + batch_amounts_sum(
                    b.amounts@,
                )
                &&& same_config(*old(self), *final(self))
                &&& forall|o2: u64, id2: u64|
                    #[trigger] final(self).index.contains(o2, id2) <==> (old(self).index.contains(
                        o2,
                        id2,
                    ) || (init_now && base + 1 <= id2 <= base + n && o2 == b.recipients@[id2 - base
                        - 1]))
            }),
    {
        let gate = self.check_admin_gate(caller);
        if let Err(e) = gate {
            return Err(e);
        }
        let n = b.recipients.len();
        if b.amounts.len() != n || b.start_times.len() != n || b.end_times.len() != n
            || b.keeper_fees.len() != n || b.step_durations.len() != n {
            return Err(VestingError::InvalidArgument);
        }
        // validate every entry and the allocation cap before creating anything
        let mut acc: i128 = self.total_allocated;
        let mut j: usize = 0;
        while j < n
            invariant
                self.wf(),
                *self == *old(self),
                old(self).admin_gate_err(caller) is None,
                n == b.recipients@.len(),
                batch_lengths_ok(*b),
                j <= n,
                forall|k: int| 0 <= k < j ==> batch_entry_ok(*b, k),
                acc == self.total_allocated + batch_amounts_sum(b.amounts@.take(j as int)),
                self.total_allocated <= acc <= AMOUNT_LIMIT,
            decreases n - j,
        {
            proof {
                b.amounts@.lemma_take_succ_push(j as int);
                assert(b.amounts@.take(j + 1).drop_last() =~= b.amounts@.take(j as int));
            }
            if b.amounts[j] < 0 || b.amounts[j] > AMOUNT_LIMIT {
                proof {
                    assert(!batch_entry_ok(*b, j as int));
                }
                return Err(VestingError::InvalidArgument);
            }
            if b.keeper_fees[j] < 0 {
                proof {
                    assert(!batch_entry_ok(*b, j as int));
                }
                return Err(VestingError::InvalidArgument);
            }
            if b.end_times[j] < b.start_times[j] {
                proof {
                    assert(!batch_entry_ok(*b, j as int));
                }
                return Err(VestingError::InvalidArgument);
            }
            if b.step_durations[j] > b.end_times[j] - b.start_times[j] {
                proof {
                    assert(!batch_entry_ok(*b, j as int));
                }
                return Err(VestingError::InvalidArgument);
            }
            if b.amounts[j] > AMOUNT_LIMIT - acc {
                proof {
                    if forall|k: int| 0 <= k < n ==> batch_entry_ok(*b, k) {
                        assert forall|k: int| 0 <= k < b.amounts@.len() implies #[trigger] b.amounts@[k] >= 0 by {
                            assert(batch_entry_ok(*b, k));
                        }
                        lemma_batch_sum_take_le(b.amounts@, j + 1);
                    }
                }
                return Err(VestingError::InvalidArgument);
            }
            acc = acc + b.amounts[j];
            j = j + 1;
        }
        proof {
            assert(b.amounts@.take(n as int) =~= b.amounts@);
            assert forall|k: int| 0 <= k < b.amounts@.len() implies #[trigger] b.amounts@[k] >= 0 by {
                assert(batch_entry_ok(*b, k));
            }
        }
        if (n as u64) > u64::MAX - (self.vaults.len() as u64) {
            return Err(VestingError::InvalidArgument);
        }
        // create the vaults
        let ghost base = self.vaults@.len() as int;
        let mut out: Vec<u64> = Vec::new();
        let mut k: usize = 0;
        while k < n
            invariant
                self.wf(),
                same_config(*old(self), *self),
                n == b.recipients@.len(),
                batch_lengths_ok(*b),
                forall|j2: int| 0 <= j2 < n ==> batch_entry_ok(*b, j2),
                old(self).admin_gate_err(caller) is None,
                old(self).total_allocated + batch_amounts_sum(b.amounts@) <= AMOUNT_LIMIT,
                base == old(self).vaults@.len(),
                base + n <= u64::MAX,
                k <= n,
                self.vaults@.len() == base + k,
                forall|i: int| 0 <= i < base ==> self.vaults@[i] == old(self).vaults@[i],
                forall|j2: int|
                    0 <= j2 < k ==> vault_created(
                        #[trigger] self.vaults@[base + j2],
                        (base + j2 + 1) as u64,
                        b.recipients@[j2],
                        b.amounts@[j2],
                        b.start_times@[j2],
                        b.end_times@[j2],
                        b.keeper_fees@[j2],
                        true,
                        false,
                        b.step_durations@[j2],
                        now,
                        init_now,
                    ),
                self.total_allocated == old(self).total_allocated + batch_amounts_sum(
                    b.amounts@.take(k as int),
                ),
                out@.len() == k,
                forall|j2: int| 0 <= j2 < k ==> #[trigger] out@[j2] == base + j2 + 1,
                forall|o2: u64, id2: u64|
                    #[trigger] self.index.contains(o2, id2) <==> (old(self).index.contains(o2, id2)
                        || (init_now && base + 1 <= id2 <= base + k && o2 == b.recipients@[id2
                        - base - 1])),
            decreases n - k,
        {
            proof {
                b.amounts@.lemma_take_succ_push(k as int);
                assert(b.amounts@.take(k + 1).drop_last() =~= b.amounts@.take(k as int));
                assert forall|i: int| 0 <= i < b.amounts@.len() implies #[trigger] b.amounts@[i] >= 0 by {
                    assert(batch_entry_ok(*b, i));
                }
                lemma_batch_sum_take_le(b.amounts@, k + 1);
                assert(batch_entry_ok(*b, k as int));
            }
            let res = self.create_vault_core(
                caller,
                b.recipients[k],
                b.amounts[k],
                b.start_times[k],
                b.end_times[k],
                b.keeper_fees[k],
                true,
                false,
                b.step_durations[k],
                now,
                init_now,
            );
            let id = match res {
                Ok(id) => id,
                Err(_) => {
                    proof {
                        assert(false);
                    }
                    return Err(VestingError::InvalidArgument);
                },
            };
            out.push(id);
            k = k + 1;
        }
        proof {
            assert(b.amounts@.take(n as int) =~= b.amounts@);
        }
        Ok(out)
    }

    /// Creates one fully initialized vault per batch entry; returns the ids
    /// in creation order.
    pub fn batch_create_vaults_full(&mut self, caller: u64, b: &BatchCreateData, now: u64) -> (r:
        Result<Vec<u64>, VestingError>)
        requires
            old(self).wf(),
        ensures
            final(self).wf(),
            r is Err ==> *final(self) == *old(self),
            r is Ok <==> (old(self).batch_err(caller, *b) is None),
            r is Err ==> r->Err_0 == old(self).batch_err(caller, *b)->0,
            vaults_monotone(old(self).vaults@, final(self).vaults@),
            r is Ok ==> ({
                let n = b.recipients@.len() as int;
                let base = old(self).vaults@.len() as int;
                &&& r->Ok_0@.len() == n
                &&& forall|j: int| 0 <= j < n ==> #[trigger] r->Ok_0@[j] == base + j + 1
                &&& final(self).vaults@.len() == base + n
                &&& forall|k: int|
                    0 <= k < base ==> final(self).vaults@[k] == old(self).vaults@[k]
                &&& forall|j: int|
                    0 <= j < n ==> vault_created(
                        #[trigger] final(self).vaults@[base + j],
                        (base + j + 1) as u64,
                        b.recipients@[j],
                        b.amounts@[j],
                        b.start_times@[j],
                        b.end_times@[j],
                        b.keeper_fees@[j],
                        true,
                        false,
                        b.step_durations@[j],
                        now,
                        true,
                    )
                &&& final(self).total_allocated == old(self).total_allocated + batch_amounts_sum(
                    b.amounts@,
                )
                &&& same_config(*old(self), *final(self))
            }),
    {
        self.batch_create_core(caller, b, now, true)
    }

    /// Creates one lazy vault per batch entry; none is indexed under its
    /// owner until first touched.
    pub fn batch_create_vaults_lazy(&mut self, caller: u64, b: &BatchCreateData, now: u64) -> (r:
        Result<Vec<u64>, VestingError>)
        requires
            old(self).wf(),
        ensures
            final(self).wf(),
            r is Err ==> *final(self) == *old(self),
            r is Ok <==> (old(self).batch_err(caller, *b) is None),
            r is Err ==> r->Err_0 == old(self).batch_err(caller, *b)->0,
            vaults_monotone(old(self).vaults@, final(self).vaults@),
            r is Ok ==> ({
                let n = b.recipients@.len() as int;
                let base = old(self).vaults@.len() as int;
                &&& r->Ok_0@.len() == n
                &&& forall|j: int| 0 <= j < n ==> #[trigger] r->Ok_0@[j] == base + j + 1
                &&& final(self).vaults@.len() == base + n
                &&& forall|k: int|
                    0 <= k < base ==> final(self).vaults@[k] == old(self).vaults@[k]
                &&& forall|j: int|
                    0 <= j < n ==> vault_created(
                        #[trigger] final(self).vaults@[base + j],
                        (base + j + 1) as u64,
                        b.recipients@[j],
                        b.amounts@[j],
                        b.start_times@[j],
                        b.end_times@[j],
                        b.keeper_fees@[j],
                        true,
                        false,
                        b.step_durations@[j],
                        now,
                        false,
                    )
                &&& final(self).total_allocated == old(self).total_allocated + batch_amounts_sum(
                    b.amounts@,
                )
                &&& same_config(*old(self), *final(self))
                &&& forall|o2: u64, id2: u64|
                    #[trigger] final(self).index.contains(o2, id2) <==> old(self).index.contains(
                        o2,
                        id2,
                    )
            }),
    {
        self.batch_create_core(caller, b, now, false)
    }

    /// Position of the vault named by `vault_id` in the store.
    pub(crate) fn vault_pos(&self, vault_id: u64) -> (r: Option<usize>)
        requires
            self.wf(),
        ensures
            r is Some <==> self.valid_vault_id(vault_id),
            r is Some ==> r->0 == vault_id - 1,
    {
        if vault_id >= 1 && vault_id <= (self.vaults.len() as u64) {
            Some((vault_id - 1) as usize)
        } else {
            None
        }
    }

    /// When touching the vault named by `vault_id` fails for a mutating
    /// operation open to anyone: the contract must not be deprecated and the
    /// vault must exist.
    pub open spec fn touch_err(self, vault_id: u64) -> Option<VestingError> {
        if self.deprecated {
            Some(VestingError::InvalidState)
        } else if !self.valid_vault_id(vault_id) {
            Some(VestingError::NotFound)
        } else {
            None
        }
    }

    /// Explicitly initializes a lazily created vault: flips its flag and adds
    /// it to the owner index, as any implicitly initializing access would.
    pub fn initialize_vault_metadata(&mut self, vault_id: u64) -> (r: Result<(), VestingError>)
        requires
            old(self).wf(),
        ensures
            final(self).wf(),
            r is Err ==> *final(self) == *old(self),
            r is Ok <==> (old(self).touch_err(vault_id) is None),
            r is Err ==> r->Err_0 == old(self).touch_err(vault_id)->0,
            vaults_monotone(old(self).vaults@, final(self).vaults@),
            r is Ok ==> ({
                &&& same_config(*old(self), *final(self))
                &&& final(self).total_allocated == old(self).total_allocated
                &&& final(self).vaults@.len() == old(self).vaults@.len()
                &&& forall|k: int|
                    0 <= k < old(self).vaults@.len() && k != vault_id - 1 ==> final(self).vaults@[k] == old(self).vaults@[k]
                &&& vault_initialized_only(
                    old(self).vault_of(vault_id),
                    final(self).vault_of(vault_id),
                )
                &&& forall|o2: u64, id2: u64|
                    #[trigger] final(self).index.contains(o2, id2) <==> (old(self).index.contains(
                        o2,
                        id2,
                    ) || (o2 == old(self).vault_of(vault_id).owner && id2 == vault_id))
            }),
    {
        if self.deprecated {
            return Err(VestingError::InvalidState);
        }
        let i = match self.vault_pos(vault_id) {
            Some(i) => i,
            None => {
                return Err(VestingError::NotFound);
            },
        };
        self.ensure_vault_initialized(i);
        Ok(())
    }

    /// Reads the vault named by `vault_id`, first performing the implicit
    /// initialization any access to a lazy vault entails. Returns a copy of
    /// the stored vault.
    pub fn get_vault(&mut self, vault_id: u64) -> (r: Result<Vault, VestingError>)
        requires
            old(self).wf(),
        ensures
            final(self).wf(),
            r is Err ==> *final(self) == *old(self) && r->Err_0 == VestingError::NotFound,
            r is Ok <==> old(self).valid_vault_id(vault_id),
            vaults_monotone(old(self).vaults@, final(self).vaults@),
            r is Ok ==> ({
                &&& same_config(*old(self), *final(self))
                &&& final(self).total_allocated == old(self).total_allocated
                &&& final(self).vaults@.len() == old(self).vaults@.len()
                &&& forall|k: int|
                    0 <= k < old(self).vaults@.len() && k != vault_id - 1 ==> final(self).vaults@[k] == old(self).vaults@[k]
                &&& vault_initialized_only(
                    old(self).vault_of(vault_id),
                    final(self).vault_of(vault_id),
                )
                &&& vault_like(r->Ok_0, final(self).vault_of(vault_id))
                &&& forall|o2: u64, id2: u64|
                    #[trigger] final(self).index.contains(o2, id2) <==> (old(self).index.contains(
                        o2,
                        id2,
                    ) || (o2 == old(self).vault_of(vault_id).owner && id2 == vault_id))
            }),
    {
        let i = match self.vault_pos(vault_id) {
            Some(i) => i,
            None => {
                return Err(VestingError::NotFound);
            },
        };
        self.ensure_vault_initialized(i);
        let v = &self.vaults[i];
        Ok(
            Vault {
                id: v.id,
                owner: v.owner,
                delegate: v.delegate,
                total_amount: v.total_amount,
                released_amount: v.released_amount,
                staked_amount: v.staked_amount,
                start_time: v.start_time,
                end_time: v.end_time,
                step_duration: v.step_duration,
                keeper_fee: v.keeper_fee,
                created_at: v.created_at,
                is_revocable: v.is_revocable,
                is_transferable: v.is_transferable,
                is_initialized: v.is_initialized,
                milestones: clone_milestones(&v.milestones),
            },
        )
    }

    /// When changing a vault's beneficiary fails: the vault must exist, the
    /// caller must be the admin or the current owner, and, unless the check
    /// is bypassed for key rotation, the vault must be transferable.
    pub open spec fn transfer_err(
        self,
        caller: u64,
        vault_id: u64,
        enforce_transferable: bool,
    ) -> Option<VestingError> {
        if !self.is_initialized {
            Some(VestingError::InvalidState)
        } else if self.deprecated {
            Some(VestingError::InvalidState)
        } else if !self.valid_vault_id(vault_id) {
            Some(VestingError::NotFound)
        } else if caller != self.admin && caller != self.vault_of(vault_id).owner {
            Some(VestingError::Unauthorized)
        } else if enforce_transferable && !self.vault_of(vault_id).is_transferable {
            Some(VestingError::InvalidState)
        } else {
            None
        }
    }

    /// What a beneficiary change leaves of the vault and of the index: the
    /// owner is rewritten, the membership moves to the new owner's list, and
    /// everything else is kept.
    pub open spec fn transfer_post(self, pre_state: Self, vault_id: u64, new_owner: u64) -> bool {
        let pre = pre_state.vault_of(vault_id);
        let post = self.vault_of(vault_id);
        &&& same_config(pre_state, self)
        &&& self.total_allocated == pre_state.total_allocated
        &&& self.vaults@.len() == pre_state.vaults@.len()
        &&& forall|k: int|
            0 <= k < pre_state.vaults@.len() && k != vault_id - 1 ==> self.vaults@[k]
                == pre_state.vaults@[k]
        &&& vault_immutable_fields(pre, post)
        &&& post.owner == new_owner
        &&& post.delegate == pre.delegate
        &&& post.released_amount == pre.released_amount
        &&& post.staked_amount == pre.staked_amount
        &&& post.is_revocable == pre.is_revocable
        &&& post.is_transferable == pre.is_transferable
        &&& post.milestones@ == pre.milestones@
        &&& post.is_initialized
        &&& forall|o2: u64, id2: u64|
            #[trigger] self.index.contains(o2, id2) <==> ((pre_state.index.contains(o2, id2) && !(
            o2 == pre.owner && id2 == vault_id)) || (o2 == new_owner && id2 == vault_id))
    }

    /// Moves the vault to a new owner: rewrites the stored owner and moves
    /// the index membership from the old owner's list to the new one's.
    fn transfer_owner_core(
        &mut self,
        caller: u64,
        vault_id: u64,
        new_owner: u64,
        enforce_transferable: bool,
    ) -> (r: Result<(), VestingError>)
        requires
            old(self).wf(),
        ensures
            final(self).wf(),
            r is Err ==> *final(self) == *old(self),
            r is Ok <==> (old(self).transfer_err(caller, vault_id, enforce_transferable) is None),
            r is Err ==> r->Err_0 == old(self).transfer_err(
                caller,
                vault_id,
                enforce_transferable,
            )->0,
            vaults_monotone(old(self).vaults@, final(self).vaults@),
            r is Ok ==> final(self).transfer_post(*old(self), vault_id, new_owner),
    {
        if !self.is_initialized {
            return Err(VestingError::InvalidState);
        }
        if self.deprecated {
            return Err(VestingError::InvalidState);
        }
        let i = match self.vault_pos(vault_id) {
            Some(i) => i,
            None => {
                return Err(VestingError::NotFound);
            },
        };
        let old_owner = self.vaults[i].owner;
        if caller != self.admin && caller != old_owner {
            return Err(VestingError::Unauthorized);
        }
        if enforce_transferable && !self.vaults[i].is_transferable {
            return Err(VestingError::InvalidState);
        }
        let v = &self.vaults[i];
        let v2 = Vault {
            id: v.id,
            owner: new_owner,
            delegate: v.delegate,
            total_amount: v.total_amount,
            released_amount: v.released_amount,
            staked_amount: v.staked_amount,
            start_time: v.start_time,
            end_time: v.end_time,
            step_duration: v.step_duration,
            keeper_fee: v.keeper_fee,
            created_at: v.created_at,
            is_revocable: v.is_revocable,
            is_transferable: v.is_transferable,
            is_initialized: true,
            milestones: clone_milestones(&v.milestones),
        };
        proof {
            lemma_sum_update(self.vaults@, i as int, v2);
        }
        self.vaults.set(i, v2);
        self.index.remove(old_owner, vault_id);
        proof {
            assert forall|o2: u64| !self.index.contains(o2, vault_id) by {
                if self.index.contains(o2, vault_id) {
                    assert(old(self).index.contains(o2, vault_id));
                    assert(old(self).vaults@[vault_id - 1].owner == o2);
                }
            }
        }
        self.index.insert(new_owner, vault_id);
        Ok(())
    }

    /// Changes the beneficiary of a transferable vault; allowed to the admin
    /// and to the current owner.
    pub fn transfer_beneficiary(&mut self, caller: u64, vault_id: u64, new_owner: u64) -> (r:
        Result<(), VestingError>)
        requires
            old(self).wf(),
        ensures
            final(self).wf(),
            r is Err ==> *final(self) == *old(self),
            r is Ok <==> (old(self).transfer_err(caller, vault_id, true) is None),
            r is Err ==> r->Err_0 == old(self).transfer_err(caller, vault_id, true)->0,
            vaults_monotone(old(self).vaults@, final(self).vaults@),
            r is Ok ==> final(self).transfer_post(*old(self), vault_id, new_owner),
    {
        self.transfer_owner_core(caller, vault_id, new_owner, true)
    }

    /// Rotates the beneficiary key of a vault: the same effect as a transfer,
    /// but allowed even on a non-transferable vault.
    pub fn rotate_beneficiary_key(&mut self, caller: u64, vault_id: u64, new_owner: u64) -> (r:
        Result<(), VestingError>)
        requires
            old(self).wf(),
        ensures
            final(self).wf(),
            r is Err ==> *final(self) == *old(self),
            r is Ok <==> (old(self).transfer_err(caller, vault_id, false) is None),
            r is Err ==> r->Err_0 == old(self).transfer_err(caller, vault_id, false)->0,
            vaults_monotone(old(self).vaults@, final(self).vaults@),
            r is Ok ==> final(self).transfer_post(*old(self), vault_id, new_owner),
    {
        self.transfer_owner_core(caller, vault_id, new_owner, false)
    }

    /// When setting a delegate fails: the vault must exist and already be
    /// initialized, and only the owner may set or clear its delegate.
    pub open spec fn set_delegate_err(self, caller: u64, vault_id: u64) -> Option<VestingError> {
        if !self.is_initialized {
            Some(VestingError::InvalidState)
        } else if self.deprecated {
            Some(VestingError::InvalidState)
        } else if !self.valid_vault_id(vault_id) {
            Some(VestingError::NotFound)
        } else if !self.vault_of(vault_id).is_initialized {
            Some(VestingError::InvalidState)
        } else if caller != self.vault_of(vault_id).owner {
            Some(VestingError::Unauthorized)
        } else {
            None
        }
    }

    /// Sets or clears the delegate allowed to claim on the owner's behalf.
    pub fn set_delegate(&mut self, caller: u64, vault_id: u64, delegate: Option<u64>) -> (r: Result<
        (),
        VestingError,
    >)
        requires
            old(self).wf(),
        ensures
            final(self).wf(),
            r is Err ==> *final(self) == *old(self),
            r is Ok <==> (old(self).set_delegate_err(caller, vault_id) is None),
            r is Err ==> r->Err_0 == old(self).set_delegate_err(caller, vault_id)->0,
            vaults_monotone(old(self).vaults@, final(self).vaults@),
            r is Ok ==> ({
                let pre = old(self).vault_of(vault_id);
                let post = final(self).vault_of(vault_id);
                &&& same_config(*old(self), *final(self))
                &&& final(self).total_allocated == old(self).total_allocated
                &&& final(self).vaults@.len() == old(self).vaults@.len()
                &&& forall|k: int|
                    0 <= k < old(self).vaults@.len() && k != vault_id - 1 ==> final(self).vaults@[k] == old(self).vaults@[k]
                &&& vault_immutable_fields(pre, post)
                &&& post.owner == pre.owner
                &&& post.delegate == delegate
                &&& post.released_amount == pre.released_amount
                &&& post.staked_amount == pre.staked_amount
                &&& post.is_revocable == pre.is_revocable
                &&& post.is_transferable == pre.is_transferable
                &&& post.milestones@ == pre.milestones@
                &&& post.is_initialized
                &&& forall|o2: u64, id2: u64|
                    #[trigger] final(self).index.contains(o2, id2) <==> old(self).index.contains(
                        o2,
                        id2,
                    )
            }),
    {
        if !self.is_initialized {
            return Err(VestingError::InvalidState);
        }
        if self.deprecated {
            return Err(VestingError::InvalidState);
        }
        let i = match self.vault_pos(vault_id) {
            Some(i) => i,
            None => {
                return Err(VestingError::NotFound);
            },
        };
        if !self.vaults[i].is_initialized {
            return Err(VestingError::InvalidState);
        }
        if caller != self.vaults[i].owner {
            return Err(VestingError::Unauthorized);
        }
        let v = &self.vaults[i];
        let v2 = Vault {
            id: v.id,
            owner: v.owner,
            delegate,
            total_amount: v.total_amount,
            released_amount: v.released_amount,
            staked_amount: v.staked_amount,
            start_time: v.start_time,
            end_time: v.end_time,
            step_duration: v.step_duration,
            keeper_fee: v.keeper_fee,
            created_at: v.created_at,
            is_revocable: v.is_revocable,
            is_transferable: v.is_transferable,
            is_initialized: v.is_initialized,
            milestones: clone_milestones(&v.milestones),
        };
        proof {
            lemma_sum_update(self.vaults@, i as int, v2);
        }
        self.vaults.set(i, v2);
        Ok(())
    }

    /// When an admin-only operation on one vault is refused, and with which
    /// error: the admin guard, then the vault lookup.
    pub open spec fn admin_vault_err(self, caller: u64, vault_id: u64) -> Option<VestingError> {
        if self.admin_gate_err(caller) is Some {
            self.admin_gate_err(caller)
        } else if !self.valid_vault_id(vault_id) {
            Some(VestingError::NotFound)
        } else {
            None
        }
    }

    /// Permanently clears the vault's revocability: a one-way switch, after
    /// which revoking the vault always fails.
    pub fn mark_irrevocable(&mut self, caller: u64, vault_id: u64) -> (r: Result<
        (),
        VestingError,
    >)
        requires
            old(self).wf(),
        ensures
            final(self).wf(),
            r is Err ==> *final(self) == *old(self),
            r is Ok <==> (old(self).admin_vault_err(caller, vault_id) is None),
            r is Err ==> r->Err_0 == old(self).admin_vault_err(caller, vault_id)->0,
            vaults_monotone(old(self).vaults@, final(self).vaults@),
            r is Ok ==> ({
                let pre = old(self).vault_of(vault_id);
                let post = final(self).vault_of(vault_id);
                &&& same_config(*old(self), *final(self))
                &&& final(self).total_allocated == old(self).total_allocated
                &&& final(self).vaults@.len() == old(self).vaults@.len()
                &&& forall|k: int|
                    0 <= k < old(self).vaults@.len() && k != vault_id - 1 ==> final(self).vaults@[k] == old(self).vaults@[k]
                &&& vault_immutable_fields(pre, post)
                &&& post.owner == pre.owner
                &&& post.delegate == pre.delegate
                &&& post.released_amount == pre.released_amount
                &&& post.staked_amount == pre.staked_amount
                &&& !post.is_revocable
                &&& post.is_transferable == pre.is_transferable
                &&& post.milestones@ == pre.milestones@
                &&& post.is_initialized
                &&& forall|o2: u64, id2: u64|
                    #[trigger] final(self).index.contains(o2, id2) <==> (old(self).index.contains(
                        o2,
                        id2,
                    ) || (o2 == pre.owner && id2 == vault_id))
            }),
    {
        let gate = self.check_admin_gate(caller);
        if let Err(e) = gate {
            return Err(e);
        }
        let i = match self.vault_pos(vault_id) {
            Some(i) => i,
            None => {
                return Err(VestingError::NotFound);
            },
        };
        let was_initialized = self.vaults[i].is_initialized;
        let owner = self.vaults[i].owner;
        let v = &self.vaults[i];
        let v2 = Vault {
            id: v.id,
            owner: v.owner,
            delegate: v.delegate,
            total_amount: v.total_amount,
            released_amount: v.released_amount,
            staked_amount: v.staked_amount,
            start_time: v.start_time,
            end_time: v.end_time,
            step_duration: v.step_duration,
            keeper_fee: v.keeper_fee,
            created_at: v.created_at,
            is_revocable: false,
            is_transferable: v.is_transferable,
            is_initialized: true,
            milestones: clone_milestones(&v.milestones),
        };
        proof {
            lemma_sum_update(self.vaults@, i as int, v2);
            if !old(self).vaults@[i as int].is_initialized {
                assert forall|o2: u64| !old(self).index.contains(o2, vault_id) by {
                    if old(self).index.contains(o2, vault_id) {
                        assert(old(self).vaults@[vault_id - 1].is_initialized);
                    }
                }
            } else {
                assert(old(self).index.contains(owner, (i + 1) as u64));
            }
        }
        self.vaults.set(i, v2);
        if !was_initialized {
            self.index.insert(owner, vault_id);
        }
        Ok(())
    }

    /// Whether the vault can no longer be revoked.
    pub fn is_vault_irrevocable(&self, vault_id: u64) -> (r: Result<bool, VestingError>)
        requires
            self.wf(),
        ensures
            r is Ok <==> self.valid_vault_id(vault_id),
            r is Err ==> r->Err_0 == VestingError::NotFound,
            r is Ok ==> r->Ok_0 == !self.vault_of(vault_id).is_revocable,
    {
        let i = match self.vault_pos(vault_id) {
            Some(i) => i,
            None => {
                return Err(VestingError::NotFound);
            },
        };
        Ok(!self.vaults[i].is_revocable)
    }

    /// When replacing a vault's milestone list is refused: the admin guard, the
    /// vault lookup, then validity of the list itself (unique ids, each
    /// percentage and their sum at most 100).
    pub open spec fn set_milestones_err(
        self,
        caller: u64,
        vault_id: u64,
        ms: Seq<Milestone>,
    ) -> Option<VestingError> {
        if self.admin_vault_err(caller, vault_id) is Some {
            self.admin_vault_err(caller, vault_id)
        } else if !milestones_wf(ms) {
            Some(VestingError::InvalidArgument)
        } else {
            None
        }
    }

    /// Replaces the vault's milestone list, switching it into (or, with an
    /// empty list, out of) milestone-gated vesting.
    pub fn set_milestones(&mut self, caller: u64, vault_id: u64, milestones: Vec<Milestone>) -> (r:
        Result<(), VestingError>)
        requires
            old(self).wf(),
        ensures
            final(self).wf(),
            r is Err ==> *final(self) == *old(self),
            r is Ok <==> (old(self).set_milestones_err(caller, vault_id, milestones@) is None),
            r is Err ==> r->Err_0 == old(self).set_milestones_err(caller, vault_id, milestones@)->0,
            vaults_monotone(old(self).vaults@, final(self).vaults@),
            r is Ok ==> ({
                let pre = old(self).vault_of(vault_id);
                let post = final(self).vault_of(vault_id);
                &&& same_config(*old(self), *final(self))
                &&& final(self).total_allocated == old(self).total_allocated
                &&& final(self).vaults@.len() == old(self).vaults@.len()
                &&& forall|k: int|
                    0 <= k < old(self).vaults@.len() && k != vault_id - 1 ==> final(self).vaults@[k]
                        == old(self).vaults@[k]
                &&& vault_immutable_fields(pre, post)
                &&& post.owner == pre.owner
                &&& post.delegate == pre.delegate
                &&& post.released_amount == pre.released_amount
                &&& post.staked_amount == pre.staked_amount
                &&& post.is_revocable == pre.is_revocable
                &&& post.is_transferable == pre.is_transferable
                &&& post.milestones@ == milestones@
                &&& post.is_initialized
                &&& forall|o2: u64, id2: u64|
                    #[trigger] final(self).index.contains(o2, id2) <==> (old(self).index.contains(
                        o2,
                        id2,
                    ) || (o2 == pre.owner && id2 == vault_id))
            }),
    {
        let gate = self.check_admin_gate(caller);
        if let Err(e) = gate {
            return Err(e);
        }
        let i = match self.vault_pos(vault_id) {
            Some(i) => i,
            None => {
                return Err(VestingError::NotFound);
            },
        };
        if !check_milestones(&milestones) {
            return Err(VestingError::InvalidArgument);
        }
        let was_initialized = self.vaults[i].is_initialized;
        let owner = self.vaults[i].owner;
        let v = &self.vaults[i];
        let v2 = Vault {
            id: v.id,
            owner: v.owner,
            delegate: v.delegate,
            total_amount: v.total_amount,
            released_amount: v.released_amount,
            staked_amount: v.staked_amount,
            start_time: v.start_time,
            end_time: v.end_time,
            step_duration: v.step_duration,
            keeper_fee: v.keeper_fee,
            created_at: v.created_at,
            is_revocable: v.is_revocable,
            is_transferable: v.is_transferable,
            is_initialized: true,
            milestones,
        };
        proof {
            lemma_sum_update(self.vaults@, i as int, v2);
            if !old(self).vaults@[i as int].is_initialized {
                assert forall|o2: u64| !old(self).index.contains(o2, vault_id) by {
                    if old(self).index.contains(o2, vault_id) {
                        assert(old(self).vaults@[vault_id - 1].is_initialized);
                    }
                }
            } else {
                assert(old(self).index.contains(owner, (i + 1) as u64));
            }
        }
        self.vaults.set(i, v2);
        if !was_initialized {
            self.index.insert(owner, vault_id);
        }
        Ok(())
    }

    /// Whether the vault's milestone list holds the given milestone id.
    pub open spec fn has_milestone(self, vault_id: u64, milestone_id: u64) -> bool {
        exists|j: int|
            0 <= j < self.vault_of(vault_id).milestones@.len() && (#[trigger] self.vault_of(
                vault_id,
            ).milestones@[j]).id == milestone_id
    }

    /// When unlocking a milestone is refused: the admin guard, the vault lookup,
    /// then the milestone lookup.
    pub open spec fn unlock_err(self, caller: u64, vault_id: u64, milestone_id: u64) -> Option<
        VestingError,
    > {
        if self.admin_vault_err(caller, vault_id) is Some {
            self.admin_vault_err(caller, vault_id)
        } else if !self.has_milestone(vault_id, milestone_id) {
            Some(VestingError::NotFound)
        } else {
            None
        }
    }

    /// Marks the named milestone of the vault as unlocked, releasing its
    /// percentage of the principal.
    pub fn unlock_milestone(&mut self, caller: u64, vault_id: u64, milestone_id: u64) -> (r: Result<
        (),
        VestingError,
    >)
        requires
            old(self).wf(),
        ensures
            final(self).wf(),
            r is Err ==> *final(self) == *old(self),
            r is Ok <==> (old(self).unlock_err(caller, vault_id, milestone_id) is None),
            r is Err ==> r->Err_0 == old(self).unlock_err(caller, vault_id, milestone_id)->0,
            vaults_monotone(old(self).vaults@, final(self).vaults@),
            r is Ok ==> ({
                let pre = old(self).vault_of(vault_id);
                let post = final(self).vault_of(vault_id);
                &&& same_config(*old(self), *final(self))
                &&& final(self).total_allocated == old(self).total_allocated
                &&& final(self).vaults@.len() == old(self).vaults@.len()
                &&& forall|k: int|
                    0 <= k < old(self).vaults@.len() && k != vault_id - 1 ==> final(self).vaults@[k]
                        == old(self).vaults@[k]
                &&& vault_immutable_fields(pre, post)
                &&& post.owner == pre.owner
                &&& post.delegate == pre.delegate
                &&& post.released_amount == pre.released_amount
                &&& post.staked_amount == pre.staked_amount
                &&& post.is_revocable == pre.is_revocable
                &&& post.is_transferable == pre.is_transferable
                &&& post.is_initialized
                &&& exists|j: int|
                    {
                        &&& 0 <= j < pre.milestones@.len()
                        &&& (#[trigger] pre.milestones@[j]).id == milestone_id
                        &&& post.milestones@ == pre.milestones@.update(
                            j,
                            Milestone {
                                id: milestone_id,
                                percentage: pre.milestones@[j].percentage,
                                is_unlocked: true,
                            },
                        )
                    }
                &&& forall|o2: u64, id2: u64|
                    #[trigger] final(self).index.contains(o2, id2) <==> (old(self).index.contains(
                        o2,
                        id2,
                    ) || (o2 == pre.owner && id2 == vault_id))
            }),
    {
        let gate = self.check_admin_gate(caller);
        if let Err(e) = gate {
            return Err(e);
        }
        let i = match self.vault_pos(vault_id) {
            Some(i) => i,
            None => {
                return Err(VestingError::NotFound);
            },
        };
        // locate the milestone
        let n = self.vaults[i].milestones.len();
        let mut j: usize = 0;
        let mut found: bool = false;
        while j < n && !found
            invariant
                self.wf(),
                *self == *old(self),
                i == vault_id - 1,
                1 <= vault_id <= self.vaults@.len(),
                n == self.vaults@[i as int].milestones@.len(),
                j <= n,
                !found ==> forall|k: int|
                    0 <= k < j ==> (#[trigger] self.vaults@[i as int].milestones@[k]).id
                        != milestone_id,
                found ==> j < n && self.vaults@[i as int].milestones@[j as int].id == milestone_id,
            decreases n - j, (if found { 0int } else { 1int }),
        {
            if self.vaults[i].milestones[j].id == milestone_id {
                found = true;
            } else {
                j = j + 1;
            }
        }
        if !found {
            return Err(VestingError::NotFound);
        }
        let was_initialized = self.vaults[i].is_initialized;
        let owner = self.vaults[i].owner;
        let v = &self.vaults[i];
        let mut new_ms = clone_milestones(&v.milestones);
        let pct = new_ms[j].percentage;
        new_ms.set(j, Milestone { id: milestone_id, percentage: pct, is_unlocked: true });
        let v2 = Vault {
            id: v.id,
            owner: v.owner,
            delegate: v.delegate,
            total_amount: v.total_amount,
            released_amount: v.released_amount,
            staked_amount: v.staked_amount,
            start_time: v.start_time,
            end_time: v.end_time,
            step_duration: v.step_duration,
            keeper_fee: v.keeper_fee,
            created_at: v.created_at,
            is_revocable: v.is_revocable,
            is_transferable: v.is_transferable,
            is_initialized: true,
            milestones: new_ms,
        };
        proof {
            lemma_sum_update(self.vaults@, i as int, v2);
            lemma_percent_sum_update(
                old(self).vaults@[i as int].milestones@,
                j as int,
                Milestone { id: milestone_id, percentage: pct, is_unlocked: true },
            );
            if !old(self).vaults@[i as int].is_initialized {
                assert forall|o2: u64| !old(self).index.contains(o2, vault_id) by {
                    if old(self).index.contains(o2, vault_id) {
                        assert(old(self).vaults@[vault_id - 1].is_initialized);
                    }
                }
            } else {
                assert(old(self).index.contains(owner, (i + 1) as u64));
            }
        }
        self.vaults.set(i, v2);
        if !was_initialized {
            self.index.insert(owner, vault_id);
        }
        Ok(())
    }
}

/// Checks that a milestone list is well-formed: ids unique, each percentage
/// at most 100, percentages summing to at most 100.
fn check_milestones(ms: &Vec<Milestone>) -> (r: bool)
    ensures
        r == milestones_wf(ms@),
{
    let n = ms.len();
    let mut i: usize = 0;
    while i < n
        invariant
            n == ms@.len(),
            i <= n,
            forall|a: int, b: int| 0 <= a < b < n && a < i ==> ms@[a].id != ms@[b].id,
        decreases n - i,
    {
        let mut j: usize = i + 1;
        while j < n
            invariant
                n == ms@.len(),
                i < n,
                i < j <= n,
                forall|b: int| i < b < j ==> ms@[i as int].id != ms@[b].id,
                forall|a: int, b: int| 0 <= a < b < n && a < i ==> ms@[a].id != ms@[b].id,
            decreases n - j,
        {
            if ms[i].id == ms[j].id {
                return false;
            }
            j = j + 1;
        }
        i = i + 1;
    }
    let mut k: usize = 0;
    let mut acc: u32 = 0;
    while k < n
        invariant
            n == ms@.len(),
            k <= n,
            milestone_ids_unique(ms@),
            forall|a: int| 0 <= a < k ==> (#[trigger] ms@[a]).percentage <= 100,
            acc == percent_sum(ms@.take(k as int)),
            acc <= 100,
        decreases n - k,
    {
        proof {
            ms@.lemma_take_succ_push(k as int);
            assert(ms@.take(k + 1).drop_last() =~= ms@.take(k as int));
        }
        if ms[k].percentage > 100 {
            return false;
        }
        if acc + ms[k].percentage > 100 {
            proof {
                lemma_percent_sum_take(ms@, k + 1);
            }
            return false;
        }
        acc = acc + ms[k].percentage;
        k = k + 1;
    }
    proof {
        assert(ms@.take(n as int) =~= ms@);
    }
    true
}

} // verus!
