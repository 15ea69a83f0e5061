use vstd::prelude::*;
use vstd::arithmetic::div_mod::{lemma_div_is_ordered, lemma_div_multiples_vanish, lemma_div_pos_is_pos};
use vstd::arithmetic::mul::{lemma_mul_inequality, lemma_mul_is_commutative, lemma_mul_nonnegative, lemma_mul_upper_bound};
use crate::errors::VestingError;
use crate::ledger::TokenLedger;
use crate::lifecycle::clone_milestones;
use crate::schedule::{claimable, claimable_spec, vested, vested_spec, lemma_claimable_bounds};
use crate::state::{VestingContract, same_config, vaults_monotone, lemma_sum_update, lemma_sum_bounds, lemma_vault_le_sum};
use crate::vault::{Vault, AMOUNT_LIMIT, GRACE_PERIOD, vault_immutable_fields};

verus! {

/// How a successful release of `amount` at `now` rewrites the vault: the
/// released amount grows by the claim, the escrowed stake is driven to zero
/// whenever the unstaked entitlement would not cover the claim, and the vault
/// counts as initialized.
pub open spec fn vault_released(pre: Vault, post: Vault, amount: int, now: u64) -> bool {
    &&& vault_immutable_fields(pre, post)
    &&& post.owner == pre.owner
    &&& post.delegate == pre.delegate
    &&& post.released_amount == pre.released_amount + amount
    &&& post.staked_amount == (if amount > claimable_spec(pre, now) - pre.staked_amount {
        0
    } else {
        pre.staked_amount
    })
    &&& post.is_revocable == pre.is_revocable
    &&& post.is_transferable == pre.is_transferable
    &&& post.milestones@ == pre.milestones@
    &&& post.is_initialized
}

/// How a revoke or clawback closes the vault: the released amount jumps to
/// the whole principal, the stake is cleared, and everything else is kept.
pub open spec fn vault_closed(pre: Vault, post: Vault) -> bool {
    &&& vault_immutable_fields(pre, post)
    &&& post.owner == pre.owner
    &&& post.delegate == pre.delegate
    &&& post.released_amount == pre.total_amount
    &&& post.staked_amount == 0
    &&& post.is_revocable == pre.is_revocable
    &&& post.is_transferable == pre.is_transferable
    &&& post.milestones@ == pre.milestones@
    &&& post.is_initialized
}

/// Cap invariant at the ledger level: in a well-formed state every vault has
/// released at most its principal, and its claimable entitlement is never
/// negative at any time.
pub proof fn lemma_release_cap(s: VestingContract, vault_id: u64, at: u64)
    requires
        s.wf(),
        s.valid_vault_id(vault_id),
    ensures
        0 <= s.vault_of(vault_id).released_amount <= s.vault_of(vault_id).total_amount,
        0 <= claimable_spec(s.vault_of(vault_id), at),
        claimable_spec(s.vault_of(vault_id), at) <= s.vault_of(vault_id).total_amount
            - s.vault_of(vault_id).released_amount,
{
    assert(s.vaults@[vault_id - 1].wf());
    lemma_claimable_bounds(s.vault_of(vault_id), at);
}

impl VestingContract {
    /// The surplus of the accounted asset held by the contract beyond what
    /// backs the ledger (the outstanding vault liabilities plus the positive
    /// part of the un-allocated supply). This surplus is what external yield
    /// deposits produce, and claims pay it out proportionally.
    pub open spec fn yield_pool_spec(self, ledger: TokenLedger) -> int {
        if self.token is Some {
            let backing = self.total_locked_spec() + (if self.admin_balance_spec() > 0 {
                self.admin_balance_spec()
            } else {
                0
            });
            let held = ledger.bal(self.token->0, self.contract_address);
            if held > backing {
                held - backing
            } else {
                0
            }
        } else {
            0
        }
    }

    /// What a successful claim of `amount` pays out: the claimed principal
    /// plus the claim's proportional share of the yield surplus, in the ratio
    /// of the claim to all outstanding liabilities (floored). Without an
    /// accounted token the claim is pure accounting and pays the principal.
    pub open spec fn payout_spec(self, ledger: TokenLedger, amount: int) -> int {
        if self.token is Some && self.total_locked_spec() > 0 {
            amount + self.yield_pool_spec(ledger) * amount / self.total_locked_spec()
        } else {
            amount
        }
    }

    /// When a claim by the vault's owner fails, and with which error.
    pub open spec fn claim_err(
        self,
        ledger: TokenLedger,
        caller: u64,
        vault_id: u64,
        amount: i128,
        now: u64,
    ) -> Option<VestingError> {
        if !self.is_initialized {
            Some(VestingError::InvalidState)
        } else if self.deprecated {
            Some(VestingError::InvalidState)
        } else if self.paused {
            Some(VestingError::InvalidState)
        } else if !self.valid_vault_id(vault_id) {
            Some(VestingError::NotFound)
        } else if caller != self.vault_of(vault_id).owner {
            Some(VestingError::Unauthorized)
        } else if amount <= 0 {
            Some(VestingError::InvalidArgument)
        } else if amount > claimable_spec(self.vault_of(vault_id), now) {
            Some(VestingError::InsufficientBalance)
        } else if self.token is Some && ledger.bal(self.token->0, self.contract_address)
            < self.payout_spec(ledger, amount as int) {
            Some(VestingError::InsufficientBalance)
        } else {
            None
        }
    }

    /// When a claim by the vault's delegate fails, and with which error: the
    /// vault must already be initialized and carry this caller as delegate.
    pub open spec fn delegate_claim_err(
        self,
        ledger: TokenLedger,
        caller: u64,
        vault_id: u64,
        amount: i128,
        now: u64,
    ) -> Option<VestingError> {
        if !self.is_initialized {
            Some(VestingError::InvalidState)
        } else if self.deprecated {
            Some(VestingError::InvalidState)
        } else if self.paused {
            Some(VestingError::InvalidState)
        } else if !self.valid_vault_id(vault_id) {
            Some(VestingError::NotFound)
        } else if !self.vault_of(vault_id).is_initialized {
            Some(VestingError::InvalidState)
        } else if self.vault_of(vault_id).delegate != Some(caller) {
            Some(VestingError::Unauthorized)
        } else if amount <= 0 {
            Some(VestingError::InvalidArgument)
        } else if amount > claimable_spec(self.vault_of(vault_id), now) {
            Some(VestingError::InsufficientBalance)
        } else if self.token is Some && ledger.bal(self.token->0, self.contract_address)
            < self.payout_spec(ledger, amount as int) {
            Some(VestingError::InsufficientBalance)
        } else {
            None
        }
    }

    /// What a successful release leaves of the contract state and of the
    /// ledger: the vault is rewritten as `vault_released` says, the paid
    /// amount moves from the contract to the recipient, and nothing else
    /// changes.
    pub open spec fn release_post(
        self,
        ledger: TokenLedger,
        pre_state: Self,
        pre_ledger: TokenLedger,
        vault_id: u64,
        recipient: u64,
        amount: i128,
        now: u64,
        paid: i128,
    ) -> bool {
        let pre = pre_state.vault_of(vault_id);
        &&& paid == pre_state.payout_spec(pre_ledger, amount as int)
        &&& same_config(pre_state, self)
        &&& self.total_allocated == pre_state.total_allocated
        &&& self.vaults@.len() == pre_state.vaults@.len()
        &&& forall|k: int|
            0 <= k < pre_state.vaults@.len() && k != vault_id - 1 ==> self.vaults@[k]
                == pre_state.vaults@[k]
        &&& vault_released(pre, self.vault_of(vault_id), amount as int, now)
        &&& forall|o2: u64, id2: u64|
            #[trigger] self.index.contains(o2, id2) <==> (pre_state.index.contains(o2, id2) || (o2
                == pre.owner && id2 == vault_id))
        &&& ledger.total_minted == pre_ledger.total_minted
        &&& (pre_state.token is None ==> ledger == pre_ledger)
        &&& (pre_state.token is Some ==> forall|t: u64, a: u64|
            #[trigger] ledger.bal(t, a) == pre_ledger.bal(t, a) + (if t == pre_state.token->0 && a
                == recipient {
                paid as int
            } else {
                0
            }) - (if t == pre_state.token->0 && a == pre_state.contract_address {
                paid as int
            } else {
                0
            }))
    }

    /// Performs a release whose authorization and entitlement checks already
    /// passed: computes the payout, transfers it, and updates the vault.
    fn do_release(
        &mut self,
        ledger: &mut TokenLedger,
        vault_id: u64,
        recipient: u64,
        amount: i128,
        now: u64,
    ) -> (r: Result<i128, VestingError>)
        requires
            old(self).wf(),
            old(ledger).wf(),
            old(self).valid_vault_id(vault_id),
            0 < amount <= claimable_spec(old(self).vault_of(vault_id), now),
        ensures
            final(self).wf(),
            final(ledger).wf(),
            vaults_monotone(old(self).vaults@, final(self).vaults@),
            r is Err ==> *final(self) == *old(self) && *final(ledger) == *old(ledger),
            r is Err ==> r->Err_0 == VestingError::InsufficientBalance,
            r is Ok <==> !(old(self).token is Some && old(ledger).bal(
                old(self).token->0,
                old(self).contract_address,
            ) < old(self).payout_spec(*old(ledger), amount as int)),
            r is Ok ==> final(self).release_post(
                *final(ledger),
                *old(self),
                *old(ledger),
                vault_id,
                recipient,
                amount,
                now,
                r->Ok_0,
            ),
    {
        let i = match self.vault_pos(vault_id) {
            Some(i) => i,
            None => {
                proof {
                    assert(false);
                }
                return Err(VestingError::InsufficientBalance);
            },
        };
        proof {
            lemma_claimable_bounds(old(self).vaults@[i as int], now);
            lemma_vault_le_sum(old(self).vaults@, i as int);
            lemma_sum_bounds(old(self).vaults@);
        }
        // settle the payout, transferring it when an accounted token is set
        let payout: i128;
        match self.token {
            None => {
                payout = amount;
            },
            Some(tok) => {
                let (locked, _claimed) = self.compute_totals();
                let admin_bal = self.initial_supply - self.total_allocated;
                let backing = locked + (if admin_bal > 0 {
                    admin_bal
                } else {
                    0
                });
                let held = ledger.balance_of(tok, self.contract_address);
                let pool = if held > backing {
                    held - backing
                } else {
                    0
                };
                proof {
                    lemma_mul_nonnegative(pool as int, amount as int);
                    lemma_mul_upper_bound(
                        pool as int,
                        AMOUNT_LIMIT as int,
                        amount as int,
                        AMOUNT_LIMIT as int,
                    );
                    // the yield share never exceeds the pool
                    lemma_mul_inequality(amount as int, locked as int, pool as int);
                    lemma_mul_is_commutative(pool as int, amount as int);
                    lemma_mul_is_commutative(pool as int, locked as int);
                    lemma_div_is_ordered(
                        (pool as int) * (amount as int),
                        (pool as int) * (locked as int),
                        locked as int,
                    );
                    lemma_mul_is_commutative(locked as int, pool as int);
                    lemma_div_multiples_vanish(pool as int, locked as int);
                    lemma_div_pos_is_pos((pool as int) * (amount as int), locked as int);
                }
                let num: u128 = (pool as u128) * (amount as u128);
                let y: i128 = (num / (locked as u128)) as i128;
                payout = amount + y;
                let res = ledger.transfer(tok, self.contract_address, recipient, payout);
                if let Err(_) = res {
                    return Err(VestingError::InsufficientBalance);
                }
            },
        }
        // record the release in the vault
        let was_initialized = self.vaults[i].is_initialized;
        let owner = self.vaults[i].owner;
        let claimable_now = claimable(&self.vaults[i], now);
        let v = &self.vaults[i];
        let new_staked: i128 = if amount > claimable_now - v.staked_amount {
            0
        } else {
            v.staked_amount
        };
        let v2 = Vault {
            id: v.id,
            owner: v.owner,
            delegate: v.delegate,
            total_amount: v.total_amount,
            released_amount: v.released_amount + amount,
            staked_amount: new_staked,
            start_time: v.start_time,
            end_time: v.end_time,
            step_duration: v.step_duration,
            keeper_fee: v.keeper_fee,
            created_at: v.created_at,
            is_revocable: v.is_revocable,
            is_transferable: v.is_transferable,
            is_initialized: true,
            milestones: clone_milestones(&v.milestones),
        };
        proof {
            lemma_sum_update(self.vaults@, i as int, v2);
            if !old(self).vaults@[i as int].is_initialized {
                assert forall|o2: u64| !old(self).index.contains(o2, vault_id) by {
                    if old(self).index.contains(o2, vault_id) {
                        assert(old(self).vaults@[vault_id - 1].is_initialized);
                    }
                }
            } else {
                assert(old(self).index.contains(owner, (i + 1) as u64));
            }
        }
        self.vaults.set(i, v2);
        if !was_initialized {
            self.index.insert(owner, vault_id);
        }
        Ok(payout)
    }

    /// The claimable entitlement of the vault right now: what the schedule
    /// has vested, net of what was already released. Read-only.
    pub fn get_claimable_amount(&self, vault_id: u64, now: u64) -> (r: Result<i128, VestingError>)
        requires
            self.wf(),
        ensures
            r is Ok <==> self.valid_vault_id(vault_id),
            r is Err ==> r->Err_0 == VestingError::NotFound,
            r is Ok ==> r->Ok_0 == claimable_spec(self.vault_of(vault_id), now),
    {
        let i = match self.vault_pos(vault_id) {
            Some(i) => i,
            None => {
                return Err(VestingError::NotFound);
            },
        };
        Ok(claimable(&self.vaults[i], now))
    }

    /// Projects the claimable entitlement at an arbitrary timestamp, net of
    /// the amount released so far. Read-only.
    pub fn preview_claimable_at(&self, vault_id: u64, at: u64) -> (r: Result<i128, VestingError>)
        requires
            self.wf(),
        ensures
            r is Ok <==> self.valid_vault_id(vault_id),
            r is Err ==> r->Err_0 == VestingError::NotFound,
            r is Ok ==> r->Ok_0 == claimable_spec(self.vault_of(vault_id), at),
    {
        let i = match self.vault_pos(vault_id) {
            Some(i) => i,
            None => {
                return Err(VestingError::NotFound);
            },
        };
        Ok(claimable(&self.vaults[i], at))
    }

    /// Releases `amount` of the vault's claimable entitlement to its owner,
    /// paying out the principal plus the proportional yield share.
    pub fn claim_tokens(
        &mut self,
        ledger: &mut TokenLedger,
        caller: u64,
        vault_id: u64,
        amount: i128,
        now: u64,
    ) -> (r: Result<i128, VestingError>)
        requires
            old(self).wf(),
            old(ledger).wf(),
        ensures
            final(self).wf(),
            final(ledger).wf(),
            vaults_monotone(old(self).vaults@, final(self).vaults@),
            r is Err ==> *final(self) == *old(self) && *final(ledger) == *old(ledger),
            r is Ok <==> (old(self).claim_err(*old(ledger), caller, vault_id, amount, now) is None),
            r is Err ==> r->Err_0 == old(self).claim_err(
                *old(ledger),
                caller,
                vault_id,
                amount,
                now,
            )->0,
            r is Ok ==> final(self).release_post(
                *final(ledger),
                *old(self),
                *old(ledger),
                vault_id,
                caller,
                amount,
                now,
                r->Ok_0,
            ),
    {
        if !self.is_initialized {
            return Err(VestingError::InvalidState);
        }
        if self.deprecated {
            return Err(VestingError::InvalidState);
        }
        if self.paused {
            return Err(VestingError::InvalidState);
        }
        let i = match self.vault_pos(vault_id) {
            Some(i) => i,
            None => {
                return Err(VestingError::NotFound);
            },
        };
        if caller != self.vaults[i].owner {
            return Err(VestingError::Unauthorized);
        }
        if amount <= 0 {
            return Err(VestingError::InvalidArgument);
        }
        let entitled = claimable(&self.vaults[i], now);
        if amount > entitled {
            return Err(VestingError::InsufficientBalance);
        }
        self.do_release(ledger, vault_id, caller, amount, now)
    }

    /// Releases `amount` of the vault's claimable entitlement to its
    /// delegate; the vault must be initialized and carry the caller as its
    /// current delegate.
    pub fn claim_as_delegate(
        &mut self,
        ledger: &mut TokenLedger,
        caller: u64,
        vault_id: u64,
        amount: i128,
        now: u64,
    ) -> (r: Result<i128, VestingError>)
        requires
            old(self).wf(),
            old(ledger).wf(),
        ensures
            final(self).wf(),
            final(ledger).wf(),
            vaults_monotone(old(self).vaults@, final(self).vaults@),
            r is Err ==> *final(self) == *old(self) && *final(ledger) == *old(ledger),
            r is Ok <==> (old(self).delegate_claim_err(
                *old(ledger),
                caller,
                vault_id,
                amount,
                now,
            ) is None),
            r is Err ==> r->Err_0 == old(self).delegate_claim_err(
                *old(ledger),
                caller,
                vault_id,
                amount,
                now,
            )->0,
            r is Ok ==> final(self).release_post(
                *final(ledger),
                *old(self),
                *old(ledger),
                vault_id,
                caller,
                amount,
                now,
                r->Ok_0,
            ),
    {
        if !self.is_initialized {
            return Err(VestingError::InvalidState);
        }
        if self.deprecated {
            return Err(VestingError::InvalidState);
        }
        if self.paused {
            return Err(VestingError::InvalidState);
        }
        let i = match self.vault_pos(vault_id) {
            Some(i) => i,
            None => {
                return Err(VestingError::NotFound);
            },
        };
        if !self.vaults[i].is_initialized {
            return Err(VestingError::InvalidState);
        }
        let delegate_ok = match self.vaults[i].delegate {
            Some(d) => d == caller,
            None => false,
        };
        if !delegate_ok {
            return Err(VestingError::Unauthorized);
        }
        if amount <= 0 {
            return Err(VestingError::InvalidArgument);
        }
        let entitled = claimable(&self.vaults[i], now);
        if amount > entitled {
            return Err(VestingError::InsufficientBalance);
        }
        self.do_release(ledger, vault_id, caller, amount, now)
    }

    /// When staking part of the entitlement fails, and with which error.
    pub open spec fn stake_err(self, caller: u64, vault_id: u64, amount: i128, now: u64) -> Option<
        VestingError,
    > {
        if !self.is_initialized {
            Some(VestingError::InvalidState)
        } else if self.deprecated {
            Some(VestingError::InvalidState)
        } else if !self.valid_vault_id(vault_id) {
            Some(VestingError::NotFound)
        } else if caller != self.vault_of(vault_id).owner {
            Some(VestingError::Unauthorized)
        } else if amount <= 0 {
            Some(VestingError::InvalidArgument)
        } else if amount > claimable_spec(self.vault_of(vault_id), now) - self.vault_of(
            vault_id,
        ).staked_amount {
            Some(VestingError::InsufficientBalance)
        } else {
            None
        }
    }

    /// Escrows `amount` of the vault's unclaimed-but-vested entitlement with
    /// the staking collaborator identified by `validator`; the escrow is
    /// tracked in the vault and is not claimable until driven back to zero.
    pub fn stake_tokens(
        &mut self,
        caller: u64,
        vault_id: u64,
        amount: i128,
        validator: u64,
        now: u64,
    ) -> (r: Result<(), VestingError>)
        requires
            old(self).wf(),
        ensures
            final(self).wf(),
            vaults_monotone(old(self).vaults@, final(self).vaults@),
            r is Err ==> *final(self) == *old(self),
            r is Ok <==> (old(self).stake_err(caller, vault_id, amount, now) is None),
            r is Err ==> r->Err_0 == old(self).stake_err(caller, vault_id, amount, now)->0,
            r is Ok ==> ({
                let pre = old(self).vault_of(vault_id);
                let post = final(self).vault_of(vault_id);
                &&& same_config(*old(self), *final(self))
                &&& final(self).total_allocated == old(self).total_allocated
                &&& final(self).vaults@.len() == old(self).vaults@.len()
                &&& forall|k: int|
                    0 <= k < old(self).vaults@.len() && k != vault_id - 1 ==> final(self).vaults@[k]
                        == old(self).vaults@[k]
                &&& vault_immutable_fields(pre, post)
                &&& post.owner == pre.owner
                &&& post.delegate == pre.delegate
                &&& post.released_amount == pre.released_amount
                &&& post.staked_amount == pre.staked_amount + amount
                &&& post.is_revocable == pre.is_revocable
                &&& post.is_transferable == pre.is_transferable
                &&& post.milestones@ == pre.milestones@
                &&& post.is_initialized
                &&& forall|o2: u64, id2: u64|
                    #[trigger] final(self).index.contains(o2, id2) <==> (old(self).index.contains(
                        o2,
                        id2,
                    ) || (o2 == pre.owner && id2 == vault_id))
            }),
    {
        let _ = validator;
        if !self.is_initialized {
            return Err(VestingError::InvalidState);
        }
        if self.deprecated {
            return Err(VestingError::InvalidState);
        }
        let i = match self.vault_pos(vault_id) {
            Some(i) => i,
            None => {
                return Err(VestingError::NotFound);
            },
        };
        if caller != self.vaults[i].owner {
            return Err(VestingError::Unauthorized);
        }
        if amount <= 0 {
            return Err(VestingError::InvalidArgument);
        }
        proof {
            lemma_claimable_bounds(old(self).vaults@[i as int], now);
        }
        let entitled = claimable(&self.vaults[i], now);
        if amount > entitled - self.vaults[i].staked_amount {
            return Err(VestingError::InsufficientBalance);
        }
        let was_initialized = self.vaults[i].is_initialized;
        let owner = self.vaults[i].owner;
        let v = &self.vaults[i];
        let v2 = Vault {
            id: v.id,
            owner: v.owner,
            delegate: v.delegate,
            total_amount: v.total_amount,
            released_amount: v.released_amount,
            staked_amount: v.staked_amount + amount,
            start_time: v.start_time,
            end_time: v.end_time,
            step_duration: v.step_duration,
            keeper_fee: v.keeper_fee,
            created_at: v.created_at,
            is_revocable: v.is_revocable,
            is_transferable: v.is_transferable,
            is_initialized: true,
            milestones: clone_milestones(&v.milestones),
        };
        proof {
            lemma_sum_update(self.vaults@, i as int, v2);
            if !old(self).vaults@[i as int].is_initialized {
                assert forall|o2: u64| !old(self).index.contains(o2, vault_id) by {
                    if old(self).index.contains(o2, vault_id) {
                        assert(old(self).vaults@[vault_id - 1].is_initialized);
                    }
                }
            } else {
                assert(old(self).index.contains(owner, (i + 1) as u64));
            }
        }
        self.vaults.set(i, v2);
        if !was_initialized {
            self.index.insert(owner, vault_id);
        }
        Ok(())
    }

    /// When revoking is refused, and with which error: the admin guard, the vault
    /// lookup, then the vault's own state (it must still be revocable and not
    /// already fully released).
    pub open spec fn revoke_err(self, caller: u64, vault_id: u64) -> Option<VestingError> {
        if self.admin_vault_err(caller, vault_id) is Some {
            self.admin_vault_err(caller, vault_id)
        } else if !self.vault_of(vault_id).is_revocable {
            Some(VestingError::InvalidState)
        } else if self.vault_of(vault_id).released_amount == self.vault_of(
            vault_id,
        ).total_amount {
            Some(VestingError::InvalidState)
        } else {
            None
        }
    }

    /// Revokes the vault: computes the vested/unvested split at `now` for
    /// bookkeeping, then closes the vault by releasing the whole principal in
    /// one step. Returns `(vested, unvested)`.
    pub fn revoke_tokens(&mut self, caller: u64, vault_id: u64, now: u64) -> (r: Result<
        (i128, i128),
        VestingError,
    >)
        requires
            old(self).wf(),
        ensures
            final(self).wf(),
            vaults_monotone(old(self).vaults@, final(self).vaults@),
            r is Err ==> *final(self) == *old(self),
            r is Ok <==> (old(self).revoke_err(caller, vault_id) is None),
            r is Err ==> r->Err_0 == old(self).revoke_err(caller, vault_id)->0,
            r is Ok ==> ({
                let pre = old(self).vault_of(vault_id);
                &&& r->Ok_0.0 == vested_spec(pre, now)
                &&& r->Ok_0.1 == pre.total_amount - vested_spec(pre, now)
                &&& same_config(*old(self), *final(self))
                &&& final(self).total_allocated == old(self).total_allocated
                &&& final(self).vaults@.len() == old(self).vaults@.len()
                &&& forall|k: int|
                    0 <= k < old(self).vaults@.len() && k != vault_id - 1 ==> final(self).vaults@[k]
                        == old(self).vaults@[k]
                &&& vault_closed(pre, final(self).vault_of(vault_id))
                &&& forall|o2: u64, id2: u64|
                    #[trigger] final(self).index.contains(o2, id2) <==> (old(self).index.contains(
                        o2,
                        id2,
                    ) || (o2 == pre.owner && id2 == vault_id))
            }),
    {
        let gate = self.check_admin_gate(caller);
        if let Err(e) = gate {
            return Err(e);
        }
        let i = match self.vault_pos(vault_id) {
            Some(i) => i,
            None => {
                return Err(VestingError::NotFound);
            },
        };
        if !self.vaults[i].is_revocable {
            return Err(VestingError::InvalidState);
        }
        if self.vaults[i].released_amount == self.vaults[i].total_amount {
            return Err(VestingError::InvalidState);
        }
        let vested_now = vested(&self.vaults[i], now);
        let unvested = self.vaults[i].total_amount - vested_now;
        self.close_vault(i);
        Ok((vested_now, unvested))
    }

    /// When a clawback is refused, and with which error: the admin guard, the vault
    /// lookup, the grace window, then the vault's own state.
    pub open spec fn clawback_err(self, caller: u64, vault_id: u64, now: u64) -> Option<
        VestingError,
    > {
        if self.admin_vault_err(caller, vault_id) is Some {
            self.admin_vault_err(caller, vault_id)
        } else if now > self.vault_of(vault_id).created_at + GRACE_PERIOD {
            Some(VestingError::InvalidState)
        } else if self.vault_of(vault_id).released_amount == self.vault_of(
            vault_id,
        ).total_amount {
            Some(VestingError::InvalidState)
        } else {
            None
        }
    }

    /// Reverses the vault unconditionally, regardless of vesting progress;
    /// permitted only within the grace window after its creation. Returns the
    /// whole reversed principal.
    pub fn clawback_vault(&mut self, caller: u64, vault_id: u64, now: u64) -> (r: Result<
        i128,
        VestingError,
    >)
        requires
            old(self).wf(),
        ensures
            final(self).wf(),
            vaults_monotone(old(self).vaults@, final(self).vaults@),
            r is Err ==> *final(self) == *old(self),
            r is Ok <==> (old(self).clawback_err(caller, vault_id, now) is None),
            r is Err ==> r->Err_0 == old(self).clawback_err(caller, vault_id, now)->0,
            r is Ok ==> ({
                let pre = old(self).vault_of(vault_id);
                &&& r->Ok_0 == pre.total_amount
                &&& same_config(*old(self), *final(self))
                &&& final(self).total_allocated == old(self).total_allocated
                &&& final(self).vaults@.len() == old(self).vaults@.len()
                &&& forall|k: int|
                    0 <= k < old(self).vaults@.len() && k != vault_id - 1 ==> final(self).vaults@[k]
                        == old(self).vaults@[k]
                &&& vault_closed(pre, final(self).vault_of(vault_id))
                &&& forall|o2: u64, id2: u64|
                    #[trigger] final(self).index.contains(o2, id2) <==> (old(self).index.contains(
                        o2,
                        id2,
                    ) || (o2 == pre.owner && id2 == vault_id))
            }),
    {
        let gate = self.check_admin_gate(caller);
        if let Err(e) = gate {
            return Err(e);
        }
        let i = match self.vault_pos(vault_id) {
            Some(i) => i,
            None => {
                return Err(VestingError::NotFound);
            },
        };
        let created = self.vaults[i].created_at;
        if now > created && now - created > GRACE_PERIOD {
            return Err(VestingError::InvalidState);
        }
        if self.vaults[i].released_amount == self.vaults[i].total_amount {
            return Err(VestingError::InvalidState);
        }
        let total = self.vaults[i].total_amount;
        self.close_vault(i);
        Ok(total)
    }

    /// Closes the vault at position `i`: releases the whole principal and
    /// clears the escrowed stake.
    fn close_vault(&mut self, i: usize)
        requires
            old(self).wf(),
            i < old(self).vaults@.len(),
        ensures
            final(self).wf(),
            vaults_monotone(old(self).vaults@, final(self).vaults@),
            same_config(*old(self), *final(self)),
            final(self).total_allocated == old(self).total_allocated,
            final(self).vaults@.len() == old(self).vaults@.len(),
            forall|k: int|
                0 <= k < old(self).vaults@.len() && k != i ==> final(self).vaults@[k] == old(
                    self,
                ).vaults@[k],
            vault_closed(old(self).vaults@[i as int], final(self).vaults@[i as int]),
            forall|o2: u64, id2: u64|
                #[trigger] final(self).index.contains(o2, id2) <==> (old(self).index.contains(
                    o2,
                    id2,
                ) || (o2 == old(self).vaults@[i as int].owner && id2 == i + 1)),
    {
        let was_initialized = self.vaults[i].is_initialized;
        let owner = self.vaults[i].owner;
        let id: u64 = (i as u64) + 1;
        let v = &self.vaults[i];
        let v2 = Vault {
            id: v.id,
            owner: v.owner,
            delegate: v.delegate,
            total_amount: v.total_amount,
            released_amount: v.total_amount,
            staked_amount: 0,
            start_time: v.start_time,
            end_time: v.end_time,
            step_duration: v.step_duration,
            keeper_fee: v.keeper_fee,
            created_at: v.created_at,
            is_revocable: v.is_revocable,
            is_transferable: v.is_transferable,
            is_initialized: true,
            milestones: clone_milestones(&v.milestones),
        };
        proof {
            lemma_sum_update(self.vaults@, i as int, v2);
            if !old(self).vaults@[i as int].is_initialized {
                assert forall|o2: u64| !old(self).index.contains(o2, id) by {
                    if old(self).index.contains(o2, id) {
                        assert(old(self).vaults@[id - 1].is_initialized);
                    }
                }
            } else {
                assert(old(self).index.contains(owner, (i + 1) as u64));
            }
        }
        self.vaults.set(i, v2);
        if !was_initialized {
            self.index.insert(owner, id);
        }
    }

    /// When a rescue is refused, and with which error: the admin guard, then the
    /// eligibility of the asset, then the availability of a surplus.
    pub open spec fn rescue_err(self, ledger: TokenLedger, caller: u64, token: u64) -> Option<
        VestingError,
    > {
        if self.admin_gate_err(caller) is Some {
            self.admin_gate_err(caller)
        } else if !self.whitelist@.contains(token) {
            Some(VestingError::InvalidArgument)
        } else if self.token == Some(token) {
            Some(VestingError::InvalidArgument)
        } else if ledger.bal(token, self.contract_address) == 0 {
            Some(VestingError::InsufficientBalance)
        } else if ledger.bal(token, self.contract_address) <= self.total_locked_spec() {
            Some(VestingError::InsufficientBalance)
        } else {
            None
        }
    }

    /// Sends the admin whatever the contract holds of a whitelisted asset
    /// beyond the outstanding vault liabilities. The accounted yield-bearing
    /// asset itself can never be rescued.
    pub fn rescue_unallocated_tokens(
        &self,
        ledger: &mut TokenLedger,
        caller: u64,
        token: u64,
    ) -> (r: Result<i128, VestingError>)
        requires
            self.wf(),
            old(ledger).wf(),
        ensures
            final(ledger).wf(),
            r is Err ==> *final(ledger) == *old(ledger),
            r is Ok <==> (self.rescue_err(*old(ledger), caller, token) is None),
            r is Err ==> r->Err_0 == self.rescue_err(*old(ledger), caller, token)->0,
            r is Ok ==> ({
                let surplus = old(ledger).bal(token, self.contract_address)
                    - self.total_locked_spec();
                &&& r->Ok_0 == surplus
                &&& final(ledger).total_minted == old(ledger).total_minted
                &&& forall|t: u64, a: u64|
                    #[trigger] final(ledger).bal(t, a) == old(ledger).bal(t, a) + (if t == token
                        && a == self.admin {
                        surplus
                    } else {
                        0
                    }) - (if t == token && a == self.contract_address {
                        surplus
                    } else {
                        0
                    })
            }),
    {
        let gate = self.check_admin_gate(caller);
        if let Err(e) = gate {
            return Err(e);
        }
        if !self.whitelist_has(token) {
            return Err(VestingError::InvalidArgument);
        }
        let accounted = match self.token {
            Some(t) => t == token,
            None => false,
        };
        if accounted {
            return Err(VestingError::InvalidArgument);
        }
        let held = ledger.balance_of(token, self.contract_address);
        if held == 0 {
            return Err(VestingError::InsufficientBalance);
        }
        proof {
            lemma_sum_bounds(self.vaults@);
        }
        let (locked, _claimed) = self.compute_totals();
        if held <= locked {
            return Err(VestingError::InsufficientBalance);
        }
        let surplus = held - locked;
        let res = ledger.transfer(token, self.contract_address, self.admin, surplus);
        proof {
            assert(res is Ok);
        }
        Ok(surplus)
    }
}

} // verus!
