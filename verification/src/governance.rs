use vstd::prelude::*;
use crate::errors::VestingError;
use crate::ledger::TokenLedger;
use crate::state::VestingContract;
use crate::vault::AMOUNT_LIMIT;

verus! {

broadcast use vstd::seq_lib::lemma_seq_contains_after_push;

impl VestingContract {
    /// The guard every admin-driven mutating operation runs first: the
    /// contract must be initialized and not deprecated, and the caller must
    /// be the current admin. `None` means the caller may proceed.
    pub open spec fn admin_gate_err(self, caller: u64) -> Option<VestingError> {
        if !self.is_initialized {
            Some(VestingError::InvalidState)
        } else if self.deprecated {
            Some(VestingError::InvalidState)
        } else if caller != self.admin {
            Some(VestingError::Unauthorized)
        } else {
            None
        }
    }

    /// Evaluates the admin guard.
    pub(crate) fn check_admin_gate(&self, caller: u64) -> (r: Result<(), VestingError>)
        ensures
            r is Ok <==> (self.admin_gate_err(caller) is None),
            r is Err ==> r->Err_0 == self.admin_gate_err(caller)->0,
    {
        if !self.is_initialized {
            Err(VestingError::InvalidState)
        } else if self.deprecated {
            Err(VestingError::InvalidState)
        } else if caller != self.admin {
            Err(VestingError::Unauthorized)
        } else {
            Ok(())
        }
    }

    /// One-time setup: fixes the admin and the accounting baseline. Fails
    /// with `InvalidState` when already initialized, and with
    /// `InvalidArgument` for a supply outside `[0, AMOUNT_LIMIT]`.
    pub fn initialize(&mut self, admin: u64, initial_supply: i128) -> (r: Result<
        (),
        VestingError,
    >)
        requires
            old(self).wf(),
        ensures
            final(self).wf(),
            r is Err ==> *final(self) == *old(self),
            r is Ok <==> (!old(self).is_initialized && 0 <= initial_supply <= AMOUNT_LIMIT),
            r is Err ==> r->Err_0 == (if old(self).is_initialized {
                VestingError::InvalidState
            } else {
                VestingError::InvalidArgument
            }),
            r is Ok ==> *final(self) == (VestingContract {
                is_initialized: true,
                admin,
                initial_supply,
                ..*old(self)
            }),
    {
        if self.is_initialized {
            return Err(VestingError::InvalidState);
        }
        if initial_supply < 0 || initial_supply > AMOUNT_LIMIT {
            return Err(VestingError::InvalidArgument);
        }
        self.is_initialized = true;
        self.admin = admin;
        self.initial_supply = initial_supply;
        Ok(())
    }

    /// First half of the two-step ownership transfer: the admin names a
    /// candidate.
    pub fn propose_new_admin(&mut self, caller: u64, candidate: u64) -> (r: Result<
        (),
        VestingError,
    >)
        requires
            old(self).wf(),
        ensures
            final(self).wf(),
            r is Err ==> *final(self) == *old(self),
            r is Ok <==> (old(self).admin_gate_err(caller) is None),
            r is Err ==> r->Err_0 == old(self).admin_gate_err(caller)->0,
            r is Ok ==> *final(self) == (VestingContract {
                proposed_admin: Some(candidate),
                ..*old(self)
            }),
    {
        let gate = self.check_admin_gate(caller);
        match gate {
            Err(e) => Err(e),
            Ok(()) => {
                self.proposed_admin = Some(candidate);
                Ok(())
            },
        }
    }

    /// Second half of the two-step ownership transfer: the proposed admin
    /// takes over, and the old admin loses its privileges at once.
    pub fn accept_ownership(&mut self, caller: u64) -> (r: Result<(), VestingError>)
        requires
            old(self).wf(),
        ensures
            final(self).wf(),
            r is Err ==> *final(self) == *old(self),
            r is Ok <==> (old(self).is_initialized && !old(self).deprecated && old(
                self,
            ).proposed_admin == Some(caller)),
            r is Err ==> r->Err_0 == (if !old(self).is_initialized || old(self).deprecated {
                VestingError::InvalidState
            } else {
                VestingError::Unauthorized
            }),
            r is Ok ==> *final(self) == (VestingContract {
                admin: caller,
                proposed_admin: None,
                ..*old(self)
            }),
    {
        if !self.is_initialized || self.deprecated {
            return Err(VestingError::InvalidState);
        }
        match self.proposed_admin {
            Some(p) => {
                if p == caller {
                    self.admin = caller;
                    self.proposed_admin = None;
                    Ok(())
                } else {
                    Err(VestingError::Unauthorized)
                }
            },
            None => Err(VestingError::Unauthorized),
        }
    }

    /// Flips the pause flag that blocks claims.
    pub fn toggle_pause(&mut self, caller: u64) -> (r: Result<(), VestingError>)
        requires
            old(self).wf(),
        ensures
            final(self).wf(),
            r is Err ==> *final(self) == *old(self),
            r is Ok <==> (old(self).admin_gate_err(caller) is None),
            r is Err ==> r->Err_0 == old(self).admin_gate_err(caller)->0,
            r is Ok ==> *final(self) == (VestingContract { paused: !old(self).paused, ..*old(self) }),
    {
        let gate = self.check_admin_gate(caller);
        match gate {
            Err(e) => Err(e),
            Ok(()) => {
                self.paused = !self.paused;
                Ok(())
            },
        }
    }

    /// Sets the accounted asset claims are paid in.
    pub fn set_token(&mut self, caller: u64, token: u64) -> (r: Result<(), VestingError>)
        requires
            old(self).wf(),
        ensures
            final(self).wf(),
            r is Err ==> *final(self) == *old(self),
            r is Ok <==> (old(self).admin_gate_err(caller) is None),
            r is Err ==> r->Err_0 == old(self).admin_gate_err(caller)->0,
            r is Ok ==> *final(self) == (VestingContract { token: Some(token), ..*old(self) }),
    {
        let gate = self.check_admin_gate(caller);
        match gate {
            Err(e) => Err(e),
            Ok(()) => {
                self.token = Some(token);
                Ok(())
            },
        }
    }

    /// Whether the whitelist already lists the asset.
    pub(crate) fn whitelist_has(&self, token: u64) -> (r: bool)
        ensures
            r == self.whitelist@.contains(token),
    {
        let mut i: usize = 0;
        while i < self.whitelist.len()
            invariant
                i <= self.whitelist@.len(),
                forall|k: int| 0 <= k < i ==> self.whitelist@[k] != token,
            decreases self.whitelist@.len() - i,
        {
            if self.whitelist[i] == token {
                return true;
            }
            i = i + 1;
        }
        false
    }

    /// Marks an asset as eligible for rescue. Listing an asset twice leaves
    /// the whitelist unchanged.
    pub fn add_to_whitelist(&mut self, caller: u64, token: u64) -> (r: Result<(), VestingError>)
        requires
            old(self).wf(),
        ensures
            final(self).wf(),
            r is Err ==> *final(self) == *old(self),
            r is Ok <==> (old(self).admin_gate_err(caller) is None),
            r is Err ==> r->Err_0 == old(self).admin_gate_err(caller)->0,
            r is Ok ==> final(self).whitelist@ == (if old(self).whitelist@.contains(token) {
                old(self).whitelist@
            } else {
                old(self).whitelist@.push(token)
            }),
            r is Ok ==> *final(self) == (VestingContract {
                whitelist: final(self).whitelist,
                ..*old(self)
            }),
    {
        let gate = self.check_admin_gate(caller);
        match gate {
            Err(e) => Err(e),
            Ok(()) => {
                if !self.whitelist_has(token) {
                    self.whitelist.push(token);
                }
                Ok(())
            },
        }
    }
}

/// Where every balance stands after the whitelisted assets held by the
/// contract were swept to `target`: the contract keeps nothing of them,
/// `target` receives them, and every other balance is untouched.
pub open spec fn migrated_bal(
    pre: VestingContract,
    led: TokenLedger,
    target: u64,
    t: u64,
    a: u64,
) -> int {
    if pre.whitelist@.contains(t) {
        if a == pre.contract_address {
            0
        } else if a == target {
            led.bal(t, a) + led.bal(t, pre.contract_address)
        } else {
            led.bal(t, a)
        }
    } else {
        led.bal(t, a)
    }
}

impl VestingContract {
    /// Sweeps the contract's whitelisted balances to `target` and retires the
    /// contract: deprecated and paused are set for good, and every later
    /// mutating operation fails. Returns each whitelisted asset with the
    /// amount that was moved.
    pub fn migrate_liquidity(
        &mut self,
        ledger: &mut TokenLedger,
        caller: u64,
        target: u64,
    ) -> (r: Result<Vec<(u64, i128)>, VestingError>)
        requires
            old(self).wf(),
            old(ledger).wf(),
        ensures
            final(self).wf(),
            final(ledger).wf(),
            r is Err ==> *final(self) == *old(self) && *final(ledger) == *old(ledger),
            r is Ok <==> (old(self).admin_gate_err(caller) is None),
            r is Err ==> r->Err_0 == old(self).admin_gate_err(caller)->0,
            r is Ok ==> *final(self) == (VestingContract {
                deprecated: true,
                migration_target: Some(target),
                paused: true,
                ..*old(self)
            }),
            r is Ok ==> final(ledger).total_minted == old(ledger).total_minted,
            r is Ok ==> ({
                let out = r->Ok_0;
                &&& out@.len() == old(self).whitelist@.len()
                &&& forall|k: int|
                    0 <= k < out@.len() ==> ((#[trigger] out@[k]).0 == old(self).whitelist@[k]
                        && out@[k].1 == old(ledger).bal(
                        old(self).whitelist@[k],
                        old(self).contract_address,
                    ))
            }),
            r is Ok && target != old(self).contract_address ==> forall|t: u64, a: u64|
                #[trigger] final(ledger).bal(t, a) == migrated_bal(
                    *old(self),
                    *old(ledger),
                    target,
                    t,
                    a,
                ),
            r is Ok && target == old(self).contract_address ==> *final(ledger) == *old(ledger),
    {
        let gate = self.check_admin_gate(caller);
        if let Err(e) = gate {
            return Err(e);
        }
        let ca = self.contract_address;
        let mut out: Vec<(u64, i128)> = Vec::new();
        let mut i: usize = 0;
        while i < self.whitelist.len()
            invariant
                *self == *old(self),
                self.wf(),
                ledger.wf(),
                ledger.total_minted == old(ledger).total_minted,
                ca == self.contract_address,
                i <= self.whitelist@.len(),
                out@.len() == i,
                forall|k: int|
                    0 <= k < i ==> ((#[trigger] out@[k]).0 == self.whitelist@[k] && out@[k].1
                        == old(ledger).bal(self.whitelist@[k], ca)),
                target != ca ==> forall|t: u64, a: u64|
                    #[trigger] ledger.bal(t, a) == (if self.whitelist@.take(i as int).contains(t) {
                        if a == ca {
                            0
                        } else if a == target {
                            old(ledger).bal(t, a) + old(ledger).bal(t, ca)
                        } else {
                            old(ledger).bal(t, a)
                        }
                    } else {
                        old(ledger).bal(t, a)
                    }),
                target == ca ==> *ledger == *old(ledger),
            decreases self.whitelist@.len() - i,
        {
            let ghost wl = self.whitelist@;
            let tok = self.whitelist[i];
            proof {
                if wl.take(i as int).contains(tok) {
                    let k = choose|k: int| 0 <= k < i && (#[trigger] wl.take(i as int)[k]) == tok;
                    assert(wl[k] == wl[i as int]);
                }
                wl.lemma_take_succ_push(i as int);
            }
            let b = ledger.balance_of(tok, ca);
            let res = ledger.transfer(tok, ca, target, b);
            proof {
                assert(res is Ok);
            }
            out.push((tok, b));
            i = i + 1;
        }
        proof {
            assert(self.whitelist@.take(self.whitelist@.len() as int) =~= self.whitelist@);
        }
        self.deprecated = true;
        self.migration_target = Some(target);
        self.paused = true;
        Ok(out)
    }
}

} // verus!
