use vstd::prelude::*;
use crate::errors::VestingError;
use crate::vault::AMOUNT_LIMIT;

verus! {

/// One held balance: `amount` units of the asset `token` owned by `account`.
#[derive(Clone, Copy, Debug, PartialEq, Eq, Structural)]
pub struct BalanceEntry {
    pub token: u64,
    pub account: u64,
    pub amount: i128,
}

/// The model of the asset-transfer collaborator the vesting core calls into:
/// a ledger of non-negative balances keyed by asset and account. The core
/// only ever transfers and reads balances; minting is done by the host (and
/// by tests) to fund the contract.
pub struct TokenLedger {
    pub entries: Vec<BalanceEntry>,
    /// Total of all balances; transfers conserve it.
    pub total_minted: i128,
}

/// The balance the entry list records for `account` in asset `token`
/// (0 when no entry exists).
pub open spec fn bal_of(s: Seq<BalanceEntry>, token: u64, account: u64) -> int
    decreases s.len(),
{
    if s.len() == 0 {
        0
    } else if s.last().token == token && s.last().account == account {
        s.last().amount as int
    } else {
        bal_of(s.drop_last(), token, account)
    }
}

/// Sum of all recorded balances, across assets and accounts.
pub open spec fn sum_amounts(s: Seq<BalanceEntry>) -> int
    decreases s.len(),
{
    if s.len() == 0 {
        0
    } else {
        sum_amounts(s.drop_last()) + s.last().amount
    }
}

/// No two entries record the same asset-account pair.
pub open spec fn entries_unique(s: Seq<BalanceEntry>) -> bool {
    forall|i: int, j: int|
        0 <= i < j < s.len() ==> !((#[trigger] s[i]).token == (#[trigger] s[j]).token
            && s[i].account == s[j].account)
}

impl TokenLedger {
    /// The ledger's invariant: one entry per asset-account pair, all balances
    /// non-negative, and the recorded total equal to their sum and bounded.
    pub open spec fn wf(self) -> bool {
        &&& entries_unique(self.entries@)
        &&& forall|i: int| 0 <= i < self.entries@.len() ==> (#[trigger] self.entries@[i]).amount >= 0
        &&& self.total_minted == sum_amounts(self.entries@)
        &&& 0 <= self.total_minted <= AMOUNT_LIMIT
    }

    /// The balance of `account` in asset `token`.
    pub open spec fn bal(self, token: u64, account: u64) -> int {
        bal_of(self.entries@, token, account)
    }
}

proof fn lemma_sum_nonneg(s: Seq<BalanceEntry>)
    requires
        forall|i: int| 0 <= i < s.len() ==> (#[trigger] s[i]).amount >= 0,
    ensures
        sum_amounts(s) >= 0,
    decreases s.len(),
{
    if s.len() > 0 {
        lemma_sum_nonneg(s.drop_last());
    }
}

/// With all balances non-negative, any single entry is bounded by the sum.
proof fn lemma_entry_le_sum(s: Seq<BalanceEntry>, i: int)
    requires
        forall|k: int| 0 <= k < s.len() ==> (#[trigger] s[k]).amount >= 0,
        0 <= i < s.len(),
    ensures
        s[i].amount <= sum_amounts(s),
    decreases s.len(),
{
    if i == s.len() - 1 {
        lemma_sum_nonneg(s.drop_last());
    } else {
        lemma_entry_le_sum(s.drop_last(), i);
    }
}

proof fn lemma_sum_update(s: Seq<BalanceEntry>, i: int, e: BalanceEntry)
    requires
        0 <= i < s.len(),
    ensures
        sum_amounts(s.update(i, e)) == sum_amounts(s) - s[i].amount + e.amount,
    decreases s.len(),
{
    let s2 = s.update(i, e);
    if i == s.len() - 1 {
        assert(s2.drop_last() =~= s.drop_last());
    } else {
        assert(s2.drop_last() =~= s.drop_last().update(i, e));
        lemma_sum_update(s.drop_last(), i, e);
    }
}

/// Updating the entry that holds a pair rewrites that pair's balance and no
/// other.
proof fn lemma_bal_update(s: Seq<BalanceEntry>, i: int, e: BalanceEntry, t: u64, a: u64)
    requires
        entries_unique(s),
        0 <= i < s.len(),
        s[i].token == e.token,
        s[i].account == e.account,
    ensures
        bal_of(s.update(i, e), t, a) == if t == e.token && a == e.account {
            e.amount as int
        } else {
            bal_of(s, t, a)
        },
    decreases s.len(),
{
    let s2 = s.update(i, e);
    if i == s.len() - 1 {
        assert(s2.drop_last() =~= s.drop_last());
    } else {
        assert(s2.drop_last() =~= s.drop_last().update(i, e));
        assert(entries_unique(s.drop_last()));
        lemma_bal_update(s.drop_last(), i, e, t, a);
    }
}

/// With unique pairs, the balance of a recorded pair is its entry's amount.
proof fn lemma_bal_is_entry(s: Seq<BalanceEntry>, i: int)
    requires
        entries_unique(s),
        0 <= i < s.len(),
    ensures
        bal_of(s, s[i].token, s[i].account) == s[i].amount,
    decreases s.len(),
{
    if i < s.len() - 1 {
        assert(entries_unique(s.drop_last()));
        lemma_bal_is_entry(s.drop_last(), i);
    }
}

/// A pair no entry records has balance 0.
proof fn lemma_bal_absent(s: Seq<BalanceEntry>, t: u64, a: u64)
    requires
        forall|i: int| 0 <= i < s.len() ==> !((#[trigger] s[i]).token == t && s[i].account == a),
    ensures
        bal_of(s, t, a) == 0,
    decreases s.len(),
{
    if s.len() > 0 {
        lemma_bal_absent(s.drop_last(), t, a);
    }
}

/// Every balance lies between 0 and the sum of all balances.
proof fn lemma_bal_bounds(s: Seq<BalanceEntry>, t: u64, a: u64)
    requires
        forall|i: int| 0 <= i < s.len() ==> (#[trigger] s[i]).amount >= 0,
    ensures
        0 <= bal_of(s, t, a) <= sum_amounts(s),
    decreases s.len(),
{
    if s.len() > 0 {
        lemma_bal_bounds(s.drop_last(), t, a);
        lemma_sum_nonneg(s);
    }
}

impl TokenLedger {
    /// An empty ledger.
    pub fn new() -> (r: TokenLedger)
        ensures
            r.wf(),
            r.total_minted == 0,
            forall|t: u64, a: u64| #[trigger] r.bal(t, a) == 0,
    {
        let r = TokenLedger { entries: Vec::new(), total_minted: 0 };
        proof {
            assert forall|t: u64, a: u64| #[trigger] r.bal(t, a) == 0 by {
                lemma_bal_absent(r.entries@, t, a);
            }
        }
        r
    }

    /// Index of the entry recording the pair, if any.
    fn find_entry(&self, token: u64, account: u64) -> (r: Option<usize>)
        ensures
            match r {
                Some(i) => i < self.entries@.len() && self.entries@[i as int].token == token
                    && self.entries@[i as int].account == account,
                None => forall|i: int|
                    0 <= i < self.entries@.len() ==> !((#[trigger] self.entries@[i]).token == token
                        && self.entries@[i].account == account),
            },
    {
        let mut i: usize = 0;
        while i < self.entries.len()
            invariant
                i <= self.entries@.len(),
                forall|k: int|
                    0 <= k < i ==> !((#[trigger] self.entries@[k]).token == token
                        && self.entries@[k].account == account),
            decreases self.entries@.len() - i,
        {
            if self.entries[i].token == token && self.entries[i].account == account {
                return Some(i);
            }
            i = i + 1;
        }
        None
    }

    /// Reads the balance of `account` in asset `token`.
    pub fn balance_of(&self, token: u64, account: u64) -> (r: i128)
        requires
            self.wf(),
        ensures
            r == self.bal(token, account),
            0 <= r <= self.total_minted,
    {
        proof {
            lemma_bal_bounds(self.entries@, token, account);
        }
        match self.find_entry(token, account) {
            Some(i) => {
                proof {
                    lemma_bal_is_entry(self.entries@, i as int);
                }
                self.entries[i].amount
            },
            None => {
                proof {
                    lemma_bal_absent(self.entries@, token, account);
                }
                0
            },
        }
    }

    /// Creates `amount` new units of `token` owned by `to`; stands for the
    /// funding the host performs. Fails only for a negative amount or when the
    /// total would leave the supported bound.
    pub fn mint(&mut self, token: u64, to: u64, amount: i128) -> (r: Result<(), VestingError>)
        requires
            old(self).wf(),
        ensures
            final(self).wf(),
            r.is_ok() <==> (0 <= amount && old(self).total_minted + amount <= AMOUNT_LIMIT),
            r.is_err() ==> *final(self) == *old(self) && r == Err::<(), VestingError>(
                VestingError::InvalidArgument,
            ),
            r.is_ok() ==> final(self).total_minted == old(self).total_minted + amount,
            r.is_ok() ==> forall|t: u64, a: u64|
                #[trigger] final(self).bal(t, a) == old(self).bal(t, a) + (if t == token && a == to {
                    amount as int
                } else {
                    0
                }),
    {
        if amount < 0 || amount > AMOUNT_LIMIT - self.total_minted {
            return Err(VestingError::InvalidArgument);
        }
        let ghost s0 = self.entries@;
        match self.find_entry(token, to) {
            Some(i) => {
                proof {
                    lemma_entry_le_sum(s0, i as int);
                }
                let e = BalanceEntry { token, account: to, amount: self.entries[i].amount + amount };
                self.entries.set(i, e);
                self.total_minted = self.total_minted + amount;
                proof {
                    lemma_sum_update(s0, i as int, e);
                    assert forall|t: u64, a: u64|
                        #[trigger] self.bal(t, a) == bal_of(s0, t, a) + (if t == token && a == to {
                            amount as int
                        } else {
                            0
                        }) by {
                        lemma_bal_update(s0, i as int, e, t, a);
                        if t == token && a == to {
                            lemma_bal_is_entry(s0, i as int);
                        }
                    }
                }
                Ok(())
            },
            None => {
                let e = BalanceEntry { token, account: to, amount };
                self.entries.push(e);
                self.total_minted = self.total_minted + amount;
                proof {
                    assert(self.entries@.drop_last() =~= s0);
                    assert forall|t: u64, a: u64|
                        #[trigger] self.bal(t, a) == bal_of(s0, t, a) + (if t == token && a == to {
                            amount as int
                        } else {
                            0
                        }) by {
                        if t == token && a == to {
                            lemma_bal_absent(s0, t, a);
                        }
                    }
                }
                Ok(())
            },
        }
    }

    /// Moves `amount` units of `token` from `from` to `to`. Succeeds exactly
    /// when the amount is non-negative and covered by the sender's balance;
    /// on success balances change by the transferred amount and nothing else,
    /// and the total is conserved.
    pub fn transfer(&mut self, token: u64, from: u64, to: u64, amount: i128) -> (r: Result<
        (),
        VestingError,
    >)
        requires
            old(self).wf(),
        ensures
            final(self).wf(),
            r.is_ok() <==> (0 <= amount && old(self).bal(token, from) >= amount),
            r.is_err() ==> *final(self) == *old(self),
            r.is_err() ==> r == Err::<(), VestingError>(
                if amount < 0 {
                    VestingError::InvalidArgument
                } else {
                    VestingError::InsufficientBalance
                },
            ),
            r.is_ok() ==> final(self).total_minted == old(self).total_minted,
            r.is_ok() && from == to ==> *final(self) == *old(self),
            r.is_ok() ==> forall|t: u64, a: u64|
                #[trigger] final(self).bal(t, a) == old(self).bal(t, a) + (if t == token && a == to {
                    amount as int
                } else {
                    0
                }) - (if t == token && a == from {
                    amount as int
                } else {
                    0
                }),
    {
        if amount < 0 {
            return Err(VestingError::InvalidArgument);
        }
        let bfrom = self.balance_of(token, from);
        if bfrom < amount {
            return Err(VestingError::InsufficientBalance);
        }
        if from == to || amount == 0 {
            return Ok(());
        }
        let ghost s0 = self.entries@;
        let i = match self.find_entry(token, from) {
            Some(i) => i,
            None => {
                proof {
                    lemma_bal_absent(s0, token, from);
                }
                // unreachable: a positive balance is recorded by some entry
                return Err(VestingError::InsufficientBalance);
            },
        };
        proof {
            lemma_bal_is_entry(s0, i as int);
        }
        let efrom = BalanceEntry {
            token,
            account: from,
            amount: self.entries[i].amount - amount,
        };
        self.entries.set(i, efrom);
        let ghost s1 = self.entries@;
        proof {
            lemma_sum_update(s0, i as int, efrom);
            lemma_sum_nonneg(s1);
            assert forall|t: u64, a: u64| #[trigger] bal_of(s1, t, a) == bal_of(s0, t, a) - (
            if t == token && a == from {
                amount as int
            } else {
                0
            }) by {
                lemma_bal_update(s0, i as int, efrom, t, a);
                if t == token && a == from {
                    lemma_bal_is_entry(s0, i as int);
                }
            }
        }
        match self.find_entry(token, to) {
            Some(j) => {
                proof {
                    lemma_entry_le_sum(s1, j as int);
                }
                let eto = BalanceEntry {
                    token,
                    account: to,
                    amount: self.entries[j].amount + amount,
                };
                self.entries.set(j, eto);
                proof {
                    lemma_sum_update(s1, j as int, eto);
                    assert forall|t: u64, a: u64|
                        #[trigger] self.bal(t, a) == bal_of(s1, t, a) + (if t == token && a == to {
                            amount as int
                        } else {
                            0
                        }) by {
                        lemma_bal_update(s1, j as int, eto, t, a);
                        if t == token && a == to {
                            lemma_bal_is_entry(s1, j as int);
                        }
                    }
                }
                Ok(())
            },
            None => {
                let eto = BalanceEntry { token, account: to, amount };
                self.entries.push(eto);
                proof {
                    assert(self.entries@.drop_last() =~= s1);
                    assert forall|t: u64, a: u64|
                        #[trigger] self.bal(t, a) == bal_of(s1, t, a) + (if t == token && a == to {
                            amount as int
                        } else {
                            0
                        }) by {
                        if t == token && a == to {
                            lemma_bal_absent(s1, t, a);
                        }
                    }
                }
                Ok(())
            },
        }
    }
}

} // verus!
