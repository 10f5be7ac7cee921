//! A balance model of the external asset-transfer service: what every
//! party holds of every token, and how executing [`Transfer`]
//! instructions changes it.
//!
//! The state machine in [`crate::auction`] only issues instructions; this
//! model says what executing them does, so that custody of funds can be
//! reasoned about and exercised end to end.

use vstd::prelude::*;
use crate::auction::{AuctionError, Party, Transfer};

verus! {

/// How one executed transfer changes the balance of `owner` in `token`:
/// its amount in at the destination, its amount out at the source.
pub open spec fn flow(t: Transfer, owner: Party, token: u64) -> int {
    (if t.to == owner && t.token == token {
        t.amount as int
    } else {
        0
    }) - (if t.from == owner && t.token == token {
        t.amount as int
    } else {
        0
    })
}

/// How a sequence of executed transfers changes the balance of `owner`
/// in `token`.
pub open spec fn net_flow(ts: Seq<Transfer>, owner: Party, token: u64) -> int
    decreases ts.len(),
{
    if ts.len() == 0 {
        0
    } else {
        net_flow(ts.drop_last(), owner, token) + flow(ts.last(), owner, token)
    }
}

/// Whether balances `bal` let `t` execute: a non-negative amount, a
/// sufficient source balance, and a destination balance that stays
/// within the balance type's range.
pub open spec fn can_apply_at(bal: spec_fn(Party, u64) -> int, t: Transfer) -> bool {
    &&& t.amount >= 0
    &&& bal(t.from, t.token) >= t.amount
    &&& (t.from == t.to || bal(t.to, t.token) + t.amount <= i128::MAX)
}

/// The balances after executing `t` on balances `bal`.
pub open spec fn bal_after(bal: spec_fn(Party, u64) -> int, t: Transfer) -> spec_fn(
    Party,
    u64,
) -> int {
    |owner: Party, token: u64| bal(owner, token) + flow(t, owner, token)
}

/// Whether balances `bal` let every transfer of `ts` execute, in order,
/// each against the balances the ones before it left.
pub open spec fn can_apply_all_at(bal: spec_fn(Party, u64) -> int, ts: Seq<Transfer>) -> bool
    decreases ts.len(),
{
    ts.len() == 0 || (can_apply_at(bal, ts.first()) && can_apply_all_at(
        bal_after(bal, ts.first()),
        ts.drop_first(),
    ))
}

/// One balance: `amount` of `token` held by `owner`.
#[derive(Clone, Copy, Debug, PartialEq, Eq, Structural)]
struct LedgerEntry {
    owner: Party,
    token: u64,
    amount: i128,
}

/// The balance a sequence of entries gives `owner` in `token`: the
/// amount of the earliest entry for that pair, or zero if there is none.
spec fn entries_balance(s: Seq<LedgerEntry>, owner: Party, token: u64) -> int
    decreases s.len(),
{
    if s.len() == 0 {
        0
    } else if s.first().owner == owner && s.first().token == token {
        s.first().amount as int
    } else {
        entries_balance(s.drop_first(), owner, token)
    }
}

/// The transfer service's book: every balance it holds. No balance is
/// ever negative, and executing a transfer either moves the funds whole
/// or fails without effect.
#[derive(Debug)]
pub struct Ledger {
    entries: Vec<LedgerEntry>,
}

impl Ledger {
    /// The balance of `owner` in `token`; zero until ever credited.
    pub closed spec fn balance(self, owner: Party, token: u64) -> int {
        entries_balance(self.entries@, owner, token)
    }

    /// All balances at once, as one function of owner and token.
    pub open spec fn balances(self) -> spec_fn(Party, u64) -> int {
        |owner: Party, token: u64| self.balance(owner, token)
    }

    /// No balance is negative.
    pub closed spec fn wf(self) -> bool {
        forall|i: int| 0 <= i < self.entries@.len() ==> self.entries@[i].amount >= 0
    }

    /// An empty book: every balance is zero.
    pub fn new() -> (l: Ledger)
        ensures
            l.wf(),
            forall|owner: Party, token: u64| l.balance(owner, token) == 0,
    {
        Ledger { entries: Vec::new() }
    }

    /// The index of the entry holding `owner`'s balance in `token`, if
    /// one exists: the earliest entry for that pair.
    fn find(&self, owner: Party, token: u64) -> (r: Option<usize>)
        ensures
            r matches Some(i) ==> i < self.entries@.len() && self.entries@[i as int].owner == owner
                && self.entries@[i as int].token == token && (forall|j: int|
                0 <= j < i ==> !(self.entries@[j].owner == owner && self.entries@[j].token
                    == token)),
            r is None ==> forall|j: int|
                0 <= j < self.entries@.len() ==> !(self.entries@[j].owner == owner
                    && self.entries@[j].token == token),
    {
        let mut i: usize = 0;
        while i < self.entries.len()
            invariant
                i <= self.entries@.len(),
                forall|j: int|
                    0 <= j < i ==> !(self.entries@[j].owner == owner && self.entries@[j].token
                        == token),
            decreases self.entries@.len() - i,
        {
            if self.entries[i].owner == owner && self.entries[i].token == token {
                return Some(i);
            }
            i = i + 1;
        }
        None
    }

    /// Read the balance of `owner` in `token`.
    pub fn balance_of(&self, owner: Party, token: u64) -> (r: i128)
        ensures
            r as int == self.balance(owner, token),
    {
        match self.find(owner, token) {
            Some(i) => {
                proof {
                    lemma_balance_first_match(self.entries@, i as int, owner, token);
                }
                self.entries[i].amount
            },
            None => {
                proof {
                    lemma_balance_no_match(self.entries@, owner, token);
                }
                0
            },
        }
    }

    /// Credit `owner` with `amount` of `token` out of nowhere: the
    /// environment giving a principal funds, before or beside the
    /// auction. Fails only if the balance would leave the balance
    /// type's range.
    pub fn mint(&mut self, owner: Party, token: u64, amount: i128) -> (r: Result<
        (),
        AuctionError,
    >)
        requires
            old(self).wf(),
            amount >= 0,
        ensures
            final(self).wf(),
            r is Ok <==> old(self).balance(owner, token) + amount <= i128::MAX,
            r is Err ==> *final(self) == *old(self) && r == Err::<(), AuctionError>(
                AuctionError::TransferFailed,
            ),
            r is Ok ==> forall|o: Party, t: u64|
                final(self).balance(o, t) == old(self).balance(o, t) + (
                if o == owner && t == token {
                    amount as int
                } else {
                    0
                }),
    {
        let bal: i128 = self.balance_of(owner, token);
        if bal > i128::MAX - amount {
            return Err(AuctionError::TransferFailed);
        }
        let e = LedgerEntry { owner, token, amount: bal + amount };
        match self.find(owner, token) {
            Some(i) => {
                proof {
                    lemma_balance_first_match(self.entries@, i as int, owner, token);
                }
                self.entries[i] = e;
                proof {
                    assert forall|o: Party, t: u64|
                        self.balance(o, t) == old(self).balance(o, t) + (
                        if o == owner && t == token {
                            amount as int
                        } else {
                            0
                        }) by {
                        lemma_balance_update(old(self).entries@, i as int, e, o, t);
                    }
                }
            },
            None => {
                self.entries.push(e);
                proof {
                    lemma_balance_no_match(old(self).entries@, owner, token);
                    assert forall|o: Party, t: u64|
                        self.balance(o, t) == old(self).balance(o, t) + (
                        if o == owner && t == token {
                            amount as int
                        } else {
                            0
                        }) by {
                        lemma_balance_push(old(self).entries@, e, o, t);
                    }
                }
            },
        }
        Ok(())
    }

    /// Execute one transfer: debit the source, credit the destination,
    /// as one indivisible step. Fails, without any effect, exactly when
    /// the balances do not let the transfer execute.
    pub fn apply(&mut self, t: &Transfer) -> (r: Result<(), AuctionError>)
        requires
            old(self).wf(),
        ensures
            final(self).wf(),
            r is Ok <==> can_apply_at(old(self).balances(), *t),
            r is Err ==> *final(self) == *old(self) && r == Err::<(), AuctionError>(
                AuctionError::TransferFailed,
            ),
            r is Ok ==> forall|o: Party, tok: u64|
                final(self).balance(o, tok) == old(self).balance(o, tok) + flow(*t, o, tok),
    {
        if t.amount < 0 {
            return Err(AuctionError::TransferFailed);
        }
        let from_bal: i128 = self.balance_of(t.from, t.token);
        if from_bal < t.amount {
            return Err(AuctionError::TransferFailed);
        }
        if t.from == t.to {
            return Ok(());
        }
        let to_bal: i128 = self.balance_of(t.to, t.token);
        if to_bal > i128::MAX - t.amount {
            return Err(AuctionError::TransferFailed);
        }
        proof {
            lemma_balance_nonneg(self.entries@, t.to, t.token);
        }
        let ghost mut mid: Seq<LedgerEntry> = self.entries@;
        match self.find(t.from, t.token) {
            Some(i) => {
                let e = LedgerEntry { owner: t.from, token: t.token, amount: from_bal - t.amount };
                self.entries[i] = e;
                proof {
                    mid = self.entries@;
                    assert forall|o: Party, tok: u64|
                        entries_balance(mid, o, tok) == old(self).balance(o, tok) + (
                        if o == t.from && tok == t.token {
                            -(t.amount as int)
                        } else {
                            0
                        }) by {
                        lemma_balance_update(old(self).entries@, i as int, e, o, tok);
                    }
                }
            },
            None => {
                // The source holds no entry, so its balance is zero and
                // the amount moved is zero too: nothing to debit.
                proof {
                    assert forall|o: Party, tok: u64|
                        entries_balance(mid, o, tok) == old(self).balance(o, tok) + (
                        if o == t.from && tok == t.token {
                            -(t.amount as int)
                        } else {
                            0
                        }) by {
                        lemma_balance_no_match(mid, t.from, t.token);
                    }
                }
            },
        }
        let e2 = LedgerEntry { owner: t.to, token: t.token, amount: to_bal + t.amount };
        match self.find(t.to, t.token) {
            Some(j) => {
                proof {
                    lemma_balance_first_match(self.entries@, j as int, t.to, t.token);
                }
                let ghost before: Seq<LedgerEntry> = self.entries@;
                self.entries[j] = e2;
                proof {
                    assert forall|o: Party, tok: u64|
                        entries_balance(self.entries@, o, tok) == entries_balance(before, o, tok)
                            + (if o == t.to && tok == t.token {
                            (to_bal + t.amount) - entries_balance(before, t.to, t.token)
                        } else {
                            0
                        }) by {
                        lemma_balance_update(before, j as int, e2, o, tok);
                    }
                }
            },
            None => {
                let ghost before: Seq<LedgerEntry> = self.entries@;
                self.entries.push(e2);
                proof {
                    lemma_balance_no_match(before, t.to, t.token);
                    assert forall|o: Party, tok: u64|
                        entries_balance(self.entries@, o, tok) == entries_balance(before, o, tok)
                            + (if o == t.to && tok == t.token {
                            (to_bal + t.amount) - entries_balance(before, t.to, t.token)
                        } else {
                            0
                        }) by {
                        lemma_balance_push(before, e2, o, tok);
                    }
                }
            },
        }
        proof {
            assert forall|o: Party, tok: u64|
                self.balance(o, tok) == old(self).balance(o, tok) + flow(*t, o, tok) by {
                assert(entries_balance(mid, t.to, t.token) == to_bal as int);
            }
        }
        Ok(())
    }

    /// An identical copy of the book.
    fn duplicate(&self) -> (l: Ledger)
        ensures
            l.entries@ == self.entries@,
    {
        let mut v: Vec<LedgerEntry> = Vec::new();
        let mut i: usize = 0;
        while i < self.entries.len()
            invariant
                i <= self.entries@.len(),
                v@ == self.entries@.take(i as int),
            decreases self.entries@.len() - i,
        {
            v.push(self.entries[i]);
            proof {
                assert(v@ =~= self.entries@.take(i as int + 1));
            }
            i = i + 1;
        }
        proof {
            assert(self.entries@.take(i as int) =~= self.entries@);
        }
        Ledger { entries: v }
    }

    /// Execute a batch of transfers as one indivisible unit: all of
    /// them, in order, or none at all. Fails, without any effect,
    /// exactly when the balances do not let the whole batch execute in
    /// order.
    pub fn apply_all(&mut self, ts: &Vec<Transfer>) -> (r: Result<(), AuctionError>)
        requires
            old(self).wf(),
        ensures
            final(self).wf(),
            r is Ok <==> can_apply_all_at(old(self).balances(), ts@),
            r is Err ==> *final(self) == *old(self) && r == Err::<(), AuctionError>(
                AuctionError::TransferFailed,
            ),
            r is Ok ==> forall|o: Party, tok: u64|
                final(self).balance(o, tok) == old(self).balance(o, tok) + net_flow(ts@, o, tok),
    {
        let mut scratch = self.duplicate();
        proof {
            assert(ts@.take(0) =~= Seq::<Transfer>::empty());
            assert(ts@.skip(0) =~= ts@);
            assert(scratch.balances() =~= old(self).balances());
        }
        let mut i: usize = 0;
        while i < ts.len()
            invariant
                i <= ts@.len(),
                scratch.wf(),
                old(self).wf(),
                *self == *old(self),
                forall|o: Party, tok: u64|
                    scratch.balance(o, tok) == old(self).balance(o, tok) + net_flow(
                        ts@.take(i as int),
                        o,
                        tok,
                    ),
                can_apply_all_at(old(self).balances(), ts@) <==> can_apply_all_at(
                    scratch.balances(),
                    ts@.skip(i as int),
                ),
            decreases ts@.len() - i,
        {
            let ghost pre = scratch;
            let step = scratch.apply(&ts[i]);
            proof {
                assert(ts@.skip(i as int).first() == ts@[i as int]);
            }
            if step.is_err() {
                return Err(AuctionError::TransferFailed);
            }
            proof {
                assert(ts@.take(i as int + 1).drop_last() =~= ts@.take(i as int));
                assert(ts@.take(i as int + 1).last() == ts@[i as int]);
                assert(bal_after(pre.balances(), ts@[i as int]) =~= scratch.balances());
                assert(ts@.skip(i as int).drop_first() =~= ts@.skip(i as int + 1));
            }
            i = i + 1;
        }
        proof {
            assert(ts@.take(i as int) =~= ts@);
            assert(ts@.skip(i as int) =~= Seq::<Transfer>::empty());
        }
        *self = scratch;
        Ok(())
    }
}

/// The earliest entry for a pair carries its balance.
proof fn lemma_balance_first_match(s: Seq<LedgerEntry>, i: int, owner: Party, token: u64)
    requires
        0 <= i < s.len(),
        s[i].owner == owner && s[i].token == token,
        forall|j: int| 0 <= j < i ==> !(s[j].owner == owner && s[j].token == token),
    ensures
        entries_balance(s, owner, token) == s[i].amount as int,
    decreases s.len(),
{
    if i > 0 {
        assert forall|j: int|
            0 <= j < i - 1 implies !(s.drop_first()[j].owner == owner && s.drop_first()[j].token
            == token) by {
            assert(s.drop_first()[j] == s[j + 1]);
        }
        assert(s.drop_first()[i - 1] == s[i]);
        lemma_balance_first_match(s.drop_first(), i - 1, owner, token);
    }
}

/// A pair with no entry has balance zero.
proof fn lemma_balance_no_match(s: Seq<LedgerEntry>, owner: Party, token: u64)
    requires
        forall|j: int| 0 <= j < s.len() ==> !(s[j].owner == owner && s[j].token == token),
    ensures
        entries_balance(s, owner, token) == 0,
    decreases s.len(),
{
    if s.len() > 0 {
        assert forall|j: int|
            0 <= j < s.drop_first().len() implies !(s.drop_first()[j].owner == owner
            && s.drop_first()[j].token == token) by {
            assert(s.drop_first()[j] == s[j + 1]);
        }
        lemma_balance_no_match(s.drop_first(), owner, token);
    }
}

/// With no negative entry, no balance is negative.
proof fn lemma_balance_nonneg(s: Seq<LedgerEntry>, owner: Party, token: u64)
    requires
        forall|i: int| 0 <= i < s.len() ==> s[i].amount >= 0,
    ensures
        entries_balance(s, owner, token) >= 0,
    decreases s.len(),
{
    if s.len() > 0 && !(s.first().owner == owner && s.first().token == token) {
        assert forall|i: int| 0 <= i < s.drop_first().len() implies s.drop_first()[i].amount >= 0 by {
            assert(s.drop_first()[i] == s[i + 1]);
        }
        lemma_balance_nonneg(s.drop_first(), owner, token);
    }
}

/// Rewriting the earliest entry of a pair moves that pair's balance to
/// the new amount and no other.
proof fn lemma_balance_update(s: Seq<LedgerEntry>, i: int, e: LedgerEntry, owner: Party, token: u64)
    requires
        0 <= i < s.len(),
        s[i].owner == e.owner && s[i].token == e.token,
        forall|j: int| 0 <= j < i ==> !(s[j].owner == e.owner && s[j].token == e.token),
    ensures
        entries_balance(s.update(i, e), owner, token) == if owner == e.owner && token == e.token {
            e.amount as int
        } else {
            entries_balance(s, owner, token)
        },
    decreases s.len(),
{
    let su = s.update(i, e);
    if i == 0 {
        assert(su.first() == e);
        assert(su.drop_first() =~= s.drop_first());
    } else {
        assert(su.first() == s[0]);
        assert(!(s[0].owner == e.owner && s[0].token == e.token));
        assert(su.drop_first() =~= s.drop_first().update(i - 1, e));
        assert(s.drop_first()[i - 1] == s[i]);
        assert forall|j: int|
            0 <= j < i - 1 implies !(s.drop_first()[j].owner == e.owner && s.drop_first()[j].token
            == e.token) by {
            assert(s.drop_first()[j] == s[j + 1]);
        }
        lemma_balance_update(s.drop_first(), i - 1, e, owner, token);
    }
}

/// Appending an entry for a pair that had none moves that pair's balance
/// to the new amount and no other.
proof fn lemma_balance_push(s: Seq<LedgerEntry>, e: LedgerEntry, owner: Party, token: u64)
    requires
        forall|j: int| 0 <= j < s.len() ==> !(s[j].owner == e.owner && s[j].token == e.token),
    ensures
        entries_balance(s.push(e), owner, token) == if owner == e.owner && token == e.token {
            e.amount as int
        } else {
            entries_balance(s, owner, token)
        },
    decreases s.len(),
{
    let p = s.push(e);
    if s.len() == 0 {
        assert(p.first() == e);
        assert(p.drop_first() =~= Seq::<LedgerEntry>::empty());
        assert(entries_balance(p.drop_first(), owner, token) == 0);
    } else {
        assert(p.first() == s[0]);
        assert(p.drop_first() =~= s.drop_first().push(e));
        assert forall|j: int|
            0 <= j < s.drop_first().len() implies !(s.drop_first()[j].owner == e.owner
            && s.drop_first()[j].token == e.token) by {
            assert(s.drop_first()[j] == s[j + 1]);
        }
        lemma_balance_push(s.drop_first(), e, owner, token);
        assert(entries_balance(p, owner, token) == if p.first().owner == owner && p.first().token
            == token {
            p.first().amount as int
        } else {
            entries_balance(p.drop_first(), owner, token)
        });
    }
}

} // verus!
