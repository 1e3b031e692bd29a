//! The ledger as the registry sees it: every call it makes is recorded.
use crate::types::{AccountId, Balance, Ledger};
use vstd::prelude::*;

verus! {

/// One call made on the ledger, with what it answered.
#[derive(Clone, Copy, Debug, PartialEq, Eq)]
pub enum LedgerCall {
    /// `amount` reserved from `who`; `ok` is whether the balance covered it.
    Reserve { who: AccountId, amount: Balance, ok: bool },
    /// `amount` of `who`'s reserve returned.
    Unreserve { who: AccountId, amount: Balance },
    /// `amount` withdrawn from `who` as a fee; `credit` is what was taken, if anything.
    Withdraw { who: AccountId, amount: Balance, credit: Option<Balance> },
    /// `amount` handed to the fee sink.
    Credit { amount: Balance },
}

/// A ledger together with the record of the calls made on it through this handle.
pub struct LoggedLedger<L> {
    inner: L,
    log: Ghost<Seq<LedgerCall>>,
}

impl<L: Ledger> LoggedLedger<L> {
    /// The calls made so far, oldest first.
    pub closed spec fn calls(&self) -> Seq<LedgerCall> {
        self.log@
    }

    /// A handle on `inner` with no calls made yet.
    pub fn new(inner: L) -> (r: Self)
        ensures
            r.calls() == Seq::<LedgerCall>::empty(),
    {
        LoggedLedger { inner, log: Ghost(Seq::empty()) }
    }

    /// The ledger itself.
    pub fn inner(&self) -> &L {
        &self.inner
    }

    /// Gives the ledger back.
    pub fn into_inner(self) -> L {
        self.inner
    }

    pub fn reserve(&mut self, who: AccountId, amount: Balance) -> (r: bool)
        ensures
            final(self).calls() == old(self).calls().push(LedgerCall::Reserve { who, amount, ok: r }),
    {
        let r = self.inner.reserve(who, amount);
        self.log = Ghost(self.log@.push(LedgerCall::Reserve { who, amount, ok: r }));
        r
    }

    pub fn unreserve(&mut self, who: AccountId, amount: Balance)
        ensures
            final(self).calls() == old(self).calls().push(LedgerCall::Unreserve { who, amount }),
    {
        self.inner.unreserve(who, amount);
        self.log = Ghost(self.log@.push(LedgerCall::Unreserve { who, amount }));
    }

    pub fn withdraw(&mut self, who: AccountId, amount: Balance) -> (r: Option<Balance>)
        ensures
            final(self).calls() == old(self).calls().push(
                LedgerCall::Withdraw { who, amount, credit: r },
            ),
    {
        let r = self.inner.withdraw(who, amount);
        self.log = Ghost(self.log@.push(LedgerCall::Withdraw { who, amount, credit: r }));
        r
    }

    pub fn on_unbalanced(&mut self, credit: Balance)
        ensures
            final(self).calls() == old(self).calls().push(LedgerCall::Credit { amount: credit }),
    {
        self.inner.on_unbalanced(credit);
        self.log = Ghost(self.log@.push(LedgerCall::Credit { amount: credit }));
    }
}

} // verus!
