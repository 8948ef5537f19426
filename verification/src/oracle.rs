//! The main-chain state provider.
//!
//! From this core's perspective the main chain is a read-only oracle: it
//! resolves a claimed deposit or a claimed refundable withdrawal by the
//! oracle's own reference key, or reports that the reference is unknown.
//! The embedding system fills the tables; this core only reads them.

use vstd::prelude::*;

use crate::entity::{Deposit, MainRef, Withdrawal};
use crate::table::lookup;

verus! {

/// The main-chain state visible to the side ledger: the deposits that may
/// be claimed and the failed withdrawals whose value may be reclaimed.
#[derive(Clone, Debug, PartialEq, Eq)]
pub struct MainState {
    pub deposits: Vec<(MainRef, Deposit)>,
    pub withdrawals: Vec<(MainRef, Withdrawal)>,
}

impl Default for MainState {
    /// An oracle that knows no deposits and no withdrawals.
    fn default() -> (r: Self)
        ensures
            r.deposits@.len() == 0,
            r.withdrawals@.len() == 0,
    {
        MainState { deposits: Vec::new(), withdrawals: Vec::new() }
    }
}

impl MainState {
    /// Resolves a claimed deposit by reference; `None` if absent.
    #[verifier::loop_isolation(false)]
    pub fn get_deposit(&self, reference: &MainRef) -> (r: Option<Deposit>)
        ensures
            r == lookup(self.deposits@, *reference),
    {
        let mut i: usize = self.deposits.len();
        assert(self.deposits@.take(i as int) =~= self.deposits@);
        while i > 0
            invariant
                i <= self.deposits.len(),
                lookup(self.deposits@, *reference) == lookup(
                    self.deposits@.take(i as int),
                    *reference,
                ),
            decreases i,
        {
            i = i - 1;
            if self.deposits[i].0 == *reference {
                assert(self.deposits@.take(i + 1).last() == self.deposits@[i as int]);
                return Some(self.deposits[i].1);
            }
            assert(self.deposits@.take(i + 1).last() == self.deposits@[i as int]);
            assert(self.deposits@.take(i + 1).drop_last() =~= self.deposits@.take(i as int));
        }
        assert(self.deposits@.take(0) =~= Seq::<(MainRef, Deposit)>::empty());
        None
    }

    /// Resolves a claimed refundable withdrawal by reference; `None` if
    /// absent.
    #[verifier::loop_isolation(false)]
    pub fn get_withdrawal(&self, reference: &MainRef) -> (r: Option<Withdrawal>)
        ensures
            r == lookup(self.withdrawals@, *reference),
    {
        let mut i: usize = self.withdrawals.len();
        assert(self.withdrawals@.take(i as int) =~= self.withdrawals@);
        while i > 0
            invariant
                i <= self.withdrawals.len(),
                lookup(self.withdrawals@, *reference) == lookup(
                    self.withdrawals@.take(i as int),
                    *reference,
                ),
            decreases i,
        {
            i = i - 1;
            if self.withdrawals[i].0 == *reference {
                assert(self.withdrawals@.take(i + 1).last() == self.withdrawals@[i as int]);
                return Some(self.withdrawals[i].1);
            }
            assert(self.withdrawals@.take(i + 1).last() == self.withdrawals@[i as int]);
            assert(self.withdrawals@.take(i + 1).drop_last() =~= self.withdrawals@.take(i as int));
        }
        assert(self.withdrawals@.take(0) =~= Seq::<(MainRef, Withdrawal)>::empty());
        None
    }
}

} // verus!
