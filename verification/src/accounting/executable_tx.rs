//! What every transaction offers the ledger, and why one is turned down.

use crate::accounting::model::Operation;
use crate::accounting::Ledger;
use vstd::prelude::*;

verus! {

/// The reasons for which the ledger rejects a transaction. A rejected
/// transaction leaves the ledger as it was.
#[derive(Clone, Copy, Debug, PartialEq, Eq, Structural)]
pub enum TxError {
    /// The client's account is locked.
    ClientAccountLocked,
    /// The account does not hold enough available funds.
    InsufficientFunds,
    /// The client has no account.
    ClientAccountNotFound,
    /// No deposit of this client is recorded under the transaction id.
    OriginTxNotFound,
    /// The deposit is under dispute or was charged back.
    TxAlreadyDisputed,
    /// The deposit is not under dispute.
    TxNotDisputed,
}

/// A transaction that can be applied to a ledger.
pub trait ExecutableTransaction {
    /// What the transaction asks of the ledger.
    spec fn operation(&self) -> Operation;

    /// Whether the balances that the transaction would leave in `ledger`
    /// come out of the decimal arithmetic exactly. A transaction that the
    /// ledger rejects moves nothing, and is admitted.
    spec fn admitted_by(&self, ledger: &Ledger) -> bool;

    /// Decides `admitted_by`.
    fn admitted(&self, ledger: &Ledger) -> (r: bool)
        requires
            ledger.wf(),
        ensures
            r == self.admitted_by(ledger),
    ;

    /// Applies the transaction to `ledger`: all of it, or on rejection none
    /// of it.
    fn execute_tx(&self, ledger: &mut Ledger) -> (r: Result<(), TxError>)
        requires
            old(ledger).wf(),
            self.admitted_by(old(ledger)),
        ensures
            final(ledger).wf(),
            r == old(ledger)@.outcome(self.operation()),
            final(ledger)@ == old(ledger)@.next(self.operation()),
    ;
}

} // verus!
