//! What holds of every ledger, proved of the model in `model`.

use crate::accounting::executable_tx::TxError;
use crate::accounting::model::{
    client_id_limit, funds_below, AccountState, LedgerState, Operation,
};
use crate::accounting::TxState;
use crate::core_types::{ClientId, TxId};
use vstd::prelude::*;

verus! {

/// No accounts, no funds.
pub proof fn lemma_funds_of_none(bound: nat)
    ensures
        funds_below(Map::<ClientId, AccountState>::empty(), bound) == 0,
    decreases bound,
{
    if bound > 0 {
        lemma_funds_of_none((bound - 1) as nat);
    }
}

/// Replacing or adding one account changes the funds by the difference
/// between its new total and its old one.
pub proof fn lemma_funds_after_insert(
    accounts: Map<ClientId, AccountState>,
    client: ClientId,
    account: AccountState,
    bound: nat,
)
    requires
        bound <= client_id_limit(),
    ensures
        funds_below(accounts.insert(client, account), bound) == funds_below(accounts, bound) + if client
            < bound {
            account.total() - if accounts.contains_key(client) {
                accounts[client].total()
            } else {
                0
            }
        } else {
            0
        },
    decreases bound,
{
    if bound > 0 {
        lemma_funds_after_insert(accounts, client, account, (bound - 1) as nat);
    }
}

/// Conservation, one step: no operation changes what liabilities and client
/// funds add up to.
pub proof fn lemma_step_keeps_net(s: LedgerState, op: Operation)
    ensures
        s.next(op).net() == s.net(),
{
    if s.outcome(op) is Ok {
        match op {
            Operation::Deposit { client, amount, .. } => {
                let account = if s.accounts.contains_key(client) {
                    s.accounts[client]
                } else {
                    AccountState::opened()
                };
                lemma_funds_after_insert(
                    s.accounts,
                    client,
                    AccountState { available: account.available + amount, ..account },
                    client_id_limit(),
                );
            },
            Operation::Withdrawal { client, amount, .. } => {
                let account = s.accounts[client];
                lemma_funds_after_insert(
                    s.accounts,
                    client,
                    AccountState { available: account.available - amount, ..account },
                    client_id_limit(),
                );
            },
            Operation::Dispute { client, tx } => {
                let account = s.accounts[client];
                let amount = s.deposits[tx].amount;
                lemma_funds_after_insert(
                    s.accounts,
                    client,
                    AccountState {
                        available: account.available - amount,
                        held: account.held + amount,
                        ..account
                    },
                    client_id_limit(),
                );
            },
            Operation::Resolve { client, tx } => {
                let account = s.accounts[client];
                let amount = s.deposits[tx].amount;
                lemma_funds_after_insert(
                    s.accounts,
                    client,
                    AccountState {
                        available: account.available + amount,
                        held: account.held - amount,
                        ..account
                    },
                    client_id_limit(),
                );
            },
            Operation::Chargeback { client, tx } => {
                let account = s.accounts[client];
                let amount = s.deposits[tx].amount;
                lemma_funds_after_insert(
                    s.accounts,
                    client,
                    AccountState { held: account.held - amount, locked: true, ..account },
                    client_id_limit(),
                );
            },
        }
    }
}

/// Conservation: in every state that transactions can lead to from the empty
/// ledger, liabilities and the funds of all accounts add up to zero.
pub proof fn lemma_conservation(ops: Seq<Operation>)
    ensures
        LedgerState::empty().replay(ops).balanced(),
    decreases ops.len(),
{
    if ops.len() == 0 {
        lemma_funds_of_none(client_id_limit());
    } else {
        lemma_conservation(ops.drop_last());
        lemma_step_keeps_net(LedgerState::empty().replay(ops.drop_last()), ops.last());
    }
}

/// A balanced ledger stays balanced, whatever is applied and whether or not
/// it is accepted.
pub proof fn lemma_step_keeps_balance(s: LedgerState, op: Operation)
    requires
        s.balanced(),
    ensures
        s.next(op).balanced(),
{
    lemma_step_keeps_net(s, op);
}

/// A rejected operation changes nothing.
pub proof fn lemma_rejection_changes_nothing(s: LedgerState, op: Operation)
    requires
        s.outcome(op) is Err,
    ensures
        s.next(op) == s,
{
}

/// Accounts are never removed, and a locked account stays locked.
pub proof fn lemma_step_keeps_accounts(s: LedgerState, op: Operation, client: ClientId)
    requires
        s.accounts.contains_key(client),
    ensures
        s.next(op).accounts.contains_key(client),
        s.accounts[client].locked ==> s.next(op).accounts[client].locked,
{
}

/// An account is opened by a deposit to its client and by nothing else, and
/// it is opened with the deposit as its only funds.
pub proof fn lemma_only_deposits_open_accounts(s: LedgerState, op: Operation, client: ClientId)
    requires
        !s.accounts.contains_key(client),
        s.next(op).accounts.contains_key(client),
    ensures
        op matches Operation::Deposit { client: credited, amount, .. } && credited == client
            && s.next(op).accounts[client] == (AccountState {
            available: amount,
            held: 0,
            locked: false,
        }),
{
}

/// The record of a deposit is never removed, and keeps its client and its
/// amount unless a new deposit is made under the same id.
pub proof fn lemma_step_keeps_deposits(s: LedgerState, op: Operation, tx: TxId)
    requires
        s.deposits.contains_key(tx),
    ensures
        s.next(op).deposits.contains_key(tx),
        !deposits_under(op, tx) ==> s.next(op).deposits[tx].client == s.deposits[tx].client
            && s.next(op).deposits[tx].amount == s.deposits[tx].amount,
{
}

/// An account that is there is there in every later state.
pub proof fn lemma_replay_keeps_accounts(s: LedgerState, ops: Seq<Operation>, client: ClientId)
    requires
        s.accounts.contains_key(client),
    ensures
        s.replay(ops).accounts.contains_key(client),
    decreases ops.len(),
{
    if ops.len() > 0 {
        lemma_replay_keeps_accounts(s, ops.drop_last(), client);
        lemma_step_keeps_accounts(s.replay(ops.drop_last()), ops.last(), client);
    }
}

/// Once an account is locked it is locked in every later state.
pub proof fn lemma_lock_is_permanent(s: LedgerState, ops: Seq<Operation>, client: ClientId)
    requires
        s.accounts.contains_key(client),
        s.accounts[client].locked,
    ensures
        s.replay(ops).accounts.contains_key(client),
        s.replay(ops).accounts[client].locked,
    decreases ops.len(),
{
    if ops.len() > 0 {
        lemma_lock_is_permanent(s, ops.drop_last(), client);
        lemma_step_keeps_accounts(s.replay(ops.drop_last()), ops.last(), client);
    }
}

/// Once an account is locked, every later withdrawal from it is rejected
/// with `ClientAccountLocked`, while every later deposit to it is accepted
/// and credited, and leaves the lock in place.
pub proof fn lemma_locked_account_rejects_withdrawals(
    s: LedgerState,
    ops: Seq<Operation>,
    client: ClientId,
    tx: TxId,
    amount: int,
)
    requires
        s.accounts.contains_key(client),
        s.accounts[client].locked,
    ensures
        ({
            let later = s.replay(ops);
            &&& later.outcome(Operation::Withdrawal { client, tx, amount }) == Err::<(), TxError>(
                TxError::ClientAccountLocked,
            )
            &&& later.next(Operation::Withdrawal { client, tx, amount }) == later
            &&& later.outcome(Operation::Deposit { client, tx, amount }) == Ok::<(), TxError>(())
            &&& later.next(Operation::Deposit { client, tx, amount }).accounts[client].available
                == later.accounts[client].available + amount
            &&& later.next(Operation::Deposit { client, tx, amount }).accounts[client].locked
        }),
{
    lemma_lock_is_permanent(s, ops, client);
}

/// The dispute lifecycle of a deposit whose owner has a usable account:
/// which of dispute, resolve and chargeback is accepted depends on the state
/// of the deposit alone, what is out of state is rejected with the error of
/// its kind, and an accepted one moves the deposit to the state it names.
pub proof fn lemma_dispute_lifecycle(s: LedgerState, client: ClientId, tx: TxId)
    requires
        s.usable_account(client) is Ok,
        s.deposit_of(tx, client) is Ok,
    ensures
        ({
            let state = s.deposits[tx].state;
            let dispute = Operation::Dispute { client, tx };
            let resolve = Operation::Resolve { client, tx };
            let chargeback = Operation::Chargeback { client, tx };
            &&& s.outcome(dispute) == if state == TxState::Resolved {
                Ok::<(), TxError>(())
            } else {
                Err(TxError::TxAlreadyDisputed)
            }
            &&& s.outcome(resolve) == if state == TxState::Disputed {
                Ok::<(), TxError>(())
            } else {
                Err(TxError::TxNotDisputed)
            }
            &&& s.outcome(chargeback) == s.outcome(resolve)
            &&& !(s.outcome(dispute) is Ok && s.outcome(resolve) is Ok)
            &&& s.outcome(dispute) is Ok ==> s.next(dispute).deposits[tx].state
                == TxState::Disputed
            &&& s.outcome(resolve) is Ok ==> s.next(resolve).deposits[tx].state
                == TxState::Resolved
            &&& s.outcome(chargeback) is Ok ==> s.next(chargeback).deposits[tx].state
                == TxState::ChargedBack
        }),
{
}

/// In no state is a deposit open both to a dispute and to a settlement:
/// where a dispute of it is accepted, neither a resolve nor a chargeback is,
/// and the other way round. A resolve is accepted exactly where a chargeback is.
pub proof fn lemma_dispute_excludes_settlement(s: LedgerState, client: ClientId, tx: TxId)
    ensures
        !(s.outcome(Operation::Dispute { client, tx }) is Ok && s.outcome(
            Operation::Resolve { client, tx },
        ) is Ok),
        !(s.outcome(Operation::Dispute { client, tx }) is Ok && s.outcome(
            Operation::Chargeback { client, tx },
        ) is Ok),
        s.outcome(Operation::Resolve { client, tx }) == s.outcome(
            Operation::Chargeback { client, tx },
        ),
{
}

/// What follows an accepted dispute, resolve or chargeback: a disputed
/// deposit cannot be disputed again but can be settled; a resolved one can
/// be disputed again but not settled; after a chargeback the account is
/// locked, and the deposit is refused for its state: a dispute of it as
/// already disputed, a resolve or chargeback of it as not disputed.
pub proof fn lemma_lifecycle_steps(s: LedgerState, client: ClientId, tx: TxId)
    ensures
        ({
            let dispute = Operation::Dispute { client, tx };
            let resolve = Operation::Resolve { client, tx };
            let chargeback = Operation::Chargeback { client, tx };
            &&& s.outcome(dispute) is Ok ==> {
                &&& s.next(dispute).outcome(dispute) == Err::<(), TxError>(
                    TxError::TxAlreadyDisputed,
                )
                &&& s.next(dispute).outcome(resolve) is Ok
                &&& s.next(dispute).outcome(chargeback) is Ok
            }
            &&& s.outcome(resolve) is Ok ==> {
                &&& s.next(resolve).outcome(resolve) == Err::<(), TxError>(TxError::TxNotDisputed)
                &&& s.next(resolve).outcome(chargeback) == Err::<(), TxError>(
                    TxError::TxNotDisputed,
                )
                &&& s.next(resolve).outcome(dispute) is Ok
            }
            &&& s.outcome(chargeback) is Ok ==> {
                &&& s.next(chargeback).accounts[client].locked
                &&& s.next(chargeback).outcome(dispute) == Err::<(), TxError>(
                    TxError::TxAlreadyDisputed,
                )
                &&& s.next(chargeback).outcome(resolve) == Err::<(), TxError>(
                    TxError::TxNotDisputed,
                )
                &&& s.next(chargeback).outcome(chargeback) == Err::<(), TxError>(
                    TxError::TxNotDisputed,
                )
            }
        }),
{
}

/// A dispute, resolve or chargeback is accepted in exactly one situation:
/// the client has an account that is not locked, the deposit is recorded
/// as the client's, and it is in the state that the operation needs:
/// settled for a dispute, disputed for a resolve or a chargeback. An accepted
/// chargeback leaves the deposit charged back and the account locked.
pub proof fn lemma_accepted_exactly_when(s: LedgerState, client: ClientId, tx: TxId)
    ensures
        ({
            let open_to = |state: TxState|
                {
                    &&& s.accounts.contains_key(client)
                    &&& !s.accounts[client].locked
                    &&& s.deposits.contains_key(tx)
                    &&& s.deposits[tx].client == client
                    &&& s.deposits[tx].state == state
                };
            let chargeback = Operation::Chargeback { client, tx };
            &&& s.outcome(Operation::Dispute { client, tx }) is Ok <==> open_to(TxState::Resolved)
            &&& s.outcome(Operation::Resolve { client, tx }) is Ok <==> open_to(TxState::Disputed)
            &&& s.outcome(chargeback) is Ok <==> open_to(TxState::Disputed)
            &&& s.outcome(chargeback) is Ok ==> s.next(chargeback).deposits[tx].state
                == TxState::ChargedBack && s.next(chargeback).accounts[client].locked
        }),
{
}

/// Of a deposit that was charged back, its owner is told so whether the
/// account is locked or not: a dispute is refused as already disputed, a
/// resolve or a chargeback as not disputed, and nothing changes.
pub proof fn lemma_charged_back_refusals(s: LedgerState, client: ClientId, tx: TxId)
    requires
        s.accounts.contains_key(client),
        s.charged_back(tx, client),
    ensures
        s.outcome(Operation::Dispute { client, tx }) == Err::<(), TxError>(
            TxError::TxAlreadyDisputed,
        ),
        s.outcome(Operation::Resolve { client, tx }) == Err::<(), TxError>(
            TxError::TxNotDisputed,
        ),
        s.outcome(Operation::Chargeback { client, tx }) == Err::<(), TxError>(
            TxError::TxNotDisputed,
        ),
        s.next(Operation::Dispute { client, tx }) == s,
        s.next(Operation::Resolve { client, tx }) == s,
        s.next(Operation::Chargeback { client, tx }) == s,
{
}

/// On a locked account, a dispute, resolve or chargeback of anything but a
/// charged-back deposit of the client is refused for the lock.
pub proof fn lemma_locked_account_refuses_disputes(s: LedgerState, client: ClientId, tx: TxId)
    requires
        s.accounts.contains_key(client),
        s.accounts[client].locked,
        !s.charged_back(tx, client),
    ensures
        s.outcome(Operation::Dispute { client, tx }) == Err::<(), TxError>(
            TxError::ClientAccountLocked,
        ),
        s.outcome(Operation::Resolve { client, tx }) == Err::<(), TxError>(
            TxError::ClientAccountLocked,
        ),
        s.outcome(Operation::Chargeback { client, tx }) == Err::<(), TxError>(
            TxError::ClientAccountLocked,
        ),
{
}

/// A withdrawal records nothing: the deposits are the same before and after
/// it, so a dispute that names the id of an accepted withdrawal finds no
/// deposit, unless a deposit was made under that id.
pub proof fn lemma_withdrawal_records_nothing(
    s: LedgerState,
    client: ClientId,
    tx: TxId,
    amount: int,
)
    ensures
        ({
            let after = s.next(Operation::Withdrawal { client, tx, amount });
            &&& after.deposits == s.deposits
            &&& s.outcome(Operation::Withdrawal { client, tx, amount }) is Ok
                && !s.deposits.contains_key(tx) ==> {
                &&& after.outcome(Operation::Dispute { client, tx }) == Err::<(), TxError>(
                    TxError::OriginTxNotFound,
                )
                &&& after.outcome(Operation::Resolve { client, tx }) == Err::<(), TxError>(
                    TxError::OriginTxNotFound,
                )
                &&& after.outcome(Operation::Chargeback { client, tx }) == Err::<(), TxError>(
                    TxError::OriginTxNotFound,
                )
            }
        }),
{
}

/// Whether `op` is a deposit under the transaction id `tx`.
pub open spec fn deposits_under(op: Operation, tx: TxId) -> bool {
    op matches Operation::Deposit { tx: recorded, .. } && recorded == tx
}

/// A deposit record is never removed, and a charged-back deposit stays
/// charged back, unless a new deposit is made under the same id.
pub proof fn lemma_step_keeps_charged_back(s: LedgerState, op: Operation, tx: TxId)
    requires
        s.deposits.contains_key(tx),
        s.deposits[tx].state == TxState::ChargedBack,
        !deposits_under(op, tx),
    ensures
        s.next(op).deposits.contains_key(tx),
        s.next(op).deposits[tx] == s.deposits[tx],
{
}

/// A charged-back deposit is at the end of its lifecycle: as long as no
/// new deposit is made under its id, it stays charged back, and no dispute,
/// resolve or chargeback of it is accepted, by whichever client. Its owner,
/// having an account, is always refused for the state of the deposit: a
/// dispute as already disputed, a resolve or a chargeback as not disputed.
pub proof fn lemma_charged_back_is_final(
    s: LedgerState,
    ops: Seq<Operation>,
    client: ClientId,
    tx: TxId,
)
    requires
        s.deposits.contains_key(tx),
        s.deposits[tx].state == TxState::ChargedBack,
        forall|i: int| 0 <= i < ops.len() ==> !deposits_under(#[trigger] ops[i], tx),
    ensures
        ({
            let later = s.replay(ops);
            &&& later.deposits.contains_key(tx)
            &&& later.deposits[tx] == s.deposits[tx]
            &&& later.outcome(Operation::Dispute { client, tx }) is Err
            &&& later.outcome(Operation::Resolve { client, tx }) is Err
            &&& later.outcome(Operation::Chargeback { client, tx }) is Err
            &&& s.accounts.contains_key(client) && s.deposits[tx].client == client ==> {
                &&& later.outcome(Operation::Dispute { client, tx }) == Err::<(), TxError>(
                    TxError::TxAlreadyDisputed,
                )
                &&& later.outcome(Operation::Resolve { client, tx }) == Err::<(), TxError>(
                    TxError::TxNotDisputed,
                )
                &&& later.outcome(Operation::Chargeback { client, tx }) == Err::<(), TxError>(
                    TxError::TxNotDisputed,
                )
            }
        }),
    decreases ops.len(),
{
    if ops.len() > 0 {
        let before = ops.drop_last();
        assert forall|i: int| 0 <= i < before.len() implies !deposits_under(
            #[trigger] before[i],
            tx,
        ) by {
            assert(before[i] == ops[i]);
        }
        lemma_charged_back_is_final(s, before, client, tx);
        lemma_step_keeps_charged_back(s.replay(before), ops.last(), tx);
    }
    if s.accounts.contains_key(client) {
        lemma_replay_keeps_accounts(s, ops, client);
    }
}

/// A dispute, resolve or chargeback that names a deposit of another client
/// is rejected with `OriginTxNotFound`, and changes nothing.
pub proof fn lemma_foreign_deposit_is_not_found(s: LedgerState, client: ClientId, tx: TxId)
    requires
        s.usable_account(client) is Ok,
        s.deposits.contains_key(tx),
        s.deposits[tx].client != client,
    ensures
        s.outcome(Operation::Dispute { client, tx }) == Err::<(), TxError>(
            TxError::OriginTxNotFound,
        ),
        s.outcome(Operation::Resolve { client, tx }) == Err::<(), TxError>(
            TxError::OriginTxNotFound,
        ),
        s.outcome(Operation::Chargeback { client, tx }) == Err::<(), TxError>(
            TxError::OriginTxNotFound,
        ),
        s.next(Operation::Dispute { client, tx }) == s,
        s.next(Operation::Resolve { client, tx }) == s,
        s.next(Operation::Chargeback { client, tx }) == s,
{
}

} // verus!
