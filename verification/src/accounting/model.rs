//! The ledger as mathematics: states, operations, and the step from one state
//! to the next. Amounts are integers, counted in steps of `10^-28`.

use crate::accounting::executable_tx::TxError;
use crate::accounting::TxState;
use crate::core_types::{ClientId, TxId};
use vstd::prelude::*;

verus! {

/// One more than the largest client id.
pub open spec fn client_id_limit() -> nat {
    0x1_0000
}

/// What an account holds.
pub struct AccountState {
    pub available: int,
    pub held: int,
    pub locked: bool,
}

impl AccountState {
    /// A new account: empty and unlocked.
    pub open spec fn opened() -> AccountState {
        AccountState { available: 0, held: 0, locked: false }
    }

    pub open spec fn total(self) -> int {
        self.available + self.held
    }
}

/// What the ledger remembers of a deposit.
pub struct DepositRecord {
    pub client: ClientId,
    pub amount: int,
    pub state: TxState,
}

/// What a transaction asks of the ledger.
pub enum Operation {
    Deposit { client: ClientId, tx: TxId, amount: int },
    Withdrawal { client: ClientId, tx: TxId, amount: int },
    Dispute { client: ClientId, tx: TxId },
    Resolve { client: ClientId, tx: TxId },
    Chargeback { client: ClientId, tx: TxId },
}

/// The whole ledger.
pub struct LedgerState {
    pub liabilities: int,
    pub accounts: Map<ClientId, AccountState>,
    pub deposits: Map<TxId, DepositRecord>,
}

/// The funds of the accounts whose client id is below `bound`.
pub open spec fn funds_below(accounts: Map<ClientId, AccountState>, bound: nat) -> int
    decreases bound,
{
    if bound == 0 {
        0
    } else {
        let client = (bound - 1) as ClientId;
        funds_below(accounts, (bound - 1) as nat) + if accounts.contains_key(client) {
            accounts[client].total()
        } else {
            0
        }
    }
}

impl LedgerState {
    /// The ledger before any transaction.
    pub open spec fn empty() -> LedgerState {
        LedgerState { liabilities: 0, accounts: Map::empty(), deposits: Map::empty() }
    }

    /// The funds of all accounts together.
    pub open spec fn client_funds(self) -> int {
        funds_below(self.accounts, client_id_limit())
    }

    /// Liabilities and client funds together.
    pub open spec fn net(self) -> int {
        self.liabilities + self.client_funds()
    }

    /// Every amount credited to a client is owed by the ledger.
    pub open spec fn balanced(self) -> bool {
        self.net() == 0
    }

    /// The account of `client`, if it is there and not locked.
    pub open spec fn usable_account(self, client: ClientId) -> Result<AccountState, TxError> {
        if !self.accounts.contains_key(client) {
            Err(TxError::ClientAccountNotFound)
        } else if self.accounts[client].locked {
            Err(TxError::ClientAccountLocked)
        } else {
            Ok(self.accounts[client])
        }
    }

    /// The deposit recorded under `tx`, if it is a deposit of `client`.
    pub open spec fn deposit_of(self, tx: TxId, client: ClientId) -> Result<DepositRecord, TxError> {
        if self.deposits.contains_key(tx) && self.deposits[tx].client == client {
            Ok(self.deposits[tx])
        } else {
            Err(TxError::OriginTxNotFound)
        }
    }

    /// Whether the deposit under `tx` is a deposit of `client` that was
    /// charged back.
    pub open spec fn charged_back(self, tx: TxId, client: ClientId) -> bool {
        self.deposit_of(tx, client) matches Ok(deposit) && deposit.state == TxState::ChargedBack
    }

    /// Whether a dispute, resolve or chargeback of `tx` by `client` is
    /// accepted, where it needs the deposit in the state `wanted` and is
    /// refused with `refusal` for a deposit in another state. A deposit that
    /// was charged back is refused for its state even though its owner is
    /// locked; otherwise the lock comes first.
    pub open spec fn lifecycle_check(
        self,
        client: ClientId,
        tx: TxId,
        wanted: TxState,
        refusal: TxError,
    ) -> Result<(), TxError> {
        if !self.accounts.contains_key(client) {
            Err(TxError::ClientAccountNotFound)
        } else if self.charged_back(tx, client) {
            Err(refusal)
        } else if self.accounts[client].locked {
            Err(TxError::ClientAccountLocked)
        } else {
            match self.deposit_of(tx, client) {
                Err(e) => Err(e),
                Ok(deposit) => if deposit.state != wanted {
                    Err(refusal)
                } else {
                    Ok(())
                },
            }
        }
    }

    /// Whether the ledger accepts `op`, and if not, why.
    pub open spec fn outcome(self, op: Operation) -> Result<(), TxError> {
        match op {
            Operation::Deposit { .. } => Ok(()),
            Operation::Withdrawal { client, amount, .. } => match self.usable_account(client) {
                Err(e) => Err(e),
                Ok(account) => if account.available < amount {
                    Err(TxError::InsufficientFunds)
                } else {
                    Ok(())
                },
            },
            Operation::Dispute { client, tx } => self.lifecycle_check(
                client,
                tx,
                TxState::Resolved,
                TxError::TxAlreadyDisputed,
            ),
            Operation::Resolve { client, tx } | Operation::Chargeback { client, tx } => self.lifecycle_check(
                client,
                tx,
                TxState::Disputed,
                TxError::TxNotDisputed,
            ),
        }
    }

    /// The ledger with the account of `client` replaced.
    pub open spec fn with_account(self, client: ClientId, account: AccountState) -> LedgerState {
        LedgerState { accounts: self.accounts.insert(client, account), ..self }
    }

    /// The ledger with the deposit under `tx` moved to `state`.
    pub open spec fn with_deposit_state(self, tx: TxId, state: TxState) -> LedgerState {
        LedgerState {
            deposits: self.deposits.insert(tx, DepositRecord { state, ..self.deposits[tx] }),
            ..self
        }
    }

    /// The ledger after `op`. A rejected operation changes nothing.
    pub open spec fn next(self, op: Operation) -> LedgerState {
        if self.outcome(op) is Err {
            self
        } else {
            match op {
                Operation::Deposit { client, tx, amount } => {
                    let account = if self.accounts.contains_key(client) {
                        self.accounts[client]
                    } else {
                        AccountState::opened()
                    };
                    LedgerState {
                        liabilities: self.liabilities - amount,
                        accounts: self.accounts.insert(
                            client,
                            AccountState { available: account.available + amount, ..account },
                        ),
                        deposits: self.deposits.insert(
                            tx,
                            DepositRecord { client, amount, state: TxState::Resolved },
                        ),
                    }
                },
                Operation::Withdrawal { client, amount, .. } => {
                    let account = self.accounts[client];
                    LedgerState {
                        liabilities: self.liabilities + amount,
                        ..self.with_account(
                            client,
                            AccountState { available: account.available - amount, ..account },
                        )
                    }
                },
                Operation::Dispute { client, tx } => {
                    let account = self.accounts[client];
                    let amount = self.deposits[tx].amount;
                    self.with_deposit_state(tx, TxState::Disputed).with_account(
                        client,
                        AccountState {
                            available: account.available - amount,
                            held: account.held + amount,
                            ..account
                        },
                    )
                },
                Operation::Resolve { client, tx } => {
                    let account = self.accounts[client];
                    let amount = self.deposits[tx].amount;
                    self.with_deposit_state(tx, TxState::Resolved).with_account(
                        client,
                        AccountState {
                            available: account.available + amount,
                            held: account.held - amount,
                            ..account
                        },
                    )
                },
                Operation::Chargeback { client, tx } => {
                    let account = self.accounts[client];
                    let amount = self.deposits[tx].amount;
                    LedgerState {
                        liabilities: self.liabilities + amount,
                        ..self.with_deposit_state(tx, TxState::ChargedBack).with_account(
                            client,
                            AccountState { held: account.held - amount, locked: true, ..account },
                        )
                    }
                },
            }
        }
    }

    /// The ledger after the operations of `ops`, applied in order.
    pub open spec fn replay(self, ops: Seq<Operation>) -> LedgerState
        decreases ops.len(),
    {
        if ops.len() == 0 {
            self
        } else {
            self.replay(ops.drop_last()).next(ops.last())
        }
    }
}

} // verus!
