//! The five kinds of transaction and how each is applied.

use crate::accounting::executable_tx::{ExecutableTransaction, TxError};
use crate::accounting::model::Operation;
use crate::accounting::{exact_transfer, make_tx, transfer_is_exact, Ledger, TxState};
use crate::core_types::{ClientId, TxId};
use crate::money::Money;
use vstd::prelude::*;
use vstd::std_specs::convert::TryFromSpec;

verus! {

/// Credits a client, opening the account if need be.
#[derive(Clone, Copy, Debug, PartialEq)]
pub struct Deposit {
    pub client_id: ClientId,
    pub tx_id: TxId,
    pub amount: Money,
}

impl Deposit {
    pub fn new(client_id: ClientId, tx_id: TxId, amount: Money) -> (r: Self)
        ensures
            r == (Deposit { client_id, tx_id, amount }),
    {
        Self { client_id, tx_id, amount }
    }
}

impl ExecutableTransaction for Deposit {
    open spec fn operation(&self) -> Operation {
        Operation::Deposit { client: self.client_id, tx: self.tx_id, amount: self.amount@ }
    }

    open spec fn admitted_by(&self, ledger: &Ledger) -> bool {
        exact_transfer(
            ledger.spec_liabilities().balance,
            if ledger.spec_accounts().contains_key(self.client_id) {
                ledger.spec_accounts()[self.client_id].available.balance
            } else {
                Money::of(0, 0)
            },
            self.amount,
        ) is Some
    }

    fn admitted(&self, ledger: &Ledger) -> (r: bool) {
        let credited = match ledger.get_account(self.client_id) {
            Ok(account) => account.available.balance,
            Err(_) => Money::zero(),
        };
        transfer_is_exact(ledger.liabilities(), credited, self.amount)
    }

    fn execute_tx(&self, ledger: &mut Ledger) -> (r: Result<(), TxError>)
        ensures
            r is Ok,
    {
        let mut client_account = ledger.get_or_create_account(self.client_id);
        let mut liabilities = ledger.liabilities;
        make_tx(&mut liabilities, &mut client_account.available, self.amount);
        ledger.post(liabilities, client_account);
        ledger.record_deposit(self.tx_id, self.client_id, self.amount);
        proof {
            let expected = old(ledger)@.next(self.operation());
            Money::lemma_of(0, 0);
            assert(ledger@.accounts =~= expected.accounts);
            assert(ledger@.deposits =~= expected.deposits);
        }
        Ok(())
    }
}

/// Debits a client, if the account is usable and holds enough.
#[derive(Clone, Copy, Debug, PartialEq)]
pub struct Withdrawal {
    pub client_id: ClientId,
    pub tx_id: TxId,
    pub amount: Money,
}

impl Withdrawal {
    pub fn new(client_id: ClientId, tx_id: TxId, amount: Money) -> (r: Self)
        ensures
            r == (Withdrawal { client_id, tx_id, amount }),
    {
        Self { client_id, tx_id, amount }
    }
}

impl ExecutableTransaction for Withdrawal {
    open spec fn operation(&self) -> Operation {
        Operation::Withdrawal { client: self.client_id, tx: self.tx_id, amount: self.amount@ }
    }

    open spec fn admitted_by(&self, ledger: &Ledger) -> bool {
        ledger@.outcome(self.operation()) is Ok ==> exact_transfer(
            ledger.spec_accounts()[self.client_id].available.balance,
            ledger.spec_liabilities().balance,
            self.amount,
        ) is Some
    }

    fn admitted(&self, ledger: &Ledger) -> (r: bool) {
        match ledger.get_account(self.client_id) {
            Err(_) => true,
            Ok(account) => {
                if account.locked || account.available.balance.less_than(self.amount) {
                    true
                } else {
                    transfer_is_exact(account.available.balance, ledger.liabilities(), self.amount)
                }
            },
        }
    }

    fn execute_tx(&self, ledger: &mut Ledger) -> (r: Result<(), TxError>)
        ensures
            final(ledger).spec_deposit_states() == old(ledger).spec_deposit_states(),
    {
        match ledger.get_account(self.client_id) {
            Err(e) => Err(e),
            Ok(account) => {
                if account.locked {
                    return Err(TxError::ClientAccountLocked);
                }
                if account.available.balance.less_than(self.amount) {
                    return Err(TxError::InsufficientFunds);
                }
                let mut client_account = account;
                let mut liabilities = ledger.liabilities;
                make_tx(&mut client_account.available, &mut liabilities, self.amount);
                ledger.post(liabilities, client_account);
                proof {
                    let expected = old(ledger)@.next(self.operation());
                    assert(ledger@.accounts =~= expected.accounts);
                    assert(ledger@.deposits =~= expected.deposits);
                }
                Ok(())
            },
        }
    }
}

/// Puts a settled deposit under dispute: its amount moves from available to held.
#[derive(Clone, Copy, Debug, PartialEq)]
pub struct Dispute {
    pub client_id: ClientId,
    pub tx_id: TxId,
}

impl Dispute {
    pub fn new(client_id: ClientId, tx_id: TxId) -> (r: Self)
        ensures
            r == (Dispute { client_id, tx_id }),
    {
        Self { client_id, tx_id }
    }
}

impl ExecutableTransaction for Dispute {
    open spec fn operation(&self) -> Operation {
        Operation::Dispute { client: self.client_id, tx: self.tx_id }
    }

    open spec fn admitted_by(&self, ledger: &Ledger) -> bool {
        ledger@.outcome(self.operation()) is Ok ==> exact_transfer(
            ledger.spec_accounts()[self.client_id].available.balance,
            ledger.spec_accounts()[self.client_id].held.balance,
            ledger.spec_deposit_states()[self.tx_id].amount,
        ) is Some
    }

    fn admitted(&self, ledger: &Ledger) -> (r: bool) {
        match ledger.get_account(self.client_id) {
            Err(_) => true,
            Ok(account) => match ledger.find_deposit_record(self.tx_id, self.client_id) {
                Err(_) => true,
                Ok(deposit) => match deposit.state {
                    TxState::Resolved => account.locked || transfer_is_exact(
                        account.available.balance,
                        account.held.balance,
                        deposit.amount,
                    ),
                    _ => true,
                },
            },
        }
    }

    fn execute_tx(&self, ledger: &mut Ledger) -> (r: Result<(), TxError>) {
        match ledger.get_account(self.client_id) {
            Err(e) => Err(e),
            Ok(account) => {
                let found = ledger.find_deposit_record(self.tx_id, self.client_id);
                match found {
                    Ok(deposit) => match deposit.state {
                        TxState::ChargedBack => {
                            return Err(TxError::TxAlreadyDisputed);
                        },
                        _ => {},
                    },
                    Err(_) => {},
                }
                if account.locked {
                    return Err(TxError::ClientAccountLocked);
                }
                let deposit = match found {
                    Ok(deposit) => deposit,
                    Err(e) => {
                        return Err(e);
                    },
                };
                match deposit.state {
                    TxState::Resolved => {},
                    _ => {
                        return Err(TxError::TxAlreadyDisputed);
                    },
                }
                let mut client_account = account;
                make_tx(&mut client_account.available, &mut client_account.held, deposit.amount);
                ledger.set_deposit_state(self.tx_id, TxState::Disputed);
                ledger.post(ledger.liabilities, client_account);
                proof {
                    let expected = old(ledger)@.next(self.operation());
                    assert(ledger@.accounts =~= expected.accounts);
                    assert(ledger@.deposits =~= expected.deposits);
                }
                Ok(())
            },
        }
    }
}

/// Settles a disputed deposit: its amount moves from held back to available.
#[derive(Clone, Copy, Debug, PartialEq)]
pub struct Resolve {
    pub client_id: ClientId,
    pub tx_id: TxId,
}

impl Resolve {
    pub fn new(client_id: ClientId, tx_id: TxId) -> (r: Self)
        ensures
            r == (Resolve { client_id, tx_id }),
    {
        Self { client_id, tx_id }
    }
}

impl ExecutableTransaction for Resolve {
    open spec fn operation(&self) -> Operation {
        Operation::Resolve { client: self.client_id, tx: self.tx_id }
    }

    open spec fn admitted_by(&self, ledger: &Ledger) -> bool {
        ledger@.outcome(self.operation()) is Ok ==> exact_transfer(
            ledger.spec_accounts()[self.client_id].held.balance,
            ledger.spec_accounts()[self.client_id].available.balance,
            ledger.spec_deposit_states()[self.tx_id].amount,
        ) is Some
    }

    fn admitted(&self, ledger: &Ledger) -> (r: bool) {
        match ledger.get_account(self.client_id) {
            Err(_) => true,
            Ok(account) => match ledger.find_deposit_record(self.tx_id, self.client_id) {
                Err(_) => true,
                Ok(deposit) => match deposit.state {
                    TxState::Disputed => account.locked || transfer_is_exact(
                        account.held.balance,
                        account.available.balance,
                        deposit.amount,
                    ),
                    _ => true,
                },
            },
        }
    }

    fn execute_tx(&self, ledger: &mut Ledger) -> (r: Result<(), TxError>) {
        match ledger.get_account(self.client_id) {
            Err(e) => Err(e),
            Ok(account) => {
                let found = ledger.find_deposit_record(self.tx_id, self.client_id);
                match found {
                    Ok(deposit) => match deposit.state {
                        TxState::ChargedBack => {
                            return Err(TxError::TxNotDisputed);
                        },
                        _ => {},
                    },
                    Err(_) => {},
                }
                if account.locked {
                    return Err(TxError::ClientAccountLocked);
                }
                let deposit = match found {
                    Ok(deposit) => deposit,
                    Err(e) => {
                        return Err(e);
                    },
                };
                match deposit.state {
                    TxState::Disputed => {},
                    _ => {
                        return Err(TxError::TxNotDisputed);
                    },
                }
                let mut client_account = account;
                make_tx(&mut client_account.held, &mut client_account.available, deposit.amount);
                ledger.set_deposit_state(self.tx_id, TxState::Resolved);
                ledger.post(ledger.liabilities, client_account);
                proof {
                    let expected = old(ledger)@.next(self.operation());
                    assert(ledger@.accounts =~= expected.accounts);
                    assert(ledger@.deposits =~= expected.deposits);
                }
                Ok(())
            },
        }
    }
}

/// Reverses a disputed deposit: its amount leaves held funds for good, and the account is locked.
#[derive(Clone, Copy, Debug, PartialEq)]
pub struct Chargeback {
    pub client_id: ClientId,
    pub tx_id: TxId,
}

impl Chargeback {
    pub fn new(client_id: ClientId, tx_id: TxId) -> (r: Self)
        ensures
            r == (Chargeback { client_id, tx_id }),
    {
        Self { client_id, tx_id }
    }
}

impl ExecutableTransaction for Chargeback {
    open spec fn operation(&self) -> Operation {
        Operation::Chargeback { client: self.client_id, tx: self.tx_id }
    }

    open spec fn admitted_by(&self, ledger: &Ledger) -> bool {
        ledger@.outcome(self.operation()) is Ok ==> exact_transfer(
            ledger.spec_accounts()[self.client_id].held.balance,
            ledger.spec_liabilities().balance,
            ledger.spec_deposit_states()[self.tx_id].amount,
        ) is Some
    }

    fn admitted(&self, ledger: &Ledger) -> (r: bool) {
        match ledger.get_account(self.client_id) {
            Err(_) => true,
            Ok(account) => match ledger.find_deposit_record(self.tx_id, self.client_id) {
                Err(_) => true,
                Ok(deposit) => match deposit.state {
                    TxState::Disputed => account.locked || transfer_is_exact(
                        account.held.balance,
                        ledger.liabilities(),
                        deposit.amount,
                    ),
                    _ => true,
                },
            },
        }
    }

    fn execute_tx(&self, ledger: &mut Ledger) -> (r: Result<(), TxError>) {
        match ledger.get_account(self.client_id) {
            Err(e) => Err(e),
            Ok(account) => {
                let found = ledger.find_deposit_record(self.tx_id, self.client_id);
                match found {
                    Ok(deposit) => match deposit.state {
                        TxState::ChargedBack => {
                            return Err(TxError::TxNotDisputed);
                        },
                        _ => {},
                    },
                    Err(_) => {},
                }
                if account.locked {
                    return Err(TxError::ClientAccountLocked);
                }
                let deposit = match found {
                    Ok(deposit) => deposit,
                    Err(e) => {
                        return Err(e);
                    },
                };
                match deposit.state {
                    TxState::Disputed => {},
                    _ => {
                        return Err(TxError::TxNotDisputed);
                    },
                }
                let mut client_account = account;
                let mut liabilities = ledger.liabilities;
                client_account.locked = true;
                make_tx(&mut client_account.held, &mut liabilities, deposit.amount);
                ledger.set_deposit_state(self.tx_id, TxState::ChargedBack);
                ledger.post(liabilities, client_account);
                proof {
                    let expected = old(ledger)@.next(self.operation());
                    assert(ledger@.accounts =~= expected.accounts);
                    assert(ledger@.deposits =~= expected.deposits);
                }
                Ok(())
            },
        }
    }
}

/// Any of the five transactions.
#[derive(Clone, Copy, Debug, PartialEq)]
pub enum Transaction {
    Deposit(Deposit),
    Withdrawal(Withdrawal),
    Dispute(Dispute),
    Resolve(Resolve),
    Chargeback(Chargeback),
}

impl ExecutableTransaction for Transaction {
    open spec fn operation(&self) -> Operation {
        match self {
            Transaction::Deposit(deposit) => deposit.operation(),
            Transaction::Withdrawal(withdrawal) => withdrawal.operation(),
            Transaction::Dispute(dispute) => dispute.operation(),
            Transaction::Resolve(resolve) => resolve.operation(),
            Transaction::Chargeback(chargeback) => chargeback.operation(),
        }
    }

    open spec fn admitted_by(&self, ledger: &Ledger) -> bool {
        match self {
            Transaction::Deposit(deposit) => deposit.admitted_by(ledger),
            Transaction::Withdrawal(withdrawal) => withdrawal.admitted_by(ledger),
            Transaction::Dispute(dispute) => dispute.admitted_by(ledger),
            Transaction::Resolve(resolve) => resolve.admitted_by(ledger),
            Transaction::Chargeback(chargeback) => chargeback.admitted_by(ledger),
        }
    }

    fn admitted(&self, ledger: &Ledger) -> (r: bool) {
        match self {
            Transaction::Deposit(deposit) => deposit.admitted(ledger),
            Transaction::Withdrawal(withdrawal) => withdrawal.admitted(ledger),
            Transaction::Dispute(dispute) => dispute.admitted(ledger),
            Transaction::Resolve(resolve) => resolve.admitted(ledger),
            Transaction::Chargeback(chargeback) => chargeback.admitted(ledger),
        }
    }

    fn execute_tx(&self, ledger: &mut Ledger) -> (r: Result<(), TxError>) {
        match self {
            Transaction::Deposit(deposit) => deposit.execute_tx(ledger),
            Transaction::Withdrawal(withdrawal) => withdrawal.execute_tx(ledger),
            Transaction::Dispute(dispute) => dispute.execute_tx(ledger),
            Transaction::Resolve(resolve) => resolve.execute_tx(ledger),
            Transaction::Chargeback(chargeback) => chargeback.execute_tx(ledger),
        }
    }
}

/// A transaction as it is read from a record, before it is checked.
#[derive(Debug, PartialEq)]
pub struct TransactionLog {
    pub tx_type: String,
    pub client_id: ClientId,
    pub tx_id: TxId,
    pub amount: Option<Money>,
}

/// Why a record is no transaction.
#[derive(Clone, Copy, Debug, PartialEq, Eq, Structural)]
pub enum TransactionLogError {
    /// The type is none of the five that are known.
    InvalidTxType,
    /// A deposit or a withdrawal names no amount.
    MissingAmount,
}

/// Whether `tx_type` is exactly `tag`.
fn is_tag(tx_type: &String, tag: &str) -> (r: bool)
    ensures
        r == (tx_type@ == tag@),
{
    let tag = tag.to_owned();
    *tx_type == tag
}

impl TryFrom<TransactionLog> for Transaction {
    type Error = TransactionLogError;

    /// Checks a record and makes it a transaction. The type is matched to
    /// the letter; a dispute, resolve or chargeback ignores any amount.
    fn try_from(log: TransactionLog) -> (r: Result<Self, Self::Error>) {
        let TransactionLog { tx_type, client_id, tx_id, amount } = log;
        if is_tag(&tx_type, "deposit") {
            match amount {
                Some(amount) => Ok(Transaction::Deposit(Deposit { client_id, tx_id, amount })),
                None => Err(TransactionLogError::MissingAmount),
            }
        } else if is_tag(&tx_type, "withdrawal") {
            match amount {
                Some(amount) => Ok(
                    Transaction::Withdrawal(Withdrawal { client_id, tx_id, amount }),
                ),
                None => Err(TransactionLogError::MissingAmount),
            }
        } else if is_tag(&tx_type, "dispute") {
            Ok(Transaction::Dispute(Dispute { client_id, tx_id }))
        } else if is_tag(&tx_type, "resolve") {
            Ok(Transaction::Resolve(Resolve { client_id, tx_id }))
        } else if is_tag(&tx_type, "chargeback") {
            Ok(Transaction::Chargeback(Chargeback { client_id, tx_id }))
        } else {
            Err(TransactionLogError::InvalidTxType)
        }
    }
}

impl vstd::std_specs::convert::TryFromSpecImpl<TransactionLog> for Transaction {
    open spec fn obeys_try_from_spec() -> bool {
        true
    }

    open spec fn try_from_spec(log: TransactionLog) -> Result<Self, Self::Error> {
        if log.tx_type@ == "deposit"@ {
            match log.amount {
                Some(amount) => Ok(
                    Transaction::Deposit(
                        Deposit { client_id: log.client_id, tx_id: log.tx_id, amount },
                    ),
                ),
                None => Err(TransactionLogError::MissingAmount),
            }
        } else if log.tx_type@ == "withdrawal"@ {
            match log.amount {
                Some(amount) => Ok(
                    Transaction::Withdrawal(
                        Withdrawal { client_id: log.client_id, tx_id: log.tx_id, amount },
                    ),
                ),
                None => Err(TransactionLogError::MissingAmount),
            }
        } else if log.tx_type@ == "dispute"@ {
            Ok(Transaction::Dispute(Dispute { client_id: log.client_id, tx_id: log.tx_id }))
        } else if log.tx_type@ == "resolve"@ {
            Ok(Transaction::Resolve(Resolve { client_id: log.client_id, tx_id: log.tx_id }))
        } else if log.tx_type@ == "chargeback"@ {
            Ok(Transaction::Chargeback(Chargeback { client_id: log.client_id, tx_id: log.tx_id }))
        } else {
            Err(TransactionLogError::InvalidTxType)
        }
    }
}

impl Transaction {
    /// The transaction in a fetched record. A record that could not be read
    /// counts as one of no known type.
    pub fn from_fetched(fetched: Option<TransactionLog>) -> (r: Result<
        Transaction,
        TransactionLogError,
    >)
        ensures
            r == (match fetched {
                Some(log) => Transaction::try_from_spec(log),
                None => Err(TransactionLogError::InvalidTxType),
            }),
    {
        match fetched {
            Some(log) => Transaction::try_from(log),
            None => Err(TransactionLogError::InvalidTxType),
        }
    }
}

} // verus!
