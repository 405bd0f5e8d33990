//! The ledger: client accounts, the liabilities that balance them, and the
//! deposits that can still be disputed.

use crate::accounting::executable_tx::{ExecutableTransaction, TxError};
use crate::accounting::laws::{lemma_funds_after_insert, lemma_funds_of_none};
use crate::accounting::model::{client_id_limit, AccountState, DepositRecord, LedgerState};
use crate::core_types::{ClientId, TxId};
use crate::money::Money;
use std::collections::HashMap;
use vstd::prelude::*;
use vstd::std_specs::iter::IteratorSpec;

pub mod executable_tx;
pub mod laws;
pub mod model;
pub mod transactions;

verus! {

broadcast use vstd::std_specs::hash::group_hash_axioms;

/// One balance: available funds, held funds, or the ledger's liabilities.
#[derive(Clone, Copy, Debug)]
pub struct SubAccount {
    pub balance: Money,
}

impl SubAccount {
    /// An empty balance.
    pub fn new() -> (r: Self)
        ensures
            r.balance == Money::of(0, 0),
            r.balance@ == 0,
    {
        Self { balance: Money::zero() }
    }
}

/// A client's account.
#[derive(Clone, Copy, Debug)]
pub struct UserAccount {
    pub client_id: ClientId,
    pub available: SubAccount,
    pub held: SubAccount,
    pub locked: bool,
}

impl View for UserAccount {
    type V = AccountState;

    open spec fn view(&self) -> AccountState {
        AccountState {
            available: self.available.balance@,
            held: self.held.balance@,
            locked: self.locked,
        }
    }
}

impl UserAccount {
    /// The account that a client's first deposit opens: empty and unlocked.
    pub fn new(client_id: ClientId) -> (r: Self)
        ensures
            r.client_id == client_id,
            r.available.balance == Money::of(0, 0),
            r.held.balance == Money::of(0, 0),
            !r.locked,
            r@ == AccountState::opened(),
    {
        Self { client_id, available: SubAccount::new(), held: SubAccount::new(), locked: false }
    }

    /// Available and held funds together, where the decimal arithmetic gives
    /// that sum exactly.
    pub fn checked_total(&self) -> (r: Option<Money>)
        ensures
            r == self.available.balance.exact_sum(self.held.balance),
            r matches Some(total) ==> total@ == self@.total(),
    {
        match self.available.balance.checked_add(self.held.balance) {
            Some(_) => Some(self.total()),
            None => None,
        }
    }

    /// Available and held funds together.
    pub fn total(&self) -> (r: Money)
        requires
            self.available.balance.exact_sum(self.held.balance) is Some,
        ensures
            Some(r) == self.available.balance.exact_sum(self.held.balance),
            r@ == self@.total(),
    {
        self.available.balance.checked_add(self.held.balance).unwrap()
    }
}

/// One line of the report on the accounts.
#[derive(Clone, Copy, Debug)]
pub struct AccountLog {
    pub client_id: ClientId,
    pub available: Money,
    pub held: Money,
    pub total: Money,
    pub locked: bool,
}

impl AccountLog {
    /// The report line of `account`, where the decimal arithmetic gives its
    /// total exactly.
    pub open spec fn of(account: UserAccount) -> Option<AccountLog> {
        match account.available.balance.exact_sum(account.held.balance) {
            Some(total) => Some(
                AccountLog {
                    client_id: account.client_id,
                    available: account.available.balance,
                    held: account.held.balance,
                    total,
                    locked: account.locked,
                },
            ),
            None => None,
        }
    }

    /// The report line of an account whose total can be computed exactly.
    pub fn from(user_account: &UserAccount) -> (r: Self)
        requires
            AccountLog::of(*user_account) is Some,
        ensures
            Some(r) == AccountLog::of(*user_account),
            r.total@ == r.available@ + r.held@,
    {
        let total = user_account.total();
        AccountLog {
            client_id: user_account.client_id,
            available: user_account.available.balance,
            held: user_account.held.balance,
            total,
            locked: user_account.locked,
        }
    }

    /// The report line of an account, or `None` where its total cannot be
    /// computed exactly.
    pub fn checked_from(user_account: &UserAccount) -> (r: Option<Self>)
        ensures
            r == AccountLog::of(*user_account),
            r matches Some(log) ==> log.total@ == log.available@ + log.held@,
    {
        match user_account.checked_total() {
            Some(_) => Some(AccountLog::from(user_account)),
            None => None,
        }
    }
}

/// Where a deposit stands in the dispute lifecycle.
#[derive(Clone, Copy, Debug, PartialEq, Eq, Structural)]
pub enum TxState {
    /// Settled: not under dispute. Every deposit starts here.
    Resolved,
    /// Under dispute: its amount is held.
    Disputed,
    /// Charged back: its amount has left the ledger for good.
    ChargedBack,
}

/// What the ledger keeps of a deposit, for the disputes that may follow.
#[derive(Clone, Copy, Debug)]
pub struct DepositState {
    pub client_id: ClientId,
    pub tx_id: TxId,
    pub amount: Money,
    pub state: TxState,
}

impl View for DepositState {
    type V = DepositRecord;

    open spec fn view(&self) -> DepositRecord {
        DepositRecord { client: self.client_id, amount: self.amount@, state: self.state }
    }
}

impl DepositState {
    /// The record of a deposit just made: settled.
    pub fn new(client_id: ClientId, tx_id: TxId, amount: Money) -> (r: Self)
        ensures
            r == (DepositState { client_id, tx_id, amount, state: TxState::Resolved }),
    {
        Self { client_id, tx_id, amount, state: TxState::Resolved }
    }
}

/// The balances that moving `amount` from `source` to `destination` leaves
/// in the two, where the decimal arithmetic gives both exactly.
pub open spec fn exact_transfer(source: Money, destination: Money, amount: Money) -> Option<
    (Money, Money),
> {
    match (source.exact_difference(amount), destination.exact_sum(amount)) {
        (Some(debited), Some(credited)) => Some((debited, credited)),
        _ => None,
    }
}

/// Whether `amount` can be moved from `source` to `destination` exactly.
fn transfer_is_exact(source: Money, destination: Money, amount: Money) -> (r: bool)
    ensures
        r == exact_transfer(source, destination, amount) is Some,
{
    source.checked_sub(amount).is_some() && destination.checked_add(amount).is_some()
}

/// Moves `amount` from `source` to `destination`: what the one loses the
/// other gains.
fn make_tx(source: &mut SubAccount, destination: &mut SubAccount, amount: Money)
    requires
        exact_transfer(old(source).balance, old(destination).balance, amount) is Some,
    ensures
        Some((final(source).balance, final(destination).balance)) == exact_transfer(
            old(source).balance,
            old(destination).balance,
            amount,
        ),
        final(source).balance@ == old(source).balance@ - amount@,
        final(destination).balance@ == old(destination).balance@ + amount@,
{
    source.balance = source.balance.checked_sub(amount).unwrap();
    destination.balance = destination.balance.checked_add(amount).unwrap();
}

/// All accounts, the liabilities that balance them, and the deposits made.
pub struct Ledger {
    liabilities: SubAccount,
    accounts: HashMap<ClientId, UserAccount>,
    deposit_states: HashMap<TxId, DepositState>,
}

impl View for Ledger {
    type V = LedgerState;

    open spec fn view(&self) -> LedgerState {
        LedgerState {
            liabilities: self.spec_liabilities().balance@,
            accounts: self.spec_accounts().map_values(|account: UserAccount| account@),
            deposits: self.spec_deposit_states().map_values(|deposit: DepositState| deposit@),
        }
    }
}

impl Ledger {
    /// The liabilities sub-account.
    pub closed spec fn spec_liabilities(&self) -> SubAccount {
        self.liabilities
    }

    /// The accounts, by client.
    pub closed spec fn spec_accounts(&self) -> Map<ClientId, UserAccount> {
        self.accounts@
    }

    /// The deposits, by transaction id.
    pub closed spec fn spec_deposit_states(&self) -> Map<TxId, DepositState> {
        self.deposit_states@
    }

    /// Every account and every deposit is filed under its own id, and the
    /// ledger is balanced.
    pub open spec fn wf(&self) -> bool {
        &&& forall|client: ClientId| #[trigger]
            self.spec_accounts().contains_key(client) ==> self.spec_accounts()[client].client_id
                == client
        &&& forall|tx: TxId| #[trigger]
            self.spec_deposit_states().contains_key(tx) ==> self.spec_deposit_states()[tx].tx_id
                == tx
        &&& self@.balanced()
    }

    /// A ledger with no accounts and no deposits.
    pub fn new() -> (r: Self)
        ensures
            r.wf(),
            r@ == LedgerState::empty(),
    {
        let r = Self {
            liabilities: SubAccount::new(),
            accounts: HashMap::new(),
            deposit_states: HashMap::new(),
        };
        proof {
            assert(r@.accounts =~= Map::empty());
            assert(r@.deposits =~= Map::empty());
            lemma_funds_of_none(client_id_limit());
        }
        r
    }

    /// What the ledger owes: the negative of all client funds.
    pub fn liabilities(&self) -> (r: Money)
        ensures
            r == self.spec_liabilities().balance,
            r@ == self@.liabilities,
    {
        self.liabilities.balance
    }

    /// The account of `client`.
    pub fn get_account(&self, client: ClientId) -> (r: Result<UserAccount, TxError>)
        ensures
            r == (if self.spec_accounts().contains_key(client) {
                Ok(self.spec_accounts()[client])
            } else {
                Err(TxError::ClientAccountNotFound)
            }),
            r matches Ok(account) ==> self@.accounts.contains_key(client) && account@
                == self@.accounts[client],
            r is Err ==> !self@.accounts.contains_key(client),
    {
        match self.accounts.get(&client) {
            Some(account) => Ok(*account),
            None => Err(TxError::ClientAccountNotFound),
        }
    }

    /// The record of the deposit made under `tx`, if `client` made it.
    pub fn find_deposit_record(&self, tx: TxId, client: ClientId) -> (r: Result<
        DepositState,
        TxError,
    >)
        ensures
            r == (if self.spec_deposit_states().contains_key(tx)
                && self.spec_deposit_states()[tx].client_id == client {
                Ok(self.spec_deposit_states()[tx])
            } else {
                Err(TxError::OriginTxNotFound)
            }),
            match r {
                Ok(deposit) => self@.deposit_of(tx, client) == Ok::<DepositRecord, TxError>(
                    deposit@,
                ),
                Err(e) => self@.deposit_of(tx, client) == Err::<DepositRecord, TxError>(e),
            },
    {
        match self.deposit_states.get(&tx) {
            Some(deposit) => if deposit.client_id == client {
                Ok(*deposit)
            } else {
                Err(TxError::OriginTxNotFound)
            },
            None => Err(TxError::OriginTxNotFound),
        }
    }

    /// The account of `client`, opened first if the client has none.
    fn get_or_create_account(&mut self, client: ClientId) -> (r: UserAccount)
        requires
            old(self).wf(),
        ensures
            final(self).wf(),
            r == (if old(self).spec_accounts().contains_key(client) {
                old(self).spec_accounts()[client]
            } else {
                UserAccount {
                    client_id: client,
                    available: SubAccount { balance: Money::of(0, 0) },
                    held: SubAccount { balance: Money::of(0, 0) },
                    locked: false,
                }
            }),
            final(self).spec_accounts() == old(self).spec_accounts().insert(client, r),
            final(self).spec_liabilities() == old(self).spec_liabilities(),
            final(self).spec_deposit_states() == old(self).spec_deposit_states(),
    {
        match self.accounts.get(&client) {
            Some(account) => {
                let account = *account;
                proof {
                    assert(self.spec_accounts().insert(client, account) =~= self.spec_accounts());
                }
                account
            },
            None => {
                let account = UserAccount::new(client);
                self.accounts.insert(client, account);
                proof {
                    Money::lemma_of(0, 0);
                    lemma_funds_after_insert(
                        old(self)@.accounts,
                        client,
                        account@,
                        client_id_limit(),
                    );
                    assert(self@.accounts =~= old(self)@.accounts.insert(client, account@));
                }
                account
            },
        }
    }

    /// Files the record of a deposit under `tx`, over any record already there.
    fn record_deposit(&mut self, tx: TxId, client: ClientId, amount: Money)
        requires
            old(self).wf(),
        ensures
            final(self).wf(),
            final(self).spec_deposit_states() == old(self).spec_deposit_states().insert(
                tx,
                DepositState { client_id: client, tx_id: tx, amount, state: TxState::Resolved },
            ),
            final(self).spec_accounts() == old(self).spec_accounts(),
            final(self).spec_liabilities() == old(self).spec_liabilities(),
    {
        self.deposit_states.insert(tx, DepositState::new(client, tx, amount));
    }

    /// Moves the deposit recorded under `tx` to `state`.
    fn set_deposit_state(&mut self, tx: TxId, state: TxState)
        requires
            old(self).wf(),
            old(self).spec_deposit_states().contains_key(tx),
        ensures
            final(self).wf(),
            final(self).spec_deposit_states() == old(self).spec_deposit_states().insert(
                tx,
                DepositState { state, ..old(self).spec_deposit_states()[tx] },
            ),
            final(self).spec_accounts() == old(self).spec_accounts(),
            final(self).spec_liabilities() == old(self).spec_liabilities(),
    {
        match self.deposit_states.get(&tx) {
            Some(deposit) => {
                let moved = DepositState { state, ..*deposit };
                self.deposit_states.insert(tx, moved);
            },
            None => {},
        }
    }

    /// Puts back the liabilities and one account after a transfer that
    /// touched nothing else.
    fn post(&mut self, liabilities: SubAccount, account: UserAccount)
        requires
            old(self).wf(),
            old(self).spec_accounts().contains_key(account.client_id),
            liabilities.balance@ + account@.total() == old(self).spec_liabilities().balance@
                + old(self).spec_accounts()[account.client_id]@.total(),
        ensures
            final(self).wf(),
            final(self).spec_liabilities() == liabilities,
            final(self).spec_accounts() == old(self).spec_accounts().insert(
                account.client_id,
                account,
            ),
            final(self).spec_deposit_states() == old(self).spec_deposit_states(),
    {
        self.liabilities = liabilities;
        self.accounts.insert(account.client_id, account);
        proof {
            lemma_funds_after_insert(
                old(self)@.accounts,
                account.client_id,
                account@,
                client_id_limit(),
            );
            assert(self@.accounts =~= old(self)@.accounts.insert(account.client_id, account@));
        }
    }

    /// Applies `tx`: all of it, or on rejection none of it.
    pub fn execute<T: ExecutableTransaction>(&mut self, tx: &T) -> (r: Result<(), TxError>)
        requires
            old(self).wf(),
            tx.admitted_by(old(self)),
        ensures
            final(self).wf(),
            final(self)@.balanced(),
            r == old(self)@.outcome(tx.operation()),
            final(self)@ == old(self)@.next(tx.operation()),
    {
        tx.execute_tx(self)
    }

    /// Applies `tx` if the balances it would leave come out of the decimal
    /// arithmetic exactly, and says how the ledger took it. Otherwise leaves
    /// the ledger untouched and returns `None`.
    pub fn try_execute<T: ExecutableTransaction>(&mut self, tx: &T) -> (r: Option<
        Result<(), TxError>,
    >)
        requires
            old(self).wf(),
        ensures
            final(self).wf(),
            final(self)@.balanced(),
            r == (if tx.admitted_by(old(self)) {
                Some(old(self)@.outcome(tx.operation()))
            } else {
                None
            }),
            final(self)@ == (if tx.admitted_by(old(self)) {
                old(self)@.next(tx.operation())
            } else {
                old(self)@
            }),
            !tx.admitted_by(old(self)) ==> *final(self) == *old(self),
    {
        if tx.admitted(self) {
            Some(self.execute(tx))
        } else {
            None
        }
    }

    /// Every account with its client, each once, in no particular order.
    pub fn accounts_iter(&self) -> (r: Vec<(ClientId, UserAccount)>)
        ensures
            r@.no_duplicates(),
            r@.to_set() == self.spec_accounts().kv_pairs(),
            r@.len() == self.spec_accounts().len(),
    {
        let mut accounts: Vec<(ClientId, UserAccount)> = Vec::new();
        let ghost entries = vstd::std_specs::hash::spec_hash_map_iter(&self.accounts).remaining();
        for entry in iter: self.accounts.iter()
            invariant
                iter.seq() == entries,
                entries.no_duplicates(),
                accounts@.len() == iter.index(),
                forall|i: int|
                    0 <= i < accounts@.len() ==> accounts@[i] == (
                        *(#[trigger] entries[i]).0,
                        *entries[i].1,
                    ),
        {
            accounts.push((*entry.0, *entry.1));
        }
        proof {
            assert(accounts@ =~= entries.unref());
            assert forall|i: int, j: int|
                0 <= i < accounts@.len() && 0 <= j < accounts@.len() && i != j implies accounts@[i]
                != accounts@[j] by {
                assert(entries[i] != entries[j]);
            }
        }
        accounts
    }

    /// The report: one line for every account, in no particular order, or
    /// `None` where the total of some account cannot be computed exactly.
    pub fn account_logs(&self) -> (r: Option<Vec<AccountLog>>)
        requires
            self.wf(),
        ensures
            r is Some <==> forall|client: ClientId| #[trigger]
                self.spec_accounts().contains_key(client) ==> AccountLog::of(
                    self.spec_accounts()[client],
                ) is Some,
            r matches Some(logs) ==> {
                &&& logs@.len() == self.spec_accounts().len()
                &&& forall|i: int|
                    0 <= i < logs@.len() ==> {
                        &&& self.spec_accounts().contains_key((#[trigger] logs@[i]).client_id)
                        &&& Some(logs@[i]) == AccountLog::of(
                            self.spec_accounts()[logs@[i].client_id],
                        )
                    }
                &&& forall|i: int, j: int|
                    0 <= i < j < logs@.len() ==> (#[trigger] logs@[i]).client_id != (
                    #[trigger] logs@[j]).client_id
            },
    {
        let accounts = self.accounts_iter();
        let mut logs: Vec<AccountLog> = Vec::new();
        let mut at: usize = 0;
        proof {
            assert forall|i: int| 0 <= i < accounts@.len() implies {
                &&& self.spec_accounts().contains_key((#[trigger] accounts@[i]).0)
                &&& self.spec_accounts()[accounts@[i].0] == accounts@[i].1
                &&& accounts@[i].1.client_id == accounts@[i].0
            } by {
                assert(accounts@.to_set().contains(accounts@[i]));
            }
        }
        while at < accounts.len()
            invariant
                self.wf(),
                at <= accounts@.len(),
                logs@.len() == at,
                accounts@.no_duplicates(),
                accounts@.len() == self.spec_accounts().len(),
                forall|i: int|
                    0 <= i < accounts@.len() ==> {
                        &&& self.spec_accounts().contains_key((#[trigger] accounts@[i]).0)
                        &&& self.spec_accounts()[accounts@[i].0] == accounts@[i].1
                        &&& accounts@[i].1.client_id == accounts@[i].0
                    },
                forall|i: int|
                    0 <= i < at ==> Some(#[trigger] logs@[i]) == AccountLog::of(accounts@[i].1),
            decreases accounts@.len() - at,
        {
            match AccountLog::checked_from(&accounts[at].1) {
                Some(log) => {
                    logs.push(log);
                },
                None => {
                    return None;
                },
            }
            at = at + 1;
        }
        proof {
            assert forall|client: ClientId| #[trigger]
                self.spec_accounts().contains_key(client) implies AccountLog::of(
                self.spec_accounts()[client],
            ) is Some by {
                let pair = (client, self.spec_accounts()[client]);
                assert(self.spec_accounts().kv_pairs().contains(pair));
                assert(accounts@.to_set().contains(pair));
                let i = choose|i: int| 0 <= i < accounts@.len() && accounts@[i] == pair;
                assert(Some(logs@[i]) == AccountLog::of(accounts@[i].1));
            }
            assert forall|i: int, j: int| 0 <= i < j < logs@.len() implies (#[trigger] logs@[i]).client_id
                != (#[trigger] logs@[j]).client_id by {
                assert(Some(logs@[i]) == AccountLog::of(accounts@[i].1));
                assert(Some(logs@[j]) == AccountLog::of(accounts@[j].1));
                assert(accounts@[i] != accounts@[j]);
            }
            assert forall|i: int| 0 <= i < logs@.len() implies {
                &&& self.spec_accounts().contains_key((#[trigger] logs@[i]).client_id)
                &&& Some(logs@[i]) == AccountLog::of(self.spec_accounts()[logs@[i].client_id])
            } by {
                assert(Some(logs@[i]) == AccountLog::of(accounts@[i].1));
            }
        }
        Some(logs)
    }
}

impl Default for Ledger {
    fn default() -> (r: Self)
        ensures
            r.wf(),
            r@ == LedgerState::empty(),
    {
        Self::new()
    }
}

} // verus!
