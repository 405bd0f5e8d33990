use payments_engine::accounting::executable_tx::{ExecutableTransaction, TxError};
use payments_engine::accounting::transactions::{
    Chargeback, Deposit, Dispute, Resolve, Transaction, TransactionLog, TransactionLogError,
    Withdrawal,
};
use payments_engine::accounting::{AccountLog, DepositState, Ledger, SubAccount, TxState, UserAccount};
use payments_engine::money::{Money, MAX_MANTISSA};
use rust_decimal::Decimal;
use std::str::FromStr;

fn dec(text: &str) -> Money {
    let decimal = Decimal::from_str(text).unwrap();
    Money::new(decimal.mantissa(), decimal.scale()).unwrap()
}

fn available(ledger: &Ledger, client: u16) -> Money {
    ledger.get_account(client).unwrap().available.balance
}

fn held(ledger: &Ledger, client: u16) -> Money {
    ledger.get_account(client).unwrap().held.balance
}

fn net(ledger: &Ledger) -> Money {
    let mut sum = ledger.liabilities();
    for (_, account) in ledger.accounts_iter() {
        sum = sum.checked_add(account.available.balance).unwrap();
        sum = sum.checked_add(account.held.balance).unwrap();
    }
    sum
}

fn through_dispute() -> Ledger {
    let mut ledger = Ledger::new();
    assert_eq!(ledger.execute(&Deposit::new(1, 1, dec("50.00"))), Ok(()));
    assert_eq!(ledger.execute(&Deposit::new(1, 2, dec("30.00"))), Ok(()));
    assert_eq!(ledger.execute(&Withdrawal::new(1, 3, dec("20.00"))), Ok(()));
    assert_eq!(available(&ledger, 1), dec("60.00"));
    assert_eq!(ledger.execute(&Dispute::new(1, 2)), Ok(()));
    assert_eq!(available(&ledger, 1), dec("30.00"));
    assert_eq!(held(&ledger, 1), dec("30.00"));
    ledger
}

#[test]
fn scenario_single_deposit() {
    let mut ledger = Ledger::new();
    assert_eq!(ledger.execute(&Transaction::Deposit(Deposit::new(1, 1, dec("1.00")))), Ok(()));
    assert_eq!(available(&ledger, 1), dec("1.00"));
    assert_eq!(held(&ledger, 1), dec("0"));
    assert_eq!(ledger.liabilities(), dec("-1.00"));
    assert!(!ledger.get_account(1).unwrap().locked);
    assert_eq!(ledger.get_account(1).unwrap().client_id, 1);
}

#[test]
fn scenario_dispute_then_resolve() {
    let mut ledger = through_dispute();
    assert_eq!(ledger.execute(&Resolve::new(1, 2)), Ok(()));
    assert_eq!(available(&ledger, 1), dec("60.00"));
    assert_eq!(held(&ledger, 1), dec("0.00"));
    assert_eq!(ledger.liabilities(), dec("-60.00"));
}

#[test]
fn scenario_dispute_then_chargeback() {
    let mut ledger = through_dispute();
    assert_eq!(ledger.execute(&Chargeback::new(1, 2)), Ok(()));
    assert_eq!(available(&ledger, 1), dec("30.00"));
    assert_eq!(held(&ledger, 1), dec("0.00"));
    assert!(ledger.get_account(1).unwrap().locked);
    assert_eq!(ledger.liabilities(), dec("-30.00"));

    assert_eq!(ledger.execute(&Deposit::new(1, 4, dec("40.00"))), Ok(()));
    assert_eq!(available(&ledger, 1), dec("70.00"));
    assert!(ledger.get_account(1).unwrap().locked);

    assert_eq!(
        ledger.execute(&Withdrawal::new(1, 5, dec("40.00"))),
        Err(TxError::ClientAccountLocked)
    );
    assert_eq!(available(&ledger, 1), dec("70.00"));
    assert_eq!(ledger.liabilities(), dec("-70.00"));
}

#[test]
fn scenario_withdrawal_of_unknown_client() {
    let mut ledger = Ledger::new();
    assert_eq!(ledger.execute(&Deposit::new(1, 1, dec("50.00"))), Ok(()));
    assert_eq!(
        ledger.execute(&Withdrawal::new(2, 2, dec("60.00"))),
        Err(TxError::ClientAccountNotFound)
    );
    assert_eq!(ledger.get_account(2).err(), Some(TxError::ClientAccountNotFound));
    assert_eq!(ledger.liabilities(), dec("-50.00"));
}

#[test]
fn scenario_dispute_of_a_withdrawal() {
    let mut ledger = Ledger::new();
    assert_eq!(ledger.execute(&Deposit::new(1, 1, dec("50.00"))), Ok(()));
    assert_eq!(ledger.execute(&Withdrawal::new(1, 2, dec("30.00"))), Ok(()));
    assert_eq!(ledger.execute(&Dispute::new(1, 2)), Err(TxError::OriginTxNotFound));
    assert_eq!(available(&ledger, 1), dec("20.00"));
    assert_eq!(held(&ledger, 1), dec("0"));
}

#[test]
fn charged_back_deposit_is_refused_for_its_state() {
    let mut ledger = through_dispute();
    assert_eq!(ledger.execute(&Chargeback::new(1, 2)), Ok(()));
    assert!(ledger.get_account(1).unwrap().locked);
    assert_eq!(ledger.execute(&Dispute::new(1, 2)), Err(TxError::TxAlreadyDisputed));
    assert_eq!(ledger.execute(&Resolve::new(1, 2)), Err(TxError::TxNotDisputed));
    assert_eq!(ledger.execute(&Chargeback::new(1, 2)), Err(TxError::TxNotDisputed));
    assert_eq!(available(&ledger, 1), dec("30.00"));
    assert_eq!(held(&ledger, 1), dec("0.00"));
    assert_eq!(ledger.liabilities(), dec("-30.00"));
    assert_eq!(ledger.find_deposit_record(2, 1).unwrap().state, TxState::ChargedBack);
}

#[test]
fn locked_account_turns_disputes_down() {
    let mut ledger = through_dispute();
    assert_eq!(ledger.execute(&Deposit::new(1, 6, dec("5.00"))), Ok(()));
    assert_eq!(ledger.execute(&Dispute::new(1, 6)), Ok(()));
    assert_eq!(ledger.execute(&Chargeback::new(1, 2)), Ok(()));
    assert_eq!(ledger.execute(&Dispute::new(1, 1)), Err(TxError::ClientAccountLocked));
    assert_eq!(ledger.execute(&Resolve::new(1, 1)), Err(TxError::ClientAccountLocked));
    assert_eq!(ledger.execute(&Chargeback::new(1, 1)), Err(TxError::ClientAccountLocked));
    assert_eq!(ledger.execute(&Dispute::new(1, 6)), Err(TxError::ClientAccountLocked));
    assert_eq!(ledger.execute(&Resolve::new(1, 6)), Err(TxError::ClientAccountLocked));
    assert_eq!(ledger.execute(&Chargeback::new(1, 6)), Err(TxError::ClientAccountLocked));
    assert_eq!(ledger.execute(&Dispute::new(1, 9)), Err(TxError::ClientAccountLocked));
    assert_eq!(ledger.execute(&Dispute::new(8, 2)), Err(TxError::ClientAccountNotFound));
    assert_eq!(available(&ledger, 1), dec("30.00"));
    assert_eq!(held(&ledger, 1), dec("5.00"));
    assert_eq!(ledger.liabilities(), dec("-35.00"));
    assert_eq!(ledger.find_deposit_record(1, 1).unwrap().state, TxState::Resolved);
    assert_eq!(ledger.find_deposit_record(6, 1).unwrap().state, TxState::Disputed);
}

#[test]
fn charged_back_deposit_of_another_client_is_not_found() {
    let mut ledger = through_dispute();
    assert_eq!(ledger.execute(&Chargeback::new(1, 2)), Ok(()));
    assert_eq!(ledger.execute(&Deposit::new(2, 7, dec("1.00"))), Ok(()));
    assert_eq!(ledger.execute(&Dispute::new(2, 2)), Err(TxError::OriginTxNotFound));
    assert_eq!(ledger.execute(&Resolve::new(2, 2)), Err(TxError::OriginTxNotFound));
    assert_eq!(ledger.execute(&Chargeback::new(2, 2)), Err(TxError::OriginTxNotFound));
}

#[test]
fn ledger_stays_balanced() {
    let mut ledger = Ledger::new();
    assert_eq!(net(&ledger), dec("0"));
    let steps: Vec<Transaction> = vec![
        Transaction::Deposit(Deposit::new(1, 1, dec("50.0"))),
        Transaction::Deposit(Deposit::new(2, 2, dec("30.125"))),
        Transaction::Withdrawal(Withdrawal::new(1, 3, dec("20.5"))),
        Transaction::Withdrawal(Withdrawal::new(2, 4, dec("99"))),
        Transaction::Dispute(Dispute::new(1, 1)),
        Transaction::Dispute(Dispute::new(2, 1)),
        Transaction::Resolve(Resolve::new(1, 1)),
        Transaction::Dispute(Dispute::new(2, 2)),
        Transaction::Chargeback(Chargeback::new(2, 2)),
        Transaction::Deposit(Deposit::new(2, 5, dec("0.0001"))),
        Transaction::Withdrawal(Withdrawal::new(2, 6, dec("0.0001"))),
        Transaction::Deposit(Deposit::new(3, 7, dec("7"))),
    ];
    for step in steps.iter() {
        let _ = ledger.execute(step);
        assert_eq!(net(&ledger), dec("0"));
    }
    assert_eq!(ledger.liabilities(), dec("-36.5001"));
    assert_eq!(available(&ledger, 1), dec("29.5"));
    assert_eq!(available(&ledger, 2), dec("0.0001"));
    assert_eq!(held(&ledger, 2), dec("0"));
    assert_eq!(available(&ledger, 3), dec("7"));
}

#[test]
fn rejection_leaves_the_ledger_as_it_was() {
    let mut ledger = through_dispute();
    let before = ledger.get_account(1).unwrap();
    let liabilities = ledger.liabilities();
    assert_eq!(ledger.execute(&Withdrawal::new(1, 9, dec("30.01"))), Err(TxError::InsufficientFunds));
    assert_eq!(ledger.execute(&Dispute::new(1, 2)), Err(TxError::TxAlreadyDisputed));
    assert_eq!(ledger.execute(&Resolve::new(1, 1)), Err(TxError::TxNotDisputed));
    assert_eq!(ledger.execute(&Chargeback::new(1, 1)), Err(TxError::TxNotDisputed));
    assert_eq!(ledger.execute(&Chargeback::new(7, 2)), Err(TxError::ClientAccountNotFound));
    let after = ledger.get_account(1).unwrap();
    assert_eq!(after.available.balance, before.available.balance);
    assert_eq!(after.held.balance, before.held.balance);
    assert_eq!(after.locked, before.locked);
    assert_eq!(ledger.liabilities(), liabilities);
    assert_eq!(ledger.find_deposit_record(2, 1).unwrap().state, TxState::Disputed);
    assert_eq!(ledger.find_deposit_record(1, 1).unwrap().state, TxState::Resolved);
}

#[test]
fn withdrawal_of_the_whole_balance() {
    let mut ledger = Ledger::new();
    assert_eq!(ledger.execute(&Deposit::new(4, 1, dec("12.34"))), Ok(()));
    assert_eq!(ledger.execute(&Withdrawal::new(4, 2, dec("12.3400"))), Ok(()));
    assert_eq!(available(&ledger, 4), dec("0"));
    assert_eq!(ledger.liabilities(), dec("0"));
    assert_eq!(ledger.execute(&Withdrawal::new(4, 3, dec("0.0001"))), Err(TxError::InsufficientFunds));
}

#[test]
fn deposit_under_a_used_id_replaces_the_record() {
    let mut ledger = Ledger::new();
    assert_eq!(ledger.execute(&Deposit::new(1, 1, dec("50"))), Ok(()));
    assert_eq!(ledger.execute(&Dispute::new(1, 1)), Ok(()));
    assert_eq!(ledger.execute(&Deposit::new(2, 1, dec("5"))), Ok(()));
    let record = ledger.find_deposit_record(1, 2).unwrap();
    assert_eq!(record.client_id, 2);
    assert_eq!(record.tx_id, 1);
    assert_eq!(record.amount, dec("5"));
    assert_eq!(record.state, TxState::Resolved);
    assert!(ledger.find_deposit_record(1, 1).is_err());
    assert_eq!(ledger.execute(&Resolve::new(1, 1)), Err(TxError::OriginTxNotFound));
    assert_eq!(held(&ledger, 1), dec("50"));
}

#[test]
fn find_deposit_record_checks_the_owner() {
    let mut ledger = Ledger::new();
    assert_eq!(ledger.execute(&Deposit::new(1, 10, dec("50"))), Ok(()));
    assert_eq!(ledger.execute(&Deposit::new(2, 11, dec("30"))), Ok(()));
    assert_eq!(ledger.find_deposit_record(10, 1).unwrap().amount, dec("50"));
    assert_eq!(ledger.find_deposit_record(10, 2).err(), Some(TxError::OriginTxNotFound));
    assert_eq!(ledger.find_deposit_record(12, 1).err(), Some(TxError::OriginTxNotFound));
    assert_eq!(ledger.get_account(3).err(), Some(TxError::ClientAccountNotFound));
}

#[test]
fn try_execute_applies_what_is_exact() {
    let mut ledger = Ledger::new();
    assert_eq!(ledger.try_execute(&Deposit::new(1, 1, dec("50.00"))), Some(Ok(())));
    assert_eq!(
        ledger.try_execute(&Withdrawal::new(1, 2, dec("60.00"))),
        Some(Err(TxError::InsufficientFunds))
    );
    assert_eq!(ledger.try_execute(&Dispute::new(1, 1)), Some(Ok(())));
    assert_eq!(ledger.try_execute(&Chargeback::new(1, 1)), Some(Ok(())));
    assert_eq!(available(&ledger, 1), dec("0"));
    assert_eq!(held(&ledger, 1), dec("0"));
    assert_eq!(ledger.liabilities(), dec("0"));
    assert!(ledger.get_account(1).unwrap().locked);
}

#[test]
fn try_execute_leaves_alone_what_overflows() {
    let mut ledger = Ledger::new();
    let largest = Money::new(MAX_MANTISSA, 0).unwrap();
    let first = Transaction::Deposit(Deposit::new(1, 1, largest));
    assert!(first.admitted(&ledger));
    assert_eq!(ledger.try_execute(&first), Some(Ok(())));
    let second = Transaction::Deposit(Deposit::new(1, 2, dec("1")));
    assert!(!second.admitted(&ledger));
    assert_eq!(ledger.try_execute(&second), None);
    assert_eq!(available(&ledger, 1), largest);
    assert_eq!(ledger.liabilities(), Money::new(-MAX_MANTISSA, 0).unwrap());
    assert!(ledger.find_deposit_record(2, 1).is_err());
    let other = Transaction::Deposit(Deposit::new(2, 3, dec("1")));
    assert_eq!(ledger.try_execute(&other), None);
    assert!(ledger.get_account(2).is_err());
}

#[test]
fn try_execute_leaves_alone_what_would_round() {
    let mut ledger = Ledger::new();
    let large = Money::new(MAX_MANTISSA - 5, 0).unwrap();
    assert_eq!(ledger.try_execute(&Deposit::new(1, 1, large)), Some(Ok(())));
    assert_eq!(ledger.try_execute(&Deposit::new(1, 2, dec("0.4"))), None);
    assert_eq!(available(&ledger, 1), large);
    assert_eq!(ledger.try_execute(&Withdrawal::new(1, 3, dec("0.4"))), None);
    assert_eq!(available(&ledger, 1), large);
    assert_eq!(ledger.try_execute(&Withdrawal::new(1, 4, dec("4"))), Some(Ok(())));
    assert_eq!(available(&ledger, 1), Money::new(MAX_MANTISSA - 9, 0).unwrap());
}

#[test]
fn rejected_transactions_are_always_admitted() {
    let ledger = through_dispute();
    assert!(Withdrawal::new(9, 1, Money::new(MAX_MANTISSA, 0).unwrap()).admitted(&ledger));
    assert!(Withdrawal::new(1, 1, Money::new(MAX_MANTISSA, 0).unwrap()).admitted(&ledger));
    assert!(Dispute::new(1, 2).admitted(&ledger));
    assert!(Resolve::new(1, 1).admitted(&ledger));
    assert!(Chargeback::new(2, 2).admitted(&ledger));
    assert!(Resolve::new(1, 2).admitted(&ledger));
    assert!(Chargeback::new(1, 2).admitted(&ledger));
}

#[test]
fn execute_tx_of_each_kind() {
    let mut ledger = Ledger::new();
    assert_eq!(Deposit::new(1, 1, dec("10")).execute_tx(&mut ledger), Ok(()));
    assert_eq!(Withdrawal::new(1, 2, dec("4")).execute_tx(&mut ledger), Ok(()));
    assert_eq!(Dispute::new(1, 1).execute_tx(&mut ledger), Ok(()));
    assert_eq!(available(&ledger, 1), dec("-4"));
    assert_eq!(held(&ledger, 1), dec("10"));
    assert_eq!(Resolve::new(1, 1).execute_tx(&mut ledger), Ok(()));
    assert_eq!(Dispute::new(1, 1).execute_tx(&mut ledger), Ok(()));
    assert_eq!(Chargeback::new(1, 1).execute_tx(&mut ledger), Ok(()));
    assert_eq!(available(&ledger, 1), dec("-4"));
    assert_eq!(held(&ledger, 1), dec("0"));
    assert_eq!(ledger.liabilities(), dec("4"));
}

#[test]
fn new_accounts_and_records() {
    let sub_account = SubAccount::new();
    assert_eq!(sub_account.balance, dec("0"));
    let account = UserAccount::new(7);
    assert_eq!(account.client_id, 7);
    assert_eq!(account.available.balance, dec("0"));
    assert_eq!(account.held.balance, dec("0"));
    assert!(!account.locked);
    assert_eq!(account.total(), dec("0"));
    let record = DepositState::new(7, 8, dec("1.5"));
    assert_eq!(record.client_id, 7);
    assert_eq!(record.tx_id, 8);
    assert_eq!(record.amount, dec("1.5"));
    assert_eq!(record.state, TxState::Resolved);
    let ledger = Ledger::default();
    assert_eq!(ledger.liabilities(), dec("0"));
    assert!(ledger.accounts_iter().is_empty());
}

#[test]
fn total_is_available_plus_held() {
    let ledger = through_dispute();
    let account = ledger.get_account(1).unwrap();
    assert_eq!(account.total(), dec("60.00"));
    assert_eq!(account.checked_total(), Some(dec("60.00")));
    let mut odd = UserAccount::new(3);
    odd.available.balance = Money::new(MAX_MANTISSA, 0).unwrap();
    odd.held.balance = dec("0.5");
    assert_eq!(odd.checked_total(), None);
    assert!(AccountLog::checked_from(&odd).is_none());
}

#[test]
fn account_log_copies_the_account() {
    let mut ledger = through_dispute();
    assert_eq!(ledger.execute(&Chargeback::new(1, 2)), Ok(()));
    assert_eq!(ledger.execute(&Deposit::new(1, 4, dec("0.5"))), Ok(()));
    assert_eq!(ledger.execute(&Dispute::new(1, 4)), Err(TxError::ClientAccountLocked));
    let account = ledger.get_account(1).unwrap();
    let log = AccountLog::from(&account);
    assert_eq!(log.client_id, 1);
    assert_eq!(log.available, dec("30.5"));
    assert_eq!(log.held, dec("0"));
    assert_eq!(log.total, dec("30.5"));
    assert!(log.locked);
    let checked = AccountLog::checked_from(&account).unwrap();
    assert_eq!(checked.total, dec("30.5"));
    assert_eq!(checked.client_id, 1);
}

#[test]
fn report_has_a_line_for_every_account() {
    let mut ledger = Ledger::new();
    assert_eq!(ledger.account_logs().map(|logs| logs.len()), Some(0));
    assert_eq!(ledger.execute(&Deposit::new(3, 1, dec("1.5"))), Ok(()));
    assert_eq!(ledger.execute(&Deposit::new(1, 2, dec("2.0"))), Ok(()));
    assert_eq!(ledger.execute(&Deposit::new(2, 3, dec("4.25"))), Ok(()));
    assert_eq!(ledger.execute(&Dispute::new(2, 3)), Ok(()));
    let mut logs = ledger.account_logs().unwrap();
    logs.sort_by_key(|log| log.client_id);
    assert_eq!(logs.len(), 3);
    assert_eq!(logs[0].client_id, 1);
    assert_eq!(logs[0].total, dec("2.0"));
    assert_eq!(logs[1].client_id, 2);
    assert_eq!(logs[1].available, dec("0"));
    assert_eq!(logs[1].held, dec("4.25"));
    assert_eq!(logs[1].total, dec("4.25"));
    assert!(!logs[1].locked);
    assert_eq!(logs[2].client_id, 3);
    assert_eq!(logs[2].available, dec("1.5"));
    let mut entries = ledger.accounts_iter();
    entries.sort_by_key(|entry| entry.0);
    assert_eq!(entries.len(), 3);
    assert_eq!(entries[0].0, 1);
    assert_eq!(entries[0].1.client_id, 1);
    assert_eq!(entries[2].1.available.balance, dec("1.5"));
}

#[test]
fn fetched_records() {
    assert_eq!(Transaction::from_fetched(None), Err(TransactionLogError::InvalidTxType));
    let record = TransactionLog {
        tx_type: "withdrawal".to_string(),
        client_id: 6,
        tx_id: 9,
        amount: Some(dec("1.5")),
    };
    assert_eq!(
        Transaction::from_fetched(Some(record)),
        Ok(Transaction::Withdrawal(Withdrawal::new(6, 9, dec("1.5"))))
    );
}

#[test]
fn record_types_are_matched_to_the_letter() {
    for tx_type in ["Deposit", "deposit ", " deposit", "DEPOSIT", "", "deposits", "charge back"] {
        let record = TransactionLog {
            tx_type: tx_type.to_string(),
            client_id: 1,
            tx_id: 1,
            amount: Some(dec("1.0")),
        };
        assert_eq!(Transaction::try_from(record), Err(TransactionLogError::InvalidTxType));
    }
}

#[test]
fn disputes_ignore_an_amount() {
    for (tx_type, expected) in [
        ("dispute", Transaction::Dispute(Dispute::new(1, 2))),
        ("resolve", Transaction::Resolve(Resolve::new(1, 2))),
        ("chargeback", Transaction::Chargeback(Chargeback::new(1, 2))),
    ] {
        let record = TransactionLog {
            tx_type: tx_type.to_string(),
            client_id: 1,
            tx_id: 2,
            amount: Some(dec("9.99")),
        };
        assert_eq!(Transaction::try_from(record), Ok(expected));
    }
}
