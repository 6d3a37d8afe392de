use payments_engine::amount::{Amount, MAX_MANTISSA};
use payments_engine::transactions::ledger::{Ledger, TxKey, TxValue};
use payments_engine::transactions::models::{Account, Transaction, TransactionKind};
use payments_engine::transactions::rules::apply;
use rust_decimal::Decimal;

fn dec(num: i64, scale: u32) -> Amount {
    Amount::new(num, scale)
}

fn decimal(a: Amount) -> Decimal {
    Decimal::from_i128_with_scale(a.mantissa, a.scale)
}

fn account(available: Amount, held: Amount, total: Amount, locked: bool) -> Account {
    Account { id: 7, available, held, total, locked }
}

fn deposit(acc_id: u16, tx_id: u32, amount: Amount) -> Transaction {
    Transaction { tx_id, kind: TransactionKind::Deposit { amount }, acc_id }
}

fn withdrawal(acc_id: u16, tx_id: u32, amount: Amount) -> Transaction {
    Transaction { tx_id, kind: TransactionKind::Withdrawal { amount }, acc_id }
}

fn dispute(acc_id: u16, tx_id: u32) -> Transaction {
    Transaction { tx_id, kind: TransactionKind::Dispute, acc_id }
}

fn resolve(acc_id: u16, tx_id: u32) -> Transaction {
    Transaction { tx_id, kind: TransactionKind::Resolve, acc_id }
}

fn chargeback(acc_id: u16, tx_id: u32) -> Transaction {
    Transaction { tx_id, kind: TransactionKind::Chargeback, acc_id }
}

/// A sequence that exercises every kind, on three clients.
fn busy_day() -> Vec<Transaction> {
    vec![
        deposit(1, 1, dec(1000, 2)),
        deposit(2, 1, dec(55555, 4)),
        withdrawal(1, 2, dec(25, 1)),
        dispute(1, 1),
        withdrawal(1, 3, dec(1, 0)),
        deposit(1, 4, dec(3, 0)),
        resolve(1, 1),
        dispute(2, 1),
        dispute(2, 1),
        deposit(3, 1, dec(1, 4)),
        chargeback(2, 1),
        deposit(2, 2, dec(9, 0)),
        withdrawal(3, 2, dec(1, 4)),
        dispute(1, 4),
        resolve(3, 9),
        withdrawal(1, 5, dec(100, 0)),
        chargeback(1, 1),
    ]
}

#[test]
fn account_new_is_empty_and_unlocked() {
    let a = Account::new(42);
    assert_eq!(a.id, 42);
    assert_eq!(a.available, dec(0, 1));
    assert_eq!(a.held, dec(0, 1));
    assert_eq!(a.total, dec(0, 1));
    assert!(!a.locked);
}

#[test]
fn ledger_new_is_empty() {
    let ledger = Ledger::new();
    assert!(ledger.accounts.is_empty());
    assert!(ledger.deposits.is_empty());
    assert!(ledger.accounts().is_empty());
}

#[test]
fn accounts_reads_what_is_on_file() {
    let mut ledger = Ledger::new();
    ledger.process_transaction(deposit(9, 1, dec(5, 0)));
    ledger.process_transaction(dispute(3, 1));
    let accounts = ledger.accounts();
    assert_eq!(accounts.len(), 2);
    assert_eq!(accounts.get(&9).unwrap().total, dec(5, 0));
    assert_eq!(*accounts.get(&3).unwrap(), Account::new(3));
}

#[test]
fn key_index_puts_the_client_above_the_identifier() {
    assert_eq!(TxKey { acc_id: 0, tx_id: 0 }.index(), 0);
    assert_eq!(TxKey { acc_id: 0, tx_id: 7 }.index(), 7);
    assert_eq!(TxKey { acc_id: 1, tx_id: 0 }.index(), 1 << 32);
    assert_eq!(TxKey { acc_id: 3, tx_id: 5 }.index(), (3 << 32) + 5);
    assert_eq!(TxKey { acc_id: u16::MAX, tx_id: u32::MAX }.index(), (1 << 48) - 1);
    assert_ne!(
        TxKey { acc_id: 0, tx_id: u32::MAX }.index(),
        TxKey { acc_id: 1, tx_id: 0 }.index()
    );
}

#[test]
fn apply_deposit() {
    let before = account(dec(10, 1), dec(5, 1), dec(15, 1), false);
    let (after, record) = apply(before, None, TransactionKind::Deposit { amount: dec(25, 2) }).unwrap();
    assert_eq!(after, account(dec(125, 2), dec(5, 1), dec(175, 2), false));
    assert_eq!(record, Some(TxValue { amount: dec(25, 2), dispute: false }));
}

#[test]
fn apply_deposit_writes_over_a_record() {
    let before = account(dec(10, 1), dec(0, 1), dec(10, 1), false);
    let old = TxValue { amount: dec(99, 0), dispute: true };
    let (_, record) = apply(before, Some(old), TransactionKind::Deposit { amount: dec(1, 0) }).unwrap();
    assert_eq!(record, Some(TxValue { amount: dec(1, 0), dispute: false }));
}

#[test]
fn apply_withdrawal() {
    let before = account(dec(10, 1), dec(5, 1), dec(15, 1), false);
    let kept = Some(TxValue { amount: dec(3, 0), dispute: false });
    let (after, record) = apply(before, kept, TransactionKind::Withdrawal { amount: dec(4, 1) }).unwrap();
    assert_eq!(after, account(dec(6, 1), dec(5, 1), dec(11, 1), false));
    assert_eq!(record, kept);
}

#[test]
fn apply_withdrawal_of_all_that_is_available() {
    let before = account(dec(10, 1), dec(5, 1), dec(15, 1), false);
    // 1.00 is 1.0: the comparison is by value.
    let (after, _) = apply(before, None, TransactionKind::Withdrawal { amount: dec(100, 2) }).unwrap();
    assert_eq!(after, account(dec(0, 2), dec(5, 1), dec(50, 2), false));
}

#[test]
fn apply_withdrawal_beyond_available_changes_nothing() {
    let before = account(dec(10, 1), dec(5, 1), dec(15, 1), false);
    let (after, record) = apply(before, None, TransactionKind::Withdrawal { amount: dec(101, 2) }).unwrap();
    assert_eq!(after, before);
    assert_eq!(record, None);
    // Held funds cannot be withdrawn, though the total would cover them.
    let (after, _) = apply(before, None, TransactionKind::Withdrawal { amount: dec(15, 1) }).unwrap();
    assert_eq!(after, before);
}

#[test]
fn apply_dispute() {
    let before = account(dec(10, 1), dec(5, 1), dec(15, 1), false);
    let record = TxValue { amount: dec(4, 1), dispute: false };
    let (after, record) = apply(before, Some(record), TransactionKind::Dispute).unwrap();
    assert_eq!(after, account(dec(6, 1), dec(9, 1), dec(15, 1), false));
    assert_eq!(record, Some(TxValue { amount: dec(4, 1), dispute: true }));
}

#[test]
fn apply_dispute_may_overdraw_available_funds() {
    let before = account(dec(10, 1), dec(0, 1), dec(10, 1), false);
    let record = TxValue { amount: dec(30, 1), dispute: false };
    let (after, _) = apply(before, Some(record), TransactionKind::Dispute).unwrap();
    assert_eq!(after, account(dec(-20, 1), dec(30, 1), dec(10, 1), false));
}

#[test]
fn apply_dispute_without_effect() {
    let before = account(dec(10, 1), dec(5, 1), dec(15, 1), false);
    assert_eq!(apply(before, None, TransactionKind::Dispute), Some((before, None)));
    let open = Some(TxValue { amount: dec(4, 1), dispute: true });
    assert_eq!(apply(before, open, TransactionKind::Dispute), Some((before, open)));
}

#[test]
fn apply_resolve() {
    let before = account(dec(6, 1), dec(9, 1), dec(15, 1), false);
    let record = TxValue { amount: dec(4, 1), dispute: true };
    let (after, record) = apply(before, Some(record), TransactionKind::Resolve).unwrap();
    assert_eq!(after, account(dec(10, 1), dec(5, 1), dec(15, 1), false));
    assert_eq!(record, Some(TxValue { amount: dec(4, 1), dispute: false }));
}

#[test]
fn apply_resolve_without_effect() {
    let before = account(dec(6, 1), dec(9, 1), dec(15, 1), false);
    assert_eq!(apply(before, None, TransactionKind::Resolve), Some((before, None)));
    let closed = Some(TxValue { amount: dec(4, 1), dispute: false });
    assert_eq!(apply(before, closed, TransactionKind::Resolve), Some((before, closed)));
}

#[test]
fn apply_chargeback() {
    let before = account(dec(6, 1), dec(9, 1), dec(15, 1), false);
    let record = Some(TxValue { amount: dec(4, 1), dispute: true });
    let (after, kept) = apply(before, record, TransactionKind::Chargeback).unwrap();
    assert_eq!(after, account(dec(6, 1), dec(5, 1), dec(11, 1), true));
    // The record stays as it is: disputed.
    assert_eq!(kept, record);
}

#[test]
fn apply_chargeback_without_effect() {
    let before = account(dec(6, 1), dec(9, 1), dec(15, 1), false);
    assert_eq!(apply(before, None, TransactionKind::Chargeback), Some((before, None)));
    let closed = Some(TxValue { amount: dec(4, 1), dispute: false });
    assert_eq!(apply(before, closed, TransactionKind::Chargeback), Some((before, closed)));
}

#[test]
fn apply_leaves_a_locked_account_alone() {
    let before = account(dec(6, 1), dec(9, 1), dec(15, 1), true);
    let open = Some(TxValue { amount: dec(4, 1), dispute: true });
    let closed = Some(TxValue { amount: dec(4, 1), dispute: false });
    let kinds = [
        TransactionKind::Deposit { amount: dec(1, 0) },
        TransactionKind::Withdrawal { amount: dec(1, 1) },
        TransactionKind::Dispute,
        TransactionKind::Resolve,
        TransactionKind::Chargeback,
    ];
    for kind in kinds {
        for record in [None, open, closed] {
            assert_eq!(apply(before, record, kind), Some((before, record)));
        }
    }
    // Not even a deposit that would not fit is refused: it does not act.
    let huge = TransactionKind::Deposit { amount: Amount { mantissa: MAX_MANTISSA, scale: 0 } };
    assert_eq!(apply(before, None, huge), Some((before, None)));
}

#[test]
fn apply_refuses_what_does_not_fit() {
    let most = Amount { mantissa: MAX_MANTISSA, scale: 0 };
    let full = account(most, dec(0, 0), most, false);
    assert_eq!(apply(full, None, TransactionKind::Deposit { amount: dec(1, 0) }), None);
    assert_eq!(apply(full, None, TransactionKind::Deposit { amount: dec(1, 1) }), None);
    assert_eq!(apply(full, None, TransactionKind::Withdrawal { amount: dec(1, 1) }), None);
    let record = Some(TxValue { amount: dec(1, 1), dispute: false });
    assert_eq!(apply(full, record, TransactionKind::Dispute), None);
    // What does not act needs no room.
    assert_eq!(apply(full, record, TransactionKind::Resolve), Some((full, record)));
    let held = account(dec(0, 0), most, most, false);
    let open = Some(TxValue { amount: dec(1, 1), dispute: true });
    assert_eq!(apply(held, open, TransactionKind::Resolve), None);
    assert_eq!(apply(held, open, TransactionKind::Chargeback), None);
}

#[test]
fn accepts_says_what_can_be_processed() {
    let mut ledger = Ledger::new();
    let most = Amount { mantissa: MAX_MANTISSA, scale: 0 };
    assert!(ledger.accepts(&deposit(1, 1, most)));
    ledger.process_transaction(deposit(1, 1, most));
    assert!(!ledger.accepts(&deposit(1, 2, dec(1, 0))));
    assert!(!ledger.accepts(&deposit(1, 2, dec(1, 1))));
    assert!(ledger.accepts(&deposit(2, 2, dec(1, 0))));
    assert!(ledger.accepts(&withdrawal(1, 3, dec(1, 0))));
    assert!(ledger.accepts(&dispute(1, 1)));
    assert!(ledger.accepts(&resolve(1, 1)));
    // Asking changes nothing.
    assert_eq!(ledger.accounts.len(), 1);
    assert_eq!(ledger.accounts.get(&1).unwrap().available, most);
}

#[test]
fn try_process_transaction_leaves_the_ledger_where_it_refuses() {
    let mut ledger = Ledger::new();
    let most = Amount { mantissa: MAX_MANTISSA, scale: 0 };
    assert!(ledger.try_process_transaction(deposit(1, 1, most)));
    assert!(!ledger.try_process_transaction(deposit(1, 2, dec(1, 0))));
    assert_eq!(ledger.accounts.len(), 1);
    assert_eq!(ledger.deposits.len(), 1);
    assert_eq!(*ledger.accounts.get(&1).unwrap(), Account {
        id: 1,
        available: most,
        held: dec(0, 1),
        total: most,
        locked: false,
    });
    // A transaction that is applied without effect still puts its client on file.
    assert!(ledger.try_process_transaction(dispute(5, 1)));
    assert_eq!(*ledger.accounts.get(&5).unwrap(), Account::new(5));
}

#[test]
fn process_transactions_stops_before_what_does_not_fit() {
    let mut ledger = Ledger::new();
    let most = Amount { mantissa: MAX_MANTISSA, scale: 0 };
    let done = ledger.process_transactions(vec![
        deposit(1, 1, dec(1, 0)),
        deposit(2, 1, most),
        deposit(2, 2, dec(1, 0)),
        deposit(1, 2, dec(1, 0)),
    ]);
    assert_eq!(done, 2);
    assert_eq!(ledger.accounts.get(&1).unwrap().total, dec(1, 0));
    assert_eq!(ledger.accounts.get(&2).unwrap().total, most);
    assert_eq!(ledger.deposits.len(), 2);
    assert_eq!(ledger.process_transactions(vec![]), 0);
}

#[test]
fn every_account_is_balanced_at_every_point() {
    let mut ledger = Ledger::new();
    for tx in busy_day() {
        ledger.process_transaction(tx);
        for account in ledger.accounts.values() {
            assert_eq!(
                decimal(account.available) + decimal(account.held),
                decimal(account.total),
                "after {:?}",
                tx
            );
        }
    }
    assert_eq!(ledger.accounts.len(), 3);
}

#[test]
fn a_locked_account_is_frozen() {
    let mut ledger = Ledger::new();
    ledger.process_transactions(vec![
        deposit(2, 1, dec(10, 0)),
        deposit(2, 2, dec(5, 0)),
        dispute(2, 1),
        dispute(2, 2),
        chargeback(2, 1),
    ]);
    let frozen = *ledger.accounts.get(&2).unwrap();
    assert_eq!(frozen, Account {
        id: 2,
        available: dec(0, 0),
        held: dec(5, 0),
        total: dec(5, 0),
        locked: true,
    });
    for tx in [
        deposit(2, 3, dec(1, 0)),
        withdrawal(2, 4, dec(1, 0)),
        dispute(2, 3),
        resolve(2, 2),
        chargeback(2, 2),
        resolve(2, 1),
        deposit(1, 1, dec(4, 0)),
        dispute(1, 1),
    ] {
        ledger.process_transaction(tx);
        assert_eq!(*ledger.accounts.get(&2).unwrap(), frozen, "after {:?}", tx);
    }
    // Its records do not move either.
    let second = ledger.deposits.get(&TxKey { acc_id: 2, tx_id: 2 }.index()).unwrap();
    assert!(second.dispute);
}

#[test]
fn a_chargeback_leaves_the_record_disputed() {
    let mut ledger = Ledger::new();
    ledger.process_transactions(vec![deposit(5, 10, dec(20, 1)), dispute(5, 10), chargeback(5, 10)]);
    let record = ledger.deposits.get(&TxKey { acc_id: 5, tx_id: 10 }.index()).unwrap();
    assert_eq!(*record, TxValue { amount: dec(20, 1), dispute: true });
}

#[test]
fn a_dispute_issued_twice_counts_once() {
    let mut once = Ledger::new();
    once.process_transactions(vec![deposit(1, 1, dec(30, 1)), deposit(1, 2, dec(10, 1)), dispute(1, 1)]);
    let mut twice = Ledger::new();
    twice.process_transactions(vec![
        deposit(1, 1, dec(30, 1)),
        deposit(1, 2, dec(10, 1)),
        dispute(1, 1),
        dispute(1, 1),
    ]);
    assert_eq!(once.accounts, twice.accounts);
    assert_eq!(once.deposits, twice.deposits);
    let account = twice.accounts.get(&1).unwrap();
    assert_eq!(account.available, dec(10, 1));
    assert_eq!(account.held, dec(30, 1));

    // Still so when other transactions came in between.
    twice.process_transactions(vec![deposit(1, 3, dec(5, 1)), dispute(1, 1)]);
    let account = twice.accounts.get(&1).unwrap();
    assert_eq!(account.available, dec(15, 1));
    assert_eq!(account.held, dec(30, 1));
}

#[test]
fn a_resolved_deposit_can_be_disputed_again() {
    let mut ledger = Ledger::new();
    ledger.process_transactions(vec![
        deposit(1, 1, dec(30, 1)),
        dispute(1, 1),
        resolve(1, 1),
        resolve(1, 1),
        dispute(1, 1),
    ]);
    let account = ledger.accounts.get(&1).unwrap();
    assert_eq!(account.available, dec(0, 1));
    assert_eq!(account.held, dec(30, 1));
    assert_eq!(account.total, dec(30, 1));
}

#[test]
fn clients_do_not_reach_each_others_deposits() {
    let mut ledger = Ledger::new();
    ledger.process_transactions(vec![deposit(1, 7, dec(20, 1)), deposit(2, 8, dec(30, 1))]);
    let first = *ledger.accounts.get(&1).unwrap();
    let second = *ledger.accounts.get(&2).unwrap();
    let deposits = ledger.deposits.clone();
    // Client 2 names transaction 7, which only client 1 has.
    for tx in [dispute(2, 7), resolve(2, 7), chargeback(2, 7)] {
        ledger.process_transaction(tx);
        assert_eq!(*ledger.accounts.get(&1).unwrap(), first);
        assert_eq!(*ledger.accounts.get(&2).unwrap(), second);
        assert_eq!(ledger.deposits, deposits);
    }
    // The same identifier under two clients names two deposits.
    ledger.process_transactions(vec![deposit(2, 7, dec(1, 1)), dispute(2, 7)]);
    assert_eq!(*ledger.accounts.get(&1).unwrap(), first);
    assert_eq!(ledger.accounts.get(&2).unwrap().held, dec(1, 1));
    assert!(!ledger.deposits.get(&TxKey { acc_id: 1, tx_id: 7 }.index()).unwrap().dispute);
}

#[test]
fn a_deposit_replaces_the_record_of_the_same_name() {
    let mut ledger = Ledger::new();
    ledger.process_transactions(vec![
        deposit(1, 1, dec(20, 1)),
        dispute(1, 1),
        deposit(1, 1, dec(5, 1)),
        dispute(1, 1),
    ]);
    assert_eq!(ledger.deposits.len(), 1);
    let account = ledger.accounts.get(&1).unwrap();
    assert_eq!(account.available, dec(0, 1));
    assert_eq!(account.held, dec(25, 1));
    assert_eq!(account.total, dec(25, 1));
}

#[test]
fn funds_reconcile_with_the_history() {
    let mut ledger = Ledger::new();
    // What each client deposited, withdrew and had charged back, worked out by hand
    // for the transactions that act.
    ledger.process_transactions(busy_day());

    let first = ledger.accounts.get(&1).unwrap();
    // Deposits 10.00 and 3; one withdrawal, of 2.5: the one of 1 came while the dispute
    // had taken the available funds below zero. No chargeback: the last transaction
    // names a deposit whose dispute was resolved.
    let expected = Decimal::new(1000, 2) + Decimal::new(3, 0) - Decimal::new(25, 1);
    assert_eq!(decimal(first.available) + decimal(first.held), expected);
    assert_eq!(decimal(first.held), Decimal::new(3, 0));
    assert!(!first.locked);

    let second = ledger.accounts.get(&2).unwrap();
    // Deposit 5.5555, charged back in full; the later deposit found the account locked.
    assert_eq!(decimal(second.available) + decimal(second.held), Decimal::ZERO);
    assert!(second.locked);

    let third = ledger.accounts.get(&3).unwrap();
    // Deposit 0.0001, withdrawn in full.
    assert_eq!(decimal(third.available) + decimal(third.held), Decimal::ZERO);
    assert_eq!(third.available, dec(0, 4));
}

#[test]
fn held_funds_are_never_negative_without_negative_deposits() {
    let mut ledger = Ledger::new();
    for tx in busy_day() {
        ledger.process_transaction(tx);
        for account in ledger.accounts.values() {
            assert!(decimal(account.held) >= Decimal::ZERO, "after {:?}", tx);
        }
    }
    // A negative deposit, once disputed, does make them negative.
    let mut odd = Ledger::new();
    odd.process_transactions(vec![deposit(1, 1, dec(-5, 0)), dispute(1, 1)]);
    assert_eq!(odd.accounts.get(&1).unwrap().held, dec(-5, 0));
    assert_eq!(odd.accounts.get(&1).unwrap().available, dec(0, 0));
}

#[test]
fn a_withdrawal_never_overdraws() {
    let mut ledger = Ledger::new();
    ledger.process_transactions(vec![
        deposit(1, 1, dec(10, 1)),
        withdrawal(1, 2, dec(11, 1)),
        withdrawal(1, 3, dec(1000001, 6)),
        withdrawal(1, 4, dec(1, 0)),
        withdrawal(1, 5, dec(1, 28)),
    ]);
    let account = ledger.accounts.get(&1).unwrap();
    assert_eq!(decimal(account.available), Decimal::ZERO);
    assert_eq!(decimal(account.total), Decimal::ZERO);
}

#[test]
fn transactions_are_applied_in_their_order() {
    let mut early = Ledger::new();
    early.process_transactions(vec![withdrawal(1, 1, dec(1, 0)), deposit(1, 2, dec(1, 0))]);
    assert_eq!(early.accounts.get(&1).unwrap().total, dec(1, 0));
    let mut late = Ledger::new();
    late.process_transactions(vec![deposit(1, 2, dec(1, 0)), withdrawal(1, 1, dec(1, 0))]);
    assert_eq!(late.accounts.get(&1).unwrap().total, dec(0, 0));
}
