//! What one transaction does to the account it names and to the deposit
//! record it refers to.
//!
//! | kind       | acts when the account is not locked and      | effect                                            |
//! |------------|----------------------------------------------|---------------------------------------------------|
//! | deposit    | always                                       | available and total grow; the deposit is recorded |
//! | withdrawal | available funds cover the amount             | available and total shrink                        |
//! | dispute    | the deposit is recorded and not disputed     | available shrinks, held grows; record disputed    |
//! | resolve    | the deposit is recorded and disputed         | available grows, held shrinks; record undisputed  |
//! | chargeback | the deposit is recorded and disputed         | held and total shrink; the account is locked      |
//!
//! A transaction that does not act changes nothing.

use crate::amount::{lemma_minus_value, lemma_plus_value, Amount};
use crate::transactions::ledger::{record_view, DepositView, TxValue};
use crate::transactions::models::{Account, AccountView, KindView, TransactionKind};
use vstd::prelude::*;

verus! {

impl AccountView {
    /// Whether a transaction of this kind, with `record` the deposit record
    /// that it refers to, changes this account.
    pub open spec fn acts(self, record: Option<DepositView>, kind: KindView) -> bool {
        &&& !self.locked
        &&& match kind {
            KindView::Deposit { amount } => true,
            KindView::Withdrawal { amount } => self.available.value() >= amount.value(),
            KindView::Dispute => record matches Some(r) && !r.dispute,
            KindView::Resolve => record matches Some(r) && r.dispute,
            KindView::Chargeback => record matches Some(r) && r.dispute,
        }
    }

    /// The account after the transaction.
    pub open spec fn after(self, record: Option<DepositView>, kind: KindView) -> AccountView {
        if !self.acts(record, kind) {
            self
        } else {
            match kind {
                KindView::Deposit { amount } => AccountView {
                    available: self.available.plus(amount),
                    total: self.total.plus(amount),
                    ..self
                },
                KindView::Withdrawal { amount } => AccountView {
                    available: self.available.minus(amount),
                    total: self.total.minus(amount),
                    ..self
                },
                KindView::Dispute => AccountView {
                    available: self.available.minus(record->0.amount),
                    held: self.held.plus(record->0.amount),
                    ..self
                },
                KindView::Resolve => AccountView {
                    available: self.available.plus(record->0.amount),
                    held: self.held.minus(record->0.amount),
                    ..self
                },
                KindView::Chargeback => AccountView {
                    held: self.held.minus(record->0.amount),
                    total: self.total.minus(record->0.amount),
                    locked: true,
                    ..self
                },
            }
        }
    }

    /// The deposit record after the transaction. A deposit writes a fresh
    /// record over whatever was there; a chargeback leaves the record disputed.
    pub open spec fn record_after(self, record: Option<DepositView>, kind: KindView) -> Option<
        DepositView,
    > {
        if !self.acts(record, kind) {
            record
        } else {
            match kind {
                KindView::Deposit { amount } => Some(DepositView { amount, dispute: false }),
                KindView::Withdrawal { amount } => record,
                KindView::Dispute => Some(DepositView { dispute: true, ..record->0 }),
                KindView::Resolve => Some(DepositView { dispute: false, ..record->0 }),
                KindView::Chargeback => record,
            }
        }
    }

    /// Every balance that the transaction changes can still be held in 96 bits
    /// afterwards. A transaction that does not act needs no room.
    pub open spec fn has_room(self, record: Option<DepositView>, kind: KindView) -> bool {
        self.acts(record, kind) ==> match kind {
            KindView::Deposit { amount } => {
                &&& self.available.plus_fits(amount)
                &&& self.total.plus_fits(amount)
            },
            KindView::Withdrawal { amount } => {
                &&& self.available.minus_fits(amount)
                &&& self.total.minus_fits(amount)
            },
            KindView::Dispute => {
                &&& self.available.minus_fits(record->0.amount)
                &&& self.held.plus_fits(record->0.amount)
            },
            KindView::Resolve => {
                &&& self.available.plus_fits(record->0.amount)
                &&& self.held.minus_fits(record->0.amount)
            },
            KindView::Chargeback => {
                &&& self.held.minus_fits(record->0.amount)
                &&& self.total.minus_fits(record->0.amount)
            },
        }
    }
}

/// What a transaction adds to the total funds of the account, counted in
/// units of `10^-28`: the amount of a deposit that acts, minus the amount of a
/// withdrawal that acts, minus the disputed amount of a chargeback that acts.
pub open spec fn net_flow(account: AccountView, record: Option<DepositView>, kind: KindView) -> int {
    if !account.acts(record, kind) {
        0
    } else {
        match kind {
            KindView::Deposit { amount } => amount.value(),
            KindView::Withdrawal { amount } => -amount.value(),
            KindView::Dispute => 0,
            KindView::Resolve => 0,
            KindView::Chargeback => -record->0.amount.value(),
        }
    }
}

/// A transaction keeps a balanced account balanced, keeps it with its client,
/// and moves its total by exactly the transaction's net flow. A dispute or a
/// resolution moves funds between available and held and leaves the total.
pub proof fn lemma_after_balanced(account: AccountView, record: Option<DepositView>, kind: KindView)
    requires
        account.wf(),
        record matches Some(r) ==> r.amount.wf(),
        kind.wf(),
    ensures
        account.after(record, kind).wf(),
        account.after(record, kind).id == account.id,
        account.after(record, kind).total.value() == account.total.value() + net_flow(
            account,
            record,
            kind,
        ),
        account.record_after(record, kind) matches Some(r) ==> r.amount.wf(),
{
    if account.acts(record, kind) {
        match kind {
            KindView::Deposit { amount } => {
                lemma_plus_value(account.available, amount);
                lemma_plus_value(account.total, amount);
            },
            KindView::Withdrawal { amount } => {
                lemma_minus_value(account.available, amount);
                lemma_minus_value(account.total, amount);
            },
            KindView::Dispute => {
                lemma_minus_value(account.available, record->0.amount);
                lemma_plus_value(account.held, record->0.amount);
            },
            KindView::Resolve => {
                lemma_plus_value(account.available, record->0.amount);
                lemma_minus_value(account.held, record->0.amount);
            },
            KindView::Chargeback => {
                lemma_minus_value(account.held, record->0.amount);
                lemma_minus_value(account.total, record->0.amount);
            },
        }
    }
}

/// Both amounts, where both are there.
fn both(first: Option<Amount>, second: Option<Amount>) -> (r: Option<(Amount, Amount)>)
    ensures
        r == match (first, second) {
            (Some(a), Some(b)) => Some((a, b)),
            _ => None,
        },
{
    match (first, second) {
        (Some(a), Some(b)) => Some((a, b)),
        _ => None,
    }
}

/// Applies one transaction to the account it names, given the deposit record
/// that it refers to. Returns the account and the record as they are
/// afterwards, or `None` where a balance would no longer fit into 96 bits.
pub fn apply(account: Account, record: Option<TxValue>, kind: TransactionKind) -> (r: Option<
    (Account, Option<TxValue>),
>)
    requires
        account.wf(),
        record matches Some(d) ==> d.wf(),
        kind.wf(),
    ensures
        match r {
            Some((a, d)) => {
                &&& account@.has_room(record_view(record), kind@)
                &&& a@ == account@.after(record_view(record), kind@)
                &&& record_view(d) == account@.record_after(record_view(record), kind@)
                &&& a.wf()
                &&& d matches Some(x) ==> x.wf()
            },
            None => !account@.has_room(record_view(record), kind@),
        },
{
    if account.locked {
        return Some((account, record));
    }
    match kind {
        TransactionKind::Deposit { amount } => {
            match both(account.available.checked_add(amount), account.total.checked_add(amount)) {
                Some((available, total)) => Some(
                    (
                        Account { available, total, ..account },
                        Some(TxValue { amount, dispute: false }),
                    ),
                ),
                None => None,
            }
        },
        TransactionKind::Withdrawal { amount } => {
            if account.available.less_than(amount) {
                return Some((account, record));
            }
            match both(account.available.checked_sub(amount), account.total.checked_sub(amount)) {
                Some((available, total)) => Some((Account { available, total, ..account }, record)),
                None => None,
            }
        },
        TransactionKind::Dispute => {
            match record {
                Some(deposit) if !deposit.dispute => {
                    match both(
                        account.available.checked_sub(deposit.amount),
                        account.held.checked_add(deposit.amount),
                    ) {
                        Some((available, held)) => Some(
                            (
                                Account { available, held, ..account },
                                Some(TxValue { dispute: true, ..deposit }),
                            ),
                        ),
                        None => None,
                    }
                },
                _ => Some((account, record)),
            }
        },
        TransactionKind::Resolve => {
            match record {
                Some(deposit) if deposit.dispute => {
                    match both(
                        account.available.checked_add(deposit.amount),
                        account.held.checked_sub(deposit.amount),
                    ) {
                        Some((available, held)) => Some(
                            (
                                Account { available, held, ..account },
                                Some(TxValue { dispute: false, ..deposit }),
                            ),
                        ),
                        None => None,
                    }
                },
                _ => Some((account, record)),
            }
        },
        TransactionKind::Chargeback => {
            match record {
                Some(deposit) if deposit.dispute => {
                    match both(
                        account.held.checked_sub(deposit.amount),
                        account.total.checked_sub(deposit.amount),
                    ) {
                        Some((held, total)) => Some(
                            (Account { held, total, locked: true, ..account }, record),
                        ),
                        None => None,
                    }
                },
                _ => Some((account, record)),
            }
        },
    }
}

} // verus!
