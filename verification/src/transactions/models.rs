//! The data of the ledger: transactions and client accounts, each with the
//! mathematical value it stands for.

use crate::amount::{Amount, AmountView};
use vstd::prelude::*;

verus! {

/// What a transaction asks for.
#[derive(Debug, PartialEq, Eq, Clone, Copy, Structural)]
pub enum TransactionKind {
    Deposit { amount: Amount },
    Withdrawal { amount: Amount },
    Dispute,
    Resolve,
    Chargeback,
}

/// The value of a `TransactionKind`.
pub enum KindView {
    Deposit { amount: AmountView },
    Withdrawal { amount: AmountView },
    Dispute,
    Resolve,
    Chargeback,
}

impl KindView {
    /// The amount carried, if any, has a scale that an amount can have.
    pub open spec fn wf(self) -> bool {
        match self {
            KindView::Deposit { amount } => amount.wf(),
            KindView::Withdrawal { amount } => amount.wf(),
            _ => true,
        }
    }
}

impl View for TransactionKind {
    type V = KindView;

    open spec fn view(&self) -> KindView {
        match *self {
            TransactionKind::Deposit { amount } => KindView::Deposit { amount: amount@ },
            TransactionKind::Withdrawal { amount } => KindView::Withdrawal { amount: amount@ },
            TransactionKind::Dispute => KindView::Dispute,
            TransactionKind::Resolve => KindView::Resolve,
            TransactionKind::Chargeback => KindView::Chargeback,
        }
    }
}

impl TransactionKind {
    /// The amount carried, if any, is well formed.
    pub open spec fn wf(self) -> bool {
        match self {
            TransactionKind::Deposit { amount } => amount.wf(),
            TransactionKind::Withdrawal { amount } => amount.wf(),
            _ => true,
        }
    }
}

/// One input event: a client, a transaction identifier that is unique within
/// that client's stream only, and what is asked for.
#[derive(Debug, Clone, Copy)]
pub struct Transaction {
    pub tx_id: u32,
    pub kind: TransactionKind,
    pub acc_id: u16,
}

/// The value of a `Transaction`.
pub struct TransactionView {
    pub tx_id: u32,
    pub kind: KindView,
    pub acc_id: u16,
}

impl TransactionView {
    pub open spec fn wf(self) -> bool {
        self.kind.wf()
    }
}

impl View for Transaction {
    type V = TransactionView;

    open spec fn view(&self) -> TransactionView {
        TransactionView { tx_id: self.tx_id, kind: self.kind@, acc_id: self.acc_id }
    }
}

impl Transaction {
    pub open spec fn wf(self) -> bool {
        self.kind.wf()
    }
}

/// The balances of one client.
#[derive(Debug, PartialEq, Eq, Clone, Copy, Structural)]
pub struct Account {
    pub id: u16,
    pub available: Amount,
    pub held: Amount,
    pub total: Amount,
    pub locked: bool,
}

/// The value of an `Account`.
pub struct AccountView {
    pub id: u16,
    pub available: AmountView,
    pub held: AmountView,
    pub total: AmountView,
    pub locked: bool,
}

impl AccountView {
    /// The account of a client that no transaction has named yet: nothing
    /// available, nothing held, not locked.
    pub open spec fn opened(id: u16) -> AccountView {
        let zero = AmountView { mantissa: 0, scale: 1 };
        AccountView { id, available: zero, held: zero, total: zero, locked: false }
    }

    /// Available and held funds add up to the total.
    pub open spec fn balanced(self) -> bool {
        self.available.value() + self.held.value() == self.total.value()
    }

    /// The three balances have scales that an amount can have, and they are
    /// balanced.
    pub open spec fn wf(self) -> bool {
        &&& self.available.wf()
        &&& self.held.wf()
        &&& self.total.wf()
        &&& self.balanced()
    }
}

/// A freshly opened account is well formed: it holds nothing, and nothing
/// adds up to nothing.
pub proof fn lemma_opened_wf(id: u16)
    ensures
        AccountView::opened(id).wf(),
        AccountView::opened(id).available.value() == 0,
        AccountView::opened(id).held.value() == 0,
        AccountView::opened(id).total.value() == 0,
{
    let zero = AmountView { mantissa: 0, scale: 1 };
    assert(zero.value() == 0) by {
        vstd::arithmetic::mul::lemma_mul_basics(vstd::arithmetic::power::pow(10, 27));
    }
}

impl View for Account {
    type V = AccountView;

    open spec fn view(&self) -> AccountView {
        AccountView {
            id: self.id,
            available: self.available@,
            held: self.held@,
            total: self.total@,
            locked: self.locked,
        }
    }
}

impl Account {
    /// The three balances are well formed amounts, and available and held
    /// funds add up to the total.
    pub open spec fn wf(self) -> bool {
        &&& self.available.wf()
        &&& self.held.wf()
        &&& self.total.wf()
        &&& self@.balanced()
    }

    /// The account of a client that no transaction has named yet.
    pub fn new(id: u16) -> (r: Account)
        ensures
            r.wf(),
            r@ == AccountView::opened(id),
    {
        Account {
            id,
            available: Amount::zero(),
            held: Amount::zero(),
            total: Amount::zero(),
            locked: false,
        }
    }
}

} // verus!
