//! The ledger: every client's account and every accepted deposit, and the
//! transactions that change them.

use crate::amount::{Amount, AmountView};
use crate::transactions::models::{Account, AccountView, Transaction, TransactionView};
use crate::transactions::rules::apply;
use std::collections::HashMap;
use vstd::prelude::*;

verus! {

/// What names a deposit: the client and the client's own transaction
/// identifier. Two clients may use the same identifier for different deposits.
#[derive(Debug, Hash, PartialEq, Eq, Clone, Copy, Structural)]
pub struct TxKey {
    pub acc_id: u16,
    pub tx_id: u32,
}

impl TxKey {
    /// The key as one number: the client in the upper bits, the transaction
    /// identifier in the lower 32.
    pub open spec fn spec_index(self) -> u64 {
        (self.acc_id as u64 * 0x1_0000_0000 + self.tx_id as u64) as u64
    }

    /// The key as one number, under which the ledger files the deposit.
    pub fn index(&self) -> (r: u64)
        ensures
            r == self.spec_index(),
    {
        self.acc_id as u64 * 0x1_0000_0000 + self.tx_id as u64
    }

    /// The key that is filed under `index`.
    pub open spec fn spec_from_index(index: u64) -> TxKey {
        TxKey { acc_id: (index / 0x1_0000_0000) as u16, tx_id: (index % 0x1_0000_0000) as u32 }
    }

    /// Different keys have different numbers, and every number below `2^48`
    /// is that of a key.
    pub proof fn lemma_index_injective(self, other: TxKey)
        ensures
            self.spec_index() == other.spec_index() <==> self == other,
            self.spec_index() <= MAX_INDEX,
            TxKey::spec_from_index(self.spec_index()) == self,
    {
    }

    /// Every number up to the largest one is that of a key.
    pub proof fn lemma_index_surjective(index: u64)
        requires
            index <= MAX_INDEX,
        ensures
            TxKey::spec_from_index(index).spec_index() == index,
    {
    }
}

/// The largest number under which a deposit is filed: `2^48 - 1`.
pub const MAX_INDEX: u64 = 0xffff_ffff_ffff;

/// What the ledger remembers of an accepted deposit: its amount, and whether
/// a dispute on it is open.
#[derive(Debug, PartialEq, Eq, Clone, Copy, Structural)]
pub struct TxValue {
    pub amount: Amount,
    pub dispute: bool,
}

/// The value of a `TxValue`.
pub struct DepositView {
    pub amount: AmountView,
    pub dispute: bool,
}

impl View for TxValue {
    type V = DepositView;

    open spec fn view(&self) -> DepositView {
        DepositView { amount: self.amount@, dispute: self.dispute }
    }
}

impl TxValue {
    /// The amount is well formed.
    pub open spec fn wf(self) -> bool {
        self.amount.wf()
    }
}

/// The value of a deposit record that may be missing.
pub open spec fn record_view(record: Option<TxValue>) -> Option<DepositView> {
    match record {
        Some(r) => Some(r@),
        None => None,
    }
}

/// The state of a ledger: the account of every client that a transaction has
/// named, and the record of every accepted deposit.
pub struct LedgerView {
    pub accounts: Map<u16, AccountView>,
    pub deposits: Map<TxKey, DepositView>,
}

impl LedgerView {
    /// No accounts and no deposits.
    pub open spec fn empty() -> LedgerView {
        LedgerView { accounts: Map::empty(), deposits: Map::empty() }
    }

    /// The account of client `id`: the one on file, or a freshly opened one.
    pub open spec fn account(self, id: u16) -> AccountView {
        if self.accounts.contains_key(id) {
            self.accounts[id]
        } else {
            AccountView::opened(id)
        }
    }

    /// The record of the deposit that `key` names, if there is one.
    pub open spec fn record(self, key: TxKey) -> Option<DepositView> {
        if self.deposits.contains_key(key) {
            Some(self.deposits[key])
        } else {
            None
        }
    }

    /// Every account on file is filed under its own client, has scales that an
    /// amount can have, and is balanced; so has every recorded amount.
    pub open spec fn wf(self) -> bool {
        &&& forall|id: u16| #[trigger]
            self.accounts.contains_key(id) ==> self.accounts[id].wf() && self.accounts[id].id
                == id
        &&& forall|key: TxKey| #[trigger]
            self.deposits.contains_key(key) ==> self.deposits[key].amount.wf()
    }

    /// Whether `tx` changes the account of its client: whether the account is
    /// not locked and the kind of transaction finds what it needs.
    pub open spec fn acts(self, tx: TransactionView) -> bool {
        self.account(tx.acc_id).acts(
            self.record(TxKey { acc_id: tx.acc_id, tx_id: tx.tx_id }),
            tx.kind,
        )
    }

    /// Every balance that `tx` changes can still be held in 96 bits afterwards.
    pub open spec fn admits(self, tx: TransactionView) -> bool {
        let key = TxKey { acc_id: tx.acc_id, tx_id: tx.tx_id };
        self.account(tx.acc_id).has_room(self.record(key), tx.kind)
    }

    /// The state after `tx`. The account of the client is put on file even
    /// where the transaction changes nothing.
    pub open spec fn step(self, tx: TransactionView) -> LedgerView {
        let key = TxKey { acc_id: tx.acc_id, tx_id: tx.tx_id };
        let account = self.account(tx.acc_id);
        let record = self.record(key);
        LedgerView {
            accounts: self.accounts.insert(tx.acc_id, account.after(record, tx.kind)),
            deposits: match account.record_after(record, tx.kind) {
                Some(r) => self.deposits.insert(key, r),
                None => self.deposits,
            },
        }
    }

    /// The state after the transactions of `txs`, in their order.
    pub open spec fn run(self, txs: Seq<TransactionView>) -> LedgerView
        decreases txs.len(),
    {
        if txs.len() == 0 {
            self
        } else {
            self.run(txs.drop_last()).step(txs.last())
        }
    }

    /// Each transaction of `txs` is admitted by the state that it meets.
    pub open spec fn admits_all(self, txs: Seq<TransactionView>) -> bool
        decreases txs.len(),
    {
        txs.len() == 0 || (self.admits_all(txs.drop_last()) && self.run(txs.drop_last()).admits(
            txs.last(),
        ))
    }
}

/// The values of a sequence of transactions.
pub open spec fn views(txs: Seq<Transaction>) -> Seq<TransactionView> {
    txs.map_values(|tx: Transaction| tx@)
}

/// All client accounts and all accepted deposits.
pub struct Ledger {
    /// The account of every client that a transaction has named.
    pub accounts: HashMap<u16, Account>,
    /// The record of every accepted deposit, filed under `TxKey::index`.
    pub deposits: HashMap<u64, TxValue>,
}

impl View for Ledger {
    type V = LedgerView;

    open spec fn view(&self) -> LedgerView {
        LedgerView {
            accounts: self.accounts@.map_values(|a: Account| a@),
            deposits: Map::new(
                |key: TxKey| self.deposits@.contains_key(key.spec_index()),
                |key: TxKey| self.deposits@[key.spec_index()]@,
            ),
        }
    }
}

impl Ledger {
    /// Every account on file is well formed and filed under its own client;
    /// every deposit record is filed under the number of a key, and its
    /// amount is well formed.
    pub open spec fn wf(&self) -> bool {
        &&& forall|id: u16| #[trigger]
            self.accounts@.contains_key(id) ==> self.accounts@[id].wf() && self.accounts@[id].id
                == id
        &&& forall|index: u64| #[trigger]
            self.deposits@.contains_key(index) ==> self.deposits@[index].wf() && index
                <= MAX_INDEX
    }

    /// A well formed ledger has a well formed state.
    pub proof fn lemma_view_wf(&self)
        requires
            self.wf(),
        ensures
            self@.wf(),
    {
        assert forall|id: u16| #[trigger] self@.accounts.contains_key(id) implies self@.accounts[id].wf()
            && self@.accounts[id].id == id by {
            assert(self.accounts@.contains_key(id));
        }
        assert forall|key: TxKey| #[trigger] self@.deposits.contains_key(key) implies self@.deposits[key].amount.wf() by {
            assert(self.deposits@.contains_key(key.spec_index()));
        }
    }

    /// The state of a well formed ledger is all there is to it: two well
    /// formed ledgers in the same state have the same accounts and the same
    /// deposit records on file.
    pub proof fn lemma_view_is_faithful(&self, other: &Ledger)
        requires
            self.wf(),
            other.wf(),
            self@ == other@,
        ensures
            self.accounts@ == other.accounts@,
            self.deposits@ == other.deposits@,
    {
        assert forall|id: u16|
            self.accounts@.contains_key(id) == other.accounts@.contains_key(id) && (
            self.accounts@.contains_key(id) ==> self.accounts@[id] == other.accounts@[id]) by {
            assert(self@.accounts.contains_key(id) == self.accounts@.contains_key(id));
            assert(other@.accounts.contains_key(id) == other.accounts@.contains_key(id));
            if self.accounts@.contains_key(id) {
                let a = self.accounts@[id];
                let b = other.accounts@[id];
                assert(self@.accounts[id] == a@);
                assert(other@.accounts[id] == b@);
                assert(a.available@ == b.available@ && a.held@ == b.held@ && a.total@ == b.total@);
                assert(a.available == b.available && a.held == b.held && a.total == b.total);
            }
        }
        assert(self.accounts@ =~= other.accounts@);
        assert forall|index: u64|
            self.deposits@.contains_key(index) == other.deposits@.contains_key(index) && (
            self.deposits@.contains_key(index) ==> self.deposits@[index]
                == other.deposits@[index]) by {
            if self.deposits@.contains_key(index) || other.deposits@.contains_key(index) {
                let key = TxKey::spec_from_index(index);
                TxKey::lemma_index_surjective(index);
                assert(self@.deposits.contains_key(key) == self.deposits@.contains_key(index));
                assert(other@.deposits.contains_key(key) == other.deposits@.contains_key(index));
                let a = self.deposits@[index];
                let b = other.deposits@[index];
                assert(self@.deposits[key] == a@);
                assert(other@.deposits[key] == b@);
                assert(a.amount@ == b.amount@);
                assert(a.amount == b.amount);
            }
        }
        assert(self.deposits@ =~= other.deposits@);
    }

    /// A ledger with no accounts and no deposits.
    pub fn new() -> (r: Ledger)
        ensures
            r.wf(),
            r@ == LedgerView::empty(),
    {
        let r = Ledger { accounts: HashMap::new(), deposits: HashMap::new() };
        assert(r@.accounts =~= Map::empty());
        assert(r@.deposits =~= Map::empty());
        r
    }

    /// All accounts on file, by client, for reporting.
    pub fn accounts(&self) -> (r: &HashMap<u16, Account>)
        ensures
            r@ == self.accounts@,
    {
        &self.accounts
    }

    /// The account of client `id`: the one on file, or a freshly opened one.
    fn account_or_new(&self, id: u16) -> (r: Account)
        requires
            self.wf(),
        ensures
            r.wf(),
            r@ == self@.account(id),
    {
        match self.accounts.get(&id) {
            Some(account) => *account,
            None => Account::new(id),
        }
    }

    /// The record of the deposit that `key` names, if there is one.
    fn record(&self, key: TxKey) -> (r: Option<TxValue>)
        requires
            self.wf(),
        ensures
            r matches Some(d) ==> d.wf(),
            record_view(r) == self@.record(key),
    {
        match self.deposits.get(&key.index()) {
            Some(record) => Some(*record),
            None => None,
        }
    }

    /// Whether `tx` can be processed: whether every balance that it changes
    /// can still be held afterwards.
    pub fn accepts(&self, tx: &Transaction) -> (r: bool)
        requires
            self.wf(),
            tx.wf(),
        ensures
            r == self@.admits(tx@),
    {
        let key = TxKey { acc_id: tx.acc_id, tx_id: tx.tx_id };
        apply(self.account_or_new(tx.acc_id), self.record(key), tx.kind).is_some()
    }

    /// Applies one transaction, as the rules of `apply` say: the account of
    /// the client is looked up, or opened where the client is new, and put on
    /// file as it is afterwards; so is the deposit record that the transaction
    /// writes or changes. A transaction that does not act (the account is
    /// locked, the funds do not cover a withdrawal, no matching deposit is
    /// recorded, the dispute is in the wrong state) changes no balance and no
    /// record.
    ///
    /// The balances that the transaction changes must still fit afterwards:
    /// `accepts` tells, and `try_process_transaction` asks first.
    pub fn process_transaction(&mut self, tx: Transaction)
        requires
            old(self).wf(),
            tx.wf(),
            old(self)@.admits(tx@),
        ensures
            final(self).wf(),
            final(self)@ == old(self)@.step(tx@),
    {
        let key = TxKey { acc_id: tx.acc_id, tx_id: tx.tx_id };
        let (account, record) = apply(
            self.account_or_new(tx.acc_id),
            self.record(key),
            tx.kind,
        ).unwrap();
        self.accounts.insert(tx.acc_id, account);
        if let Some(deposit) = record {
            self.deposits.insert(key.index(), deposit);
        }
        proof {
            let after = old(self)@.step(tx@);
            assert(self@.accounts =~= after.accounts);
            assert forall|k: TxKey|
                self@.deposits.contains_key(k) == after.deposits.contains_key(k) && (
                self@.deposits.contains_key(k) ==> self@.deposits[k] == after.deposits[k]) by {
                key.lemma_index_injective(k);
            }
            assert(self@.deposits =~= after.deposits);
        }
    }

    /// Applies `tx` if every balance that it changes can still be held
    /// afterwards, and says whether it did. Where it did not, nothing has
    /// changed.
    pub fn try_process_transaction(&mut self, tx: Transaction) -> (r: bool)
        requires
            old(self).wf(),
            tx.wf(),
        ensures
            final(self).wf(),
            r == old(self)@.admits(tx@),
            final(self)@ == if r {
                old(self)@.step(tx@)
            } else {
                old(self)@
            },
    {
        if self.accepts(&tx) {
            self.process_transaction(tx);
            true
        } else {
            false
        }
    }

    /// Applies the transactions in their order and stops before the first one
    /// that cannot be processed. Returns how many were applied: all of them,
    /// or the position of the one that stopped the run.
    pub fn process_transactions(&mut self, transactions: Vec<Transaction>) -> (done: usize)
        requires
            old(self).wf(),
            forall|i: int| 0 <= i < transactions.len() ==> (#[trigger] transactions[i]).wf(),
        ensures
            final(self).wf(),
            done <= transactions.len(),
            old(self)@.admits_all(views(transactions@).take(done as int)),
            final(self)@ == old(self)@.run(views(transactions@).take(done as int)),
            done < transactions.len() ==> !final(self)@.admits(transactions[done as int]@),
    {
        let ghost all = views(transactions@);
        let mut done: usize = 0;
        while done < transactions.len()
            invariant
                self.wf(),
                done <= transactions.len(),
                all == views(transactions@),
                forall|i: int| 0 <= i < transactions.len() ==> (#[trigger] transactions[i]).wf(),
                old(self)@.admits_all(all.take(done as int)),
                self@ == old(self)@.run(all.take(done as int)),
            decreases transactions.len() - done,
        {
            let tx = transactions[done];
            assert(all.take(done + 1).drop_last() =~= all.take(done as int));
            assert(all.take(done + 1).last() == tx@);
            if !self.try_process_transaction(tx) {
                return done;
            }
            done = done + 1;
        }
        done
    }
}

} // verus!
