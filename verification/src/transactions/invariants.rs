//! What holds of every ledger, whatever transactions it has processed.

use crate::amount::lemma_minus_value;
use crate::transactions::ledger::{LedgerView, TxKey};
use crate::transactions::models::{lemma_opened_wf, KindView, TransactionView};
use crate::transactions::rules::lemma_after_balanced;
use vstd::prelude::*;

verus! {

/// Every transaction of the sequence carries a scale that an amount can have.
pub open spec fn all_wf(txs: Seq<TransactionView>) -> bool {
    forall|i: int| 0 <= i < txs.len() ==> (#[trigger] txs[i]).wf()
}

/// One transaction keeps every account balanced: if available and held funds
/// add up to the total in every account before it, they do so after it.
pub proof fn lemma_step_keeps_balance(state: LedgerView, tx: TransactionView)
    requires
        state.wf(),
        tx.wf(),
    ensures
        state.step(tx).wf(),
        forall|id: u16| (#[trigger] state.step(tx).account(id)).balanced(),
{
    let key = TxKey { acc_id: tx.acc_id, tx_id: tx.tx_id };
    lemma_opened_wf(tx.acc_id);
    lemma_after_balanced(state.account(tx.acc_id), state.record(key), tx.kind);
    assert forall|id: u16| (#[trigger] state.step(tx).account(id)).balanced() by {
        lemma_opened_wf(id);
    }
}

/// After any sequence of transactions, available and held funds add up to the
/// total in every account, those not yet on file included.
pub proof fn lemma_run_keeps_balance(state: LedgerView, txs: Seq<TransactionView>)
    requires
        state.wf(),
        all_wf(txs),
    ensures
        state.run(txs).wf(),
        forall|id: u16| (#[trigger] state.run(txs).account(id)).balanced(),
    decreases txs.len(),
{
    if txs.len() > 0 {
        assert(all_wf(txs.drop_last())) by {
            assert forall|i: int| 0 <= i < txs.drop_last().len() implies (
            #[trigger] txs.drop_last()[i]).wf() by {
                assert(txs[i].wf());
            }
        }
        lemma_run_keeps_balance(state, txs.drop_last());
        lemma_step_keeps_balance(state.run(txs.drop_last()), txs.last());
    } else {
        assert forall|id: u16| (#[trigger] state.account(id)).balanced() by {
            lemma_opened_wf(id);
        }
    }
}

/// A ledger that starts empty has every account balanced at every point.
pub proof fn theorem_balanced_at_every_point(txs: Seq<TransactionView>, id: u16)
    requires
        all_wf(txs),
    ensures
        LedgerView::empty().run(txs).account(id).balanced(),
{
    lemma_run_keeps_balance(LedgerView::empty(), txs);
}

/// No transaction changes a locked account: not its balances, and not the
/// lock.
pub proof fn lemma_step_leaves_locked_account(state: LedgerView, tx: TransactionView, id: u16)
    requires
        state.accounts.contains_key(id),
        state.accounts[id].locked,
    ensures
        state.step(tx).accounts.contains_key(id),
        state.step(tx).accounts[id] == state.accounts[id],
{
}

/// Once an account is locked, no sequence of transactions changes it.
pub proof fn theorem_locked_account_is_frozen(
    state: LedgerView,
    txs: Seq<TransactionView>,
    id: u16,
)
    requires
        state.accounts.contains_key(id),
        state.accounts[id].locked,
    ensures
        state.run(txs).accounts.contains_key(id),
        state.run(txs).accounts[id] == state.accounts[id],
    decreases txs.len(),
{
    if txs.len() > 0 {
        theorem_locked_account_is_frozen(state, txs.drop_last(), id);
        lemma_step_leaves_locked_account(state.run(txs.drop_last()), txs.last(), id);
    }
}

/// A transaction that does not act changes no account and no record: a
/// transaction for a locked account, a withdrawal that the available funds do
/// not cover, a dispute of a deposit that is missing or already disputed, a
/// resolution or a chargeback of a deposit that is missing or not disputed.
pub proof fn theorem_inapplicable_transaction_changes_nothing(
    state: LedgerView,
    tx: TransactionView,
)
    requires
        !state.acts(tx),
    ensures
        state.step(tx).deposits == state.deposits,
        forall|id: u16| #[trigger] state.step(tx).account(id) == state.account(id),
{
    assert(state.step(tx).deposits =~= state.deposits);
}

/// A withdrawal that acts leaves the available funds at zero or above.
pub proof fn theorem_withdrawal_is_covered(state: LedgerView, tx: TransactionView)
    requires
        state.wf(),
        tx.wf(),
        tx.kind is Withdrawal,
        state.acts(tx),
    ensures
        state.step(tx).account(tx.acc_id).available.value() >= 0,
{
    lemma_opened_wf(tx.acc_id);
    lemma_minus_value(state.account(tx.acc_id).available, tx.kind->Withdrawal_amount);
}

/// Held funds change only through a dispute, a resolution or a chargeback
/// that names the client itself and a deposit recorded for that client.
pub proof fn theorem_held_funds_follow_disputes(state: LedgerView, tx: TransactionView, id: u16)
    requires
        state.step(tx).account(id).held != state.account(id).held,
    ensures
        refers_to_deposit(tx.kind),
        tx.acc_id == id,
        state.deposits.contains_key(TxKey { acc_id: id, tx_id: tx.tx_id }),
{
}

/// A transaction changes at most the record of the deposit that it names,
/// and a transaction that opens or closes a dispute leaves the recorded
/// amount as it was.
pub proof fn theorem_records_change_one_at_a_time(
    state: LedgerView,
    tx: TransactionView,
    key: TxKey,
)
    ensures
        key != (TxKey { acc_id: tx.acc_id, tx_id: tx.tx_id }) ==> state.step(tx).record(key)
            == state.record(key),
        !(tx.kind is Deposit) && state.record(key) is Some ==> state.step(tx).record(key) is Some
            && state.step(tx).record(key)->0.amount == state.record(key)->0.amount,
{
}

/// The records of a locked account no longer change: no dispute on them is
/// opened or closed, and no deposit is written over them.
pub proof fn theorem_records_of_locked_account_are_frozen(
    state: LedgerView,
    tx: TransactionView,
    key: TxKey,
)
    requires
        state.account(key.acc_id).locked,
    ensures
        state.step(tx).record(key) == state.record(key),
{
}

/// A dispute is opened by a dispute that acts and by nothing else; it is
/// closed by a resolution that acts, or by a deposit that writes a fresh
/// record over the disputed one, and by nothing else. A chargeback leaves it
/// open.
pub proof fn theorem_disputes_open_and_close_by_the_rules(
    state: LedgerView,
    tx: TransactionView,
    key: TxKey,
)
    requires
        state.record(key) is Some,
    ensures
        state.step(tx).record(key) is Some,
        !state.record(key)->0.dispute && state.step(tx).record(key)->0.dispute ==> tx.kind is Dispute
            && state.acts(tx) && key == (TxKey { acc_id: tx.acc_id, tx_id: tx.tx_id }),
        state.record(key)->0.dispute && !state.step(tx).record(key)->0.dispute ==> (tx.kind is Resolve
            || tx.kind is Deposit) && state.acts(tx) && key == (TxKey {
            acc_id: tx.acc_id,
            tx_id: tx.tx_id,
        }),
{
}

/// Nothing is ever taken off the files: an account that is on file stays on
/// file, and so does a deposit record; and the client of a transaction is on
/// file once the transaction has been processed.
pub proof fn theorem_files_only_grow(state: LedgerView, tx: TransactionView)
    ensures
        state.accounts.dom().subset_of(state.step(tx).accounts.dom()),
        state.deposits.dom().subset_of(state.step(tx).deposits.dom()),
        state.step(tx).accounts.contains_key(tx.acc_id),
        tx.kind is Deposit && state.acts(tx) ==> state.step(tx).deposits.contains_key(
            TxKey { acc_id: tx.acc_id, tx_id: tx.tx_id },
        ),
{
}

/// The transaction refers to a deposit and carries no amount of its own.
pub open spec fn refers_to_deposit(kind: KindView) -> bool {
    kind is Dispute || kind is Resolve || kind is Chargeback
}

/// A dispute issued twice in a row does no more than the same dispute issued
/// once.
pub proof fn theorem_dispute_is_idempotent(state: LedgerView, tx: TransactionView)
    requires
        tx.kind is Dispute,
    ensures
        state.step(tx).step(tx) == state.step(tx),
{
    let once = state.step(tx);
    let twice = once.step(tx);
    assert(twice.accounts =~= once.accounts);
    assert(twice.deposits =~= once.deposits);
}

/// A dispute on a deposit whose dispute is already open changes no account
/// and no record, whatever has happened since the dispute was opened.
pub proof fn theorem_open_dispute_cannot_be_reopened(state: LedgerView, tx: TransactionView)
    requires
        tx.kind is Dispute,
        state.record(TxKey { acc_id: tx.acc_id, tx_id: tx.tx_id }) matches Some(r) && r.dispute,
    ensures
        state.step(tx).deposits == state.deposits,
        forall|id: u16| #[trigger] state.step(tx).account(id) == state.account(id),
{
    assert(state.step(tx).deposits =~= state.deposits);
}

/// A dispute, resolution or chargeback that names a deposit which is not
/// recorded for its own client changes no account and no record, even where
/// another client has a deposit with the same transaction identifier.
pub proof fn theorem_clients_are_isolated(state: LedgerView, tx: TransactionView)
    requires
        refers_to_deposit(tx.kind),
        !state.deposits.contains_key(TxKey { acc_id: tx.acc_id, tx_id: tx.tx_id }),
    ensures
        state.step(tx).deposits == state.deposits,
        forall|id: u16| #[trigger] state.step(tx).account(id) == state.account(id),
{
}

} // verus!
