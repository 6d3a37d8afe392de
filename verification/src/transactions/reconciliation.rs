//! Reconciling an account with the history of its transactions.
//!
//! All sums are counted in units of `10^-28`, as `AmountView::value` counts.

use crate::transactions::invariants::{all_wf, lemma_run_keeps_balance};
use crate::transactions::ledger::{LedgerView, TxKey};
use crate::transactions::models::{lemma_opened_wf, KindView, TransactionView};
use crate::transactions::rules::{lemma_after_balanced, net_flow};
use vstd::prelude::*;

verus! {

/// The amount that `tx` deposits when it arrives in `state`: its amount where
/// it is an accepted deposit, nothing otherwise.
pub open spec fn deposit_of(state: LedgerView, tx: TransactionView) -> int {
    match tx.kind {
        KindView::Deposit { amount } if state.acts(tx) => amount.value(),
        _ => 0,
    }
}

/// The amount that `tx` withdraws when it arrives in `state`: its amount where
/// it is an accepted withdrawal, nothing otherwise.
pub open spec fn withdrawal_of(state: LedgerView, tx: TransactionView) -> int {
    match tx.kind {
        KindView::Withdrawal { amount } if state.acts(tx) => amount.value(),
        _ => 0,
    }
}

/// The amount that `tx` charges back when it arrives in `state`: the amount
/// of the disputed deposit where it is an accepted chargeback, nothing
/// otherwise.
pub open spec fn chargeback_of(state: LedgerView, tx: TransactionView) -> int {
    match tx.kind {
        KindView::Chargeback if state.acts(tx) => state.deposits[TxKey {
            acc_id: tx.acc_id,
            tx_id: tx.tx_id,
        }].amount.value(),
        _ => 0,
    }
}

/// The sum of all deposits that client `id` had accepted while `txs` ran from
/// `state`.
pub open spec fn deposited(state: LedgerView, txs: Seq<TransactionView>, id: u16) -> int
    decreases txs.len(),
{
    if txs.len() == 0 {
        0
    } else if txs.last().acc_id == id {
        deposited(state, txs.drop_last(), id) + deposit_of(state.run(txs.drop_last()), txs.last())
    } else {
        deposited(state, txs.drop_last(), id)
    }
}

/// The sum of all withdrawals that client `id` had accepted while `txs` ran
/// from `state`.
pub open spec fn withdrawn(state: LedgerView, txs: Seq<TransactionView>, id: u16) -> int
    decreases txs.len(),
{
    if txs.len() == 0 {
        0
    } else if txs.last().acc_id == id {
        withdrawn(state, txs.drop_last(), id) + withdrawal_of(
            state.run(txs.drop_last()),
            txs.last(),
        )
    } else {
        withdrawn(state, txs.drop_last(), id)
    }
}

/// The sum of all amounts charged back to client `id` while `txs` ran from
/// `state`.
pub open spec fn charged_back(state: LedgerView, txs: Seq<TransactionView>, id: u16) -> int
    decreases txs.len(),
{
    if txs.len() == 0 {
        0
    } else if txs.last().acc_id == id {
        charged_back(state, txs.drop_last(), id) + chargeback_of(
            state.run(txs.drop_last()),
            txs.last(),
        )
    } else {
        charged_back(state, txs.drop_last(), id)
    }
}

/// One transaction moves the funds of its client by what it deposits, less
/// what it withdraws and what it charges back, and moves no other client's.
pub proof fn lemma_step_reconciles(state: LedgerView, tx: TransactionView, id: u16)
    requires
        state.wf(),
        tx.wf(),
    ensures
        state.step(tx).account(id).total.value() == state.account(id).total.value() + if tx.acc_id
            == id {
            deposit_of(state, tx) - withdrawal_of(state, tx) - chargeback_of(state, tx)
        } else {
            0
        },
{
    let key = TxKey { acc_id: tx.acc_id, tx_id: tx.tx_id };
    lemma_opened_wf(tx.acc_id);
    lemma_after_balanced(state.account(tx.acc_id), state.record(key), tx.kind);
    if tx.acc_id == id {
        assert(net_flow(state.account(id), state.record(key), tx.kind) == deposit_of(state, tx)
            - withdrawal_of(state, tx) - chargeback_of(state, tx));
    }
}

/// After any sequence of transactions, the available and held funds of a
/// client add up to what the client had in total before, plus all accepted
/// deposits, less all accepted withdrawals, less all amounts charged back.
pub proof fn lemma_run_reconciles(state: LedgerView, txs: Seq<TransactionView>, id: u16)
    requires
        state.wf(),
        all_wf(txs),
    ensures
        state.run(txs).account(id).available.value() + state.run(txs).account(id).held.value()
            == state.account(id).total.value() + deposited(state, txs, id) - withdrawn(
            state,
            txs,
            id,
        ) - charged_back(state, txs, id),
    decreases txs.len(),
{
    lemma_run_keeps_balance(state, txs);
    if txs.len() > 0 {
        assert(all_wf(txs.drop_last())) by {
            assert forall|i: int| 0 <= i < txs.drop_last().len() implies (
            #[trigger] txs.drop_last()[i]).wf() by {
                assert(txs[i].wf());
            }
        }
        lemma_run_reconciles(state, txs.drop_last(), id);
        lemma_run_keeps_balance(state, txs.drop_last());
        lemma_step_reconciles(state.run(txs.drop_last()), txs.last(), id);
    }
}

/// In a ledger that started empty, the available and held funds of every
/// client add up to all its accepted deposits, less all its accepted
/// withdrawals, less all amounts charged back to it.
pub proof fn theorem_ledger_reconciles(txs: Seq<TransactionView>, id: u16)
    requires
        all_wf(txs),
    ensures
        ({
            let start = LedgerView::empty();
            let account = start.run(txs).account(id);
            account.available.value() + account.held.value() == deposited(start, txs, id)
                - withdrawn(start, txs, id) - charged_back(start, txs, id)
        }),
{
    lemma_opened_wf(id);
    lemma_run_reconciles(LedgerView::empty(), txs, id);
}

} // verus!
