//! Held funds are backed by open disputes: while no deposit is negative, no
//! account ever holds less than nothing.

use crate::amount::{lemma_minus_value, lemma_plus_value, AmountView, MAX_SCALE};
use crate::transactions::invariants::all_wf;
use crate::transactions::ledger::{DepositView, LedgerView, TxKey};
use crate::transactions::models::{lemma_opened_wf, KindView, TransactionView};
use crate::transactions::rules::lemma_after_balanced;
use vstd::arithmetic::power::pow;
use vstd::prelude::*;

verus! {

/// An amount is negative exactly when its digits are.
pub proof fn lemma_value_sign(a: AmountView)
    requires
        a.wf(),
    ensures
        a.value() >= 0 <==> a.mantissa >= 0,
{
    let unit = pow(10, (MAX_SCALE - a.scale) as nat);
    vstd::arithmetic::power::lemma_pow_positive(10, (MAX_SCALE - a.scale) as nat);
    assert(a.mantissa >= 0 ==> a.mantissa * unit >= 0) by (nonlinear_arith)
        requires
            unit > 0,
    ;
    assert(a.mantissa < 0 ==> a.mantissa * unit < 0) by (nonlinear_arith)
        requires
            unit > 0,
    ;
}

/// What the deposit that `key` names has under dispute: its amount while a
/// dispute on it is open, nothing otherwise.
pub open spec fn under_dispute(state: LedgerView, key: TxKey) -> int {
    match state.record(key) {
        Some(r) if r.dispute => r.amount.value(),
        _ => 0,
    }
}

/// What client `id` has under dispute in the deposits with an identifier
/// below `bound`.
pub open spec fn disputed_below(state: LedgerView, id: u16, bound: nat) -> int
    decreases bound,
{
    if bound == 0 {
        0
    } else {
        disputed_below(state, id, (bound - 1) as nat) + under_dispute(
            state,
            TxKey { acc_id: id, tx_id: (bound - 1) as u32 },
        )
    }
}

/// What client `id` has under dispute in all.
pub open spec fn disputed_total(state: LedgerView, id: u16) -> int {
    disputed_below(state, id, 0x1_0000_0000)
}

/// No recorded deposit is negative.
pub open spec fn no_negative_deposit(state: LedgerView) -> bool {
    forall|key: TxKey| #[trigger]
        state.deposits.contains_key(key) ==> state.deposits[key].amount.mantissa >= 0
}

/// No recorded deposit is negative, and every account holds at least what
/// its client has under dispute; a locked account, whose disputes no longer
/// move, holds at least nothing.
pub open spec fn holds_are_backed(state: LedgerView) -> bool {
    &&& no_negative_deposit(state)
    &&& forall|id: u16|
        if (#[trigger] state.account(id)).locked {
            state.account(id).held.value() >= 0
        } else {
            state.account(id).held.value() >= disputed_total(state, id)
        }
}

/// No deposit among the transactions is negative.
pub open spec fn no_negative_deposit_among(txs: Seq<TransactionView>) -> bool {
    forall|i: int|
        0 <= i < txs.len() ==> ((#[trigger] txs[i]).kind matches KindView::Deposit { amount }
            ==> amount.mantissa >= 0)
}

/// Two states in which a client has the same amounts under dispute give the
/// same sum, and a state that differs in one deposit gives a sum that
/// differs by as much.
proof fn lemma_disputed_below_differs(
    before: LedgerView,
    after: LedgerView,
    id: u16,
    tx_id: u32,
    bound: nat,
)
    requires
        bound <= 0x1_0000_0000,
        forall|t: u32|
            t != tx_id ==> #[trigger] under_dispute(after, TxKey { acc_id: id, tx_id: t })
                == under_dispute(before, TxKey { acc_id: id, tx_id: t }),
    ensures
        disputed_below(after, id, bound) == disputed_below(before, id, bound) + if tx_id < bound {
            under_dispute(after, TxKey { acc_id: id, tx_id }) - under_dispute(
                before,
                TxKey { acc_id: id, tx_id },
            )
        } else {
            0
        },
    decreases bound,
{
    if bound > 0 {
        lemma_disputed_below_differs(before, after, id, tx_id, (bound - 1) as nat);
        let t = (bound - 1) as u32;
        let key = TxKey { acc_id: id, tx_id: t };
        if t != tx_id {
            assert(under_dispute(after, key) == under_dispute(before, key));
        }
    }
}

/// Where no recorded deposit is negative, nothing under dispute is.
proof fn lemma_disputed_below_not_negative(state: LedgerView, id: u16, bound: nat)
    requires
        state.wf(),
        no_negative_deposit(state),
    ensures
        disputed_below(state, id, bound) >= 0,
    decreases bound,
{
    if bound > 0 {
        lemma_disputed_below_not_negative(state, id, (bound - 1) as nat);
        let key = TxKey { acc_id: id, tx_id: (bound - 1) as u32 };
        if state.deposits.contains_key(key) {
            lemma_value_sign(state.deposits[key].amount);
        }
    }
}

/// One transaction that deposits nothing negative keeps held funds backed.
pub proof fn lemma_step_keeps_holds_backed(state: LedgerView, tx: TransactionView)
    requires
        state.wf(),
        tx.wf(),
        holds_are_backed(state),
        tx.kind matches KindView::Deposit { amount } ==> amount.mantissa >= 0,
    ensures
        holds_are_backed(state.step(tx)),
{
    let next = state.step(tx);
    let key = TxKey { acc_id: tx.acc_id, tx_id: tx.tx_id };
    let account = state.account(tx.acc_id);
    let record = state.record(key);
    lemma_opened_wf(tx.acc_id);
    lemma_after_balanced(account, record, tx.kind);
    assert(no_negative_deposit(next));
    assert forall|id: u16|
        if (#[trigger] next.account(id)).locked {
            next.account(id).held.value() >= 0
        } else {
            next.account(id).held.value() >= disputed_total(next, id)
        } by {
        assert(state.account(id).locked ==> state.account(id).held.value() >= 0);
        assert(!state.account(id).locked ==> state.account(id).held.value() >= disputed_total(
            state,
            id,
        ));
        if id != tx.acc_id {
            assert(next.account(id) == state.account(id));
            lemma_disputed_below_differs(state, next, id, 0, 0x1_0000_0000);
        } else {
            lemma_disputed_below_differs(state, next, id, tx.tx_id, 0x1_0000_0000);
            if state.acts(tx) {
                match tx.kind {
                    KindView::Deposit { amount } => {
                        if record is Some {
                            lemma_value_sign(record->0.amount);
                        }
                    },
                    KindView::Withdrawal { amount } => {},
                    KindView::Dispute => {
                        lemma_plus_value(account.held, record->0.amount);
                    },
                    KindView::Resolve => {
                        lemma_minus_value(account.held, record->0.amount);
                    },
                    KindView::Chargeback => {
                        lemma_minus_value(account.held, record->0.amount);
                        let settled = LedgerView {
                            deposits: state.deposits.insert(
                                key,
                                DepositView { dispute: false, ..record->0 },
                            ),
                            ..state
                        };
                        lemma_disputed_below_differs(state, settled, id, tx.tx_id, 0x1_0000_0000);
                        lemma_disputed_below_not_negative(settled, id, 0x1_0000_0000);
                    },
                }
            }
        }
    }
}

/// Any sequence of transactions that deposit nothing negative keeps held
/// funds backed.
pub proof fn lemma_run_keeps_holds_backed(state: LedgerView, txs: Seq<TransactionView>)
    requires
        state.wf(),
        holds_are_backed(state),
        all_wf(txs),
        no_negative_deposit_among(txs),
    ensures
        state.run(txs).wf(),
        holds_are_backed(state.run(txs)),
    decreases txs.len(),
{
    crate::transactions::invariants::lemma_run_keeps_balance(state, txs);
    if txs.len() > 0 {
        let earlier = txs.drop_last();
        assert(all_wf(earlier) && no_negative_deposit_among(earlier)) by {
            assert forall|i: int| 0 <= i < earlier.len() implies (#[trigger] earlier[i]).wf() && (
            earlier[i].kind matches KindView::Deposit { amount } ==> amount.mantissa >= 0) by {
                assert(earlier[i] == txs[i]);
            }
        }
        lemma_run_keeps_holds_backed(state, earlier);
        lemma_step_keeps_holds_backed(state.run(earlier), txs.last());
    }
}

/// In a ledger that started empty and has seen no negative deposit, no
/// account holds less than nothing.
pub proof fn theorem_held_funds_are_not_negative(txs: Seq<TransactionView>, id: u16)
    requires
        all_wf(txs),
        no_negative_deposit_among(txs),
    ensures
        LedgerView::empty().run(txs).account(id).held.value() >= 0,
{
    let start = LedgerView::empty();
    assert(holds_are_backed(start)) by {
        assert forall|client: u16| (#[trigger] start.account(client)).held.value()
            >= disputed_total(start, client) by {
            lemma_opened_wf(client);
            lemma_empty_has_nothing_under_dispute(client, 0x1_0000_0000);
        }
    }
    lemma_run_keeps_holds_backed(start, txs);
    let end = start.run(txs);
    assert(end.account(id).locked || end.account(id).held.value() >= disputed_total(end, id));
    lemma_disputed_below_not_negative(end, id, 0x1_0000_0000);
}

/// An empty ledger has nothing under dispute.
proof fn lemma_empty_has_nothing_under_dispute(id: u16, bound: nat)
    ensures
        disputed_below(LedgerView::empty(), id, bound) == 0,
    decreases bound,
{
    if bound > 0 {
        lemma_empty_has_nothing_under_dispute(id, (bound - 1) as nat);
    }
}

} // verus!
