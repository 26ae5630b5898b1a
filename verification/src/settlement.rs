//! What an attempt of the loop does to a store that records every mark the
//! loop asks for: which transactions are still pending afterwards.

use crate::laws::{settled_ids, settled_ids_are_the_settled};
use crate::outcome::TxOutcome;
use crate::store::{
    distinct_ids, has_none_of, mark_moves_one_at_most, marked_all, marks_only_take_out,
    MemoryStoreView,
};
use crate::tx::{SpendTransactionView, TxId};
use vstd::prelude::*;

verus! {

/// The transactions before position `upto` that an attempt leaves pending:
/// those that got no outcome, or one that does not settle them.
pub open spec fn left_over(
    pending: Seq<SpendTransactionView>,
    outcomes: Seq<TxOutcome>,
    upto: int,
) -> Seq<SpendTransactionView>
    decreases upto,
{
    if upto <= 0 {
        Seq::empty()
    } else {
        let front = left_over(pending, outcomes, upto - 1);
        if upto - 1 < outcomes.len() && outcomes[upto - 1].settles() {
            front
        } else {
            front.push(pending[upto - 1])
        }
    }
}

/// The store after one attempt in which the node answered with `outcomes`
/// and every mark that the loop asked for was recorded.
pub open spec fn after_attempt(store: MemoryStoreView, outcomes: Seq<TxOutcome>) -> MemoryStoreView {
    marked_all(store, settled_ids(store.pending, outcomes, 0))
}

/// The store after one such attempt for each of `rounds`, in their order.
pub open spec fn after_attempts(
    store: MemoryStoreView,
    rounds: Seq<Seq<TxOutcome>>,
) -> MemoryStoreView
    decreases rounds.len(),
{
    if rounds.len() == 0 {
        store
    } else {
        after_attempts(after_attempt(store, rounds[0]), rounds.drop_first())
    }
}

/// Whether, in each of `rounds`, the transaction `tx` gets no outcome that
/// settles it.
pub open spec fn never_settled(
    store: MemoryStoreView,
    rounds: Seq<Seq<TxOutcome>>,
    tx: SpendTransactionView,
) -> bool
    decreases rounds.len(),
{
    rounds.len() == 0 || {
        &&& forall|i: int|
            0 <= i < store.pending.len() && store.pending[i] == tx ==> !(i < rounds[0].len()
                && (#[trigger] rounds[0][i]).settles())
        &&& never_settled(after_attempt(store, rounds[0]), rounds.drop_first(), tx)
    }
}

/// What an attempt does to the store. The loop lists what is pending, the
/// node answers with `outcomes`, and the store records every mark that the
/// loop asks for. Then exactly the transactions whose outcome did not settle
/// them are still pending, in their old order: each of them is listed and
/// submitted again on the next tick, and will be on every tick until its
/// outcome settles it. A transaction that was settled is not pending again.
pub proof fn attempt_leaves_the_unsettled_pending(store: MemoryStoreView, outcomes: Seq<TxOutcome>)
    requires
        store.wf(),
    ensures
        ({
            let after = after_attempt(store, outcomes);
            &&& after.wf()
            &&& after.pending == left_over(store.pending, outcomes, store.pending.len() as int)
            &&& forall|i: int|
                0 <= i < store.pending.len() ==> (after.pending.contains(#[trigger] store.pending[i])
                    <==> !(i < outcomes.len() && outcomes[i].settles()))
        }),
{
    let pending = store.pending;
    let marks = settled_ids(pending, outcomes, 0);
    let after = marked_all(store, marks);
    marks_keep_wf(store, marks);
    marks_only_take_out(store, marks);
    assert(distinct_ids(pending)) by {
        assert forall|i: int, j: int| 0 <= i < j < pending.len() implies (#[trigger] pending[i]).txid
            != (#[trigger] pending[j]).txid by {
            assert((store.pending + store.broadcasted)[i] == pending[i]);
            assert((store.pending + store.broadcasted)[j] == pending[j]);
        }
    }
    unsettled_are_left_over(pending, outcomes, pending.len() as int);
    assert(pending.take(pending.len() as int) =~= pending);
    settled_ids_are_the_settled(pending, outcomes, 0);
    assert forall|i: int| 0 <= i < pending.len() implies (after.pending.contains(
        #[trigger] pending[i],
    ) <==> !(i < outcomes.len() && outcomes[i].settles())) by {
        if i < outcomes.len() && outcomes[i].settles() {
            if after.pending.contains(pending[i]) {
                let k = choose|k: int| 0 <= k < after.pending.len() && after.pending[k] == pending[i];
                pending.lemma_filter_pred(has_none_of(marks), k);
            }
        } else {
            pending.lemma_filter_contains(has_none_of(marks), i);
        }
    }
}

/// Retrying has no bound: a pending transaction that the node does not
/// settle stays pending through any number of attempts, so each of them
/// lists and submits it again.
pub proof fn unsettled_stays_pending_through_every_attempt(
    store: MemoryStoreView,
    rounds: Seq<Seq<TxOutcome>>,
    tx: SpendTransactionView,
)
    requires
        store.wf(),
        store.pending.contains(tx),
        never_settled(store, rounds, tx),
    ensures
        after_attempts(store, rounds).wf(),
        after_attempts(store, rounds).pending.contains(tx),
    decreases rounds.len(),
{
    if rounds.len() > 0 {
        let i = choose|i: int| 0 <= i < store.pending.len() && store.pending[i] == tx;
        attempt_leaves_the_unsettled_pending(store, rounds[0]);
        unsettled_stays_pending_through_every_attempt(
            after_attempt(store, rounds[0]),
            rounds.drop_first(),
            tx,
        );
    }
}

/// Leaving out the settled identifiers leaves the transactions that were not
/// settled.
proof fn unsettled_are_left_over(
    pending: Seq<SpendTransactionView>,
    outcomes: Seq<TxOutcome>,
    upto: int,
)
    requires
        distinct_ids(pending),
        0 <= upto <= pending.len(),
    ensures
        pending.take(upto).filter(has_none_of(settled_ids(pending, outcomes, 0))) == left_over(
            pending,
            outcomes,
            upto,
        ),
    decreases upto,
{
    let ids = settled_ids(pending, outcomes, 0);
    reveal(Seq::filter);
    if upto > 0 {
        let at = upto - 1;
        unsettled_are_left_over(pending, outcomes, at);
        settled_ids_are_the_settled(pending, outcomes, 0);
        assert(pending.take(upto) =~= pending.take(at).push(pending[at]));
        pending.take(at).lemma_filter_push(pending[at], has_none_of(ids));
    }
}

/// Any number of marks keeps every identifier the name of one transaction.
proof fn marks_keep_wf(store: MemoryStoreView, ids: Seq<TxId>)
    requires
        store.wf(),
    ensures
        marked_all(store, ids).wf(),
    decreases ids.len(),
{
    if ids.len() > 0 {
        mark_moves_one_at_most(store, ids[0]);
        marks_keep_wf(store.marked(ids[0]), ids.drop_first());
    }
}

} // verus!
