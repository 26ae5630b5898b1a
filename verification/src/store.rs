//! A store of spend transactions that lives in memory and keeps the contract
//! that the loop expects of its store: it lists what is pending, and a
//! transaction that was marked as broadcasted is never pending again.

use crate::error::StoreError;
use crate::tx::{views, SpendTransaction, SpendTransactionView, TxId};
use vstd::prelude::*;

verus! {

/// The transactions that were handed to the store: those that still wait, in
/// the order in which they came, and those that were marked as broadcasted, in
/// the order in which they were marked.
pub struct MemoryStore {
    pending: Vec<SpendTransaction>,
    broadcasted: Vec<SpendTransaction>,
}

/// What a [`MemoryStore`] is, mathematically.
pub struct MemoryStoreView {
    pub pending: Seq<SpendTransactionView>,
    pub broadcasted: Seq<SpendTransactionView>,
}

impl View for MemoryStore {
    type V = MemoryStoreView;

    closed spec fn view(&self) -> MemoryStoreView {
        MemoryStoreView { pending: views(self.pending@), broadcasted: views(self.broadcasted@) }
    }
}

/// Picks the transactions with the identifier `txid`.
pub open spec fn has_id(txid: TxId) -> spec_fn(SpendTransactionView) -> bool {
    |tx: SpendTransactionView| tx.txid == txid
}

/// Picks the transactions with another identifier than `txid`.
pub open spec fn has_other_id(txid: TxId) -> spec_fn(SpendTransactionView) -> bool {
    |tx: SpendTransactionView| tx.txid != txid
}

/// Picks the transactions whose identifier is none of `ids`.
pub open spec fn has_none_of(ids: Seq<TxId>) -> spec_fn(SpendTransactionView) -> bool {
    |tx: SpendTransactionView| !ids.contains(tx.txid)
}

/// Whether one of `txs` has the identifier `txid`.
pub open spec fn names(txs: Seq<SpendTransactionView>, txid: TxId) -> bool {
    exists|i: int| 0 <= i < txs.len() && (#[trigger] txs[i]).txid == txid
}

/// Whether no two of `txs` have the same identifier.
pub open spec fn distinct_ids(txs: Seq<SpendTransactionView>) -> bool {
    forall|i: int, j: int|
        0 <= i < j < txs.len() ==> (#[trigger] txs[i]).txid != (#[trigger] txs[j]).txid
}

impl MemoryStoreView {
    /// An identifier names one transaction only, pending or broadcasted.
    pub open spec fn wf(self) -> bool {
        distinct_ids(self.pending + self.broadcasted)
    }

    /// Whether the store holds a transaction with this identifier.
    pub open spec fn holds(self, txid: TxId) -> bool {
        names(self.pending, txid) || names(self.broadcasted, txid)
    }

    /// The store after `tx` was handed to it: it is pending, unless the store
    /// held a transaction of that identifier already.
    pub open spec fn inserted(self, tx: SpendTransactionView) -> MemoryStoreView {
        if self.holds(tx.txid) {
            self
        } else {
            MemoryStoreView { pending: self.pending.push(tx), broadcasted: self.broadcasted }
        }
    }

    /// The store after `txid` was marked as broadcasted: no pending
    /// transaction has that identifier any more.
    pub open spec fn marked(self, txid: TxId) -> MemoryStoreView {
        MemoryStoreView {
            pending: self.pending.filter(has_other_id(txid)),
            broadcasted: self.broadcasted + self.pending.filter(has_id(txid)),
        }
    }
}

/// The store after each of `ids` was marked as broadcasted, one after the
/// other.
pub open spec fn marked_all(store: MemoryStoreView, ids: Seq<TxId>) -> MemoryStoreView
    decreases ids.len(),
{
    if ids.len() == 0 {
        store
    } else {
        marked_all(store.marked(ids[0]), ids.drop_first())
    }
}

impl MemoryStore {
    /// A store that holds nothing.
    pub fn new() -> (store: MemoryStore)
        ensures
            store@.pending.len() == 0,
            store@.broadcasted.len() == 0,
            store@.wf(),
    {
        MemoryStore { pending: Vec::new(), broadcasted: Vec::new() }
    }

    /// Hands a signed transaction to the store, where it is pending from now
    /// on. The store refuses a transaction whose identifier it holds already,
    /// pending or broadcasted, and says so by `false`.
    pub fn insert(&mut self, tx: SpendTransaction) -> (inserted: bool)
        ensures
            inserted == !old(self)@.holds(tx@.txid),
            final(self)@ == old(self)@.inserted(tx@),
            old(self)@.wf() ==> final(self)@.wf(),
    {
        let ghost before = self@;
        proof {
            if before.wf() {
                insert_keeps_wf(before, tx@);
            }
        }
        if position(&self.pending, &tx.txid).is_some() {
            return false;
        }
        if position(&self.broadcasted, &tx.txid).is_some() {
            return false;
        }
        self.pending.push(tx);
        assert(views(self.pending@) =~= before.pending.push(tx@));
        true
    }

    /// Lists the pending transactions, oldest first. This store never fails.
    pub fn fetch_pending(&self) -> (listed: Result<Vec<SpendTransaction>, StoreError>)
        ensures
            listed matches Ok(txs) && views(txs@) == self@.pending,
    {
        let mut txs: Vec<SpendTransaction> = Vec::new();
        let mut i: usize = 0;
        while i < self.pending.len()
            invariant
                i <= self.pending.len(),
                txs.len() == i,
                forall|k: int| 0 <= k < i ==> txs@[k]@ == self.pending@[k]@,
            decreases self.pending.len() - i,
        {
            txs.push(self.pending[i].duplicate());
            i += 1;
        }
        Ok(txs)
    }

    /// Records the transaction `txid` as broadcasted, so that it is not
    /// pending any more. Marking a transaction that is not pending, because it
    /// was marked before or was never there, changes nothing. This store never
    /// fails.
    pub fn mark_broadcasted(&mut self, txid: &TxId) -> (done: Result<(), StoreError>)
        ensures
            done is Ok,
            final(self)@ == old(self)@.marked(*txid),
            old(self)@.wf() ==> final(self)@.wf(),
    {
        let ghost before = self@;
        let ghost seen: int = 0;
        proof {
            if before.wf() {
                mark_moves_one_at_most(before, *txid);
            }
            reveal(Seq::filter);
            assert(before.pending.skip(0) =~= before.pending);
        }
        let mut i: usize = 0;
        while i < self.pending.len()
            invariant
                0 <= seen <= before.pending.len(),
                i == before.pending.take(seen).filter(has_other_id(*txid)).len(),
                views(self.pending@) == before.pending.take(seen).filter(has_other_id(*txid))
                    + before.pending.skip(seen),
                views(self.broadcasted@) == before.broadcasted + before.pending.take(seen).filter(
                    has_id(*txid),
                ),
            decreases self.pending.len() - i,
        {
            let ghost current = before.pending[seen];
            proof {
                assert(views(self.pending@)[i as int] == before.pending.skip(seen)[0]);
                assert(before.pending.take(seen + 1) =~= before.pending.take(seen).push(current));
                before.pending.take(seen).lemma_filter_push(current, has_other_id(*txid));
                before.pending.take(seen).lemma_filter_push(current, has_id(*txid));
            }
            if self.pending[i].txid.same(txid) {
                let ghost listed = views(self.pending@);
                let ghost recorded = views(self.broadcasted@);
                let tx = self.pending.remove(i);
                self.broadcasted.push(tx);
                assert(views(self.pending@) =~= listed.remove(i as int));
                assert(views(self.broadcasted@) =~= recorded.push(current));
            } else {
                i += 1;
            }
            proof {
                seen = seen + 1;
            }
        }
        Ok(())
    }

    /// Whether the transaction `txid` was marked as broadcasted.
    pub fn is_broadcasted(&self, txid: &TxId) -> (marked: bool)
        ensures
            marked == names(self@.broadcasted, *txid),
    {
        position(&self.broadcasted, txid).is_some()
    }
}

/// The position of a transaction with the identifier `txid` among `txs`, if
/// there is one.
fn position(txs: &Vec<SpendTransaction>, txid: &TxId) -> (found: Option<usize>)
    ensures
        found matches Some(at) ==> at < txs.len() && txs@[at as int].txid == *txid,
        found is Some == names(views(txs@), *txid),
{
    let mut i: usize = 0;
    while i < txs.len()
        invariant
            i <= txs.len(),
            forall|k: int| 0 <= k < i ==> txs@[k].txid != *txid,
        decreases txs.len() - i,
    {
        if txs[i].txid.same(txid) {
            assert(views(txs@)[i as int].txid == *txid);
            return Some(i);
        }
        i += 1;
    }
    None
}

/// Marking the same identifier twice is marking it once: the second mark
/// changes nothing, and after the first one no pending transaction has that
/// identifier.
pub proof fn marking_twice_is_marking_once(store: MemoryStoreView, txid: TxId)
    ensures
        store.marked(txid).marked(txid) == store.marked(txid),
        !names(store.marked(txid).pending, txid),
{
    let once = store.marked(txid);
    assert forall|i: int| 0 <= i < once.pending.len() implies (#[trigger] once.pending[i]).txid
        != txid by {
        store.pending.lemma_filter_pred(has_other_id(txid), i);
    }
    filter_without_match(once.pending, txid);
}

/// A transaction that was marked stays out of the pending set, whatever is
/// marked after it.
pub proof fn marked_is_never_pending_again(store: MemoryStoreView, txid: TxId, later: Seq<TxId>)
    ensures
        !names(marked_all(store.marked(txid), later).pending, txid),
{
    let once = store.marked(txid);
    let after = marked_all(once, later);
    marking_twice_is_marking_once(store, txid);
    marks_only_take_out(once, later);
    if names(after.pending, txid) {
        let i = choose|i: int| 0 <= i < after.pending.len() && (#[trigger] after.pending[i]).txid == txid;
        once.pending.lemma_filter_contains_rev(has_none_of(later), after.pending[i]);
    }
}

/// Marks take transactions out of the pending set and never put one in: what
/// is pending after some marks was pending before them, in the same order,
/// and has none of the marked identifiers.
pub proof fn marks_only_take_out(store: MemoryStoreView, ids: Seq<TxId>)
    ensures
        marked_all(store, ids).pending == store.pending.filter(has_none_of(ids)),
    decreases ids.len(),
{
    if ids.len() == 0 {
        filter_keeps_all(store.pending, ids);
    } else {
        let first = ids[0];
        let rest = ids.drop_first();
        marks_only_take_out(store.marked(first), rest);
        filter_one_then_others(store.pending, first, rest);
        assert(seq![first] + rest =~= ids);
    }
}

/// In a well-formed store a mark moves one transaction at most: it changes
/// nothing where no pending transaction has the identifier, and else takes
/// the one that has it out of the pending transactions and puts it behind the
/// broadcasted ones. The store stays well-formed.
pub proof fn mark_moves_one_at_most(store: MemoryStoreView, txid: TxId)
    requires
        store.wf(),
    ensures
        store.marked(txid).wf(),
        !names(store.pending, txid) ==> store.marked(txid) == store,
        forall|at: int|
            0 <= at < store.pending.len() && (#[trigger] store.pending[at]).txid == txid
                ==> store.marked(txid) == (MemoryStoreView {
                pending: store.pending.remove(at),
                broadcasted: store.broadcasted.push(store.pending[at]),
            }),
{
    let was = store.pending + store.broadcasted;
    if !names(store.pending, txid) {
        filter_without_match(store.pending, txid);
    } else {
        let at = choose|at: int| 0 <= at < store.pending.len() && (#[trigger] store.pending[at]).txid == txid;
        assert(distinct_ids(store.pending)) by {
            assert forall|i: int, j: int| 0 <= i < j < store.pending.len() implies (
            #[trigger] store.pending[i]).txid != (#[trigger] store.pending[j]).txid by {
                assert(was[i] == store.pending[i]);
                assert(was[j] == store.pending[j]);
            }
        }
        filter_with_one_match(store.pending, txid, at);
        assert(store.broadcasted + seq![store.pending[at]] =~= store.broadcasted.push(
            store.pending[at],
        ));
        let after = store.marked(txid);
        let all = after.pending + after.broadcasted;
        assert forall|i: int, j: int| 0 <= i < j < all.len() implies (#[trigger] all[i]).txid != (
        #[trigger] all[j]).txid by {
            let a = if i < at { i } else if i < all.len() - 1 { i + 1 } else { at };
            let b = if j < at { j } else if j < all.len() - 1 { j + 1 } else { at };
            assert(all[i] == was[a]);
            assert(all[j] == was[b]);
        }
    }
}

/// Inserting a transaction keeps the store well-formed.
pub proof fn insert_keeps_wf(store: MemoryStoreView, tx: SpendTransactionView)
    requires
        store.wf(),
    ensures
        store.inserted(tx).wf(),
{
    if !store.holds(tx.txid) {
        let after = store.inserted(tx);
        let all = after.pending + after.broadcasted;
        let was = store.pending + store.broadcasted;
        let n = store.pending.len() as int;
        assert forall|i: int, j: int| 0 <= i < j < all.len() implies (#[trigger] all[i]).txid != (
        #[trigger] all[j]).txid by {
            if i != n && j != n {
                let a = if i < n { i } else { i - 1 };
                let b = if j < n { j } else { j - 1 };
                assert(all[i] == was[a]);
                assert(all[j] == was[b]);
            }
        }
    }
}

/// Where no transaction has the identifier, marking it changes nothing.
proof fn filter_without_match(txs: Seq<SpendTransactionView>, txid: TxId)
    requires
        !names(txs, txid),
    ensures
        txs.filter(has_other_id(txid)) == txs,
        txs.filter(has_id(txid)) == Seq::<SpendTransactionView>::empty(),
    decreases txs.len(),
{
    reveal(Seq::filter);
    if txs.len() > 0 {
        filter_without_match(txs.drop_last(), txid);
    }
}

/// Where one transaction only has the identifier, marking it takes that one
/// out of the pending transactions and leaves the others in their order.
proof fn filter_with_one_match(txs: Seq<SpendTransactionView>, txid: TxId, at: int)
    requires
        0 <= at < txs.len(),
        txs[at].txid == txid,
        distinct_ids(txs),
    ensures
        txs.filter(has_other_id(txid)) == txs.remove(at),
        txs.filter(has_id(txid)) == seq![txs[at]],
{
    let before = txs.take(at);
    let one = seq![txs[at]];
    let after = txs.skip(at + 1);
    assert(txs =~= before + one + after);
    filter_without_match(before, txid);
    filter_without_match(after, txid);
    Seq::<SpendTransactionView>::empty().lemma_filter_push(txs[at], has_id(txid));
    Seq::<SpendTransactionView>::empty().lemma_filter_push(txs[at], has_other_id(txid));
    reveal(Seq::filter);
    Seq::filter_distributes_over_add(before, one, has_id(txid));
    Seq::filter_distributes_over_add(before + one, after, has_id(txid));
    Seq::filter_distributes_over_add(before, one, has_other_id(txid));
    Seq::filter_distributes_over_add(before + one, after, has_other_id(txid));
}

/// With no identifier to leave out, every transaction is kept.
proof fn filter_keeps_all(txs: Seq<SpendTransactionView>, ids: Seq<TxId>)
    requires
        ids.len() == 0,
    ensures
        txs.filter(has_none_of(ids)) == txs,
    decreases txs.len(),
{
    reveal(Seq::filter);
    if txs.len() > 0 {
        filter_keeps_all(txs.drop_last(), ids);
    }
}

/// Leaving out one identifier and then some others is leaving out all of them
/// at once.
proof fn filter_one_then_others(txs: Seq<SpendTransactionView>, first: TxId, rest: Seq<TxId>)
    ensures
        txs.filter(has_other_id(first)).filter(has_none_of(rest)) == txs.filter(
            has_none_of(seq![first] + rest),
        ),
    decreases txs.len(),
{
    reveal(Seq::filter);
    let all = seq![first] + rest;
    if txs.len() > 0 {
        let front = txs.drop_last();
        let last = txs.last();
        filter_one_then_others(front, first, rest);
        assert(all[0] == first);
        assert forall|id: TxId| all.contains(id) <==> (id == first || rest.contains(id)) by {
            if rest.contains(id) {
                let k = choose|k: int| 0 <= k < rest.len() && rest[k] == id;
                assert(all[k + 1] == id);
            }
        }
        if last.txid != first {
            front.filter(has_other_id(first)).lemma_filter_push(last, has_none_of(rest));
        }
    }
}

} // verus!
