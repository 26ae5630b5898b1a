//! Spend transactions as the loop sees them: an identifier and raw bytes.

use vstd::prelude::*;

verus! {

/// The hash digest that identifies a transaction.
#[derive(Clone, Copy, Debug, PartialEq, Eq, Hash)]
pub struct TxId {
    pub bytes: [u8; 32],
}

impl TxId {
    /// Whether two identifiers are the same digest.
    pub fn same(&self, other: &TxId) -> (same: bool)
        ensures
            same == (*self == *other),
    {
        let mut i: usize = 0;
        while i < 32
            invariant
                i <= 32,
                forall|k: int| 0 <= k < i ==> self.bytes@[k] == other.bytes@[k],
            decreases 32 - i,
        {
            if self.bytes[i] != other.bytes[i] {
                return false;
            }
            i += 1;
        }
        assert(self.bytes =~= other.bytes);
        true
    }
}

/// A signed transaction that waits for the network to accept it.
#[derive(Clone, Debug, PartialEq, Eq)]
pub struct SpendTransaction {
    pub txid: TxId,
    pub raw: Vec<u8>,
}

/// What a [`SpendTransaction`] is, mathematically.
pub struct SpendTransactionView {
    pub txid: TxId,
    pub raw: Seq<u8>,
}

impl View for SpendTransaction {
    type V = SpendTransactionView;

    open spec fn view(&self) -> SpendTransactionView {
        SpendTransactionView { txid: self.txid, raw: self.raw@ }
    }
}

impl SpendTransaction {
    /// A second copy of the transaction.
    pub fn duplicate(&self) -> (copy: SpendTransaction)
        ensures
            copy@ == self@,
    {
        let raw = self.raw.clone();
        SpendTransaction { txid: self.txid, raw }
    }
}

/// The views of the items of a sequence, in the same order.
pub open spec fn views<T: View>(items: Seq<T>) -> Seq<T::V> {
    Seq::new(items.len(), |i: int| items[i]@)
}

/// The raw bytes of each transaction, in the same order: the batch that is
/// sent to the node.
pub open spec fn raw_batch(txs: Seq<SpendTransactionView>) -> Seq<Seq<u8>> {
    Seq::new(txs.len(), |i: int| txs[i].raw)
}

/// Copies the raw bytes of every pending transaction into one batch, in the
/// order of the transactions.
pub fn collect_batch(pending: &Vec<SpendTransaction>) -> (batch: Vec<Vec<u8>>)
    ensures
        views(batch@) == raw_batch(views(pending@)),
{
    let mut batch: Vec<Vec<u8>> = Vec::new();
    let mut i: usize = 0;
    while i < pending.len()
        invariant
            i <= pending.len(),
            batch.len() == i,
            forall|k: int| 0 <= k < i ==> batch@[k]@ == pending@[k].raw@,
        decreases pending.len() - i,
    {
        let raw = pending[i].raw.clone();
        batch.push(raw);
        i += 1;
    }
    batch
}

} // verus!
