//! The failures that the loop meets, and those that end it.

use crate::tx::TxId;
use vstd::prelude::*;

verus! {

/// The store could not list the pending transactions, or could not record a
/// broadcast.
#[derive(Clone, Debug, PartialEq, Eq)]
pub struct StoreError {
    pub detail: String,
}

/// The call that submits a batch to the node failed as a whole, before the
/// node said anything of a single transaction.
#[derive(Clone, Debug, PartialEq, Eq)]
pub struct NodeError {
    pub detail: String,
}

/// Why the loop has ended.
#[derive(Clone, Debug, PartialEq, Eq)]
pub enum Fatal {
    /// The batch could not be submitted: none of its transactions was tried.
    Submission(NodeError),
    /// The node has the transaction `txid`, but the store could not record
    /// that.
    Mark { txid: TxId, error: StoreError },
    /// The loop was handed an event that it was not waiting for.
    OutOfTurn,
}

/// What a [`Fatal`] is, mathematically.
pub enum FatalView {
    Submission(Seq<char>),
    Mark { txid: TxId, error: Seq<char> },
    OutOfTurn,
}

impl View for StoreError {
    type V = Seq<char>;

    open spec fn view(&self) -> Seq<char> {
        self.detail@
    }
}

impl View for NodeError {
    type V = Seq<char>;

    open spec fn view(&self) -> Seq<char> {
        self.detail@
    }
}

impl View for Fatal {
    type V = FatalView;

    open spec fn view(&self) -> FatalView {
        match *self {
            Fatal::Submission(error) => FatalView::Submission(error@),
            Fatal::Mark { txid, error } => FatalView::Mark { txid, error: error@ },
            Fatal::OutOfTurn => FatalView::OutOfTurn,
        }
    }
}

} // verus!
