//! What the node said of one transaction, and what the loop does about it.

use jsonrpc::error::Error;
use vstd::prelude::*;

verus! {

/// The error code by which the node says that it already knows a transaction
/// (bitcoind calls it `RPC_VERIFY_ALREADY_IN_CHAIN`).
pub const ALREADY_KNOWN: i32 = -27;

/// The node's answer for one transaction of a batch.
#[derive(Clone, Copy, Debug, PartialEq, Eq)]
pub enum TxOutcome {
    /// The node took the transaction.
    Accepted,
    /// The node answered with an error that carries this code.
    Rejected { code: i32 },
    /// The request for this transaction failed without an error code from the
    /// node.
    Failed,
}

/// What the loop does with a transaction after the node has answered.
#[derive(Clone, Copy, Debug, PartialEq, Eq)]
pub enum Disposition {
    /// Record the transaction as broadcasted.
    MarkBroadcasted,
    /// Leave it pending; it is submitted again on the next tick.
    LeavePending,
}

/// `jsonrpc::error::Error`, the error type of the RPC client. Nothing is known
/// of what a value of it holds but what `response_code` says.
#[verifier::external_type_specification]
#[verifier::external_body]
pub struct ExRpcError(Error);

/// The code of the error response that a `jsonrpc::error::Error` holds:
/// the `code` field of the `RpcError` in its variant `Rpc`. An error of any
/// other variant holds no response, and has `None` here.
pub uninterp spec fn response_code(error: Error) -> Option<i32>;

/// Reads the response code out of a `jsonrpc::error::Error`, by telling its
/// variants apart. Trusted to return `response_code` of the error: the `code`
/// field of `jsonrpc::error::RpcError` for the variant `Rpc`, and `None` for
/// each of the other variants, none of which holds a response of the node.
#[verifier::external_body]
fn read_response_code(error: &Error) -> (code: Option<i32>)
    ensures
        code == response_code(*error),
{
    match error {
        Error::Rpc(response) => Some(response.code),
        Error::Transport(_) => None,
        Error::Json(_) => None,
        Error::NonceMismatch => None,
        Error::VersionMismatch => None,
        Error::EmptyBatch => None,
        Error::WrongBatchResponseSize => None,
        Error::BatchDuplicateResponseId(_) => None,
        Error::WrongBatchResponseId(_) => None,
    }
}

impl TxOutcome {
    /// The outcome that an error with this response code stands for.
    pub open spec fn of_code(code: Option<i32>) -> TxOutcome {
        match code {
            Some(code) => TxOutcome::Rejected { code },
            None => TxOutcome::Failed,
        }
    }

    /// Whether the transaction counts as broadcast: the node took it, or
    /// already knew it.
    pub open spec fn settles(self) -> bool {
        match self {
            TxOutcome::Accepted => true,
            TxOutcome::Rejected { code } => code == ALREADY_KNOWN,
            TxOutcome::Failed => false,
        }
    }

    /// What is done with a transaction that got this outcome.
    pub open spec fn disposition(self) -> Disposition {
        if self.settles() {
            Disposition::MarkBroadcasted
        } else {
            Disposition::LeavePending
        }
    }

    /// The outcome of a request that ended in an error, given the response
    /// code that the error holds, if it holds one.
    pub fn from_code(code: Option<i32>) -> (outcome: TxOutcome)
        ensures
            outcome == Self::of_code(code),
    {
        match code {
            Some(code) => TxOutcome::Rejected { code },
            None => TxOutcome::Failed,
        }
    }

    /// The outcome that an error of the RPC client stands for: a rejection
    /// with the node's code where the error is an error response of the
    /// node, a failure without code otherwise.
    pub fn from_rpc_error(error: &Error) -> (outcome: TxOutcome)
        ensures
            outcome == Self::of_code(response_code(*error)),
    {
        Self::from_code(read_response_code(error))
    }

    /// Decides whether a transaction with this outcome is marked as
    /// broadcasted or stays pending. It is marked after a success and after
    /// the error code [`ALREADY_KNOWN`], and stays pending after anything
    /// else.
    pub fn classify(&self) -> (disposition: Disposition)
        ensures
            disposition == self.disposition(),
            disposition is MarkBroadcasted <==> *self == TxOutcome::Accepted || *self == (
            TxOutcome::Rejected { code: ALREADY_KNOWN }),
    {
        match self {
            TxOutcome::Accepted => Disposition::MarkBroadcasted,
            TxOutcome::Rejected { code } => {
                if *code == ALREADY_KNOWN {
                    Disposition::MarkBroadcasted
                } else {
                    Disposition::LeavePending
                }
            },
            TxOutcome::Failed => Disposition::LeavePending,
        }
    }
}

} // verus!
