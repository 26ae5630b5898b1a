use jsonrpc::error::{Error, RpcError};
use spend_broadcaster::outcome::{Disposition, TxOutcome, ALREADY_KNOWN};

fn rpc_error(code: i32) -> Error {
    Error::Rpc(RpcError { code, message: String::from("rejected"), data: None })
}

#[test]
fn already_known_code_is_minus_27() {
    assert_eq!(ALREADY_KNOWN, -27);
}

#[test]
fn accepted_is_marked() {
    assert_eq!(TxOutcome::Accepted.classify(), Disposition::MarkBroadcasted);
}

#[test]
fn already_known_is_marked_like_a_success() {
    let known = TxOutcome::Rejected { code: -27 };
    assert_eq!(known.classify(), Disposition::MarkBroadcasted);
    assert_eq!(known.classify(), TxOutcome::Accepted.classify());
}

#[test]
fn other_codes_leave_pending() {
    for code in [-25, -26, -28, -1, 0, 1, 27, i32::MIN, i32::MAX] {
        assert_eq!(TxOutcome::Rejected { code }.classify(), Disposition::LeavePending);
    }
}

#[test]
fn failure_without_code_leaves_pending() {
    assert_eq!(TxOutcome::Failed.classify(), Disposition::LeavePending);
}

#[test]
fn from_code_keeps_the_code() {
    assert_eq!(TxOutcome::from_code(Some(-27)), TxOutcome::Rejected { code: -27 });
    assert_eq!(TxOutcome::from_code(Some(-25)), TxOutcome::Rejected { code: -25 });
    assert_eq!(TxOutcome::from_code(Some(0)), TxOutcome::Rejected { code: 0 });
    assert_eq!(TxOutcome::from_code(None), TxOutcome::Failed);
}

#[test]
fn rpc_error_response_gives_its_code() {
    assert_eq!(TxOutcome::from_rpc_error(&rpc_error(-27)), TxOutcome::Rejected { code: -27 });
    assert_eq!(TxOutcome::from_rpc_error(&rpc_error(-25)), TxOutcome::Rejected { code: -25 });
    assert_eq!(TxOutcome::from_rpc_error(&rpc_error(-32603)), TxOutcome::Rejected { code: -32603 });
}

#[test]
fn rpc_error_already_known_is_marked() {
    let outcome = TxOutcome::from_rpc_error(&rpc_error(-27));
    assert_eq!(outcome.classify(), Disposition::MarkBroadcasted);
    let outcome = TxOutcome::from_rpc_error(&rpc_error(-26));
    assert_eq!(outcome.classify(), Disposition::LeavePending);
}

#[test]
fn errors_without_a_response_have_no_code() {
    let transport = Error::Transport(Box::new(std::fmt::Error));
    assert_eq!(TxOutcome::from_rpc_error(&transport), TxOutcome::Failed);
    assert_eq!(TxOutcome::from_rpc_error(&Error::NonceMismatch), TxOutcome::Failed);
    assert_eq!(TxOutcome::from_rpc_error(&Error::VersionMismatch), TxOutcome::Failed);
    assert_eq!(TxOutcome::from_rpc_error(&Error::EmptyBatch), TxOutcome::Failed);
    assert_eq!(TxOutcome::from_rpc_error(&Error::WrongBatchResponseSize), TxOutcome::Failed);
    assert_eq!(TxOutcome::from_rpc_error(&Error::EmptyBatch).classify(), Disposition::LeavePending);
}
