use anoma_client::dispatch::{
    commit_outcome, node_request, prepare_tx, query_outcome, DispatchMode, NodeRequest, Verdict,
};
use anoma_client::error::ClientError;
use anoma_client::hexdata::decode_data;
use anoma_client::tx::Transaction;

fn verdict(code: u32, log: &str) -> Verdict {
    Verdict { code, log: log.to_string() }
}

#[test]
fn dry_run_builds_read_only_query() {
    let req = prepare_tx(vec![1, 2], None, DispatchMode::DryRun).unwrap();
    assert!(!req.mutates());
    match req {
        NodeRequest::AbciQuery { path, data, prove } => {
            assert_eq!(path, "dry_run_tx");
            assert_eq!(data, vec![0x0a, 2, 1, 2]);
            assert!(!prove);
        }
        other => panic!("unexpected request {:?}", other),
    }
}

#[test]
fn dry_run_twice_gives_same_request() {
    let a = prepare_tx(vec![3], Some("0102"), DispatchMode::DryRun).unwrap();
    let b = prepare_tx(vec![3], Some("0102"), DispatchMode::DryRun).unwrap();
    assert_eq!(format!("{:?}", a), format!("{:?}", b));
    assert!(!a.mutates() && !b.mutates());
}

#[test]
fn commit_builds_broadcast() {
    let req = prepare_tx(vec![1], Some("aBcD"), DispatchMode::Commit).unwrap();
    assert!(req.mutates());
    match req {
        NodeRequest::BroadcastTxCommit { tx } => {
            assert_eq!(tx, vec![0x0a, 1, 1, 0x12, 2, 0xab, 0xcd]);
            let back = Transaction::decode(&tx).unwrap();
            assert_eq!(back.data, Some(vec![0xab, 0xcd]));
        }
        other => panic!("unexpected request {:?}", other),
    }
}

#[test]
fn node_request_per_mode() {
    assert!(matches!(
        node_request(vec![1], DispatchMode::Commit),
        NodeRequest::BroadcastTxCommit { .. }
    ));
    assert!(matches!(
        node_request(vec![1], DispatchMode::DryRun),
        NodeRequest::AbciQuery { .. }
    ));
}

#[test]
fn invalid_hex_character_is_input_error() {
    let err = prepare_tx(vec![1], Some("zz"), DispatchMode::Commit).unwrap_err();
    assert!(matches!(err, ClientError::InvalidHex));
    assert!(err.is_input_error());
    assert!(!err.is_rejection());
}

#[test]
fn odd_length_hex_is_input_error() {
    let err = prepare_tx(vec![1], Some("abc"), DispatchMode::DryRun).unwrap_err();
    assert!(matches!(err, ClientError::InvalidHex));
}

#[test]
fn empty_code_is_input_error() {
    let err = prepare_tx(vec![], Some("00"), DispatchMode::Commit).unwrap_err();
    assert!(matches!(err, ClientError::EmptyCode));
    assert!(err.is_input_error());
}

#[test]
fn decode_data_cases() {
    assert_eq!(decode_data(None).unwrap(), None);
    assert_eq!(decode_data(Some("")).unwrap(), Some(vec![]));
    assert_eq!(decode_data(Some("0aFf")).unwrap(), Some(vec![0x0a, 0xff]));
    assert!(matches!(decode_data(Some("g0")), Err(ClientError::InvalidHex)));
    assert!(matches!(decode_data(Some("é0")), Err(ClientError::InvalidHex)));
}

#[test]
fn dry_run_accepted_reply() {
    assert!(query_outcome(&verdict(0, "")).is_ok());
}

#[test]
fn dry_run_rejected_reply() {
    match query_outcome(&verdict(2, "bad code")) {
        Err(ClientError::NodeRejected(reason)) => assert_eq!(reason, "bad code"),
        other => panic!("unexpected {:?}", other),
    }
}

#[test]
fn commit_rejected_with_reason() {
    let err = commit_outcome(&verdict(0, ""), &verdict(1, "invalid signature")).unwrap_err();
    assert!(err.is_rejection());
    match err {
        ClientError::NodeRejected(reason) => assert_eq!(reason, "invalid signature"),
        other => panic!("unexpected {:?}", other),
    }
}

#[test]
fn commit_check_failure_comes_first() {
    match commit_outcome(&verdict(3, "check failed"), &verdict(1, "later")) {
        Err(ClientError::NodeRejected(reason)) => assert_eq!(reason, "check failed"),
        other => panic!("unexpected {:?}", other),
    }
}

#[test]
fn commit_accepted() {
    assert!(commit_outcome(&verdict(0, ""), &verdict(0, "ok")).is_ok());
}

#[test]
fn error_kinds() {
    assert!(ClientError::FileUnreadable("missing.bin".to_string()).is_input_error());
    assert!(!ClientError::Transport("refused".to_string()).is_input_error());
    assert!(!ClientError::Transport("refused".to_string()).is_rejection());
    assert!(ClientError::GossipRejected("no".to_string()).is_rejection());
}
