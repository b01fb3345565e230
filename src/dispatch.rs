//! Choosing the node request for a transaction and judging the node's reply.
use vstd::prelude::*;
use crate::error::ClientError;
use crate::hexdata::{decode_data, hex_bytes, is_hex};
use crate::tx::{opt_bytes, tx_encoding, Transaction};

verus! {

/// How a transaction is submitted.
#[derive(Debug, Clone, Copy, PartialEq, Eq, Structural)]
pub enum DispatchMode {
    /// Read-only simulation through a query; no state changes on the node.
    DryRun,
    /// Broadcast that waits for inclusion and execution.
    Commit,
}

/// The one request that a dispatch sends to the node.
#[derive(Debug, Clone)]
pub enum NodeRequest {
    /// An ABCI query at the latest height: path, argument, whether a proof is asked.
    AbciQuery { path: String, data: Vec<u8>, prove: bool },
    /// A broadcast of the encoded transaction that waits for its commit.
    BroadcastTxCommit { tx: Vec<u8> },
}

/// The reply of the node to one check: a result code (zero on success) and
/// the log that explains it.
#[derive(Debug, Clone)]
pub struct Verdict {
    pub code: u32,
    pub log: String,
}

/// Query path reserved by the node for simulated execution.
pub open spec fn dry_run_path() -> Seq<char> {
    "dry_run_tx"@
}

/// `r` is the request that submits the encoded transaction `tx` in `mode`.
pub open spec fn is_request_for(r: NodeRequest, tx: Seq<u8>, mode: DispatchMode) -> bool {
    match mode {
        DispatchMode::DryRun => r matches NodeRequest::AbciQuery { path, data, prove } && path@
            == dry_run_path() && data@ == tx && !prove,
        DispatchMode::Commit => r matches NodeRequest::BroadcastTxCommit { tx: t } && t@ == tx,
    }
}

/// The request can change the node's state.
pub open spec fn spec_mutates(r: NodeRequest) -> bool {
    r is BroadcastTxCommit
}

/// The auxiliary data that an optional hex string denotes.
pub open spec fn data_of(data_hex: Option<&str>) -> Option<Seq<u8>> {
    match data_hex {
        Some(h) => Some(hex_bytes(h@)),
        None => None,
    }
}

/// The optional hex string is absent or valid.
pub open spec fn data_hex_ok(data_hex: Option<&str>) -> bool {
    data_hex matches Some(h) ==> is_hex(h@)
}

impl NodeRequest {
    /// Whether the request can change the node's state.
    pub fn mutates(&self) -> (r: bool)
        ensures
            r == spec_mutates(*self),
    {
        match self {
            NodeRequest::AbciQuery { .. } => false,
            NodeRequest::BroadcastTxCommit { .. } => true,
        }
    }
}

/// The request that submits the encoded transaction in the given mode.
pub fn node_request(tx_bytes: Vec<u8>, mode: DispatchMode) -> (r: NodeRequest)
    ensures
        is_request_for(r, tx_bytes@, mode),
{
    match mode {
        DispatchMode::DryRun => {
            let path = "dry_run_tx".to_owned();
            NodeRequest::AbciQuery { path, data: tx_bytes, prove: false }
        },
        DispatchMode::Commit => NodeRequest::BroadcastTxCommit { tx: tx_bytes },
    }
}

/// Builds the request for a transaction from its code and the optional hex
/// form of its data. Every input error is found here, before any connection.
pub fn prepare_tx(code: Vec<u8>, data_hex: Option<&str>, mode: DispatchMode) -> (r: Result<
    NodeRequest,
    ClientError,
>)
    ensures
        code@.len() == 0 ==> r matches Err(ClientError::EmptyCode),
        code@.len() > 0 && !data_hex_ok(data_hex) ==> r matches Err(ClientError::InvalidHex),
        code@.len() > 0 && data_hex_ok(data_hex) ==> (r matches Ok(req) && is_request_for(
            req,
            tx_encoding(code@, data_of(data_hex)),
            mode,
        )),
{
    if code.len() == 0 {
        return Err(ClientError::EmptyCode);
    }
    let data = match decode_data(data_hex) {
        Ok(d) => d,
        Err(e) => {
            return Err(e);
        },
    };
    assert(opt_bytes(data) == data_of(data_hex));
    let tx = Transaction::new(code, data);
    let bytes = tx.encode();
    Ok(node_request(bytes, mode))
}

/// Judges the reply to a dry-run query: a non-zero code is a rejection that
/// carries the node's log.
pub fn query_outcome(reply: &Verdict) -> (r: Result<(), ClientError>)
    ensures
        reply.code == 0 ==> r is Ok,
        reply.code != 0 ==> (r matches Err(ClientError::NodeRejected(s)) && s@ == reply.log@),
{
    if reply.code == 0 {
        Ok(())
    } else {
        Err(ClientError::NodeRejected(reply.log.clone()))
    }
}

/// Judges the reply to a committed broadcast: the transaction is accepted
/// only if it passed both the admission check and execution; otherwise the
/// first failing stage's log is the reason.
pub fn commit_outcome(check: &Verdict, deliver: &Verdict) -> (r: Result<(), ClientError>)
    ensures
        check.code != 0 ==> (r matches Err(ClientError::NodeRejected(s)) && s@ == check.log@),
        check.code == 0 && deliver.code != 0 ==> (r matches Err(ClientError::NodeRejected(s)) && s@
            == deliver.log@),
        check.code == 0 && deliver.code == 0 ==> r is Ok,
{
    if check.code != 0 {
        Err(ClientError::NodeRejected(check.log.clone()))
    } else if deliver.code != 0 {
        Err(ClientError::NodeRejected(deliver.log.clone()))
    } else {
        Ok(())
    }
}

/// A dry run only ever asks a read-only query, and the same inputs always
/// give the same request, so repeating it cannot change the node's state.
pub proof fn lemma_dry_run_read_only(
    tx: Seq<u8>,
    first: NodeRequest,
    second: NodeRequest,
)
    requires
        is_request_for(first, tx, DispatchMode::DryRun),
        is_request_for(second, tx, DispatchMode::DryRun),
    ensures
        !spec_mutates(first),
        !spec_mutates(second),
        first is AbciQuery && second is AbciQuery,
        first->AbciQuery_path@ == second->AbciQuery_path@,
        first->AbciQuery_data@ == second->AbciQuery_data@,
        first->AbciQuery_prove == second->AbciQuery_prove,
{
}

} // verus!
