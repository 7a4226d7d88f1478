//! The network layer's types and rules: transport errors, the wire forms of
//! sync and file operations, and how they become the engine's types.
use vstd::prelude::*;
use crate::numfmt::{decimal, push_decimal};
use crate::parse_error::concat_str;
use crate::sync_engine::{PullResult, PushOpPayload, RemoteOp, SyncError};
use crate::file_sync::{RemoteFileInfo as SyncRemoteFileInfo, UploadSession};
use crate::text::{chars_of, string_from_range};

verus! {

/// Transport-level errors.
#[derive(Debug)]
pub enum TransportError {
    ConnectionFailed(String),
    Timeout,
    ServerError { status_code: u16, message: String },
    Unauthorized,
    DeserializationError(String),
    Unknown(String),
}

/// The human-readable message of a transport error.
pub open spec fn transport_error_message(e: TransportError) -> Seq<char> {
    match e {
        TransportError::ConnectionFailed(s) => "Connection failed: "@ + s@,
        TransportError::Timeout => "Request timeout"@,
        TransportError::ServerError { status_code, message } => "Server error: "@ + decimal(status_code as nat)
            + " - "@ + message@,
        TransportError::Unauthorized => "Unauthorized"@,
        TransportError::DeserializationError(s) => "Deserialization error: "@ + s@,
        TransportError::Unknown(s) => "Unknown transport error: "@ + s@,
    }
}

impl TransportError {
    /// The error's message, as its `Display` form reads.
    pub fn message(&self) -> (m: String)
        ensures
            m@ == transport_error_message(*self),
    {
        match self {
            TransportError::ConnectionFailed(s) => concat_str("Connection failed: ", s.as_str()),
            TransportError::Timeout => String::from_str("Request timeout"),
            TransportError::ServerError { status_code, message } => {
                let mut m = String::from_str("Server error: ");
                push_decimal(&mut m, *status_code as u128);
                m.append(" - ");
                m.append(message.as_str());
                m
            },
            TransportError::Unauthorized => String::from_str("Unauthorized"),
            TransportError::DeserializationError(s) => concat_str("Deserialization error: ", s.as_str()),
            TransportError::Unknown(s) => concat_str("Unknown transport error: ", s.as_str()),
        }
    }
}

/// The sync error a transport error becomes: an authorization refusal means
/// the user is not authenticated; anything else is a transport failure
/// carrying the error's message.
pub fn map_transport_error_to_sync_error(err: TransportError) -> (e: SyncError)
    ensures
        err is Unauthorized ==> e is NotAuthenticated,
        !(err is Unauthorized) ==> (e matches SyncError::Transport(m) && m@ == transport_error_message(err)),
{
    match err {
        TransportError::Unauthorized => SyncError::NotAuthenticated,
        other => SyncError::Transport(other.message()),
    }
}

/// The transport error for an unsuccessful response: 401 is a refusal of
/// authorization, 408 a timeout, anything else a server error.
pub fn transport_error_from_status(status: u16, message: String) -> (e: TransportError)
    ensures
        status == 401 ==> e is Unauthorized,
        status == 408 ==> e is Timeout,
        status != 401 && status != 408 ==> e == (TransportError::ServerError { status_code: status, message }),
{
    if status == 401 {
        TransportError::Unauthorized
    } else if status == 408 {
        TransportError::Timeout
    } else {
        TransportError::ServerError { status_code: status, message }
    }
}

/// An operation in the push request body.
#[derive(Debug, Clone)]
pub struct PushOperation {
    pub op_id: String,
    pub op_type: String,
    pub op_data: String,
    pub hlc_ts: i64,
}

/// The server's answer to a push.
#[derive(Debug, Clone)]
pub struct SyncPushResponse {
    pub accepted_count: usize,
    pub server_timestamp: String,
}

/// An operation in the server's answer to a pull.
#[derive(Debug, Clone)]
pub struct PulledOperation {
    pub server_seq: i64,
    pub op_id: String,
    pub op_type: String,
    pub op_data: String,
    pub hlc_ts: i64,
    pub device_id: String,
    pub created_at: String,
}

/// The server's answer to a pull.
#[derive(Debug, Clone)]
pub struct SyncPullResponse {
    pub operations: Vec<PulledOperation>,
    pub next_cursor: i64,
    pub has_more: bool,
}

/// The server's answer to an upload start.
#[derive(Debug, Clone)]
pub struct UploadInitResponse {
    pub upload_id: String,
    pub chunk_size: i64,
    pub total_chunks: i64,
}

/// The server's answer to an uploaded chunk.
#[derive(Debug, Clone)]
pub struct UploadChunkResponse {
    pub chunk_index: i64,
    pub received_bytes: i64,
}

/// The server's answer to a completed upload.
#[derive(Debug, Clone)]
pub struct UploadCompleteResponse {
    pub file_id: String,
    pub file_name: String,
    pub file_size: i64,
    pub sha256: String,
}

/// A file stored on the server.
#[derive(Debug, Clone)]
pub struct RemoteFileInfo {
    pub file_id: String,
    pub file_name: String,
    pub file_size: i64,
    pub sha256: String,
    pub created_at: String,
}

/// The push body entry for an engine payload: its fields without the device id.
pub fn push_operation_of(op: &PushOpPayload) -> (p: PushOperation)
    ensures
        p.op_id == op.op_id,
        p.op_type == op.op_type,
        p.op_data == op.op_data,
        p.hlc_ts == op.hlc_ts,
{
    PushOperation {
        op_id: op.op_id.clone(),
        op_type: op.op_type.clone(),
        op_data: op.op_data.clone(),
        hlc_ts: op.hlc_ts,
    }
}

/// The push body for a batch of engine payloads, in order.
pub fn push_operations_of(ops: &Vec<PushOpPayload>) -> (r: Vec<PushOperation>)
    ensures
        r.len() == ops.len(),
        forall|i: int|
            0 <= i < ops.len() ==> (#[trigger] r[i]).op_id == ops[i].op_id && r[i].op_type == ops[i].op_type
                && r[i].op_data == ops[i].op_data && r[i].hlc_ts == ops[i].hlc_ts,
{
    let mut out: Vec<PushOperation> = Vec::new();
    let mut k: usize = 0;
    while k < ops.len()
        invariant
            k <= ops.len(),
            out.len() == k,
            forall|i: int|
                0 <= i < k ==> (#[trigger] out[i]).op_id == ops[i].op_id && out[i].op_type == ops[i].op_type
                    && out[i].op_data == ops[i].op_data && out[i].hlc_ts == ops[i].hlc_ts,
        decreases ops.len() - k,
    {
        out.push(push_operation_of(&ops[k]));
        k = k + 1;
    }
    out
}

/// The engine's operation for a pulled one: its fields without the creation time.
pub open spec fn remote_op_of(p: PulledOperation) -> RemoteOp {
    RemoteOp {
        server_seq: p.server_seq,
        op_id: p.op_id,
        op_type: p.op_type,
        op_data: p.op_data,
        hlc_ts: p.hlc_ts,
        device_id: p.device_id,
    }
}

/// The engine's view of a pull answer: the operations in order, with the
/// server's cursor and more-flag.
pub fn pull_result_of(resp: SyncPullResponse) -> (r: PullResult)
    ensures
        r.next_cursor == resp.next_cursor,
        r.has_more == resp.has_more,
        r.operations.len() == resp.operations.len(),
        forall|i: int| 0 <= i < r.operations.len() ==> (#[trigger] r.operations[i]) == remote_op_of(resp.operations[i]),
{
    let mut ops: Vec<RemoteOp> = Vec::new();
    let mut k: usize = 0;
    while k < resp.operations.len()
        invariant
            k <= resp.operations.len(),
            ops.len() == k,
            forall|i: int| 0 <= i < k ==> (#[trigger] ops[i]) == remote_op_of(resp.operations[i]),
        decreases resp.operations.len() - k,
    {
        let p = &resp.operations[k];
        ops.push(RemoteOp {
            server_seq: p.server_seq,
            op_id: p.op_id.clone(),
            op_type: p.op_type.clone(),
            op_data: p.op_data.clone(),
            hlc_ts: p.hlc_ts,
            device_id: p.device_id.clone(),
        });
        k = k + 1;
    }
    PullResult { operations: ops, next_cursor: resp.next_cursor, has_more: resp.has_more }
}

/// The engine's upload session for the server's upload start.
pub fn upload_session_of(resp: UploadInitResponse) -> (s: UploadSession)
    ensures
        s.upload_id == resp.upload_id,
        s.chunk_size == resp.chunk_size,
        s.total_chunks == resp.total_chunks,
{
    UploadSession { upload_id: resp.upload_id, chunk_size: resp.chunk_size, total_chunks: resp.total_chunks }
}

/// The file sync's record of a remote file: its fields without the creation time.
pub fn sync_file_info_of(f: RemoteFileInfo) -> (r: SyncRemoteFileInfo)
    ensures
        r.file_id == f.file_id,
        r.file_name == f.file_name,
        r.file_size == f.file_size,
        r.sha256 == f.sha256,
{
    SyncRemoteFileInfo { file_id: f.file_id, file_name: f.file_name, file_size: f.file_size, sha256: f.sha256 }
}

/// Adapter that lets the sync engine push and pull through a sync transport.
pub struct NetworkSyncAdapter<T> {
    pub transport: T,
}

impl<T> NetworkSyncAdapter<T> {
    pub fn new(transport: T) -> (a: Self)
        ensures
            a.transport == transport,
    {
        NetworkSyncAdapter { transport }
    }
}

/// Adapter that lets the file sync engine move files through a file transport.
pub struct NetworkFileAdapter<T> {
    pub transport: T,
}

impl<T> NetworkFileAdapter<T> {
    pub fn new(transport: T) -> (a: Self)
        ensures
            a.transport == transport,
    {
        NetworkFileAdapter { transport }
    }
}

/// A base URL without its trailing slashes (`trim_end_matches('/')`).
pub open spec fn trimmed_base_url(s: Seq<char>) -> Seq<char>
    decreases s.len(),
{
    if s.len() > 0 && s.last() == '/' {
        trimmed_base_url(s.drop_last())
    } else {
        s
    }
}

/// Drops the trailing slashes of a base URL.
pub fn trim_base_url(base_url: &str) -> (r: String)
    ensures
        r@ == trimmed_base_url(base_url@),
{
    let s = chars_of(base_url);
    let mut end = s.len();
    assert(s@.subrange(0, end as int) == s@);
    while end > 0 && s[end - 1] == '/'
        invariant
            end <= s.len(),
            trimmed_base_url(s@.subrange(0, end as int)) == trimmed_base_url(s@),
        decreases end,
    {
        assert(s@.subrange(0, end - 1) == s@.subrange(0, end as int).drop_last());
        end = end - 1;
    }
    assert(end > 0 ==> s@.subrange(0, end as int).last() != '/');
    string_from_range(&s, 0, end)
}

/// The URL of an endpoint: the base URL followed by the endpoint's path.
pub fn endpoint_url(base_url: &str, path: &str) -> (r: String)
    ensures
        r@ == base_url@ + path@,
{
    concat_str(base_url, path)
}

} // verus!
