//! The sync engine: pushing local operations and pulling remote ones, with
//! the hybrid logical clock kept up to date and last-writer-wins resolution.
//!
//! Storage is reached through [`SyncStorage`]. Its methods take `&self`, so
//! the engine keeps a ghost record of every exchange with it (the request as
//! handed over and the answer), and the contracts say what was asked in
//! which order. The network exchanges happen outside the engine, which
//! prepares each request and takes each reply.
use vstd::prelude::*;
use crate::hlc::{HlcTimestamp, clock_lt, merge_fits, merged, tick_fits, ticked};
use crate::numfmt::{i64_to_string, parse_i64, parse_i64_str, signed_decimal};
use crate::parse_error::concat_str;

verus! {

/// Sync engine error types.
#[derive(Debug)]
pub enum SyncError {
    Storage(String),
    Transport(String),
    NotAuthenticated,
    ConflictResolution(String),
    Serialization(String),
}

impl Clone for SyncError {
    fn clone(&self) -> (r: Self)
        ensures
            r == *self,
    {
        match self {
            SyncError::Storage(s) => SyncError::Storage(s.clone()),
            SyncError::Transport(s) => SyncError::Transport(s.clone()),
            SyncError::NotAuthenticated => SyncError::NotAuthenticated,
            SyncError::ConflictResolution(s) => SyncError::ConflictResolution(s.clone()),
            SyncError::Serialization(s) => SyncError::Serialization(s.clone()),
        }
    }
}

/// The human-readable message of a sync error.
pub open spec fn sync_error_message(e: SyncError) -> Seq<char> {
    match e {
        SyncError::Storage(s) => "Storage error: "@ + s@,
        SyncError::Transport(s) => "Transport error: "@ + s@,
        SyncError::NotAuthenticated => "Not authenticated"@,
        SyncError::ConflictResolution(s) => "Conflict resolution error: "@ + s@,
        SyncError::Serialization(s) => "Serialization error: "@ + s@,
    }
}

impl SyncError {
    /// The error's message, as its `Display` form reads.
    pub fn message(&self) -> (m: String)
        ensures
            m@ == sync_error_message(*self),
    {
        match self {
            SyncError::Storage(s) => concat_str("Storage error: ", s.as_str()),
            SyncError::Transport(s) => concat_str("Transport error: ", s.as_str()),
            SyncError::NotAuthenticated => String::from_str("Not authenticated"),
            SyncError::ConflictResolution(s) => concat_str("Conflict resolution error: ", s.as_str()),
            SyncError::Serialization(s) => concat_str("Serialization error: ", s.as_str()),
        }
    }
}

/// An unsynced operation from local storage.
#[derive(Debug)]
pub struct UnsyncedOp {
    pub local_id: i64,
    pub op_id: String,
    pub op_type: String,
    pub op_data: String,
    pub hlc_ts: u64,
    pub device_id: String,
}

/// A remote operation received from the server.
#[derive(Debug)]
pub struct RemoteOp {
    pub server_seq: i64,
    pub op_id: String,
    pub op_type: String,
    pub op_data: String,
    pub hlc_ts: i64,
    pub device_id: String,
}

/// Payload for pushing an operation.
#[derive(Debug)]
pub struct PushOpPayload {
    pub op_id: String,
    pub op_type: String,
    pub op_data: String,
    pub hlc_ts: i64,
    pub device_id: String,
}

/// Result of a pull operation.
#[derive(Debug)]
pub struct PullResult {
    pub operations: Vec<RemoteOp>,
    pub next_cursor: i64,
    pub has_more: bool,
}

/// Local storage operations needed by the sync engine; implemented by the
/// platform's database layer.
pub trait SyncStorage {
    /// Get unsynced operations.
    fn get_unsynced_ops(&self) -> Result<Vec<UnsyncedOp>, SyncError>;

    /// Mark operations as synced by their local IDs.
    fn mark_ops_synced(&self, local_ids: &[i64]) -> Result<(), SyncError>;

    /// Get a sync metadata value by key.
    fn get_sync_meta(&self, key: &str) -> Result<Option<String>, SyncError>;

    /// Set a sync metadata value.
    fn set_sync_meta(&self, key: &str, value: &str) -> Result<(), SyncError>;

    /// Apply a remote operation to local storage. Returns true if the
    /// operation was applied (not a duplicate or a conflict loser).
    fn apply_remote_op(&self, op: &RemoteOp) -> Result<bool, SyncError>;
}

/// The most operations sent in one push request.
pub const PUSH_BATCH_SIZE: usize = 500;

/// The most operations asked for in one pull request.
pub const PULL_PAGE_SIZE: i64 = 100;

/// Reads the system clock as milliseconds since the Unix epoch
/// (`SystemTime::now().duration_since(UNIX_EPOCH)`, zero for a clock set
/// before the epoch). What it reads is the machine's and is not stated.
#[verifier::external_body]
pub(crate) fn current_time_ms() -> u64 {
    std::time::SystemTime::now().duration_since(std::time::UNIX_EPOCH).unwrap_or_default().as_millis() as u64
}

/// The payload that pushes `op`: its fields, with the timestamp as `i64`.
pub open spec fn payload_of(op: UnsyncedOp) -> PushOpPayload {
    PushOpPayload {
        op_id: op.op_id,
        op_type: op.op_type,
        op_data: op.op_data,
        hlc_ts: op.hlc_ts as i64,
        device_id: op.device_id,
    }
}

/// The payload that pushes `op`.
pub fn push_payload(op: &UnsyncedOp) -> (p: PushOpPayload)
    ensures
        p == payload_of(*op),
{
    PushOpPayload {
        op_id: op.op_id.clone(),
        op_type: op.op_type.clone(),
        op_data: op.op_data.clone(),
        hlc_ts: op.hlc_ts as i64,
        device_id: op.device_id.clone(),
    }
}

/// One push request: the payloads and the local ids to mark as synced.
#[derive(Debug)]
pub struct PushBatch {
    pub payloads: Vec<PushOpPayload>,
    pub local_ids: Vec<i64>,
}

/// Whether `b` is the batch for `ops[lo..hi]`.
pub open spec fn batch_covers(b: PushBatch, ops: Seq<UnsyncedOp>, lo: int, hi: int) -> bool {
    &&& b.payloads@.len() == hi - lo
    &&& b.local_ids@.len() == hi - lo
    &&& forall|j: int| 0 <= j < hi - lo ==> #[trigger] b.payloads@[j] == payload_of(ops[lo + j])
    &&& forall|j: int| 0 <= j < hi - lo ==> #[trigger] b.local_ids@[j] == ops[lo + j].local_id
}

/// Whether `batches` split `ops` in order into runs of `PUSH_BATCH_SIZE`
/// (the last run holding the rest).
pub open spec fn batches_of(ops: Seq<UnsyncedOp>, batches: Seq<PushBatch>) -> bool {
    &&& batches.len() == (ops.len() + 499) / 500
    &&& forall|b: int|
        0 <= b < batches.len() ==> batch_covers(
            #[trigger] batches[b],
            ops,
            500 * b,
            if 500 * (b + 1) < ops.len() { 500 * (b + 1) } else { ops.len() as int },
        )
}

/// Whether batches are a plan for pushing some sequence of operations.
pub open spec fn is_push_plan(batches: Seq<PushBatch>) -> bool {
    exists|ops: Seq<UnsyncedOp>| #[trigger] batches_of(ops, batches)
}

fn build_batch(ops: &Vec<UnsyncedOp>, lo: usize, hi: usize) -> (b: PushBatch)
    requires
        lo <= hi <= ops.len(),
    ensures
        batch_covers(b, ops@, lo as int, hi as int),
{
    let mut payloads: Vec<PushOpPayload> = Vec::new();
    let mut local_ids: Vec<i64> = Vec::new();
    let mut k = lo;
    while k < hi
        invariant
            lo <= k <= hi <= ops.len(),
            payloads@.len() == k - lo,
            local_ids@.len() == k - lo,
            forall|j: int| 0 <= j < k - lo ==> #[trigger] payloads@[j] == payload_of(ops@[lo + j]),
            forall|j: int| 0 <= j < k - lo ==> #[trigger] local_ids@[j] == ops@[lo + j].local_id,
        decreases hi - k,
    {
        payloads.push(push_payload(&ops[k]));
        local_ids.push(ops[k].local_id);
        k = k + 1;
    }
    PushBatch { payloads, local_ids }
}

/// Splits unsynced operations into push requests of at most 500 each, in order.
pub fn plan_push_batches(ops: &Vec<UnsyncedOp>) -> (batches: Vec<PushBatch>)
    ensures
        batches_of(ops@, batches@),
{
    let n = ops.len();
    let mut batches: Vec<PushBatch> = Vec::new();
    let mut lo: usize = 0;
    while lo < n
        invariant
            lo <= n == ops.len(),
            lo == (if 500 * batches.len() < n { 500 * batches.len() } else { n as int }),
            batches.len() > 0 ==> 500 * (batches.len() - 1) < n,
            forall|b: int|
                0 <= b < batches.len() ==> batch_covers(
                    #[trigger] batches@[b],
                    ops@,
                    500 * b,
                    if 500 * (b + 1) < ops@.len() { 500 * (b + 1) } else { ops@.len() as int },
                ),
        decreases n - lo,
    {
        assert(lo == 500 * batches.len());
        let hi = if n - lo > PUSH_BATCH_SIZE { lo + PUSH_BATCH_SIZE } else { n };
        let batch = build_batch(ops, lo, hi);
        batches.push(batch);
        lo = hi;
    }
    assert(batches.len() == (n + 499) / 500) by (nonlinear_arith)
        requires
            500 * batches.len() >= n,
            batches.len() == 0 || 500 * (batches.len() - 1) < n,
    {}
    batches
}

/// The pull cursor stored under the cursor key: its value when it parses as
/// an `i64`, else 0 (also when there is none).
pub open spec fn cursor_from(meta: Option<Seq<char>>) -> i64 {
    match meta {
        Some(s) => match parse_i64(s) {
            Some(v) => v as i64,
            None => 0,
        },
        None => 0,
    }
}

/// The push requests for the storage's answer to a request for the pending
/// operations: the operations split in order into batches of at most 500,
/// or the storage's error.
pub fn batches_for(loaded: Result<Vec<UnsyncedOp>, SyncError>) -> (r: Result<Vec<PushBatch>, SyncError>)
    ensures
        match loaded {
            Ok(ops) => r matches Ok(b) && batches_of(ops@, b@) && forall|i: int|
                0 <= i < b.len() ==> 0 < (#[trigger] b[i]).payloads@.len() <= 500,
            Err(e) => r == Err::<Vec<PushBatch>, SyncError>(e),
        },
        r matches Ok(b) ==> is_push_plan(b@),
{
    let ops = match loaded {
        Ok(o) => o,
        Err(e) => return Err(e),
    };
    let batches = plan_push_batches(&ops);
    assert(is_push_plan(batches@));
    proof {
        assert forall|i: int| 0 <= i < batches.len() implies 0 < (#[trigger] batches@[i]).payloads@.len() <= 500 by {
            assert(batch_covers(
                batches@[i],
                ops@,
                500 * i,
                if 500 * (i + 1) < ops@.len() { 500 * (i + 1) } else { ops@.len() as int },
            ));
            assert(500 * i < ops@.len()) by (nonlinear_arith)
                requires
                    0 <= i < batches@.len(),
                    batches@.len() == (ops@.len() + 499) / 500,
            {}
        }
    }
    Ok(batches)
}

/// The pull cursor for the storage's answer to a request for the stored
/// cursor: the cursor the stored text stands for (0 when there is none or it
/// is no number), or the storage's error.
pub fn pull_cursor_of(loaded: Result<Option<String>, SyncError>) -> (r: Result<i64, SyncError>)
    ensures
        match loaded {
            Ok(meta) => r == Ok::<i64, SyncError>(cursor_from(match meta {
                Some(s) => Some(s@),
                None => None,
            })),
            Err(e) => r == Err::<i64, SyncError>(e),
        },
{
    match loaded {
        Ok(meta) => Ok(cursor_from_meta(&meta)),
        Err(e) => Err(e),
    }
}

/// The pull cursor that a stored metadata value stands for.
pub fn cursor_from_meta(meta: &Option<String>) -> (c: i64)
    ensures
        c == cursor_from(match meta {
            Some(s) => Some(s@),
            None => None,
        }),
{
    match meta {
        Some(s) => match parse_i64_str(s.as_str()) {
            Some(v) => v,
            None => 0,
        },
        None => 0,
    }
}

/// Where a pull stands after one page.
#[derive(Debug, Clone, Copy)]
pub struct PullStep {
    /// The cursor to ask from next.
    pub cursor: i64,
    /// The operations applied so far.
    pub applied: usize,
    /// Whether another page should be asked for.
    pub more: bool,
}

/// Whether the clock `b` is not behind the clock `a`.
pub open spec fn clock_le(a: HlcTimestamp, b: HlcTimestamp) -> bool {
    clock_lt(a, b) || (a.wall_time_ms == b.wall_time_ms && a.counter == b.counter)
}

/// The positions, from `i` on and in order, of the operations that come
/// from a device other than `device`.
pub open spec fn remote_positions_from(ops: Seq<RemoteOp>, device: Seq<char>, i: int) -> Seq<int>
    decreases ops.len() - i,
{
    if i < 0 || i >= ops.len() {
        Seq::empty()
    } else if ops[i].device_id@ != device {
        seq![i] + remote_positions_from(ops, device, i + 1)
    } else {
        remote_positions_from(ops, device, i + 1)
    }
}

/// The positions of a page's operations that are applied locally: those
/// from other devices, in server order.
pub open spec fn remote_positions(ops: Seq<RemoteOp>, device: Seq<char>) -> Seq<int> {
    remote_positions_from(ops, device, 0)
}

pub proof fn lemma_remote_positions_from(ops: Seq<RemoteOp>, device: Seq<char>, i: int)
    requires
        0 <= i,
    ensures
        remote_positions_from(ops, device, i).len() <= if i < ops.len() { ops.len() - i } else { 0 },
        forall|k: int|
            0 <= k < remote_positions_from(ops, device, i).len() ==> i <= #[trigger] remote_positions_from(
                ops,
                device,
                i,
            )[k] < ops.len(),
    decreases ops.len() - i,
{
    if i < ops.len() {
        lemma_remote_positions_from(ops, device, i + 1);
        let rest = remote_positions_from(ops, device, i + 1);
        if ops[i].device_id@ != device {
            let all = remote_positions_from(ops, device, i);
            assert forall|k: int| 0 <= k < all.len() implies i <= #[trigger] all[k] < ops.len() by {
                if k > 0 {
                    assert(all[k] == rest[k - 1]);
                }
            }
        }
    }
}

/// The position of the first failure among the storage's answers from `j`
/// on, or their number when none failed.
pub open spec fn first_failure(rs: Seq<Result<bool, SyncError>>, j: int) -> int
    decreases rs.len() - j,
{
    if j < 0 || j >= rs.len() {
        rs.len() as int
    } else if rs[j] is Err {
        j
    } else {
        first_failure(rs, j + 1)
    }
}

/// How many of the first `n` answers say that the operation was applied.
pub open spec fn count_applied(rs: Seq<Result<bool, SyncError>>, n: int) -> nat
    decreases n,
{
    if n <= 0 {
        0
    } else {
        count_applied(rs, n - 1) + if rs[n - 1] == Ok::<bool, SyncError>(true) { 1nat } else { 0nat }
    }
}

proof fn lemma_count_applied_le(rs: Seq<Result<bool, SyncError>>, n: int)
    requires
        0 <= n,
    ensures
        count_applied(rs, n) <= n,
    decreases n,
{
    if n > 0 {
        lemma_count_applied_le(rs, n - 1);
    }
}

proof fn lemma_first_failure_bounds(rs: Seq<Result<bool, SyncError>>, j: int)
    requires
        0 <= j,
    ensures
        j <= rs.len() ==> j <= first_failure(rs, j) <= rs.len(),
        first_failure(rs, j) < rs.len() ==> rs[first_failure(rs, j)] is Err,
        forall|k: int| j <= k < first_failure(rs, j) ==> #[trigger] rs[k] is Ok,
    decreases rs.len() - j,
{
    if j < rs.len() && rs[j] is Ok {
        lemma_first_failure_bounds(rs, j + 1);
    }
}

/// The cursor that covers a page's operations before position `i`: the
/// server sequence of the one just before, or `cursor` when `i` is the first.
pub open spec fn cursor_before(ops: Seq<RemoteOp>, cursor: i64, i: int) -> i64 {
    if i <= 0 { cursor } else { ops[i - 1].server_seq }
}

/// The message of the error that stops a pull when an operation fails to apply.
pub open spec fn pull_stopped_message() -> Seq<char> {
    "Pull stopped: failed to apply remote operation"@
}

/// Whether `rs` can be the storage's answers to applying the planned
/// operations of a page one after the other: one answer per operation, in
/// order, until the first failure, which ends them.
pub open spec fn answers_fit(rs: Seq<Result<bool, SyncError>>, planned: int) -> bool {
    &&& rs.len() <= planned
    &&& first_failure(rs, 0) >= rs.len() - 1
    &&& rs.len() < planned ==> first_failure(rs, 0) == rs.len() - 1
}

/// What a page gives once the storage has answered `rs` for its planned
/// operations: when one failed, the storage error that stops the pull and
/// the cursor up to the operation before the failed one; else the server's
/// next cursor, the count of applied operations, and whether more follow.
pub open spec fn page_result(
    page: PullResult,
    device: Seq<char>,
    cursor: i64,
    applied: int,
    rs: Seq<Result<bool, SyncError>>,
    r: Result<PullStep, (SyncError, i64)>,
) -> bool {
    let f = first_failure(rs, 0);
    if f < rs.len() {
        r matches Err((e, c)) && e matches SyncError::Storage(m) && m@ == pull_stopped_message() && c
            == cursor_before(page.operations@, cursor, remote_positions(page.operations@, device)[f])
    } else {
        r == Ok::<PullStep, (SyncError, i64)>(
            PullStep { cursor: page.next_cursor, applied: (applied + count_applied(rs, rs.len() as int)) as usize, more: page.has_more },
        )
    }
}

/// The positions of the page's operations to apply locally: those from
/// devices other than `device`, in server order.
pub fn pull_page_plan(page: &PullResult, device: &str) -> (plan: Vec<usize>)
    ensures
        plan@.map_values(|i: usize| i as int) == remote_positions(page.operations@, device@),
{
    let ops = &page.operations;
    let n = ops.len();
    let mut plan: Vec<usize> = Vec::new();
    let mut i: usize = 0;
    while i < n
        invariant
            i <= n == ops@.len(),
            ops@ == page.operations@,
            remote_positions(ops@, device@) == plan@.map_values(|i: usize| i as int) + remote_positions_from(
                ops@,
                device@,
                i as int,
            ),
        decreases n - i,
    {
        let ghost before = plan@;
        if !crate::text::vec_eq_str(&crate::text::chars_of(ops[i].device_id.as_str()), device) {
            plan.push(i);
            assert(plan@.map_values(|i: usize| i as int) == before.map_values(|i: usize| i as int) + seq![
                i as int,
            ]);
        }
        i = i + 1;
    }
    assert(plan@.map_values(|i: usize| i as int) + Seq::<int>::empty() == plan@.map_values(|i: usize| i as int));
    plan
}

/// Takes the storage's answers for a page's planned operations (applied in
/// order until the first failure) and gives the page's result: on the first
/// failed answer, the storage error that stops the pull together with the
/// cursor to save, which covers the operations before the failed one (own
/// operations skipped on the way included); else the step to the server's
/// next cursor with the applied operations counted.
pub fn page_outcome(
    page: &PullResult,
    device: &str,
    cursor: i64,
    applied: usize,
    results: &Vec<Result<bool, SyncError>>,
) -> (r: Result<PullStep, (SyncError, i64)>)
    requires
        results@.len() <= remote_positions(page.operations@, device@).len(),
        applied + results@.len() <= usize::MAX,
    ensures
        page_result(*page, device@, cursor, applied as int, results@, r),
{
    let plan = pull_page_plan(page, device);
    proof {
        lemma_remote_positions_from(page.operations@, device@, 0);
    }
    proof {
        assert forall|k: int| 0 <= k < plan@.len() implies #[trigger] plan@[k] < page.operations@.len() by {
            assert(plan@.map_values(|i: usize| i as int)[k] == plan@[k] as int);
        }
    }
    let mut count = applied;
    let mut j: usize = 0;
    while j < results.len()
        invariant
            j <= results@.len() <= plan@.len(),
            plan@.map_values(|i: usize| i as int) == remote_positions(page.operations@, device@),
            applied + results@.len() <= usize::MAX,
            count == applied + count_applied(results@, j as int),
            first_failure(results@, 0) == first_failure(results@, j as int),
            forall|k: int| 0 <= k < j ==> #[trigger] results@[k] is Ok,
            forall|k: int| 0 <= k < plan@.len() ==> #[trigger] plan@[k] < page.operations@.len(),
        decreases results.len() - j,
    {
        proof {
            lemma_count_applied_le(results@, j as int);
        }
        match &results[j] {
            Ok(true) => {
                count = count + 1;
            },
            Ok(false) => {},
            Err(_) => {
                let i = plan[j];
                assert(plan@.map_values(|i: usize| i as int)[j as int] == i as int);
                let saved = if i == 0 { cursor } else { page.operations[i - 1].server_seq };
                return Err((SyncError::Storage(String::from_str("Pull stopped: failed to apply remote operation")), saved));
            },
        }
        j = j + 1;
    }
    Ok(PullStep { cursor: page.next_cursor, applied: count, more: page.has_more })
}

proof fn lemma_first_failure_at(rs: Seq<Result<bool, SyncError>>, j: int, f: int)
    requires
        0 <= j <= f <= rs.len(),
        forall|k: int| j <= k < f ==> #[trigger] rs[k] is Ok,
        f == rs.len() || rs[f] is Err,
    ensures
        first_failure(rs, j) == f,
    decreases f - j,
{
    if j < f {
        lemma_first_failure_at(rs, j + 1, f);
    }
}

/// The timestamp that a pulled operation carries: its packed `hlc_ts`, read
/// with node id 0.
pub open spec fn remote_stamp(op: RemoteOp) -> HlcTimestamp {
    HlcTimestamp {
        wall_time_ms: ((op.hlc_ts as u64) / 65536) as u64,
        counter: ((op.hlc_ts as u64) % 65536) as u16,
        node_id: 0,
    }
}

/// What a page ends in, from its result and the storage's answer to saving
/// the cursor: the result, unless saving failed, whose error then comes out.
pub open spec fn page_finished(out: Result<PullStep, (SyncError, i64)>, saved: Result<(), SyncError>) -> Result<PullStep, SyncError> {
    match saved {
        Err(e) => Err(e),
        Ok(_) => match out {
            Ok(step) => Ok(step),
            Err(p) => Err(p.0),
        },
    }
}

/// Ends a page: the page's result, unless the storage failed to save the
/// cursor, whose error then comes out instead.
pub fn finish_page(out: Result<PullStep, (SyncError, i64)>, saved: Result<(), SyncError>) -> (r: Result<PullStep, SyncError>)
    ensures
        r == page_finished(out, saved),
{
    match saved {
        Err(e) => Err(e),
        Ok(()) => match out {
            Ok(step) => Ok(step),
            Err((e, _)) => Err(e),
        },
    }
}

/// One exchange of the engine with its storage: the request exactly as it
/// was handed over, and the storage's answer.
pub enum StorageExchange {
    /// `get_unsynced_ops`.
    LoadUnsynced(Result<Vec<UnsyncedOp>, SyncError>),
    /// `mark_ops_synced` with these local ids.
    MarkSynced(Seq<i64>, Result<(), SyncError>),
    /// `get_sync_meta` with this key.
    GetMeta(Seq<char>, Result<Option<String>, SyncError>),
    /// `set_sync_meta` with this key and value.
    SetMeta(Seq<char>, Seq<char>, Result<(), SyncError>),
    /// `apply_remote_op` with this operation.
    ApplyRemote(RemoteOp, Result<bool, SyncError>),
}

/// The key under which the pull cursor is stored.
pub open spec fn pull_cursor_key() -> Seq<char> {
    "sync_pull_cursor"@
}

/// The exchanges that apply the planned operations of a page, one after
/// the other, answered `rs`.
pub open spec fn apply_exchanges(ops: Seq<RemoteOp>, plan: Seq<int>, rs: Seq<Result<bool, SyncError>>) -> Seq<StorageExchange> {
    Seq::new(rs.len(), |k: int| StorageExchange::ApplyRemote(ops[plan[k]], rs[k]))
}

/// The cursor that a page's result saves.
pub open spec fn cursor_to_save(out: Result<PullStep, (SyncError, i64)>) -> i64 {
    match out {
        Ok(step) => step.cursor,
        Err(p) => p.1,
    }
}

/// Whether applying a page from `cursor` on, with `applied` operations
/// applied before, went as follows: the planned operations (those from other
/// devices, in server order) were handed to the storage one after the other
/// and answered `rs`, each first merged into the clock, which ends after all
/// their timestamps; these are the exchanges `ex` with the storage, in that
/// order. Either the clock could not take the next merge (its counter, or
/// the operation's, is at its maximum) and the pull stops with a conflict
/// error, or the page's result `out` was reached, its cursor was saved under
/// the cursor key as decimal text with answer `saved` (the last exchange),
/// and `r` is what they give.
pub open spec fn pull_page_went(
    page: PullResult,
    device: Seq<char>,
    cursor: i64,
    applied: int,
    rs: Seq<Result<bool, SyncError>>,
    out: Result<PullStep, (SyncError, i64)>,
    saved: Result<(), SyncError>,
    ex: Seq<StorageExchange>,
    clock: HlcTimestamp,
    r: Result<PullStep, SyncError>,
) -> bool {
    let plan = remote_positions(page.operations@, device);
    &&& rs.len() <= plan.len()
    &&& first_failure(rs, 0) >= rs.len() - 1
    &&& forall|k: int| 0 <= k < rs.len() ==> clock_lt(remote_stamp(page.operations@[#[trigger] plan[k]]), clock)
    &&& if rs.len() < plan.len() && first_failure(rs, 0) == rs.len() {
        &&& ex == apply_exchanges(page.operations@, plan, rs)
        &&& r matches Err(SyncError::ConflictResolution(m)) && m@ == "HLC counter overflow during merge"@
        &&& (clock.counter == u16::MAX || remote_stamp(page.operations@[plan[rs.len() as int]]).counter == u16::MAX)
    } else {
        &&& page_result(page, device, cursor, applied, rs, out)
        &&& ex == apply_exchanges(page.operations@, plan, rs).push(
            StorageExchange::SetMeta(pull_cursor_key(), signed_decimal(cursor_to_save(out) as int), saved),
        )
        &&& r == page_finished(out, saved)
    }
}

/// What the pull cursor is for the storage's answer to reading it.
pub open spec fn cursor_answer(a: Result<Option<String>, SyncError>) -> Result<i64, SyncError> {
    match a {
        Ok(meta) => Ok(cursor_from(
            match meta {
                Some(s) => Some(s@),
                None => None,
            },
        )),
        Err(e) => Err(e),
    }
}

/// What marking an accepted batch gives for the storage's answer.
pub open spec fn mark_answer(accepted: usize, marked: Result<(), SyncError>, total: usize) -> Result<usize, SyncError> {
    match marked {
        Ok(()) => Ok((total + accepted) as usize),
        Err(e) => Err(e),
    }
}

/// The engine clock rises strictly across calls: a timestamp that the clock
/// has reached (one an earlier tick returned, or a pulled operation's stamp
/// merged into it, which `tick` and `apply_pull_page` leave at or below the
/// clock, and which no later call moves the clock below) comes before the
/// next tick's result, which keeps the clock's node id.
pub proof fn lemma_engine_clock_rises(earlier: HlcTimestamp, clock: HlcTimestamp, now_ms: u64)
    requires
        clock_le(earlier, clock),
        tick_fits(clock, now_ms),
    ensures
        clock_lt(earlier, ticked(clock, now_ms)),
        crate::hlc::hlc_lt(earlier, ticked(clock, now_ms)),
        ticked(clock, now_ms).node_id == clock.node_id,
{
    crate::hlc::lemma_tick_advances(clock, now_ms);
}

/// Takes the storage's answer to marking an accepted batch as synced: once
/// marked, the batch's `accepted` count is added to `total`; a failed mark
/// gives the storage's error.
pub fn push_batch_done(accepted: usize, marked: Result<(), SyncError>, total: usize) -> (r: Result<usize, SyncError>)
    requires
        total + accepted <= usize::MAX,
    ensures
        match marked {
            Ok(()) => r == Ok::<usize, SyncError>((total + accepted) as usize),
            Err(e) => r == Err::<usize, SyncError>(e),
        },
{
    match marked {
        Ok(()) => Ok(total + accepted),
        Err(e) => Err(e),
    }
}

/// The sync engine that coordinates push and pull operations.
pub struct SyncEngine<S: SyncStorage> {
    storage: S,
    local_device_id: String,
    hlc: HlcTimestamp,
    exchanges: Ghost<Seq<StorageExchange>>,
}

impl<S: SyncStorage> SyncEngine<S> {
    /// The engine's clock.
    pub closed spec fn clock(&self) -> HlcTimestamp {
        self.hlc
    }

    /// The id of the device this engine runs on.
    pub closed spec fn device(&self) -> Seq<char> {
        self.local_device_id@
    }

    /// The engine's storage.
    pub closed spec fn store(&self) -> S {
        self.storage
    }

    /// Every exchange the engine has had with its storage, in order.
    pub closed spec fn exchanges(&self) -> Seq<StorageExchange> {
        self.exchanges@
    }

    /// A new engine whose clock starts at `now_ms` with a zero counter.
    pub fn new_at(storage: S, device_id: String, node_id: u32, now_ms: u64) -> (e: Self)
        ensures
            e.clock() == (HlcTimestamp { wall_time_ms: now_ms, counter: 0, node_id }),
            e.device() == device_id@,
            e.store() == storage,
            e.exchanges() == Seq::<StorageExchange>::empty(),
    {
        SyncEngine {
            storage,
            local_device_id: device_id,
            hlc: HlcTimestamp::new(now_ms, node_id),
            exchanges: Ghost(Seq::empty()),
        }
    }

    /// A new engine whose clock starts at the current time.
    pub fn new(storage: S, device_id: String, node_id: u32) -> (e: Self)
        ensures
            e.clock().counter == 0,
            e.clock().node_id == node_id,
            e.device() == device_id@,
            e.store() == storage,
            e.exchanges() == Seq::<StorageExchange>::empty(),
    {
        let now_ms = current_time_ms();
        Self::new_at(storage, device_id, node_id, now_ms)
    }

    /// The engine's storage.
    pub fn storage(&self) -> (s: &S)
        ensures
            *s == self.store(),
    {
        &self.storage
    }

    /// The current clock value.
    pub fn clock_value(&self) -> (t: HlcTimestamp)
        ensures
            t == self.clock(),
    {
        self.hlc
    }

    /// Advance the clock to the wall-clock reading `now_ms` and return it.
    pub fn tick_at(&mut self, now_ms: u64) -> (t: HlcTimestamp)
        requires
            tick_fits(old(self).clock(), now_ms),
        ensures
            t == ticked(old(self).clock(), now_ms),
            final(self).clock() == t,
            final(self).device() == old(self).device(),
            final(self).store() == old(self).store(),
            final(self).exchanges() == old(self).exchanges(),
    {
        self.hlc = self.hlc.tick(now_ms);
        self.hlc
    }

    /// Get the current HLC timestamp and advance the clock: the clock ticked
    /// at the wall-clock reading taken now. The counter must have room to
    /// advance, since the reading is taken inside and the clock may not have
    /// moved.
    pub fn tick(&mut self) -> (t: HlcTimestamp)
        requires
            old(self).clock().counter < u16::MAX,
        ensures
            exists|now_ms: u64| tick_fits(old(self).clock(), now_ms) && t == #[trigger] ticked(old(self).clock(), now_ms),
            t.node_id == old(self).clock().node_id,
            crate::hlc::hlc_lt(old(self).clock(), t),
            final(self).clock() == t,
            final(self).device() == old(self).device(),
            final(self).store() == old(self).store(),
            final(self).exchanges() == old(self).exchanges(),
    {
        let now_ms = current_time_ms();
        let t = self.tick_at(now_ms);
        proof {
            crate::hlc::lemma_tick_advances(old(self).clock(), now_ms);
        }
        t
    }

    /// Get the local device ID.
    pub fn device_id(&self) -> (d: &str)
        ensures
            d@ == self.device(),
    {
        self.local_device_id.as_str()
    }

    /// Asks the storage for the unsynced operations, and records the exchange.
    fn load_unsynced(&mut self) -> (r: Result<Vec<UnsyncedOp>, SyncError>)
        ensures
            final(self).exchanges() == old(self).exchanges().push(StorageExchange::LoadUnsynced(r)),
            final(self).clock() == old(self).clock(),
            final(self).device() == old(self).device(),
            final(self).store() == old(self).store(),
    {
        let r = self.storage.get_unsynced_ops();
        self.exchanges = Ghost(self.exchanges@.push(StorageExchange::LoadUnsynced(r)));
        r
    }

    /// Asks the storage to mark `ids` as synced, and records the exchange.
    fn mark_synced(&mut self, ids: &Vec<i64>) -> (r: Result<(), SyncError>)
        ensures
            final(self).exchanges() == old(self).exchanges().push(StorageExchange::MarkSynced(ids@, r)),
            final(self).clock() == old(self).clock(),
            final(self).device() == old(self).device(),
            final(self).store() == old(self).store(),
    {
        let r = self.storage.mark_ops_synced(ids.as_slice());
        self.exchanges = Ghost(self.exchanges@.push(StorageExchange::MarkSynced(ids@, r)));
        r
    }

    /// Asks the storage for the value under `key`, and records the exchange.
    fn get_meta(&mut self, key: &str) -> (r: Result<Option<String>, SyncError>)
        ensures
            final(self).exchanges() == old(self).exchanges().push(StorageExchange::GetMeta(key@, r)),
            final(self).clock() == old(self).clock(),
            final(self).device() == old(self).device(),
            final(self).store() == old(self).store(),
    {
        let r = self.storage.get_sync_meta(key);
        self.exchanges = Ghost(self.exchanges@.push(StorageExchange::GetMeta(key@, r)));
        r
    }

    /// Asks the storage to store `value` under `key`, and records the exchange.
    fn set_meta(&mut self, key: &str, value: &str) -> (r: Result<(), SyncError>)
        ensures
            final(self).exchanges() == old(self).exchanges().push(StorageExchange::SetMeta(key@, value@, r)),
            final(self).clock() == old(self).clock(),
            final(self).device() == old(self).device(),
            final(self).store() == old(self).store(),
    {
        let r = self.storage.set_sync_meta(key, value);
        self.exchanges = Ghost(self.exchanges@.push(StorageExchange::SetMeta(key@, value@, r)));
        r
    }

    /// Asks the storage to apply `op`, and records the exchange.
    fn apply_remote(&mut self, op: &RemoteOp) -> (r: Result<bool, SyncError>)
        ensures
            final(self).exchanges() == old(self).exchanges().push(StorageExchange::ApplyRemote(*op, r)),
            final(self).clock() == old(self).clock(),
            final(self).device() == old(self).device(),
            final(self).store() == old(self).store(),
    {
        let r = self.storage.apply_remote_op(op);
        self.exchanges = Ghost(self.exchanges@.push(StorageExchange::ApplyRemote(*op, r)));
        r
    }

    /// The pending local operations, split into push requests: one request
    /// to the storage for the unsynced operations, whose answer is split in
    /// order into batches of at most 500.
    pub fn pending_push_batches(&mut self) -> (r: Result<Vec<PushBatch>, SyncError>)
        ensures
            final(self).clock() == old(self).clock(),
            final(self).device() == old(self).device(),
            final(self).store() == old(self).store(),
            final(self).exchanges().len() == old(self).exchanges().len() + 1,
            final(self).exchanges().drop_last() == old(self).exchanges(),
            final(self).exchanges().last() matches StorageExchange::LoadUnsynced(a) && match a {
                Ok(ops) => r matches Ok(b) && batches_of(ops@, b@),
                Err(e) => r == Err::<Vec<PushBatch>, SyncError>(e),
            },
            r matches Ok(b) ==> forall|i: int| 0 <= i < b.len() ==> 0 < (#[trigger] b[i]).payloads@.len() <= 500,
            r matches Ok(b) ==> is_push_plan(b@),
    {
        let loaded = self.load_unsynced();
        let ghost a = loaded;
        let r = batches_for(loaded);
        assert(self.exchanges().drop_last() =~= old(self).exchanges());
        r
    }

    /// Takes the server's answer to one push request: on acceptance the
    /// batch's operations, exactly its local ids, are marked as synced (the
    /// server handles duplicates) and the accepted count is added to `total`;
    /// a refused push is handed back without asking the storage anything.
    pub fn finish_push_batch(&mut self, batch: &PushBatch, accepted: Result<usize, SyncError>, total: usize) -> (r: Result<usize, SyncError>)
        requires
            accepted matches Ok(n) ==> total + n <= usize::MAX,
        ensures
            final(self).clock() == old(self).clock(),
            final(self).device() == old(self).device(),
            final(self).store() == old(self).store(),
            match accepted {
                Err(e) => r == Err::<usize, SyncError>(e) && final(self).exchanges() == old(self).exchanges(),
                Ok(n) => {
                    &&& final(self).exchanges().len() == old(self).exchanges().len() + 1
                    &&& final(self).exchanges().drop_last() == old(self).exchanges()
                    &&& final(self).exchanges().last() matches StorageExchange::MarkSynced(ids, m) && ids
                        == batch.local_ids@ && r == mark_answer(n, m, total)
                },
            },
    {
        let n = match accepted {
            Ok(n) => n,
            Err(e) => return Err(e),
        };
        let marked = self.mark_synced(&batch.local_ids);
        let ghost m = marked;
        let r = push_batch_done(n, marked, total);
        assert(self.exchanges().drop_last() =~= old(self).exchanges());
        r
    }

    /// The cursor to start pulling from: the value stored under the cursor
    /// key read as a number, or 0 when there is none or it is no number.
    pub fn pull_cursor(&mut self) -> (r: Result<i64, SyncError>)
        ensures
            final(self).clock() == old(self).clock(),
            final(self).device() == old(self).device(),
            final(self).store() == old(self).store(),
            final(self).exchanges().len() == old(self).exchanges().len() + 1,
            final(self).exchanges().drop_last() == old(self).exchanges(),
            final(self).exchanges().last() matches StorageExchange::GetMeta(k, a) && k == pull_cursor_key() && r
                == cursor_answer(a),
            r matches Ok(c) ==> exists|m: Option<Seq<char>>| c == cursor_from(m),
    {
        let loaded = self.get_meta("sync_pull_cursor");
        proof {
            reveal_strlit("sync_pull_cursor");
        }
        let ghost a = loaded;
        let r = pull_cursor_of(loaded);
        assert(self.exchanges().drop_last() =~= old(self).exchanges());
        r
    }

    /// Saves the pull cursor under the cursor key, as decimal text.
    fn save_cursor(&mut self, cursor: i64) -> (r: Result<(), SyncError>)
        ensures
            final(self).exchanges() == old(self).exchanges().push(
                StorageExchange::SetMeta(pull_cursor_key(), signed_decimal(cursor as int), r),
            ),
            final(self).clock() == old(self).clock(),
            final(self).device() == old(self).device(),
            final(self).store() == old(self).store(),
    {
        let text = i64_to_string(cursor);
        proof {
            reveal_strlit("sync_pull_cursor");
        }
        self.set_meta("sync_pull_cursor", text.as_str())
    }

    /// Applies one page of pulled operations, from `cursor` on, with
    /// `applied` operations applied before it.
    ///
    /// An empty page ends the pull. Operations from this device are skipped
    /// (the cursor moves past them); every other operation first merges its
    /// timestamp into the clock, then is applied by the storage, which
    /// resolves conflicts. When an operation fails to apply, the cursor up to
    /// the last good operation is saved and the pull stops with a storage
    /// error; after a full page the cursor moves to the server's next cursor
    /// and is saved.
    pub fn apply_pull_page(&mut self, page: &PullResult, cursor: i64, applied: usize) -> (r: Result<PullStep, SyncError>)
        requires
            applied + page.operations@.len() <= usize::MAX,
        ensures
            clock_le(old(self).clock(), final(self).clock()),
            final(self).clock().node_id == old(self).clock().node_id,
            final(self).device() == old(self).device(),
            final(self).store() == old(self).store(),
            page.operations@.len() == 0 ==> r == Ok::<PullStep, SyncError>(PullStep { cursor, applied, more: false })
                && final(self).exchanges() == old(self).exchanges(),
            old(self).exchanges().len() <= final(self).exchanges().len(),
            final(self).exchanges().subrange(0, old(self).exchanges().len() as int) == old(self).exchanges(),
            page.operations@.len() > 0 ==> exists|
                rs: Seq<Result<bool, SyncError>>,
                out: Result<PullStep, (SyncError, i64)>,
                saved: Result<(), SyncError>,
            | #[trigger] pull_page_went(
                *page,
                old(self).device(),
                cursor,
                applied as int,
                rs,
                out,
                saved,
                final(self).exchanges().skip(old(self).exchanges().len() as int),
                final(self).clock(),
                r,
            ),
    {
        if page.operations.len() == 0 {
            return Ok(PullStep { cursor, applied, more: false });
        }
        let ghost device = self.device();
        let ghost ops = page.operations@;
        let plan = pull_page_plan(page, self.local_device_id.as_str());
        let ghost plan_s = remote_positions(ops, device);
        proof {
            lemma_remote_positions_from(ops, device, 0);
        }
        let mut results: Vec<Result<bool, SyncError>> = Vec::new();
        let mut done = false;
        let mut j: usize = 0;
        while j < plan.len() && !done
            invariant
                j <= plan@.len(),
                results@.len() == j,
                ops == page.operations@,
                plan@.map_values(|i: usize| i as int) == plan_s,
                plan_s == remote_positions(ops, device),
                plan_s.len() <= ops.len(),
                forall|k: int| 0 <= k < plan_s.len() ==> 0 <= #[trigger] plan_s[k] < ops.len(),
                !done ==> forall|k: int| 0 <= k < j ==> #[trigger] results@[k] is Ok,
                done ==> j > 0 && results@[j - 1] is Err && forall|k: int| 0 <= k < j - 1 ==> #[trigger] results@[k] is Ok,
                forall|k: int| 0 <= k < j ==> clock_lt(remote_stamp(ops[#[trigger] plan_s[k]]), self.clock()),
                clock_le(old(self).clock(), self.clock()),
                self.clock().node_id == old(self).clock().node_id,
                self.device() == device,
                device == old(self).device(),
                self.store() == old(self).store(),
                self.exchanges() == old(self).exchanges() + apply_exchanges(ops, plan_s, results@),
            decreases plan.len() - j,
        {
            let i = plan[j];
            assert(plan@.map_values(|i: usize| i as int)[j as int] == i as int);
            let op = &page.operations[i];
            let now_ms = current_time_ms();
            let remote = HlcTimestamp::from_u64(#[verifier::truncate] (op.hlc_ts as u64), 0);
            assert(remote == remote_stamp(ops[plan_s[j as int]]));
            if !merge_fits_exec(&self.hlc, &remote, now_ms) {
                proof {
                    lemma_first_failure_at(results@, 0, j as int);
                }
                let r = Err(SyncError::ConflictResolution(String::from_str("HLC counter overflow during merge")));
                let ghost out = Ok::<PullStep, (SyncError, i64)>(PullStep { cursor, applied, more: false });
                let ghost saved = Ok::<(), SyncError>(());
                assert(self.exchanges().skip(old(self).exchanges().len() as int) =~= apply_exchanges(ops, plan_s, results@));
                assert(self.exchanges().subrange(0, old(self).exchanges().len() as int) =~= old(self).exchanges());
                assert(pull_page_went(
                    *page,
                    device,
                    cursor,
                    applied as int,
                    results@,
                    out,
                    saved,
                    self.exchanges().skip(old(self).exchanges().len() as int),
                    self.clock(),
                    r,
                ));
                return r;
            }
            let next = self.hlc.merge(&remote, now_ms);
            proof {
                crate::hlc::lemma_merge_dominates(self.hlc, remote, now_ms);
            }
            self.hlc = next;
            let ghost before = results@;
            let answer = self.apply_remote(op);
            let failed = match &answer {
                Ok(_) => false,
                Err(_) => true,
            };
            results.push(answer);
            assert(apply_exchanges(ops, plan_s, results@) =~= apply_exchanges(ops, plan_s, before).push(
                StorageExchange::ApplyRemote(ops[plan_s[j as int]], results@[j as int]),
            ));
            assert(self.exchanges() =~= old(self).exchanges() + apply_exchanges(ops, plan_s, results@));
            if failed {
                done = true;
            }
            j = j + 1;
        }
        proof {
            if done {
                lemma_first_failure_at(results@, 0, j - 1);
            } else {
                lemma_first_failure_at(results@, 0, j as int);
            }
        }
        let outcome = page_outcome(page, self.local_device_id.as_str(), cursor, applied, &results);
        let to_save = match &outcome {
            Ok(step) => step.cursor,
            Err(p) => p.1,
        };
        let saved = self.save_cursor(to_save);
        let ghost out = outcome;
        let r = finish_page(outcome, saved);
        assert(self.exchanges().skip(old(self).exchanges().len() as int) =~= apply_exchanges(ops, plan_s, results@).push(
            StorageExchange::SetMeta(pull_cursor_key(), signed_decimal(cursor_to_save(out) as int), saved),
        ));
        assert(self.exchanges().subrange(0, old(self).exchanges().len() as int) =~= old(self).exchanges());
        assert(pull_page_went(
            *page,
            device,
            cursor,
            applied as int,
            results@,
            out,
            saved,
            self.exchanges().skip(old(self).exchanges().len() as int),
            self.clock(),
            r,
        ));
        r
    }
}

/// Whether merging `remote` into `local` at `now_ms` keeps the counter in range.
pub fn merge_fits_exec(local: &HlcTimestamp, remote: &HlcTimestamp, now_ms: u64) -> (b: bool)
    ensures
        b == merge_fits(*local, *remote, now_ms),
{
    let a = if now_ms >= local.wall_time_ms { now_ms } else { local.wall_time_ms };
    let w = if a >= remote.wall_time_ms { a } else { remote.wall_time_ms };
    if w == local.wall_time_ms && w == remote.wall_time_ms {
        let m = if local.counter >= remote.counter { local.counter } else { remote.counter };
        m < u16::MAX
    } else if w == local.wall_time_ms {
        local.counter < u16::MAX
    } else if w == remote.wall_time_ms {
        remote.counter < u16::MAX
    } else {
        true
    }
}

} // verus!
