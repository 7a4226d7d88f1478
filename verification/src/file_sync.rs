//! File sync: the records and rules of chunked uploads and downloads, and
//! the decisions of a transfer (which chunk goes next, when to retry, when
//! to give up) as state machines that the transfer loop consults.
use vstd::prelude::*;
use crate::parse_error::concat_str;
use crate::sync_engine::SyncError;
use crate::server_rules::{hex_lower, sha256_digest, sha256_of, to_hex_lower};

verus! {

/// File transfer progress information.
#[derive(Debug, Clone)]
pub struct FileProgress {
    /// File name being transferred.
    pub file_name: String,
    /// Current chunk index.
    pub current_chunk: i64,
    /// Total number of chunks.
    pub total_chunks: i64,
    /// Bytes transferred so far.
    pub bytes_transferred: i64,
    /// Total file size in bytes.
    pub total_bytes: i64,
    /// Whether this is an upload (true) or download (false).
    pub is_upload: bool,
}

/// Upload session information.
#[derive(Debug, Clone)]
pub struct UploadSession {
    pub upload_id: String,
    pub chunk_size: i64,
    pub total_chunks: i64,
}

/// Remote file information.
#[derive(Debug, Clone)]
pub struct RemoteFileInfo {
    pub file_id: String,
    pub file_name: String,
    pub file_size: i64,
    pub sha256: String,
}

/// The number of retries a failed chunk upload or download gets.
pub const MAX_TRANSFER_RETRIES: u32 = 3;

/// The wait before retry number `retries + 1` after a failure, in seconds:
/// it doubles with each retry (2, 4, 8); `None` once the retries are spent.
pub fn retry_delay_secs(retries: u32) -> (d: Option<u64>)
    ensures
        retries < 3 ==> d == Some(vstd::arithmetic::power2::pow2((retries + 1) as nat) as u64),
        retries >= 3 ==> d is None,
{
    if retries < MAX_TRANSFER_RETRIES {
        let next = retries + 1;
        let d: u64 = if next == 1 { 2 } else if next == 2 { 4 } else { 8 };
        proof {
            vstd::arithmetic::power2::lemma2_to64();
        }
        Some(d)
    } else {
        None
    }
}

/// The progress record after chunk `index` (counting from zero) of an
/// upload has gone through.
pub fn upload_progress(file_name: String, index: i64, total_chunks: i64, bytes_transferred: i64, total_bytes: i64) -> (p: FileProgress)
    requires
        index < i64::MAX,
    ensures
        p.file_name == file_name,
        p.current_chunk == index + 1,
        p.total_chunks == total_chunks,
        p.bytes_transferred == bytes_transferred,
        p.total_bytes == total_bytes,
        p.is_upload,
{
    FileProgress {
        file_name,
        current_chunk: index + 1,
        total_chunks,
        bytes_transferred,
        total_bytes,
        is_upload: true,
    }
}

/// Whether a downloaded file's digest matches the expected one (both in
/// lower-case hexadecimal text).
pub fn digest_matches(actual: &String, expected: &String) -> (b: bool)
    ensures
        b == (actual@ == expected@),
{
    *actual == *expected
}

/// Checks a downloaded file: its digest must be the expected one, else
/// a storage error that names both.
pub fn check_download_digest(expected: &String, actual: &String) -> (r: Result<(), SyncError>)
    ensures
        actual@ == expected@ ==> r is Ok,
        actual@ != expected@ ==> (r matches Err(SyncError::Storage(m)) && m@ == "SHA-256 mismatch: expected "@ + expected@
            + ", got "@ + actual@),
{
    if digest_matches(actual, expected) {
        Ok(())
    } else {
        let a = concat_str("SHA-256 mismatch: expected ", expected.as_str());
        let b = concat_str(a.as_str(), ", got ");
        Err(SyncError::Storage(concat_str(b.as_str(), actual.as_str())))
    }
}

/// The lower-case hex SHA-256 digest of a file's bytes: what an upload
/// announces and a download is checked against.
pub fn sha256_hex(data: &[u8]) -> (s: String)
    ensures
        s@ == hex_lower(sha256_of(data@)),
{
    let d = sha256_digest(data);
    to_hex_lower(d.as_slice())
}

/// Checks the bytes of a downloaded file against the expected digest: their
/// digest must be it, else a storage error that names both.
pub fn check_downloaded_bytes(expected: &String, data: &[u8]) -> (r: Result<(), SyncError>)
    ensures
        hex_lower(sha256_of(data@)) == expected@ ==> r is Ok,
        hex_lower(sha256_of(data@)) != expected@ ==> (r matches Err(SyncError::Storage(m)) && m@
            == "SHA-256 mismatch: expected "@ + expected@ + ", got "@ + hex_lower(sha256_of(data@))),
{
    let actual = sha256_hex(data);
    check_download_digest(expected, &actual)
}

/// The wait before retry number `n` (counting from one), in seconds.
pub open spec fn backoff_secs(n: u32) -> u64 {
    vstd::arithmetic::power2::pow2(n as nat) as u64
}

/// Where a chunked upload stands: the next chunk to send, the retries spent
/// on it, and the bytes the server has confirmed so far.
#[derive(Debug, Clone)]
pub struct UploadRun {
    pub total_chunks: i64,
    pub next_chunk: i64,
    pub retries: u32,
    pub bytes_transferred: i64,
}

/// What an upload does next.
#[derive(Debug, Clone, PartialEq, Eq, Structural)]
pub enum UploadStep {
    /// Send chunk `index` (counting from zero).
    Send(i64),
    /// Every chunk went through: complete the upload.
    Complete,
}

/// What follows the result of sending a chunk.
#[derive(Debug)]
pub enum ChunkOutcome {
    /// The chunk went through: report `current_chunk` chunks and
    /// `bytes_transferred` bytes done.
    Sent { current_chunk: i64, bytes_transferred: i64 },
    /// Wait this many seconds, then send the same chunk again.
    Retry(u64),
    /// Give up with this error.
    Failed(SyncError),
}

impl UploadRun {
    /// The upload's invariant: the next chunk is within the session's
    /// chunks, and a chunk has had at most three retries.
    pub open spec fn wf(&self) -> bool {
        0 <= self.next_chunk <= self.total_chunks && self.retries <= MAX_TRANSFER_RETRIES
    }

    /// An upload of `total_chunks` chunks that has sent nothing.
    pub fn new(total_chunks: i64) -> (r: Self)
        ensures
            r.total_chunks == total_chunks,
            r.next_chunk == 0,
            r.retries == 0,
            r.bytes_transferred == 0,
            total_chunks >= 0 ==> r.wf(),
    {
        UploadRun { total_chunks, next_chunk: 0, retries: 0, bytes_transferred: 0 }
    }

    /// The next step: send the next chunk, or complete once all went through.
    pub fn next_step(&self) -> (s: UploadStep)
        ensures
            self.next_chunk < self.total_chunks ==> s == UploadStep::Send(self.next_chunk),
            self.next_chunk >= self.total_chunks ==> s == UploadStep::Complete,
    {
        if self.next_chunk < self.total_chunks {
            UploadStep::Send(self.next_chunk)
        } else {
            UploadStep::Complete
        }
    }

    /// Takes in the result of sending the next chunk: on success the chunk
    /// is counted and the next one comes up; a failure is retried after
    /// 2, 4 and 8 seconds, and the fourth failure of a chunk ends the upload.
    pub fn on_chunk_result(&mut self, result: Result<i64, SyncError>) -> (o: ChunkOutcome)
        requires
            old(self).wf(),
            old(self).next_chunk < old(self).total_chunks,
            result matches Ok(n) ==> i64::MIN <= old(self).bytes_transferred + n <= i64::MAX,
        ensures
            final(self).wf(),
            final(self).total_chunks == old(self).total_chunks,
            match result {
                Ok(n) => {
                    &&& final(self).next_chunk == old(self).next_chunk + 1
                    &&& final(self).retries == 0
                    &&& final(self).bytes_transferred == old(self).bytes_transferred + n
                    &&& o matches ChunkOutcome::Sent { current_chunk, bytes_transferred } && current_chunk
                        == old(self).next_chunk + 1 && bytes_transferred == final(self).bytes_transferred
                },
                Err(e) => {
                    &&& final(self).next_chunk == old(self).next_chunk
                    &&& final(self).bytes_transferred == old(self).bytes_transferred
                    &&& if old(self).retries < MAX_TRANSFER_RETRIES {
                        &&& final(self).retries == old(self).retries + 1
                        &&& o == ChunkOutcome::Retry(backoff_secs(final(self).retries))
                    } else {
                        &&& final(self).retries == old(self).retries
                        &&& o == ChunkOutcome::Failed(e)
                    }
                },
            },
    {
        match result {
            Ok(n) => {
                self.bytes_transferred = self.bytes_transferred + n;
                self.next_chunk = self.next_chunk + 1;
                self.retries = 0;
                ChunkOutcome::Sent { current_chunk: self.next_chunk, bytes_transferred: self.bytes_transferred }
            },
            Err(e) => match retry_delay_secs(self.retries) {
                Some(d) => {
                    self.retries = self.retries + 1;
                    ChunkOutcome::Retry(d)
                },
                None => ChunkOutcome::Failed(e),
            },
        }
    }
}

/// What follows the result of a download attempt.
#[derive(Debug)]
pub enum DownloadOutcome {
    /// The file arrived: check its digest.
    Verify,
    /// Wait this many seconds, then download again.
    Retry(u64),
    /// Give up with this error.
    Failed(SyncError),
}

/// The retries a download has spent.
#[derive(Debug, Clone)]
pub struct DownloadRun {
    pub retries: u32,
}

impl DownloadRun {
    /// A download that has not failed yet.
    pub fn new() -> (r: Self)
        ensures
            r.retries == 0,
    {
        DownloadRun { retries: 0 }
    }

    /// Takes in the result of a download attempt: a failure is retried
    /// after 2, 4 and 8 seconds, and the fourth failure ends the download.
    pub fn on_download_result(&mut self, result: Result<(), SyncError>) -> (o: DownloadOutcome)
        requires
            old(self).retries <= MAX_TRANSFER_RETRIES,
        ensures
            final(self).retries <= MAX_TRANSFER_RETRIES,
            match result {
                Ok(()) => o == DownloadOutcome::Verify && final(self).retries == old(self).retries,
                Err(e) => if old(self).retries < MAX_TRANSFER_RETRIES {
                    &&& final(self).retries == old(self).retries + 1
                    &&& o == DownloadOutcome::Retry(backoff_secs(final(self).retries))
                } else {
                    &&& final(self).retries == old(self).retries
                    &&& o == DownloadOutcome::Failed(e)
                },
            },
    {
        match result {
            Ok(()) => DownloadOutcome::Verify,
            Err(e) => match retry_delay_secs(self.retries) {
                Some(d) => {
                    self.retries = self.retries + 1;
                    DownloadOutcome::Retry(d)
                },
                None => DownloadOutcome::Failed(e),
            },
        }
    }
}

} // verus!
