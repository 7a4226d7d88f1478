use subreader::file_sync::{
    check_download_digest, check_downloaded_bytes, retry_delay_secs, sha256_hex, ChunkOutcome, DownloadOutcome, DownloadRun, UploadRun, UploadStep,
};
use subreader::sync_engine::SyncError;

fn transport_err() -> SyncError {
    SyncError::Transport("boom".to_string())
}

#[test]
fn upload_sends_each_chunk_then_completes() {
    let mut run = UploadRun::new(2);
    assert_eq!(run.next_step(), UploadStep::Send(0));
    match run.on_chunk_result(Ok(10)) {
        ChunkOutcome::Sent { current_chunk, bytes_transferred } => {
            assert_eq!(current_chunk, 1);
            assert_eq!(bytes_transferred, 10);
        }
        other => panic!("unexpected {:?}", other),
    }
    assert_eq!(run.next_step(), UploadStep::Send(1));
    match run.on_chunk_result(Ok(5)) {
        ChunkOutcome::Sent { current_chunk, bytes_transferred } => {
            assert_eq!(current_chunk, 2);
            assert_eq!(bytes_transferred, 15);
        }
        other => panic!("unexpected {:?}", other),
    }
    assert_eq!(run.next_step(), UploadStep::Complete);
}

#[test]
fn empty_upload_completes_at_once() {
    assert_eq!(UploadRun::new(0).next_step(), UploadStep::Complete);
}

#[test]
fn chunk_failures_back_off_then_give_up() {
    let mut run = UploadRun::new(1);
    for expected in [2u64, 4, 8] {
        match run.on_chunk_result(Err(transport_err())) {
            ChunkOutcome::Retry(d) => assert_eq!(d, expected),
            other => panic!("unexpected {:?}", other),
        }
        assert_eq!(run.next_step(), UploadStep::Send(0));
    }
    match run.on_chunk_result(Err(transport_err())) {
        ChunkOutcome::Failed(SyncError::Transport(m)) => assert_eq!(m, "boom"),
        other => panic!("unexpected {:?}", other),
    }
}

#[test]
fn retries_reset_after_a_chunk_goes_through() {
    let mut run = UploadRun::new(2);
    assert!(matches!(run.on_chunk_result(Err(transport_err())), ChunkOutcome::Retry(2)));
    assert!(matches!(run.on_chunk_result(Ok(3)), ChunkOutcome::Sent { .. }));
    assert_eq!(run.retries, 0);
    assert!(matches!(run.on_chunk_result(Err(transport_err())), ChunkOutcome::Retry(2)));
}

#[test]
fn download_retries_then_fails() {
    let mut run = DownloadRun::new();
    assert!(matches!(run.on_download_result(Err(transport_err())), DownloadOutcome::Retry(2)));
    assert!(matches!(run.on_download_result(Err(transport_err())), DownloadOutcome::Retry(4)));
    assert!(matches!(run.on_download_result(Err(transport_err())), DownloadOutcome::Retry(8)));
    assert!(matches!(run.on_download_result(Err(transport_err())), DownloadOutcome::Failed(_)));
    let mut ok = DownloadRun::new();
    assert!(matches!(ok.on_download_result(Ok(())), DownloadOutcome::Verify));
}

#[test]
fn retry_delays_double() {
    assert_eq!(retry_delay_secs(0), Some(2));
    assert_eq!(retry_delay_secs(1), Some(4));
    assert_eq!(retry_delay_secs(2), Some(8));
    assert_eq!(retry_delay_secs(3), None);
}

#[test]
fn digest_mismatch_names_both() {
    assert!(check_download_digest(&"ab".to_string(), &"ab".to_string()).is_ok());
    match check_download_digest(&"ab".to_string(), &"cd".to_string()) {
        Err(SyncError::Storage(m)) => assert_eq!(m, "SHA-256 mismatch: expected ab, got cd"),
        other => panic!("unexpected {:?}", other),
    }
}

#[test]
fn file_digest_is_lower_hex_sha256() {
    assert_eq!(sha256_hex(b"abc"), "ba7816bf8f01cfea414140de5dae2223b00361a396177a9cb410ff61f20015ad");
    assert_eq!(sha256_hex(b""), "e3b0c44298fc1c149afbf4c8996fb92427ae41e4649b934ca495991b7852b855");
}

#[test]
fn downloaded_bytes_checked_against_digest() {
    let good = "ba7816bf8f01cfea414140de5dae2223b00361a396177a9cb410ff61f20015ad".to_string();
    assert!(check_downloaded_bytes(&good, b"abc").is_ok());
    match check_downloaded_bytes(&"wrong_sha256_hash".to_string(), b"abc") {
        Err(SyncError::Storage(m)) => assert_eq!(
            m,
            "SHA-256 mismatch: expected wrong_sha256_hash, got ba7816bf8f01cfea414140de5dae2223b00361a396177a9cb410ff61f20015ad"
        ),
        _ => panic!("expected a mismatch"),
    }
}
