use ngram_fetch::errors::DownloadError;
use ngram_fetch::progress::DownloadProgress;
use ngram_fetch::scheduler::{apply_fetch_results, FetchOutcome};

fn fresh(total_mib: u64) -> DownloadProgress {
    DownloadProgress::new("https://example.com/file.zst", total_mib * 1024 * 1024, None)
}

#[test]
fn test_apply_all_successes() {
    let mut progress = fresh(50);
    let results = vec![
        FetchOutcome { chunk_idx: 2, result: Ok("h2".to_string()) },
        FetchOutcome { chunk_idx: 0, result: Ok("h0".to_string()) },
        FetchOutcome { chunk_idx: 1, result: Ok("h1".to_string()) },
    ];
    assert!(apply_fetch_results(&mut progress, &results).is_ok());
    assert!(progress.all_complete());
    assert_eq!(progress.chunks[2].sha256.as_deref(), Some("h2"));
}

#[test]
fn test_apply_records_completions_before_failing() {
    // Fail-fast, but nothing fetched is lost: the chunks that did
    // complete are recorded even though the batch reports its first
    // error.
    let mut progress = fresh(100);
    let results = vec![
        FetchOutcome { chunk_idx: 0, result: Ok("h0".to_string()) },
        FetchOutcome { chunk_idx: 1, result: Err(DownloadError::Transport) },
        FetchOutcome { chunk_idx: 2, result: Ok("h2".to_string()) },
        FetchOutcome { chunk_idx: 3, result: Err(DownloadError::Persistence) },
    ];
    match apply_fetch_results(&mut progress, &results) {
        Err(DownloadError::Transport) => {}
        other => panic!("expected the first error back, got {:?}", other),
    }
    assert_eq!(progress.pending_chunks(), vec![1, 3, 4]);
}

#[test]
fn test_apply_empty_batch() {
    let mut progress = fresh(50);
    assert!(apply_fetch_results(&mut progress, &Vec::new()).is_ok());
    assert_eq!(progress.pending_chunks(), vec![0, 1, 2]);
}

#[test]
fn test_apply_preserves_earlier_completions() {
    let mut progress = fresh(50);
    progress.mark_complete(0, "h0".to_string());
    let results = vec![FetchOutcome { chunk_idx: 2, result: Ok("h2".to_string()) }];
    assert!(apply_fetch_results(&mut progress, &results).is_ok());
    assert_eq!(progress.pending_chunks(), vec![1]);
    assert_eq!(progress.chunks[0].sha256.as_deref(), Some("h0"));
}
