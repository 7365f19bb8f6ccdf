use ngram_fetch::progress::{ChunkState, ChunkStatus, DownloadProgress, reconcile};

#[test]
fn test_progress_new() {
    let progress = DownloadProgress::new(
        "https://example.com/file.zst",
        100 * 1024 * 1024, // 100 MB
        Some("abc123".to_string()),
    );

    assert_eq!(progress.version, 1);
    assert_eq!(progress.compressed_size, 100 * 1024 * 1024);
    assert_eq!(progress.total_chunks, 5); // 100 MB / 20 MB = 5 chunks
    assert_eq!(progress.pending_chunks().len(), 5);
}

#[test]
fn test_progress_mark_complete() {
    let mut progress = DownloadProgress::new(
        "https://example.com/file.zst",
        50 * 1024 * 1024, // 50 MB
        None,
    );

    assert_eq!(progress.pending_chunks().len(), 3);

    progress.mark_complete(0, "sha256_0".to_string());
    progress.mark_complete(1, "sha256_1".to_string());

    assert_eq!(progress.pending_chunks().len(), 1);
    assert!(!progress.all_complete());

    progress.mark_complete(2, "sha256_2".to_string());

    assert!(progress.all_complete());
}

#[test]
fn test_pending_skips_completed() {
    // Resume correctness: with 2 of 5 chunks complete, exactly the
    // other 3 are scheduled, in increasing order.
    let mut progress =
        DownloadProgress::new("https://example.com/file.zst", 100 * 1024 * 1024, None);
    progress.mark_complete(1, "h1".to_string());
    progress.mark_complete(3, "h3".to_string());

    let pending = progress.pending_chunks();
    assert_eq!(pending, vec![0, 2, 4]);
}

#[test]
fn test_pending_ranges_cover_only_missing_chunks() {
    let mut progress =
        DownloadProgress::new("https://example.com/file.zst", 50 * 1024 * 1024, None);
    progress.mark_complete(1, "h1".to_string());

    let mib = 1024 * 1024;
    assert_eq!(
        progress.pending_ranges(),
        vec![(0, 0, 20 * mib - 1), (2, 40 * mib, 50 * mib - 1)]
    );
}

#[test]
fn test_mark_complete_records_hash_and_size() {
    let mut progress =
        DownloadProgress::new("https://example.com/file.zst", 50 * 1024 * 1024, None);
    progress.mark_complete(2, "deadbeef".to_string());

    let status: &ChunkStatus = &progress.chunks[2];
    assert!(matches!(status.status, ChunkState::Complete));
    assert_eq!(status.sha256.as_deref(), Some("deadbeef"));
    // The final chunk covers the remaining 10 MiB.
    assert_eq!(status.bytes_downloaded, Some(10 * 1024 * 1024));
}

#[test]
fn test_reconcile_reuses_matching_descriptor() {
    // Crash safety: a rerun with the same source URL and size keeps
    // the prior descriptor, completed chunks included.
    let mut prior = DownloadProgress::new("https://example.com/file.zst", 50 * 1024 * 1024, None);
    prior.mark_complete(0, "h0".to_string());
    let started = prior.started_at.clone();

    let resumed = reconcile(
        Some(prior),
        "https://example.com/file.zst",
        50 * 1024 * 1024,
        None,
    );
    assert_eq!(resumed.pending_chunks(), vec![1, 2]);
    assert_eq!(resumed.started_at, started);
}

#[test]
fn test_reconcile_discards_on_url_change() {
    // Crash safety: a different source URL discards the stale
    // descriptor and starts fresh.
    let mut prior = DownloadProgress::new("https://example.com/old.zst", 50 * 1024 * 1024, None);
    prior.mark_complete(0, "h0".to_string());

    let fresh = reconcile(
        Some(prior),
        "https://example.com/new.zst",
        50 * 1024 * 1024,
        None,
    );
    assert_eq!(fresh.url, "https://example.com/new.zst");
    assert_eq!(fresh.pending_chunks(), vec![0, 1, 2]);
}

#[test]
fn test_reconcile_discards_on_size_change() {
    let mut prior = DownloadProgress::new("https://example.com/file.zst", 50 * 1024 * 1024, None);
    prior.mark_complete(0, "h0".to_string());

    let fresh = reconcile(
        Some(prior),
        "https://example.com/file.zst",
        60 * 1024 * 1024,
        None,
    );
    assert_eq!(fresh.pending_chunks(), vec![0, 1, 2]);
}

#[test]
fn test_reconcile_without_prior_descriptor() {
    let fresh = reconcile(None, "https://example.com/file.zst", 20 * 1024 * 1024, None);
    assert_eq!(fresh.total_chunks, 1);
    assert_eq!(fresh.pending_chunks(), vec![0]);
}

#[test]
fn test_reconcile_rejects_inconsistent_descriptor() {
    // A descriptor whose chunk map does not match its own totals is
    // corrupt and is treated as absence.
    let mut prior = DownloadProgress::new("https://example.com/file.zst", 50 * 1024 * 1024, None);
    prior.chunks.pop();
    prior.mark_complete(0, "h0".to_string());

    let fresh = reconcile(
        Some(prior),
        "https://example.com/file.zst",
        50 * 1024 * 1024,
        None,
    );
    assert_eq!(fresh.pending_chunks(), vec![0, 1, 2]);
}

#[test]
fn test_zero_byte_object_has_no_chunks() {
    let progress = DownloadProgress::new("https://example.com/file.zst", 0, None);
    assert_eq!(progress.total_chunks, 0);
    assert!(progress.all_complete());
    assert!(progress.pending_chunks().is_empty());
}

#[test]
fn test_progress_file_and_parts_dir_names() {
    assert_eq!(
        DownloadProgress::progress_file("data/en_ngrams.bin"),
        "data/en_ngrams.zst.progress.json"
    );
    assert_eq!(DownloadProgress::parts_dir("data/en_ngrams.bin"), "data/en_ngrams.zst.parts");
}
