use ngram_fetch::orchestrate::{
    choose_strategy, ensure_ngram_data, step, EnsureDecision, JobAction, JobEvent, JobState,
    Strategy,
};

use ngram_fetch::orchestrate::{accepts_byte_ranges, parse_content_length};

#[test]
fn test_parse_content_length() {
    assert_eq!(parse_content_length("52428800"), Some(52428800));
    assert_eq!(parse_content_length("0"), Some(0));
    assert_eq!(parse_content_length("18446744073709551615"), Some(u64::MAX));
    assert_eq!(parse_content_length("18446744073709551616"), None);
    assert_eq!(parse_content_length(""), None);
    assert_eq!(parse_content_length("12a"), None);
    assert_eq!(parse_content_length(" 12"), None);
}

#[test]
fn test_accepts_byte_ranges() {
    assert!(accepts_byte_ranges(&Some("bytes".to_string())));
    assert!(accepts_byte_ranges(&Some("none, bytes".to_string())));
    assert!(!accepts_byte_ranges(&Some("none".to_string())));
    assert!(!accepts_byte_ranges(&None));
}

#[test]
fn test_ensure_is_idempotent_when_present() {
    // With the destination in place the operation succeeds with no
    // network activity, on every repeated call.
    for _ in 0..3 {
        assert_eq!(ensure_ngram_data(true, false), EnsureDecision::AlreadyAvailable);
        assert_eq!(ensure_ngram_data(true, true), EnsureDecision::AlreadyAvailable);
    }
}

#[test]
fn test_ensure_respects_opt_in() {
    assert_eq!(ensure_ngram_data(false, false), EnsureDecision::DownloadDisabled);
    assert_eq!(ensure_ngram_data(false, true), EnsureDecision::Download);
}

#[test]
fn test_strategy_selection() {
    assert_eq!(choose_strategy(true, true), Strategy::Chunked);
    assert_eq!(choose_strategy(true, false), Strategy::SingleConnectionCompressed);
    assert_eq!(choose_strategy(false, true), Strategy::SingleConnectionPlain);
    assert_eq!(choose_strategy(false, false), Strategy::SingleConnectionPlain);
}

#[test]
fn test_existing_destination_short_circuits() {
    let (state, action) = step(
        JobState::NotStarted,
        JobEvent::Requested { target_exists: true, download_enabled: false },
    );
    assert_eq!(state, JobState::Finalized);
    assert_eq!(action, JobAction::ReportAvailable);
}

#[test]
fn test_chunked_path_walk() {
    let (state, action) = step(
        JobState::NotStarted,
        JobEvent::Requested { target_exists: false, download_enabled: true },
    );
    assert_eq!((state, action), (JobState::Probing, JobAction::Probe));

    let (state, action) = step(
        state,
        JobEvent::Probed { compressed_available: true, ranges_supported: true },
    );
    assert_eq!(
        (state, action),
        (JobState::Fetching(Strategy::Chunked), JobAction::FetchChunks)
    );

    let (state, action) = step(state, JobEvent::Fetched { ok: true });
    assert_eq!((state, action), (JobState::Assembling, JobAction::Assemble));

    let (state, action) = step(state, JobEvent::Assembled { ok: true });
    assert_eq!((state, action), (JobState::Verifying, JobAction::Verify));

    let (state, action) = step(state, JobEvent::Verified { matched: true });
    assert_eq!((state, action), (JobState::Finalized, JobAction::PromoteAndCleanup));
}

#[test]
fn test_no_ranges_never_enters_chunked_path() {
    // Fallback correctness: without range support the whole-object
    // single-connection path is used exclusively, so nothing ever
    // calls for chunk files or a parts directory.
    let (state, action) = step(
        JobState::Probing,
        JobEvent::Probed { compressed_available: true, ranges_supported: false },
    );
    assert_eq!(state, JobState::Fetching(Strategy::SingleConnectionCompressed));
    assert_eq!(action, JobAction::FetchWholeCompressed);
    assert_ne!(action, JobAction::FetchChunks);

    let (state, action) = step(
        JobState::Probing,
        JobEvent::Probed { compressed_available: false, ranges_supported: false },
    );
    assert_eq!(state, JobState::Fetching(Strategy::SingleConnectionPlain));
    assert_eq!(action, JobAction::FetchWholePlain);
}

#[test]
fn test_plain_path_skips_assembly() {
    let (state, action) = step(
        JobState::Fetching(Strategy::SingleConnectionPlain),
        JobEvent::Fetched { ok: true },
    );
    assert_eq!((state, action), (JobState::Verifying, JobAction::Verify));
}

#[test]
fn test_failed_verification_discards_temp_output() {
    // Integrity enforcement at orchestration level: a failed check
    // deletes the temporary output and never promotes it.
    let (state, action) = step(JobState::Verifying, JobEvent::Verified { matched: false });
    assert_eq!((state, action), (JobState::Failed, JobAction::DiscardTemp));
}

#[test]
fn test_fetch_failure_fails_the_job() {
    let (state, action) = step(
        JobState::Fetching(Strategy::Chunked),
        JobEvent::Fetched { ok: false },
    );
    assert_eq!((state, action), (JobState::Failed, JobAction::ReportFailure));
}

#[test]
fn test_mismatched_event_fails_the_job() {
    let (state, action) = step(JobState::Probing, JobEvent::Fetched { ok: true });
    assert_eq!((state, action), (JobState::Failed, JobAction::ReportFailure));
}
