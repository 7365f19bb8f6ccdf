use ngram_fetch::digest::{check_expected, content_hash, digests_match, first_token, verify_plain};
use ngram_fetch::errors::DownloadError;

#[test]
fn test_content_hash_known_vectors() {
    assert_eq!(
        content_hash(&Vec::new()),
        "e3b0c44298fc1c149afbf4c8996fb92427ae41e4649b934ca495991b7852b855"
    );
    assert_eq!(
        content_hash(&b"abc".to_vec()),
        "ba7816bf8f01cfea414140de5dae2223b00361a396177a9cb410ff61f20015ad"
    );
}

#[test]
fn test_digests_match_is_case_insensitive() {
    assert!(digests_match("ab12CD", "AB12cd"));
    assert!(!digests_match("ab12cd", "ab12ce"));
    assert!(!digests_match("ab12cd", "ab12c"));
}

#[test]
fn test_first_token_skips_leading_whitespace() {
    assert_eq!(
        first_token("  abc123  en_ngrams.bin\n").as_deref(),
        Some("abc123")
    );
    assert_eq!(first_token("abc123").as_deref(), Some("abc123"));
    assert_eq!(first_token("\n\t  "), None);
    assert_eq!(first_token(""), None);
}

#[test]
fn test_check_expected_skips_without_digest() {
    let actual = "ba7816bf".to_string();
    assert!(check_expected(&actual, &None).is_ok());
}

#[test]
fn test_check_expected_reports_mismatch() {
    let actual = "aaaa".to_string();
    let expected = Some("bbbb".to_string());
    match check_expected(&actual, &expected) {
        Err(DownloadError::Integrity { expected: e, actual: a }) => {
            assert_eq!(e, "bbbb");
            assert_eq!(a, "aaaa");
        }
        other => panic!("expected an integrity failure, got {:?}", other),
    }
}

#[test]
fn test_verify_plain_accepts_matching_checksum() {
    let body = b"hello world".to_vec();
    let digest = content_hash(&body);
    let checksum_body = Some(format!("{}  data.bin\n", digest.to_uppercase()));
    assert!(verify_plain(&body, &checksum_body).is_ok());
}

#[test]
fn test_verify_plain_rejects_wrong_checksum() {
    let body = b"hello world".to_vec();
    let checksum_body = Some(format!("{}  data.bin\n", content_hash(&b"tampered".to_vec())));
    match verify_plain(&body, &checksum_body) {
        Err(DownloadError::Integrity { .. }) => {}
        other => panic!("expected an integrity failure, got {:?}", other),
    }
}

#[test]
fn test_verify_plain_is_best_effort() {
    // Missing checksum resource, or one without a digest token:
    // verification is skipped rather than failing the job.
    let body = b"hello world".to_vec();
    assert!(verify_plain(&body, &None).is_ok());
    assert!(verify_plain(&body, &Some("   \n".to_string())).is_ok());
}

#[test]
fn test_error_labels() {
    assert_eq!(DownloadError::Transport.label(), "transport error");
    assert_eq!(DownloadError::MissingContentLength.label(), "missing content-length");
    assert_eq!(DownloadError::Incomplete.label(), "chunks still pending");
    assert_eq!(DownloadError::Decompress.label(), "decompression failed");
    assert_eq!(
        DownloadError::Integrity { expected: "a".to_string(), actual: "b".to_string() }.label(),
        "checksum mismatch"
    );
    assert_eq!(DownloadError::Persistence.label(), "local i/o error");
}
