//! Orchestration decisions for one download job: whether to start at
//! all, which fetch strategy the capability probe selects, and the
//! job's state machine. The caller performs each decided action
//! (probe, fetch, assemble, verify, promote) and feeds the outcome
//! back as the next event.

use vstd::prelude::*;
use vstd::string::{StrSliceExecFns, StringSliceAdditionalSpecFns};

verus! {

/// Whether every byte of `s` is a decimal digit, with at least one.
pub open spec fn spec_all_digits(s: Seq<u8>) -> bool {
    s.len() > 0 && (forall|i: int| 0 <= i < s.len() ==> 48 <= #[trigger] s[i] <= 57)
}

/// The number the decimal digit string `s` denotes.
pub open spec fn spec_dec_value(s: Seq<u8>) -> int
    decreases s.len(),
{
    if s.len() == 0 {
        0
    } else {
        spec_dec_value(s.drop_last()) * 10 + (s.last() - 48)
    }
}

proof fn lemma_dec_value_nonneg(s: Seq<u8>)
    requires
        forall|i: int| 0 <= i < s.len() ==> 48 <= #[trigger] s[i] <= 57,
    ensures
        spec_dec_value(s) >= 0,
    decreases s.len(),
{
    if s.len() > 0 {
        lemma_dec_value_nonneg(s.drop_last());
    }
}

proof fn lemma_dec_value_monotone(s: Seq<u8>, i: int)
    requires
        0 <= i <= s.len(),
        forall|j: int| 0 <= j < s.len() ==> 48 <= #[trigger] s[j] <= 57,
    ensures
        spec_dec_value(s) >= spec_dec_value(s.take(i)),
    decreases s.len() - i,
{
    if i < s.len() {
        lemma_dec_value_monotone(s, i + 1);
        assert(s.take(i + 1).drop_last() =~= s.take(i));
        lemma_dec_value_nonneg(s.take(i));
    } else {
        assert(s.take(i) =~= s);
    }
}

/// Reads a content-length header value: the number its decimal digits
/// denote, or nothing when the value is not a plain digit string or
/// does not fit.
pub fn parse_content_length(value: &str) -> (r: Option<u64>)
    ensures
        match r {
            Some(v) => spec_all_digits(value.spec_bytes()) && v == spec_dec_value(
                value.spec_bytes(),
            ),
            None => !spec_all_digits(value.spec_bytes()) || spec_dec_value(value.spec_bytes())
                > u64::MAX,
        },
{
    let bytes = value.as_bytes();
    let n = bytes.len();
    if n == 0 {
        return None;
    }
    let mut acc: u64 = 0;
    let mut i: usize = 0;
    while i < n
        invariant
            bytes@ == value.spec_bytes(),
            n == bytes@.len(),
            0 < n,
            i <= n,
            forall|j: int| 0 <= j < i ==> 48 <= #[trigger] bytes@[j] <= 57,
            acc == spec_dec_value(bytes@.take(i as int)),
        decreases n - i,
    {
        let b = bytes[i];
        if b < 48 || b > 57 {
            proof {
                assert(!spec_all_digits(value.spec_bytes()));
            }
            return None;
        }
        let d = (b - 48) as u64;
        if acc > (u64::MAX - d) / 10 {
            proof {
                assert(bytes@.take(i + 1).drop_last() =~= bytes@.take(i as int));
                assert(spec_dec_value(bytes@.take(i + 1)) == acc * 10 + d);
                assert(acc * 10 + d > u64::MAX) by (nonlinear_arith)
                    requires
                        acc > (u64::MAX - d) / 10,
                        d < 10,
                ;
                if spec_all_digits(value.spec_bytes()) {
                    lemma_dec_value_monotone(bytes@, i + 1);
                }
            }
            return None;
        }
        proof {
            assert(bytes@.take(i + 1).drop_last() =~= bytes@.take(i as int));
            assert(acc * 10 + d <= u64::MAX) by (nonlinear_arith)
                requires
                    acc <= (u64::MAX - d) / 10,
                    d < 10,
            ;
        }
        acc = acc * 10 + d;
        i = i + 1;
    }
    proof {
        assert(bytes@.take(n as int) =~= bytes@);
    }
    Some(acc)
}

/// Whether `pat` occurs in `s` as a contiguous run of characters.
pub open spec fn spec_contains(s: Seq<char>, pat: Seq<char>) -> bool {
    exists|i: int|
        0 <= i && i + pat.len() <= s.len() && #[trigger] s.subrange(i, i + pat.len()) == pat
}

fn contains_str(s: &str, pat: &str) -> (r: bool)
    ensures
        r == spec_contains(s@, pat@),
{
    let n = s.unicode_len();
    let m = pat.unicode_len();
    if m > n {
        return false;
    }
    let mut i: usize = 0;
    while i <= n - m
        invariant
            n == s@.len(),
            m == pat@.len(),
            m <= n,
            i <= n - m + 1,
            forall|k: int| 0 <= k < i ==> #[trigger] s@.subrange(k, k + pat@.len()) != pat@,
        decreases n - i,
    {
        let mut j: usize = 0;
        while j < m
            invariant
                n == s@.len(),
                m == pat@.len(),
                i + m <= n,
                j <= m,
                forall|t: int| 0 <= t < j ==> s@[i + t] == pat@[t],
            ensures
                j <= m,
                forall|t: int| 0 <= t < j ==> s@[i + t] == pat@[t],
                j < m ==> s@[i + j] != pat@[j as int],
            decreases m - j,
        {
            if s.get_char(i + j) != pat.get_char(j) {
                break;
            }
            j = j + 1;
        }
        if j == m {
            proof {
                assert(s@.subrange(i as int, i + pat@.len()) =~= pat@);
            }
            return true;
        }
        proof {
            assert(s@.subrange(i as int, i + pat@.len())[j as int] != pat@[j as int]);
        }
        i = i + 1;
    }
    false
}

/// Reads a range-support indication: whether an accept-ranges header
/// was present and named the bytes unit.
pub fn accepts_byte_ranges(header: &Option<String>) -> (r: bool)
    ensures
        r == (header matches Some(h) && spec_contains(h@, "bytes"@)),
{
    match header {
        None => false,
        Some(h) => contains_str(h.as_str(), "bytes"),
    }
}

/// How the object is fetched, picked from the capability probe.
#[derive(Debug, Clone, Copy, PartialEq, Eq, Structural)]
pub enum Strategy {
    /// Ranged requests against the compressed variant, in parallel.
    Chunked,
    /// One plain request for the whole compressed variant.
    SingleConnectionCompressed,
    /// One plain request for the raw object, verified against the
    /// sidecar checksum resource, with no decompression.
    SingleConnectionPlain,
}

/// The strategy the capability probe's findings select: the chunked
/// path needs both the compressed variant and range support; a
/// compressed variant without range support is fetched whole; without
/// a compressed variant the raw object is fetched whole.
pub open spec fn spec_strategy(compressed_available: bool, ranges_supported: bool) -> Strategy {
    if compressed_available {
        if ranges_supported {
            Strategy::Chunked
        } else {
            Strategy::SingleConnectionCompressed
        }
    } else {
        Strategy::SingleConnectionPlain
    }
}

/// Picks the fetch strategy from the capability probe's findings.
pub fn choose_strategy(compressed_available: bool, ranges_supported: bool) -> (s: Strategy)
    ensures
        s == spec_strategy(compressed_available, ranges_supported),
{
    if compressed_available {
        if ranges_supported {
            Strategy::Chunked
        } else {
            Strategy::SingleConnectionCompressed
        }
    } else {
        Strategy::SingleConnectionPlain
    }
}

/// Without range support the chunked path is never selected, so no
/// chunk files or parts directory are ever called for; one of the
/// whole-object single-connection strategies is used instead.
pub proof fn lemma_no_ranges_no_chunking(compressed_available: bool)
    ensures
        spec_strategy(compressed_available, false) != Strategy::Chunked,
{
}

/// The opening decision of the ensure-available operation.
#[derive(Debug, Clone, Copy, PartialEq, Eq, Structural)]
pub enum EnsureDecision {
    /// The destination already exists: report success at once, with no
    /// network activity.
    AlreadyAvailable,
    /// The destination is absent and the caller has not opted in to
    /// downloading: report "not available", with no network activity.
    DownloadDisabled,
    /// The destination is absent and downloading is permitted: probe
    /// the server and run the job.
    Download,
}

/// Decides how the ensure-available operation opens. The decision
/// depends only on whether the destination exists and whether
/// downloading is permitted, so repeated calls with the destination in
/// place succeed identically every time.
pub fn ensure_ngram_data(target_exists: bool, download_enabled: bool) -> (r: EnsureDecision)
    ensures
        target_exists ==> r == EnsureDecision::AlreadyAvailable,
        !target_exists && !download_enabled ==> r == EnsureDecision::DownloadDisabled,
        !target_exists && download_enabled ==> r == EnsureDecision::Download,
{
    if target_exists {
        EnsureDecision::AlreadyAvailable
    } else if !download_enabled {
        EnsureDecision::DownloadDisabled
    } else {
        EnsureDecision::Download
    }
}

/// The states one job moves through.
#[derive(Debug, Clone, Copy, PartialEq, Eq, Structural)]
pub enum JobState {
    NotStarted,
    Probing,
    /// Fetching under the named strategy.
    Fetching(Strategy),
    /// Concatenating and decompressing completed input into the
    /// temporary output.
    Assembling,
    /// Comparing the computed digest against the expected one.
    Verifying,
    Finalized,
    Failed,
}

/// What the caller reports back to drive the state machine.
#[derive(Debug, Clone, Copy, PartialEq, Eq, Structural)]
pub enum JobEvent {
    /// The operation was invoked.
    Requested { target_exists: bool, download_enabled: bool },
    /// The capability probe finished.
    Probed { compressed_available: bool, ranges_supported: bool },
    /// The fetch work of the current strategy finished.
    Fetched { ok: bool },
    /// Decompression into the temporary output finished.
    Assembled { ok: bool },
    /// The integrity check finished.
    Verified { matched: bool },
}

/// What the caller must do next.
#[derive(Debug, Clone, Copy, PartialEq, Eq, Structural)]
pub enum JobAction {
    /// Report that the artifact is present; nothing to do.
    ReportAvailable,
    /// Report that the artifact is absent and downloading is not
    /// permitted; nothing to do.
    ReportDisabled,
    /// Probe the server: does the compressed variant exist, and does
    /// the server honor ranged requests on it?
    Probe,
    /// Fetch all pending chunks with ranged requests.
    FetchChunks,
    /// Fetch the whole compressed object in one request.
    FetchWholeCompressed,
    /// Fetch the whole raw object in one request.
    FetchWholePlain,
    /// Decompress the fetched input into the temporary output.
    Assemble,
    /// Run the integrity check on the output.
    Verify,
    /// Atomically rename the temporary output onto the destination,
    /// then remove the descriptor and the parts directory.
    PromoteAndCleanup,
    /// Delete the temporary output; chunk parts and descriptor stay
    /// untouched for diagnosis and retry.
    DiscardTemp,
    /// Report the failure.
    ReportFailure,
}

/// The job's transition function. An event that does not belong to
/// the current state is an unrecoverable error: the job fails.
pub open spec fn spec_transition(s: JobState, e: JobEvent) -> (JobState, JobAction) {
    match (s, e) {
        (JobState::NotStarted, JobEvent::Requested { target_exists, download_enabled }) => {
            if target_exists {
                (JobState::Finalized, JobAction::ReportAvailable)
            } else if !download_enabled {
                (JobState::NotStarted, JobAction::ReportDisabled)
            } else {
                (JobState::Probing, JobAction::Probe)
            }
        },
        (JobState::Probing, JobEvent::Probed { compressed_available, ranges_supported }) => {
            match spec_strategy(compressed_available, ranges_supported) {
                Strategy::Chunked => (
                    JobState::Fetching(Strategy::Chunked),
                    JobAction::FetchChunks,
                ),
                Strategy::SingleConnectionCompressed => (
                    JobState::Fetching(Strategy::SingleConnectionCompressed),
                    JobAction::FetchWholeCompressed,
                ),
                Strategy::SingleConnectionPlain => (
                    JobState::Fetching(Strategy::SingleConnectionPlain),
                    JobAction::FetchWholePlain,
                ),
            }
        },
        (JobState::Fetching(strategy), JobEvent::Fetched { ok }) => {
            if !ok {
                (JobState::Failed, JobAction::ReportFailure)
            } else if strategy is SingleConnectionPlain {
                (JobState::Verifying, JobAction::Verify)
            } else {
                (JobState::Assembling, JobAction::Assemble)
            }
        },
        (JobState::Assembling, JobEvent::Assembled { ok }) => {
            if ok {
                (JobState::Verifying, JobAction::Verify)
            } else {
                (JobState::Failed, JobAction::ReportFailure)
            }
        },
        (JobState::Verifying, JobEvent::Verified { matched }) => {
            if matched {
                (JobState::Finalized, JobAction::PromoteAndCleanup)
            } else {
                (JobState::Failed, JobAction::DiscardTemp)
            }
        },
        _ => (JobState::Failed, JobAction::ReportFailure),
    }
}

/// Runs one step of the job's state machine.
pub fn step(s: JobState, e: JobEvent) -> (r: (JobState, JobAction))
    ensures
        r == spec_transition(s, e),
{
    match (s, e) {
        (JobState::NotStarted, JobEvent::Requested { target_exists, download_enabled }) => {
            if target_exists {
                (JobState::Finalized, JobAction::ReportAvailable)
            } else if !download_enabled {
                (JobState::NotStarted, JobAction::ReportDisabled)
            } else {
                (JobState::Probing, JobAction::Probe)
            }
        },
        (JobState::Probing, JobEvent::Probed { compressed_available, ranges_supported }) => {
            match choose_strategy(compressed_available, ranges_supported) {
                Strategy::Chunked => (
                    JobState::Fetching(Strategy::Chunked),
                    JobAction::FetchChunks,
                ),
                Strategy::SingleConnectionCompressed => (
                    JobState::Fetching(Strategy::SingleConnectionCompressed),
                    JobAction::FetchWholeCompressed,
                ),
                Strategy::SingleConnectionPlain => (
                    JobState::Fetching(Strategy::SingleConnectionPlain),
                    JobAction::FetchWholePlain,
                ),
            }
        },
        (JobState::Fetching(strategy), JobEvent::Fetched { ok }) => {
            if !ok {
                (JobState::Failed, JobAction::ReportFailure)
            } else {
                match strategy {
                    Strategy::SingleConnectionPlain => (JobState::Verifying, JobAction::Verify),
                    _ => (JobState::Assembling, JobAction::Assemble),
                }
            }
        },
        (JobState::Assembling, JobEvent::Assembled { ok }) => {
            if ok {
                (JobState::Verifying, JobAction::Verify)
            } else {
                (JobState::Failed, JobAction::ReportFailure)
            }
        },
        (JobState::Verifying, JobEvent::Verified { matched }) => {
            if matched {
                (JobState::Finalized, JobAction::PromoteAndCleanup)
            } else {
                (JobState::Failed, JobAction::DiscardTemp)
            }
        },
        _ => (JobState::Failed, JobAction::ReportFailure),
    }
}

/// A request finding the destination in place finishes at once: the
/// job is finalized and the only action is to report success — no
/// probe and no fetch, however often the request is repeated.
pub proof fn lemma_existing_destination_short_circuits(download_enabled: bool)
    ensures
        spec_transition(
            JobState::NotStarted,
            JobEvent::Requested { target_exists: true, download_enabled },
        ) == (JobState::Finalized, JobAction::ReportAvailable),
{
}

/// A probe that finds no range support never sends the job into the
/// chunked path: the chunk-fetch action is never decided on.
pub proof fn lemma_no_ranges_no_chunk_actions(compressed_available: bool)
    ensures
        !(spec_transition(
            JobState::Probing,
            JobEvent::Probed { compressed_available, ranges_supported: false },
        ).0 is Fetching && spec_transition(
            JobState::Probing,
            JobEvent::Probed { compressed_available, ranges_supported: false },
        ).0->0 is Chunked),
        spec_transition(
            JobState::Probing,
            JobEvent::Probed { compressed_available, ranges_supported: false },
        ).1 != JobAction::FetchChunks,
{
}

/// The temporary output is promoted onto the destination only out of
/// the verifying state, on a matching digest: no other state and no
/// failed check can decide the promote action, so the destination is
/// populated only after the integrity check has passed.
pub proof fn lemma_promote_only_after_verification(s: JobState, e: JobEvent)
    ensures
        spec_transition(s, e).1 == JobAction::PromoteAndCleanup ==> s == JobState::Verifying && e
            == (JobEvent::Verified { matched: true }),
{
}

} // verus!
