//! Batch bookkeeping for concurrent chunk fetches.
//!
//! The fetches themselves run outside this library, up to
//! `PARALLEL_CONNECTIONS` at a time and completing in any order. Their
//! outcomes come back as one batch, and this module folds the batch
//! into the descriptor: every chunk that completed is recorded, and
//! the first failure aborts the job — after the completions are
//! recorded, so a retry resumes from exactly that point.

use crate::chunking::spec_chunk_byte_size;
use crate::errors::DownloadError;
use crate::progress::{ChunkState, ChunkStatus, DownloadProgress};
use vstd::prelude::*;

verus! {

/// The outcome of one chunk fetch: the content hash of the bytes now
/// on disk, or the error that ended the fetch.
pub struct FetchOutcome {
    pub chunk_idx: u64,
    pub result: Result<String, DownloadError>,
}

/// Whether some outcome in `results` reports chunk `c` as fetched.
pub open spec fn spec_batch_completed(results: Seq<FetchOutcome>, c: int) -> bool {
    exists|i: int|
        0 <= i < results.len() && (#[trigger] results[i]).chunk_idx == c && results[i].result is Ok
}

/// Folds one batch of fetch outcomes into the descriptor.
///
/// Every successful outcome is recorded as a `Complete` chunk with its
/// content hash, whatever the completion order was; chunks the batch
/// does not name keep their state. The call reports the batch's first
/// error, if any, only after recording all completions (fail-fast, but
/// nothing already fetched is lost).
pub fn apply_fetch_results(progress: &mut DownloadProgress, results: &Vec<FetchOutcome>) -> (r:
    Result<(), DownloadError>)
    requires
        old(progress).well_formed(),
        forall|i: int|
            0 <= i < results@.len() ==> (#[trigger] results@[i]).chunk_idx < old(progress).total_chunks,

        forall|i: int, j: int|
            0 <= i < j < results@.len() ==> results@[i].chunk_idx != results@[j].chunk_idx,
    ensures
        final(progress).well_formed(),
        final(progress).version == old(progress).version,
        final(progress).url == old(progress).url,
        final(progress).compressed_size == old(progress).compressed_size,
        final(progress).decompressed_sha256 == old(progress).decompressed_sha256,
        final(progress).chunk_size == old(progress).chunk_size,
        final(progress).total_chunks == old(progress).total_chunks,
        final(progress).chunks@.len() == old(progress).chunks@.len(),
        forall|c: int|
            0 <= c < final(progress).chunks@.len() ==> (final(progress).spec_chunk_complete(c)
                <==> (old(progress).spec_chunk_complete(c) || spec_batch_completed(results@, c))),
        forall|c: int|
            0 <= c < final(progress).chunks@.len() && !spec_batch_completed(results@, c) ==> final(progress).chunks@[c] == old(progress).chunks@[c],
        forall|i: int|
            0 <= i < results@.len() && (#[trigger] results@[i]).result is Ok ==> final(progress).chunks@[results@[i].chunk_idx as int] == (ChunkStatus {
                status: ChunkState::Complete,
                sha256: Some(results@[i].result->Ok_0),
                bytes_downloaded: Some(
                    spec_chunk_byte_size(
                        old(progress).compressed_size,
                        old(progress).chunk_size,
                        results@[i].chunk_idx,
                    ) as u64,
                ),
            }),
        (r is Ok) <==> (forall|i: int|
            0 <= i < results@.len() ==> (#[trigger] results@[i]).result is Ok),
        r is Err ==> (exists|i: int|
            0 <= i < results@.len() && (#[trigger] results@[i]).result is Err && r->Err_0
                == results@[i].result->Err_0 && (forall|j: int|
                0 <= j < i ==> (#[trigger] results@[j]).result is Ok)),
{
    let n = results.len();
    let mut first_err: Option<DownloadError> = None;
    let ghost mut first_err_at: int = n as int;
    let mut i: usize = 0;
    while i < n
        invariant
            n == results@.len(),
            i <= n,
            progress.well_formed(),
            progress.version == old(progress).version,
            progress.url == old(progress).url,
            progress.compressed_size == old(progress).compressed_size,
            progress.decompressed_sha256 == old(progress).decompressed_sha256,
            progress.chunk_size == old(progress).chunk_size,
            progress.total_chunks == old(progress).total_chunks,
            progress.chunks@.len() == old(progress).chunks@.len(),
            forall|k: int|
                0 <= k < results@.len() ==> (#[trigger] results@[k]).chunk_idx
                    < progress.total_chunks,
            forall|k1: int, k2: int|
                0 <= k1 < k2 < results@.len() ==> results@[k1].chunk_idx != results@[k2].chunk_idx,
            forall|c: int|
                0 <= c < progress.chunks@.len() ==> (progress.spec_chunk_complete(c) <==> (old(progress).spec_chunk_complete(c) || spec_batch_completed(results@.take(i as int), c))),
            forall|c: int|
                0 <= c < progress.chunks@.len() && !spec_batch_completed(results@.take(i as int), c)
                    ==> progress.chunks@[c] == old(progress).chunks@[c],
            forall|k: int|
                0 <= k < i && (#[trigger] results@[k]).result is Ok ==> progress.chunks@[results@[k].chunk_idx as int]
                    == (ChunkStatus {
                    status: ChunkState::Complete,
                    sha256: Some(results@[k].result->Ok_0),
                    bytes_downloaded: Some(
                        spec_chunk_byte_size(
                            old(progress).compressed_size,
                            old(progress).chunk_size,
                            results@[k].chunk_idx,
                        ) as u64,
                    ),
                }),
            (first_err is None) <==> (forall|k: int|
                0 <= k < i ==> (#[trigger] results@[k]).result is Ok),
            first_err matches Some(e) ==> 0 <= first_err_at < i && results@[first_err_at].result
                is Err && e == results@[first_err_at].result->Err_0 && (forall|j: int|
                0 <= j < first_err_at ==> (#[trigger] results@[j]).result is Ok),
        decreases n - i,
    {
        let ghost pre = *progress;
        let outcome = &results[i];
        match &outcome.result {
            Ok(sha) => {
                progress.mark_complete(outcome.chunk_idx, sha.clone());
                proof {
                    lemma_take_step(results@, i as int);
                    assert forall|c: int| 0 <= c < progress.chunks@.len() implies (
                    progress.spec_chunk_complete(c) <==> (old(progress).spec_chunk_complete(c)
                        || spec_batch_completed(results@.take(i + 1), c))) by {
                        if c == results@[i as int].chunk_idx {
                            assert(results@.take(i + 1)[i as int] == results@[i as int]);
                            assert(spec_batch_completed(results@.take(i + 1), c));
                        } else {
                            assert(progress.chunks@[c] == pre.chunks@[c]);
                            lemma_batch_same(results@, i as int, c);
                        }
                    }
                    assert forall|c: int|
                        0 <= c < progress.chunks@.len() && !spec_batch_completed(
                            results@.take(i + 1),
                            c,
                        ) implies progress.chunks@[c] == old(progress).chunks@[c] by {
                        assert(results@.take(i + 1)[i as int] == results@[i as int]);
                        assert(c != results@[i as int].chunk_idx);
                        lemma_batch_same(results@, i as int, c);
                    }
                }
            },
            Err(e) => {
                if first_err.is_none() {
                    first_err = Some(e.clone());
                    proof {
                        first_err_at = i as int;
                    }
                }
                proof {
                    lemma_take_step(results@, i as int);
                    assert forall|c: int| 0 <= c < progress.chunks@.len() implies (
                    progress.spec_chunk_complete(c) <==> (old(progress).spec_chunk_complete(c)
                        || spec_batch_completed(results@.take(i + 1), c))) by {
                        lemma_batch_same(results@, i as int, c);
                    }
                    assert forall|c: int|
                        0 <= c < progress.chunks@.len() && !spec_batch_completed(
                            results@.take(i + 1),
                            c,
                        ) implies progress.chunks@[c] == old(progress).chunks@[c] by {
                        lemma_batch_same(results@, i as int, c);
                    }
                }
            },
        }
        i = i + 1;
    }
    proof {
        assert(results@.take(n as int) =~= results@);
    }
    match first_err {
        None => Ok(()),
        Some(e) => Err(e),
    }
}

/// Taking one more outcome into view keeps all earlier outcomes as
/// they were.
proof fn lemma_take_step(results: Seq<FetchOutcome>, i: int)
    requires
        0 <= i < results.len(),
    ensures
        results.take(i + 1).drop_last() =~= results.take(i),
        results.take(i + 1)[i] == results[i],
{
}

/// A chunk that outcome `i` does not name is batch-completed within
/// the first `i + 1` outcomes exactly when it is within the first `i`.
proof fn lemma_batch_same(results: Seq<FetchOutcome>, i: int, c: int)
    requires
        0 <= i < results.len(),
        results[i].chunk_idx != c || !(results[i].result is Ok),
    ensures
        spec_batch_completed(results.take(i + 1), c) == spec_batch_completed(results.take(i), c),
{
    if spec_batch_completed(results.take(i + 1), c) {
        let w = choose|w: int|
            0 <= w < results.take(i + 1).len() && (#[trigger] results.take(i + 1)[w]).chunk_idx == c
                && results.take(i + 1)[w].result is Ok;
        assert(results.take(i + 1)[w] == results[w]);
        assert(w != i);
        assert(results.take(i)[w] == results[w]);
        assert(spec_batch_completed(results.take(i), c));
    }
    if spec_batch_completed(results.take(i), c) {
        let w = choose|w: int|
            0 <= w < results.take(i).len() && (#[trigger] results.take(i)[w]).chunk_idx == c
                && results.take(i)[w].result is Ok;
        assert(results.take(i)[w] == results[w]);
        assert(results.take(i + 1)[w] == results[w]);
        assert(spec_batch_completed(results.take(i + 1), c));
    }
}

} // verus!
