//! The resumable job descriptor: per-chunk completion bookkeeping for
//! one download job, and the rule that decides whether a descriptor
//! loaded from disk may be reused.

use crate::chunking::{
    chunk_byte_size_of, chunk_count, chunk_range, spec_chunk_byte_size, spec_chunk_count,
    spec_chunk_end, spec_chunk_start, CHUNK_SIZE,
};
use crate::paths::{spec_with_extension, with_extension};
use vstd::prelude::*;

verus! {

/// Completion state of one chunk. There is no persisted "in progress"
/// state: a fetch either completes and is recorded, or is not recorded
/// at all.
#[derive(Debug, Clone, Copy, PartialEq, Eq, Structural)]
pub enum ChunkState {
    Pending,
    Complete,
}

/// Per-chunk record in the descriptor.
#[derive(Debug, Clone)]
pub struct ChunkStatus {
    pub status: ChunkState,
    pub sha256: Option<String>,
    pub bytes_downloaded: Option<u64>,
}

impl ChunkStatus {
    /// Whether this chunk's bytes are fully on disk.
    pub open spec fn spec_is_complete(&self) -> bool {
        self.status is Complete
    }

    /// Executable check for `spec_is_complete`.
    pub fn is_complete(&self) -> (r: bool)
        ensures
            r == self.spec_is_complete(),
    {
        match self.status {
            ChunkState::Complete => true,
            ChunkState::Pending => false,
        }
    }
}

/// How many entries of `chunks` are still pending.
pub open spec fn spec_pending_count(chunks: Seq<ChunkStatus>) -> nat
    decreases chunks.len(),
{
    if chunks.len() == 0 {
        0
    } else {
        spec_pending_count(chunks.drop_last()) + (if chunks.last().spec_is_complete() {
            0nat
        } else {
            1nat
        })
    }
}

/// How many entries of `chunks` are complete.
pub open spec fn spec_complete_count(chunks: Seq<ChunkStatus>) -> nat
    decreases chunks.len(),
{
    if chunks.len() == 0 {
        0
    } else {
        spec_complete_count(chunks.drop_last()) + (if chunks.last().spec_is_complete() {
            1nat
        } else {
            0nat
        })
    }
}

/// Every chunk is either pending or complete, so the two counts always
/// add up to the number of chunks.
pub proof fn lemma_pending_plus_complete(chunks: Seq<ChunkStatus>)
    ensures
        spec_pending_count(chunks) + spec_complete_count(chunks) == chunks.len(),
    decreases chunks.len(),
{
    if chunks.len() > 0 {
        lemma_pending_plus_complete(chunks.drop_last());
    }
}

/// The on-disk record of one resumable download job.
///
/// `chunks` maps each chunk index `0 .. total_chunks` to its state;
/// a well-formed descriptor has exactly `total_chunks` entries, where
/// `total_chunks` is the ceiling of `compressed_size / chunk_size`.
#[derive(Debug, Clone)]
pub struct DownloadProgress {
    pub version: u32,
    pub url: String,
    pub compressed_size: u64,
    pub decompressed_sha256: Option<String>,
    pub chunk_size: u64,
    pub total_chunks: u64,
    pub chunks: Vec<ChunkStatus>,
    pub started_at: String,
    pub updated_at: String,
}

/// Relies on `chrono::Utc::now` and `chrono::DateTime::to_rfc3339`: the
/// current time rendered as an RFC 3339 date-time string. The value
/// depends on the clock, so nothing is stated about it.
#[verifier::external_body]
fn now_rfc3339() -> String {
    chrono::Utc::now().to_rfc3339()
}

impl DownloadProgress {
    /// The descriptor's structural invariant.
    pub open spec fn well_formed(&self) -> bool {
        &&& self.chunk_size > 0
        &&& self.total_chunks == spec_chunk_count(self.compressed_size, self.chunk_size)
        &&& self.chunks@.len() == self.total_chunks
    }

    /// Whether chunk `i` is recorded complete.
    pub open spec fn spec_chunk_complete(&self, i: int) -> bool {
        self.chunks@[i].spec_is_complete()
    }

    /// A fresh descriptor for a job that has fetched nothing yet. Both
    /// timestamps are set to the same current-time string.
    pub fn new(url: &str, compressed_size: u64, decompressed_sha256: Option<String>) -> (p:
        DownloadProgress)
        requires
            spec_chunk_count(compressed_size, CHUNK_SIZE) <= usize::MAX,
        ensures
            p.well_formed(),
            p.version == 1,
            p.url@ == url@,
            p.compressed_size == compressed_size,
            p.decompressed_sha256 == decompressed_sha256,
            p.chunk_size == CHUNK_SIZE,
            p.total_chunks == spec_chunk_count(compressed_size, CHUNK_SIZE),
            forall|i: int|
                0 <= i < p.chunks@.len() ==> !(#[trigger] p.chunks@[i]).spec_is_complete(),
            p.started_at@ == p.updated_at@,
    {
        let total_chunks = chunk_count(compressed_size, CHUNK_SIZE);
        let mut chunks: Vec<ChunkStatus> = Vec::new();
        let mut i: u64 = 0;
        while i < total_chunks
            invariant
                i <= total_chunks,
                total_chunks <= usize::MAX,
                chunks@.len() == i,
                forall|j: int|
                    0 <= j < chunks@.len() ==> !(#[trigger] chunks@[j]).spec_is_complete(),
            decreases total_chunks - i,
        {
            chunks.push(
                ChunkStatus { status: ChunkState::Pending, sha256: None, bytes_downloaded: None },
            );
            i = i + 1;
        }
        let now = now_rfc3339();
        let started_at = now.clone();
        DownloadProgress {
            version: 1,
            url: String::from_str(url),
            compressed_size,
            decompressed_sha256,
            chunk_size: CHUNK_SIZE,
            total_chunks,
            chunks,
            started_at,
            updated_at: now,
        }
    }

    /// The sidecar file this job's descriptor is persisted under,
    /// named after the destination.
    pub fn progress_file(target: &str) -> (r: String)
        ensures
            r@ == spec_with_extension(target@, "zst.progress.json"@),
    {
        with_extension(target, "zst.progress.json")
    }

    /// The directory holding one file per completed chunk, named
    /// after the destination.
    pub fn parts_dir(target: &str) -> (r: String)
        ensures
            r@ == spec_with_extension(target@, "zst.parts"@),
    {
        with_extension(target, "zst.parts")
    }

    /// Executable check for `well_formed`. A descriptor read back from
    /// disk is trusted only after it passes this check; anything else
    /// is treated as absence of prior progress.
    pub fn is_well_formed(&self) -> (r: bool)
        ensures
            r == self.well_formed(),
    {
        if self.chunk_size == 0 {
            return false;
        }
        let total = chunk_count(self.compressed_size, self.chunk_size);
        self.total_chunks == total && self.chunks.len() as u64 == self.total_chunks
    }

    /// The indices of the chunks whose state is not `Complete`, in
    /// increasing order.
    pub fn pending_chunks(&self) -> (r: Vec<u64>)
        requires
            self.well_formed(),
        ensures
            r@.len() == spec_pending_count(self.chunks@),
            forall|j: int|
                0 <= j < r@.len() ==> #[trigger] r@[j] < self.total_chunks && !self.spec_chunk_complete(
                    r@[j] as int,
                ),
            forall|i: int|
                0 <= i < self.chunks@.len() && !self.spec_chunk_complete(i) ==> r@.contains(
                    i as u64,
                ),
            forall|j1: int, j2: int| 0 <= j1 < j2 < r@.len() ==> r@[j1] < r@[j2],
    {
        let mut r: Vec<u64> = Vec::new();
        let n = self.chunks.len();
        let mut i: usize = 0;
        while i < n
            invariant
                n == self.chunks@.len(),
                self.well_formed(),
                i <= n,
                r@.len() == spec_pending_count(self.chunks@.take(i as int)),
                forall|j: int|
                    0 <= j < r@.len() ==> #[trigger] r@[j] < i && !self.spec_chunk_complete(
                        r@[j] as int,
                    ),
                forall|k: int|
                    0 <= k < i && !self.spec_chunk_complete(k) ==> r@.contains(k as u64),
                forall|j1: int, j2: int| 0 <= j1 < j2 < r@.len() ==> r@[j1] < r@[j2],
            decreases n - i,
        {
            proof {
                assert(self.chunks@.take(i + 1).drop_last() =~= self.chunks@.take(i as int));
                assert(self.chunks@.take(i + 1).last() == self.chunks@[i as int]);
            }
            if !self.chunks[i].is_complete() {
                let ghost prev = r@;
                r.push(i as u64);
                proof {
                    assert forall|k: int|
                        0 <= k < i + 1 && !self.spec_chunk_complete(k) implies r@.contains(
                        k as u64,
                    ) by {
                        if k < i {
                            let idx = choose|idx: int|
                                0 <= idx < prev.len() && prev[idx] == k as u64;
                            assert(r@[idx] == k as u64);
                        } else {
                            assert(r@[r@.len() - 1] == i as u64);
                        }
                    }
                }
            }
            i = i + 1;
        }
        proof {
            assert(self.chunks@.take(n as int) =~= self.chunks@);
        }
        r
    }

    /// The fetch plan for a scheduling round: for every pending chunk,
    /// in increasing index order, its index and the inclusive byte
    /// range `[start, end]` its ranged request must ask for.
    pub fn pending_ranges(&self) -> (r: Vec<(u64, u64, u64)>)
        requires
            self.well_formed(),
        ensures
            r@.len() == spec_pending_count(self.chunks@),
            forall|j: int|
                0 <= j < r@.len() ==> {
                    let t = #[trigger] r@[j];
                    &&& t.0 < self.total_chunks
                    &&& !self.spec_chunk_complete(t.0 as int)
                    &&& t.1 == spec_chunk_start(self.chunk_size, t.0)
                    &&& t.2 == spec_chunk_end(self.compressed_size, self.chunk_size, t.0) - 1
                },
            forall|i: int|
                0 <= i < self.chunks@.len() && !self.spec_chunk_complete(i) ==> exists|j: int|
                    0 <= j < r@.len() && (#[trigger] r@[j]).0 == i as u64,
            forall|j1: int, j2: int| 0 <= j1 < j2 < r@.len() ==> r@[j1].0 < r@[j2].0,
    {
        let pending = self.pending_chunks();
        let mut r: Vec<(u64, u64, u64)> = Vec::new();
        let n = pending.len();
        let mut k: usize = 0;
        while k < n
            invariant
                self.well_formed(),
                n == pending@.len(),
                k <= n,
                r@.len() == k,
                forall|j: int|
                    0 <= j < pending@.len() ==> #[trigger] pending@[j] < self.total_chunks
                        && !self.spec_chunk_complete(pending@[j] as int),
                forall|j: int| 0 <= j < k ==> (#[trigger] r@[j]).0 == pending@[j],
                forall|j: int|
                    0 <= j < k ==> {
                        let t = #[trigger] r@[j];
                        &&& t.1 == spec_chunk_start(self.chunk_size, t.0)
                        &&& t.2 == spec_chunk_end(self.compressed_size, self.chunk_size, t.0) - 1
                    },
            decreases n - k,
        {
            let idx = pending[k];
            let (start, end) = chunk_range(self.compressed_size, self.chunk_size, idx);
            r.push((idx, start, end));
            k = k + 1;
        }
        proof {
            assert forall|i: int|
                0 <= i < self.chunks@.len() && !self.spec_chunk_complete(i) implies exists|j: int|
                0 <= j < r@.len() && (#[trigger] r@[j]).0 == i as u64 by {
                assert(pending@.contains(i as u64));
                let j = choose|j: int| 0 <= j < pending@.len() && pending@[j] == i as u64;
                assert(r@[j].0 == i as u64);
            }
        }
        r
    }

    /// The number of bytes chunk `chunk_idx` covers.
    pub fn chunk_byte_size(&self, chunk_idx: u64) -> (n: u64)
        requires
            self.well_formed(),
            chunk_idx < self.total_chunks,
        ensures
            n == spec_chunk_byte_size(self.compressed_size, self.chunk_size, chunk_idx),
    {
        chunk_byte_size_of(self.compressed_size, self.chunk_size, chunk_idx)
    }

    /// Records that chunk `chunk_idx`'s bytes are on disk: the chunk
    /// becomes `Complete` with its content hash and byte count, nothing
    /// else changes except the update timestamp.
    pub fn mark_complete(&mut self, chunk_idx: u64, sha256: String)
        requires
            old(self).well_formed(),
            chunk_idx < old(self).total_chunks,
        ensures
            final(self).well_formed(),
            final(self).chunks@ == old(self).chunks@.update(
                chunk_idx as int,
                (ChunkStatus {
                    status: ChunkState::Complete,
                    sha256: Some(sha256),
                    bytes_downloaded: Some(
                        spec_chunk_byte_size(
                            old(self).compressed_size,
                            old(self).chunk_size,
                            chunk_idx,
                        ) as u64,
                    ),
                }),
            ),
            final(self).version == old(self).version,
            final(self).url == old(self).url,
            final(self).compressed_size == old(self).compressed_size,
            final(self).decompressed_sha256 == old(self).decompressed_sha256,
            final(self).chunk_size == old(self).chunk_size,
            final(self).total_chunks == old(self).total_chunks,
            final(self).started_at == old(self).started_at,
    {
        let n = self.chunks.len();
        proof {
            assert(chunk_idx < n <= usize::MAX);
        }
        let byte_size = self.chunk_byte_size(chunk_idx);
        let entry = ChunkStatus {
            status: ChunkState::Complete,
            sha256: Some(sha256),
            bytes_downloaded: Some(byte_size),
        };
        self.chunks[chunk_idx as usize] = entry;
        self.updated_at = now_rfc3339();
    }

    /// Whether every chunk is recorded complete.
    pub fn all_complete(&self) -> (r: bool)
        requires
            self.well_formed(),
        ensures
            r == (forall|i: int| 0 <= i < self.chunks@.len() ==> self.spec_chunk_complete(i)),
    {
        let n = self.chunks.len();
        let mut i: usize = 0;
        while i < n
            invariant
                n == self.chunks@.len(),
                i <= n,
                forall|k: int| 0 <= k < i ==> self.spec_chunk_complete(k),
            decreases n - i,
        {
            if !self.chunks[i].is_complete() {
                proof {
                    assert(!self.spec_chunk_complete(i as int));
                }
                return false;
            }
            i = i + 1;
        }
        true
    }
}

/// Resuming fetches exactly the missing chunks: in a well-formed
/// descriptor with some chunks already complete, the pending and
/// complete counts add up to the chunk total, so a rerun schedules
/// `total - complete` fetches — and `pending_chunks` guarantees that
/// no chunk it returns is complete, so nothing is ever re-fetched.
pub proof fn lemma_resume_fetches_only_missing(p: DownloadProgress)
    requires
        p.well_formed(),
    ensures
        spec_pending_count(p.chunks@) + spec_complete_count(p.chunks@) == p.total_chunks,
{
    lemma_pending_plus_complete(p.chunks@);
}

/// Whether a descriptor loaded from disk may stand in for the current
/// request: it must be well formed and match the request's URL and
/// compressed size exactly.
pub open spec fn spec_reusable(p: &DownloadProgress, url: Seq<char>, compressed_size: u64) -> bool {
    &&& p.well_formed()
    &&& p.url@ == url
    &&& p.compressed_size == compressed_size
}

/// Decides between resuming from a loaded descriptor and starting
/// fresh. A loaded descriptor is reused only when its URL and
/// compressed size match the current request exactly; a missing,
/// corrupt, or mismatched descriptor starts the job over.
pub fn reconcile(
    loaded: Option<DownloadProgress>,
    url: &str,
    compressed_size: u64,
    decompressed_sha256: Option<String>,
) -> (r: DownloadProgress)
    requires
        spec_chunk_count(compressed_size, CHUNK_SIZE) <= usize::MAX,
    ensures
        r.well_formed(),
        (loaded matches Some(p) && spec_reusable(&p, url@, compressed_size)) ==> r == loaded
            ->Some_0,
        !(loaded matches Some(p) && spec_reusable(&p, url@, compressed_size)) ==> {
            &&& r.url@ == url@
            &&& r.compressed_size == compressed_size
            &&& r.decompressed_sha256 == decompressed_sha256
            &&& r.chunk_size == CHUNK_SIZE
            &&& r.version == 1
            &&& forall|i: int|
                0 <= i < r.chunks@.len() ==> !(#[trigger] r.chunks@[i]).spec_is_complete()
        },
{
    let requested = String::from_str(url);
    match loaded {
        Some(p) => {
            if p.is_well_formed() && p.compressed_size == compressed_size && p.url == requested {
                p
            } else {
                DownloadProgress::new(url, compressed_size, decompressed_sha256)
            }
        },
        None => DownloadProgress::new(url, compressed_size, decompressed_sha256),
    }
}

} // verus!
