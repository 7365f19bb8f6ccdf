//! Chunk layout arithmetic.
//!
//! A compressed object of `size` bytes is split into fixed-size chunks;
//! the final chunk may be shorter. Chunk `idx` covers the half-open byte
//! range `[idx * chunk_size, min((idx + 1) * chunk_size, size))`.

use vstd::prelude::*;

verus! {

/// Size of one chunk of the compressed object, in bytes (20 MiB).
pub const CHUNK_SIZE: u64 = 20 * 1024 * 1024;

/// How many chunk fetches may be in flight at once.
pub const PARALLEL_CONNECTIONS: usize = 16;

/// How many chunks of `chunk_size` bytes cover `size` bytes (ceiling
/// division).
pub open spec fn spec_chunk_count(size: u64, chunk_size: u64) -> int
    recommends
        chunk_size > 0,
{
    if size % chunk_size == 0 {
        size as int / chunk_size as int
    } else {
        size as int / chunk_size as int + 1
    }
}

/// First byte offset of chunk `idx`.
pub open spec fn spec_chunk_start(chunk_size: u64, idx: u64) -> int {
    idx * chunk_size
}

/// One past the last byte offset of chunk `idx`.
pub open spec fn spec_chunk_end(size: u64, chunk_size: u64, idx: u64) -> int {
    if (idx + 1) * chunk_size < size {
        (idx + 1) * chunk_size
    } else {
        size as int
    }
}

/// Number of bytes covered by chunk `idx`.
pub open spec fn spec_chunk_byte_size(size: u64, chunk_size: u64, idx: u64) -> int {
    spec_chunk_end(size, chunk_size, idx) - spec_chunk_start(chunk_size, idx)
}

/// Every chunk index below the chunk count starts strictly inside the
/// object and covers between one byte and a full chunk.
pub proof fn lemma_chunk_bounds(size: u64, chunk_size: u64, idx: u64)
    requires
        chunk_size > 0,
        0 <= idx < spec_chunk_count(size, chunk_size),
    ensures
        spec_chunk_start(chunk_size, idx) < size,
        0 < spec_chunk_byte_size(size, chunk_size, idx) <= chunk_size,
        spec_chunk_end(size, chunk_size, idx) <= size,
        (idx + 1) * chunk_size == idx * chunk_size + chunk_size,
{
    let s = size as int;
    let c = chunk_size as int;
    let i = idx as int;
    assert(i * c < s && (i + 1) * c == i * c + c) by (nonlinear_arith)
        requires
            c > 0,
            0 <= i,
            i < (if s % c == 0 { s / c } else { s / c + 1 }),
    ;
}

/// Computes the chunk count for an object of `size` bytes.
pub fn chunk_count(size: u64, chunk_size: u64) -> (n: u64)
    requires
        chunk_size > 0,
    ensures
        n == spec_chunk_count(size, chunk_size),
{
    let q = size / chunk_size;
    if size % chunk_size == 0 {
        q
    } else {
        proof {
            assert(size / chunk_size < 0xffff_ffff_ffff_ffffu64) by (nonlinear_arith)
                requires
                    chunk_size > 0,
                    size % chunk_size != 0,
            ;
        }
        q + 1
    }
}

/// Computes the inclusive byte range `[start, end]` that chunk `idx`
/// covers, as sent in a ranged request.
pub fn chunk_range(size: u64, chunk_size: u64, idx: u64) -> (r: (u64, u64))
    requires
        chunk_size > 0,
        0 <= idx < spec_chunk_count(size, chunk_size),
    ensures
        r.0 == spec_chunk_start(chunk_size, idx),
        r.1 == spec_chunk_end(size, chunk_size, idx) - 1,
        r.0 <= r.1 < size,
{
    proof {
        lemma_chunk_bounds(size, chunk_size, idx);
    }
    let start = idx * chunk_size;
    let rest = size - start;
    let end_excl = if rest < chunk_size {
        size
    } else {
        start + chunk_size
    };
    (start, end_excl - 1)
}

/// Computes the number of bytes chunk `idx` covers.
pub fn chunk_byte_size_of(size: u64, chunk_size: u64, idx: u64) -> (n: u64)
    requires
        chunk_size > 0,
        0 <= idx < spec_chunk_count(size, chunk_size),
    ensures
        n == spec_chunk_byte_size(size, chunk_size, idx),
{
    proof {
        lemma_chunk_bounds(size, chunk_size, idx);
    }
    let start = idx * chunk_size;
    let rest = size - start;
    if rest < chunk_size {
        rest
    } else {
        chunk_size
    }
}

} // verus!
