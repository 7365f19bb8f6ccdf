//! Materialization: reading completed chunks as one continuous byte
//! stream, decompressing it, hashing the output, and enforcing the
//! integrity decision.

use crate::digest::{check_expected, content_hash, sha256_hex_of, spec_ci_eq};
use crate::errors::DownloadError;
use vstd::prelude::*;
use vstd::utf8::encode_utf8;

verus! {

/// Buffer granularity for draining a chunk stream (1 MiB).
pub const BUFFER_SIZE: usize = 1024 * 1024;

/// What the compressed stream `data` decompresses to: the decompressed
/// bytes, or nothing when `data` is not a valid zstd stream. The
/// decompressed bytes are a function of `data` alone; their value is
/// not modelled here.
pub uninterp spec fn zstd_inflate(data: Seq<u8>) -> Option<Seq<u8>>;

/// Relies on `zstd::stream::decode_all`: decompresses a complete zstd
/// frame sequence held in `data`.
#[verifier::external_body]
fn zstd_decode(data: &Vec<u8>) -> (r: Option<Vec<u8>>)
    ensures
        match r {
            Some(v) => zstd_inflate(data@) == Some(v@),
            None => zstd_inflate(data@) is None,
        },
{
    match zstd::stream::decode_all(data.as_slice()) {
        Ok(v) => Some(v),
        Err(_) => None,
    }
}

/// The concatenation of a list of byte buffers, in order.
pub open spec fn spec_concat(parts: Seq<Vec<u8>>) -> Seq<u8> {
    parts.map_values(|v: Vec<u8>| v@).flatten()
}

/// An ordered list of byte sources exposed as one strictly sequential
/// stream: reads drain the current source and advance to the next on
/// exhaustion, with no seeking across source boundaries.
pub struct ChainedReader {
    pub sources: Vec<Vec<u8>>,
    pub current_idx: usize,
    pub pos: usize,
}

impl ChainedReader {
    /// The cursor sits inside the current source, or at the very end.
    pub open spec fn well_formed(&self) -> bool {
        &&& self.current_idx <= self.sources@.len()
        &&& self.current_idx < self.sources@.len() ==> self.pos
            <= self.sources@[self.current_idx as int]@.len()
        &&& self.current_idx == self.sources@.len() ==> self.pos == 0
    }

    /// The bytes not yet read: the rest of the current source followed
    /// by every later source, in order.
    pub open spec fn spec_remaining(&self) -> Seq<u8> {
        self.sources@.map_values(|v: Vec<u8>| v@).skip(self.current_idx as int).flatten().skip(
            self.pos as int,
        )
    }

    /// A reader positioned at the start of the first source.
    pub fn new(sources: Vec<Vec<u8>>) -> (r: ChainedReader)
        ensures
            r.well_formed(),
            r.spec_remaining() == spec_concat(sources@),
    {
        let r = ChainedReader { sources, current_idx: 0, pos: 0 };
        proof {
            let mapped = r.sources@.map_values(|v: Vec<u8>| v@);
            assert(mapped.skip(0) =~= mapped);
            assert(mapped.flatten().skip(0) =~= mapped.flatten());
        }
        r
    }

    /// Reads up to `max` bytes. The result is a prefix of the
    /// remaining stream and is empty only when `max` is zero or the
    /// stream is exhausted; one call never crosses a source boundary.
    pub fn read(&mut self, max: usize) -> (out: Vec<u8>)
        requires
            old(self).well_formed(),
        ensures
            final(self).well_formed(),
            out@.len() <= max,
            out@.len() <= old(self).spec_remaining().len(),
            out@ == old(self).spec_remaining().take(out@.len() as int),
            final(self).spec_remaining() == old(self).spec_remaining().skip(out@.len() as int),
            (out@.len() == 0) <==> (max == 0 || old(self).spec_remaining().len() == 0),
    {
        while self.current_idx < self.sources.len() && self.pos == self.sources[
            self.current_idx
        ].len()
            invariant
                self.well_formed(),
                self.spec_remaining() == old(self).spec_remaining(),
                self.sources == old(self).sources,
            decreases self.sources@.len() - self.current_idx,
        {
            proof {
                let mapped = self.sources@.map_values(|v: Vec<u8>| v@);
                let c = self.current_idx as int;
                let tail = mapped.skip(c);
                assert(tail.first() == mapped[c]);
                assert(tail.drop_first() =~= mapped.skip(c + 1));
                assert(tail.flatten() == tail.first() + tail.drop_first().flatten());
                assert(tail.flatten().skip(self.pos as int) =~= mapped.skip(c + 1).flatten().skip(
                    0,
                ));
            }
            self.current_idx = self.current_idx + 1;
            self.pos = 0;
        }
        if self.current_idx == self.sources.len() {
            proof {
                let mapped = self.sources@.map_values(|v: Vec<u8>| v@);
                assert(mapped.skip(mapped.len() as int) =~= Seq::<Seq<u8>>::empty());
                assert(self.spec_remaining() =~= Seq::<u8>::empty());
                assert(old(self).spec_remaining().take(0) =~= Seq::<u8>::empty());
                assert(old(self).spec_remaining().skip(0) =~= old(self).spec_remaining());
            }
            return Vec::new();
        }
        if max == 0 {
            proof {
                assert(old(self).spec_remaining().take(0) =~= Seq::<u8>::empty());
                assert(old(self).spec_remaining().skip(0) =~= old(self).spec_remaining());
            }
            return Vec::new();
        }
        proof {
            let mapped = self.sources@.map_values(|v: Vec<u8>| v@);
            let c = self.current_idx as int;
            let tail = mapped.skip(c);
            assert(tail.first() == mapped[c]);
            assert(tail.drop_first() =~= mapped.skip(c + 1));
            assert(tail.flatten() == tail.first() + tail.drop_first().flatten());
        }
        let ghost mid = *self;
        let src_len = self.sources[self.current_idx].len();
        let avail = src_len - self.pos;
        let k = if max < avail {
            max
        } else {
            avail
        };
        proof {
            let mapped = self.sources@.map_values(|v: Vec<u8>| v@);
            let c = self.current_idx as int;
            let p = self.pos as int;
            assert(self.spec_remaining() =~= mapped[c].skip(p) + mapped.skip(c + 1).flatten());
            assert(self.spec_remaining().len() >= avail);
        }
        let mut out: Vec<u8> = Vec::new();
        let mut j: usize = 0;
        while j < k
            invariant
                *self == mid,
                self.well_formed(),
                self.current_idx < self.sources@.len(),
                src_len == self.sources@[self.current_idx as int]@.len(),
                self.pos + k <= src_len,
                j <= k,
                out@.len() == j,
                forall|t: int|
                    0 <= t < j ==> out@[t] == self.sources@[self.current_idx as int]@[self.pos + t],
            decreases k - j,
        {
            let b = self.sources[self.current_idx][self.pos + j];
            out.push(b);
            j = j + 1;
        }
        proof {
            let mapped = self.sources@.map_values(|v: Vec<u8>| v@);
            let c = self.current_idx as int;
            let p = self.pos as int;
            let src = mapped[c];
            let rest = mapped.skip(c + 1).flatten();
            assert(self.spec_remaining() =~= src.skip(p) + rest);
            assert(out@ =~= self.spec_remaining().take(k as int));
        }
        let ghost pre = *self;
        self.pos = self.pos + k;
        proof {
            let mapped = self.sources@.map_values(|v: Vec<u8>| v@);
            let c = self.current_idx as int;
            let p = pre.pos as int;
            let src = mapped[c];
            let rest = mapped.skip(c + 1).flatten();
            assert(mapped.skip(c).flatten() == src + rest);
            assert(self.spec_remaining() =~= pre.spec_remaining().skip(k as int));
        }
        out
    }

    /// Reads the whole remaining stream: the concatenation of every
    /// source past the cursor, in index order.
    pub fn drain(&mut self) -> (out: Vec<u8>)
        requires
            old(self).well_formed(),
        ensures
            final(self).well_formed(),
            out@ == old(self).spec_remaining(),
            final(self).spec_remaining().len() == 0,
    {
        let mut out: Vec<u8> = Vec::new();
        loop
            invariant
                self.well_formed(),
                out@ + self.spec_remaining() == old(self).spec_remaining(),
            ensures
                self.well_formed(),
                out@ + self.spec_remaining() == old(self).spec_remaining(),
                self.spec_remaining().len() == 0,
            decreases self.spec_remaining().len(),
        {
            let ghost rem = self.spec_remaining();
            let mut part = self.read(BUFFER_SIZE);
            if part.len() == 0 {
                break;
            }
            proof {
                assert((out@ + rem.take(part@.len() as int)) + rem.skip(part@.len() as int) =~= out@
                    + rem);
            }
            out.append(&mut part);
        }
        proof {
            assert(out@ + self.spec_remaining() =~= out@);
        }
        out
    }
}

/// Whether a decompressed output is accepted against an optional
/// expected digest: with no expected digest everything is accepted,
/// otherwise the computed digest must match up to ASCII case.
pub open spec fn spec_digest_accepted(out: Seq<u8>, expected: Option<Seq<char>>) -> bool {
    match expected {
        None => true,
        Some(e) => spec_ci_eq(encode_utf8(sha256_hex_of(out)), encode_utf8(e)),
    }
}

/// The view of an optional expected digest string.
pub open spec fn spec_expected_view(expected: Option<String>) -> Option<Seq<char>> {
    match expected {
        None => None,
        Some(e) => Some(e@),
    }
}

/// Decompresses a complete compressed stream, hashes the output, and
/// enforces the integrity decision: the output is handed back only
/// when it decompressed cleanly and any expected digest matches. A
/// digest mismatch is reported as an integrity failure and yields no
/// output.
pub fn materialize_bytes(compressed: &Vec<u8>, expected: &Option<String>) -> (r: Result<
    Vec<u8>,
    DownloadError,
>)
    ensures
        match r {
            Ok(out) => {
                &&& zstd_inflate(compressed@) == Some(out@)
                &&& spec_digest_accepted(out@, spec_expected_view(*expected))
            },
            Err(e) => {
                &&& (e is Decompress) <==> (zstd_inflate(compressed@) is None)
                &&& e is Decompress || e is Integrity
                &&& e matches DownloadError::Integrity { expected: x, actual: a } ==> (
                zstd_inflate(compressed@) matches Some(v) && !spec_digest_accepted(
                    v,
                    spec_expected_view(*expected),
                ) && *expected == Some(x) && a@ == sha256_hex_of(v))
            },
        },
        (r is Err) <==> (zstd_inflate(compressed@) is None || (zstd_inflate(
            compressed@,
        ) matches Some(v) && !spec_digest_accepted(v, spec_expected_view(*expected)))),
{
    let out = match zstd_decode(compressed) {
        Some(v) => v,
        None => {
            return Err(DownloadError::Decompress);
        },
    };
    let actual = content_hash(&out);
    match check_expected(&actual, expected) {
        Ok(()) => Ok(out),
        Err(e) => Err(e),
    }
}

/// Materializes the final artifact from the completed chunk contents,
/// taken in index order: concatenates them, decompresses the result,
/// and enforces the integrity decision as `materialize_bytes` does.
pub fn materialize_chunks(parts: Vec<Vec<u8>>, expected: &Option<String>) -> (r: Result<
    Vec<u8>,
    DownloadError,
>)
    ensures
        match r {
            Ok(out) => {
                &&& zstd_inflate(spec_concat(parts@)) == Some(out@)
                &&& spec_digest_accepted(out@, spec_expected_view(*expected))
            },
            Err(e) => {
                &&& (e is Decompress) <==> (zstd_inflate(spec_concat(parts@)) is None)
                &&& e is Decompress || e is Integrity
                &&& e matches DownloadError::Integrity { expected: x, actual: a } ==> (
                zstd_inflate(spec_concat(parts@)) matches Some(v) && !spec_digest_accepted(
                    v,
                    spec_expected_view(*expected),
                ) && *expected == Some(x) && a@ == sha256_hex_of(v))
            },
        },
{
    let mut reader = ChainedReader::new(parts);
    let compressed = reader.drain();
    materialize_bytes(&compressed, expected)
}

} // verus!
