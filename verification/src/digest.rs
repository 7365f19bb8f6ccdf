//! Content digests: hashing the decompressed output, comparing hex
//! digests case-insensitively, and reading the sidecar checksum
//! resource.

use crate::errors::DownloadError;
use sha2::Digest;
use vstd::prelude::*;
use vstd::string::StringSliceAdditionalSpecFns;
use vstd::string::StrSliceExecFns;
use vstd::string::StringExecFns;

verus! {

/// The lowercase hexadecimal SHA-256 digest of `data`. The digest is a
/// function of the bytes alone; its value is not modelled here.
pub uninterp spec fn sha256_hex_of(data: Seq<u8>) -> Seq<char>;

/// Relies on `sha2::Sha256` (through the `Digest` trait) and the
/// lowercase-hex formatting of its output: the digest of exactly the
/// bytes of `data`, rendered as 64 hex characters (two per digest
/// byte).
#[verifier::external_body]
fn sha256_hex(data: &[u8]) -> (r: String)
    ensures
        r@ == sha256_hex_of(data@),
        r@.len() == 64,
{
    let mut hasher = sha2::Sha256::new();
    hasher.update(data);
    format!("{:x}", hasher.finalize())
}

/// The content hash recorded for a fetched block of bytes: its
/// lowercase hexadecimal SHA-256 digest.
pub fn content_hash(data: &Vec<u8>) -> (r: String)
    ensures
        r@ == sha256_hex_of(data@),
        r@.len() == 64,
{
    sha256_hex(data.as_slice())
}

/// ASCII-lowercase fold of one byte: uppercase letters map to their
/// lowercase forms, every other byte is unchanged.
pub open spec fn spec_fold_byte(b: u8) -> u8 {
    if 65 <= b <= 90 {
        (b + 32) as u8
    } else {
        b
    }
}

/// Whether two byte strings are equal up to ASCII case.
pub open spec fn spec_ci_eq(a: Seq<u8>, b: Seq<u8>) -> bool {
    a.len() == b.len() && (forall|i: int|
        0 <= i < a.len() ==> spec_fold_byte(a[i]) == spec_fold_byte(b[i]))
}

fn fold_byte(b: u8) -> (r: u8)
    ensures
        r == spec_fold_byte(b),
{
    if 65 <= b && b <= 90 {
        b + 32
    } else {
        b
    }
}

/// Whether two digest strings denote the same digest: their bytes are
/// equal up to ASCII case.
pub fn digests_match(actual: &str, expected: &str) -> (r: bool)
    ensures
        r == spec_ci_eq(actual.spec_bytes(), expected.spec_bytes()),
{
    let a = actual.as_bytes();
    let b = expected.as_bytes();
    if a.len() != b.len() {
        return false;
    }
    let n = a.len();
    let mut i: usize = 0;
    while i < n
        invariant
            a@ == actual.spec_bytes(),
            b@ == expected.spec_bytes(),
            n == a@.len() == b@.len(),
            i <= n,
            forall|j: int| 0 <= j < i ==> spec_fold_byte(a@[j]) == spec_fold_byte(b@[j]),
        decreases n - i,
    {
        if fold_byte(a[i]) != fold_byte(b[i]) {
            proof {
                assert(spec_fold_byte(a@[i as int]) != spec_fold_byte(b@[i as int]));
            }
            return false;
        }
        i = i + 1;
    }
    true
}

/// Compares a computed digest against an optional expected digest.
/// With no expected digest the check is skipped; otherwise the two
/// must match up to ASCII case, and a mismatch reports an integrity
/// failure carrying both digests.
pub fn check_expected(actual: &String, expected: &Option<String>) -> (r: Result<
    (),
    DownloadError,
>)
    ensures
        match expected {
            None => r is Ok,
            Some(e) => {
                &&& r is Ok <==> spec_ci_eq(
                    vstd::utf8::encode_utf8(actual@),
                    vstd::utf8::encode_utf8(e@),
                )
                &&& r is Err ==> r->Err_0 == (DownloadError::Integrity {
                    expected: *e,
                    actual: *actual,
                })
            },
        },
{
    match expected {
        None => Ok(()),
        Some(e) => {
            if digests_match(actual.as_str(), e.as_str()) {
                Ok(())
            } else {
                Err(DownloadError::Integrity { expected: e.clone(), actual: actual.clone() })
            }
        },
    }
}

/// True of the whitespace characters that delimit the digest token in
/// a checksum resource body.
pub open spec fn spec_is_space(c: char) -> bool {
    c == ' ' || c == '\t' || c == '\n' || c == '\r' || c == '\u{b}' || c == '\u{c}'
}

/// `s` with its leading whitespace removed.
pub open spec fn spec_skip_spaces(s: Seq<char>) -> Seq<char>
    decreases s.len(),
{
    if s.len() == 0 {
        s
    } else if spec_is_space(s[0]) {
        spec_skip_spaces(s.skip(1))
    } else {
        s
    }
}

/// The leading run of non-whitespace characters of `s`.
pub open spec fn spec_take_token(s: Seq<char>) -> Seq<char>
    decreases s.len(),
{
    if s.len() == 0 || spec_is_space(s[0]) {
        Seq::empty()
    } else {
        seq![s[0]] + spec_take_token(s.skip(1))
    }
}

/// The first whitespace-delimited token of `s` (empty when `s` holds
/// only whitespace).
pub open spec fn spec_first_token(s: Seq<char>) -> Seq<char> {
    spec_take_token(spec_skip_spaces(s))
}

fn is_space(c: char) -> (r: bool)
    ensures
        r == spec_is_space(c),
{
    c == ' ' || c == '\t' || c == '\n' || c == '\r' || c == '\u{b}' || c == '\u{c}'
}

/// Verifies a raw (uncompressed) download against the body of its
/// sidecar checksum resource. Verification is best-effort: with no
/// checksum body (the resource was missing or unreachable) or no
/// digest token in it, the check is skipped and the download is
/// accepted. A digest token that does not match the body's computed
/// digest up to ASCII case is an integrity failure.
pub fn verify_plain(body: &Vec<u8>, checksum_body: &Option<String>) -> (r: Result<
    (),
    DownloadError,
>)
    ensures
        match checksum_body {
            None => r is Ok,
            Some(text) => {
                &&& spec_first_token(text@).len() == 0 ==> r is Ok
                &&& spec_first_token(text@).len() > 0 ==> ((r is Ok) <==> spec_ci_eq(
                    vstd::utf8::encode_utf8(sha256_hex_of(body@)),
                    vstd::utf8::encode_utf8(spec_first_token(text@)),
                ))
            },
        },
        r matches Err(DownloadError::Integrity { expected: x, actual: a }) ==> (
        checksum_body matches Some(text) && x@ == spec_first_token(text@) && a@ == sha256_hex_of(
            body@,
        )),
        r is Err ==> r->Err_0 is Integrity,
{
    match checksum_body {
        None => Ok(()),
        Some(text) => {
            match first_token(text.as_str()) {
                None => Ok(()),
                Some(token) => {
                    let actual = content_hash(body);
                    if digests_match(actual.as_str(), token.as_str()) {
                        Ok(())
                    } else {
                        Err(DownloadError::Integrity { expected: token, actual })
                    }
                },
            }
        },
    }
}

proof fn lemma_skip_spaces_to(s: Seq<char>, i: int)
    requires
        0 <= i <= s.len(),
        forall|j: int| 0 <= j < i ==> spec_is_space(s[j]),
    ensures
        spec_skip_spaces(s) == spec_skip_spaces(s.skip(i)),
    decreases i,
{
    if i > 0 {
        assert(spec_is_space(s[0]));
        lemma_skip_spaces_to(s.skip(1), i - 1);
        assert(s.skip(1).skip(i - 1) =~= s.skip(i));
    } else {
        assert(s.skip(0) =~= s);
    }
}

proof fn lemma_take_token_to(s: Seq<char>, i: int)
    requires
        0 <= i <= s.len(),
        forall|j: int| 0 <= j < i ==> !spec_is_space(s[j]),
        i == s.len() || spec_is_space(s[i]),
    ensures
        spec_take_token(s) =~= s.take(i),
    decreases i,
{
    if i > 0 {
        assert(!spec_is_space(s[0]));
        lemma_take_token_to(s.skip(1), i - 1);
        assert(s.skip(1).take(i - 1) =~= s.take(i).skip(1));
        assert(spec_take_token(s) =~= seq![s[0]] + spec_take_token(s.skip(1)));
    }
}

/// The first whitespace-delimited token of a checksum resource body:
/// the expected hex digest. A body holding no token yields nothing.
pub fn first_token(body: &str) -> (r: Option<String>)
    ensures
        match r {
            Some(t) => t@ == spec_first_token(body@) && t@.len() > 0,
            None => spec_first_token(body@).len() == 0,
        },
{
    let n = body.unicode_len();
    let mut start: usize = 0;
    while start < n && is_space(body.get_char(start))
        invariant
            n == body@.len(),
            start <= n,
            forall|j: int| 0 <= j < start ==> spec_is_space(body@[j]),
        decreases n - start,
    {
        start = start + 1;
    }
    proof {
        lemma_skip_spaces_to(body@, start as int);
    }
    if start == n {
        proof {
            assert(body@.skip(n as int) =~= Seq::<char>::empty());
        }
        return None;
    }
    let mut end: usize = start;
    while end < n && !is_space(body.get_char(end))
        invariant
            n == body@.len(),
            start <= end <= n,
            forall|j: int| start <= j < end ==> !spec_is_space(body@[j]),
        decreases n - end,
    {
        end = end + 1;
    }
    proof {
        let rest = body@.skip(start as int);
        lemma_take_token_to(rest, end - start);
        assert(rest.take(end - start) =~= body@.subrange(start as int, end as int));
    }
    let token = body.substring_char(start, end);
    Some(String::from_str(token))
}

} // verus!
