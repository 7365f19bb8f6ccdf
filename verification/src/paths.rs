//! Names of the local files and remote resources that belong to one
//! job: the sidecar descriptor, the parts directory, chunk files,
//! temporary outputs, and the object, compressed-variant and checksum
//! URLs.

use vstd::prelude::*;
use vstd::string::{StrSliceExecFns, StringExecFns};

verus! {

/// Index of the last occurrence of `c` in `s`, or `-1` when `s` does
/// not hold `c`.
pub open spec fn spec_rfind(s: Seq<char>, c: char) -> int
    decreases s.len(),
{
    if s.len() == 0 {
        -1
    } else if s.last() == c {
        s.len() - 1
    } else {
        spec_rfind(s.drop_last(), c)
    }
}

proof fn lemma_rfind_at(s: Seq<char>, c: char, i: int)
    requires
        0 <= i < s.len(),
        s[i] == c,
        forall|j: int| i < j < s.len() ==> s[j] != c,
    ensures
        spec_rfind(s, c) == i,
    decreases s.len(),
{
    if i < s.len() - 1 {
        lemma_rfind_at(s.drop_last(), c, i);
    }
}

proof fn lemma_rfind_none(s: Seq<char>, c: char)
    requires
        forall|j: int| 0 <= j < s.len() ==> s[j] != c,
    ensures
        spec_rfind(s, c) == -1,
    decreases s.len(),
{
    if s.len() > 0 {
        lemma_rfind_none(s.drop_last(), c);
    }
}

fn rfind_char(s: &str, c: char) -> (r: Option<usize>)
    ensures
        match r {
            Some(i) => spec_rfind(s@, c) == i && i < s@.len(),
            None => spec_rfind(s@, c) == -1,
        },
{
    let n = s.unicode_len();
    let mut i = n;
    while i > 0
        invariant
            i <= n,
            n == s@.len(),
            forall|j: int| i <= j < n ==> s@[j] != c,
        decreases i,
    {
        i = i - 1;
        if s.get_char(i) == c {
            proof {
                lemma_rfind_at(s@, c, i as int);
            }
            return Some(i);
        }
    }
    proof {
        lemma_rfind_none(s@, c);
    }
    None
}

/// `s` with its extension replaced by `ext`: the final path
/// component's last dot cuts the name (a dot that starts the
/// component does not count), and `.` plus `ext` is appended to the
/// cut name. A name whose final component has no such dot keeps all
/// its characters.
pub open spec fn spec_with_extension(s: Seq<char>, ext: Seq<char>) -> Seq<char> {
    let slash = spec_rfind(s, '/');
    let dot = spec_rfind(s, '.');
    if dot > slash + 1 {
        s.take(dot) + seq!['.'] + ext
    } else {
        s + seq!['.'] + ext
    }
}

/// Replaces the extension of a destination name, as
/// `spec_with_extension` describes.
pub fn with_extension(target: &str, ext: &str) -> (r: String)
    ensures
        r@ == spec_with_extension(target@, ext@),
{
    proof {
        reveal_strlit(".");
        assert("."@ =~= seq!['.']);
    }
    let dot_opt = rfind_char(target, '.');
    let slash_opt = rfind_char(target, '/');
    let base: &str = match dot_opt {
        Some(dot) => {
            let cut = match slash_opt {
                Some(slash) => slash < dot && dot - slash > 1,
                None => dot > 0,
            };
            if cut {
                proof {
                    assert(spec_rfind(target@, '.') > spec_rfind(target@, '/') + 1);
                }
                let b = target.substring_char(0, dot);
                proof {
                    assert(b@ == target@.subrange(0, spec_rfind(target@, '.')));
                }
                b
            } else {
                proof {
                    assert(!(spec_rfind(target@, '.') > spec_rfind(target@, '/') + 1));
                }
                target
            }
        },
        None => {
            proof {
                assert(!(spec_rfind(target@, '.') > spec_rfind(target@, '/') + 1));
            }
            target
        },
    };
    let mut out = String::from_str(base);
    out.append(".");
    out.append(ext);
    proof {
        let s = target@;
        let slash = spec_rfind(s, '/');
        let dot = spec_rfind(s, '.');
        if dot > slash + 1 {
            assert(base@ == s.subrange(0, dot));
            assert(s.subrange(0, dot) =~= s.take(dot));
            assert(out@ =~= s.take(dot) + seq!['.'] + ext@);
        } else {
            assert(out@ =~= s + seq!['.'] + ext@);
        }
    }
    out
}

/// The decimal digit character for `d`.
pub open spec fn spec_digit_char(d: int) -> char {
    if d == 0 {
        '0'
    } else if d == 1 {
        '1'
    } else if d == 2 {
        '2'
    } else if d == 3 {
        '3'
    } else if d == 4 {
        '4'
    } else if d == 5 {
        '5'
    } else if d == 6 {
        '6'
    } else if d == 7 {
        '7'
    } else if d == 8 {
        '8'
    } else {
        '9'
    }
}

/// The decimal rendering of `n`, without leading zeros (a single `0`
/// for zero).
pub open spec fn spec_decimal(n: int) -> Seq<char>
    recommends
        n >= 0,
    decreases n,
{
    if n < 10 {
        seq![spec_digit_char(n)]
    } else {
        spec_decimal(n / 10) + seq![spec_digit_char(n % 10)]
    }
}

fn digit_str(d: u64) -> (r: &'static str)
    requires
        d < 10,
    ensures
        r@ =~= seq![spec_digit_char(d as int)],
{
    proof {
        reveal_strlit("0");
        reveal_strlit("1");
        reveal_strlit("2");
        reveal_strlit("3");
        reveal_strlit("4");
        reveal_strlit("5");
        reveal_strlit("6");
        reveal_strlit("7");
        reveal_strlit("8");
        reveal_strlit("9");
    }
    if d == 0 {
        "0"
    } else if d == 1 {
        "1"
    } else if d == 2 {
        "2"
    } else if d == 3 {
        "3"
    } else if d == 4 {
        "4"
    } else if d == 5 {
        "5"
    } else if d == 6 {
        "6"
    } else if d == 7 {
        "7"
    } else if d == 8 {
        "8"
    } else {
        "9"
    }
}

/// Renders `n` in decimal.
pub fn decimal_string(n: u64) -> (r: String)
    ensures
        r@ == spec_decimal(n as int),
    decreases n,
{
    if n < 10 {
        String::from_str(digit_str(n))
    } else {
        proof {
            assert(n / 10 < n && n % 10 < 10) by (nonlinear_arith)
                requires
                    n >= 10,
            ;
        }
        let mut s = decimal_string(n / 10);
        s.append(digit_str(n % 10));
        s
    }
}

/// `s` left-padded with `'0'` to at least `width` characters.
pub open spec fn spec_zero_pad(s: Seq<char>, width: int) -> Seq<char> {
    if s.len() >= width {
        s
    } else {
        Seq::new((width - s.len()) as nat, |i: int| '0') + s
    }
}

/// The name of chunk `idx`'s file inside the parts directory: its
/// zero-padded four-digit index between a fixed prefix and suffix.
pub open spec fn spec_chunk_file_name(idx: u64) -> Seq<char> {
    "chunk_"@ + spec_zero_pad(spec_decimal(idx as int), 4) + ".part"@
}

/// Builds the file name of chunk `idx`.
pub fn chunk_file_name(idx: u64) -> (r: String)
    ensures
        r@ == spec_chunk_file_name(idx),
{
    proof {
        reveal_strlit("0");
        assert("0"@ =~= seq!['0']);
    }
    let digits = decimal_string(idx);
    let mut out = String::from_str("chunk_");
    let len = digits.as_str().unicode_len();
    let ghost needed: int = if len >= 4 {
        0
    } else {
        4 - len
    };
    let mut pad: usize = if len >= 4 {
        0
    } else {
        4 - len
    };
    while pad > 0
        invariant
            0 <= pad <= needed,
            out@ =~= "chunk_"@ + Seq::new((needed - pad) as nat, |i: int| '0'),
            "0"@ =~= seq!['0'],
        decreases pad,
    {
        out.append("0");
        proof {
            assert(out@ =~= "chunk_"@ + Seq::new((needed - (pad - 1)) as nat, |i: int| '0'));
        }
        pad = pad - 1;
    }
    out.append(digits.as_str());
    out.append(".part");
    proof {
        assert(out@ =~= spec_chunk_file_name(idx));
    }
    out
}

/// The path of chunk `idx`'s file under the parts directory.
pub fn chunk_path(parts_dir: &str, idx: u64) -> (r: String)
    ensures
        r@ == parts_dir@ + "/"@ + spec_chunk_file_name(idx),
{
    let name = chunk_file_name(idx);
    let mut out = String::from_str(parts_dir);
    out.append("/");
    out.append(name.as_str());
    out
}

/// The value of the Range header asking for the inclusive byte range
/// `[start, end]`.
pub fn range_header_value(start: u64, end: u64) -> (r: String)
    ensures
        r@ == "bytes="@ + spec_decimal(start as int) + "-"@ + spec_decimal(end as int),
{
    let start_digits = decimal_string(start);
    let end_digits = decimal_string(end);
    let mut out = String::from_str("bytes=");
    out.append(start_digits.as_str());
    out.append("-");
    out.append(end_digits.as_str());
    out
}

/// The name of a language's data asset.
pub fn ngram_filename(lang: &str) -> (r: String)
    ensures
        r@ == lang@ + "_ngrams.bin"@,
{
    String::from_str(lang).concat("_ngrams.bin")
}

/// The URL of the raw object `name` under `base`.
pub fn object_url(base: &str, name: &str) -> (r: String)
    ensures
        r@ == base@ + "/"@ + name@,
{
    let mut out = String::from_str(base);
    out.append("/");
    out.append(name);
    out
}

/// The URL of the compressed variant of `name` under `base`.
pub fn compressed_url(base: &str, name: &str) -> (r: String)
    ensures
        r@ == base@ + "/"@ + name@ + ".zst"@,
{
    let mut out = String::from_str(base);
    out.append("/");
    out.append(name);
    out.append(".zst");
    out
}

/// The URL of the sidecar checksum resource of `name` under `base`.
pub fn checksum_url(base: &str, name: &str) -> (r: String)
    ensures
        r@ == base@ + "/"@ + name@ + ".sha256"@,
{
    let mut out = String::from_str(base);
    out.append("/");
    out.append(name);
    out.append(".sha256");
    out
}

/// The temporary file the materialized (decompressed) output is
/// written to before the atomic rename onto the destination.
pub fn temp_output_name(target: &str) -> (r: String)
    ensures
        r@ == spec_with_extension(target@, "bin.tmp"@),
{
    with_extension(target, "bin.tmp")
}

/// The temporary file a whole compressed object is written to on the
/// single-connection path.
pub fn temp_compressed_name(target: &str) -> (r: String)
    ensures
        r@ == spec_with_extension(target@, "bin.zst.tmp"@),
{
    with_extension(target, "bin.zst.tmp")
}

/// The temporary name a raw single-connection download is written
/// under before verification.
pub fn download_temp_name(name: &str) -> (r: String)
    ensures
        r@ == name@ + ".download"@,
{
    String::from_str(name).concat(".download")
}

} // verus!
