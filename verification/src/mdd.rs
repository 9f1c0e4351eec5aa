//! Decisions in rewriting a database file with uncompressed chunks: whether any chunk is
//! compressed, how the data of a chunk is stored, and whether the chunks read back from the
//! rewritten file carry the digests of the chunks written.
use vstd::prelude::*;
use crate::comparam::opt_text;
use crate::error::{decimal, push_decimal, push_text, text};
use crate::text::{lowercase_of, str_eq, to_lowercase};

verus! {

/// Errors of reading and rewriting database files.
#[derive(Debug, Clone, PartialEq, Eq)]
pub enum MddError {
    /// Reading, writing or decompressing failed.
    Io(String),
    /// The file's content is not what it should be.
    Parsing(String),
}

/// How the data of a chunk is stored.
#[derive(Debug, Clone, Copy, PartialEq, Eq, Structural)]
pub enum ChunkCompression {
    /// As is.
    Stored,
    /// Compressed with LZMA.
    Lzma,
}

/// Whether any chunk of a file is compressed, given each chunk's compression algorithm.
pub fn needs_decompression(algorithms: &Vec<Option<String>>) -> (r: bool)
    ensures
        r == exists|i: int| 0 <= i < algorithms@.len() && #[trigger] algorithms@[i] is Some,
{
    let mut i: usize = 0;
    while i < algorithms.len()
        invariant
            i <= algorithms@.len(),
            forall|j: int| 0 <= j < i ==> #[trigger] algorithms@[j] is None,
        decreases algorithms@.len() - i,
    {
        if algorithms[i].is_some() {
            return true;
        }
        i = i + 1;
    }
    false
}

/// How the data of the chunk named `chunk_name` (`unknown` when it has no name) with the
/// compression algorithm `algorithm` is stored: as is when it names none, LZMA when it is
/// `lzma` in any letter case; any other algorithm is refused with a message naming it in
/// lowercase and the chunk.
pub open spec fn compression_for(algorithm: Option<Seq<char>>, chunk_name: Option<Seq<char>>) -> Result<
    ChunkCompression,
    Seq<char>,
> {
    match algorithm {
        None => Ok(ChunkCompression::Stored),
        Some(a) => if lowercase_of(a) == "lzma"@ {
            Ok(ChunkCompression::Lzma)
        } else {
            Err(
                "Unsupported compression algorithm '"@ + lowercase_of(a) + "' for chunk '"@
                    + match chunk_name {
                    Some(n) => n,
                    None => "unknown"@,
                } + "'"@,
            )
        },
    }
}

/// How the data of the chunk named `chunk_name` with compression algorithm `algorithm` is
/// stored; fails with a parsing error for an algorithm other than LZMA.
pub fn chunk_compression(algorithm: Option<&str>, chunk_name: Option<&str>) -> (r: Result<
    ChunkCompression,
    MddError,
>)
    ensures
        match compression_for(opt_text(algorithm), opt_text(chunk_name)) {
            Ok(c) => r == Ok::<ChunkCompression, MddError>(c),
            Err(m) => r matches Err(MddError::Parsing(e)) && e@ == m,
        },
{
    match algorithm {
        None => Ok(ChunkCompression::Stored),
        Some(a) => {
            let lower = to_lowercase(a);
            proof {
                reveal_strlit("lzma");
            }
            if str_eq(lower.as_str(), "lzma") {
                Ok(ChunkCompression::Lzma)
            } else {
                let mut m = text("Unsupported compression algorithm '");
                push_text(&mut m, lower.as_str());
                push_text(&mut m, "' for chunk '");
                match chunk_name {
                    Some(n) => push_text(&mut m, n),
                    None => push_text(&mut m, "unknown"),
                }
                push_text(&mut m, "'");
                Err(MddError::Parsing(m))
            }
        },
    }
}

/// The digests of chunks, each by its bytes.
pub open spec fn digest_views(v: Seq<Option<Vec<u8>>>) -> Seq<Option<Seq<u8>>> {
    Seq::new(
        v.len(),
        |i: int|
            match v[i] {
                Some(d) => Some(d@),
                None => None,
            },
    )
}

/// The first position from `i` on where the digests `a` and `b` differ, if any.
pub open spec fn first_mismatch(a: Seq<Option<Seq<u8>>>, b: Seq<Option<Seq<u8>>>, i: int) -> Option<
    int,
>
    decreases a.len() - i,
{
    if i < 0 || i >= a.len() {
        None
    } else if a[i] != b[i] {
        Some(i)
    } else {
        first_mismatch(a, b, i + 1)
    }
}

/// Why the chunks read back from the rewritten file `path`, with digests `actual`, are not
/// the chunks written, with digests `expected`: their number differs, or the first chunk
/// whose digest differs; `None` when they agree.
pub open spec fn checksum_failure(
    expected: Seq<Option<Seq<u8>>>,
    actual: Seq<Option<Seq<u8>>>,
    path: Seq<char>,
) -> Option<Seq<char>> {
    if expected.len() != actual.len() {
        Some(
            "Verification failed: chunk count mismatch (expected "@ + decimal(expected.len())
                + ", got "@ + decimal(actual.len()) + ")"@,
        )
    } else {
        match first_mismatch(actual, expected, 0) {
            Some(i) => Some(
                "Verification failed: SHA-512 mismatch for chunk "@ + decimal(i as nat) + " in '"@
                    + path + "'"@,
            ),
            None => None,
        }
    }
}

/// Whether two byte strings are equal.
fn bytes_eq(x: &Vec<u8>, y: &Vec<u8>) -> (r: bool)
    ensures
        r == (x@ == y@),
{
    if x.len() != y.len() {
        return false;
    }
    let mut i: usize = 0;
    while i < x.len()
        invariant
            i <= x@.len(),
            x@.len() == y@.len(),
            forall|j: int| 0 <= j < i ==> x@[j] == y@[j],
        decreases x@.len() - i,
    {
        if x[i] != y[i] {
            assert(x@[i as int] != y@[i as int]);
            return false;
        }
        i = i + 1;
    }
    assert(x@ =~= y@);
    true
}

/// Whether two digests are equal.
fn digest_eq(a: &Option<Vec<u8>>, b: &Option<Vec<u8>>) -> (r: bool)
    ensures
        r == (match (a, b) {
            (Some(x), Some(y)) => x@ == y@,
            (None, None) => true,
            _ => false,
        }),
{
    match (a, b) {
        (Some(x), Some(y)) => bytes_eq(x, y),
        (None, None) => true,
        _ => false,
    }
}

proof fn lemma_no_mismatch_before(a: Seq<Option<Seq<u8>>>, b: Seq<Option<Seq<u8>>>, i: int, k: int)
    requires
        0 <= k <= i,
        forall|j: int| 0 <= j < i ==> a[j] == b[j],
    ensures
        first_mismatch(a, b, k) == first_mismatch(a, b, i),
    decreases i - k,
{
    if k < i {
        lemma_no_mismatch_before(a, b, i, k + 1);
    }
}

/// Checks the digests `actual` of the chunks read back from the rewritten file `path`
/// against the digests `expected` of the chunks written; fails with a parsing error when
/// their number differs or at the first chunk whose digest differs.
pub fn verify_chunk_digests(
    expected: &Vec<Option<Vec<u8>>>,
    actual: &Vec<Option<Vec<u8>>>,
    path: &str,
) -> (r: Result<(), MddError>)
    ensures
        match checksum_failure(digest_views(expected@), digest_views(actual@), path@) {
            Some(m) => r matches Err(MddError::Parsing(e)) && e@ == m,
            None => r is Ok,
        },
{
    if expected.len() != actual.len() {
        let mut m = text("Verification failed: chunk count mismatch (expected ");
        push_decimal(&mut m, expected.len() as u64);
        push_text(&mut m, ", got ");
        push_decimal(&mut m, actual.len() as u64);
        push_text(&mut m, ")");
        return Err(MddError::Parsing(m));
    }
    let ghost a = digest_views(actual@);
    let ghost e = digest_views(expected@);
    let mut i: usize = 0;
    while i < actual.len()
        invariant
            i <= actual@.len(),
            actual@.len() == expected@.len(),
            a == digest_views(actual@),
            e == digest_views(expected@),
            forall|j: int| 0 <= j < i ==> a[j] == e[j],
        decreases actual@.len() - i,
    {
        if !digest_eq(&actual[i], &expected[i]) {
            proof {
                lemma_no_mismatch_before(a, e, i as int, 0);
                assert(a[i as int] != e[i as int]);
            }
            let mut m = text("Verification failed: SHA-512 mismatch for chunk ");
            push_decimal(&mut m, i as u64);
            push_text(&mut m, " in '");
            push_text(&mut m, path);
            push_text(&mut m, "'");
            return Err(MddError::Parsing(m));
        }
        proof {
            assert(a[i as int] == e[i as int]);
        }
        i = i + 1;
    }
    proof {
        lemma_no_mismatch_before(a, e, i as int, 0);
    }
    Ok(())
}

} // verus!
