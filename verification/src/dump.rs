//! Recognising the dump file's compression method from its name. The dump is
//! line-delimited entity records, optionally compressed with one of a small
//! fixed set of methods; a name that announces none of them is a hard error.

use vstd::prelude::*;

use crate::errors::ProcessingError;

verus! {

/// A compression method the dump reader supports.
#[derive(Clone, Copy, Debug, PartialEq, Eq, Structural)]
pub enum Compression {
    /// Plain line-delimited text.
    Plain,
    /// Gzip-compressed line-delimited text.
    Gzip,
}

/// Whether `s` ends with `suffix`.
pub open spec fn spec_ends_with(s: Seq<char>, suffix: Seq<char>) -> bool {
    s.len() >= suffix.len() && s.skip(s.len() - suffix.len()) == suffix
}

/// Whether the text ends with the given suffix.
fn ends_with(s: &str, suffix: &str) -> (r: bool)
    ensures
        r == spec_ends_with(s@, suffix@),
{
    let n = s.unicode_len();
    let k = suffix.unicode_len();
    if n < k {
        return false;
    }
    for i in 0..k
        invariant
            n == s@.len(),
            k == suffix@.len(),
            k <= n,
            forall|j: int| 0 <= j < i ==> s@[n - k + j] == suffix@[j],
    {
        if s.get_char(n - k + i) != suffix.get_char(i) {
            proof {
                assert(s@.skip(n as int - k as int)[i as int] == s@[n - k + i]);
            }
            return false;
        }
    }
    proof {
        assert(s@.skip(n as int - k as int) =~= suffix@);
    }
    true
}

/// Determines the compression method of the dump from its file name: `.gz`
/// names a gzip stream, `.json` and `.jsonl` name plain text, and any other
/// name is an unsupported-compression error.
pub fn compression_of(path: &str) -> (r: Result<Compression, ProcessingError>)
    ensures
        match r {
            Ok(c) => match c {
                Compression::Gzip => spec_ends_with(path@, ".gz"@),
                Compression::Plain => spec_ends_with(path@, ".json"@) || spec_ends_with(
                    path@,
                    ".jsonl"@,
                ),
            },
            Err(e) => {
                &&& e matches ProcessingError::CompressionMethod
                &&& !spec_ends_with(path@, ".gz"@)
                &&& !spec_ends_with(path@, ".json"@)
                &&& !spec_ends_with(path@, ".jsonl"@)
            },
        },
{
    if ends_with(path, ".gz") {
        Ok(Compression::Gzip)
    } else if ends_with(path, ".json") || ends_with(path, ".jsonl") {
        Ok(Compression::Plain)
    } else {
        Err(ProcessingError::CompressionMethod)
    }
}

} // verus!
