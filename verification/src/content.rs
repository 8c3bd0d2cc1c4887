//! Bounded loading and classification of a file's bytes.

use vstd::prelude::*;
use vstd::utf8::{decode_utf8, encode_utf8, encode_utf8_decode_utf8, valid_utf8};

verus! {

/// How many leading bytes the binary heuristic inspects.
pub const BINARY_WINDOW: usize = 8192;

/// The part of `bytes` that the binary heuristic looks at.
pub open spec fn binary_window(bytes: Seq<u8>) -> Seq<u8> {
    if bytes.len() <= BINARY_WINDOW {
        bytes
    } else {
        bytes.take(BINARY_WINDOW as int)
    }
}

/// True when a NUL byte occurs among the first `BINARY_WINDOW` bytes.
pub open spec fn has_nul_in_window(bytes: Seq<u8>) -> bool {
    binary_window(bytes).contains(0u8)
}

/// Heuristic: content with a NUL byte near its start is treated as binary.
pub fn looks_binary(bytes: &[u8]) -> (binary: bool)
    ensures
        binary == has_nul_in_window(bytes@),
{
    let n: usize = if bytes.len() <= BINARY_WINDOW { bytes.len() } else { BINARY_WINDOW };
    let mut i: usize = 0;
    while i < n
        invariant
            i <= n,
            n <= bytes.len(),
            n == binary_window(bytes@).len(),
            forall|j: int| 0 <= j < i ==> bytes@[j] != 0u8,
        decreases n - i,
    {
        if bytes[i] == 0 {
            assert(binary_window(bytes@)[i as int] == 0u8);
            return true;
        }
        i += 1;
    }
    false
}

/// The text that `String::from_utf8_lossy` makes of `bytes`: the decoded
/// characters, with U+FFFD standing in for what is not valid UTF-8.
pub uninterp spec fn utf8_lossy(bytes: Seq<u8>) -> Seq<char>;

/// `std::str::from_utf8`: succeeds exactly on valid UTF-8, and the string it
/// gives is made of the very bytes it was given.
#[verifier::external_body]
pub(crate) fn utf8_str(bytes: &[u8]) -> (text: Option<&str>)
    ensures
        text is Some <==> valid_utf8(bytes@),
        text matches Some(s) ==> encode_utf8(s@) == bytes@,
{
    std::str::from_utf8(bytes).ok()
}

/// `String::from_utf8_lossy`. The contract only gives its result a name.
#[verifier::external_body]
pub(crate) fn utf8_lossy_string(bytes: &[u8]) -> (text: String)
    ensures
        text@ == utf8_lossy(bytes@),
{
    String::from_utf8_lossy(bytes).into_owned()
}

/// The note that accompanies text decoded with replacement characters.
pub const LOSSY_NOTE: &'static str =
    "note: contained invalid UTF-8; printed with lossless replacement";

/// The text of `bytes` and the note that goes with it.
///
/// Valid UTF-8 decodes to itself, without a note. Anything else is refused in
/// strict mode (no text, no note) and otherwise decoded with replacement
/// characters, with `LOSSY_NOTE` to say so.
pub fn bytes_to_text(bytes: &[u8], strict_utf8: bool) -> (out: (
    Option<String>,
    Option<&'static str>,
))
    ensures
        valid_utf8(bytes@) ==> out.1 is None && out.0 is Some && out.0->0@ == decode_utf8(bytes@),
        !valid_utf8(bytes@) && strict_utf8 ==> out.0 is None && out.1 is None,
        !valid_utf8(bytes@) && !strict_utf8 ==> out.0 is Some && out.0->0@ == utf8_lossy(bytes@)
            && out.1 is Some && out.1->0@ == LOSSY_NOTE@,
{
    match utf8_str(bytes) {
        Some(s) => {
            proof {
                encode_utf8_decode_utf8(s@);
            }
            (Some(s.to_owned()), None)
        },
        None => {
            if strict_utf8 {
                (None, None)
            } else {
                (Some(utf8_lossy_string(bytes)), Some(LOSSY_NOTE))
            }
        },
    }
}

/// What the binary heuristic and the decoder make of a file's bytes.
#[derive(Debug)]
pub enum Classification {
    /// A NUL byte near the start: the content is not shown.
    Binary,
    /// Text to show, with a note when it was decoded with replacements.
    Text { content: String, note: Option<&'static str> },
    /// Not valid UTF-8, in strict mode: the content is not shown.
    UnreadableUtf8,
}

/// A classification as the contracts see it.
pub enum ClassificationView {
    Binary,
    Text { content: Seq<char>, note: Option<Seq<char>> },
    UnreadableUtf8,
}

impl View for Classification {
    type V = ClassificationView;

    open spec fn view(&self) -> ClassificationView {
        match self {
            Classification::Binary => ClassificationView::Binary,
            Classification::Text { content, note } => ClassificationView::Text {
                content: content@,
                note: match note {
                    Some(n) => Some(n@),
                    None => None,
                },
            },
            Classification::UnreadableUtf8 => ClassificationView::UnreadableUtf8,
        }
    }
}

/// The classification of `bytes`. The binary test comes first, so content
/// with a NUL byte in the inspected window is binary even where it is valid
/// UTF-8; a NUL byte beyond the window is not looked for.
pub open spec fn classification_of(bytes: Seq<u8>, strict_utf8: bool) -> ClassificationView {
    if has_nul_in_window(bytes) {
        ClassificationView::Binary
    } else if valid_utf8(bytes) {
        ClassificationView::Text { content: decode_utf8(bytes), note: None }
    } else if strict_utf8 {
        ClassificationView::UnreadableUtf8
    } else {
        ClassificationView::Text { content: utf8_lossy(bytes), note: Some(LOSSY_NOTE@) }
    }
}

/// Pairs the outcome of decoding with the outcome of the binary test.
pub fn classification_from(binary: bool, text: Option<String>, note: Option<&'static str>) -> (c:
    Classification)
    ensures
        c@ == if binary {
            ClassificationView::Binary
        } else {
            match text {
                Some(content) => ClassificationView::Text {
                    content: content@,
                    note: match note {
                        Some(n) => Some(n@),
                        None => None,
                    },
                },
                None => ClassificationView::UnreadableUtf8,
            }
        },
{
    if binary {
        Classification::Binary
    } else {
        match text {
            Some(content) => Classification::Text { content, note },
            None => Classification::UnreadableUtf8,
        }
    }
}

/// Classifies the bytes of a file as binary, as text, or as unreadable.
pub fn classify(bytes: &[u8], strict_utf8: bool) -> (c: Classification)
    ensures
        c@ == classification_of(bytes@, strict_utf8),
{
    if looks_binary(bytes) {
        Classification::Binary
    } else {
        let (text, note) = bytes_to_text(bytes, strict_utf8);
        classification_from(false, text, note)
    }
}

/// What was kept of a file's bytes, and whether anything was cut off.
#[derive(Debug)]
pub struct ReadResult {
    pub bytes: Vec<u8>,
    pub truncated: bool,
}

/// Why a file could not be read.
#[derive(Debug)]
pub struct ReadError {
    pub path: String,
    pub cause: String,
}

impl ReadError {
    /// The error of a read of the file at `path` that failed for `cause`.
    pub fn new(path: &str, cause: &str) -> (e: ReadError)
        ensures
            e.path@ == path@,
            e.cause@ == cause@,
    {
        ReadError { path: path.to_owned(), cause: cause.to_owned() }
    }
}

/// How many bytes to read of a file so that `load` can tell whether it is
/// longer than `max_bytes`: one more than the cap, as far as `u64` goes.
pub open spec fn read_limit_of(max_bytes: usize) -> int {
    if max_bytes < u64::MAX {
        max_bytes + 1
    } else {
        u64::MAX as int
    }
}

/// The number of bytes to read of a file for a cap of `max_bytes`.
pub fn read_limit(max_bytes: usize) -> (limit: u64)
    ensures
        limit == read_limit_of(max_bytes),
{
    let cap: u64 = max_bytes as u64;
    if cap < u64::MAX {
        cap + 1
    } else {
        cap
    }
}

/// Bounds what was read of a file to `max_bytes`.
///
/// Content of at most `max_bytes` bytes is kept whole and not marked
/// truncated. Of longer content exactly the first `max_bytes` bytes are kept,
/// and the result is marked truncated.
pub fn load(read: Vec<u8>, max_bytes: usize) -> (loaded: ReadResult)
    ensures
        loaded.truncated == (read@.len() > max_bytes),
        read@.len() <= max_bytes ==> loaded.bytes@ == read@,
        read@.len() > max_bytes ==> loaded.bytes@ == read@.take(max_bytes as int),
{
    let mut bytes = read;
    let truncated = bytes.len() > max_bytes;
    if truncated {
        bytes.truncate(max_bytes);
    }
    ReadResult { bytes, truncated }
}

} // verus!
