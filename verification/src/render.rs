//! Rendering: how a file becomes a labelled segment of the document, and how
//! the run is summed up.

use crate::content::{
    classification_of, classify, load, Classification, ClassificationView, ReadError,
};
use crate::paths::{extension_or_empty, language_tag, rel_path, relative_to, tag_of};
use crate::text::{
    ascii_lowercase, decimal, decimal_string, ends_with_newline, has_final_newline, texts,
};
use vstd::prelude::*;
use vstd::utf8::encode_utf8;

verus! {

/// What became of one file.
#[derive(Clone, Copy, Debug, PartialEq, Eq)]
pub enum Outcome {
    /// Its text was printed in a fenced block.
    Printed,
    /// It looked binary and was skipped.
    SkippedBinary,
    /// It was not valid UTF-8 and was skipped.
    SkippedUtf8,
    /// It could not be read.
    ReadFailed,
}

/// One file's part of the document.
#[derive(Debug)]
pub struct Segment {
    pub text: String,
    pub outcome: Outcome,
}

/// A segment as the contracts see it.
pub struct SegmentView {
    pub text: Seq<char>,
    pub outcome: Outcome,
}

impl View for Segment {
    type V = SegmentView;

    open spec fn view(&self) -> SegmentView {
        SegmentView { text: self.text@, outcome: self.outcome }
    }
}

/// The heading of a segment: the file's path relative to the walk root.
pub open spec fn heading(rel: Seq<char>) -> Seq<char> {
    "## `"@ + rel + "`\n\n"@
}

/// The body of a fenced block: the content, with a line feed added where the
/// content does not end in one, so that the closing fence starts a line.
pub open spec fn fenced_body(content: Seq<char>) -> Seq<char> {
    if ends_with_newline(content) {
        content
    } else {
        content.push('\n')
    }
}

/// The line that says that a file was cut off.
pub open spec fn truncation_line(truncated: bool, max_bytes: usize) -> Seq<char> {
    if truncated {
        "(truncated to "@ + decimal(max_bytes as nat) + " bytes)\n\n"@
    } else {
        Seq::empty()
    }
}

/// The line that carries a decoding note.
pub open spec fn note_line(note: Option<Seq<char>>) -> Seq<char> {
    match note {
        Some(n) => "("@ + n + ")\n\n"@,
        None => Seq::empty(),
    }
}

/// Everything of a text segment that precedes the content.
pub open spec fn block_opening(
    rel: Seq<char>,
    lang: Seq<char>,
    note: Option<Seq<char>>,
    truncated: bool,
    max_bytes: usize,
) -> Seq<char> {
    heading(rel) + truncation_line(truncated, max_bytes) + note_line(note) + "```"@ + lang
        + "\n"@
}

/// The closing fence and the blank line after it.
pub open spec fn block_closing() -> Seq<char> {
    "```\n\n"@
}

/// The segment of a file whose text is shown.
pub open spec fn text_segment(
    rel: Seq<char>,
    lang: Seq<char>,
    content: Seq<char>,
    note: Option<Seq<char>>,
    truncated: bool,
    max_bytes: usize,
) -> Seq<char> {
    block_opening(rel, lang, note, truncated, max_bytes) + fenced_body(content) + block_closing()
}

/// The segment of a file that could not be read.
pub open spec fn read_error_segment(rel: Seq<char>, cause: Seq<char>) -> SegmentView {
    SegmentView {
        text: heading(rel) + "(skipped: failed to read file: "@ + cause + ")\n\n"@,
        outcome: Outcome::ReadFailed,
    }
}

/// The segment of a file whose bytes were classified.
pub open spec fn classified_segment(
    rel: Seq<char>,
    lang: Seq<char>,
    class: ClassificationView,
    truncated: bool,
    max_bytes: usize,
) -> SegmentView {
    match class {
        ClassificationView::Binary => SegmentView {
            text: heading(rel) + "(skipped: binary)\n\n"@,
            outcome: Outcome::SkippedBinary,
        },
        ClassificationView::UnreadableUtf8 => SegmentView {
            text: heading(rel) + "(skipped: not valid UTF-8)\n\n"@,
            outcome: Outcome::SkippedUtf8,
        },
        ClassificationView::Text { content, note } => SegmentView {
            text: text_segment(rel, lang, content, note, truncated, max_bytes),
            outcome: Outcome::Printed,
        },
    }
}

/// Starts a segment with its heading.
fn begin_segment(rel: &str) -> (text: String)
    ensures
        text@ == heading(rel@),
{
    let mut text = String::from_str("## `");
    text.append(rel);
    text.append("`\n\n");
    text
}

/// Renders the segment of a file that could not be read.
pub fn render_read_error(rel: &str, cause: &str) -> (seg: Segment)
    ensures
        seg@ == read_error_segment(rel@, cause@),
{
    let mut text = begin_segment(rel);
    text.append("(skipped: failed to read file: ");
    text.append(cause);
    text.append(")\n\n");
    Segment { text, outcome: Outcome::ReadFailed }
}

/// Renders the segment of a file from the classification of its bytes.
///
/// Binary and undecodable content gets a placeholder. Text is fenced under
/// the language tag, after a line that says so when the file was cut off at
/// `max_bytes` and a line with the decoding note when there is one.
pub fn render_classified(
    rel: &str,
    lang: &str,
    class: &Classification,
    truncated: bool,
    max_bytes: usize,
) -> (seg: Segment)
    ensures
        seg@ == classified_segment(rel@, lang@, class@, truncated, max_bytes),
{
    let mut text = begin_segment(rel);
    match class {
        Classification::Binary => {
            text.append("(skipped: binary)\n\n");
            Segment { text, outcome: Outcome::SkippedBinary }
        },
        Classification::UnreadableUtf8 => {
            text.append("(skipped: not valid UTF-8)\n\n");
            Segment { text, outcome: Outcome::SkippedUtf8 }
        },
        Classification::Text { content, note } => {
            if truncated {
                text.append("(truncated to ");
                text.append(decimal_string(max_bytes).as_str());
                text.append(" bytes)\n\n");
            }
            match note {
                Some(n) => {
                    text.append("(");
                    text.append(n);
                    text.append(")\n\n");
                },
                None => {},
            }
            text.append("```");
            text.append(lang);
            text.append("\n");
            text.append(content.as_str());
            if !has_final_newline(content.as_str()) {
                proof {
                    reveal_strlit("\n");
                }
                text.append("\n");
            }
            text.append("```\n\n");
            assert(text@ == text_segment(
                rel@,
                lang@,
                content@,
                match note {
                    Some(n) => Some(n@),
                    None => None,
                },
                truncated,
                max_bytes,
            ));
            Segment { text, outcome: Outcome::Printed }
        },
    }
}

/// What was read of a file, or why nothing was, as the contracts see it.
pub open spec fn read_view(read: Result<Vec<u8>, ReadError>) -> Result<Seq<u8>, Seq<char>> {
    match read {
        Ok(bytes) => Ok(bytes@),
        Err(e) => Err(e.cause@),
    }
}

/// The segment of the file at `path`, of which `read` was read, in a walk of
/// `root`: the bytes are cut at `max_bytes`, classified and rendered under
/// the path relative to the root, with the language tag of the path's
/// extension.
pub open spec fn file_segment(
    root: Seq<char>,
    path: Seq<char>,
    read: Result<Seq<u8>, Seq<char>>,
    max_bytes: usize,
    strict_utf8: bool,
) -> SegmentView {
    let rel = relative_to(root, path);
    match read {
        Err(cause) => read_error_segment(rel, cause),
        Ok(bytes) => {
            let truncated = bytes.len() > max_bytes;
            let kept = if truncated {
                bytes.take(max_bytes as int)
            } else {
                bytes
            };
            classified_segment(
                rel,
                tag_of(ascii_lowercase(extension_or_empty(path))),
                classification_of(kept, strict_utf8),
                truncated,
                max_bytes,
            )
        },
    }
}

/// Renders the segment of one file from what was read of it.
pub fn render_file(
    root: &str,
    path: &str,
    read: Result<Vec<u8>, ReadError>,
    max_bytes: usize,
    strict_utf8: bool,
) -> (seg: Segment)
    ensures
        seg@ == file_segment(root@, path@, read_view(read), max_bytes, strict_utf8),
{
    let rel = rel_path(root, path);
    match read {
        Err(e) => render_read_error(rel, e.cause.as_str()),
        Ok(bytes) => {
            let lang = language_tag(path);
            let loaded = load(bytes, max_bytes);
            let class = classify(loaded.bytes.as_slice(), strict_utf8);
            render_classified(rel, lang, &class, loaded.truncated, max_bytes)
        },
    }
}

/// Rendering is repeatable: two segments rendered from the same root, path,
/// bytes and flags have the same text, character for character and byte for
/// byte, and the same outcome.
pub proof fn lemma_rendering_repeatable(
    first: SegmentView,
    second: SegmentView,
    root: Seq<char>,
    path: Seq<char>,
    read: Result<Seq<u8>, Seq<char>>,
    max_bytes: usize,
    strict_utf8: bool,
)
    requires
        first == file_segment(root, path, read, max_bytes, strict_utf8),
        second == file_segment(root, path, read, max_bytes, strict_utf8),
    ensures
        first.text == second.text,
        encode_utf8(first.text) == encode_utf8(second.text),
        first.outcome == second.outcome,
{
}

/// The number of line feeds that `s` ends with.
pub open spec fn trailing_newlines(s: Seq<char>) -> nat
    decreases s.len(),
{
    if ends_with_newline(s) {
        1 + trailing_newlines(s.drop_last())
    } else {
        0
    }
}

/// In a text segment the content is followed by the closing fence on a line
/// of its own. Where the content does not end in a line feed, exactly one
/// line feed stands between the content and the fence.
pub proof fn lemma_fence_on_own_line(
    rel: Seq<char>,
    lang: Seq<char>,
    content: Seq<char>,
    note: Option<Seq<char>>,
    truncated: bool,
    max_bytes: usize,
)
    ensures
        text_segment(rel, lang, content, note, truncated, max_bytes) == block_opening(
            rel,
            lang,
            note,
            truncated,
            max_bytes,
        ) + fenced_body(content) + block_closing(),
        ends_with_newline(fenced_body(content)),
        !ends_with_newline(content) ==> fenced_body(content) == content + seq!['\n']
            && trailing_newlines(fenced_body(content)) == 1,
{
    if !ends_with_newline(content) {
        let body = fenced_body(content);
        assert(body.drop_last() == content);
        assert(trailing_newlines(body) == 1 + trailing_newlines(content));
    }
}

/// The counters of a run.
#[derive(Clone, Copy, Debug, PartialEq, Eq)]
pub struct Summary {
    pub printed: usize,
    pub skipped_binary: usize,
    pub skipped_utf8: usize,
}

/// Whether the counter that `outcome` raises can still go up.
pub open spec fn has_room(summary: Summary, outcome: Outcome) -> bool {
    match outcome {
        Outcome::Printed => summary.printed < usize::MAX,
        Outcome::SkippedBinary => summary.skipped_binary < usize::MAX,
        Outcome::SkippedUtf8 => summary.skipped_utf8 < usize::MAX,
        Outcome::ReadFailed => true,
    }
}

/// The summary after one more file with the given outcome. A file that could
/// not be read counts nowhere.
pub open spec fn summary_after(before: Summary, outcome: Outcome) -> Summary {
    match outcome {
        Outcome::Printed => Summary { printed: (before.printed + 1) as usize, ..before },
        Outcome::SkippedBinary => Summary {
            skipped_binary: (before.skipped_binary + 1) as usize,
            ..before
        },
        Outcome::SkippedUtf8 => Summary {
            skipped_utf8: (before.skipped_utf8 + 1) as usize,
            ..before
        },
        Outcome::ReadFailed => before,
    }
}

/// The summary line of a run.
pub open spec fn summary_text(summary: Summary) -> Seq<char> {
    "printed "@ + decimal(summary.printed as nat) + " files, skipped binary "@ + decimal(
        summary.skipped_binary as nat,
    ) + ", skipped utf8 "@ + decimal(summary.skipped_utf8 as nat)
}

impl Summary {
    /// The summary of a run that has seen no file yet.
    pub fn new() -> (summary: Summary)
        ensures
            summary.printed == 0,
            summary.skipped_binary == 0,
            summary.skipped_utf8 == 0,
    {
        Summary { printed: 0, skipped_binary: 0, skipped_utf8: 0 }
    }

    /// Counts one more file. No counter ever goes down.
    pub fn record(&mut self, outcome: Outcome)
        requires
            has_room(*old(self), outcome),
        ensures
            *final(self) == summary_after(*old(self), outcome),
            final(self).printed >= old(self).printed,
            final(self).skipped_binary >= old(self).skipped_binary,
            final(self).skipped_utf8 >= old(self).skipped_utf8,
    {
        match outcome {
            Outcome::Printed => {
                self.printed = self.printed + 1;
            },
            Outcome::SkippedBinary => {
                self.skipped_binary = self.skipped_binary + 1;
            },
            Outcome::SkippedUtf8 => {
                self.skipped_utf8 = self.skipped_utf8 + 1;
            },
            Outcome::ReadFailed => {},
        }
    }

    /// Whether one more file with the given outcome can still be counted.
    pub fn can_record(&self, outcome: Outcome) -> (ok: bool)
        ensures
            ok == has_room(*self, outcome),
    {
        match outcome {
            Outcome::Printed => self.printed < usize::MAX,
            Outcome::SkippedBinary => self.skipped_binary < usize::MAX,
            Outcome::SkippedUtf8 => self.skipped_utf8 < usize::MAX,
            Outcome::ReadFailed => true,
        }
    }

    /// The line that sums up the run.
    pub fn line(&self) -> (text: String)
        ensures
            text@ == summary_text(*self),
    {
        let mut text = String::from_str("printed ");
        text.append(decimal_string(self.printed).as_str());
        text.append(" files, skipped binary ");
        text.append(decimal_string(self.skipped_binary).as_str());
        text.append(", skipped utf8 ");
        text.append(decimal_string(self.skipped_utf8).as_str());
        text
    }
}

/// `yes` or `no`.
pub open spec fn yes_no(b: bool) -> Seq<char> {
    if b {
        "yes"@
    } else {
        "no"@
    }
}

/// The title and the metadata block of the document.
pub open spec fn preamble_text(
    root: Seq<char>,
    respect_gitignore: bool,
    hidden_included: bool,
    max_bytes: usize,
) -> Seq<char> {
    "# dir2prompt dump\n\n- Root: `"@ + root + "`\n- Respect .gitignore: `"@ + yes_no(
        respect_gitignore,
    ) + "`\n- Hidden files included: `"@ + yes_no(hidden_included)
        + "`\n- Per-file max bytes: `"@ + decimal(max_bytes as nat) + "`\n\n"@
}

/// Renders the title and the metadata block of the document.
pub fn render_preamble(
    root: &str,
    respect_gitignore: bool,
    hidden_included: bool,
    max_bytes: usize,
) -> (text: String)
    ensures
        text@ == preamble_text(root@, respect_gitignore, hidden_included, max_bytes),
{
    let mut text = String::from_str("# dir2prompt dump\n\n- Root: `");
    text.append(root);
    text.append("`\n- Respect .gitignore: `");
    text.append(if respect_gitignore { "yes" } else { "no" });
    text.append("`\n- Hidden files included: `");
    text.append(if hidden_included { "yes" } else { "no" });
    text.append("`\n- Per-file max bytes: `");
    text.append(decimal_string(max_bytes).as_str());
    text.append("`\n\n");
    text
}

/// One bullet per path, in the order given.
pub open spec fn listing_items(rels: Seq<Seq<char>>) -> Seq<char>
    decreases rels.len(),
{
    if rels.len() == 0 {
        Seq::empty()
    } else {
        listing_items(rels.drop_last()) + "- `"@ + rels.last() + "`\n"@
    }
}

/// The listing of the included files and the separator after it.
pub open spec fn listing_text(rels: Seq<Seq<char>>) -> Seq<char> {
    "## Included files\n"@ + listing_items(rels) + "\n---\n\n"@
}

/// Renders the listing of the included files, one bullet per relative path,
/// in the order given, and the separator that precedes the segments.
pub fn render_listing(rels: &[String]) -> (text: String)
    ensures
        text@ == listing_text(texts(rels@)),
{
    let ghost all = texts(rels@);
    let mut text = String::from_str("## Included files\n");
    let mut i: usize = 0;
    while i < rels.len()
        invariant
            i <= rels.len(),
            all == texts(rels@),
            text@ == "## Included files\n"@ + listing_items(all.take(i as int)),
        decreases rels.len() - i,
    {
        proof {
            let shown = all.take(i as int + 1);
            assert(shown.drop_last() == all.take(i as int));
        }
        text.append("- `");
        text.append(rels[i].as_str());
        text.append("`\n");
        i += 1;
    }
    assert(all.take(i as int) == all);
    text.append("\n---\n\n");
    text
}

} // verus!
