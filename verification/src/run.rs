//! One run over the files that a walk found: the order in which they are
//! shown, the listing, one segment per file, and the counters.

use crate::content::ReadError;
use crate::order::{all_below, in_order, sorted_order};
use crate::paths::{rel_path, relative_to};
use crate::render::{
    file_segment, has_room, heading, listing_text, read_view, render_file, render_listing,
    summary_after, Segment, Summary,
};
use crate::text::texts;
use vstd::prelude::*;

verus! {

/// A run in progress.
///
/// The files are shown in ascending order of their paths relative to the
/// root. The caller reads the file that `next` names and hands what it read
/// to `render`, until `next` has no more to name.
#[derive(Debug)]
pub struct Run {
    root: String,
    max_bytes: usize,
    strict_utf8: bool,
    paths: Vec<String>,
    rels: Vec<String>,
    order: Vec<usize>,
    done: usize,
    summary: Summary,
}

/// A run as the contracts see it.
pub struct RunView {
    /// The root of the walk.
    pub root: Seq<char>,
    /// The cap on the bytes shown of one file.
    pub max_bytes: usize,
    /// Whether files that are not valid UTF-8 are skipped.
    pub strict_utf8: bool,
    /// The paths of the files, as the walk found them.
    pub paths: Seq<Seq<char>>,
    /// The positions in `paths`, in the order in which the files are shown.
    pub order: Seq<usize>,
    /// How many files have been rendered.
    pub done: nat,
    /// The counters so far.
    pub summary: Summary,
}

impl RunView {
    /// The path of each file relative to the root.
    pub open spec fn rels(self) -> Seq<Seq<char>> {
        self.paths.map_values(|p: Seq<char>| relative_to(self.root, p))
    }

    /// The relative paths in the order in which the files are shown.
    pub open spec fn listed(self) -> Seq<Seq<char>> {
        Seq::new(self.order.len(), |k: int| self.rels()[self.order[k] as int])
    }

    /// Every file is shown exactly once, in ascending order of its relative
    /// path; no more files are rendered than there are, and no more are
    /// counted than were rendered. The files are few enough to be counted.
    pub open spec fn consistent(self) -> bool {
        &&& self.order.len() == self.paths.len()
        &&& self.order.len() <= usize::MAX
        &&& all_below(self.order, self.paths.len() as int)
        &&& self.order.no_duplicates()
        &&& in_order(self.rels(), self.order)
        &&& self.done <= self.order.len()
        &&& self.summary.printed + self.summary.skipped_binary + self.summary.skipped_utf8
            <= self.done
    }
}

impl View for Run {
    type V = RunView;

    closed spec fn view(&self) -> RunView {
        RunView {
            root: self.root@,
            max_bytes: self.max_bytes,
            strict_utf8: self.strict_utf8,
            paths: texts(self.paths@),
            order: self.order@,
            done: self.done as nat,
            summary: self.summary,
        }
    }
}

impl Run {
    /// The run is consistent and holds the relative path of each file.
    pub closed spec fn wf(&self) -> bool {
        &&& self@.consistent()
        &&& self.rels@.len() == self.paths@.len()
        &&& texts(self.rels@) == self@.rels()
    }

    /// A well-formed run is consistent.
    pub proof fn lemma_consistent(&self)
        requires
            self.wf(),
        ensures
            self@.consistent(),
    {
    }

    /// Starts a run over the files at `paths`, found in a walk of `root`.
    pub fn new(root: &str, paths: Vec<String>, max_bytes: usize, strict_utf8: bool) -> (run: Run)
        ensures
            run.wf(),
            run@.consistent(),
            run@.root == root@,
            run@.max_bytes == max_bytes,
            run@.strict_utf8 == strict_utf8,
            run@.paths == texts(paths@),
            run@.done == 0,
            run@.summary == (Summary { printed: 0, skipped_binary: 0, skipped_utf8: 0 }),
    {
        let ghost all = texts(paths@).map_values(|p: Seq<char>| relative_to(root@, p));
        let mut rels: Vec<String> = Vec::new();
        let mut i: usize = 0;
        while i < paths.len()
            invariant
                i <= paths.len(),
                all == texts(paths@).map_values(|p: Seq<char>| relative_to(root@, p)),
                texts(rels@) == all.take(i as int),
            decreases paths.len() - i,
        {
            let rel = rel_path(root, paths[i].as_str()).to_owned();
            rels.push(rel);
            assert(texts(rels@) == all.take(i as int).push(rel@));
            i += 1;
        }
        assert(all.take(i as int) == all);
        let order = sorted_order(rels.as_slice());
        Run {
            root: root.to_owned(),
            max_bytes,
            strict_utf8,
            paths,
            rels,
            order,
            done: 0,
            summary: Summary::new(),
        }
    }

    /// The listing of the files, in the order in which they are shown.
    pub fn listing(&self) -> (text: String)
        requires
            self.wf(),
        ensures
            text@ == listing_text(self@.listed()),
    {
        let ghost all = self@.listed();
        let mut listed: Vec<String> = Vec::new();
        let mut k: usize = 0;
        while k < self.order.len()
            invariant
                k <= self.order.len(),
                self.wf(),
                all == self@.listed(),
                texts(listed@) == all.take(k as int),
            decreases self.order.len() - k,
        {
            let at = self.order[k];
            let rel = self.rels[at].clone();
            listed.push(rel);
            proof {
                assert(texts(listed@) == all.take(k as int).push(rel@));
            }
            k += 1;
        }
        assert(all.take(k as int) == all);
        render_listing(listed.as_slice())
    }

    /// The position, among the paths that the run was started with, of the
    /// file to read and render next; `None` when every file is rendered.
    pub fn next(&self) -> (at: Option<usize>)
        requires
            self.wf(),
        ensures
            at == if self@.done < self@.order.len() {
                Some(self@.order[self@.done as int])
            } else {
                None
            },
            at matches Some(k) ==> k < self@.paths.len(),
    {
        if self.done < self.order.len() {
            Some(self.order[self.done])
        } else {
            None
        }
    }

    /// Renders the segment of the next file from what was read of it, and
    /// counts the file.
    pub fn render(&mut self, read: Result<Vec<u8>, ReadError>) -> (seg: Segment)
        requires
            old(self).wf(),
            old(self)@.done < old(self)@.order.len(),
        ensures
            final(self).wf(),
            final(self)@.consistent(),
            seg@ == file_segment(
                old(self)@.root,
                old(self)@.paths[old(self)@.order[old(self)@.done as int] as int],
                read_view(read),
                old(self)@.max_bytes,
                old(self)@.strict_utf8,
            ),
            final(self)@ == (RunView {
                done: old(self)@.done + 1,
                summary: summary_after(old(self)@.summary, seg.outcome),
                ..old(self)@
            }),
            has_room(old(self)@.summary, seg.outcome),
    {
        let at = self.order[self.done];
        let seg = render_file(
            self.root.as_str(),
            self.paths[at].as_str(),
            read,
            self.max_bytes,
            self.strict_utf8,
        );
        self.summary.record(seg.outcome);
        self.done = self.done + 1;
        seg
    }

    /// The counters so far.
    pub fn summary(&self) -> (summary: Summary)
        ensures
            summary == self@.summary,
    {
        self.summary
    }
}

/// The listing and the segments agree: the segment of a file begins with the
/// heading of the relative path under which the listing shows the file.
pub proof fn lemma_segment_is_headed_by_listed_path(run: RunView, k: int, read: Result<
    Seq<u8>,
    Seq<char>,
>)
    requires
        run.consistent(),
        0 <= k < run.order.len(),
    ensures
        heading(run.listed()[k]).is_prefix_of(
            file_segment(
                run.root,
                run.paths[run.order[k] as int],
                read,
                run.max_bytes,
                run.strict_utf8,
            ).text,
        ),
{
}

} // verus!
