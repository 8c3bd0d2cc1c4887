//! The boundary to the `ignore` crate: its override matcher, seen as a list
//! of glob lines rooted at a directory. Nothing in this file is proved; every
//! contract here is read off the crate's source.

use crate::text::white_space;
use ignore::overrides::{Override, OverrideBuilder};
use ignore::Match;
use vstd::prelude::*;

verus! {

/// `ignore::overrides::OverrideBuilder`, opaque to the verifier.
#[verifier::external_type_specification]
#[verifier::external_body]
pub struct ExOverrideBuilder(ignore::overrides::OverrideBuilder);

/// `ignore::overrides::Override`, opaque to the verifier.
#[verifier::external_type_specification]
#[verifier::external_body]
pub struct ExOverride(ignore::overrides::Override);

/// What an override matcher says of one path.
#[derive(Clone, Copy, Debug, PartialEq, Eq)]
pub enum MatchKind {
    /// No glob decided.
    Unmatched,
    /// The path is to be left out.
    Ignore,
    /// The path is explicitly let in.
    Whitelist,
}

/// The root path that a builder holds: it matches relative to it.
pub uninterp spec fn builder_root(ob: OverrideBuilder) -> Seq<char>;

/// The lines of the globs that a builder holds, oldest first.
pub uninterp spec fn builder_lines(ob: OverrideBuilder) -> Seq<Seq<char>>;

/// The root path that a matcher holds: it matches relative to it.
pub uninterp spec fn override_root(ov: Override) -> Seq<char>;

/// The lines of the globs that a matcher holds, oldest first.
pub uninterp spec fn override_lines(ov: Override) -> Seq<Seq<char>>;

/// What `OverrideBuilder::add` objects to in `line`, with the builder's
/// options left as `OverrideBuilder::new` sets them: the text of the error it
/// returns, or nothing where it accepts the line.
pub uninterp spec fn add_error(line: Seq<char>) -> Option<Seq<char>>;

/// What `OverrideBuilder::build` objects to in a builder holding `lines`: the
/// text of the error it returns, or nothing where it succeeds.
pub uninterp spec fn build_error(lines: Seq<Seq<char>>) -> Option<Seq<char>>;

/// What `Override::matched` answers for `path`, for a matcher that holds the
/// root `root` and the lines `lines`.
pub uninterp spec fn override_outcome(
    root: Seq<char>,
    lines: Seq<Seq<char>>,
    path: Seq<char>,
    is_dir: bool,
) -> MatchKind;

/// A line that `OverrideBuilder::add` takes for a glob as it stands: it is
/// not blank, it is no comment (no `#` in front), and it does not end in
/// whitespace, which `add` would cut off.
pub open spec fn addable(line: Seq<char>) -> bool {
    &&& line.len() > 0
    &&& line[0] != '#'
    &&& !white_space(line.last())
}

/// The root that a builder keeps of the path it is made with: the path
/// without one leading `./`.
pub open spec fn rooted(root: Seq<char>) -> Seq<char> {
    if root.len() >= 2 && root[0] == '.' && root[1] == '/' {
        root.skip(2)
    } else {
        root
    }
}

/// `OverrideBuilder::new`: a builder that holds no glob yet, and for its
/// root the given path without one leading `./`.
#[verifier::external_body]
pub(crate) fn new_builder(root: &str) -> (ob: OverrideBuilder)
    ensures
        builder_root(ob) == rooted(root@),
        builder_lines(ob) == Seq::<Seq<char>>::empty(),
{
    OverrideBuilder::new(root)
}

/// `OverrideBuilder::add`, on a builder whose options are as `new_builder`
/// leaves them, for a line that is neither blank nor a comment and does not
/// end in whitespace (of other lines `add` holds nothing, or not the line as
/// given). Whether the line is accepted depends on the line alone. An
/// accepted line is held as it was given; a rejected one leaves the builder
/// as it was, and what comes back is the text of the error. The root never
/// changes.
#[verifier::external_body]
pub(crate) fn builder_add(ob: &mut OverrideBuilder, line: &str) -> (res: Result<(), String>)
    requires
        addable(line@),
    ensures
        builder_root(*final(ob)) == builder_root(*old(ob)),
        match res {
            Ok(_) => add_error(line@) is None && builder_lines(*final(ob)) == builder_lines(
                *old(ob),
            ).push(line@),
            Err(text) => add_error(line@) == Some(text@) && builder_lines(*final(ob))
                == builder_lines(*old(ob)),
        },
{
    match ob.add(line) {
        Ok(_) => Ok(()),
        Err(e) => Err(e.to_string()),
    }
}

/// `OverrideBuilder::build`: whether it succeeds depends on the lines held
/// alone. The matcher it gives has the builder's root and lines; where it
/// fails, what comes back is the text of the error.
#[verifier::external_body]
pub(crate) fn builder_build(ob: &OverrideBuilder) -> (res: Result<Override, String>)
    ensures
        match res {
            Ok(ov) => build_error(builder_lines(*ob)) is None && override_root(ov)
                == builder_root(*ob) && override_lines(ov) == builder_lines(*ob),
            Err(text) => build_error(builder_lines(*ob)) == Some(text@),
        },
{
    match ob.build() {
        Ok(ov) => Ok(ov),
        Err(e) => Err(e.to_string()),
    }
}

/// `Override::matched`: the answer is a function of the matcher's root and
/// lines, the path and the directory flag.
#[verifier::external_body]
pub(crate) fn override_matched(ov: &Override, path: &str, is_dir: bool) -> (kind: MatchKind)
    ensures
        kind == override_outcome(override_root(*ov), override_lines(*ov), path@, is_dir),
{
    match ov.matched(path, is_dir) {
        Match::None => MatchKind::Unmatched,
        Match::Ignore(_) => MatchKind::Ignore,
        Match::Whitelist(_) => MatchKind::Whitelist,
    }
}

} // verus!
