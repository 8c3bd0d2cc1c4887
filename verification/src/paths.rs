//! Paths as the library sees them: plain strings, taken apart by the
//! standard library's `Path`.

use crate::text::{ascii_lowercase, lowercase_is};
use vstd::prelude::*;

verus! {

/// The extension that `Path::extension` finds in `path`: the part of the file
/// name after its last dot, if the file name has one that does not start it.
pub uninterp spec fn extension_of(path: Seq<char>) -> Option<Seq<char>>;

/// What `Path::strip_prefix` leaves of `path` once the leading components
/// `base` are taken off, if `path` starts with them.
pub uninterp spec fn without_prefix(path: Seq<char>, base: Seq<char>) -> Option<Seq<char>>;

/// The characters of an optional string.
pub open spec fn optional_text(s: Option<&str>) -> Option<Seq<char>> {
    match s {
        Some(s) => Some(s@),
        None => None,
    }
}

/// `Path::extension`, on a path given as a string. The contract only gives
/// its answer a name.
#[verifier::external_body]
pub(crate) fn path_extension(path: &str) -> (ext: Option<&str>)
    ensures
        optional_text(ext) == extension_of(path@),
{
    match std::path::Path::new(path).extension() {
        Some(ext) => ext.to_str(),
        None => None,
    }
}

/// `Path::strip_prefix`, on paths given as strings. The contract only gives
/// its answer a name.
#[verifier::external_body]
pub(crate) fn strip_path_prefix<'a>(path: &'a str, base: &str) -> (rest: Option<&'a str>)
    ensures
        optional_text(rest) == without_prefix(path@, base@),
{
    match std::path::Path::new(path).strip_prefix(base) {
        Ok(rest) => rest.to_str(),
        Err(_) => None,
    }
}

/// The path to show for a file: what is left of `path` below `root`, or
/// `path` itself where it does not lie below `root`.
pub open spec fn relative_to(root: Seq<char>, path: Seq<char>) -> Seq<char> {
    match without_prefix(path, root) {
        Some(rest) => rest,
        None => path,
    }
}

/// Chooses between a path's remainder below the root and the path itself.
pub fn relative_or<'a>(stripped: Option<&'a str>, path: &'a str) -> (rel: &'a str)
    ensures
        rel@ == match stripped {
            Some(rest) => rest@,
            None => path@,
        },
{
    match stripped {
        Some(rest) => rest,
        None => path,
    }
}

/// The path of a file relative to the walk root.
pub fn rel_path<'a>(root: &str, path: &'a str) -> (rel: &'a str)
    ensures
        rel@ == relative_to(root@, path@),
{
    relative_or(strip_path_prefix(path, root), path)
}

/// The language tag for a lower-case extension; `text` for every extension
/// that the table does not hold, the empty one among them.
pub open spec fn tag_of(ext: Seq<char>) -> Seq<char> {
    if ext == "rs"@ {
        "rust"@
    } else if ext == "toml"@ {
        "toml"@
    } else if ext == "md"@ {
        "markdown"@
    } else if ext == "txt"@ {
        "text"@
    } else if ext == "json"@ {
        "json"@
    } else if ext == "yml"@ {
        "yaml"@
    } else if ext == "yaml"@ {
        "yaml"@
    } else if ext == "js"@ {
        "javascript"@
    } else if ext == "ts"@ {
        "ts"@
    } else if ext == "jsx"@ {
        "jsx"@
    } else if ext == "tsx"@ {
        "tsx"@
    } else if ext == "py"@ {
        "python"@
    } else if ext == "sh"@ {
        "bash"@
    } else if ext == "zsh"@ {
        "zsh"@
    } else if ext == "fish"@ {
        "fish"@
    } else if ext == "go"@ {
        "go"@
    } else if ext == "java"@ {
        "java"@
    } else if ext == "kt"@ {
        "kotlin"@
    } else if ext == "kts"@ {
        "kotlin"@
    } else if ext == "c"@ {
        "c"@
    } else if ext == "h"@ {
        "c"@
    } else if ext == "cpp"@ {
        "cpp"@
    } else if ext == "cc"@ {
        "cpp"@
    } else if ext == "cxx"@ {
        "cpp"@
    } else if ext == "hpp"@ {
        "cpp"@
    } else if ext == "hh"@ {
        "cpp"@
    } else if ext == "hxx"@ {
        "cpp"@
    } else if ext == "cs"@ {
        "csharp"@
    } else if ext == "swift"@ {
        "swift"@
    } else if ext == "rb"@ {
        "ruby"@
    } else if ext == "php"@ {
        "php"@
    } else if ext == "sql"@ {
        "sql"@
    } else if ext == "html"@ {
        "html"@
    } else if ext == "css"@ {
        "css"@
    } else if ext == "scss"@ {
        "scss"@
    } else if ext == "proto"@ {
        "proto"@
    } else if ext == "ini"@ {
        "ini"@
    } else if ext == "env"@ {
        "bash"@
    } else {
        "text"@
    }
}

/// The language tag for a file extension, whatever its case.
pub fn tag_for_extension(ext: &str) -> (tag: &'static str)
    ensures
        tag@ == tag_of(ascii_lowercase(ext@)),
{
    if lowercase_is(ext, "rs") {
        "rust"
    } else if lowercase_is(ext, "toml") {
        "toml"
    } else if lowercase_is(ext, "md") {
        "markdown"
    } else if lowercase_is(ext, "txt") {
        "text"
    } else if lowercase_is(ext, "json") {
        "json"
    } else if lowercase_is(ext, "yml") {
        "yaml"
    } else if lowercase_is(ext, "yaml") {
        "yaml"
    } else if lowercase_is(ext, "js") {
        "javascript"
    } else if lowercase_is(ext, "ts") {
        "ts"
    } else if lowercase_is(ext, "jsx") {
        "jsx"
    } else if lowercase_is(ext, "tsx") {
        "tsx"
    } else if lowercase_is(ext, "py") {
        "python"
    } else if lowercase_is(ext, "sh") {
        "bash"
    } else if lowercase_is(ext, "zsh") {
        "zsh"
    } else if lowercase_is(ext, "fish") {
        "fish"
    } else if lowercase_is(ext, "go") {
        "go"
    } else if lowercase_is(ext, "java") {
        "java"
    } else if lowercase_is(ext, "kt") {
        "kotlin"
    } else if lowercase_is(ext, "kts") {
        "kotlin"
    } else if lowercase_is(ext, "c") {
        "c"
    } else if lowercase_is(ext, "h") {
        "c"
    } else if lowercase_is(ext, "cpp") {
        "cpp"
    } else if lowercase_is(ext, "cc") {
        "cpp"
    } else if lowercase_is(ext, "cxx") {
        "cpp"
    } else if lowercase_is(ext, "hpp") {
        "cpp"
    } else if lowercase_is(ext, "hh") {
        "cpp"
    } else if lowercase_is(ext, "hxx") {
        "cpp"
    } else if lowercase_is(ext, "cs") {
        "csharp"
    } else if lowercase_is(ext, "swift") {
        "swift"
    } else if lowercase_is(ext, "rb") {
        "ruby"
    } else if lowercase_is(ext, "php") {
        "php"
    } else if lowercase_is(ext, "sql") {
        "sql"
    } else if lowercase_is(ext, "html") {
        "html"
    } else if lowercase_is(ext, "css") {
        "css"
    } else if lowercase_is(ext, "scss") {
        "scss"
    } else if lowercase_is(ext, "proto") {
        "proto"
    } else if lowercase_is(ext, "ini") {
        "ini"
    } else if lowercase_is(ext, "env") {
        "bash"
    } else {
        "text"
    }
}

/// The extension that decides a path's language tag: empty when the path has
/// none.
pub open spec fn extension_or_empty(path: Seq<char>) -> Seq<char> {
    match extension_of(path) {
        Some(ext) => ext,
        None => Seq::empty(),
    }
}

/// The language tag for the fenced block of a file, chosen by the file's
/// extension alone.
pub fn language_tag(path: &str) -> (tag: &'static str)
    ensures
        tag@ == tag_of(ascii_lowercase(extension_or_empty(path@))),
{
    match path_extension(path) {
        Some(ext) => tag_for_extension(ext),
        None => {
            proof {
                reveal_strlit("");
                assert(""@ =~= Seq::<char>::empty());
            }
            tag_for_extension("")
        },
    }
}

/// The root to walk when none is given: the current directory.
pub open spec fn root_or_current_of(root: Seq<char>) -> Seq<char> {
    if root.len() == 0 {
        "."@
    } else {
        root
    }
}

/// The root as given, or `.` where it is empty.
pub fn root_or_current(root: &str) -> (literal: String)
    ensures
        literal@ == root_or_current_of(root@),
{
    if root.is_empty() {
        String::from_str(".")
    } else {
        root.to_owned()
    }
}

/// The root of the walk: its canonical form where there is one, else the
/// root as given (`.` where it is empty).
pub fn normalize_root(root: &str, canonical: Option<String>) -> (resolved: String)
    ensures
        resolved@ == match canonical {
            Some(c) => c@,
            None => root_or_current_of(root@),
        },
{
    match canonical {
        Some(c) => c,
        None => root_or_current(root),
    }
}

} // verus!
