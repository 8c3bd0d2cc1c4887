//! What the directory walk is asked to honour.

use vstd::prelude::*;

verus! {

/// The switches of the directory walk.
#[derive(Clone, Copy, Debug, PartialEq, Eq)]
pub struct WalkOptions {
    /// Leave out hidden (dot-prefixed) entries.
    pub skip_hidden: bool,
    /// Honour `.gitignore` files.
    pub git_ignore: bool,
    /// Honour the repository's local exclude file.
    pub git_exclude: bool,
    /// Honour the global git ignore configuration.
    pub git_global: bool,
    /// Honour ignore files of parent directories.
    pub parents: bool,
    /// Honour `.ignore` files.
    pub ignore_files: bool,
    /// Follow symbolic links.
    pub follow_links: bool,
}

/// The switches for a walk.
///
/// Every ignore-file convention is honoured unless `no_gitignore` is set,
/// and then none is. Hidden entries are walked unless `no_hidden` is set.
/// Symbolic links are never followed.
pub fn walk_options(no_gitignore: bool, no_hidden: bool) -> (options: WalkOptions)
    ensures
        options.skip_hidden == no_hidden,
        options.git_ignore == !no_gitignore,
        options.git_exclude == !no_gitignore,
        options.git_global == !no_gitignore,
        options.parents == !no_gitignore,
        options.ignore_files == !no_gitignore,
        !options.follow_links,
{
    let respect = !no_gitignore;
    WalkOptions {
        skip_hidden: no_hidden,
        git_ignore: respect,
        git_exclude: respect,
        git_global: respect,
        parents: respect,
        ignore_files: respect,
        follow_links: false,
    }
}

} // verus!
