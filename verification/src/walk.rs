//! The decisions of the directory walk: which entries a recursive walk
//! keeps, and which files either traversal mode hands to the scanner.
//! The walk itself is filesystem work done by an unverified front end,
//! which consults these predicates for every decision.
//!
//! The two modes differ on purpose, as the tool always has: the recursive
//! walk prunes hidden names and applies the ignore list to an entry's base
//! name, while the flat walk applies the ignore list to the whole path and
//! does not prune hidden names at all.

use vstd::prelude::*;
use crate::config::Config;
use crate::filter::{check_if_ignore, check_if_include, hidden, ignored, included, is_hidden};

verus! {

/// A flat (non-recursive) walk scans `path` iff it survives the ignore
/// list and, when the search toggle is on, ends in an included suffix.
pub open spec fn flat_wants(
    path: Seq<char>,
    ignore: Seq<Seq<char>>,
    check_extra: bool,
    search: Seq<Seq<char>>,
) -> bool {
    !ignored(path, ignore) && (check_extra ==> included(path, search))
}

/// A recursive walk keeps an entry (and, for a directory, its subtree)
/// iff its base name is neither hidden nor on the ignore list.
pub open spec fn recursive_retains(name: Seq<char>, ignore: Seq<Seq<char>>) -> bool {
    !hidden(name) && !ignored(name, ignore)
}

/// A recursive walk scans a retained file iff the search toggle is off or
/// the path ends in a listed suffix.
pub open spec fn recursive_wants(path: Seq<char>, check_extra: bool, search: Seq<Seq<char>>) -> bool {
    check_extra ==> included(path, search)
}

/// Flat-mode gate for one file path.
pub fn flat_file_wanted(conf: &Config, path: &str) -> (r: bool)
    ensures
        r == flat_wants(
            path@,
            conf.files_to_ignore.deep_view(),
            conf.check_extra,
            conf.files_to_search.deep_view(),
        ),
{
    if check_if_ignore(path, &conf.files_to_ignore) {
        return false;
    }
    if conf.check_extra && !check_if_include(path, &conf.files_to_search) {
        return false;
    }
    true
}

/// Recursive-mode gate for one directory entry, by its base name.
pub fn recursive_entry_retained(conf: &Config, name: &str) -> (r: bool)
    ensures
        r == recursive_retains(name@, conf.files_to_ignore.deep_view()),
{
    !is_hidden(name) && !check_if_ignore(name, &conf.files_to_ignore)
}

/// Recursive-mode search gate for a retained file, by its full path.
pub fn recursive_file_wanted(conf: &Config, path: &str) -> (r: bool)
    ensures
        r == recursive_wants(path@, conf.check_extra, conf.files_to_search.deep_view()),
{
    !conf.check_extra || check_if_include(path, &conf.files_to_search)
}

/// A hidden entry is never retained by the recursive walk, so neither it
/// nor anything below it is ever scanned.
pub proof fn lemma_hidden_never_retained(name: Seq<char>, ignore: Seq<Seq<char>>)
    requires
        hidden(name),
    ensures
        !recursive_retains(name, ignore),
{
}

/// A name ending in a non-empty ignored suffix is never scanned: the flat
/// gate refuses the path, and the recursive gate refuses the entry.
pub proof fn lemma_ignored_never_scanned(
    name: Seq<char>,
    ignore: Seq<Seq<char>>,
    check_extra: bool,
    search: Seq<Seq<char>>,
)
    requires
        ignored(name, ignore),
    ensures
        !flat_wants(name, ignore, check_extra, search),
        !recursive_retains(name, ignore),
{
}

/// While the search toggle is on, a path ending in no listed suffix is
/// never scanned, whatever the ignore list holds.
pub proof fn lemma_unlisted_never_scanned(
    path: Seq<char>,
    ignore: Seq<Seq<char>>,
    search: Seq<Seq<char>>,
)
    requires
        !included(path, search),
    ensures
        !flat_wants(path, ignore, true, search),
        !recursive_wants(path, true, search),
{
}

} // verus!
