//! The walker's selection logic over a modelled directory tree. An entry
//! is a path — its component names below the root — plus its text when it
//! is a regular file. The two walks select exactly as the tool's
//! traversals do: the flat walk takes immediate file children only, gated
//! by the flat predicate on the full path; the recursive walk takes a file
//! only when every component of its path survives the entry filter — so
//! nothing below a pruned directory is ever yielded — and the search
//! toggle allows the full path. The filesystem itself is read by the
//! unverified front end, which applies the same gate predicates entry by
//! entry.

use vstd::prelude::*;
use crate::config::Config;
use crate::filter::{hidden, ignored};
use crate::scanner::FileText;
use crate::walk::{
    flat_file_wanted, flat_wants, recursive_entry_retained, recursive_file_wanted,
    recursive_retains, recursive_wants,
};

verus! {

/// One modelled filesystem entry: its path below the root as component
/// names, whether it is a regular file, and its text when it is.
pub struct FsEntry {
    pub components: Vec<String>,
    pub is_file: bool,
    pub content: String,
}

/// `root` and the components, joined with slashes.
pub open spec fn joined(root: Seq<char>, comps: Seq<Seq<char>>) -> Seq<char>
    decreases comps.len(),
{
    if comps.len() == 0 {
        root
    } else {
        joined(root, comps.drop_last()) + "/"@ + comps.last()
    }
}

/// Build the path text of `comps` below `root`.
pub fn join_path(root: &String, comps: &Vec<String>) -> (r: String)
    ensures
        r@ == joined(root@, comps.deep_view()),
{
    let mut r = root.clone();
    let n = comps.len();
    let mut i: usize = 0;
    proof {
        assert(comps.deep_view().take(0) =~= Seq::<Seq<char>>::empty());
    }
    while i < n
        invariant
            n == comps@.len(),
            comps.deep_view().len() == n,
            i <= n,
            r@ == joined(root@, comps.deep_view().take(i as int)),
        decreases n - i,
    {
        proof {
            assert(comps.deep_view().take(i + 1).drop_last() =~= comps.deep_view().take(
                i as int,
            ));
            assert(comps.deep_view().take(i + 1).last() == comps[i as int]@);
        }
        r.append("/");
        r.append(comps[i].as_str());
        i += 1;
    }
    proof {
        assert(comps.deep_view().take(n as int) =~= comps.deep_view());
    }
    r
}

/// The flat walk takes `e` iff it is a file sitting directly in the root
/// and its full path passes the flat gate.
pub open spec fn flat_selects(
    root: Seq<char>,
    e: FsEntry,
    ignore: Seq<Seq<char>>,
    check_extra: bool,
    search: Seq<Seq<char>>,
) -> bool {
    e.is_file && e.components.deep_view().len() == 1 && flat_wants(
        joined(root, e.components.deep_view()),
        ignore,
        check_extra,
        search,
    )
}

/// Every component of the path survives the recursive entry filter.
pub open spec fn all_retained(comps: Seq<Seq<char>>, ignore: Seq<Seq<char>>) -> bool {
    forall|i: int| 0 <= i < comps.len() ==> recursive_retains(comps[i], ignore)
}

/// The recursive walk takes `e` iff it is a file, no component of its
/// path is pruned, and its full path passes the search gate.
pub open spec fn recursive_selects(
    root: Seq<char>,
    e: FsEntry,
    ignore: Seq<Seq<char>>,
    check_extra: bool,
    search: Seq<Seq<char>>,
) -> bool {
    e.is_file && e.components.deep_view().len() > 0 && all_retained(
        e.components.deep_view(),
        ignore,
    ) && recursive_wants(joined(root, e.components.deep_view()), check_extra, search)
}

/// The (path, text) pairs a walk hands on.
pub open spec fn texts_view(v: Seq<FileText>) -> Seq<(Seq<char>, Seq<char>)> {
    Seq::new(v.len(), |i: int| (v[i].path@, v[i].content@))
}

/// What the flat walk yields, in entry order.
pub open spec fn flat_walk(
    root: Seq<char>,
    entries: Seq<FsEntry>,
    ignore: Seq<Seq<char>>,
    check_extra: bool,
    search: Seq<Seq<char>>,
) -> Seq<(Seq<char>, Seq<char>)>
    decreases entries.len(),
{
    if entries.len() == 0 {
        Seq::empty()
    } else {
        let rest = flat_walk(root, entries.drop_last(), ignore, check_extra, search);
        let e = entries.last();
        if flat_selects(root, e, ignore, check_extra, search) {
            rest.push((joined(root, e.components.deep_view()), e.content@))
        } else {
            rest
        }
    }
}

/// What the recursive walk yields, in entry order.
pub open spec fn recursive_walk(
    root: Seq<char>,
    entries: Seq<FsEntry>,
    ignore: Seq<Seq<char>>,
    check_extra: bool,
    search: Seq<Seq<char>>,
) -> Seq<(Seq<char>, Seq<char>)>
    decreases entries.len(),
{
    if entries.len() == 0 {
        Seq::empty()
    } else {
        let rest = recursive_walk(root, entries.drop_last(), ignore, check_extra, search);
        let e = entries.last();
        if recursive_selects(root, e, ignore, check_extra, search) {
            rest.push((joined(root, e.components.deep_view()), e.content@))
        } else {
            rest
        }
    }
}

/// Everything the flat walk yields is an immediate file child of the
/// root that passed the flat gate: nothing from a subdirectory.
pub proof fn lemma_flat_walk_members(
    root: Seq<char>,
    entries: Seq<FsEntry>,
    ignore: Seq<Seq<char>>,
    check_extra: bool,
    search: Seq<Seq<char>>,
    k: int,
)
    requires
        0 <= k < flat_walk(root, entries, ignore, check_extra, search).len(),
    ensures
        exists|i: int|
            0 <= i < entries.len() && flat_selects(root, entries[i], ignore, check_extra, search)
                && flat_walk(root, entries, ignore, check_extra, search)[k] == (
            joined(root, entries[i].components.deep_view()),
            entries[i].content@,
        ),
    decreases entries.len(),
{
    let w = flat_walk(root, entries, ignore, check_extra, search);
    let rest = flat_walk(root, entries.drop_last(), ignore, check_extra, search);
    if k < rest.len() {
        lemma_flat_walk_members(root, entries.drop_last(), ignore, check_extra, search, k);
        let i = choose|i: int|
            0 <= i < entries.drop_last().len() && flat_selects(
                root,
                entries.drop_last()[i],
                ignore,
                check_extra,
                search,
            ) && rest[k] == (
                joined(root, entries.drop_last()[i].components.deep_view()),
                entries.drop_last()[i].content@,
            );
        assert(entries[i] == entries.drop_last()[i]);
    } else {
        assert(entries[entries.len() - 1] == entries.last());
    }
}

/// Everything the recursive walk yields is a file whose path components
/// all survived the entry filter and whose path passed the search gate.
pub proof fn lemma_recursive_walk_members(
    root: Seq<char>,
    entries: Seq<FsEntry>,
    ignore: Seq<Seq<char>>,
    check_extra: bool,
    search: Seq<Seq<char>>,
    k: int,
)
    requires
        0 <= k < recursive_walk(root, entries, ignore, check_extra, search).len(),
    ensures
        exists|i: int|
            0 <= i < entries.len() && recursive_selects(
                root,
                entries[i],
                ignore,
                check_extra,
                search,
            ) && recursive_walk(root, entries, ignore, check_extra, search)[k] == (
            joined(root, entries[i].components.deep_view()),
            entries[i].content@,
        ),
    decreases entries.len(),
{
    let rest = recursive_walk(root, entries.drop_last(), ignore, check_extra, search);
    if k < rest.len() {
        lemma_recursive_walk_members(root, entries.drop_last(), ignore, check_extra, search, k);
        let i = choose|i: int|
            0 <= i < entries.drop_last().len() && recursive_selects(
                root,
                entries.drop_last()[i],
                ignore,
                check_extra,
                search,
            ) && rest[k] == (
                joined(root, entries.drop_last()[i].components.deep_view()),
                entries.drop_last()[i].content@,
            );
        assert(entries[i] == entries.drop_last()[i]);
    } else {
        assert(entries[entries.len() - 1] == entries.last());
    }
}

/// An entry inside a hidden directory, or itself hidden, is never
/// yielded by the recursive walk: a hidden component prunes the subtree.
pub proof fn lemma_hidden_subtree_pruned(
    root: Seq<char>,
    e: FsEntry,
    ignore: Seq<Seq<char>>,
    check_extra: bool,
    search: Seq<Seq<char>>,
    i: int,
)
    requires
        0 <= i < e.components.deep_view().len(),
        hidden(e.components.deep_view()[i]),
    ensures
        !recursive_selects(root, e, ignore, check_extra, search),
{
}

/// Likewise for a component on the ignore list.
pub proof fn lemma_ignored_subtree_pruned(
    root: Seq<char>,
    e: FsEntry,
    ignore: Seq<Seq<char>>,
    check_extra: bool,
    search: Seq<Seq<char>>,
    i: int,
)
    requires
        0 <= i < e.components.deep_view().len(),
        ignored(e.components.deep_view()[i], ignore),
    ensures
        !recursive_selects(root, e, ignore, check_extra, search),
{
}

/// An entry below the top level is never yielded by the flat walk.
pub proof fn lemma_flat_never_descends(
    root: Seq<char>,
    e: FsEntry,
    ignore: Seq<Seq<char>>,
    check_extra: bool,
    search: Seq<Seq<char>>,
)
    requires
        e.components.deep_view().len() != 1,
    ensures
        !flat_selects(root, e, ignore, check_extra, search),
{
}

/// Does every component survive the recursive entry filter?
fn components_retained(conf: &Config, comps: &Vec<String>) -> (r: bool)
    ensures
        r == all_retained(comps.deep_view(), conf.files_to_ignore.deep_view()),
{
    let n = comps.len();
    let mut i: usize = 0;
    while i < n
        invariant
            n == comps@.len(),
            comps.deep_view().len() == n,
            i <= n,
            forall|j: int|
                0 <= j < i ==> recursive_retains(
                    comps.deep_view()[j],
                    conf.files_to_ignore.deep_view(),
                ),
        decreases n - i,
    {
        proof {
            assert(comps.deep_view()[i as int] == comps[i as int]@);
        }
        if !recursive_entry_retained(conf, comps[i].as_str()) {
            return false;
        }
        i += 1;
    }
    true
}

/// Walk the modelled entries flat: immediate file children of the root,
/// gated by the flat predicate on the full path.
pub fn walk_entries_flat(conf: &Config, entries: &Vec<FsEntry>) -> (r: Vec<FileText>)
    ensures
        texts_view(r@) == flat_walk(
            conf.directory@,
            entries@,
            conf.files_to_ignore.deep_view(),
            conf.check_extra,
            conf.files_to_search.deep_view(),
        ),
{
    let mut r: Vec<FileText> = Vec::new();
    let n = entries.len();
    let mut i: usize = 0;
    proof {
        assert(entries@.take(0) =~= Seq::<FsEntry>::empty());
        assert(texts_view(r@) =~= Seq::<(Seq<char>, Seq<char>)>::empty());
    }
    while i < n
        invariant
            n == entries@.len(),
            i <= n,
            texts_view(r@) == flat_walk(
                conf.directory@,
                entries@.take(i as int),
                conf.files_to_ignore.deep_view(),
                conf.check_extra,
                conf.files_to_search.deep_view(),
            ),
        decreases n - i,
    {
        proof {
            assert(entries@.take(i + 1).drop_last() =~= entries@.take(i as int));
            assert(entries@.take(i + 1).last() == entries@[i as int]);
        }
        let e = &entries[i];
        if e.is_file && e.components.len() == 1 {
            let path = join_path(&conf.directory, &e.components);
            if flat_file_wanted(conf, path.as_str()) {
                let ghost before = r@;
                r.push(FileText { path, content: e.content.clone() });
                proof {
                    assert(texts_view(r@) =~= texts_view(before).push(
                        (r@.last().path@, r@.last().content@),
                    ));
                }
            }
        }
        i += 1;
    }
    proof {
        assert(entries@.take(n as int) =~= entries@);
    }
    r
}

/// Walk the modelled entries recursively: a file is taken only when no
/// component of its path is pruned and the search gate allows the path.
pub fn walk_entries_recursive(conf: &Config, entries: &Vec<FsEntry>) -> (r: Vec<FileText>)
    ensures
        texts_view(r@) == recursive_walk(
            conf.directory@,
            entries@,
            conf.files_to_ignore.deep_view(),
            conf.check_extra,
            conf.files_to_search.deep_view(),
        ),
{
    let mut r: Vec<FileText> = Vec::new();
    let n = entries.len();
    let mut i: usize = 0;
    proof {
        assert(entries@.take(0) =~= Seq::<FsEntry>::empty());
        assert(texts_view(r@) =~= Seq::<(Seq<char>, Seq<char>)>::empty());
    }
    while i < n
        invariant
            n == entries@.len(),
            i <= n,
            texts_view(r@) == recursive_walk(
                conf.directory@,
                entries@.take(i as int),
                conf.files_to_ignore.deep_view(),
                conf.check_extra,
                conf.files_to_search.deep_view(),
            ),
        decreases n - i,
    {
        proof {
            assert(entries@.take(i + 1).drop_last() =~= entries@.take(i as int));
            assert(entries@.take(i + 1).last() == entries@[i as int]);
        }
        let e = &entries[i];
        if e.is_file && e.components.len() > 0 && components_retained(conf, &e.components) {
            let path = join_path(&conf.directory, &e.components);
            if recursive_file_wanted(conf, path.as_str()) {
                let ghost before = r@;
                r.push(FileText { path, content: e.content.clone() });
                proof {
                    assert(texts_view(r@) =~= texts_view(before).push(
                        (r@.last().path@, r@.last().content@),
                    ));
                }
            }
        }
        i += 1;
    }
    proof {
        assert(entries@.take(n as int) =~= entries@);
    }
    r
}

} // verus!
