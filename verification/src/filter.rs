//! Suffix-based file filtering: the ignore-list and include-list checks,
//! and the hidden-name test used when pruning a recursive walk.

use vstd::prelude::*;

verus! {

/// `suffix` occurs at the very end of `name`.
pub open spec fn ends_with(name: Seq<char>, suffix: Seq<char>) -> bool {
    suffix.len() <= name.len() && name.subrange(
        name.len() - suffix.len(),
        name.len() as int,
    ) == suffix
}

/// Some non-empty entry of `list` is a suffix of `name`.
pub open spec fn ignored(name: Seq<char>, list: Seq<Seq<char>>) -> bool {
    exists|i: int| 0 <= i < list.len() && list[i].len() > 0 && ends_with(name, list[i])
}

/// Some entry of `list` is a suffix of `name`.
pub open spec fn included(name: Seq<char>, list: Seq<Seq<char>>) -> bool {
    exists|i: int| 0 <= i < list.len() && ends_with(name, list[i])
}

/// A hidden name: the first character is a dot.
pub open spec fn hidden(name: Seq<char>) -> bool {
    name.len() > 0 && name[0] == '.'
}

/// Character-for-character suffix test.
pub fn str_ends_with(name: &str, suffix: &str) -> (r: bool)
    ensures
        r == ends_with(name@, suffix@),
{
    let n = name.unicode_len();
    let m = suffix.unicode_len();
    if m > n {
        return false;
    }
    let mut i: usize = 0;
    while i < m
        invariant
            m <= n,
            n == name@.len(),
            m == suffix@.len(),
            i <= m,
            forall|j: int| 0 <= j < i ==> name@[n - m + j] == suffix@[j],
        decreases m - i,
    {
        if name.get_char(n - m + i) != suffix.get_char(i) {
            assert(!ends_with(name@, suffix@)) by {
                assert(name@.subrange(n - m, n as int)[i as int] == name@[n - m + i]);
            }
            return false;
        }
        i += 1;
    }
    assert(name@.subrange(n - m, n as int) =~= suffix@);
    true
}

/// True iff `file_name` ends with some non-empty entry of `ignore_types`.
pub fn check_if_ignore(file_name: &str, ignore_types: &Vec<String>) -> (r: bool)
    ensures
        r == ignored(file_name@, ignore_types.deep_view()),
{
    let mut i: usize = 0;
    while i < ignore_types.len()
        invariant
            i <= ignore_types.len(),
            ignore_types.deep_view().len() == ignore_types.len(),
            forall|j: int|
                0 <= j < i ==> !(ignore_types.deep_view()[j].len() > 0 && ends_with(
                    file_name@,
                    ignore_types.deep_view()[j],
                )),
        decreases ignore_types.len() - i,
    {
        assert(ignore_types.deep_view()[i as int] == ignore_types[i as int]@);
        let entry = &ignore_types[i];
        if entry.as_str().unicode_len() > 0 && str_ends_with(file_name, entry.as_str()) {
            return true;
        }
        i += 1;
    }
    false
}

/// True iff `file_name` ends with some entry of `files_to_search`.
pub fn check_if_include(file_name: &str, files_to_search: &Vec<String>) -> (r: bool)
    ensures
        r == included(file_name@, files_to_search.deep_view()),
{
    let mut i: usize = 0;
    while i < files_to_search.len()
        invariant
            i <= files_to_search.len(),
            files_to_search.deep_view().len() == files_to_search.len(),
            forall|j: int|
                0 <= j < i ==> !ends_with(file_name@, files_to_search.deep_view()[j]),
        decreases files_to_search.len() - i,
    {
        assert(files_to_search.deep_view()[i as int] == files_to_search[i as int]@);
        if str_ends_with(file_name, files_to_search[i].as_str()) {
            return true;
        }
        i += 1;
    }
    false
}

/// True iff the name starts with a dot.
pub fn is_hidden(name: &str) -> (r: bool)
    ensures
        r == hidden(name@),
{
    name.unicode_len() > 0 && name.get_char(0) == '.'
}

} // verus!
