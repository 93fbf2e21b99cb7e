//! Extracting a base name from a path written with either separator:
//! backslashes count as slashes, and the base name is what follows the
//! last separator (empty when the path ends in one).

use vstd::prelude::*;

verus! {

/// `s` with every backslash turned into a slash.
pub open spec fn normalized(s: Seq<char>) -> Seq<char> {
    s.map(
        |i: int, c: char|
            if c == '\\' {
                '/'
            } else {
                c
            },
    )
}

/// What follows the last slash of `s`; all of `s` when it has none.
pub open spec fn tail_segment(s: Seq<char>) -> Seq<char>
    decreases s.len(),
{
    if s.len() == 0 {
        s
    } else if s.last() == '/' {
        Seq::empty()
    } else {
        tail_segment(s.drop_last()).push(s.last())
    }
}

/// The base name of a path using either separator.
pub open spec fn base_name_of(s: Seq<char>) -> Seq<char> {
    tail_segment(normalized(s))
}

/// `tail_segment` is the suffix that starts right after the last slash.
proof fn lemma_tail_segment(s: Seq<char>, start: int)
    requires
        0 <= start <= s.len(),
        forall|k: int| start <= k < s.len() ==> s[k] != '/',
        start > 0 ==> s[start - 1] == '/',
    ensures
        tail_segment(s) == s.subrange(start, s.len() as int),
    decreases s.len(),
{
    if s.len() == start {
        if start == 0 {
            assert(tail_segment(s) =~= s.subrange(0, 0));
        } else {
            assert(s.last() == s[start - 1]);
            assert(tail_segment(s) =~= s.subrange(start, s.len() as int));
        }
    } else {
        assert(s.last() != '/');
        lemma_tail_segment(s.drop_last(), start);
        assert(tail_segment(s.drop_last()).push(s.last()) =~= s.subrange(start, s.len() as int));
    }
}

/// The base name of `s`, with backslashes read as slashes.
pub fn get_file_name(s: &String) -> (r: String)
    ensures
        r@ == base_name_of(s@),
{
    let n = s.as_str().unicode_len();
    let mut start: usize = 0;
    let mut j: usize = 0;
    while j < n
        invariant
            n == s@.len(),
            start <= j <= n,
            start > 0 ==> start <= n && (s@[start - 1] == '/' || s@[start - 1] == '\\'),
            forall|k: int| start <= k < j ==> s@[k] != '/' && s@[k] != '\\',
        decreases n - j,
    {
        let c = s.as_str().get_char(j);
        if c == '/' || c == '\\' {
            start = j + 1;
        }
        j += 1;
    }
    let piece = s.as_str().substring_char(start, n);
    proof {
        lemma_tail_segment(normalized(s@), start as int);
        assert(piece@ =~= normalized(s@).subrange(start as int, n as int));
    }
    String::from_str(piece)
}

} // verus!
