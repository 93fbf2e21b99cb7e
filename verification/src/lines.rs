//! Splitting a file's text into lines, the way the scanner consumes them:
//! lines end at a newline, a carriage return directly before the newline is
//! not part of the line, and a final line without a terminator still counts.

use vstd::prelude::*;

verus! {

/// Index of the first newline in `s`, or -1 when there is none.
pub open spec fn find_newline(s: Seq<char>) -> int
    decreases s.len(),
{
    if s.len() == 0 {
        -1
    } else if s[0] == '\n' {
        0
    } else {
        let r = find_newline(s.drop_first());
        if r == -1 {
            -1
        } else {
            r + 1
        }
    }
}

/// What `find_newline` finds: the first newline, when any.
pub proof fn lemma_find_newline(s: Seq<char>)
    ensures
        find_newline(s) == -1 ==> forall|j: int| 0 <= j < s.len() ==> s[j] != '\n',
        find_newline(s) != -1 ==> {
            let i = find_newline(s);
            &&& 0 <= i < s.len()
            &&& s[i] == '\n'
            &&& forall|j: int| 0 <= j < i ==> s[j] != '\n'
        },
    decreases s.len(),
{
    if s.len() > 0 && s[0] != '\n' {
        let t = s.drop_first();
        lemma_find_newline(t);
        if find_newline(t) == -1 {
            assert forall|j: int| 0 <= j < s.len() implies s[j] != '\n' by {
                if j > 0 {
                    assert(t[j - 1] == s[j]);
                }
            }
        } else {
            let i = find_newline(t);
            assert(s[i + 1] == t[i]);
            assert forall|j: int| 0 <= j < i + 1 implies s[j] != '\n' by {
                if j > 0 {
                    assert(t[j - 1] == s[j]);
                }
            }
        }
    }
}

/// `find_newline` is pinned by the facts above.
pub proof fn lemma_find_newline_at(s: Seq<char>, k: int)
    requires
        0 <= k < s.len(),
        s[k] == '\n',
        forall|j: int| 0 <= j < k ==> s[j] != '\n',
    ensures
        find_newline(s) == k,
    decreases s.len(),
{
    if k > 0 {
        assert(forall|j: int| 0 <= j < s.drop_first().len() ==> s.drop_first()[j] == s[j + 1]);
        lemma_find_newline_at(s.drop_first(), k - 1);
    }
}

/// A line body with a trailing carriage return removed.
pub open spec fn chomp_cr(l: Seq<char>) -> Seq<char> {
    if l.len() > 0 && l.last() == '\r' {
        l.drop_last()
    } else {
        l
    }
}

/// The lines of `s`: split at each newline, the piece before it stripped
/// of a trailing carriage return; text after the last newline is a final
/// line only when it is non-empty.
pub open spec fn lines_of(s: Seq<char>) -> Seq<Seq<char>>
    decreases s.len(),
{
    if s.len() == 0 {
        Seq::empty()
    } else {
        let i = find_newline(s);
        if 0 <= i < s.len() {
            seq![chomp_cr(s.take(i))] + lines_of(s.skip(i + 1))
        } else {
            seq![s]
        }
    }
}

/// Unfolding `lines_of` at a known first newline.
pub proof fn lemma_lines_of_split(s: Seq<char>, k: int)
    requires
        0 <= k < s.len(),
        s[k] == '\n',
        forall|j: int| 0 <= j < k ==> s[j] != '\n',
    ensures
        lines_of(s) == seq![chomp_cr(s.take(k))] + lines_of(s.skip(k + 1)),
{
    lemma_find_newline_at(s, k);
}

/// A non-empty text without a newline is one line, itself.
pub proof fn lemma_lines_of_whole(s: Seq<char>)
    requires
        forall|j: int| 0 <= j < s.len() ==> s[j] != '\n',
    ensures
        s.len() == 0 ==> lines_of(s) == Seq::<Seq<char>>::empty(),
        s.len() > 0 ==> lines_of(s) == seq![s],
{
    if s.len() > 0 {
        lemma_find_newline(s);
        if find_newline(s) != -1 {
            assert(s[find_newline(s)] == '\n');
        }
    }
}

/// Split `s` into its lines.
pub fn split_lines(s: &str) -> (r: Vec<String>)
    ensures
        r.deep_view() == lines_of(s@),
{
    let n = s.unicode_len();
    let mut lines: Vec<String> = Vec::new();
    let mut start: usize = 0;
    let mut i: usize = 0;
    proof {
        assert(s@.skip(0) =~= s@);
        assert(lines.deep_view() + lines_of(s@.skip(0)) =~= lines_of(s@));
    }
    while i < n
        invariant
            n == s@.len(),
            start <= i <= n,
            lines.deep_view() + lines_of(s@.skip(start as int)) =~= lines_of(s@),
            forall|j: int| start <= j < i ==> s@[j] != '\n',
        decreases n - i,
    {
        if s.get_char(i) == '\n' {
            let line_end = if i > start && s.get_char(i - 1) == '\r' {
                i - 1
            } else {
                i
            };
            let piece = s.substring_char(start, line_end);
            let ghost old_dv = lines.deep_view();
            let ghost tail = s@.skip(start as int);
            proof {
                assert(forall|j: int| 0 <= j < tail.len() ==> tail[j] == s@[start + j]);
                lemma_lines_of_split(tail, i - start);
                assert(piece@ =~= chomp_cr(tail.take(i - start)));
                assert(tail.skip(i - start + 1) =~= s@.skip(i + 1));
            }
            lines.push(String::from_str(piece));
            proof {
                assert(lines.deep_view() =~= old_dv.push(piece@));
            }
            start = i + 1;
        }
        i += 1;
    }
    let ghost tail = s@.skip(start as int);
    proof {
        assert(forall|j: int| 0 <= j < tail.len() ==> tail[j] == s@[start + j]);
        lemma_lines_of_whole(tail);
    }
    if start < n {
        let piece = s.substring_char(start, n);
        let ghost old_dv = lines.deep_view();
        proof {
            assert(piece@ =~= tail);
        }
        lines.push(String::from_str(piece));
        proof {
            assert(lines.deep_view() =~= old_dv.push(piece@));
            assert(lines.deep_view() =~= lines_of(s@));
        }
    } else {
        proof {
            assert(tail.len() == 0);
            assert(lines.deep_view() =~= lines_of(s@));
        }
    }
    lines
}

} // verus!
