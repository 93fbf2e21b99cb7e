//! Preview construction for matching lines: a line longer than the display
//! cap is cut to the cap and marked with a three-character ellipsis; a line
//! within the cap is kept as it is. Also the quoting helper used when a
//! path or a preview is rendered.

use vstd::prelude::*;

verus! {

/// Display cap for a matching line's preview.
pub const TOTAL_LEN: usize = 90;

/// The preview of `line` under character cap `cap`: the line itself when it
/// fits, else its first `cap` characters followed by `...`.
pub open spec fn preview_of(line: Seq<char>, cap: nat) -> Seq<char> {
    if line.len() > cap {
        line.take(cap as int) + "..."@
    } else {
        line
    }
}

/// A line over the cap shows exactly `cap` of its characters and then a
/// three-character marker; a line within the cap is shown unchanged.
pub proof fn lemma_preview_cap(line: Seq<char>, cap: nat)
    ensures
        line.len() > cap ==> preview_of(line, cap).len() == cap + 3 && preview_of(
            line,
            cap,
        ).take(cap as int) == line.take(cap as int),
        line.len() <= cap ==> preview_of(line, cap) == line,
{
    reveal_strlit("...");
    if line.len() > cap {
        assert(preview_of(line, cap).take(cap as int) =~= line.take(cap as int));
    }
}

/// Truncate `s` to at most `len` characters, appending `...` when cut.
pub fn give_half_or(s: &String, len: usize) -> (r: String)
    ensures
        r@ == preview_of(s@, len as nat),
{
    let n = s.as_str().unicode_len();
    if n > len {
        let head = s.as_str().substring_char(0, len);
        let mut r = String::from_str(head);
        r.append("...");
        assert(r@ =~= preview_of(s@, len as nat));
        r
    } else {
        s.clone()
    }
}

/// `s` wrapped in double quotes.
pub open spec fn quoted(s: Seq<char>) -> Seq<char> {
    "\""@ + s + "\""@
}

/// Wrap `s` in double quotes.
pub fn with_quotes(s: &String) -> (r: String)
    ensures
        r@ == quoted(s@),
{
    let mut r = String::from_str("\"");
    r.append(s.as_str());
    r.append("\"");
    assert(r@ =~= quoted(s@));
    r
}

} // verus!
