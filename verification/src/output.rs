//! Rendering the result set as plain text: one block per record — the
//! quoted path, the 1-based line number, the quoted preview, and a rule —
//! in record order. This is the uncolored form, the one written to an
//! output file; the console front end adds its own styling around the
//! same pieces.

use vstd::prelude::*;
use crate::numfmt::{decimal_of, usize_to_string};
use crate::preview::{quoted, with_quotes};
use crate::results::MatchRecord;

verus! {

/// The text block reporting one match.
pub open spec fn record_text(path: Seq<char>, line_number: nat, preview: Seq<char>) -> Seq<char> {
    "\nFile: "@ + quoted(path) + "\n                \rAt line: "@ + decimal_of(line_number)
        + "\n                \rContent: "@ + quoted(preview)
        + "\n                \r---------------------------------------"@
}

/// The blocks of all records, in order.
pub open spec fn results_text(records: Seq<MatchRecord>) -> Seq<char>
    decreases records.len(),
{
    if records.len() == 0 {
        Seq::empty()
    } else {
        results_text(records.drop_last()) + record_text(
            records.last().path@,
            records.last().line_number as nat,
            records.last().preview@,
        )
    }
}

/// Render one record's block.
pub fn format_record(rec: &MatchRecord) -> (r: String)
    ensures
        r@ == record_text(rec.path@, rec.line_number as nat, rec.preview@),
{
    let mut s = String::from_str("\nFile: ");
    s.append(with_quotes(&rec.path).as_str());
    s.append("\n                \rAt line: ");
    s.append(usize_to_string(rec.line_number).as_str());
    s.append("\n                \rContent: ");
    s.append(with_quotes(&rec.preview).as_str());
    s.append("\n                \r---------------------------------------");
    proof {
        assert(s@ =~= record_text(rec.path@, rec.line_number as nat, rec.preview@));
    }
    s
}

/// Render every record's block, in order.
pub fn format_results(records: &Vec<MatchRecord>) -> (r: String)
    ensures
        r@ == results_text(records@),
{
    let mut s = String::new();
    let n = records.len();
    let mut i: usize = 0;
    proof {
        assert(records@.take(0) =~= Seq::<MatchRecord>::empty());
    }
    while i < n
        invariant
            n == records@.len(),
            i <= n,
            s@ == results_text(records@.take(i as int)),
        decreases n - i,
    {
        proof {
            assert(records@.take(i + 1).drop_last() =~= records@.take(i as int));
            assert(records@.take(i + 1).last() == records@[i as int]);
        }
        let block = format_record(&records[i]);
        s.append(block.as_str());
        i += 1;
    }
    proof {
        assert(records@.take(n as int) =~= records@);
    }
    s
}

} // verus!
