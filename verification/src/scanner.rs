//! Scanning one file's text: every line is tested against the pattern,
//! and the record kept for the file is the one of the last matching line,
//! with its 1-based number and display-capped preview.

use vstd::prelude::*;
use crate::config::Config;
use crate::lines::{lines_of, split_lines};
use crate::pattern::regex_match;
use crate::preview::{give_half_or, preview_of, TOTAL_LEN};
use crate::results::{record_data, MatchRecord, ResultSet};

verus! {

/// A file the walker produced and the front end read: its path and its
/// full text.
pub struct FileText {
    pub path: String,
    pub content: String,
}

/// The data recorded for a file whose lines are `lines`: the 1-based
/// number and capped preview of the last line matching `pattern`, or
/// nothing when no line matches.
pub open spec fn scan_result(pattern: Seq<char>, lines: Seq<Seq<char>>) -> Option<(nat, Seq<char>)>
    decreases lines.len(),
{
    if lines.len() == 0 {
        None
    } else if regex_match(pattern, lines.last()) {
        Some((lines.len() as nat, preview_of(lines.last(), TOTAL_LEN as nat)))
    } else {
        scan_result(pattern, lines.drop_last())
    }
}

/// A file matching zero lines contributes nothing: the scan comes up
/// empty exactly when no line matches.
pub proof fn lemma_no_match_no_record(pattern: Seq<char>, lines: Seq<Seq<char>>)
    ensures
        (forall|i: int| 0 <= i < lines.len() ==> !regex_match(pattern, lines[i]))
            <==> scan_result(pattern, lines) is None,
    decreases lines.len(),
{
    if lines.len() > 0 {
        lemma_no_match_no_record(pattern, lines.drop_last());
        if !regex_match(pattern, lines.last()) {
            assert(forall|i: int|
                0 <= i < lines.len() - 1 ==> lines.drop_last()[i] == lines[i]);
            assert(lines[lines.len() - 1] == lines.last());
        }
    }
}

/// Last match wins: when line `i` matches and no later line does, the
/// scan records line `i + 1` with its preview.
pub proof fn lemma_last_match_wins(pattern: Seq<char>, lines: Seq<Seq<char>>, i: int)
    requires
        0 <= i < lines.len(),
        regex_match(pattern, lines[i]),
        forall|j: int| i < j < lines.len() ==> !regex_match(pattern, lines[j]),
    ensures
        scan_result(pattern, lines) == Some(
            ((i + 1) as nat, preview_of(lines[i], TOTAL_LEN as nat)),
        ),
    decreases lines.len(),
{
    if i == lines.len() - 1 {
        assert(lines.last() == lines[i]);
    } else {
        assert(!regex_match(pattern, lines.last()));
        assert(forall|k: int| 0 <= k < lines.len() - 1 ==> lines.drop_last()[k] == lines[k]);
        lemma_last_match_wins(pattern, lines.drop_last(), i);
    }
}

/// Scan `content`, read from the file at `path`, and record the last
/// matching line in `results`; leave `results` as it was when no line
/// matches.
pub fn scan_file(conf: &Config, results: &mut ResultSet, path: &String, content: &str)
    requires
        old(results).wf(),
    ensures
        final(results).wf(),
        match scan_result(conf.search_term.text(), lines_of(content@)) {
            None => final(results).records() == old(results).records() && final(results).as_map()
                == old(results).as_map(),
            Some(data) => final(results).as_map() == old(results).as_map().insert(
                path@,
                data,
            ),
        },
{
    let lines = split_lines(content);
    let n = lines.len();
    let mut best: Option<(usize, String)> = None;
    let ghost lv = lines.deep_view();
    proof {
        assert(lv.take(0) =~= Seq::<Seq<char>>::empty());
    }
    let mut i: usize = 0;
    while i < n
        invariant
            n == lines@.len(),
            lv == lines.deep_view(),
            lv.len() == n,
            i <= n,
            match best {
                None => scan_result(conf.search_term.text(), lv.take(i as int)) is None,
                Some((num, prev)) => scan_result(conf.search_term.text(), lv.take(i as int))
                    == Some((num as nat, prev@)),
            },
        decreases n - i,
    {
        proof {
            assert(lines@[i as int]@ == lv[i as int]);
            assert(lv.take(i + 1).drop_last() =~= lv.take(i as int));
            assert(lv.take(i + 1).last() == lv[i as int]);
        }
        let line = &lines[i];
        if conf.search_term.is_match(line.as_str()) {
            let prev = give_half_or(line, TOTAL_LEN);
            best = Some((i + 1, prev));
        }
        i += 1;
    }
    proof {
        assert(lv.take(n as int) =~= lv);
    }
    match best {
        None => {},
        Some((num, prev)) => {
            let rec = MatchRecord { path: path.clone(), line_number: num, preview: prev };
            proof {
                assert(record_data(rec) == (num as nat, prev@));
            }
            results.insert(rec);
        },
    }
}

/// The map a whole run produces: the files in walk order, each either
/// contributing its last-matching-line record or nothing.
pub open spec fn scan_all(pattern: Seq<char>, files: Seq<FileText>) -> Map<
    Seq<char>,
    (nat, Seq<char>),
>
    decreases files.len(),
{
    if files.len() == 0 {
        Map::empty()
    } else {
        let m = scan_all(pattern, files.drop_last());
        match scan_result(pattern, lines_of(files.last().content@)) {
            None => m,
            Some(data) => m.insert(files.last().path@, data),
        }
    }
}

/// A run's result holds a path exactly when some scanned file carried
/// that path and had a matching line. In particular, a file matching
/// zero lines leaves no record under its path.
pub proof fn lemma_scan_all_domain(pattern: Seq<char>, files: Seq<FileText>, path: Seq<char>)
    ensures
        scan_all(pattern, files).contains_key(path) <==> exists|i: int|
            0 <= i < files.len() && files[i].path@ == path && scan_result(
                pattern,
                lines_of(files[i].content@),
            ) is Some,
    decreases files.len(),
{
    if files.len() > 0 {
        lemma_scan_all_domain(pattern, files.drop_last(), path);
        let last = files.last();
        if files[files.len() - 1].path@ == path && scan_result(
            pattern,
            lines_of(last.content@),
        ) is Some {
            assert(scan_all(pattern, files).contains_key(path));
        } else if scan_all(pattern, files).contains_key(path) {
            let i = choose|i: int|
                0 <= i < files.drop_last().len() && files.drop_last()[i].path@ == path
                    && scan_result(pattern, lines_of(files.drop_last()[i].content@)) is Some;
            assert(files[i] == files.drop_last()[i]);
        } else {
            assert forall|i: int|
                0 <= i < files.len() && files[i].path@ == path && scan_result(
                    pattern,
                    lines_of(files[i].content@),
                ) is Some implies false by {
                assert(i < files.len() - 1);
                assert(files.drop_last()[i] == files[i]);
            }
        }
    }
}

/// The record kept under a path is the one of the last file scanned with
/// that path whose lines matched — writes land in walk order.
pub proof fn lemma_scan_all_last_wins(pattern: Seq<char>, files: Seq<FileText>, i: int)
    requires
        0 <= i < files.len(),
        scan_result(pattern, lines_of(files[i].content@)) is Some,
        forall|j: int| i < j < files.len() ==> files[j].path@ != files[i].path@,
    ensures
        scan_all(pattern, files).contains_key(files[i].path@),
        scan_all(pattern, files)[files[i].path@] == scan_result(
            pattern,
            lines_of(files[i].content@),
        )->Some_0,
    decreases files.len(),
{
    if i == files.len() - 1 {
        assert(files.last() == files[i]);
    } else {
        assert(forall|k: int| 0 <= k < files.len() - 1 ==> files.drop_last()[k] == files[k]);
        lemma_scan_all_last_wins(pattern, files.drop_last(), i);
        assert(files.last().path@ != files[i].path@);
    }
}

/// Scan the files the walk produced, in order, into one result set.
pub fn search_files(conf: &Config, files: &Vec<FileText>) -> (r: ResultSet)
    ensures
        r.wf(),
        r.as_map() == scan_all(conf.search_term.text(), files@),
{
    let mut results = ResultSet::new();
    let n = files.len();
    let mut i: usize = 0;
    while i < n
        invariant
            n == files@.len(),
            i <= n,
            results.wf(),
            results.as_map() == scan_all(conf.search_term.text(), files@.take(i as int)),
        decreases n - i,
    {
        proof {
            assert(files@.take(i + 1).drop_last() =~= files@.take(i as int));
            assert(files@.take(i + 1).last() == files@[i as int]);
        }
        let entry = &files[i];
        scan_file(conf, &mut results, &entry.path, entry.content.as_str());
        i += 1;
    }
    proof {
        assert(files@.take(n as int) =~= files@);
    }
    results
}

} // verus!
