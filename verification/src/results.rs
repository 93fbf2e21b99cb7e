//! The result aggregator: one match record per file path, where a later
//! insertion for the same path overwrites the earlier one. The abstract
//! value is a map from path text to the record's data, built up in
//! insertion order.

use vstd::prelude::*;

verus! {

/// One reported match: a file path, the 1-based number of the matching
/// line, and a display-capped preview of that line.
pub struct MatchRecord {
    pub path: String,
    pub line_number: usize,
    pub preview: String,
}

/// The data a record associates with its path.
pub open spec fn record_data(r: MatchRecord) -> (nat, Seq<char>) {
    (r.line_number as nat, r.preview@)
}

/// The path-to-data map described by a sequence of records, later records
/// overwriting earlier ones with the same path.
pub open spec fn map_of(entries: Seq<MatchRecord>) -> Map<Seq<char>, (nat, Seq<char>)>
    decreases entries.len(),
{
    if entries.len() == 0 {
        Map::empty()
    } else {
        map_of(entries.drop_last()).insert(entries.last().path@, record_data(entries.last()))
    }
}

/// A key is in the map exactly when some record carries it as its path.
pub proof fn lemma_map_of_domain(entries: Seq<MatchRecord>, k: Seq<char>)
    ensures
        map_of(entries).contains_key(k) <==> exists|i: int|
            0 <= i < entries.len() && entries[i].path@ == k,
    decreases entries.len(),
{
    if entries.len() > 0 {
        lemma_map_of_domain(entries.drop_last(), k);
        if entries.last().path@ == k {
            assert(entries[entries.len() - 1].path@ == k);
        } else if map_of(entries).contains_key(k) {
            let i = choose|i: int|
                0 <= i < entries.drop_last().len() && entries.drop_last()[i].path@ == k;
            assert(entries[i].path@ == k);
        } else {
            assert forall|i: int|
                0 <= i < entries.len() && entries[i].path@ == k implies false by {
                assert(i < entries.len() - 1);
                assert(entries.drop_last()[i].path@ == k);
            }
        }
    }
}

/// Overwriting the one record that holds a path is, at the map level, an
/// insertion for that path.
proof fn lemma_map_of_update(entries: Seq<MatchRecord>, j: int, rec: MatchRecord)
    requires
        0 <= j < entries.len(),
        entries[j].path@ == rec.path@,
        forall|p: int, q: int|
            0 <= p < q < entries.len() ==> entries[p].path@ != entries[q].path@,
    ensures
        map_of(entries.update(j, rec)) =~= map_of(entries).insert(rec.path@, record_data(rec)),
    decreases entries.len(),
{
    let upd = entries.update(j, rec);
    if j == entries.len() - 1 {
        assert(upd.drop_last() =~= entries.drop_last());
        assert(upd.last() == rec);
    } else {
        assert(upd.last() == entries.last());
        assert(upd.drop_last() =~= entries.drop_last().update(j, rec));
        lemma_map_of_update(entries.drop_last(), j, rec);
        assert(entries.last().path@ != rec.path@);
    }
}

/// The collected results of one run: for each file path that produced a
/// match, the record of the last matching line inserted for it.
pub struct ResultSet {
    entries: Vec<MatchRecord>,
}

impl ResultSet {
    /// The records in insertion order.
    pub closed spec fn records(&self) -> Seq<MatchRecord> {
        self.entries@
    }

    /// No two records share a path.
    pub open spec fn wf(&self) -> bool {
        forall|p: int, q: int|
            0 <= p < q < self.records().len() ==> self.records()[p].path@
                != self.records()[q].path@
    }

    /// The abstract path-to-data map.
    pub open spec fn as_map(&self) -> Map<Seq<char>, (nat, Seq<char>)> {
        map_of(self.records())
    }

    /// An empty result set.
    pub fn new() -> (r: ResultSet)
        ensures
            r.wf(),
            r.records() == Seq::<MatchRecord>::empty(),
            r.as_map() == Map::<Seq<char>, (nat, Seq<char>)>::empty(),
    {
        ResultSet { entries: Vec::new() }
    }

    /// How many files have a record.
    pub fn len(&self) -> (n: usize)
        ensures
            n == self.records().len(),
    {
        self.entries.len()
    }

    /// Record a match: replace the record whose path equals `rec.path`, or
    /// append `rec` when no record holds that path yet.
    pub fn insert(&mut self, rec: MatchRecord)
        requires
            old(self).wf(),
        ensures
            final(self).wf(),
            final(self).as_map() == old(self).as_map().insert(rec.path@, record_data(rec)),
            map_of(old(self).records()).contains_key(rec.path@) ==> final(self).records().len()
                == old(self).records().len(),
            !map_of(old(self).records()).contains_key(rec.path@) ==> final(self).records()
                == old(self).records().push(rec),
    {
        let n = self.entries.len();
        let mut i: usize = 0;
        while i < n
            invariant
                self.wf(),
                *self == *old(self),
                n == self.entries@.len(),
                i <= n,
                forall|j: int| 0 <= j < i ==> self.entries@[j].path@ != rec.path@,
        decreases n - i,
        {
            if self.entries[i].path == rec.path {
                proof {
                    assert(self.records() == self.entries@);
                    lemma_map_of_update(self.entries@, i as int, rec);
                    lemma_map_of_domain(self.entries@, rec.path@);
                }
                let ghost prior = self.entries@;
                self.entries[i] = rec;
                assert(self.wf()) by {
                    assert(forall|p: int, q: int|
                        0 <= p < q < prior.len() ==> prior[p].path@ != prior[q].path@);
                }
                return;
            }
            i += 1;
        }
        proof {
            lemma_map_of_domain(self.entries@, rec.path@);
        }
        let ghost prior = self.entries@;
        proof {
            assert(self.records() == self.entries@);
            assert(forall|p: int, q: int|
                0 <= p < q < prior.len() ==> prior[p].path@ != prior[q].path@);
        }
        self.entries.push(rec);
        proof {
            assert(self.entries@.drop_last() =~= prior);
            assert(self.entries@.last() == rec);
            assert forall|p: int, q: int|
                0 <= p < q < self.entries@.len() implies self.entries@[p].path@
                != self.entries@[q].path@ by {
                if q == prior.len() {
                    assert(self.entries@[p] == prior[p]);
                } else {
                    assert(self.entries@[p] == prior[p]);
                    assert(self.entries@[q] == prior[q]);
                }
            }
            assert(self.records() == self.entries@);
        }
    }

    /// Hand the records out, in insertion order, consuming the set.
    pub fn into_records(self) -> (r: Vec<MatchRecord>)
        ensures
            r@ == self.records(),
    {
        self.entries
    }

}

} // verus!
