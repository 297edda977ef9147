//! The rows that the matchers hand back.

use vstd::prelude::*;

verus! {

/// How a record was resolved. The number is the position of the catalog row
/// that gives the record its signature.
#[derive(Clone, Copy, Debug, PartialEq, Eq, Structural)]
pub enum Resolution {
    /// Hash, address and arity agree with this catalog row.
    AddressMatched(usize),
    /// No row matched with the address; this row stands for the signature
    /// that the catalog declares most often for the hash. Its address says
    /// nothing about the record.
    HashFallbackMatched(usize),
    /// Nothing in the catalog matches: the signature stays empty.
    Unmatched,
}

/// One output row: the position of the input record and how it was resolved.
#[derive(Clone, Copy, Debug, PartialEq, Eq, Structural)]
pub struct MatchedRow {
    pub record: usize,
    pub resolution: Resolution,
}

impl Resolution {
    /// The catalog row that gives the signature, if there is one.
    pub open spec fn spec_entry(self) -> Option<usize> {
        match self {
            Resolution::AddressMatched(j) => Some(j),
            Resolution::HashFallbackMatched(j) => Some(j),
            Resolution::Unmatched => None,
        }
    }

    /// The catalog row that gives the signature, if there is one.
    #[verifier::when_used_as_spec(spec_entry)]
    pub fn entry(self) -> (entry: Option<usize>)
        ensures
            entry == self.spec_entry(),
    {
        match self {
            Resolution::AddressMatched(j) => Some(j),
            Resolution::HashFallbackMatched(j) => Some(j),
            Resolution::Unmatched => None,
        }
    }
}

/// The rows of one record that matched with its address: one for each
/// catalog row in `hits`, in that order.
pub open spec fn matched_rows_of(record: usize, hits: Seq<usize>) -> Seq<MatchedRow> {
    Seq::new(
        hits.len(),
        |t: int| MatchedRow { record, resolution: Resolution::AddressMatched(hits[t]) },
    )
}

/// The one row of a record that is resolved as `resolution`.
pub open spec fn single_row(record: usize, resolution: Resolution) -> Seq<MatchedRow> {
    seq![MatchedRow { record, resolution }]
}

/// Every row speaks of one of `records` records and, where it is resolved,
/// of one of `entries` catalog rows.
pub open spec fn within(rows: Seq<MatchedRow>, records: nat, entries: nat) -> bool {
    forall|t: int|
        0 <= t < rows.len() ==> (#[trigger] rows[t]).record < records && match rows[t].resolution.entry() {
            Some(j) => j < entries,
            None => true,
        }
}

/// Appends to `rows` one address-matched row for each catalog row in `hits`.
pub fn push_matched(rows: &mut Vec<MatchedRow>, record: usize, hits: &Vec<usize>)
    ensures
        final(rows)@ == old(rows)@ + matched_rows_of(record, hits@),
{
    let mut t: usize = 0;
    while t < hits.len()
        invariant
            t <= hits.len(),
            rows@ == old(rows)@ + matched_rows_of(record, hits@).take(t as int),
        decreases hits.len() - t,
    {
        rows.push(MatchedRow { record, resolution: Resolution::AddressMatched(hits[t]) });
        assert(rows@ =~= old(rows)@ + matched_rows_of(record, hits@).take(t + 1));
        t = t + 1;
    }
    assert(matched_rows_of(record, hits@).take(t as int) =~= matched_rows_of(record, hits@));
}

/// Appends `more` to `rows`.
pub fn push_all(rows: &mut Vec<MatchedRow>, more: &Vec<MatchedRow>)
    ensures
        final(rows)@ == old(rows)@ + more@,
{
    let mut t: usize = 0;
    while t < more.len()
        invariant
            t <= more.len(),
            rows@ == old(rows)@ + more@.take(t as int),
        decreases more.len() - t,
    {
        rows.push(more[t]);
        assert(rows@ =~= old(rows)@ + more@.take(t + 1));
        t = t + 1;
    }
    assert(more@.take(t as int) =~= more@);
}

} // verus!
