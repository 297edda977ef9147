//! The address-qualified matcher: a left join of the records to the catalog
//! on hash, address and arity.

use vstd::prelude::*;
use crate::keys::{address_match, probes_of, Lookup, Probe};
use crate::records::AbiEntry;
use crate::laws::rows_stay_within;
use crate::rows::{matched_rows_of, push_matched, single_row, within, MatchedRow, Resolution};

verus! {

/// The positions below `n` of the catalog rows that match the key with its
/// address, in ascending order.
pub open spec fn hits(probe: Probe, catalog: Seq<AbiEntry>, n: nat) -> Seq<usize>
    decreases n,
{
    if n == 0 {
        Seq::empty()
    } else {
        let before = hits(probe, catalog, (n - 1) as nat);
        if address_match(probe, catalog[n - 1]) {
            before.push((n - 1) as usize)
        } else {
            before
        }
    }
}

/// All positions of the catalog rows that match the key with its address.
pub open spec fn all_hits(probe: Probe, catalog: Seq<AbiEntry>) -> Seq<usize> {
    hits(probe, catalog, catalog.len())
}

/// The rows that the left join gives for one record: one for each hit, or a
/// single unmatched row where there is none.
pub open spec fn joined_rows_of(record: usize, hits: Seq<usize>) -> Seq<MatchedRow> {
    if hits.len() == 0 {
        single_row(record, Resolution::Unmatched)
    } else {
        matched_rows_of(record, hits)
    }
}

/// The left join of the first `n` records to the catalog, record by record.
pub open spec fn address_rows(probes: Seq<Probe>, catalog: Seq<AbiEntry>, n: nat) -> Seq<
    MatchedRow,
>
    decreases n,
{
    if n == 0 {
        Seq::empty()
    } else {
        address_rows(probes, catalog, (n - 1) as nat) + joined_rows_of(
            (n - 1) as usize,
            all_hits(probes[n - 1], catalog),
        )
    }
}

/// Finds the catalog rows that match the key with its address.
pub fn find_hits(lookup: &Lookup, catalog: &Vec<AbiEntry>) -> (found: Vec<usize>)
    ensures
        found@ == all_hits(lookup@, catalog@),
{
    let mut found: Vec<usize> = Vec::new();
    let mut j: usize = 0;
    while j < catalog.len()
        invariant
            j <= catalog.len(),
            found@ == hits(lookup@, catalog@, j as nat),
        decreases catalog.len() - j,
    {
        if lookup.matches_address(&catalog[j]) {
            found.push(j);
        }
        j = j + 1;
    }
    found
}

/// Joins every record to the catalog rows that match it with its address.
/// A record without such a row gets one unmatched row.
pub fn join_by_address(lookups: &Vec<Lookup>, catalog: &Vec<AbiEntry>) -> (rows: Vec<MatchedRow>)
    ensures
        rows@ == address_rows(probes_of(lookups@), catalog@, lookups.len() as nat),
        within(rows@, lookups.len() as nat, catalog.len() as nat),
{
    let mut rows: Vec<MatchedRow> = Vec::new();
    let mut i: usize = 0;
    while i < lookups.len()
        invariant
            i <= lookups.len(),
            rows@ == address_rows(probes_of(lookups@), catalog@, i as nat),
        decreases lookups.len() - i,
    {
        let found = find_hits(&lookups[i], catalog);
        if found.len() == 0 {
            rows.push(MatchedRow { record: i, resolution: Resolution::Unmatched });
            assert(rows@ =~= address_rows(probes_of(lookups@), catalog@, i as nat) + single_row(
                i,
                Resolution::Unmatched,
            ));
        } else {
            push_matched(&mut rows, i, &found);
        }
        i = i + 1;
    }
    proof {
        assert(catalog@.len() == catalog.len());
        rows_stay_within(probes_of(lookups@), catalog@);
    }
    rows
}

} // verus!
