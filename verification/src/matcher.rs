//! The two matching pipelines, one for logs and one for traces.
//!
//! Both run the address-qualified matcher over all records, send the
//! records that stayed unmatched through the frequency fallback, and hand
//! back the address-matched rows followed by the fallback rows.

use vstd::prelude::*;
use crate::address::{address_rows, all_hits, find_hits, join_by_address};
use crate::frequency::{fallback_resolution, pick_most_frequent, reduce_catalog, reduced_catalog};
use crate::keys::{log_lookups, log_probes, probes_of, trace_lookups, trace_probes, Lookup, Probe};
use crate::records::{AbiEntry, LogRecord, TraceRecord};
use crate::laws::rows_stay_within;
use crate::rows::{
    matched_rows_of, push_all, push_matched, single_row, within, MatchedRow, Resolution,
};

verus! {

/// The address-matched rows of the first `n` records, record by record.
pub open spec fn matched_part(probes: Seq<Probe>, catalog: Seq<AbiEntry>, n: nat) -> Seq<
    MatchedRow,
>
    decreases n,
{
    if n == 0 {
        Seq::empty()
    } else {
        matched_part(probes, catalog, (n - 1) as nat) + matched_rows_of(
            (n - 1) as usize,
            all_hits(probes[n - 1], catalog),
        )
    }
}

/// The row that the fallback gives for one record: none if the record
/// matched with its address.
pub open spec fn fallback_rows_of(record: usize, probe: Probe, catalog: Seq<AbiEntry>) -> Seq<
    MatchedRow,
> {
    if all_hits(probe, catalog).len() == 0 {
        single_row(record, fallback_resolution(probe, catalog))
    } else {
        Seq::empty()
    }
}

/// The fallback rows of the first `n` records, record by record.
pub open spec fn fallback_part(probes: Seq<Probe>, catalog: Seq<AbiEntry>, n: nat) -> Seq<
    MatchedRow,
>
    decreases n,
{
    if n == 0 {
        Seq::empty()
    } else {
        fallback_part(probes, catalog, (n - 1) as nat) + fallback_rows_of(
            (n - 1) as usize,
            probes[n - 1],
            catalog,
        )
    }
}

/// The outcome of the two-phase match: all address-matched rows first, then
/// the fallback rows.
pub open spec fn resolved_rows(probes: Seq<Probe>, catalog: Seq<AbiEntry>) -> Seq<MatchedRow> {
    matched_part(probes, catalog, probes.len()) + fallback_part(probes, catalog, probes.len())
}

/// All keys are of one kind: all with an arity, or all without.
pub open spec fn uniform(probes: Seq<Probe>, by_arity: bool) -> bool {
    forall|i: int| 0 <= i < probes.len() ==> (#[trigger] probes[i]).arity is Some == by_arity
}

/// Runs the two phases over the keys of the records.
pub(crate) fn resolve(lookups: &Vec<Lookup>, catalog: &Vec<AbiEntry>, by_arity: bool) -> (rows: Vec<
    MatchedRow,
>)
    requires
        uniform(probes_of(lookups@), by_arity),
    ensures
        rows@ == resolved_rows(probes_of(lookups@), catalog@),
        within(rows@, lookups.len() as nat, catalog.len() as nat),
{
    let positions = reduce_catalog(by_arity, catalog);
    let mut rows: Vec<MatchedRow> = Vec::new();
    let mut fallback: Vec<MatchedRow> = Vec::new();
    let mut i: usize = 0;
    while i < lookups.len()
        invariant
            i <= lookups.len(),
            uniform(probes_of(lookups@), by_arity),
            positions@ == reduced_catalog(by_arity, catalog@),
            rows@ == matched_part(probes_of(lookups@), catalog@, i as nat),
            fallback@ == fallback_part(probes_of(lookups@), catalog@, i as nat),
        decreases lookups.len() - i,
    {
        let found = find_hits(&lookups[i], catalog);
        assert(probes_of(lookups@)[i as int] == lookups@[i as int]@);
        if found.len() == 0 {
            let resolution = match pick_most_frequent(&lookups[i], catalog, &positions) {
                Some(j) => Resolution::HashFallbackMatched(j),
                None => Resolution::Unmatched,
            };
            fallback.push(MatchedRow { record: i, resolution });
            assert(fallback@ =~= fallback_part(probes_of(lookups@), catalog@, i as nat)
                + single_row(i, resolution));
            assert(rows@ =~= rows@ + matched_rows_of(i, found@));
        } else {
            push_matched(&mut rows, i, &found);
            assert(fallback@ =~= fallback@ + Seq::<MatchedRow>::empty());
        }
        i = i + 1;
    }
    push_all(&mut rows, &fallback);
    proof {
        assert(catalog@.len() == catalog.len());
        rows_stay_within(probes_of(lookups@), catalog@);
    }
    rows
}

/// Matches logs with the catalog on `topic0`, address and number of indexed
/// arguments.
///
/// Every log is kept: it gets one row for each catalog row that agrees with
/// it in all three, in catalog order, or one unmatched row if there is
/// none. The rows stand in the order of the logs.
pub fn match_logs_by_topic0_address(logs: &Vec<LogRecord>, catalog: &Vec<AbiEntry>) -> (rows: Vec<
    MatchedRow,
>)
    ensures
        rows@ == address_rows(log_probes(logs@), catalog@, logs.len() as nat),
        within(rows@, logs.len() as nat, catalog.len() as nat),
{
    let lookups = log_lookups(logs);
    assert(lookups.len() == logs.len()) by {
        assert(probes_of(lookups@).len() == log_probes(logs@).len());
    }
    join_by_address(&lookups, catalog)
}

/// Matches logs with the catalog in two steps.
///
/// A log that agrees with catalog rows in `topic0`, address and number of
/// indexed arguments gets one address-matched row for each of them. Any
/// other log gets one row: resolved to the signature that the catalog
/// declares most often for its `topic0` and number of indexed arguments,
/// or unmatched if the catalog declares none. The address-matched rows come
/// first, then the others, each part in the order of the logs.
pub fn match_logs_by_topic0(logs: &Vec<LogRecord>, catalog: &Vec<AbiEntry>) -> (rows: Vec<
    MatchedRow,
>)
    ensures
        rows@ == resolved_rows(log_probes(logs@), catalog@),
        within(rows@, logs.len() as nat, catalog.len() as nat),
{
    let lookups = log_lookups(logs);
    assert(lookups.len() == logs.len()) by {
        assert(probes_of(lookups@).len() == log_probes(logs@).len());
    }
    resolve(&lookups, catalog, true)
}

/// Matches traces with the catalog on selector and called address.
///
/// Every trace is kept: it gets one row for each catalog row that agrees
/// with it in both, in catalog order, or one unmatched row if there is
/// none. The rows stand in the order of the traces.
pub fn match_traces_by_4bytes_address(traces: &Vec<TraceRecord>, catalog: &Vec<AbiEntry>) -> (rows:
    Vec<MatchedRow>)
    ensures
        rows@ == address_rows(trace_probes(traces@), catalog@, traces.len() as nat),
        within(rows@, traces.len() as nat, catalog.len() as nat),
{
    let lookups = trace_lookups(traces);
    assert(lookups.len() == traces.len()) by {
        assert(probes_of(lookups@).len() == trace_probes(traces@).len());
    }
    join_by_address(&lookups, catalog)
}

/// Matches traces with the catalog in two steps.
///
/// A trace that agrees with catalog rows in selector and called address
/// gets one address-matched row for each of them. Any other trace gets one
/// row: resolved to the signature that the catalog declares most often for
/// its selector, or unmatched if the catalog declares none. The
/// address-matched rows come first, then the others, each part in the order
/// of the traces.
pub fn match_traces_by_4bytes(traces: &Vec<TraceRecord>, catalog: &Vec<AbiEntry>) -> (rows: Vec<
    MatchedRow,
>)
    ensures
        rows@ == resolved_rows(trace_probes(traces@), catalog@),
        within(rows@, traces.len() as nat, catalog.len() as nat),
{
    let lookups = trace_lookups(traces);
    assert(lookups.len() == traces.len()) by {
        assert(probes_of(lookups@).len() == trace_probes(traces@).len());
    }
    resolve(&lookups, catalog, false)
}

} // verus!
