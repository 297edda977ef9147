//! What holds of the matchers on every input.

use vstd::prelude::*;
use crate::address::{address_rows, all_hits, hits, joined_rows_of};
use crate::frequency::{
    fallback_resolution, is_most_frequent, most_frequent, preferred, signature_count,
};
use crate::keys::{
    address_match, hash_match, keys_unique, log_probes, same_key, same_signature, trace_probes,
    Probe,
};
use crate::matcher::{fallback_part, fallback_rows_of, matched_part, resolved_rows, uniform};
use crate::records::{AbiEntry, LogRecord, TraceRecord};
use crate::rows::{matched_rows_of, within, MatchedRow, Resolution};

verus! {

/// The hits below `n` are exactly the rows below `n` that match the key with
/// its address.
pub proof fn hits_are_the_matches(probe: Probe, catalog: Seq<AbiEntry>, n: nat)
    requires
        n <= catalog.len() <= usize::MAX,
    ensures
        hits(probe, catalog, n).len() <= n,
        forall|t: int|
            0 <= t < hits(probe, catalog, n).len() ==> {
                let j = #[trigger] hits(probe, catalog, n)[t];
                j < n && address_match(probe, catalog[j as int])
            },
        forall|j: int|
            0 <= j < n && address_match(probe, #[trigger] catalog[j]) ==> hits(
                probe,
                catalog,
                n,
            ).contains(j as usize),
    decreases n,
{
    if n > 0 {
        let before = hits(probe, catalog, (n - 1) as nat);
        hits_are_the_matches(probe, catalog, (n - 1) as nat);
        let now = hits(probe, catalog, n);
        if address_match(probe, catalog[n - 1]) {
            assert(now[before.len() as int] == (n - 1) as usize);
        }
        assert forall|j: int| 0 <= j < n && address_match(probe, #[trigger] catalog[j]) implies now.contains(
            j as usize,
        ) by {
            if j < n - 1 {
                let t = choose|t: int| 0 <= t < before.len() && before[t] == j as usize;
                assert(now[t] == j as usize);
            } else {
                assert(now[before.len() as int] == j as usize);
            }
        }
    }
}

/// Where no two catalog rows share a key, a record matches at most one row
/// with its address.
pub proof fn unique_keys_give_one_hit(
    probe: Probe,
    catalog: Seq<AbiEntry>,
    by_arity: bool,
    n: nat,
)
    requires
        n <= catalog.len() <= usize::MAX,
        keys_unique(by_arity, catalog),
        probe.arity is Some == by_arity,
    ensures
        hits(probe, catalog, n).len() <= 1,
    decreases n,
{
    if n > 0 {
        let before = hits(probe, catalog, (n - 1) as nat);
        unique_keys_give_one_hit(probe, catalog, by_arity, (n - 1) as nat);
        if address_match(probe, catalog[n - 1]) && before.len() > 0 {
            hits_are_the_matches(probe, catalog, (n - 1) as nat);
            let j = before[0];
            assert(same_key(by_arity, catalog[j as int], catalog[n - 1]));
        }
    }
}

/// Under unique keys the address-qualified matcher gives the first `n`
/// records one row each, in their order.
pub proof fn unique_keys_give_one_row(
    probes: Seq<Probe>,
    catalog: Seq<AbiEntry>,
    by_arity: bool,
    n: nat,
)
    requires
        n <= probes.len() <= usize::MAX,
        catalog.len() <= usize::MAX,
        keys_unique(by_arity, catalog),
        uniform(probes, by_arity),
    ensures
        address_rows(probes, catalog, n).len() == n,
        matched_part(probes, catalog, n).len() + fallback_part(probes, catalog, n).len() == n,
        forall|k: int| 0 <= k < n ==> (#[trigger] address_rows(probes, catalog, n)[k]).record == k,
    decreases n,
{
    if n > 0 {
        unique_keys_give_one_row(probes, catalog, by_arity, (n - 1) as nat);
        unique_keys_give_one_hit(probes[n - 1], catalog, by_arity, catalog.len());
    }
}

/// Coverage: where no two catalog rows share a key, both the
/// address-qualified matcher and the two-phase matcher hand back exactly as
/// many rows as there are records.
pub proof fn unique_keys_keep_row_count(probes: Seq<Probe>, catalog: Seq<AbiEntry>, by_arity: bool)
    requires
        probes.len() <= usize::MAX,
        catalog.len() <= usize::MAX,
        keys_unique(by_arity, catalog),
        uniform(probes, by_arity),
    ensures
        address_rows(probes, catalog, probes.len()).len() == probes.len(),
        resolved_rows(probes, catalog).len() == probes.len(),
{
    unique_keys_give_one_row(probes, catalog, by_arity, probes.len());
}

/// Coverage for logs: where no two catalog rows agree in hash, address and
/// arity, both log matchers hand back one row for each log.
pub proof fn log_matching_keeps_row_count(logs: Seq<LogRecord>, catalog: Seq<AbiEntry>)
    requires
        logs.len() <= usize::MAX,
        catalog.len() <= usize::MAX,
        keys_unique(true, catalog),
    ensures
        address_rows(log_probes(logs), catalog, logs.len()).len() == logs.len(),
        resolved_rows(log_probes(logs), catalog).len() == logs.len(),
{
    unique_keys_keep_row_count(log_probes(logs), catalog, true);
}

/// Coverage for traces: where no two catalog rows agree in hash and
/// address, both trace matchers hand back one row for each trace.
pub proof fn trace_matching_keeps_row_count(traces: Seq<TraceRecord>, catalog: Seq<AbiEntry>)
    requires
        traces.len() <= usize::MAX,
        catalog.len() <= usize::MAX,
        keys_unique(false, catalog),
    ensures
        address_rows(trace_probes(traces), catalog, traces.len()).len() == traces.len(),
        resolved_rows(trace_probes(traces), catalog).len() == traces.len(),
{
    unique_keys_keep_row_count(trace_probes(traces), catalog, false);
}

/// Whatever the catalog holds, no record is dropped: each matcher hands back
/// at least as many rows as there are records.
pub proof fn no_record_is_dropped(probes: Seq<Probe>, catalog: Seq<AbiEntry>, n: nat)
    requires
        n <= probes.len(),
    ensures
        address_rows(probes, catalog, n).len() >= n,
        matched_part(probes, catalog, n).len() + fallback_part(probes, catalog, n).len() >= n,
    decreases n,
{
    if n > 0 {
        no_record_is_dropped(probes, catalog, (n - 1) as nat);
    }
}

/// Idempotence of the address match: where no two catalog rows share a key,
/// matching the records of the output again gives the output again.
pub proof fn address_match_is_idempotent(
    probes: Seq<Probe>,
    catalog: Seq<AbiEntry>,
    by_arity: bool,
)
    requires
        probes.len() <= usize::MAX,
        catalog.len() <= usize::MAX,
        keys_unique(by_arity, catalog),
        uniform(probes, by_arity),
    ensures
        ({
            let rows = address_rows(probes, catalog, probes.len());
            let again = Seq::new(rows.len(), |k: int| probes[rows[k].record as int]);
            address_rows(again, catalog, again.len()) == rows
        }),
{
    unique_keys_give_one_row(probes, catalog, by_arity, probes.len());
    let rows = address_rows(probes, catalog, probes.len());
    let again = Seq::new(rows.len(), |k: int| probes[rows[k].record as int]);
    assert(again =~= probes);
}

/// Idempotence for logs: where no two catalog rows agree in hash, address
/// and arity, matching the logs of the output again gives the output again.
pub proof fn log_address_match_is_idempotent(logs: Seq<LogRecord>, catalog: Seq<AbiEntry>)
    requires
        logs.len() <= usize::MAX,
        catalog.len() <= usize::MAX,
        keys_unique(true, catalog),
    ensures
        ({
            let rows = address_rows(log_probes(logs), catalog, logs.len());
            let again = Seq::new(rows.len(), |k: int| logs[rows[k].record as int]);
            address_rows(log_probes(again), catalog, again.len()) == rows
        }),
{
    unique_keys_give_one_row(log_probes(logs), catalog, true, logs.len());
    let rows = address_rows(log_probes(logs), catalog, logs.len());
    let again = Seq::new(rows.len(), |k: int| logs[rows[k].record as int]);
    assert(again =~= logs);
}

/// Idempotence for traces: where no two catalog rows agree in hash and
/// address, matching the traces of the output again gives the output again.
pub proof fn trace_address_match_is_idempotent(traces: Seq<TraceRecord>, catalog: Seq<AbiEntry>)
    requires
        traces.len() <= usize::MAX,
        catalog.len() <= usize::MAX,
        keys_unique(false, catalog),
    ensures
        ({
            let rows = address_rows(trace_probes(traces), catalog, traces.len());
            let again = Seq::new(rows.len(), |k: int| traces[rows[k].record as int]);
            address_rows(trace_probes(again), catalog, again.len()) == rows
        }),
{
    unique_keys_give_one_row(trace_probes(traces), catalog, false, traces.len());
    let rows = address_rows(trace_probes(traces), catalog, traces.len());
    let again = Seq::new(rows.len(), |k: int| traces[rows[k].record as int]);
    assert(again =~= traces);
}

/// Every row of the two-phase match speaks of a record and says the truth
/// about it: an address-matched row names a catalog row that matches the
/// record with its address; any other row belongs to a record that no
/// catalog row matches so, and holds what the fallback gives for it.
pub proof fn rows_are_sound(probes: Seq<Probe>, catalog: Seq<AbiEntry>, n: nat)
    requires
        n <= probes.len() <= usize::MAX,
        catalog.len() <= usize::MAX,
    ensures
        forall|t: int|
            0 <= t < matched_part(probes, catalog, n).len() ==> {
                let row = #[trigger] matched_part(probes, catalog, n)[t];
                &&& row.record < n
                &&& row.resolution is AddressMatched
                &&& row.resolution.entry().unwrap() < catalog.len()
                &&& address_match(
                    probes[row.record as int],
                    catalog[row.resolution.entry().unwrap() as int],
                )
            },
        forall|t: int|
            0 <= t < fallback_part(probes, catalog, n).len() ==> {
                let row = #[trigger] fallback_part(probes, catalog, n)[t];
                &&& row.record < n
                &&& all_hits(probes[row.record as int], catalog).len() == 0
                &&& row.resolution == fallback_resolution(probes[row.record as int], catalog)
            },
    decreases n,
{
    if n > 0 {
        rows_are_sound(probes, catalog, (n - 1) as nat);
        hits_are_the_matches(probes[n - 1], catalog, catalog.len());
    }
}

/// Every record is in the outcome of the two-phase match: with one
/// address-matched row for each catalog row that matches it with its
/// address, or, where there is none, with the row that the fallback gives.
pub proof fn rows_are_complete(probes: Seq<Probe>, catalog: Seq<AbiEntry>, n: nat, i: int)
    requires
        0 <= i < n <= probes.len() <= usize::MAX,
        catalog.len() <= usize::MAX,
    ensures
        forall|j: int|
            0 <= j < catalog.len() && address_match(probes[i], #[trigger] catalog[j])
                ==> matched_part(probes, catalog, n).contains(
                MatchedRow { record: i as usize, resolution: Resolution::AddressMatched(j as usize) },
            ),
        all_hits(probes[i], catalog).len() == 0 ==> fallback_part(probes, catalog, n).contains(
            MatchedRow {
                record: i as usize,
                resolution: fallback_resolution(probes[i], catalog),
            },
        ),
    decreases n,
{
    let before_m = matched_part(probes, catalog, (n - 1) as nat);
    let before_f = fallback_part(probes, catalog, (n - 1) as nat);
    let last_m = matched_rows_of((n - 1) as usize, all_hits(probes[n - 1], catalog));
    let last_f = fallback_rows_of((n - 1) as usize, probes[n - 1], catalog);
    if i < n - 1 {
        rows_are_complete(probes, catalog, (n - 1) as nat, i);
        assert forall|row: MatchedRow| before_m.contains(row) implies (before_m + last_m).contains(
            row,
        ) by {
            let t = choose|t: int| 0 <= t < before_m.len() && before_m[t] == row;
            assert((before_m + last_m)[t] == row);
        }
        assert forall|row: MatchedRow| before_f.contains(row) implies (before_f + last_f).contains(
            row,
        ) by {
            let t = choose|t: int| 0 <= t < before_f.len() && before_f[t] == row;
            assert((before_f + last_f)[t] == row);
        }
    } else {
        hits_are_the_matches(probes[i], catalog, catalog.len());
        let found = all_hits(probes[i], catalog);
        assert forall|j: int|
            0 <= j < catalog.len() && address_match(
                probes[i],
                #[trigger] catalog[j],
            ) implies matched_part(probes, catalog, n).contains(
            MatchedRow { record: i as usize, resolution: Resolution::AddressMatched(j as usize) },
        ) by {
            let t = choose|t: int| 0 <= t < found.len() && found[t] == j as usize;
            assert((before_m + last_m)[before_m.len() + t] == last_m[t]);
        }
        if found.len() == 0 {
            assert((before_f + last_f)[before_f.len() as int] == last_f[0]);
        }
    }
}

/// Every row of the address-qualified match speaks of a record and says the
/// truth about it: it names a catalog row that matches the record with its
/// address, or is unmatched where no catalog row does.
pub proof fn address_rows_are_sound(probes: Seq<Probe>, catalog: Seq<AbiEntry>, n: nat)
    requires
        n <= probes.len() <= usize::MAX,
        catalog.len() <= usize::MAX,
    ensures
        forall|t: int|
            0 <= t < address_rows(probes, catalog, n).len() ==> {
                let row = #[trigger] address_rows(probes, catalog, n)[t];
                &&& row.record < n
                &&& match row.resolution {
                    Resolution::AddressMatched(j) => j < catalog.len() && address_match(
                        probes[row.record as int],
                        catalog[j as int],
                    ),
                    Resolution::HashFallbackMatched(_) => false,
                    Resolution::Unmatched => all_hits(probes[row.record as int], catalog).len()
                        == 0,
                }
            },
    decreases n,
{
    if n > 0 {
        address_rows_are_sound(probes, catalog, (n - 1) as nat);
        hits_are_the_matches(probes[n - 1], catalog, catalog.len());
    }
}

/// The best row among the first `n`, for the proof that the fallback finds
/// a row whenever one matches by hash.
proof fn best_below(probe: Probe, catalog: Seq<AbiEntry>, n: nat) -> (best: Option<int>)
    requires
        n <= catalog.len(),
    ensures
        best is None ==> forall|i: int| 0 <= i < n ==> !hash_match(probe, #[trigger] catalog[i]),
        best is Some ==> {
            let b = best.unwrap();
            &&& 0 <= b < n
            &&& hash_match(probe, catalog[b])
            &&& forall|i: int|
                0 <= i < n && hash_match(probe, #[trigger] catalog[i]) ==> preferred(
                    probe.arity is Some,
                    catalog,
                    b,
                    i,
                )
        },
    decreases n,
{
    if n == 0 {
        None
    } else {
        let before = best_below(probe, catalog, (n - 1) as nat);
        if hash_match(probe, catalog[n - 1]) {
            match before {
                Some(b) => {
                    if preferred(probe.arity is Some, catalog, b, n - 1) {
                        before
                    } else {
                        Some(n - 1)
                    }
                },
                None => Some(n - 1),
            }
        } else {
            before
        }
    }
}

/// The fallback resolves a key exactly when some catalog row matches it by
/// hash, and then to a row that matches it by hash and is preferred to every
/// other such row.
pub proof fn fallback_finds_every_known_hash(probe: Probe, catalog: Seq<AbiEntry>)
    requires
        catalog.len() <= usize::MAX,
    ensures
        most_frequent(probe, catalog) is None <==> forall|k: int|
            0 <= k < catalog.len() ==> !hash_match(probe, #[trigger] catalog[k]),
        most_frequent(probe, catalog) is Some ==> is_most_frequent(
            probe,
            catalog,
            most_frequent(probe, catalog).unwrap() as int,
        ),
{
    let best = best_below(probe, catalog, catalog.len());
    if best is Some {
        assert(is_most_frequent(probe, catalog, best.unwrap()));
    } else {
        assert forall|j: int| !is_most_frequent(probe, catalog, j) by {
            if is_most_frequent(probe, catalog, j) {
                assert(hash_match(probe, catalog[j]));
            }
        }
    }
    if most_frequent(probe, catalog) is Some {
        let c = choose|j: int| is_most_frequent(probe, catalog, j);
        assert(hash_match(probe, catalog[c]));
    }
}

/// The rows that matched with their address.
pub open spec fn address_matched() -> spec_fn(MatchedRow) -> bool {
    |row: MatchedRow| row.resolution is AddressMatched
}

/// The rows that nothing matched.
pub open spec fn unmatched() -> spec_fn(MatchedRow) -> bool {
    |row: MatchedRow| row.resolution is Unmatched
}

/// What the fallback makes of an unmatched row.
pub open spec fn through_fallback(probes: Seq<Probe>, catalog: Seq<AbiEntry>) -> spec_fn(
    MatchedRow,
) -> MatchedRow {
    |row: MatchedRow|
        MatchedRow {
            record: row.record,
            resolution: fallback_resolution(probes[row.record as int], catalog),
        }
}

proof fn filter_keeps_all(rows: Seq<MatchedRow>, keep: spec_fn(MatchedRow) -> bool)
    requires
        forall|t: int| 0 <= t < rows.len() ==> keep(#[trigger] rows[t]),
    ensures
        rows.filter(keep) == rows,
    decreases rows.len(),
{
    reveal(Seq::filter);
    if rows.len() > 0 {
        filter_keeps_all(rows.drop_last(), keep);
        assert(rows.drop_last().push(rows.last()) =~= rows);
    }
}

proof fn filter_drops_all(rows: Seq<MatchedRow>, keep: spec_fn(MatchedRow) -> bool)
    requires
        forall|t: int| 0 <= t < rows.len() ==> !keep(#[trigger] rows[t]),
    ensures
        rows.filter(keep) == Seq::<MatchedRow>::empty(),
    decreases rows.len(),
{
    reveal(Seq::filter);
    if rows.len() > 0 {
        filter_drops_all(rows.drop_last(), keep);
    }
}

/// The two phases partition the outcome of the address-qualified match:
/// the first part of the two-phase outcome is what matched with its
/// address, and the second part is what did not, sent through the fallback
/// row by row.
pub proof fn two_phases_partition_the_join(probes: Seq<Probe>, catalog: Seq<AbiEntry>, n: nat)
    requires
        n <= probes.len() <= usize::MAX,
    ensures
        matched_part(probes, catalog, n) == address_rows(probes, catalog, n).filter(
            address_matched(),
        ),
        fallback_part(probes, catalog, n) == address_rows(probes, catalog, n).filter(
            unmatched(),
        ).map_values(through_fallback(probes, catalog)),
    decreases n,
{
    if n > 0 {
        two_phases_partition_the_join(probes, catalog, (n - 1) as nat);
        let before = address_rows(probes, catalog, (n - 1) as nat);
        let found = all_hits(probes[n - 1], catalog);
        let last = joined_rows_of((n - 1) as usize, found);
        let onward = through_fallback(probes, catalog);
        Seq::filter_distributes_over_add(before, last, address_matched());
        Seq::filter_distributes_over_add(before, last, unmatched());
        if found.len() == 0 {
            filter_drops_all(last, address_matched());
            filter_keeps_all(last, unmatched());
            assert(last.map_values(onward) =~= fallback_rows_of((n - 1) as usize, probes[n - 1], catalog));
        } else {
            filter_keeps_all(last, address_matched());
            filter_drops_all(last, unmatched());
            assert(last.filter(unmatched()).map_values(onward) =~= fallback_rows_of(
                (n - 1) as usize,
                probes[n - 1],
                catalog,
            ));
        }
        assert(matched_part(probes, catalog, n) =~= before.filter(address_matched()) + last.filter(
            address_matched(),
        ));
        assert((before.filter(unmatched()) + last.filter(unmatched())).map_values(onward)
            =~= before.filter(unmatched()).map_values(onward) + last.filter(
            unmatched(),
        ).map_values(onward));
    }
}

/// The rows of both matchers point into the records and into the catalog.
pub proof fn rows_stay_within(probes: Seq<Probe>, catalog: Seq<AbiEntry>)
    requires
        probes.len() <= usize::MAX,
        catalog.len() <= usize::MAX,
    ensures
        within(address_rows(probes, catalog, probes.len()), probes.len(), catalog.len()),
        within(resolved_rows(probes, catalog), probes.len(), catalog.len()),
{
    let n = probes.len();
    address_rows_are_sound(probes, catalog, n);
    rows_are_sound(probes, catalog, n);
    let m = matched_part(probes, catalog, n);
    let f = fallback_part(probes, catalog, n);
    assert forall|t: int| 0 <= t < (m + f).len() implies (#[trigger] (m + f)[t]).record < n && match (
    m + f)[t].resolution.entry() {
        Some(j) => j < catalog.len(),
        None => true,
    } by {
        if t < m.len() {
            assert((m + f)[t] == m[t]);
        } else {
            let row = f[t - m.len()];
            assert((m + f)[t] == row);
            fallback_finds_every_known_hash(probes[row.record as int], catalog);
        }
    }
}

/// Fallback activation: a record that no catalog row matches with its
/// address, and for whose hash (and arity) the catalog declares exactly one
/// signature, is resolved by the fallback to a row with that signature.
pub proof fn single_candidate_is_chosen(probe: Probe, catalog: Seq<AbiEntry>, j: int)
    requires
        catalog.len() <= usize::MAX,
        0 <= j < catalog.len(),
        hash_match(probe, catalog[j]),
        forall|k: int|
            0 <= k < catalog.len() ==> !address_match(probe, #[trigger] catalog[k]),
        forall|k: int|
            0 <= k < catalog.len() && hash_match(probe, #[trigger] catalog[k]) ==> same_signature(
                probe.arity is Some,
                catalog[k],
                catalog[j],
            ),
    ensures
        all_hits(probe, catalog).len() == 0,
        fallback_resolution(probe, catalog) is HashFallbackMatched,
        ({
            let b = fallback_resolution(probe, catalog).entry().unwrap() as int;
            &&& 0 <= b < catalog.len()
            &&& catalog[b].full_signature@ == catalog[j].full_signature@
            &&& catalog[b].name@ == catalog[j].name@
        }),
{
    hits_are_the_matches(probe, catalog, catalog.len());
    fallback_finds_every_known_hash(probe, catalog);
    if all_hits(probe, catalog).len() > 0 {
        let h = all_hits(probe, catalog)[0];
        assert(address_match(probe, catalog[h as int]));
    }
    let b = most_frequent(probe, catalog).unwrap() as int;
    assert(hash_match(probe, catalog[b]));
}

/// Majority: where one signature is declared more often than every other
/// signature that matches the key by hash, the fallback resolves the key to
/// a row with that signature.
pub proof fn majority_is_chosen(probe: Probe, catalog: Seq<AbiEntry>, j: int)
    requires
        catalog.len() <= usize::MAX,
        0 <= j < catalog.len(),
        hash_match(probe, catalog[j]),
        forall|k: int|
            0 <= k < catalog.len() && hash_match(probe, #[trigger] catalog[k]) && !same_signature(
                probe.arity is Some,
                catalog[k],
                catalog[j],
            ) ==> signature_count(probe.arity is Some, catalog, k) < signature_count(
                probe.arity is Some,
                catalog,
                j,
            ),
    ensures
        fallback_resolution(probe, catalog) is HashFallbackMatched,
        ({
            let b = fallback_resolution(probe, catalog).entry().unwrap() as int;
            &&& 0 <= b < catalog.len()
            &&& same_signature(probe.arity is Some, catalog[b], catalog[j])
        }),
{
    fallback_finds_every_known_hash(probe, catalog);
    let b = most_frequent(probe, catalog).unwrap() as int;
    assert(hash_match(probe, catalog[b]));
    assert(preferred(probe.arity is Some, catalog, b, j));
}

/// No match: a record whose hash stands nowhere in the catalog is in the
/// outcome with exactly the unmatched row, and with no address-matched one.
pub proof fn unknown_hash_stays_unmatched(probes: Seq<Probe>, catalog: Seq<AbiEntry>, i: int)
    requires
        0 <= i < probes.len() <= usize::MAX,
        catalog.len() <= usize::MAX,
        forall|k: int| 0 <= k < catalog.len() ==> (#[trigger] catalog[k]).hash@ != probes[i].hash,
    ensures
        resolved_rows(probes, catalog).contains(
            MatchedRow { record: i as usize, resolution: Resolution::Unmatched },
        ),
        forall|t: int|
            0 <= t < resolved_rows(probes, catalog).len() && (#[trigger] resolved_rows(
                probes,
                catalog,
            )[t]).record == i ==> resolved_rows(probes, catalog)[t].resolution
                == Resolution::Unmatched,
{
    let n = probes.len();
    let m = matched_part(probes, catalog, n);
    let f = fallback_part(probes, catalog, n);
    hits_are_the_matches(probes[i], catalog, catalog.len());
    fallback_finds_every_known_hash(probes[i], catalog);
    rows_are_sound(probes, catalog, n);
    rows_are_complete(probes, catalog, n, i);
    if all_hits(probes[i], catalog).len() > 0 {
        let h = all_hits(probes[i], catalog)[0];
        assert(address_match(probes[i], catalog[h as int]));
    }
    let row = MatchedRow { record: i as usize, resolution: Resolution::Unmatched };
    let t = choose|t: int| 0 <= t < f.len() && f[t] == row;
    assert((m + f)[m.len() + t] == row);
    assert forall|t: int|
        0 <= t < resolved_rows(probes, catalog).len() && (#[trigger] resolved_rows(
            probes,
            catalog,
        )[t]).record == i implies resolved_rows(probes, catalog)[t].resolution
        == Resolution::Unmatched by {
        if t < m.len() {
            assert(m[t].record == i);
        } else {
            assert(f[t - m.len()].record == i);
        }
    }
}

} // verus!
