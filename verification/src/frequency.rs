//! The frequency fallback: for a record that no catalog row matched with its
//! address, the signature that the catalog declares most often for its hash.
//!
//! The catalog is reduced to one row for each hash (and, for events, each
//! number of indexed arguments): a row of the signature that most rows
//! declare. Among signatures declared equally often, the one whose first
//! declaring row comes first in the catalog wins. A record is then looked up
//! in the reduced catalog by its hash (and arity) alone.

use vstd::prelude::*;
use crate::keys::{declares_same_signature, hash_match, same_signature, Lookup, Probe};
use crate::records::AbiEntry;
use crate::rows::Resolution;

verus! {

/// How many of the first `n` catalog rows declare the signature of row `j`.
pub open spec fn declared_among(by_arity: bool, catalog: Seq<AbiEntry>, j: int, n: nat) -> nat
    decreases n,
{
    if n == 0 {
        0
    } else {
        let before = declared_among(by_arity, catalog, j, (n - 1) as nat);
        if same_signature(by_arity, catalog[n - 1], catalog[j]) {
            before + 1
        } else {
            before
        }
    }
}

/// How many catalog rows declare the signature of row `j`: the number of
/// addresses that use it.
pub open spec fn signature_count(by_arity: bool, catalog: Seq<AbiEntry>, j: int) -> nat {
    declared_among(by_arity, catalog, j, catalog.len())
}

/// Row `j` wins over row `k`: its signature is declared more often, or as
/// often and `j` does not come later.
pub open spec fn preferred(by_arity: bool, catalog: Seq<AbiEntry>, j: int, k: int) -> bool {
    let cj = signature_count(by_arity, catalog, j);
    let ck = signature_count(by_arity, catalog, k);
    ck < cj || (ck == cj && j <= k)
}

/// Row `j` matches the key by hash and wins over every other row that does.
pub open spec fn is_most_frequent(probe: Probe, catalog: Seq<AbiEntry>, j: int) -> bool {
    &&& 0 <= j < catalog.len()
    &&& hash_match(probe, catalog[j])
    &&& forall|k: int|
        0 <= k < catalog.len() && hash_match(probe, #[trigger] catalog[k]) ==> preferred(
            probe.arity is Some,
            catalog,
            j,
            k,
        )
}

/// The row that the fallback picks for the key, if any row matches it by
/// hash.
pub open spec fn most_frequent(probe: Probe, catalog: Seq<AbiEntry>) -> Option<usize> {
    if exists|j: int| is_most_frequent(probe, catalog, j) {
        Some((choose|j: int| is_most_frequent(probe, catalog, j)) as usize)
    } else {
        None
    }
}

/// How the fallback resolves the key.
pub open spec fn fallback_resolution(probe: Probe, catalog: Seq<AbiEntry>) -> Resolution {
    match most_frequent(probe, catalog) {
        Some(j) => Resolution::HashFallbackMatched(j),
        None => Resolution::Unmatched,
    }
}

/// At most one row is the most frequent one for a key.
pub proof fn most_frequent_is_unique(probe: Probe, catalog: Seq<AbiEntry>, j: int, k: int)
    requires
        is_most_frequent(probe, catalog, j),
        is_most_frequent(probe, catalog, k),
    ensures
        j == k,
{
    assert(preferred(probe.arity is Some, catalog, j, k));
    assert(preferred(probe.arity is Some, catalog, k, j));
}

/// Counts, for every catalog row, the rows that declare its signature.
pub fn signature_counts(by_arity: bool, catalog: &Vec<AbiEntry>) -> (counts: Vec<usize>)
    ensures
        counts.len() == catalog.len(),
        forall|j: int|
            0 <= j < catalog.len() ==> #[trigger] counts[j] == signature_count(
                by_arity,
                catalog@,
                j,
            ),
{
    let mut counts: Vec<usize> = Vec::new();
    let mut j: usize = 0;
    while j < catalog.len()
        invariant
            j <= catalog.len(),
            counts.len() == j,
            forall|i: int|
                0 <= i < j ==> #[trigger] counts[i] == signature_count(by_arity, catalog@, i),
        decreases catalog.len() - j,
    {
        let mut count: usize = 0;
        let mut k: usize = 0;
        while k < catalog.len()
            invariant
                j < catalog.len(),
                k <= catalog.len(),
                count <= k,
                count == declared_among(by_arity, catalog@, j as int, k as nat),
            decreases catalog.len() - k,
        {
            if declares_same_signature(by_arity, &catalog[k], &catalog[j]) {
                count = count + 1;
            }
            k = k + 1;
        }
        counts.push(count);
        j = j + 1;
    }
    counts
}

/// The key under which an entry stands in the reduced catalog: its hash and,
/// with `by_arity`, its number of indexed arguments.
pub open spec fn entry_probe(by_arity: bool, entry: AbiEntry) -> Probe {
    Probe {
        hash: entry.hash@,
        address: entry.address@,
        arity: if by_arity {
            Some(entry.num_indexed_args as nat)
        } else {
            None
        },
    }
}

/// Row `j` is kept by the reduction: it wins over every row that shares its
/// hash (and arity).
pub open spec fn kept(by_arity: bool, catalog: Seq<AbiEntry>, j: int) -> bool {
    is_most_frequent(entry_probe(by_arity, catalog[j]), catalog, j)
}

/// The positions below `n` of the rows that the reduction keeps, in
/// ascending order.
pub open spec fn reduced(by_arity: bool, catalog: Seq<AbiEntry>, n: nat) -> Seq<usize>
    decreases n,
{
    if n == 0 {
        Seq::empty()
    } else {
        let before = reduced(by_arity, catalog, (n - 1) as nat);
        if kept(by_arity, catalog, n - 1) {
            before.push((n - 1) as usize)
        } else {
            before
        }
    }
}

/// The reduced catalog: for each hash (and arity), the one row that wins.
pub open spec fn reduced_catalog(by_arity: bool, catalog: Seq<AbiEntry>) -> Seq<usize> {
    reduced(by_arity, catalog, catalog.len())
}

/// The reduced catalog holds exactly the rows that are kept.
pub proof fn reduced_holds_the_kept(by_arity: bool, catalog: Seq<AbiEntry>, n: nat)
    requires
        n <= catalog.len() <= usize::MAX,
    ensures
        forall|t: int|
            0 <= t < reduced(by_arity, catalog, n).len() ==> {
                let j = #[trigger] reduced(by_arity, catalog, n)[t];
                j < n && kept(by_arity, catalog, j as int)
            },
        forall|j: int|
            0 <= j < n && kept(by_arity, catalog, j) ==> reduced(by_arity, catalog, n).contains(
                j as usize,
            ),
    decreases n,
{
    if n > 0 {
        let before = reduced(by_arity, catalog, (n - 1) as nat);
        reduced_holds_the_kept(by_arity, catalog, (n - 1) as nat);
        let now = reduced(by_arity, catalog, n);
        assert forall|j: int| 0 <= j < n && kept(by_arity, catalog, j) implies now.contains(
            j as usize,
        ) by {
            if j < n - 1 {
                let t = choose|t: int| 0 <= t < before.len() && before[t] == j as usize;
                assert(now[t] == j as usize);
            } else {
                assert(now[before.len() as int] == j as usize);
            }
        }
    }
}

/// A row is the most frequent one for a key exactly when it matches the key
/// by hash and the reduction keeps it.
pub proof fn kept_rows_serve_their_keys(probe: Probe, catalog: Seq<AbiEntry>, j: int)
    requires
        0 <= j < catalog.len(),
    ensures
        is_most_frequent(probe, catalog, j) <==> hash_match(probe, catalog[j]) && kept(
            probe.arity is Some,
            catalog,
            j,
        ),
{
    let by_arity = probe.arity is Some;
    let own = entry_probe(by_arity, catalog[j]);
    if hash_match(probe, catalog[j]) {
        assert forall|k: int| 0 <= k < catalog.len() implies hash_match(probe, catalog[k])
            == hash_match(own, #[trigger] catalog[k]) by {}
    }
}

/// The reduced catalog has at most one row for each hash (and arity).
pub proof fn reduced_catalog_has_one_row_per_key(
    by_arity: bool,
    catalog: Seq<AbiEntry>,
    s: int,
    t: int,
)
    requires
        catalog.len() <= usize::MAX,
        0 <= s < reduced_catalog(by_arity, catalog).len(),
        0 <= t < reduced_catalog(by_arity, catalog).len(),
        hash_match(
            entry_probe(by_arity, catalog[reduced_catalog(by_arity, catalog)[s] as int]),
            catalog[reduced_catalog(by_arity, catalog)[t] as int],
        ),
    ensures
        reduced_catalog(by_arity, catalog)[s] == reduced_catalog(by_arity, catalog)[t],
{
    reduced_holds_the_kept(by_arity, catalog, catalog.len());
    let a = reduced_catalog(by_arity, catalog)[s] as int;
    let b = reduced_catalog(by_arity, catalog)[t] as int;
    let probe = entry_probe(by_arity, catalog[a]);
    kept_rows_serve_their_keys(probe, catalog, b);
    most_frequent_is_unique(probe, catalog, a, b);
}

/// Whether row `j` wins over every row that shares its hash (and arity).
/// `counts` holds the count of each row.
pub(crate) fn is_kept(by_arity: bool, catalog: &Vec<AbiEntry>, counts: &Vec<usize>, j: usize) -> (keep:
    bool)
    requires
        j < catalog.len(),
        counts.len() == catalog.len(),
        forall|i: int|
            0 <= i < catalog.len() ==> #[trigger] counts[i] == signature_count(
                by_arity,
                catalog@,
                i,
            ),
    ensures
        keep == kept(by_arity, catalog@, j as int),
{
    let own = Lookup {
        hash: &catalog[j].hash,
        address: &catalog[j].address,
        arity: if by_arity {
            Some(catalog[j].num_indexed_args)
        } else {
            None
        },
    };
    assert(own@ == entry_probe(by_arity, catalog@[j as int]));
    let mut k: usize = 0;
    while k < catalog.len()
        invariant
            k <= catalog.len(),
            j < catalog.len(),
            counts.len() == catalog.len(),
            own@ == entry_probe(by_arity, catalog@[j as int]),
            forall|i: int|
                0 <= i < catalog.len() ==> #[trigger] counts[i] == signature_count(
                    by_arity,
                    catalog@,
                    i,
                ),
            forall|i: int|
                0 <= i < k && hash_match(own@, #[trigger] catalog@[i]) ==> preferred(
                    by_arity,
                    catalog@,
                    j as int,
                    i,
                ),
        decreases catalog.len() - k,
    {
        if own.matches_hash(&catalog[k]) && (counts[j] < counts[k] || (counts[j] == counts[k] && k
            < j)) {
            assert(!preferred(by_arity, catalog@, j as int, k as int));
            return false;
        }
        k = k + 1;
    }
    true
}

/// Reduces the catalog to the most frequent signature of each hash (and,
/// with `by_arity`, each number of indexed arguments): the positions of the
/// rows that stand for them, in ascending order.
pub fn reduce_catalog(by_arity: bool, catalog: &Vec<AbiEntry>) -> (positions: Vec<usize>)
    ensures
        positions@ == reduced_catalog(by_arity, catalog@),
{
    let counts = signature_counts(by_arity, catalog);
    let mut positions: Vec<usize> = Vec::new();
    let mut j: usize = 0;
    while j < catalog.len()
        invariant
            j <= catalog.len(),
            counts.len() == catalog.len(),
            forall|i: int|
                0 <= i < catalog.len() ==> #[trigger] counts[i] == signature_count(
                    by_arity,
                    catalog@,
                    i,
                ),
            positions@ == reduced(by_arity, catalog@, j as nat),
        decreases catalog.len() - j,
    {
        if is_kept(by_arity, catalog, &counts, j) {
            positions.push(j);
        }
        j = j + 1;
    }
    positions
}

/// Looks the key up in the reduced catalog: the row whose signature is
/// declared most often among those that match the key by hash.
pub(crate) fn pick_most_frequent(lookup: &Lookup, catalog: &Vec<AbiEntry>, positions: &Vec<usize>) -> (best:
    Option<usize>)
    requires
        positions@ == reduced_catalog(lookup@.arity is Some, catalog@),
    ensures
        best == most_frequent(lookup@, catalog@),
        best is None <==> forall|k: int|
            0 <= k < catalog.len() ==> !hash_match(lookup@, #[trigger] catalog@[k]),
        best is Some ==> is_most_frequent(lookup@, catalog@, best.unwrap() as int),
{
    let ghost by_arity = lookup@.arity is Some;
    proof {
        assert(catalog@.len() == catalog.len());
        reduced_holds_the_kept(by_arity, catalog@, catalog@.len());
    }
    let mut t: usize = 0;
    while t < positions.len()
        invariant
            t <= positions.len(),
            by_arity == (lookup@.arity is Some),
            positions@ == reduced_catalog(by_arity, catalog@),
            catalog@.len() <= usize::MAX,
            forall|s: int|
                0 <= s < positions.len() ==> (#[trigger] positions@[s]) < catalog.len() && kept(
                    by_arity,
                    catalog@,
                    positions@[s] as int,
                ),
            forall|s: int|
                0 <= s < t ==> !hash_match(lookup@, catalog@[(#[trigger] positions@[s]) as int]),
        decreases positions.len() - t,
    {
        let j = positions[t];
        if lookup.matches_hash(&catalog[j]) {
            proof {
                kept_rows_serve_their_keys(lookup@, catalog@, j as int);
                let c = choose|c: int| is_most_frequent(lookup@, catalog@, c);
                most_frequent_is_unique(lookup@, catalog@, j as int, c);
                assert(hash_match(lookup@, catalog@[j as int]));
            }
            return Some(j);
        }
        t = t + 1;
    }
    proof {
        assert forall|c: int| !is_most_frequent(lookup@, catalog@, c) by {
            if is_most_frequent(lookup@, catalog@, c) {
                kept_rows_serve_their_keys(lookup@, catalog@, c);
                let s = choose|s: int| 0 <= s < positions@.len() && positions@[s] == c as usize;
                assert(hash_match(lookup@, catalog@[positions@[s] as int]));
            }
        }
        crate::laws::fallback_finds_every_known_hash(lookup@, catalog@);
    }
    None
}

/// The frequency fallback for one key: the catalog row whose signature is
/// declared most often among the rows that match the key by hash, or `None`
/// where no row matches it by hash.
pub fn match_by_frequency(lookup: &Lookup, catalog: &Vec<AbiEntry>) -> (best: Option<usize>)
    ensures
        best == most_frequent(lookup@, catalog@),
        best is None <==> forall|k: int|
            0 <= k < catalog.len() ==> !hash_match(lookup@, #[trigger] catalog@[k]),
        best is Some ==> is_most_frequent(lookup@, catalog@, best.unwrap() as int),
{
    let positions = reduce_catalog(lookup.arity.is_some(), catalog);
    pick_most_frequent(lookup, catalog, &positions)
}

} // verus!
