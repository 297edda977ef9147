//! What a record is looked up by, and the relations between such a key and
//! the entries of a catalog.

use vstd::prelude::*;
use crate::records::{bytes_equal, AbiEntry, LogRecord, TraceRecord};

verus! {

/// The key of a record as the contracts see it. `arity` is the number of
/// indexed arguments of a log and `None` for a trace, which has none.
pub struct Probe {
    pub hash: Seq<u8>,
    pub address: Seq<u8>,
    pub arity: Option<nat>,
}

/// The key of a record as the matchers read it.
pub struct Lookup<'a> {
    pub hash: &'a Vec<u8>,
    pub address: &'a Vec<u8>,
    pub arity: Option<u32>,
}

impl<'a> View for Lookup<'a> {
    type V = Probe;

    open spec fn view(&self) -> Probe {
        Probe {
            hash: self.hash@,
            address: self.address@,
            arity: match self.arity {
                Some(a) => Some(a as nat),
                None => None,
            },
        }
    }
}

/// The key of a log: its `topic0`, its address and its number of indexed
/// arguments.
pub open spec fn log_probe(record: LogRecord) -> Probe {
    Probe { hash: record.topic0@, address: record.address@, arity: Some(record.arity()) }
}

/// The key of a trace: its selector and the address it calls.
pub open spec fn trace_probe(record: TraceRecord) -> Probe {
    Probe { hash: record.selector@, address: record.action_to@, arity: None }
}

/// The keys of a sequence of logs, in order.
pub open spec fn log_probes(logs: Seq<LogRecord>) -> Seq<Probe> {
    Seq::new(logs.len(), |i: int| log_probe(logs[i]))
}

/// The keys of a sequence of traces, in order.
pub open spec fn trace_probes(traces: Seq<TraceRecord>) -> Seq<Probe> {
    Seq::new(traces.len(), |i: int| trace_probe(traces[i]))
}

/// The keys that a vector of lookups stands for.
pub open spec fn probes_of(lookups: Seq<Lookup>) -> Seq<Probe> {
    Seq::new(lookups.len(), |i: int| lookups[i]@)
}

/// The entry has the number of indexed arguments that the key asks for. A
/// key without one asks for nothing.
pub open spec fn arity_agrees(probe: Probe, entry: AbiEntry) -> bool {
    match probe.arity {
        Some(a) => entry.num_indexed_args == a,
        None => true,
    }
}

/// The address-qualified match: hash, address and arity all agree.
pub open spec fn address_match(probe: Probe, entry: AbiEntry) -> bool {
    &&& probe.hash == entry.hash@
    &&& probe.address == entry.address@
    &&& arity_agrees(probe, entry)
}

/// The relaxed match: hash and arity agree, whatever the address.
pub open spec fn hash_match(probe: Probe, entry: AbiEntry) -> bool {
    &&& probe.hash == entry.hash@
    &&& arity_agrees(probe, entry)
}

/// Two entries declare the same signature for the same hash. With
/// `by_arity`, as for events, the anonymous flag and the number of indexed
/// arguments belong to the signature too.
pub open spec fn same_signature(by_arity: bool, a: AbiEntry, b: AbiEntry) -> bool {
    &&& a.hash@ == b.hash@
    &&& a.full_signature@ == b.full_signature@
    &&& a.name@ == b.name@
    &&& by_arity ==> a.anonymous == b.anonymous && a.num_indexed_args == b.num_indexed_args
}

/// Two entries share the key of the address-qualified match.
pub open spec fn same_key(by_arity: bool, a: AbiEntry, b: AbiEntry) -> bool {
    &&& a.hash@ == b.hash@
    &&& a.address@ == b.address@
    &&& by_arity ==> a.num_indexed_args == b.num_indexed_args
}

/// No two rows of the catalog share the key of the address-qualified match.
pub open spec fn keys_unique(by_arity: bool, catalog: Seq<AbiEntry>) -> bool {
    forall|j: int, k: int|
        0 <= j < k < catalog.len() ==> !same_key(by_arity, #[trigger] catalog[j], #[trigger] catalog[k])
}

impl<'a> Lookup<'a> {
    /// The key of a log.
    pub fn of_log(record: &'a LogRecord) -> (lookup: Lookup<'a>)
        ensures
            lookup@ == log_probe(*record),
    {
        Lookup {
            hash: &record.topic0,
            address: &record.address,
            arity: Some(record.num_indexed_args()),
        }
    }

    /// The key of a trace.
    pub fn of_trace(record: &'a TraceRecord) -> (lookup: Lookup<'a>)
        ensures
            lookup@ == trace_probe(*record),
    {
        Lookup { hash: &record.selector, address: &record.action_to, arity: None }
    }

    /// Whether the entry has the arity that this key asks for.
    pub fn arity_agrees(&self, entry: &AbiEntry) -> (agrees: bool)
        ensures
            agrees == arity_agrees(self@, *entry),
    {
        match self.arity {
            Some(a) => entry.num_indexed_args == a,
            None => true,
        }
    }

    /// Whether the entry matches this key by hash, address and arity.
    pub fn matches_address(&self, entry: &AbiEntry) -> (matches: bool)
        ensures
            matches == address_match(self@, *entry),
    {
        self.arity_agrees(entry) && bytes_equal(self.hash, &entry.hash) && bytes_equal(
            self.address,
            &entry.address,
        )
    }

    /// Whether the entry matches this key by hash and arity.
    pub fn matches_hash(&self, entry: &AbiEntry) -> (matches: bool)
        ensures
            matches == hash_match(self@, *entry),
    {
        self.arity_agrees(entry) && bytes_equal(self.hash, &entry.hash)
    }
}

/// The keys of the logs, in order.
pub fn log_lookups<'a>(logs: &'a Vec<LogRecord>) -> (lookups: Vec<Lookup<'a>>)
    ensures
        probes_of(lookups@) == log_probes(logs@),
{
    let mut lookups: Vec<Lookup<'a>> = Vec::new();
    let mut i: usize = 0;
    while i < logs.len()
        invariant
            i <= logs.len(),
            lookups.len() == i,
            forall|k: int| 0 <= k < i ==> (#[trigger] lookups@[k])@ == log_probe(logs@[k]),
        decreases logs.len() - i,
    {
        lookups.push(Lookup::of_log(&logs[i]));
        i = i + 1;
    }
    assert(probes_of(lookups@) =~= log_probes(logs@));
    lookups
}

/// The keys of the traces, in order.
pub fn trace_lookups<'a>(traces: &'a Vec<TraceRecord>) -> (lookups: Vec<Lookup<'a>>)
    ensures
        probes_of(lookups@) == trace_probes(traces@),
{
    let mut lookups: Vec<Lookup<'a>> = Vec::new();
    let mut i: usize = 0;
    while i < traces.len()
        invariant
            i <= traces.len(),
            lookups.len() == i,
            forall|k: int| 0 <= k < i ==> (#[trigger] lookups@[k])@ == trace_probe(traces@[k]),
        decreases traces.len() - i,
    {
        lookups.push(Lookup::of_trace(&traces[i]));
        i = i + 1;
    }
    assert(probes_of(lookups@) =~= trace_probes(traces@));
    lookups
}

/// Whether two entries declare the same signature for the same hash.
pub fn declares_same_signature(by_arity: bool, a: &AbiEntry, b: &AbiEntry) -> (same: bool)
    ensures
        same == same_signature(by_arity, *a, *b),
{
    bytes_equal(&a.hash, &b.hash) && a.full_signature == b.full_signature && a.name == b.name && (
    !by_arity || (a.anonymous == b.anonymous && a.num_indexed_args == b.num_indexed_args))
}

} // verus!
