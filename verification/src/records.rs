//! The records that are matched and the catalog entries they are matched
//! against.

use vstd::prelude::*;

verus! {

/// An event log: the hash of the event's signature, up to three further
/// topic slots, and the address of the emitting contract.
#[derive(Clone, Debug)]
pub struct LogRecord {
    pub topic0: Vec<u8>,
    pub topic1: Option<Vec<u8>>,
    pub topic2: Option<Vec<u8>>,
    pub topic3: Option<Vec<u8>>,
    pub address: Vec<u8>,
}

/// A call trace: the selector of the called function and the address of the
/// called contract.
#[derive(Clone, Debug)]
pub struct TraceRecord {
    pub selector: Vec<u8>,
    pub action_to: Vec<u8>,
}

/// One catalog row: a signature as one address declares it.
///
/// `anonymous` and `num_indexed_args` describe events; trace matching
/// ignores both.
#[derive(Clone, Debug)]
pub struct AbiEntry {
    pub hash: Vec<u8>,
    pub address: Vec<u8>,
    pub full_signature: String,
    pub name: String,
    pub anonymous: bool,
    pub num_indexed_args: u32,
}

/// 1 if the slot is filled, 0 if it is empty.
pub open spec fn slot_count(slot: Option<Vec<u8>>) -> nat {
    if slot is Some {
        1
    } else {
        0
    }
}

impl LogRecord {
    /// The number of indexed arguments: one for `topic0`, which is always
    /// there, and one for each further topic slot that is filled.
    pub open spec fn arity(self) -> nat {
        1 + slot_count(self.topic1) + slot_count(self.topic2) + slot_count(self.topic3)
    }

    /// Computes the number of indexed arguments, which lies between 1 and 4.
    pub fn num_indexed_args(&self) -> (n: u32)
        ensures
            n == self.arity(),
            1 <= n <= 4,
    {
        let mut n: u32 = 1;
        if self.topic1.is_some() {
            n = n + 1;
        }
        if self.topic2.is_some() {
            n = n + 1;
        }
        if self.topic3.is_some() {
            n = n + 1;
        }
        n
    }
}

/// Whether two byte strings are equal.
pub fn bytes_equal(a: &Vec<u8>, b: &Vec<u8>) -> (same: bool)
    ensures
        same == (a@ == b@),
{
    if a.len() != b.len() {
        return false;
    }
    let mut i: usize = 0;
    while i < a.len()
        invariant
            i <= a.len(),
            a.len() == b.len(),
            forall|k: int| 0 <= k < i ==> a@[k] == b@[k],
        decreases a.len() - i,
    {
        if a[i] != b[i] {
            return false;
        }
        i = i + 1;
    }
    assert(a@ =~= b@);
    true
}

} // verus!
