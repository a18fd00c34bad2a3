//! Which log records a snapshot follows.

use vstd::prelude::*;

verus! {

/// The twenty bytes that identify an emitter of log records.
pub type Address = [u8; 20];

/// The thirty-two bytes of an indexed topic; the first topic of a record is
/// the signature of its event.
pub type Topic = [u8; 32];

/// The description of the records of interest: those that the emitter
/// recorded under one of the listed event signatures.
#[derive(Debug)]
pub struct LogFilter {
    /// The emitter; `None` where records of every emitter are of interest.
    pub address: Option<Address>,
    /// The event signatures; `None` where every event is of interest.
    pub signatures: Option<Vec<Topic>>,
}

impl Default for LogFilter {
    /// The filter that leaves nothing out.
    fn default() -> (filter: LogFilter)
        ensures
            filter.address is None,
            filter.signatures is None,
    {
        LogFilter { address: None, signatures: None }
    }
}

/// Whether two addresses are the same.
pub fn same_address(a: &Address, b: &Address) -> (same: bool)
    ensures
        same == (*a == *b),
{
    let mut i: usize = 0;
    while i < 20
        invariant
            i <= 20,
            forall|j: int| 0 <= j < i ==> a[j] == b[j],
        decreases 20 - i,
    {
        if a[i] != b[i] {
            return false;
        }
        i += 1;
    }
    assert(*a =~= *b);
    true
}

} // verus!
