//! The capability that callers implement: an aggregate that folds events.

use vstd::prelude::*;
use crate::error::AggregateError;
use crate::filter::{same_address, Address, LogFilter, Topic};
use crate::aggregate::CachedAggregate;

verus! {

/// An aggregate state. It starts out as `Default::default()` and is changed
/// by one decoded event at a time, in the order in which the log holds them.
///
/// `handle` must be a pure fold: what it leaves behind and what it answers
/// depend on the state before and on the event, and on nothing else. The two
/// spec functions name that dependency. Everything that is proved of a run
/// rests on it, and holds of an implementation only as far as its `handle`
/// keeps to it. An implementation outside verified code writes the two as
/// ordinary functions; nothing calls them when the program runs.
pub trait State: Sized + Default {
    /// The decoded events that this state understands.
    type Events;

    /// The state that `handle` leaves behind, whether or not it accepts the
    /// event.
    spec fn applied(self, event: Self::Events) -> Self;

    /// What `handle` answers: `Ok` where the event is accepted, the fault
    /// where it is rejected.
    spec fn verdict(self, event: Self::Events) -> Result<(), AggregateError>;

    /// Folds one event into the state.
    fn handle(&mut self, event: Self::Events) -> (r: Result<(), AggregateError>)
        ensures
            *final(self) == old(self).applied(event),
            r == old(self).verdict(event),
    ;

    /// The snapshot to work on for an emitter on a chain, given what the
    /// checkpoint store has under the emitter's name. A stored snapshot of
    /// this emitter and chain is resumed as it is. Where the store has
    /// nothing, or a snapshot of another emitter or chain, the work starts
    /// afresh at `block_number` with the default state. A stored snapshot
    /// that could not be read is an error.
    fn from_contract(
        address: Address,
        signatures: Vec<Topic>,
        chain: u64,
        block_number: u64,
        stored: Option<Result<CachedAggregate<Self>, AggregateError>>,
    ) -> (r: Result<CachedAggregate<Self>, AggregateError>)
        ensures
            r matches Ok(snapshot) ==> snapshot.address == address && snapshot.chain == chain,
            stored matches Some(Err(fault)) ==> r == Err::<CachedAggregate<Self>, AggregateError>(
                fault,
            ),
            stored matches Some(Ok(found)) && found.chain == chain && found.address == address
                ==> r == stored->Some_0,
            stored is None || (stored matches Some(Ok(found)) && !(found.chain == chain
                && found.address == address)) ==> (r matches Ok(fresh) && fresh.address == address
                && fresh.chain == chain && fresh.block_number == block_number
                && fresh.filter.address == Some(address) && fresh.filter.signatures == Some(
                signatures,
            ) && call_ensures(Self::default, (), fresh.state)),
    {
        match stored {
            Some(Err(fault)) => Err(fault),
            Some(Ok(found)) if found.chain == chain && same_address(&found.address, &address) => {
                Ok(found)
            },
            _ => Ok(
                CachedAggregate {
                    address,
                    chain,
                    block_number,
                    filter: LogFilter { address: Some(address), signatures: Some(signatures) },
                    state: Self::default(),
                },
            ),
        }
    }
}

} // verus!
