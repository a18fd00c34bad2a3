//! The snapshot: the unit of aggregation that is saved and resumed.

use vstd::prelude::*;
use vstd::string::*;
use crate::error::AggregateError;
use crate::filter::{Address, LogFilter};
use crate::state::State;
use crate::text::{
    address_text, decimal_digits, decimal_text, full_address, lemma_decimal_digits_is_injective,
    lemma_full_address_is_injective, lemma_full_address_len,
};

verus! {

/// The aggregate of one emitter's log on one chain, together with the block
/// up to which the log has been folded into it.
pub struct CachedAggregate<T: State> {
    /// The emitter whose records are followed.
    pub address: Address,
    /// The number that identifies the chain.
    pub chain: u64,
    /// The highest block whose events are reflected in `state`.
    pub block_number: u64,
    /// The description of the records of interest.
    pub filter: LogFilter,
    /// The caller's aggregate.
    pub state: T,
}

impl<T: State> Default for CachedAggregate<T> {
    /// The snapshot of no emitter in particular: the zero address on chain
    /// one, at block zero, with the filter that leaves nothing out and the
    /// default state.
    fn default() -> (snapshot: CachedAggregate<T>)
        ensures
            forall|i: int| 0 <= i < 20 ==> snapshot.address[i] == 0,
            snapshot.chain == 1,
            snapshot.block_number == 0,
            snapshot.filter.address is None,
            snapshot.filter.signatures is None,
            call_ensures(T::default, (), snapshot.state),
    {
        CachedAggregate {
            address: [0u8; 20],
            chain: 1,
            block_number: 0,
            filter: LogFilter::default(),
            state: T::default(),
        }
    }
}

/// The name of the file that holds the checkpoint of an emitter on a chain.
pub open spec fn checkpoint_name(chain: u64, address: Seq<u8>) -> Seq<char> {
    decimal_digits(chain as nat) + seq!['-'] + full_address(address) + seq![
        '.',
        'j',
        's',
        'o',
        'n',
    ]
}

/// The name of the file that holds the checkpoint of an emitter on a chain:
/// the chain in decimal, a hyphen, the address in full, and `.json`.
pub fn checkpoint_file(chain: u64, address: &Address) -> (name: String)
    ensures
        name@ == checkpoint_name(chain, address@),
{
    let emitter = address_text(address);
    let name = decimal_text(chain).concat("-").concat(emitter.as_str()).concat(".json");
    proof {
        reveal_strlit("-");
        reveal_strlit(".json");
        assert("-"@ =~= seq!['-']);
        assert(".json"@ =~= seq!['.', 'j', 's', 'o', 'n']);
    }
    name
}

impl<T: State> CachedAggregate<T> {
    /// What the state answers to a record: the verdict on its event, and
    /// `Ok` for a record that matches no known event.
    pub open spec fn reception(self, decoded: Option<T::Events>) -> Result<(), AggregateError> {
        match decoded {
            Some(event) => self.state.verdict(event),
            None => Ok(()),
        }
    }

    /// The snapshot after a record of block `block_number` has been taken in.
    /// A decoded event is folded into the state. The last applied block
    /// moves to the record's block, whether or not the record decoded,
    /// unless the state rejects the event.
    pub open spec fn consumed(self, block_number: u64, decoded: Option<T::Events>) -> Self {
        CachedAggregate {
            state: match decoded {
                Some(event) => self.state.applied(event),
                None => self.state,
            },
            block_number: if self.reception(decoded) is Ok {
                block_number
            } else {
                self.block_number
            },
            ..self
        }
    }

    /// The snapshot after the records, each a block number and what it
    /// decodes to, have been taken in one after another.
    pub open spec fn replayed(self, records: Seq<(u64, Option<T::Events>)>) -> Self
        decreases records.len(),
    {
        if records.len() == 0 {
            self
        } else {
            self.replayed(records.drop_last()).consumed(records.last().0, records.last().1)
        }
    }

    /// Whether the state accepts every event of the records, each in the
    /// state that the records before it have left.
    pub open spec fn accepts(self, records: Seq<(u64, Option<T::Events>)>) -> bool
        decreases records.len(),
    {
        records.len() == 0 || (self.accepts(records.drop_last()) && self.replayed(
            records.drop_last(),
        ).reception(records.last().1) is Ok)
    }

    /// The name of the file that holds this snapshot's checkpoint.
    pub fn filename(&self) -> (name: String)
        ensures
            name@ == checkpoint_name(self.chain, self.address@),
    {
        checkpoint_file(self.chain, &self.address)
    }

    /// Takes in one record of block `block_number`.
    pub fn consume(&mut self, block_number: u64, decoded: Option<T::Events>) -> (r: Result<
        (),
        AggregateError,
    >)
        ensures
            *final(self) == old(self).consumed(block_number, decoded),
            r == old(self).reception(decoded),
    {
        if let Some(event) = decoded {
            self.state.handle(event)?;
        }
        self.block_number = block_number;
        Ok(())
    }

    /// Takes in the records one after another, as long as the state accepts
    /// their events. The first rejection ends the replay: the state has
    /// taken the rejected event in, and the last applied block is that of
    /// the record before it.
    pub fn replay(&mut self, records: Vec<(u64, Option<T::Events>)>) -> (r: Result<
        (),
        AggregateError,
    >)
        ensures
            r is Ok <==> old(self).accepts(records@),
            r is Ok ==> *final(self) == old(self).replayed(records@),
            r matches Err(fault) ==> exists|k: int|
                0 <= k < records@.len() && old(self).accepts(#[trigger] records@.take(k)) && old(
                    self,
                ).replayed(records@.take(k)).reception(records@[k].1) == Err::<
                    (),
                    AggregateError,
                >(fault) && *final(self) == old(self).replayed(records@.take(k + 1)),
    {
        let ghost all = records@;
        for record in it: records.into_iter()
            invariant
                it.seq() == all,
                *self == old(self).replayed(all.take(it.index() as int)),
                old(self).accepts(all.take(it.index() as int)),
        {
            let ghost k = it.index() as int;
            proof {
                assert(all.take(k + 1).drop_last() =~= all.take(k));
                assert(all.take(k + 1).last() == all[k]);
            }
            let (block_number, decoded) = record;
            match self.consume(block_number, decoded) {
                Ok(_) => {},
                Err(fault) => {
                    proof {
                        lemma_replay_split(*old(self), all.take(k + 1), all.skip(k + 1));
                        assert(all.take(k + 1) + all.skip(k + 1) =~= all);
                    }
                    return Err(fault);
                },
            }
        }
        proof {
            assert(all.take(all.len() as int) =~= all);
        }
        Ok(())
    }
}

/// One file for each emitter on each chain: two checkpoints have the same
/// name only where they are of the same chain and the same address.
pub proof fn lemma_checkpoint_name_is_injective(
    chain_a: u64,
    a: Seq<u8>,
    chain_b: u64,
    b: Seq<u8>,
)
    requires
        a.len() == 20,
        b.len() == 20,
        checkpoint_name(chain_a, a) == checkpoint_name(chain_b, b),
    ensures
        chain_a == chain_b,
        a == b,
{
    let digits_a = decimal_digits(chain_a as nat);
    let digits_b = decimal_digits(chain_b as nat);
    let name_a = checkpoint_name(chain_a, a);
    let name_b = checkpoint_name(chain_b, b);
    lemma_full_address_len(a);
    lemma_full_address_len(b);
    assert(name_a.len() == digits_a.len() + 48);
    assert(name_b.len() == digits_b.len() + 48);
    let n = digits_a.len() as int;
    assert(name_a.subrange(0, n) =~= digits_a);
    assert(name_b.subrange(0, n) =~= digits_b);
    lemma_decimal_digits_is_injective(chain_a as nat, chain_b as nat);
    assert(name_a.subrange(n + 1, n + 43) =~= full_address(a));
    assert(name_b.subrange(n + 1, n + 43) =~= full_address(b));
    lemma_full_address_is_injective(a, b);
}

/// A record that matches no known event never changes the state and never
/// raises an error, and the last applied block still moves to its block.
pub proof fn lemma_unmatched_record_only_advances<T: State>(
    snapshot: CachedAggregate<T>,
    block_number: u64,
)
    ensures
        snapshot.reception(None) is Ok,
        snapshot.consumed(block_number, None).state == snapshot.state,
        snapshot.consumed(block_number, None).block_number == block_number,
        snapshot.consumed(block_number, None) == (CachedAggregate { block_number, ..snapshot }),
{
}

/// Folding is deterministic in how the records are chunked: taking in a
/// sequence in one go and taking it in as two parts, one after the other,
/// leave the same snapshot, and the one is free of rejections exactly where
/// the other is.
pub proof fn lemma_replay_split<T: State>(
    snapshot: CachedAggregate<T>,
    first: Seq<(u64, Option<T::Events>)>,
    second: Seq<(u64, Option<T::Events>)>,
)
    ensures
        snapshot.replayed(first + second) == snapshot.replayed(first).replayed(second),
        snapshot.accepts(first + second) <==> snapshot.accepts(first) && snapshot.replayed(
            first,
        ).accepts(second),
    decreases second.len(),
{
    if second.len() == 0 {
        assert(first + second =~= first);
    } else {
        assert((first + second).drop_last() =~= first + second.drop_last());
        assert((first + second).last() == second.last());
        lemma_replay_split(snapshot, first, second.drop_last());
    }
}

/// The snapshot after the chunks of records have been taken in, each chunk
/// in a pass of its own, starting from what the pass before has left.
pub open spec fn replayed_in_chunks<T: State>(
    snapshot: CachedAggregate<T>,
    chunks: Seq<Seq<(u64, Option<T::Events>)>>,
) -> CachedAggregate<T>
    decreases chunks.len(),
{
    if chunks.len() == 0 {
        snapshot
    } else {
        replayed_in_chunks(snapshot, chunks.drop_last()).replayed(chunks.last())
    }
}

/// The same for any number of parts: taking in the chunks one after another
/// leaves what taking in their concatenation leaves.
pub proof fn lemma_replay_chunks<T: State>(
    snapshot: CachedAggregate<T>,
    chunks: Seq<Seq<(u64, Option<T::Events>)>>,
)
    ensures
        replayed_in_chunks(snapshot, chunks) == snapshot.replayed(chunks.flatten()),
    decreases chunks.len(),
{
    if chunks.len() == 0 {
        assert(chunks.flatten() =~= Seq::empty());
    } else {
        let init = chunks.drop_last();
        lemma_replay_chunks(snapshot, init);
        init.lemma_flatten_push(chunks.last());
        assert(init.push(chunks.last()) =~= chunks);
        lemma_replay_split(snapshot, init.flatten(), chunks.last());
    }
}

} // verus!
