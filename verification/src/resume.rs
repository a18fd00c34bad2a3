//! Why a run that is resumed from a checkpoint ends where an uninterrupted
//! run ends.
//!
//! The remote log is final: it holds its records in block order, and a sweep
//! that is opened at a block is served the records of that block and of the
//! later ones. A checkpoint holds a state and the last applied block; a
//! resumed run opens its sweep at the block after that one.

use vstd::prelude::*;
use crate::aggregate::{lemma_replay_split, CachedAggregate};
use crate::state::State;

verus! {

/// What a remote source that holds `log` serves to a sweep opened at
/// `from_block`: the records of that block and of later ones, in the order
/// of the log.
pub open spec fn served_from<E>(log: Seq<(u64, Option<E>)>, from_block: int) -> Seq<
    (u64, Option<E>),
> {
    log.filter(|record: (u64, Option<E>)| record.0 >= from_block)
}

/// Block numbers never decrease along the log.
pub open spec fn block_ordered<E>(log: Seq<(u64, Option<E>)>) -> bool {
    forall|i: int, j: int| 0 <= i <= j < log.len() ==> log[i].0 <= log[j].0
}

/// A sweep is served nothing where every record lies before its first
/// block, and the whole log where none does.
proof fn lemma_served_all_or_nothing<E>(log: Seq<(u64, Option<E>)>, from_block: int)
    ensures
        (forall|i: int| 0 <= i < log.len() ==> log[i].0 < from_block) ==> served_from(
            log,
            from_block,
        ) == Seq::<(u64, Option<E>)>::empty(),
        (forall|i: int| 0 <= i < log.len() ==> log[i].0 >= from_block) ==> served_from(
            log,
            from_block,
        ) == log,
    decreases log.len(),
{
    reveal(Seq::filter);
    if log.len() > 0 {
        lemma_served_all_or_nothing(log.drop_last(), from_block);
        if forall|i: int| 0 <= i < log.len() ==> log[i].0 >= from_block {
            assert forall|i: int| 0 <= i < log.drop_last().len() implies log.drop_last()[i].0
                >= from_block by {
                assert(log.drop_last()[i] == log[i]);
            }
            assert(log.drop_last().push(log.last()) =~= log);
        }
        if forall|i: int| 0 <= i < log.len() ==> log[i].0 < from_block {
            assert forall|i: int| 0 <= i < log.drop_last().len() implies log.drop_last()[i].0
                < from_block by {
                assert(log.drop_last()[i] == log[i]);
            }
        }
    }
}

/// After a replay that met no rejection, the last applied block is the
/// block of the last record, or the one before the replay where there was
/// no record.
pub proof fn lemma_replay_ends_at_last_block<T: State>(
    snapshot: CachedAggregate<T>,
    records: Seq<(u64, Option<T::Events>)>,
)
    requires
        snapshot.accepts(records),
    ensures
        snapshot.replayed(records).block_number == if records.len() == 0 {
            snapshot.block_number
        } else {
            records.last().0
        },
{
}

/// Asking later of what was served is asking later of the log: a sweep
/// opened at `later` is served the same records by the whole log as by the
/// part of it that begins at an earlier block.
pub proof fn lemma_served_from_later<E>(log: Seq<(u64, Option<E>)>, from_block: int, later: int)
    requires
        from_block <= later,
    ensures
        served_from(served_from(log, from_block), later) == served_from(log, later),
    decreases log.len(),
{
    reveal(Seq::filter);
    if log.len() > 0 {
        lemma_served_from_later(log.drop_last(), from_block, later);
        if log.last().0 >= from_block {
            let earlier = served_from(log.drop_last(), from_block);
            assert(earlier.push(log.last()).drop_last() =~= earlier);
        }
    }
}

/// Idempotent resume. Let a run be served `log`, the records after the
/// snapshot's last applied block, in block order. Let it be cut off after
/// the first `cut` records, between two blocks, with a checkpoint of what it
/// had reached. The run that resumes from that checkpoint is served exactly
/// the records that the first had not reached, and ends with the snapshot
/// that the uninterrupted run ends with.
///
/// A checkpoint between two records of one block is left out: the resumed
/// run opens its sweep at the next block and is not served the second.
pub proof fn lemma_resume_matches_uninterrupted<T: State>(
    snapshot: CachedAggregate<T>,
    log: Seq<(u64, Option<T::Events>)>,
    cut: int,
)
    requires
        block_ordered(log),
        forall|i: int| 0 <= i < log.len() ==> log[i].0 > snapshot.block_number,
        0 <= cut <= log.len(),
        0 < cut < log.len() ==> log[cut - 1].0 < log[cut].0,
        snapshot.accepts(log),
    ensures
        ({
            let checkpoint = snapshot.replayed(log.take(cut));
            let rest = served_from(log, checkpoint.block_number + 1);
            &&& rest == log.skip(cut)
            &&& checkpoint.accepts(rest)
            &&& checkpoint.replayed(rest) == snapshot.replayed(log)
        }),
{
    let done = log.take(cut);
    let left = log.skip(cut);
    assert(done + left =~= log);
    lemma_replay_split(snapshot, done, left);
    lemma_replay_ends_at_last_block(snapshot, done);
    let checkpoint = snapshot.replayed(done);
    let from_block = checkpoint.block_number + 1;
    assert forall|i: int| 0 <= i < done.len() implies done[i].0 < from_block by {
        assert(done[i] == log[i]);
        assert(done.last() == log[cut - 1]);
    }
    assert forall|i: int| 0 <= i < left.len() implies left[i].0 >= from_block by {
        assert(left[i] == log[cut + i]);
        if cut > 0 {
            assert(done.last() == log[cut - 1]);
            assert(log[cut].0 <= log[cut + i].0);
        }
    }
    lemma_served_all_or_nothing(done, from_block);
    lemma_served_all_or_nothing(left, from_block);
    Seq::filter_distributes_over_add(
        done,
        left,
        |record: (u64, Option<T::Events>)| record.0 >= from_block,
    );
    assert(Seq::<(u64, Option<T::Events>)>::empty() + left =~= left);
}

/// What is served keeps the order of the log.
proof fn lemma_served_in_block_order<E>(log: Seq<(u64, Option<E>)>, from_block: int)
    requires
        block_ordered(log),
    ensures
        block_ordered(served_from(log, from_block)),
    decreases log.len(),
{
    reveal(Seq::filter);
    if log.len() > 0 {
        let init = log.drop_last();
        assert forall|i: int, j: int| 0 <= i <= j < init.len() implies init[i].0 <= init[j].0 by {
            assert(init[i] == log[i] && init[j] == log[j]);
        }
        lemma_served_in_block_order(init, from_block);
        let kept = served_from(init, from_block);
        let served = served_from(log, from_block);
        if log.last().0 >= from_block {
            assert forall|i: int, j: int| 0 <= i <= j < served.len() implies served[i].0
                <= served[j].0 by {
                if j < kept.len() {
                    assert(served[i] == kept[i] && served[j] == kept[j]);
                } else if i < kept.len() {
                    assert(served[i] == kept[i]);
                    assert(kept.contains(kept[i]));
                    init.lemma_filter_contains_rev(
                        |record: (u64, Option<E>)| record.0 >= from_block,
                        kept[i],
                    );
                    let k = choose|k: int| 0 <= k < init.len() && init[k] == kept[i];
                    assert(init[k] == log[k]);
                }
            }
        }
    }
}

/// Idempotent resume, told of the remote log itself. Let the log be in
/// block order, and let a run from `snapshot` be cut off after `cut` of the
/// records that it is served, between two blocks, with a checkpoint of what
/// it had reached. The run that resumes from the checkpoint, served by the
/// same log, ends with the snapshot that the uninterrupted run ends with.
pub proof fn lemma_resumed_run_matches_uninterrupted<T: State>(
    snapshot: CachedAggregate<T>,
    log: Seq<(u64, Option<T::Events>)>,
    cut: int,
)
    requires
        block_ordered(log),
        0 <= cut <= served_from(log, snapshot.block_number + 1).len(),
        0 < cut < served_from(log, snapshot.block_number + 1).len() ==> served_from(
            log,
            snapshot.block_number + 1,
        )[cut - 1].0 < served_from(log, snapshot.block_number + 1)[cut].0,
        snapshot.accepts(served_from(log, snapshot.block_number + 1)),
    ensures
        ({
            let served = served_from(log, snapshot.block_number + 1);
            let checkpoint = snapshot.replayed(served.take(cut));
            let rest = served_from(log, checkpoint.block_number + 1);
            &&& rest == served.skip(cut)
            &&& checkpoint.accepts(rest)
            &&& checkpoint.replayed(rest) == snapshot.replayed(served)
        }),
{
    let from_block = snapshot.block_number + 1;
    let served = served_from(log, from_block);
    let checkpoint = snapshot.replayed(served.take(cut));
    assert(block_ordered(served)) by {
        lemma_served_in_block_order(log, from_block);
    }
    assert forall|i: int| 0 <= i < served.len() implies served[i].0 > snapshot.block_number by {
        log.lemma_filter_pred(|record: (u64, Option<T::Events>)| record.0 >= from_block, i);
    }
    assert(checkpoint.block_number >= snapshot.block_number) by {
        assert(served.take(cut) + served.skip(cut) =~= served);
        lemma_replay_split(snapshot, served.take(cut), served.skip(cut));
        lemma_replay_ends_at_last_block(snapshot, served.take(cut));
        if cut > 0 {
            assert(served.take(cut).last() == served[cut - 1]);
        }
    }
    assert(served_from(served, checkpoint.block_number + 1) == served_from(
        log,
        checkpoint.block_number + 1,
    )) by {
        lemma_served_from_later(log, from_block, checkpoint.block_number + 1);
    }
    lemma_resume_matches_uninterrupted(snapshot, served, cut);
}

} // verus!
