//! The synchronisation protocol: what to ask of the outside world next, and
//! what to make of its answer.
//!
//! A run brings a snapshot from its last applied block up to the height of
//! the remote log. The engine performs no input or output. It names the
//! request that its driver must carry out, and is told the outcome together
//! with the time at which the outcome was known.

use vstd::prelude::*;
use crate::aggregate::CachedAggregate;
use crate::error::{AggregateError, RemoteCall, SyncError};
use crate::state::State;
use crate::timer::{CheckpointTimer, DEFAULT_CHECKPOINT_INTERVAL};

verus! {

/// The number of blocks that one page of the remote log spans.
pub const DEFAULT_PAGE_SIZE: u64 = 10_000;

/// What the driver of a run has to do next.
#[derive(Clone, Copy, Debug, PartialEq, Eq)]
pub enum SyncAction {
    /// Ask the remote source for its current height.
    QueryHeight,
    /// Open the paginated sequence of records that starts at `from_block`,
    /// and pull its first record.
    OpenLogs { from_block: u64, page_size: u64 },
    /// Pull the next record of the open sequence.
    NextRecord,
    /// Save the snapshot; the sweep goes on afterwards.
    Checkpoint,
    /// Save the snapshot; the run ends afterwards.
    FinalCheckpoint,
}

/// What the driver reports back.
pub enum SyncEvent<E> {
    /// The answer to the height query: the height, or the failure in words.
    Height(Result<u64, String>),
    /// The next record of the sequence: the block in which it was recorded,
    /// and the event that it decodes to, if it matches a known event at all.
    Record { block_number: u64, decoded: Option<E> },
    /// A page of the sequence could not be fetched.
    PageFailed(String),
    /// The sequence holds no further record.
    Exhausted,
    /// The outcome of saving the snapshot.
    Saved(Result<(), AggregateError>),
}

/// A run in progress.
#[derive(Clone, Copy, Debug, PartialEq, Eq)]
pub struct SyncRun {
    /// The request that the driver has been given and has yet to answer.
    pub pending: SyncAction,
    /// The height that the remote source reported; zero before it has.
    pub height: u64,
    /// The page size that the sequence of records is opened with.
    pub page_size: u64,
    /// The policy that decides when progress is saved.
    pub timer: CheckpointTimer,
}

/// How a run goes on after an event.
pub enum SyncStep {
    /// The run goes on: its `pending` request is to be carried out.
    Continue(SyncRun),
    /// The run is over.
    Done(Result<(), SyncError>),
}

impl SyncRun {
    /// A run that has not begun: its first request is the height query.
    pub fn new(page_size: u64, interval: u64) -> (run: SyncRun)
        ensures
            run == (SyncRun {
                pending: SyncAction::QueryHeight,
                height: 0,
                page_size,
                timer: CheckpointTimer { interval, last_persist: 0 },
            }),
    {
        SyncRun {
            pending: SyncAction::QueryHeight,
            height: 0,
            page_size,
            timer: CheckpointTimer::new(interval, 0),
        }
    }

    /// Whether the sequence of records is open and a record is awaited.
    pub open spec fn streaming(self) -> bool {
        self.pending is OpenLogs || self.pending is NextRecord
    }
}

impl Default for SyncRun {
    /// A run with pages of ten thousand blocks and a checkpoint every sixty
    /// seconds.
    fn default() -> (run: SyncRun)
        ensures
            run == (SyncRun {
                pending: SyncAction::QueryHeight,
                height: 0,
                page_size: DEFAULT_PAGE_SIZE,
                timer: CheckpointTimer { interval: DEFAULT_CHECKPOINT_INTERVAL, last_persist: 0 },
            }),
    {
        SyncRun::new(DEFAULT_PAGE_SIZE, DEFAULT_CHECKPOINT_INTERVAL)
    }
}

impl<T: State> CachedAggregate<T> {
    /// The snapshot once the sequence of records is exhausted: everything up
    /// to `height` has been seen, so the last applied block is at least that.
    pub open spec fn caught_up(self, height: u64) -> Self {
        CachedAggregate {
            block_number: if self.block_number >= height {
                self.block_number
            } else {
                height
            },
            ..self
        }
    }

    /// The snapshot and the run after one event, told at time `now`.
    ///
    /// - The height query. On failure the run ends with a remote source
    ///   error. Where the snapshot is already at the height or beyond, the
    ///   sweep is skipped and the final checkpoint is asked for. Otherwise
    ///   the timer starts and the records from the block after the last
    ///   applied one are asked for.
    /// - A record is taken in as `consumed` says. Where the state rejects
    ///   its event, the run ends with that fault and nothing is saved.
    ///   Otherwise a checkpoint is asked for if one is due, else the next
    ///   record.
    /// - A page that fails ends the run with a remote source error.
    /// - The end of the sequence brings the last applied block up to the
    ///   height and asks for the final checkpoint.
    /// - A checkpoint that fails ends the run with a persist error. One that
    ///   succeeds restarts the timer and asks for the next record; the final
    ///   one ends the run with `Ok`.
    /// - An event that does not answer the pending request changes nothing.
    pub open spec fn sync_spec(self, run: SyncRun, event: SyncEvent<T::Events>, now: u64) -> (
        Self,
        SyncStep,
    ) {
        match (run.pending, event) {
            (SyncAction::QueryHeight, SyncEvent::Height(Ok(height))) => {
                if self.block_number >= height {
                    (
                        self,
                        SyncStep::Continue(
                            SyncRun { pending: SyncAction::FinalCheckpoint, height, ..run },
                        ),
                    )
                } else {
                    (
                        self,
                        SyncStep::Continue(
                            SyncRun {
                                pending: SyncAction::OpenLogs {
                                    from_block: (self.block_number + 1) as u64,
                                    page_size: run.page_size,
                                },
                                height,
                                timer: run.timer.restarted(now),
                                ..run
                            },
                        ),
                    )
                }
            },
            (SyncAction::QueryHeight, SyncEvent::Height(Err(message))) => (
                self,
                SyncStep::Done(
                    Err(SyncError::RemoteSource { call: RemoteCall::HeightQuery, message }),
                ),
            ),
            (SyncAction::OpenLogs { .. }, SyncEvent::Record { block_number, decoded })
            | (SyncAction::NextRecord, SyncEvent::Record { block_number, decoded }) => (
                self.consumed(block_number, decoded),
                match self.reception(decoded) {
                    Err(fault) => SyncStep::Done(Err(SyncError::StateApply(fault))),
                    Ok(_) => SyncStep::Continue(
                        SyncRun {
                            pending: if run.timer.due_at(now) {
                                SyncAction::Checkpoint
                            } else {
                                SyncAction::NextRecord
                            },
                            ..run
                        },
                    ),
                },
            ),
            (SyncAction::OpenLogs { .. }, SyncEvent::PageFailed(message))
            | (SyncAction::NextRecord, SyncEvent::PageFailed(message)) => (
                self,
                SyncStep::Done(
                    Err(SyncError::RemoteSource { call: RemoteCall::PageFetch, message }),
                ),
            ),
            (SyncAction::OpenLogs { .. }, SyncEvent::Exhausted)
            | (SyncAction::NextRecord, SyncEvent::Exhausted) => (
                self.caught_up(run.height),
                SyncStep::Continue(SyncRun { pending: SyncAction::FinalCheckpoint, ..run }),
            ),
            (SyncAction::Checkpoint, SyncEvent::Saved(Ok(_))) => (
                self,
                SyncStep::Continue(
                    SyncRun {
                        pending: SyncAction::NextRecord,
                        timer: run.timer.restarted(now),
                        ..run
                    },
                ),
            ),
            (SyncAction::FinalCheckpoint, SyncEvent::Saved(Ok(_))) => (self, SyncStep::Done(Ok(()))),
            (SyncAction::Checkpoint, SyncEvent::Saved(Err(fault)))
            | (SyncAction::FinalCheckpoint, SyncEvent::Saved(Err(fault))) => (
                self,
                SyncStep::Done(Err(SyncError::Persist(fault))),
            ),
            _ => (self, SyncStep::Continue(run)),
        }
    }

    /// Advances the run by one event, told at time `now`.
    pub fn sync(&mut self, run: SyncRun, event: SyncEvent<T::Events>, now: u64) -> (step: SyncStep)
        ensures
            (*final(self), step) == old(self).sync_spec(run, event, now),
    {
        let mut run = run;
        match run.pending {
            SyncAction::QueryHeight => match event {
                SyncEvent::Height(Ok(height)) => {
                    run.height = height;
                    if self.block_number >= height {
                        run.pending = SyncAction::FinalCheckpoint;
                    } else {
                        run.pending =
                        SyncAction::OpenLogs {
                            from_block: self.block_number + 1,
                            page_size: run.page_size,
                        };
                        run.timer.reset(now);
                    }
                    SyncStep::Continue(run)
                },
                SyncEvent::Height(Err(message)) => SyncStep::Done(
                    Err(SyncError::RemoteSource { call: RemoteCall::HeightQuery, message }),
                ),
                _ => SyncStep::Continue(run),
            },
            SyncAction::OpenLogs { .. } | SyncAction::NextRecord => match event {
                SyncEvent::Record { block_number, decoded } => {
                    match self.consume(block_number, decoded) {
                        Err(fault) => SyncStep::Done(Err(SyncError::StateApply(fault))),
                        Ok(_) => {
                            run.pending =
                            if run.timer.is_due(now) {
                                SyncAction::Checkpoint
                            } else {
                                SyncAction::NextRecord
                            };
                            SyncStep::Continue(run)
                        },
                    }
                },
                SyncEvent::PageFailed(message) => SyncStep::Done(
                    Err(SyncError::RemoteSource { call: RemoteCall::PageFetch, message }),
                ),
                SyncEvent::Exhausted => {
                    if self.block_number < run.height {
                        self.block_number = run.height;
                    }
                    run.pending = SyncAction::FinalCheckpoint;
                    SyncStep::Continue(run)
                },
                _ => SyncStep::Continue(run),
            },
            SyncAction::Checkpoint => match event {
                SyncEvent::Saved(Ok(_)) => {
                    run.pending = SyncAction::NextRecord;
                    run.timer.reset(now);
                    SyncStep::Continue(run)
                },
                SyncEvent::Saved(Err(fault)) => SyncStep::Done(Err(SyncError::Persist(fault))),
                _ => SyncStep::Continue(run),
            },
            SyncAction::FinalCheckpoint => match event {
                SyncEvent::Saved(Ok(_)) => SyncStep::Done(Ok(())),
                SyncEvent::Saved(Err(fault)) => SyncStep::Done(Err(SyncError::Persist(fault))),
                _ => SyncStep::Continue(run),
            },
        }
    }
}

/// A record as it reaches a run: its block, what it decodes to, the time at
/// which it is told, and the time at which a checkpoint is told to be saved,
/// should the run ask for one after this record.
pub struct Arrival<E> {
    pub block_number: u64,
    pub decoded: Option<E>,
    pub at: u64,
    pub saved_at: u64,
}

/// The arrivals without their times: what a replay takes in.
pub open spec fn records_of<E>(arrivals: Seq<Arrival<E>>) -> Seq<(u64, Option<E>)> {
    arrivals.map_values(|a: Arrival<E>| (a.block_number, a.decoded))
}

impl<T: State> CachedAggregate<T> {
    /// The snapshot and the run after one arrival: the record is told, and
    /// where the run then asks for a checkpoint, the checkpoint is told to
    /// have been saved.
    pub open spec fn taken(self, run: SyncRun, arrival: Arrival<T::Events>) -> (Self, SyncStep) {
        let told = self.sync_spec(
            run,
            SyncEvent::Record { block_number: arrival.block_number, decoded: arrival.decoded },
            arrival.at,
        );
        match told.1 {
            SyncStep::Continue(next) if next.pending is Checkpoint => told.0.sync_spec(
                next,
                SyncEvent::Saved(Ok(())),
                arrival.saved_at,
            ),
            _ => told,
        }
    }

    /// The snapshot and the run after the arrivals, one after another, as
    /// long as the run goes on.
    pub open spec fn swept(self, run: SyncRun, arrivals: Seq<Arrival<T::Events>>) -> (
        Self,
        SyncStep,
    )
        decreases arrivals.len(),
    {
        if arrivals.len() == 0 {
            (self, SyncStep::Continue(run))
        } else {
            let before = self.swept(run, arrivals.drop_last());
            match before.1 {
                SyncStep::Continue(next) => before.0.taken(next, arrivals.last()),
                SyncStep::Done(_) => before,
            }
        }
    }
}

/// Calling for a run when the snapshot is already at the remote height, or
/// beyond it, applies no event and saves exactly once: the answer to the
/// height query is followed by the request for the final checkpoint, and the
/// saved checkpoint by the end of the run, with the snapshot as it was.
pub proof fn lemma_sync_at_height_saves_once<T: State>(
    snapshot: CachedAggregate<T>,
    run: SyncRun,
    height: u64,
    told_at: u64,
    saved_at: u64,
)
    requires
        run.pending is QueryHeight,
        snapshot.block_number >= height,
    ensures
        snapshot.sync_spec(run, SyncEvent::Height(Ok(height)), told_at) == (
            snapshot,
            SyncStep::Continue(SyncRun { pending: SyncAction::FinalCheckpoint, height, ..run }),
        ),
        snapshot.sync_spec(
            SyncRun { pending: SyncAction::FinalCheckpoint, height, ..run },
            SyncEvent::Saved(Ok(())),
            saved_at,
        ) == (snapshot, SyncStep::Done(Ok(()))),
{
}

/// How a run ends, and on what. It ends with `Ok` exactly when the final
/// checkpoint has been saved. It ends with a remote source error exactly
/// when the height query or the fetch of a page has failed, with a state
/// apply error exactly when the state rejects the event of a record, and
/// with a persist error exactly when a checkpoint could not be saved. Each
/// error carries what was reported: this holds of every `message` and every
/// `fault`.
pub proof fn lemma_how_a_run_ends<T: State>(
    snapshot: CachedAggregate<T>,
    run: SyncRun,
    event: SyncEvent<T::Events>,
    now: u64,
    message: String,
    fault: AggregateError,
)
    ensures
        snapshot.sync_spec(run, event, now).1 == SyncStep::Done(Ok(())) <==> run.pending
            is FinalCheckpoint && (event matches SyncEvent::Saved(Ok(_))),
        snapshot.sync_spec(run, event, now).1 == SyncStep::Done(
            Err(SyncError::RemoteSource { call: RemoteCall::HeightQuery, message }),
        ) <==> run.pending is QueryHeight && event == SyncEvent::<T::Events>::Height(Err(message)),
        snapshot.sync_spec(run, event, now).1 == SyncStep::Done(
            Err(SyncError::RemoteSource { call: RemoteCall::PageFetch, message }),
        ) <==> run.streaming() && event == SyncEvent::<T::Events>::PageFailed(message),
        snapshot.sync_spec(run, event, now).1 == SyncStep::Done(Err(SyncError::StateApply(fault)))
            <==> run.streaming() && (event matches SyncEvent::Record { decoded: Some(e), .. }
            && snapshot.state.verdict(e) == Err::<(), AggregateError>(fault)),
        snapshot.sync_spec(run, event, now).1 == SyncStep::Done(Err(SyncError::Persist(fault)))
            <==> (run.pending is Checkpoint || run.pending is FinalCheckpoint) && event
            == SyncEvent::<T::Events>::Saved(Err(fault)),
{
}

/// A record that matches no known event leaves the state as it is, moves
/// the last applied block to its own block and never ends the run.
pub proof fn lemma_unmatched_record_goes_on<T: State>(
    snapshot: CachedAggregate<T>,
    run: SyncRun,
    block_number: u64,
    now: u64,
)
    requires
        run.streaming(),
    ensures
        ({
            let after = snapshot.sync_spec(
                run,
                SyncEvent::Record { block_number, decoded: None },
                now,
            );
            &&& after.0 == (CachedAggregate { block_number, ..snapshot })
            &&& after.1 is Continue
        }),
{
}

/// A sweep is a replay, whatever the times: as long as the state accepts
/// every event, the snapshot after the arrivals is the snapshot after their
/// records, each taken in once and in order, however the checkpoints fell
/// between them. The run is left waiting for a record, with the height and
/// the page size that it had.
pub proof fn lemma_sweep_is_replay<T: State>(
    snapshot: CachedAggregate<T>,
    run: SyncRun,
    arrivals: Seq<Arrival<T::Events>>,
)
    requires
        run.streaming(),
        snapshot.accepts(records_of(arrivals)),
    ensures
        snapshot.swept(run, arrivals).0 == snapshot.replayed(records_of(arrivals)),
        snapshot.swept(run, arrivals).1 matches SyncStep::Continue(next) && next.streaming()
            && next.height == run.height && next.page_size == run.page_size,
    decreases arrivals.len(),
{
    if arrivals.len() > 0 {
        assert(records_of(arrivals).drop_last() =~= records_of(arrivals.drop_last()));
        lemma_sweep_is_replay(snapshot, run, arrivals.drop_last());
    }
}

/// A run that nothing interrupts ends with `Ok`, and with the snapshot that
/// a replay of the records leaves, brought up to the remote height: the
/// height is told, the records arrive, the sequence ends, the final
/// checkpoint is saved.
pub proof fn lemma_complete_run<T: State>(
    snapshot: CachedAggregate<T>,
    run: SyncRun,
    height: u64,
    arrivals: Seq<Arrival<T::Events>>,
    told_at: u64,
    ended_at: u64,
    saved_at: u64,
)
    requires
        run.pending is QueryHeight,
        snapshot.block_number < height,
        snapshot.accepts(records_of(arrivals)),
    ensures
        ({
            let opened = snapshot.sync_spec(run, SyncEvent::Height(Ok(height)), told_at);
            let swept = opened.0.swept(opened.1->Continue_0, arrivals);
            let ended = swept.0.sync_spec(swept.1->Continue_0, SyncEvent::Exhausted, ended_at);
            let saved = ended.0.sync_spec(
                ended.1->Continue_0,
                SyncEvent::Saved(Ok(())),
                saved_at,
            );
            &&& opened.1 matches SyncStep::Continue(first) && first.pending == (
            SyncAction::OpenLogs {
                from_block: (snapshot.block_number + 1) as u64,
                page_size: run.page_size,
            })
            &&& swept.1 is Continue
            &&& ended.1 matches SyncStep::Continue(last) && last.pending is FinalCheckpoint
            &&& saved == (
                snapshot.replayed(records_of(arrivals)).caught_up(height),
                SyncStep::Done(Ok(())),
            )
        }),
{
    let opened = snapshot.sync_spec(run, SyncEvent::Height(Ok(height)), told_at);
    lemma_sweep_is_replay(opened.0, opened.1->Continue_0, arrivals);
}

} // verus!
