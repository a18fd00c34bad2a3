//! Resumable aggregation of an append-only, block-ordered event log.
//!
//! A [`CachedAggregate`] is a snapshot: a caller-defined [`State`] together
//! with the block up to which the log of one emitter has been folded into
//! it. A run of the engine brings a snapshot up to the height of the remote
//! log, one record at a time, and asks for a checkpoint whenever the timer
//! says that one is due, and once more at the end. A run that is cut off
//! is resumed from the last checkpoint.
//!
//! Nothing here touches a network, a clock or a disk. The engine is a step
//! function ([`CachedAggregate::sync`]): a driver carries out the request
//! that is pending and reports the outcome. Saving is a plan of file
//! operations ([`CachedAggregate::snapshot`]) for the driver to carry out.
//!
//! What is proved:
//! - every emitter on every chain has a checkpoint file of its own
//!   (`lemma_checkpoint_name_is_injective`), and work on an emitter never
//!   resumes from the snapshot of another (`State::from_contract`);
//! - every step is the one that `sync_spec` describes, and a run ends as
//!   `lemma_how_a_run_ends` says;
//! - a sweep applies every record once and in order, whatever the timing of
//!   the checkpoints (`lemma_sweep_is_replay`, `lemma_complete_run`);
//! - folding does not depend on how the records are chunked
//!   (`lemma_replay_split`, `lemma_replay_chunks`);
//! - a run resumed from a checkpoint between two blocks ends where an
//!   uninterrupted run ends (`lemma_resumed_run_matches_uninterrupted`);
//! - on a medium where flushed data is durable and a rename is atomic, a
//!   save that is cut short leaves the previous checkpoint
//!   (`lemma_save_is_atomic`).

pub mod aggregate;
pub mod engine;
pub mod error;
pub mod filter;
pub mod resume;
pub mod state;
pub mod store;
pub mod text;
pub mod timer;

pub use aggregate::CachedAggregate;
pub use error::AggregateError;
pub use state::State;
