//! The errors that aggregation reports.

use vstd::prelude::*;
use vstd::string::*;

verus! {

/// `std::io::Error`, the failure of a read or a write on the storage
/// medium. Nothing is claimed of its contents: a value of it is only carried
/// to the caller.
#[verifier::external_type_specification]
#[verifier::external_body]
pub struct ExIoError(std::io::Error);

/// `serde_json::Error`, the failure to serialise or deserialise a snapshot.
/// Nothing is claimed of its contents: a value of it is only carried to the
/// caller.
#[verifier::external_type_specification]
#[verifier::external_body]
pub struct ExSerdeError(serde_json::Error);

/// Anything that can go wrong while a snapshot is built, advanced or saved.
#[derive(Debug)]
pub enum AggregateError {
    /// A fault described in words: a failure of the remote log source, or a
    /// rejection that an aggregate state explains.
    Error(String),
    /// The storage medium failed.
    IoError(std::io::Error),
    /// A snapshot could not be serialised or deserialised.
    SerdeError(serde_json::Error),
}

impl From<std::io::Error> for AggregateError {
    fn from(e: std::io::Error) -> (r: AggregateError) {
        AggregateError::IoError(e)
    }
}

impl vstd::std_specs::convert::FromSpecImpl<std::io::Error> for AggregateError {
    open spec fn obeys_from_spec() -> bool {
        true
    }

    open spec fn from_spec(e: std::io::Error) -> AggregateError {
        AggregateError::IoError(e)
    }
}

impl From<serde_json::Error> for AggregateError {
    fn from(e: serde_json::Error) -> (r: AggregateError) {
        AggregateError::SerdeError(e)
    }
}

impl vstd::std_specs::convert::FromSpecImpl<serde_json::Error> for AggregateError {
    open spec fn obeys_from_spec() -> bool {
        true
    }

    open spec fn from_spec(e: serde_json::Error) -> AggregateError {
        AggregateError::SerdeError(e)
    }
}

/// The call to the remote log source that failed.
#[derive(Clone, Copy, Debug, PartialEq, Eq, Structural)]
pub enum RemoteCall {
    /// The query for the current height.
    HeightQuery,
    /// The fetch of a page of log records.
    PageFetch,
}

/// Why a synchronisation stopped before it was complete.
#[derive(Debug)]
pub enum SyncError {
    /// The remote log source failed; `message` is what it reported.
    RemoteSource { call: RemoteCall, message: String },
    /// The aggregate state rejected an event. The state in memory has already
    /// been touched by that event and must be discarded.
    StateApply(AggregateError),
    /// A checkpoint could not be saved.
    Persist(AggregateError),
}

/// The words that introduce the report of a failed remote call.
pub open spec fn remote_prefix(call: RemoteCall) -> Seq<char> {
    match call {
        RemoteCall::HeightQuery => "Error getting latest block: "@,
        RemoteCall::PageFetch => "Error getting logs: "@,
    }
}

impl SyncError {
    /// Whether `error` is this failure as a caller sees it who knows no
    /// classes: a failure of the remote source is a described fault, whose
    /// text names the call and gives the report; the other two classes are
    /// their cause.
    pub open spec fn reported_as(self, error: AggregateError) -> bool {
        match self {
            SyncError::RemoteSource { call, message } => error matches AggregateError::Error(
                text,
            ) && text@ == remote_prefix(call) + message@,
            SyncError::StateApply(cause) => error == cause,
            SyncError::Persist(cause) => error == cause,
        }
    }

    /// This failure without its class.
    pub fn into_aggregate(self) -> (error: AggregateError)
        ensures
            self.reported_as(error),
    {
        match self {
            SyncError::RemoteSource { call, message } => {
                let prefix = match call {
                    RemoteCall::HeightQuery => "Error getting latest block: ",
                    RemoteCall::PageFetch => "Error getting logs: ",
                };
                AggregateError::Error(String::from_str(prefix).concat(message.as_str()))
            },
            SyncError::StateApply(cause) => cause,
            SyncError::Persist(cause) => cause,
        }
    }
}

} // verus!
