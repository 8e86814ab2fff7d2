//! Error kinds shared across the library, and the HTTP status each maps to.

use vstd::prelude::*;

verus! {

/// Why spawning a command pipeline failed.
#[derive(Clone, PartialEq, Eq, Structural, Debug)]
pub enum CommandError {
    /// A command string could not be split into shell words.
    UnableToParse,
    /// A parsed command could not be executed.
    UnableToSpawn,
    /// The pipes between the stages could not be wired.
    PipelineBroken,
}

/// Every failure the library reports.
#[derive(Clone, PartialEq, Eq, Structural, Debug)]
pub enum Error {
    StreamingTimedOut,
    TunerUnavailable,
    ChannelNotFound,
    ServiceNotFound,
    ProgramNotFound,
    RecordNotFound,
    SessionNotFound,
    ClockNotSynced,
    OutOfRange,
    NoContent,
    AccessDenied,
    CommandFailed(CommandError),
    InvalidFilter,
    IoError,
    Serialize,
    Other,
}

impl Error {
    /// The HTTP status code a response for this error carries: 408 for a
    /// streaming timeout, 404 for the not-found kinds, 416 for an
    /// unsatisfiable range, 204 for no content, 403 for denied access and
    /// 500 for everything else.
    pub fn status_code(&self) -> (code: u16)
        ensures
            code == self.spec_status_code(),
    {
        match self {
            Error::StreamingTimedOut => 408,
            Error::TunerUnavailable => 404,
            Error::ChannelNotFound => 404,
            Error::ServiceNotFound => 404,
            Error::ProgramNotFound => 404,
            Error::RecordNotFound => 404,
            Error::OutOfRange => 416,
            Error::NoContent => 204,
            Error::AccessDenied => 403,
            _ => 500,
        }
    }

    /// The status code as a mathematical function of the error kind.
    pub open spec fn spec_status_code(&self) -> u16 {
        match self {
            Error::StreamingTimedOut => 408,
            Error::TunerUnavailable => 404,
            Error::ChannelNotFound => 404,
            Error::ServiceNotFound => 404,
            Error::ProgramNotFound => 404,
            Error::RecordNotFound => 404,
            Error::OutOfRange => 416,
            Error::NoContent => 204,
            Error::AccessDenied => 403,
            _ => 500,
        }
    }
}

} // verus!
