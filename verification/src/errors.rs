//! Error taxonomy of the pipeline.

use vstd::prelude::*;

use crate::ids::{ParseIdError, WikiStrId};

verus! {

/// Error returned if config checking failed.
#[derive(Clone, Debug)]
pub enum ConfigCheckError {
    PathDoesNotExist(String),
    PathIsNotAFile(String),
    PathIsNotADir(String),
    PathAlreadyExists(String),
    BaseDoesNotExist(String),
    BaseIsNotADirectory(String),
}

/// Error related to validating the input data.
#[derive(Clone, Debug)]
pub enum SourcesCheckError {
    /// Identifiers were duplicated while expected to be unique; the payload
    /// lists every duplicated identifier once, in order of first repetition.
    RepeatedIds(Vec<WikiStrId>),
}

/// Error returned when processing fails. I/O and decoding failures carry the
/// reporting text of the underlying failure.
#[derive(Clone, Debug)]
pub enum ProcessingError {
    Io(String),
    Csv(String),
    Json(String),
    Yaml(String),
    Variant(String),
    Join(String),
    CompressionMethod,
    Channel(String),
    ConfigCheck(ConfigCheckError),
    SourcesCheck(SourcesCheckError),
    IdParsing(ParseIdError),
    MutexLock,
}

impl From<ConfigCheckError> for ProcessingError {
    fn from(error: ConfigCheckError) -> (r: Self) {
        ProcessingError::ConfigCheck(error)
    }
}

impl vstd::std_specs::convert::FromSpecImpl<ConfigCheckError> for ProcessingError {
    open spec fn obeys_from_spec() -> bool {
        true
    }

    open spec fn from_spec(error: ConfigCheckError) -> Self {
        ProcessingError::ConfigCheck(error)
    }
}

impl From<SourcesCheckError> for ProcessingError {
    fn from(error: SourcesCheckError) -> (r: Self) {
        ProcessingError::SourcesCheck(error)
    }
}

impl vstd::std_specs::convert::FromSpecImpl<SourcesCheckError> for ProcessingError {
    open spec fn obeys_from_spec() -> bool {
        true
    }

    open spec fn from_spec(error: SourcesCheckError) -> Self {
        ProcessingError::SourcesCheck(error)
    }
}

impl From<ParseIdError> for ProcessingError {
    fn from(error: ParseIdError) -> (r: Self) {
        ProcessingError::IdParsing(error)
    }
}

impl vstd::std_specs::convert::FromSpecImpl<ParseIdError> for ProcessingError {
    open spec fn obeys_from_spec() -> bool {
        true
    }

    open spec fn from_spec(error: ParseIdError) -> Self {
        ProcessingError::IdParsing(error)
    }
}

} // verus!
