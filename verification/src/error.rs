//! The error taxonomy shared by every component of the library.

use vstd::prelude::*;

verus! {

/// Everything that can go wrong while resolving a target, converting rows or
/// driving a stream. Variants that report on outside failures (the database
/// connection, channel creation, datasource settings) carry the message text
/// of the failure, so that the library itself stays free of outside types.
#[derive(Clone, Debug, PartialEq, Eq)]
pub enum Error {
    /// A changefeed for the requested key is already running.
    StreamAlreadyRunning,
    /// The inbound query structure could not be understood.
    InvalidQuery(String),
    /// A path began with the stream prefix but named no usable target.
    MissingTailTarget,
    /// A relation name contained a character outside the allowed set;
    /// carries the rejected name.
    InvalidTailTarget(String),
    /// A query path referenced a fingerprint that was never inserted into
    /// the query cache; carries the unresolved fingerprint.
    UnknownFingerprint(String),
    /// A path matched no known format; carries the whole path.
    UnknownPath(String),
    /// The datasource settings could not be read.
    InvalidDatasourceSettings(String),
    /// The request carried no datasource at all.
    MissingDatasource,
    /// The database connection failed.
    Connection(String),
    /// The channel identifier was rejected by the transport.
    CreatingChannel(String),
    /// A row value did not decode as its column's declared type.
    Data(String),
}

} // verus!
