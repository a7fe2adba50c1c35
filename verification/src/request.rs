//! The wire-side shapes of inbound requests, as they arrive from the
//! dashboard, and their conversion into the internal query types.

use vstd::prelude::*;

use crate::queries;

verus! {

/// The name of a source, as it appears in a request.
#[derive(Clone, Debug, Hash, PartialEq, Eq)]
pub struct SourceName(pub queries::SourceName);

/// A select statement, as it appears in a request.
#[derive(Clone, Debug, Hash, PartialEq, Eq)]
pub struct SelectStatement(pub queries::SelectStatement);

/// The target of a `TAIL` query, as it appears in a request.
#[derive(Clone, Debug, Hash, PartialEq, Eq)]
pub enum TailTarget {
    /// Tail an existing relation (source, table or view).
    Relation { name: SourceName },
    /// Tail the output of a SELECT statement.
    Select { statement: SelectStatement },
}

impl From<TailTarget> for queries::TailTarget {
    /// Unwrap the request shape into the internal target.
    fn from(t: TailTarget) -> (r: queries::TailTarget) {
        match t {
            TailTarget::Relation { name } => queries::TailTarget::Relation { name: name.0 },
            TailTarget::Select { statement } => queries::TailTarget::Select {
                statement: statement.0,
            },
        }
    }
}

impl vstd::std_specs::convert::FromSpecImpl<TailTarget> for queries::TailTarget {
    open spec fn obeys_from_spec() -> bool {
        true
    }

    open spec fn from_spec(t: TailTarget) -> Self {
        match t {
            TailTarget::Relation { name } => queries::TailTarget::Relation { name: name.0 },
            TailTarget::Select { statement } => queries::TailTarget::Select {
                statement: statement.0,
            },
        }
    }
}

/// The path field of a request: which handler the caller addresses.
#[derive(Clone, Debug, Hash, PartialEq, Eq)]
pub enum Path {
    /// Tail the output of a relation.
    Tail(TailTarget),
}

impl From<Path> for queries::Query {
    /// Unwrap the request shape into the internal query.
    fn from(p: Path) -> (r: queries::Query) {
        match p {
            Path::Tail(TailTarget::Relation { name }) => queries::Query::Tail(
                queries::TailTarget::Relation { name: name.0 },
            ),
            Path::Tail(TailTarget::Select { statement }) => queries::Query::Tail(
                queries::TailTarget::Select { statement: statement.0 },
            ),
        }
    }
}

impl vstd::std_specs::convert::FromSpecImpl<Path> for queries::Query {
    open spec fn obeys_from_spec() -> bool {
        true
    }

    open spec fn from_spec(p: Path) -> Self {
        match p {
            Path::Tail(TailTarget::Relation { name }) => queries::Query::Tail(
                queries::TailTarget::Relation { name: name.0 },
            ),
            Path::Tail(TailTarget::Select { statement }) => queries::Query::Tail(
                queries::TailTarget::Select { statement: statement.0 },
            ),
        }
    }
}

} // verus!
