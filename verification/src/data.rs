//! The one-shot data path: serve a snapshot of a target as a typed frame,
//! record query text under its fingerprint for later streaming calls, and
//! tag the response with the channel a caller can upgrade to.

use vstd::prelude::*;

use crate::cache::QueryCache;
use crate::convert::{
    batch_convertible, converted_fields_ok, rows_to_frame, Frame, RowBatch,
};
use crate::error::Error;
use crate::path::{md5_hex, PathDisplay, QueryId};
use crate::queries::{Query, SelectStatement, TailTarget};

verus! {

/// An error returned when querying for data, tagged with the identifier of
/// the one request that produced it so that concurrent batched requests
/// cannot misattribute failures.
#[derive(Clone, Debug, PartialEq, Eq)]
pub struct QueryError {
    ref_id: String,
    source: Error,
}

impl QueryError {
    /// The identifier this error is tagged with.
    pub closed spec fn ref_id_spec(&self) -> Seq<char> {
        self.ref_id@
    }

    /// The failure this error carries.
    pub closed spec fn source_spec(&self) -> Error {
        self.source
    }

    /// Tag an error with its request identifier.
    pub fn new(ref_id: String, source: Error) -> (r: Self)
        ensures
            r.ref_id_spec() == ref_id@,
            r.source_spec() == source,
    {
        QueryError { ref_id, source }
    }

    /// The identifier of the request this error belongs to.
    pub fn ref_id(self) -> (r: String)
        ensures
            r@ == self.ref_id_spec(),
    {
        self.ref_id
    }

    /// The failure itself.
    pub fn source(&self) -> (r: &Error)
        ensures
            r == self.source_spec(),
    {
        &self.source
    }
}

/// The channel identifier under which streaming updates for `query` on the
/// datasource instance `uid` are served.
pub open spec fn channel_id_spec(uid: Seq<char>, query: Query) -> Seq<char> {
    "ds/"@ + uid + "/"@ + query.path_spec()
}

/// Build the channel identifier for `query` on datasource instance `uid`.
pub fn channel_id(uid: &str, query: &Query) -> (r: String)
    ensures
        r@ == channel_id_spec(uid@, *query),
{
    let mut s = String::new();
    s.append("ds/");
    s.append(uid);
    s.append("/");
    let p = query.to_path();
    s.append(p.as_str());
    s
}

/// Serve one data query: convert its snapshot batch into a frame, record a
/// select statement in the query cache under its fingerprint (the step that
/// later lets a streaming call resolve the fingerprint back to the text),
/// and tag the frame with its streaming channel.
///
/// The cache is written exactly when the target is a select statement and
/// the conversion succeeded; a relation target, or a failed conversion,
/// leaves it untouched.
pub fn query_data_single(
    query: &Query,
    uid: &str,
    batch: &RowBatch,
    sql_queries: &mut QueryCache,
) -> (r: Result<Frame, Error>)
    requires
        batch.wf(),
        old(sql_queries).wf(),
    ensures
        final(sql_queries).wf(),
        r is Ok <==> batch_convertible(*batch),
        match r {
            Ok(frame) => {
                &&& match query {
                    Query::Tail(TailTarget::Select { statement }) => final(sql_queries)@
                        == old(sql_queries)@.insert(md5_hex(statement@), statement@),
                    Query::Tail(TailTarget::Relation { .. }) => final(sql_queries)@ == old(
                        sql_queries,
                    )@,
                }
                &&& frame.wf()
                &&& frame.name@ == "tail"@
                &&& (frame.channel matches Some(c) && c@ == channel_id_spec(uid@, *query))
                &&& exists|now_micros: i64|
                    converted_fields_ok(*batch, now_micros, frame.fields@)
            },
            Err(e) => e matches Error::Data(_) && final(sql_queries)@ == old(sql_queries)@,
        },
{
    let mut frame = match rows_to_frame(batch) {
        Ok(f) => f,
        Err(e) => {
            return Err(e);
        },
    };
    match query {
        Query::Tail(TailTarget::Select { statement }) => {
            let query_id = QueryId::from_statement(statement);
            sql_queries.insert(query_id, SelectStatement::new(statement.as_str()));
        },
        Query::Tail(TailTarget::Relation { .. }) => {},
    }
    let channel = channel_id(uid, query);
    frame.set_channel(channel);
    Ok(frame)
}

} // verus!
