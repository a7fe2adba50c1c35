//! Internal representations of the targets a caller can follow: a named
//! relation or the output of a select statement.

use vstd::prelude::*;

use crate::cache::QueryCache;
use crate::error::Error;
use crate::path::QueryId;
use crate::text::{find_slash, splitn3, str_eq};

verus! {

/// The characters allowed in a relation name: ASCII alphanumerics, `.` and
/// `_`. The restriction keeps a name safe to interpolate into generated SQL
/// and into channel paths (in particular, a name can never contain `/`).
pub open spec fn is_source_char(c: char) -> bool {
    (48 <= c as u32 && c as u32 <= 57)  // '0' ..= '9'
    || (65 <= c as u32 && c as u32 <= 90)  // 'A' ..= 'Z'
    || (97 <= c as u32 && c as u32 <= 122)  // 'a' ..= 'z'
    || c == '.' || c == '_'
}

/// Every character of `s` is allowed in a relation name.
pub open spec fn all_source_chars(s: Seq<char>) -> bool {
    forall|i: int| 0 <= i < s.len() ==> is_source_char(#[trigger] s[i])
}

/// The name of a source the user wishes to tail.
///
/// This is a thin newtype wrapper around a string that
/// just does some very basic validation on creation.
#[derive(Clone, Debug, Hash, PartialEq, Eq)]
pub struct SourceName {
    name: String,
}

impl View for SourceName {
    type V = Seq<char>;

    closed spec fn view(&self) -> Seq<char> {
        self.name@
    }
}

impl SourceName {
    /// A source name is well formed when it only holds allowed characters.
    /// Construction through [`SourceName::new`] establishes this.
    pub open spec fn wf(&self) -> bool {
        all_source_chars(self@)
    }

    /// Validate `s` as a relation name. Succeeds exactly when every
    /// character of `s` is an ASCII alphanumeric, `.` or `_`; otherwise the
    /// rejected name is reported as an invalid tail target.
    pub fn new(s: &str) -> (r: Result<Self, Error>)
        ensures
            match r {
                Ok(name) => name@ == s@ && name.wf(),
                Err(e) => !all_source_chars(s@) && (e matches Error::InvalidTailTarget(t)
                    && t@ == s@),
            },
    {
        let n = s.unicode_len();
        let mut i: usize = 0;
        while i < n
            invariant
                i <= n,
                n == s@.len(),
                forall|k: int| 0 <= k < i ==> is_source_char(#[trigger] s@[k]),
            decreases n - i,
        {
            let c = s.get_char(i);
            let u = c as u32;
            let allowed = (48 <= u && u <= 57) || (65 <= u && u <= 90) || (97 <= u && u <= 122)
                || c == '.' || c == '_';
            if !allowed {
                return Err(Error::InvalidTailTarget(s.to_owned()));
            }
            i += 1;
        }
        Ok(SourceName { name: s.to_owned() })
    }

    /// Get the inner source name as a `&str`.
    pub fn as_str(&self) -> (r: &str)
        ensures
            r@ == self@,
    {
        self.name.as_str()
    }
}

impl core::str::FromStr for SourceName {
    type Err = Error;

    fn from_str(s: &str) -> Result<Self, Error> {
        SourceName::new(s)
    }
}

/// A select statement that the user wishes to tail.
///
/// This is a thin newtype wrapper around a string that
/// performs no validation: the text is opaque, untrusted input.
#[derive(Clone, Debug, Hash, PartialEq, Eq)]
pub struct SelectStatement {
    statement: String,
}

impl View for SelectStatement {
    type V = Seq<char>;

    closed spec fn view(&self) -> Seq<char> {
        self.statement@
    }
}

impl SelectStatement {
    /// Wrap raw query text.
    pub fn new(s: &str) -> (r: Self)
        ensures
            r@ == s@,
    {
        SelectStatement { statement: s.to_owned() }
    }

    /// Get the inner SQL statement as a `&str`.
    pub fn as_str(&self) -> (r: &str)
        ensures
            r@ == self@,
    {
        self.statement.as_str()
    }
}

impl core::str::FromStr for SelectStatement {
    type Err = Error;

    fn from_str(s: &str) -> Result<Self, Error> {
        Ok(SelectStatement::new(s))
    }
}

/// The target of a `TAIL` query.
#[derive(Clone, Debug, Hash, PartialEq, Eq)]
pub enum TailTarget {
    /// Tail an existing relation (source, table or view).
    Relation { name: SourceName },
    /// Tail the output of a SELECT statement.
    Select { statement: SelectStatement },
}

impl TailTarget {
    /// The SQL text that opens a changefeed for this target. The changefeed
    /// is opened with `SNAPSHOT = false` on purpose: initial data is always
    /// delivered separately, per subscriber, so a snapshot here would
    /// double-deliver the initial rows.
    pub open spec fn tail_sql_spec(&self) -> Seq<char> {
        match self {
            TailTarget::Relation { name } => "TAIL "@ + name@ + " WITH (SNAPSHOT = false)"@,
            TailTarget::Select { statement } => "TAIL ("@ + statement@
                + ") WITH (SNAPSHOT = false)"@,
        }
    }

    /// Build the `TAIL` statement that opens this target's changefeed,
    /// without an initial snapshot.
    pub fn tail_sql(&self) -> (r: String)
        ensures
            r@ == self.tail_sql_spec(),
    {
        let mut q = String::new();
        match self {
            TailTarget::Relation { name } => {
                q.append("TAIL ");
                q.append(name.as_str());
                q.append(" WITH (SNAPSHOT = false)");
            },
            TailTarget::Select { statement } => {
                q.append("TAIL (");
                q.append(statement.as_str());
                q.append(") WITH (SNAPSHOT = false)");
            },
        }
        q
    }

    /// The SQL text that reads this target's current rows in full.
    pub open spec fn select_all_sql_spec(&self) -> Seq<char> {
        match self {
            TailTarget::Relation { name } => "SELECT * FROM "@ + name@,
            TailTarget::Select { statement } => statement@,
        }
    }

    /// Build the statement that fetches the 'initial data' of a stream: a
    /// one-time full read of the target, independent of the changefeed.
    pub fn select_all_sql(&self) -> (r: String)
        ensures
            r@ == self.select_all_sql_spec(),
    {
        match self {
            TailTarget::Relation { name } => {
                let mut q = String::new();
                q.append("SELECT * FROM ");
                q.append(name.as_str());
                q
            },
            TailTarget::Select { statement } => {
                let s: &str = statement.as_str();
                s.to_owned()
            },
        }
    }
}

/// The query a user wishes to run.
#[derive(Clone, Debug, Hash, PartialEq, Eq)]
pub enum Query {
    /// Tail the output of a relation.
    Tail(TailTarget),
}

/// What decoding a path means, at the level of character sequences: split
/// the path into `kind/subkind/payload`, demand the `tail` kind, then either
/// re-validate a relation name or resolve a fingerprint through the cache.
/// The exec decoder, [`Query::try_from_path`], returns exactly this.
pub enum Decoded {
    /// A valid relation path carrying this name.
    Relation(Seq<char>),
    /// A query path whose fingerprint resolved to this statement text.
    Select(Seq<char>),
    /// The path did not begin with the `tail` kind.
    UnknownPath,
    /// The path began with `tail` but named no usable target.
    MissingTarget,
    /// A relation path whose name holds a disallowed character.
    InvalidName(Seq<char>),
    /// A query path whose fingerprint is absent from the cache.
    UnknownFingerprint(Seq<char>),
}

/// Decode a path against a cache of fingerprinted statements.
pub open spec fn decode_path_spec(s: Seq<char>, cache: Map<Seq<char>, Seq<char>>) -> Decoded {
    let segs = splitn3(s);
    if segs[0] != "tail"@ {
        Decoded::UnknownPath
    } else if segs.len() < 3 {
        Decoded::MissingTarget
    } else if segs[1] == "relation"@ {
        if all_source_chars(segs[2]) {
            Decoded::Relation(segs[2])
        } else {
            Decoded::InvalidName(segs[2])
        }
    } else if segs[1] == "select"@ {
        if cache.contains_key(segs[2]) {
            Decoded::Select(cache[segs[2]])
        } else {
            Decoded::UnknownFingerprint(segs[2])
        }
    } else {
        Decoded::MissingTarget
    }
}

/// The outcome `r` is exactly what decoding the path `p` against `cache`
/// gives: the right target on success, and the right error — carrying the
/// offending part of the path — on each failure.
pub open spec fn decode_matches(
    p: Seq<char>,
    cache: Map<Seq<char>, Seq<char>>,
    r: Result<Query, Error>,
) -> bool {
    match r {
        Ok(q) => match q {
            Query::Tail(TailTarget::Relation { name }) => decode_path_spec(p, cache)
                == Decoded::Relation(name@) && name.wf(),
            Query::Tail(TailTarget::Select { statement }) => decode_path_spec(p, cache)
                == Decoded::Select(statement@),
        },
        Err(e) => match e {
            Error::UnknownPath(s) => decode_path_spec(p, cache) == Decoded::UnknownPath && s@
                == p,
            Error::MissingTailTarget => decode_path_spec(p, cache) == Decoded::MissingTarget,
            Error::InvalidTailTarget(t) => decode_path_spec(p, cache) == Decoded::InvalidName(
                t@,
            ),
            Error::UnknownFingerprint(f) => decode_path_spec(p, cache)
                == Decoded::UnknownFingerprint(f@),
            _ => false,
        },
    }
}

impl Query {
    /// Access this query as `&TailTarget`. A query can take no other form
    /// for now, so this always succeeds; it returns a `Result` so that
    /// callers are ready for further query forms.
    pub fn as_tail(&self) -> (r: Result<&TailTarget, Error>)
        ensures
            match self {
                Query::Tail(target) => r matches Ok(t) && t == target,
            },
    {
        match self {
            Query::Tail(target) => Ok(target),
        }
    }

    /// Try to convert a path to a [`Query`], using the provided cache to
    /// look a query ID up if the path contains one.
    ///
    /// This fails if:
    /// - the path does not match a known format (`tail/relation/<name>` or
    ///   `tail/select/<query id>`);
    /// - the query ID in the 'select' form is not present in `queries`.
    ///
    /// The result is precisely [`decode_path_spec`] of the path and the
    /// cache: in particular a fingerprint that was never inserted fails with
    /// [`Error::UnknownFingerprint`], and never with anything else.
    pub fn try_from_path(p: &str, queries: &QueryCache) -> (r: Result<Query, Error>)
        requires
            queries.wf(),
        ensures
            decode_matches(p@, queries@, r),
    {
        let n = p.unicode_len();
        let i1 = find_slash(p);
        if i1 == n {
            // A single segment: the whole path.
            if str_eq(p, "tail") {
                return Err(Error::MissingTailTarget);
            } else {
                return Err(Error::UnknownPath(p.to_owned()));
            }
        }
        let seg1 = p.substring_char(0, i1);
        if !str_eq(seg1, "tail") {
            return Err(Error::UnknownPath(p.to_owned()));
        }
        let rest = p.substring_char(i1 + 1, n);
        let n2 = rest.unicode_len();
        let i2 = find_slash(rest);
        if i2 == n2 {
            // Two segments: a kind with no payload.
            return Err(Error::MissingTailTarget);
        }
        let seg2 = rest.substring_char(0, i2);
        let seg3 = rest.substring_char(i2 + 1, n2);
        if str_eq(seg2, "relation") {
            match SourceName::new(seg3) {
                Ok(name) => Ok(Query::Tail(TailTarget::Relation { name })),
                Err(e) => Err(e),
            }
        } else if str_eq(seg2, "select") {
            let id = QueryId::new(seg3.to_owned());
            match queries.lookup(&id) {
                Some(statement) => Ok(Query::Tail(TailTarget::Select { statement })),
                None => Err(Error::UnknownFingerprint(seg3.to_owned())),
            }
        } else {
            Err(Error::MissingTailTarget)
        }
    }
}

} // verus!
