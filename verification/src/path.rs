//! Describes how targets should be represented in the 'paths' of live
//! streaming channels.
//!
//! Channel paths can only contain a limited set of characters, so a target
//! never embeds raw query text: a query is addressed by the fingerprint of
//! its text, a short, stable, transport-safe identifier.

use vstd::prelude::*;

use crate::queries::{
    decode_path_spec, Decoded, Query, SelectStatement, SourceName, TailTarget,
};
use crate::text::{first_slash, lemma_first_slash_at, splitn3};

verus! {

/// The fingerprint of query text: the md5 digest of its UTF-8 bytes,
/// written as lowercase hex digits. The digest itself is a function of the
/// text alone, so the fingerprint of a statement is the same in every
/// process and on every run.
pub uninterp spec fn md5_hex(text: Seq<char>) -> Seq<char>;

/// `c` is a lowercase hex digit.
pub open spec fn is_hex_char(c: char) -> bool {
    (48 <= c as u32 && c as u32 <= 57)  // '0' ..= '9'
    || (97 <= c as u32 && c as u32 <= 102)  // 'a' ..= 'f'
}

/// Relies on md5::compute and on the md5 crate's LowerHex rendering of a
/// digest: the result is the md5 digest of the UTF-8 bytes of `text`,
/// written as exactly 32 lowercase hex digits.
#[verifier::external_body]
fn md5_hex_digest(text: &str) -> (r: String)
    ensures
        r@ == md5_hex(text@),
        r@.len() == 32,
        forall|i: int| 0 <= i < r@.len() ==> is_hex_char(#[trigger] r@[i]),
{
    format!("{:x}", md5::compute(text))
}

/// The ID of a query statement.
///
/// This is used as the key in a map from query ID -> statement and is safe
/// to be included in a channel path, providing clients with a way of
/// requesting previous statements simply by query ID.
///
/// This is required when we upgrade from a data query to a stream query and
/// the only thing we can use to link the two is the channel.
///
/// Internally, this is just an md5 hash of the original SQL query.
#[derive(Clone, Debug, Hash, PartialEq, Eq)]
pub struct QueryId(String);

impl View for QueryId {
    type V = Seq<char>;

    closed spec fn view(&self) -> Seq<char> {
        self.0@
    }
}

impl QueryId {
    /// Create a `QueryId` from a string containing a pre-computed hash.
    pub fn new(s: String) -> (r: Self)
        ensures
            r@ == s@,
    {
        QueryId(s)
    }

    /// Create a `QueryId` from a SQL statement.
    pub fn from_statement(statement: &SelectStatement) -> (r: Self)
        ensures
            r@ == md5_hex(statement@),
            r@.len() == 32,
            forall|i: int| 0 <= i < r@.len() ==> is_hex_char(#[trigger] r@[i]),
    {
        QueryId(md5_hex_digest(statement.as_str()))
    }

    /// Access the inner `QueryId` as a string.
    ///
    /// Note that this gets the md5 hash, not the original SQL query.
    pub fn into_inner(self) -> (r: String)
        ensures
            r@ == self@,
    {
        self.0
    }

    /// Access the inner `QueryId` as a `&str`.
    ///
    /// Note that this gets the md5 hash, not the original SQL query.
    pub fn as_str(&self) -> (r: &str)
        ensures
            r@ == self@,
    {
        self.0.as_str()
    }
}

/// Trait describing how a type should be serialized to a channel's path.
///
/// Channel paths can only contain alphanumerics plus a few other
/// characters, so some types may need to encode their data differently.
pub trait PathDisplay {
    /// The path form of `self`.
    spec fn path_spec(&self) -> Seq<char>;

    /// Append the path form of `self` to `f`, similarly to a Display
    /// implementation, but ensuring the formatted string is path-safe.
    fn fmt_path(&self, f: &mut String)
        ensures
            final(f)@ == old(f)@ + self.path_spec(),
    ;

    /// Create a new string containing the path-representation of `self`.
    fn to_path(&self) -> (s: String)
        ensures
            s@ == self.path_spec(),
    {
        let mut s = String::new();
        self.fmt_path(&mut s);
        proof {
            assert(s@ =~= self.path_spec());
        }
        s
    }
}

impl PathDisplay for SourceName {
    open spec fn path_spec(&self) -> Seq<char> {
        self@
    }

    fn fmt_path(&self, f: &mut String) {
        f.append(self.as_str());
    }
}

impl PathDisplay for SelectStatement {
    open spec fn path_spec(&self) -> Seq<char> {
        md5_hex(self@)
    }

    fn fmt_path(&self, f: &mut String) {
        let id = QueryId::from_statement(self);
        f.append(id.as_str());
    }
}

impl PathDisplay for TailTarget {
    open spec fn path_spec(&self) -> Seq<char> {
        match self {
            TailTarget::Relation { name } => "relation/"@ + name.path_spec(),
            TailTarget::Select { statement } => "select/"@ + statement.path_spec(),
        }
    }

    fn fmt_path(&self, f: &mut String) {
        match self {
            TailTarget::Relation { name } => {
                f.append("relation/");
                name.fmt_path(f);
            },
            TailTarget::Select { statement } => {
                f.append("select/");
                statement.fmt_path(f);
            },
        }
    }
}

impl PathDisplay for Query {
    open spec fn path_spec(&self) -> Seq<char> {
        match self {
            Query::Tail(target) => "tail/"@ + target.path_spec(),
        }
    }

    fn fmt_path(&self, f: &mut String) {
        f.append("tail/");
        match self {
            Query::Tail(target) => target.fmt_path(f),
        }
    }
}

/// A string of the shape `a/b/c`, where neither `a` nor `b` holds a `/`,
/// splits into exactly the segments `a`, `b` and `c` (the last of which may
/// itself hold further delimiters).
proof fn lemma_splitn3_segments(s: Seq<char>, a: Seq<char>, b: Seq<char>, c: Seq<char>)
    requires
        s == a + seq!['/'] + b + seq!['/'] + c,
        forall|k: int| 0 <= k < a.len() ==> a[k] != '/',
        forall|k: int| 0 <= k < b.len() ==> b[k] != '/',
    ensures
        splitn3(s) == seq![a, b, c],
{
    let la = a.len() as int;
    let lb = b.len() as int;
    assert(s[la] == '/');
    assert(forall|k: int| 0 <= k < la ==> s[k] == a[k] && s[k] != '/');
    lemma_first_slash_at(s, la);
    assert(s.take(la) =~= a);
    let rest = s.skip(la + 1);
    assert(rest =~= b + seq!['/'] + c);
    assert(rest[lb] == '/');
    assert(forall|k: int| 0 <= k < lb ==> rest[k] == b[k] && rest[k] != '/');
    lemma_first_slash_at(rest, lb);
    assert(rest.take(lb) =~= b);
    assert(rest.skip(lb + 1) =~= c);
    assert(first_slash(s) == la && la < s.len());
    assert(splitn3(s) =~= seq![a, b, c]);
}

/// Law: a relation target round-trips through its path unconditionally.
/// Encoding `Relation(name)` and decoding the result gives `Relation(name)`
/// back, whatever the query cache holds.
pub proof fn lemma_relation_path_round_trip(name: SourceName, cache: Map<Seq<char>, Seq<char>>)
    requires
        name.wf(),
    ensures
        decode_path_spec(Query::Tail(TailTarget::Relation { name }).path_spec(), cache)
            == Decoded::Relation(name@),
{
    let path = Query::Tail(TailTarget::Relation { name }).path_spec();
    reveal_strlit("tail/");
    reveal_strlit("relation/");
    reveal_strlit("tail");
    reveal_strlit("relation");
    reveal_strlit("select");
    assert(path =~= "tail"@ + seq!['/'] + "relation"@ + seq!['/'] + name@);
    lemma_splitn3_segments(path, "tail"@, "relation"@, name@);
}

/// Law: a query target round-trips through its path once its fingerprint is
/// cached. Inserting the statement under its fingerprint and decoding the
/// encoded path gives the original text back, byte for byte. (Without the
/// insertion the decode fails instead: see
/// [`lemma_unknown_fingerprint_fails`]. The asymmetry is deliberate: a
/// fingerprint is meaningless without a prior request in the same process.)
pub proof fn lemma_select_path_round_trip(
    statement: SelectStatement,
    cache: Map<Seq<char>, Seq<char>>,
)
    ensures
        decode_path_spec(
            Query::Tail(TailTarget::Select { statement }).path_spec(),
            cache.insert(md5_hex(statement@), statement@),
        ) == Decoded::Select(statement@),
{
    let path = Query::Tail(TailTarget::Select { statement }).path_spec();
    let fp = md5_hex(statement@);
    reveal_strlit("tail/");
    reveal_strlit("select/");
    reveal_strlit("tail");
    reveal_strlit("relation");
    reveal_strlit("select");
    assert(path =~= "tail"@ + seq!['/'] + "select"@ + seq!['/'] + fp);
    lemma_splitn3_segments(path, "tail"@, "select"@, fp);
    assert(cache.insert(fp, statement@).contains_key(fp));
    assert("select"@ != "relation"@) by {
        assert("select"@.len() != "relation"@.len());
    }
}

/// Law: decoding a query path whose fingerprint was never inserted fails
/// with the unknown-fingerprint error — it does not succeed, and it does not
/// fall back to any default.
pub proof fn lemma_unknown_fingerprint_fails(fp: Seq<char>, cache: Map<Seq<char>, Seq<char>>)
    requires
        !cache.contains_key(fp),
    ensures
        decode_path_spec("tail/"@ + ("select/"@ + fp), cache) == Decoded::UnknownFingerprint(fp),
{
    let path = "tail/"@ + ("select/"@ + fp);
    reveal_strlit("tail/");
    reveal_strlit("select/");
    reveal_strlit("tail");
    reveal_strlit("relation");
    reveal_strlit("select");
    assert(path =~= "tail"@ + seq!['/'] + "select"@ + seq!['/'] + fp);
    lemma_splitn3_segments(path, "tail"@, "select"@, fp);
    assert("select"@ != "relation"@) by {
        assert("select"@.len() != "relation"@.len());
    }
}

} // verus!
