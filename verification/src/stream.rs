//! The streaming side of the gateway: the per-key registry that enforces
//! the central invariant — at most one upstream changefeed per
//! (datasource, target) key, fanned out to all subscribers — and the pure
//! planning steps of the subscribe and run calls.
//!
//! Initial data and live data travel through two different paths on
//! purpose: every subscriber fetches its own snapshot (the subscribe plan),
//! while the single shared changefeed is opened without a snapshot (the run
//! plan), so the two never overlap in content.

use vstd::prelude::*;

use crate::cache::QueryCache;
use crate::error::Error;
use crate::queries::{decode_matches, decode_path_spec, Decoded, Query, TailTarget};
use crate::text::str_eq;

verus! {

/// The set of keys whose changefeed is currently open, as an exec value:
/// a list of distinct keys.
pub struct StreamRegistry {
    open_keys: Vec<String>,
}

/// The set of keys a list of key strings stands for.
pub closed spec fn keys_set(keys: Seq<String>) -> Set<Seq<char>> {
    Set::new(|k: Seq<char>| exists|i: int| 0 <= i < keys.len() && (#[trigger] keys[i])@ == k)
}

impl View for StreamRegistry {
    type V = Set<Seq<char>>;

    closed spec fn view(&self) -> Set<Seq<char>> {
        keys_set(self.open_keys@)
    }
}

impl StreamRegistry {
    /// No key is listed twice.
    pub closed spec fn wf(&self) -> bool {
        forall|i: int, j: int|
            0 <= i < j < self.open_keys@.len() ==> (#[trigger] self.open_keys@[i])@
                != (#[trigger] self.open_keys@[j])@
    }

    /// A registry with no changefeed open.
    pub fn new() -> (r: Self)
        ensures
            r.wf(),
            r@ == Set::<Seq<char>>::empty(),
    {
        let r = StreamRegistry { open_keys: Vec::new() };
        proof {
            assert(r@ =~= Set::<Seq<char>>::empty());
        }
        r
    }

    /// Is the changefeed for `key` open?
    pub fn is_open(&self, key: &str) -> (r: bool)
        ensures
            r == self@.contains(key@),
    {
        let n = self.open_keys.len();
        let mut i: usize = 0;
        while i < n
            invariant
                i <= n,
                n == self.open_keys@.len(),
                forall|k: int| 0 <= k < i ==> (#[trigger] self.open_keys@[k])@ != key@,
            decreases n - i,
        {
            if str_eq(self.open_keys[i].as_str(), key) {
                return true;
            }
            i += 1;
        }
        proof {
            assert(!self@.contains(key@));
        }
        false
    }

    /// Atomically claim or join the changefeed for `key`: the result says
    /// whether the caller won the claim and must open the one upstream
    /// changefeed; a `false` means the feed is already running and the
    /// caller merely joins its fan-out. Either way the key is open
    /// afterwards.
    pub fn claim(&mut self, key: &str) -> (started: bool)
        requires
            old(self).wf(),
        ensures
            final(self).wf(),
            started == !old(self)@.contains(key@),
            final(self)@ == old(self)@.insert(key@),
    {
        let n = self.open_keys.len();
        let mut i: usize = 0;
        while i < n
            invariant
                i <= n,
                n == self.open_keys@.len(),
                self == old(self),
                self.wf(),
                forall|k: int| 0 <= k < i ==> (#[trigger] self.open_keys@[k])@ != key@,
            decreases n - i,
        {
            if str_eq(self.open_keys[i].as_str(), key) {
                proof {
                    assert(self@.contains(key@));
                    assert(self@ =~= old(self)@.insert(key@));
                }
                return false;
            }
            i += 1;
        }
        let ghost old_keys = self.open_keys@;
        self.open_keys.push(key.to_owned());
        proof {
            let m = self.open_keys@.len() - 1;
            assert(self.open_keys@[m]@ == key@);
            assert(forall|k: int| 0 <= k < m ==> self.open_keys@[k] == old_keys[k]);
            assert(!keys_set(old_keys).contains(key@));
            assert forall|k: Seq<char>| self@.contains(k) implies old(self)@.insert(
                key@,
            ).contains(k) by {
                let w = choose|w: int|
                    0 <= w < self.open_keys@.len() && (#[trigger] self.open_keys@[w])@ == k;
                if w < m {
                    assert(old_keys[w]@ == k);
                }
            }
            assert forall|k: Seq<char>| old(self)@.insert(key@).contains(k) implies self@.contains(
                k,
            ) by {
                if k == key@ {
                    assert(self.open_keys@[m]@ == k);
                } else {
                    let w = choose|w: int|
                        0 <= w < old_keys.len() && (#[trigger] old_keys[w])@ == k;
                    assert(self.open_keys@[w]@ == k);
                }
            }
            assert(self@ =~= old(self)@.insert(key@));
        }
        true
    }

    /// Close the changefeed for `key`: any future activity on that key
    /// must start over with a fresh claim.
    pub fn release(&mut self, key: &str)
        requires
            old(self).wf(),
        ensures
            final(self).wf(),
            final(self)@ == old(self)@.remove(key@),
    {
        let n = self.open_keys.len();
        let mut i: usize = 0;
        while i < n
            invariant
                i <= n,
                n == self.open_keys@.len(),
                self == old(self),
                self.wf(),
                forall|k: int| 0 <= k < i ==> (#[trigger] self.open_keys@[k])@ != key@,
            decreases n - i,
        {
            if str_eq(self.open_keys[i].as_str(), key) {
                let ghost old_keys = self.open_keys@;
                let _ = self.open_keys.swap_remove(i);
                proof {
                    let m = old_keys.len() - 1;
                    assert forall|k: Seq<char>| self@.contains(k) implies old(self)@.remove(
                        key@,
                    ).contains(k) by {
                        let w = choose|w: int|
                            0 <= w < self.open_keys@.len() && (#[trigger] self.open_keys@[w])@
                                == k;
                        if w == i {
                            assert(old_keys[m]@ == k);
                        } else {
                            assert(old_keys[w]@ == k);
                        }
                    }
                    assert forall|k: Seq<char>|
                        old(self)@.remove(key@).contains(k) implies self@.contains(k) by {
                        let w = choose|w: int|
                            0 <= w < old_keys.len() && (#[trigger] old_keys[w])@ == k;
                        if w == m {
                            if i < m {
                                assert(self.open_keys@[i as int]@ == k);
                            }
                        } else if w != i {
                            assert(self.open_keys@[w]@ == k);
                        }
                    }
                    assert(self@ =~= old(self)@.remove(key@));
                    assert forall|p: int, q: int|
                        0 <= p < q < self.open_keys@.len() implies (
                    #[trigger] self.open_keys@[p])@ != (#[trigger] self.open_keys@[q])@ by {
                        if p == i {
                            assert(old_keys[m]@ != old_keys[q]@);
                        } else if q == i {
                            assert(old_keys[p]@ != old_keys[m]@);
                        } else {
                            assert(old_keys[p]@ != old_keys[q]@);
                        }
                    }
                }
                return ;
            }
            i += 1;
        }
        proof {
            assert(!self@.contains(key@));
            assert(self@ =~= old(self)@.remove(key@));
        }
    }
}

/// Plan one subscribe call: decode the channel path and produce the SQL of
/// the subscriber's own snapshot read. A subscribe never opens a
/// changefeed — it does not touch the registry at all — and every
/// subscriber gets its own independent snapshot statement.
pub fn subscribe_plan(path: &str, sql_queries: &QueryCache) -> (r: Result<(Query, String), Error>)
    requires
        sql_queries.wf(),
    ensures
        match r {
            Ok((q, sql)) => decode_matches(path@, sql_queries@, Ok(q)) && match q {
                Query::Tail(t) => sql@ == t.select_all_sql_spec(),
            },
            Err(e) => decode_matches(path@, sql_queries@, Err(e)),
        },
{
    let query = match Query::try_from_path(path, sql_queries) {
        Ok(q) => q,
        Err(e) => {
            return Err(e);
        },
    };
    let sql = match &query {
        Query::Tail(target) => target.select_all_sql(),
    };
    Ok((query, sql))
}

/// Plan one run call: decode the channel path, then claim the changefeed
/// for `key`. Exactly the caller that wins the claim receives the `TAIL`
/// statement (built without a snapshot — initial data travels through the
/// subscribe path instead); a caller that finds the feed already running
/// gets the already-running error and the registry is left as it was.
pub fn run_stream_plan(
    path: &str,
    key: &str,
    sql_queries: &QueryCache,
    registry: &mut StreamRegistry,
) -> (r: Result<(Query, String), Error>)
    requires
        sql_queries.wf(),
        old(registry).wf(),
    ensures
        final(registry).wf(),
        match r {
            Ok((q, sql)) => {
                &&& decode_matches(path@, sql_queries@, Ok(q))
                &&& match q {
                    Query::Tail(t) => sql@ == t.tail_sql_spec(),
                }
                &&& !old(registry)@.contains(key@)
                &&& final(registry)@ == old(registry)@.insert(key@)
            },
            Err(e) => final(registry)@ == old(registry)@ && match e {
                Error::StreamAlreadyRunning => old(registry)@.contains(key@) && (decode_path_spec(
                    path@,
                    sql_queries@,
                ) is Relation || decode_path_spec(path@, sql_queries@) is Select),
                _ => decode_matches(path@, sql_queries@, Err(e)),
            },
        },
{
    let query = match Query::try_from_path(path, sql_queries) {
        Ok(q) => q,
        Err(e) => {
            return Err(e);
        },
    };
    if !registry.claim(key) {
        proof {
            assert(old(registry)@.insert(key@) =~= old(registry)@);
        }
        return Err(Error::StreamAlreadyRunning);
    }
    let sql = match &query {
        Query::Tail(target) => target.tail_sql(),
    };
    Ok((query, sql))
}

/// Law: of two claims of the same key with nothing released in between, at
/// most one starts a changefeed. The first claim's outcome is
/// `!before.contains(key)` and it leaves the key open; the second claim
/// therefore always joins — so two subscribers racing on one target open
/// at most one upstream connection between them.
pub proof fn lemma_at_most_one_changefeed(
    before: Set<Seq<char>>,
    key: Seq<char>,
    first_started: bool,
    second_started: bool,
)
    requires
        first_started == !before.contains(key),
        second_started == !before.insert(key).contains(key),
    ensures
        !second_started,
        !(first_started && second_started),
{
}

} // verus!
