//! The query cache: a mapping from query fingerprint to the original query
//! text, populated the first time a query target is served and read back
//! when a later streaming call arrives bearing only the fingerprint.
//!
//! Entries are never evicted: the cache lives for the process lifetime and
//! unbounded growth is an accepted limitation of the base design.

use vstd::map::*;
use vstd::prelude::*;

use crate::path::QueryId;
use crate::text::str_eq;
use crate::queries::SelectStatement;

verus! {

/// SQL queries that have previously been served, keyed by their
/// fingerprint. Abstractly this is a map from fingerprint to query text;
/// concretely it is an association list whose keys are unique.
pub struct QueryCache {
    entries: Vec<(QueryId, SelectStatement)>,
}

impl View for QueryCache {
    type V = Map<Seq<char>, Seq<char>>;

    closed spec fn view(&self) -> Map<Seq<char>, Seq<char>> {
        entries_view(self.entries@)
    }
}

impl QueryCache {
    /// No two entries share a fingerprint.
    pub closed spec fn wf(&self) -> bool {
        forall|i: int, j: int|
            0 <= i < j < self.entries@.len() ==> #[trigger] self.entries@[i].0@
                != #[trigger] self.entries@[j].0@
    }

    /// An empty cache.
    pub fn new() -> (r: Self)
        ensures
            r.wf(),
            r@ == Map::<Seq<char>, Seq<char>>::empty(),
    {
        let c = QueryCache { entries: Vec::new() };
        proof {
            assert(c@ =~= Map::<Seq<char>, Seq<char>>::empty());
        }
        c
    }

    /// Look the fingerprint `id` up, returning the cached query text.
    pub fn lookup(&self, id: &QueryId) -> (r: Option<SelectStatement>)
        requires
            self.wf(),
        ensures
            match r {
                Some(statement) => self@.contains_key(id@) && statement@ == self@[id@],
                None => !self@.contains_key(id@),
            },
    {
        let n = self.entries.len();
        let mut i: usize = 0;
        while i < n
            invariant
                i <= n,
                n == self.entries@.len(),
                self.wf(),
                forall|k: int| 0 <= k < i ==> #[trigger] self.entries@[k].0@ != id@,
            decreases n - i,
        {
            if str_eq(self.entries[i].0.as_str(), id.as_str()) {
                let statement = SelectStatement::new(self.entries[i].1.as_str());
                proof {
                    let w = choose|w: int|
                        0 <= w < self.entries@.len() && #[trigger] self.entries@[w].0@ == id@;
                    assert(self.entries@[i as int].0@ == id@);
                    assert(w == i);
                }
                return Some(statement);
            }
            i += 1;
        }
        proof {
            assert(!self@.contains_key(id@));
        }
        None
    }

    /// Insert the query text for a fingerprint. Re-inserting an existing
    /// fingerprint silently overwrites the previous text: fingerprint
    /// collisions across distinct texts are out of scope, so the only way
    /// this happens in practice is with the same text again.
    pub fn insert(&mut self, id: QueryId, statement: SelectStatement)
        requires
            old(self).wf(),
        ensures
            final(self).wf(),
            final(self)@ == old(self)@.insert(id@, statement@),
    {
        let ghost idv = id@;
        let ghost stv = statement@;
        let n = self.entries.len();
        let mut i: usize = 0;
        while i < n
            invariant
                i <= n,
                n == self.entries@.len(),
                self.wf(),
                self == old(self),
                forall|k: int| 0 <= k < i ==> #[trigger] self.entries@[k].0@ != idv,
                id@ == idv,
                statement@ == stv,
            decreases n - i,
        {
            if str_eq(self.entries[i].0.as_str(), id.as_str()) {
                let ghost old_entries = self.entries@;
                self.entries[i] = (id, statement);
                proof {
                    lemma_view_after_set(old_entries, self.entries@, i as int);
                    lemma_view_matches_insert(old_entries, self.entries@, i as int, idv, stv);
                    assert(self@ =~= old(self)@.insert(idv, stv));
                }
                return ;
            }
            i += 1;
        }
        let ghost old_entries = self.entries@;
        self.entries.push((id, statement));
        proof {
            let m = self.entries@.len() - 1;
            assert(forall|k: int| 0 <= k < m ==> self.entries@[k] == old_entries[k]);
            assert(self.entries@[m].0@ == idv);
            assert forall|p: int, q: int| 0 <= p < q < self.entries@.len() implies #[trigger] self
                .entries@[p].0@ != #[trigger] self.entries@[q].0@ by {
                if q < m {
                    assert(old_entries[p].0@ != old_entries[q].0@);
                } else {
                    assert(self.entries@[p].0@ == old_entries[p].0@);
                    assert(old_entries[p].0@ != idv);
                }
            }
            lemma_view_matches_insert(old_entries, self.entries@, m, idv, stv);
            assert(self@ =~= old(self)@.insert(idv, stv));
        }
    }
}

/// The map view of an association list, spelled out so that the lemmas below
/// can speak about views before and after an update.
pub closed spec fn entries_view(entries: Seq<(QueryId, SelectStatement)>) -> Map<
    Seq<char>,
    Seq<char>,
> {
    Map::new(
        |k: Seq<char>| exists|i: int| 0 <= i < entries.len() && #[trigger] entries[i].0@ == k,
        |k: Seq<char>|
            {
                let i = choose|i: int| 0 <= i < entries.len() && #[trigger] entries[i].0@ == k;
                entries[i].1@
            },
    )
}

/// Binding the key at position `i` anew (by replacing that entry, or by
/// appending a fresh entry for a key no earlier entry holds) turns the map
/// view into the old view with that one binding inserted.
proof fn lemma_view_matches_insert(
    old_entries: Seq<(QueryId, SelectStatement)>,
    new_entries: Seq<(QueryId, SelectStatement)>,
    i: int,
    key: Seq<char>,
    value: Seq<char>,
)
    requires
        0 <= i < new_entries.len(),
        new_entries.len() == old_entries.len() || (new_entries.len() == old_entries.len() + 1 && i
            == old_entries.len()),
        forall|k: int|
            0 <= k < new_entries.len() && k != i ==> #[trigger] new_entries[k]
                == old_entries[k],
        new_entries[i].0@ == key,
        new_entries[i].1@ == value,
        i < old_entries.len() ==> old_entries[i].0@ == key,
        forall|p: int, q: int|
            0 <= p < q < old_entries.len() ==> #[trigger] old_entries[p].0@
                != #[trigger] old_entries[q].0@,
        forall|p: int, q: int|
            0 <= p < q < new_entries.len() ==> #[trigger] new_entries[p].0@
                != #[trigger] new_entries[q].0@,
    ensures
        entries_view(new_entries) == entries_view(old_entries).insert(key, value),
{
    let new_view = entries_view(new_entries);
    let ins = entries_view(old_entries).insert(key, value);
    assert_maps_equal!(new_view, ins, k => {
        if new_view.dom().contains(k) {
            let w = choose|w: int|
                0 <= w < new_entries.len() && #[trigger] new_entries[w].0@ == k;
            if w != i {
                assert(old_entries[w].0@ == k);
            }
        }
        if ins.dom().contains(k) {
            if k == key {
                assert(new_entries[i].0@ == k);
                let w = choose|w: int|
                    0 <= w < new_entries.len() && #[trigger] new_entries[w].0@ == k;
                assert(w == i);
            } else {
                let w = choose|w: int|
                    0 <= w < old_entries.len() && #[trigger] old_entries[w].0@ == k;
                assert(w != i);
                assert(new_entries[w].0@ == k);
                let w2 = choose|w2: int|
                    0 <= w2 < new_entries.len() && #[trigger] new_entries[w2].0@ == k;
                assert(w2 == w);
            }
        }
    });
}

/// After replacing the entry at `i` with one carrying the same key order
/// constraints, the association list still has unique keys and its map view
/// is the old view with that key bound anew.
proof fn lemma_view_after_set(
    old_entries: Seq<(QueryId, SelectStatement)>,
    new_entries: Seq<(QueryId, SelectStatement)>,
    i: int,
)
    requires
        0 <= i < old_entries.len(),
        new_entries.len() == old_entries.len(),
        forall|k: int|
            0 <= k < old_entries.len() && k != i ==> #[trigger] new_entries[k] == old_entries[k],
        new_entries[i].0@ == old_entries[i].0@,
        forall|p: int, q: int|
            0 <= p < q < old_entries.len() ==> #[trigger] old_entries[p].0@
                != #[trigger] old_entries[q].0@,
    ensures
        forall|p: int, q: int|
            0 <= p < q < new_entries.len() ==> #[trigger] new_entries[p].0@
                != #[trigger] new_entries[q].0@,
{
    assert forall|p: int, q: int| 0 <= p < q < new_entries.len() implies #[trigger] new_entries[p].0@
        != #[trigger] new_entries[q].0@ by {
        assert(new_entries[p].0@ == old_entries[p].0@);
        assert(new_entries[q].0@ == old_entries[q].0@);
    }
}

} // verus!
