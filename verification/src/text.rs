//! Character-level helpers for the path codec: exact string comparison and
//! splitting a path on its `/` delimiters.

use vstd::prelude::*;

verus! {

/// Compare two strings character by character.
pub fn str_eq(a: &str, b: &str) -> (r: bool)
    ensures
        r == (a@ == b@),
{
    let na = a.unicode_len();
    let nb = b.unicode_len();
    if na != nb {
        return false;
    }
    let mut i: usize = 0;
    while i < na
        invariant
            i <= na,
            na == a@.len(),
            na == b@.len(),
            forall|k: int| 0 <= k < i ==> a@[k] == b@[k],
        decreases na - i,
    {
        if a.get_char(i) != b.get_char(i) {
            return false;
        }
        i += 1;
    }
    proof {
        assert(a@ =~= b@);
    }
    true
}

/// The index of the first `/` in `s`, or `s.len()` when `s` holds none.
pub open spec fn first_slash(s: Seq<char>) -> int
    decreases s.len(),
{
    if s.len() == 0 {
        0
    } else if s[0] == '/' {
        0
    } else {
        1 + first_slash(s.drop_first())
    }
}

/// What `first_slash` returns: an index within bounds, pointing at a `/`
/// unless the string holds none, with no `/` anywhere before it.
pub proof fn lemma_first_slash(s: Seq<char>)
    ensures
        0 <= first_slash(s) <= s.len(),
        first_slash(s) < s.len() ==> s[first_slash(s)] == '/',
        forall|k: int| 0 <= k < first_slash(s) ==> s[k] != '/',
    decreases s.len(),
{
    if s.len() == 0 {
    } else if s[0] == '/' {
    } else {
        lemma_first_slash(s.drop_first());
        assert forall|k: int| 0 <= k < first_slash(s) implies s[k] != '/' by {
            if k > 0 {
                assert(s.drop_first()[k - 1] != '/');
            }
        }
    }
}

/// `first_slash` finds exactly the position `i` when `s[i]` is a `/` that no
/// earlier character matches.
pub proof fn lemma_first_slash_at(s: Seq<char>, i: int)
    requires
        0 <= i < s.len(),
        s[i] == '/',
        forall|k: int| 0 <= k < i ==> s[k] != '/',
    ensures
        first_slash(s) == i,
{
    lemma_first_slash(s);
    let f = first_slash(s);
    if f < i {
        assert(s[f] != '/');
        assert(false);
    }
    if f > i {
        assert(s[i] != '/');
        assert(false);
    }
}

/// A string without `/` makes `first_slash` run to its end.
pub proof fn lemma_first_slash_none(s: Seq<char>)
    requires
        forall|k: int| 0 <= k < s.len() ==> s[k] != '/',
    ensures
        first_slash(s) == s.len(),
{
    lemma_first_slash(s);
    let f = first_slash(s);
    if f < s.len() {
        assert(s[f] != '/');
        assert(false);
    }
}

/// Split `s` on `/` into at most three segments, like splitting with a limit
/// of three: the third segment keeps any further delimiters verbatim.
pub open spec fn splitn3(s: Seq<char>) -> Seq<Seq<char>> {
    let i = first_slash(s);
    if i == s.len() {
        seq![s]
    } else {
        let rest = s.skip(i + 1);
        let j = first_slash(rest);
        if j == rest.len() {
            seq![s.take(i), rest]
        } else {
            seq![s.take(i), rest.take(j), rest.skip(j + 1)]
        }
    }
}

/// Find the first `/` of `s`, returning its length when there is none.
pub fn find_slash(s: &str) -> (i: usize)
    ensures
        i as int == first_slash(s@),
        i <= s@.len(),
{
    let n = s.unicode_len();
    let mut i: usize = 0;
    while i < n
        invariant
            i <= n,
            n == s@.len(),
            forall|k: int| 0 <= k < i ==> s@[k] != '/',
        decreases n - i,
    {
        if s.get_char(i) == '/' {
            proof {
                lemma_first_slash_at(s@, i as int);
            }
            return i;
        }
        i += 1;
    }
    proof {
        lemma_first_slash_none(s@);
    }
    n
}

} // verus!
