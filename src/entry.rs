use vstd::prelude::*;

verus! {

/// An entry of a player's record that is unique per semantic key.
pub trait KeyedEntry: Sized {
    spec fn same_key(&self, other: &Self) -> bool;

    fn key_matches(&self, other: &Self) -> (r: bool)
        ensures
            r == self.same_key(other),
    ;

    /// Sharing a key is symmetric.
    proof fn lemma_same_key_symmetric(&self, other: &Self)
        ensures
            self.same_key(other) == other.same_key(self),
    ;
}

/// No two entries of `s` share a key.
pub open spec fn keys_unique<T: KeyedEntry>(s: Seq<T>) -> bool {
    forall|i: int, j: int| #![trigger s[i], s[j]] 0 <= i < s.len() && 0 <= j < s.len() && i != j ==> !s[i].same_key(&s[j])
}

/// `s` without the entries that share `e`'s key, order kept.
pub open spec fn without_key<T: KeyedEntry>(s: Seq<T>, e: T) -> Seq<T>
    decreases s.len(),
{
    if s.len() == 0 {
        s
    } else {
        let rest = without_key(s.drop_first(), e);
        if e.same_key(&s[0]) {
            rest
        } else {
            seq![s[0]] + rest
        }
    }
}

/// Replace-if-same-key, otherwise append: the entries with `e`'s key are
/// dropped and `e` goes to the end.
pub open spec fn upserted<T: KeyedEntry>(s: Seq<T>, e: T) -> Seq<T> {
    without_key(s, e).push(e)
}

/// Removes every entry of `list` with `entry`'s key, then appends `entry`.
pub fn upsert_entry<T: KeyedEntry>(list: &mut Vec<T>, entry: T)
    ensures
        final(list)@ == upserted(old(list)@, entry),
{
    let ghost orig = list@;
    let mut kept: Vec<T> = Vec::new();
    while list.len() > 0
        invariant
            kept@ + without_key(list@, entry) == without_key(orig, entry),
        decreases list@.len(),
    {
        let ghost before = list@;
        let x = list.remove(0);
        assert(list@ =~= before.drop_first());
        if !entry.key_matches(&x) {
            kept.push(x);
            assert(kept@ + without_key(list@, entry) =~= without_key(orig, entry));
        }
    }
    assert(without_key(list@, entry) =~= Seq::<T>::empty());
    assert(kept@ =~= without_key(orig, entry));
    kept.push(entry);
    *list = kept;
}

proof fn lemma_without_key_facts<T: KeyedEntry>(s: Seq<T>, e: T)
    ensures
        forall|k: int| 0 <= k < without_key(s, e).len() ==> s.contains(#[trigger] without_key(s, e)[k]),
        forall|k: int| 0 <= k < without_key(s, e).len() ==> !e.same_key(&#[trigger] without_key(s, e)[k]),
        keys_unique(s) ==> keys_unique(without_key(s, e)),
    decreases s.len(),
{
    if s.len() > 0 {
        let t = s.drop_first();
        lemma_without_key_facts(t, e);
        let w = without_key(s, e);
        let rest = without_key(t, e);
        if !e.same_key(&s[0]) {
            assert forall|k: int| 0 <= k < w.len() implies s.contains(#[trigger] w[k]) && !e.same_key(&w[k]) by {
                if k == 0 {
                    assert(s[0] == w[0]);
                } else {
                    assert(w[k] == rest[k - 1]);
                    assert(t.contains(rest[k - 1]));
                    let j = choose|j: int| 0 <= j < t.len() && t[j] == rest[k - 1];
                    assert(s[j + 1] == t[j]);
                }
            }
            if keys_unique(s) {
                assert(keys_unique(t)) by {
                    assert forall|i: int, j: int| #![trigger t[i], t[j]] 0 <= i < t.len() && 0 <= j < t.len() && i != j implies !t[i].same_key(&t[j]) by {
                        assert(t[i] == s[i + 1] && t[j] == s[j + 1]);
                    }
                }
                assert forall|i: int, j: int| #![trigger w[i], w[j]] 0 <= i < w.len() && 0 <= j < w.len() && i != j implies !w[i].same_key(&w[j]) by {
                    if i > 0 && j > 0 {
                        assert(w[i] == rest[i - 1] && w[j] == rest[j - 1]);
                    } else {
                        let k = if i == 0 { j } else { i };
                        assert(w[k] == rest[k - 1]);
                        assert(t.contains(rest[k - 1]));
                        let m = choose|m: int| 0 <= m < t.len() && t[m] == rest[k - 1];
                        assert(s[m + 1] == t[m]);
                        assert(!s[0].same_key(&s[m + 1]));
                        assert(!s[m + 1].same_key(&s[0]));
                    }
                }
            }
        } else {
            assert forall|k: int| 0 <= k < w.len() implies s.contains(#[trigger] w[k]) by {
                assert(t.contains(w[k]));
                let j = choose|j: int| 0 <= j < t.len() && t[j] == w[k];
                assert(s[j + 1] == t[j]);
            }
            if keys_unique(s) {
                assert forall|i: int, j: int| #![trigger t[i], t[j]] 0 <= i < t.len() && 0 <= j < t.len() && i != j implies !t[i].same_key(&t[j]) by {
                    assert(t[i] == s[i + 1] && t[j] == s[j + 1]);
                }
            }
        }
    }
}

/// An upsert keeps the entries' keys unique.
pub proof fn lemma_upsert_keeps_keys_unique<T: KeyedEntry>(s: Seq<T>, e: T)
    requires
        keys_unique(s),
    ensures
        keys_unique(upserted(s, e)),
{
    lemma_without_key_facts(s, e);
    let w = without_key(s, e);
    let u = upserted(s, e);
    assert forall|i: int, j: int| #![trigger u[i], u[j]] 0 <= i < u.len() && 0 <= j < u.len() && i != j implies !u[i].same_key(&u[j]) by {
        if i < w.len() && j < w.len() {
            assert(u[i] == w[i] && u[j] == w[j]);
        } else if i < w.len() {
            assert(u[i] == w[i] && u[j] == e);
            assert(!e.same_key(&w[i]));
            e.lemma_same_key_symmetric(&w[i]);
        } else {
            assert(u[j] == w[j] && u[i] == e);
            assert(!e.same_key(&w[j]));
        }
    }
}

} // verus!
