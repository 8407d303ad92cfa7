//! Lists of key-value entries and the map they stand for: a later entry for a
//! key replaces an earlier one.

use vstd::prelude::*;

verus! {

/// A key-value entry, by the characters of its key and of its value.
pub type Entry = (Seq<char>, Seq<char>);

/// The entries of a list of string pairs.
pub open spec fn pair_views(s: Seq<(String, String)>) -> Seq<Entry> {
    s.map_values(|p: (String, String)| (p.0@, p.1@))
}

/// The map that a list of entries stands for, read from first to last.
pub open spec fn entries_map(s: Seq<Entry>) -> Map<Seq<char>, Seq<char>>
    decreases s.len(),
{
    if s.len() == 0 {
        Map::empty()
    } else {
        entries_map(s.drop_last()).insert(s.last().0, s.last().1)
    }
}

/// No key occurs twice in the list.
pub open spec fn unique_keys(s: Seq<Entry>) -> bool {
    forall|i: int, j: int| 0 <= i < s.len() && 0 <= j < s.len() && i != j ==> s[i].0 != s[j].0
}

/// The list holds an entry for the key.
pub open spec fn has_key(s: Seq<Entry>, k: Seq<char>) -> bool {
    exists|i: int| 0 <= i < s.len() && s[i].0 == k
}

/// A key is in the map exactly where the list has an entry for it.
pub proof fn lemma_entries_map_dom(s: Seq<Entry>, k: Seq<char>)
    ensures
        entries_map(s).contains_key(k) <==> has_key(s, k),
    decreases s.len(),
{
    if s.len() > 0 {
        lemma_entries_map_dom(s.drop_last(), k);
        if has_key(s.drop_last(), k) {
            let i = choose|i: int| 0 <= i < s.drop_last().len() && s.drop_last()[i].0 == k;
            assert(s[i].0 == k);
        }
        if has_key(s, k) && s.last().0 != k {
            let i = choose|i: int| 0 <= i < s.len() && s[i].0 == k;
            assert(i != s.len() - 1);
            assert(s.drop_last()[i].0 == k);
        }
        if s.last().0 == k {
            assert(s[s.len() - 1].0 == k);
        }
    }
}

/// With unique keys, the map gives each entry's key that entry's value.
pub proof fn lemma_entries_map_value(s: Seq<Entry>, i: int)
    requires
        unique_keys(s),
        0 <= i < s.len(),
    ensures
        entries_map(s).contains_key(s[i].0),
        entries_map(s)[s[i].0] == s[i].1,
    decreases s.len(),
{
    if i < s.len() - 1 {
        let t = s.drop_last();
        assert(unique_keys(t));
        lemma_entries_map_value(t, i);
        assert(t[i] == s[i]);
        assert(s.last().0 != s[i].0);
    }
}

/// With unique keys, the map has as many keys as the list has entries.
pub proof fn lemma_entries_map_len(s: Seq<Entry>)
    requires
        unique_keys(s),
    ensures
        entries_map(s).dom().finite(),
        entries_map(s).len() == s.len(),
    decreases s.len(),
{
    if s.len() > 0 {
        let t = s.drop_last();
        assert(unique_keys(t));
        lemma_entries_map_len(t);
        lemma_entries_map_dom(t, s.last().0);
        if has_key(t, s.last().0) {
            let i = choose|i: int| 0 <= i < t.len() && t[i].0 == s.last().0;
            assert(s[i].0 == s[s.len() - 1].0);
        }
    }
}

/// Replacing the value of the entry at `i` replaces the value of its key.
pub proof fn lemma_entries_map_update(s: Seq<Entry>, i: int, v: Seq<char>)
    requires
        unique_keys(s),
        0 <= i < s.len(),
    ensures
        unique_keys(s.update(i, (s[i].0, v))),
        entries_map(s.update(i, (s[i].0, v))) == entries_map(s).insert(s[i].0, v),
{
    let u = s.update(i, (s[i].0, v));
    let k = s[i].0;
    assert(unique_keys(u)) by {
        assert forall|a: int, b: int| 0 <= a < u.len() && 0 <= b < u.len() && a != b implies u[a].0
            != u[b].0 by {
            assert(u[a].0 == s[a].0);
            assert(u[b].0 == s[b].0);
        }
    }
    assert forall|key: Seq<char>| #[trigger]
        entries_map(u).contains_key(key) == entries_map(s).insert(k, v).contains_key(key) by {
        lemma_entries_map_dom(u, key);
        lemma_entries_map_dom(s, key);
        if has_key(u, key) {
            let j = choose|j: int| 0 <= j < u.len() && u[j].0 == key;
            assert(s[j].0 == key);
        }
        if has_key(s, key) {
            let j = choose|j: int| 0 <= j < s.len() && s[j].0 == key;
            assert(u[j].0 == key);
        }
    }
    assert forall|key: Seq<char>| #[trigger] entries_map(u).contains_key(key) implies entries_map(
        u,
    )[key] == entries_map(s).insert(k, v)[key] by {
        lemma_entries_map_dom(u, key);
        let j = choose|j: int| 0 <= j < u.len() && u[j].0 == key;
        lemma_entries_map_value(u, j);
        if j != i {
            lemma_entries_map_value(s, j);
            assert(s[j].0 == key);
        }
    }
    assert(entries_map(u) =~= entries_map(s).insert(k, v));
}

/// Dropping the entry at `i` drops its key from the map.
pub proof fn lemma_entries_map_remove(s: Seq<Entry>, i: int)
    requires
        unique_keys(s),
        0 <= i < s.len(),
    ensures
        unique_keys(s.remove(i)),
        entries_map(s.remove(i)) == entries_map(s).remove(s[i].0),
{
    let u = s.remove(i);
    let k = s[i].0;
    assert forall|j: int| 0 <= j < u.len() implies #[trigger] u[j] == (if j < i {
        s[j]
    } else {
        s[j + 1]
    }) by {}
    assert(unique_keys(u)) by {
        assert forall|a: int, b: int| 0 <= a < u.len() && 0 <= b < u.len() && a != b implies u[a].0
            != u[b].0 by {
            let a1 = if a < i { a } else { a + 1 };
            let b1 = if b < i { b } else { b + 1 };
            assert(u[a] == s[a1]);
            assert(u[b] == s[b1]);
        }
    }
    assert forall|key: Seq<char>| #[trigger]
        entries_map(u).contains_key(key) == entries_map(s).remove(k).contains_key(key) by {
        lemma_entries_map_dom(u, key);
        lemma_entries_map_dom(s, key);
        if has_key(u, key) {
            let j = choose|j: int| 0 <= j < u.len() && u[j].0 == key;
            let j1 = if j < i { j } else { j + 1 };
            assert(u[j] == s[j1]);
            assert(s[j1].0 == key);
            assert(j1 != i);
        }
        if has_key(s, key) && key != k {
            let j = choose|j: int| 0 <= j < s.len() && s[j].0 == key;
            assert(j != i);
            let j0 = if j < i { j } else { j - 1 };
            assert(u[j0] == s[j]);
        }
    }
    assert forall|key: Seq<char>| #[trigger] entries_map(u).contains_key(key) implies entries_map(
        u,
    )[key] == entries_map(s).remove(k)[key] by {
        lemma_entries_map_dom(u, key);
        let j = choose|j: int| 0 <= j < u.len() && u[j].0 == key;
        let j1 = if j < i { j } else { j + 1 };
        assert(u[j] == s[j1]);
        lemma_entries_map_value(u, j);
        lemma_entries_map_value(s, j1);
    }
    assert(entries_map(u) =~= entries_map(s).remove(k));
}

} // verus!
