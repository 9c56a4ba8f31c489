//! A small table from string keys to values, kept as a vector of pairs with
//! distinct keys, and the map it stands for.
use vstd::prelude::*;

verus! {

/// No key occurs twice.
pub open spec fn distinct_keys<V>(t: Seq<(String, V)>) -> bool {
    forall|i: int, j: int| 0 <= i < t.len() && 0 <= j < t.len() && i != j ==> t[i].0@ != t[j].0@
}

/// The map that the pairs of `t` stand for.
pub open spec fn table<V>(t: Seq<(String, V)>) -> Map<Seq<char>, V> {
    Map::new(
        |k: Seq<char>| exists|i: int| 0 <= i < t.len() && t[i].0@ == k,
        |k: Seq<char>| t[choose|i: int| 0 <= i < t.len() && t[i].0@ == k].1,
    )
}

/// The pair at position `i` is what the map holds for its key.
pub proof fn lemma_table_at<V>(t: Seq<(String, V)>, i: int)
    requires
        distinct_keys(t),
        0 <= i < t.len(),
    ensures
        table(t).contains_key(t[i].0@),
        table(t)[t[i].0@] == t[i].1,
{
    let k = t[i].0@;
    assert(table(t).dom().contains(k));
    let j = choose|j: int| 0 <= j < t.len() && t[j].0@ == k;
    assert(i == j);
}

/// Appending a pair with a new key inserts it into the map.
pub proof fn lemma_table_push<V>(t: Seq<(String, V)>, k: String, v: V)
    requires
        distinct_keys(t),
        !table(t).contains_key(k@),
    ensures
        distinct_keys(t.push((k, v))),
        table(t.push((k, v))) == table(t).insert(k@, v),
{
    let u = t.push((k, v));
    assert forall|i: int| 0 <= i < t.len() implies t[i].0@ != k@ by {
        if t[i].0@ == k@ {
            assert(table(t).dom().contains(k@));
        }
    }
    assert(distinct_keys(u));
    assert forall|key: Seq<char>| table(u).contains_key(key) == table(t).insert(k@, v).contains_key(key) by {
        if table(t).contains_key(key) {
            let i = choose|i: int| 0 <= i < t.len() && t[i].0@ == key;
            assert(u[i].0@ == key);
        }
        if key == k@ {
            assert(u[t.len() as int].0@ == key);
        }
    }
    assert forall|key: Seq<char>| #[trigger] table(u).contains_key(key) implies table(u)[key] == table(t).insert(k@, v)[key] by {
        let i = choose|i: int| 0 <= i < u.len() && u[i].0@ == key;
        lemma_table_at(u, i);
        if i < t.len() {
            lemma_table_at(t, i);
        }
    }
    assert(table(u) =~= table(t).insert(k@, v));
}

/// A key that no pair has is not in the map.
pub proof fn lemma_table_absent<V>(t: Seq<(String, V)>, k: Seq<char>)
    requires
        forall|i: int| 0 <= i < t.len() ==> t[i].0@ != k,
    ensures
        !table(t).contains_key(k),
{
}

/// Replacing the value at position `i` updates its key in the map.
pub proof fn lemma_table_set<V>(t: Seq<(String, V)>, i: int, s: String, v: V)
    requires
        distinct_keys(t),
        0 <= i < t.len(),
        s@ == t[i].0@,
    ensures
        distinct_keys(t.update(i, (s, v))),
        table(t.update(i, (s, v))) == table(t).insert(t[i].0@, v),
{
    let u = t.update(i, (s, v));
    let k = t[i].0@;
    assert(distinct_keys(u));
    lemma_table_at(t, i);
    assert forall|key: Seq<char>| table(u).contains_key(key) == table(t).insert(k, v).contains_key(key) by {
        if table(t).contains_key(key) {
            let j = choose|j: int| 0 <= j < t.len() && t[j].0@ == key;
            assert(u[j].0@ == key);
        }
        if table(u).contains_key(key) {
            let j = choose|j: int| 0 <= j < u.len() && u[j].0@ == key;
            assert(t[j].0@ == key);
        }
    }
    assert forall|key: Seq<char>| #[trigger] table(u).contains_key(key) implies table(u)[key] == table(t).insert(k, v)[key] by {
        let j = choose|j: int| 0 <= j < u.len() && u[j].0@ == key;
        lemma_table_at(u, j);
        lemma_table_at(t, j);
    }
    assert(table(u) =~= table(t).insert(k, v));
}

/// Removing the pair at position `i` removes its key from the map.
pub proof fn lemma_table_remove<V>(t: Seq<(String, V)>, i: int)
    requires
        distinct_keys(t),
        0 <= i < t.len(),
    ensures
        distinct_keys(t.remove(i)),
        table(t.remove(i)) == table(t).remove(t[i].0@),
{
    let u = t.remove(i);
    let k = t[i].0@;
    assert forall|a: int, b: int| 0 <= a < u.len() && 0 <= b < u.len() && a != b implies u[a].0@ != u[b].0@ by {
        let a1 = if a < i { a } else { a + 1 };
        let b1 = if b < i { b } else { b + 1 };
        assert(u[a] == t[a1]);
        assert(u[b] == t[b1]);
    }
    assert forall|key: Seq<char>| table(u).contains_key(key) == table(t).remove(k).contains_key(key) by {
        if table(t).contains_key(key) && key != k {
            let j = choose|j: int| 0 <= j < t.len() && t[j].0@ == key;
            let j1 = if j < i { j } else { j - 1 };
            assert(u[j1] == t[j]);
        }
        if table(u).contains_key(key) {
            let j = choose|j: int| 0 <= j < u.len() && u[j].0@ == key;
            let j1 = if j < i { j } else { j + 1 };
            assert(u[j] == t[j1]);
        }
    }
    assert forall|key: Seq<char>| #[trigger] table(u).contains_key(key) implies table(u)[key] == table(t).remove(k)[key] by {
        let j = choose|j: int| 0 <= j < u.len() && u[j].0@ == key;
        let j1 = if j < i { j } else { j + 1 };
        assert(u[j] == t[j1]);
        lemma_table_at(u, j);
        lemma_table_at(t, j1);
    }
    assert(table(u) =~= table(t).remove(k));
}

/// The position of `key` in `t`, if it is there.
pub fn find<V>(t: &Vec<(String, V)>, key: &String) -> (r: Option<usize>)
    ensures
        match r {
            Some(i) => i < t@.len() && t@[i as int].0@ == key@,
            None => forall|i: int| 0 <= i < t@.len() ==> t@[i].0@ != key@,
        },
{
    let mut i: usize = 0;
    while i < t.len()
        invariant
            0 <= i <= t@.len(),
            forall|j: int| 0 <= j < i ==> t@[j].0@ != key@,
        decreases t@.len() - i,
    {
        if t[i].0 == *key {
            return Some(i);
        }
        i += 1;
    }
    None
}

} // verus!
