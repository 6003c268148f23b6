//! Association lists: pairs of a name and a value in the order in which the
//! names first came, each name once.

use crate::text::same_text;
use vstd::prelude::*;

verus! {

/// The position of the first pair at or after `from` whose name is `key`;
/// the length of the list if there is none.
pub open spec fn find_key_from<V>(e: Seq<(Seq<char>, V)>, key: Seq<char>, from: int) -> int
    decreases e.len() - from,
{
    if from < 0 || from >= e.len() {
        e.len() as int
    } else if e[from].0 == key {
        from
    } else {
        find_key_from(e, key, from + 1)
    }
}

/// The position of the first pair whose name is `key`, or the length of the list.
pub open spec fn find_key<V>(e: Seq<(Seq<char>, V)>, key: Seq<char>) -> int {
    find_key_from(e, key, 0)
}

pub open spec fn has_key<V>(e: Seq<(Seq<char>, V)>, key: Seq<char>) -> bool {
    find_key(e, key) < e.len()
}

/// The value under `key`, if the list has one.
pub open spec fn value_of<V>(e: Seq<(Seq<char>, V)>, key: Seq<char>) -> Option<V> {
    if has_key(e, key) {
        Some(e[find_key(e, key)].1)
    } else {
        None
    }
}

/// The list with `value` under `key`: in the place of the old value where the
/// name was there, at the end where it was not.
pub open spec fn put<V>(e: Seq<(Seq<char>, V)>, key: Seq<char>, value: V) -> Seq<(Seq<char>, V)> {
    if has_key(e, key) {
        e.update(find_key(e, key), (key, value))
    } else {
        e.push((key, value))
    }
}

/// The list without the pair named `key`.
pub open spec fn without<V>(e: Seq<(Seq<char>, V)>, key: Seq<char>) -> Seq<(Seq<char>, V)> {
    if has_key(e, key) {
        e.remove(find_key(e, key))
    } else {
        e
    }
}

/// No name occurs twice.
pub open spec fn distinct_keys<V>(e: Seq<(Seq<char>, V)>) -> bool {
    forall|i: int, j: int| 0 <= i < j < e.len() ==> (#[trigger] e[i]).0 != (#[trigger] e[j]).0
}

proof fn lemma_find_key_from<V>(e: Seq<(Seq<char>, V)>, key: Seq<char>, from: int)
    requires
        0 <= from <= e.len(),
    ensures
        from <= find_key_from(e, key, from) <= e.len(),
        find_key_from(e, key, from) < e.len() ==> e[find_key_from(e, key, from)].0 == key,
        forall|j: int| from <= j < find_key_from(e, key, from) ==> (#[trigger] e[j]).0 != key,
    decreases e.len() - from,
{
    if from < e.len() && e[from].0 != key {
        lemma_find_key_from(e, key, from + 1);
    }
}

pub(crate) proof fn lemma_find_key<V>(e: Seq<(Seq<char>, V)>, key: Seq<char>)
    ensures
        0 <= find_key(e, key) <= e.len(),
        has_key(e, key) ==> e[find_key(e, key)].0 == key,
        forall|j: int| 0 <= j < find_key(e, key) ==> (#[trigger] e[j]).0 != key,
        has_key(e, key) <==> exists|j: int| 0 <= j < e.len() && (#[trigger] e[j]).0 == key,
{
    lemma_find_key_from(e, key, 0);
    if exists|j: int| 0 <= j < e.len() && (#[trigger] e[j]).0 == key {
        let j = choose|j: int| 0 <= j < e.len() && (#[trigger] e[j]).0 == key;
        if find_key(e, key) >= e.len() {
            assert(e[j].0 != key);
        }
    }
}

/// A name that no pair has is put at the end.
pub proof fn lemma_put_absent<V>(e: Seq<(Seq<char>, V)>, key: Seq<char>, value: V)
    requires
        forall|j: int| 0 <= j < e.len() ==> (#[trigger] e[j]).0 != key,
    ensures
        !has_key(e, key),
        put(e, key, value) == e.push((key, value)),
{
    lemma_find_key(e, key);
}

/// In a list without repeated names, a pair is found at its own position.
pub proof fn lemma_find_key_at<V>(e: Seq<(Seq<char>, V)>, i: int)
    requires
        distinct_keys(e),
        0 <= i < e.len(),
    ensures
        find_key(e, e[i].0) == i,
{
    lemma_find_key(e, e[i].0);
    let f = find_key(e, e[i].0);
    if f > i {
        assert(e[i].0 != e[i].0);
    }
    if f < i {
        assert(e[f].0 != e[i].0);
    }
}

/// Putting a value keeps names distinct, makes the value the one found under
/// its name and leaves every other name's value as it was.
pub proof fn lemma_put<V>(e: Seq<(Seq<char>, V)>, key: Seq<char>, value: V)
    requires
        distinct_keys(e),
    ensures
        distinct_keys(put(e, key, value)),
        value_of(put(e, key, value), key) == Some(value),
        forall|k: Seq<char>| k != key ==> #[trigger] value_of(put(e, key, value), k) == value_of(e, k),
        has_key(e, key) ==> put(e, key, value).len() == e.len(),
        !has_key(e, key) ==> put(e, key, value).len() == e.len() + 1,
{
    lemma_find_key(e, key);
    let p = put(e, key, value);
    let f = find_key(e, key);
    assert(distinct_keys(p)) by {
        assert forall|i: int, j: int| 0 <= i < j < p.len() implies (#[trigger] p[i]).0 != (#[trigger] p[j]).0 by {
            if has_key(e, key) {
                if i != f && j != f {
                    assert(e[i].0 != e[j].0);
                } else if i == f {
                    assert(e[i].0 != e[j].0);
                } else {
                    assert(e[i].0 != e[j].0);
                }
            } else {
                if j < e.len() {
                    assert(e[i].0 != e[j].0);
                } else {
                    assert(e[i].0 != key);
                }
            }
        }
    }
    lemma_find_key(p, key);
    if has_key(e, key) {
        assert(p[f].0 == key);
        lemma_find_key_at(p, f);
    } else {
        assert(p[e.len() as int].0 == key);
        lemma_find_key_at(p, e.len() as int);
    }
    assert forall|k: Seq<char>| k != key implies #[trigger] value_of(p, k) == value_of(e, k) by {
        lemma_find_key(e, k);
        lemma_find_key(p, k);
        let fe = find_key(e, k);
        let fp = find_key(p, k);
        if has_key(e, k) {
            assert(p[fe].0 == k);
            lemma_find_key_at(p, fe);
        } else if has_key(p, k) {
            if fp < e.len() {
                assert(e[fp].0 == k);
            }
        }
    }
}

/// Taking a name out keeps names distinct, removes the name and leaves every
/// other name's value as it was.
pub proof fn lemma_without<V>(e: Seq<(Seq<char>, V)>, key: Seq<char>)
    requires
        distinct_keys(e),
    ensures
        distinct_keys(without(e, key)),
        !has_key(without(e, key), key),
        forall|k: Seq<char>| k != key ==> #[trigger] value_of(without(e, key), k) == value_of(e, k),
{
    lemma_find_key(e, key);
    let w = without(e, key);
    let f = find_key(e, key);
    if has_key(e, key) {
        assert forall|i: int, j: int| 0 <= i < j < w.len() implies (#[trigger] w[i]).0 != (#[trigger] w[j]).0 by {
            let a = if i < f { i } else { i + 1 };
            let b = if j < f { j } else { j + 1 };
            assert(e[a].0 != e[b].0);
        }
        lemma_find_key(w, key);
        if has_key(w, key) {
            let g = find_key(w, key);
            let b = if g < f { g } else { g + 1 };
            assert(e[b].0 == key);
            if b < f {
                assert(e[b].0 != e[f].0);
            } else {
                assert(e[f].0 != e[b].0);
            }
        }
        assert forall|k: Seq<char>| k != key implies #[trigger] value_of(w, k) == value_of(e, k) by {
            lemma_find_key(e, k);
            lemma_find_key(w, k);
            let fe = find_key(e, k);
            let fw = find_key(w, k);
            if has_key(e, k) {
                let a = if fe < f { fe } else { fe - 1 };
                assert(w[a].0 == k);
                lemma_find_key_at(w, a);
            } else if has_key(w, k) {
                let b = if fw < f { fw } else { fw + 1 };
                assert(e[b].0 == k);
            }
        }
    }
}

/// The position of `key` among the names of `entries`, or their number.
pub fn position_of<V: DeepView>(entries: &Vec<(String, V)>, key: &str) -> (i: usize)
    ensures
        i == find_key(entries.deep_view(), key@),
        i <= entries.len(),
{
    let mut i: usize = 0;
    while i < entries.len()
        invariant
            i <= entries.len(),
            find_key(entries.deep_view(), key@) == find_key_from(entries.deep_view(), key@, i as int),
        decreases entries.len() - i,
    {
        if same_text(entries[i].0.as_str(), key) {
            return i;
        }
        i = i + 1;
    }
    i
}

} // verus!
