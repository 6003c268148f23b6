//! Maps from names to values that remember the order in which the names came.

use crate::assoc::{distinct_keys, find_key, has_key, lemma_find_key, lemma_find_key_at, put, value_of, without};
use indexmap::IndexSet;
use vstd::prelude::*;

verus! {

#[verifier::external_type_specification]
#[verifier::external_body]
#[verifier::reject_recursive_types(T)]
#[verifier::reject_recursive_types(S)]
pub struct ExIndexSet<T, S>(IndexSet<T, S>);

/// What an index holds: its names, in their order.
pub uninterp spec fn index_names(m: IndexSet<String>) -> Seq<Seq<char>>;

/// An index without names.
pub open spec fn no_names() -> Seq<Seq<char>> {
    Seq::empty()
}

/// The names without the one at a position.
pub open spec fn names_without(names: Seq<Seq<char>>, i: int) -> Seq<Seq<char>> {
    names.remove(i)
}

/// `IndexSet::new`: a set that holds nothing.
#[verifier::external_body]
fn index_new() -> (m: IndexSet<String>)
    ensures
        index_names(m) == no_names(),
{
    IndexSet::new()
}

/// `IndexSet::get_index_of` with a string slice: the position of an equal
/// name, if the set holds one.
#[verifier::external_body]
fn index_position(m: &IndexSet<String>, key: &str) -> (r: Option<usize>)
    ensures
        match r {
            Some(i) => i < index_names(*m).len() && index_names(*m)[i as int] == key@,
            None => !index_names(*m).contains(key@),
        },
{
    m.get_index_of(key)
}

/// `IndexSet::insert`: a name that the set lacks becomes its last and the
/// call returns `true`; with a name that it holds the set stays as it is and
/// the call returns `false`.
#[verifier::external_body]
fn index_insert(m: &mut IndexSet<String>, key: String) -> (r: bool)
    ensures
        r == !index_names(*old(m)).contains(key@),
        index_names(*final(m)) == (if r {
            index_names(*old(m)).push(key@)
        } else {
            index_names(*old(m))
        }),
{
    m.insert(key)
}

/// `IndexSet::shift_remove` with a string slice: a name that the set holds
/// leaves, the names behind it move up in their order, and the call returns
/// `true`; with a name that it lacks the set stays as it is and the call
/// returns `false`.
#[verifier::external_body]
fn index_remove(m: &mut IndexSet<String>, key: &str) -> (r: bool)
    ensures
        r == index_names(*old(m)).contains(key@),
        r ==> exists|i: int| 0 <= i < index_names(*old(m)).len() && index_names(*old(m))[i] == key@ && index_names(*final(m)) == names_without(index_names(*old(m)), i),
        !r ==> index_names(*final(m)) == index_names(*old(m)),
{
    m.shift_remove(key)
}

/// `IndexSet::truncate`: the first `n` names stay; a set that holds no more
/// than `n` stays as it is.
#[verifier::external_body]
fn index_truncate(m: &mut IndexSet<String>, n: usize)
    ensures
        index_names(*final(m)) == (if n < index_names(*old(m)).len() {
            index_names(*old(m)).take(n as int)
        } else {
            index_names(*old(m))
        }),
{
    m.truncate(n)
}

/// A map from names to values, in the order in which the names were first
/// inserted. Looking a name up goes through a hash index of the names.
#[derive(Debug)]
pub struct OrderedMap<V> {
    names: IndexSet<String>,
    entries: Vec<(String, V)>,
}

/// The index holds exactly the names of the entries, in their order, and no
/// name comes twice.
pub open spec fn index_matches<V>(names: Seq<Seq<char>>, entries: Seq<(String, V)>) -> bool {
    &&& names.len() == entries.len()
    &&& forall|i: int| 0 <= i < entries.len() ==> names[i] == (#[trigger] entries[i]).0@
    &&& forall|i: int, j: int| 0 <= i < j < entries.len() ==> (#[trigger] entries[i]).0@ != (#[trigger] entries[j]).0@
}

impl<V: DeepView> DeepView for OrderedMap<V> {
    type V = Seq<(Seq<char>, V::V)>;

    closed spec fn deep_view(&self) -> Seq<(Seq<char>, V::V)> {
        self.entries.deep_view()
    }
}

impl<V: DeepView> View for OrderedMap<V> {
    type V = Seq<(Seq<char>, V::V)>;

    open spec fn view(&self) -> Seq<(Seq<char>, V::V)> {
        self.deep_view()
    }
}

proof fn lemma_index_distinct<V: DeepView>(names: Seq<Seq<char>>, entries: Vec<(String, V)>)
    requires
        index_matches(names, entries@),
    ensures
        distinct_keys(entries.deep_view()),
        entries.deep_view().len() == names.len(),
        forall|i: int| 0 <= i < names.len() ==> (#[trigger] entries.deep_view()[i]).0 == names[i],
{
    let e = entries.deep_view();
    assert forall|i: int, j: int| 0 <= i < j < e.len() implies (#[trigger] e[i]).0 != (#[trigger] e[j]).0 by {
        assert(entries@[i].0@ != entries@[j].0@);
    }
    assert forall|i: int| 0 <= i < names.len() implies (#[trigger] e[i]).0 == names[i] by {
        assert(e[i].0 == entries@[i].0@);
    }
}

impl<V> OrderedMap<V> {
    #[verifier::type_invariant]
    closed spec fn indexed(&self) -> bool {
        index_matches(index_names(self.names), self.entries@)
    }
}

impl<V: DeepView> OrderedMap<V> {
    /// A map's names are distinct: a call brings that fact to the caller's proof.
    pub fn names_are_distinct(&self)
        ensures
            distinct_keys(self@),
    {
        proof {
            use_type_invariant(self);
            lemma_index_distinct(index_names(self.names), self.entries);
        }
    }

    /// A map that holds nothing.
    pub fn new() -> (r: Self)
        ensures
            r@ == Seq::<(Seq<char>, V::V)>::empty(),
    {
        let entries: Vec<(String, V)> = Vec::new();
        assert(entries.deep_view() =~= Seq::<(Seq<char>, V::V)>::empty());
        OrderedMap { names: index_new(), entries }
    }

    /// The number of names.
    pub fn len(&self) -> (n: usize)
        ensures
            n == self@.len(),
    {
        self.entries.len()
    }

    /// The name at a position.
    pub fn key_at(&self, i: usize) -> (r: &str)
        requires
            i < self@.len(),
        ensures
            r@ == self@[i as int].0,
    {
        self.entries[i].0.as_str()
    }

    /// The value at a position.
    pub fn value_at(&self, i: usize) -> (r: &V)
        requires
            i < self@.len(),
        ensures
            r.deep_view() == self@[i as int].1,
    {
        &self.entries[i].1
    }

    /// The position of a name, or the number of names where the map lacks it.
    pub fn position(&self, key: &str) -> (i: usize)
        ensures
            i == find_key(self@, key@),
            i <= self@.len(),
    {
        proof {
            use_type_invariant(self);
            lemma_index_distinct(index_names(self.names), self.entries);
            lemma_find_key(self@, key@);
        }
        match index_position(&self.names, key) {
            Some(i) => {
                proof {
                    assert(self@[i as int].0 == key@);
                    lemma_find_key_at(self@, i as int);
                }
                i
            },
            None => {
                proof {
                    if has_key(self@, key@) {
                        let j = find_key(self@, key@);
                        assert(index_names(self.names)[j] == key@);
                    }
                }
                self.entries.len()
            },
        }
    }

    /// Whether the map has the name.
    pub fn contains_key(&self, key: &str) -> (r: bool)
        ensures
            r == has_key(self@, key@),
    {
        self.position(key) < self.entries.len()
    }

    /// The value under a name.
    pub fn get(&self, key: &str) -> (r: Option<&V>)
        ensures
            match r {
                Some(v) => value_of(self@, key@) == Some(v.deep_view()),
                None => value_of(self@, key@) is None,
            },
    {
        let i = self.position(key);
        if i < self.entries.len() {
            Some(&self.entries[i].1)
        } else {
            None
        }
    }

    /// Adds a name that the map lacks, as its last.
    pub fn push(&mut self, key: String, value: V)
        requires
            !has_key(old(self)@, key@),
        ensures
            final(self)@ == old(self)@.push((key@, value.deep_view())),
    {
        proof {
            use_type_invariant(&*self);
            lemma_index_distinct(index_names(self.names), self.entries);
            lemma_find_key(self@, key@);
        }
        let ghost before = self.entries.deep_view();
        let ghost key_text = key@;
        let ghost model = value.deep_view();
        let mut taken = OrderedMap::new();
        std::mem::swap(self, &mut taken);
        let OrderedMap { mut names, mut entries } = taken;
        let ghost old_entries = entries@;
        let ghost old_names = index_names(names);
        proof {
            if old_names.contains(key_text) {
                let j = choose|j: int| 0 <= j < old_names.len() && old_names[j] == key_text;
                assert(before[j].0 == key_text);
            }
        }
        let _ = index_insert(&mut names, key.clone());
        entries.push((key, value));
        assert(entries.deep_view() =~= before.push((key_text, model)));
        proof {
            let new_names = index_names(names);
            assert(new_names == old_names.push(key_text));
            assert forall|i: int| 0 <= i < entries.len() implies new_names[i] == (#[trigger] entries[i]).0@ by {
                if i < old_entries.len() {
                    assert(entries[i] == old_entries[i]);
                }
            }
            assert forall|i: int, j: int| 0 <= i < j < entries.len() implies (#[trigger] entries[i]).0@ != (#[trigger] entries[j]).0@ by {
                assert(entries[i] == old_entries[i]);
                if j < old_entries.len() {
                    assert(entries[j] == old_entries[j]);
                } else {
                    assert(before[i].0 == old_entries[i].0@);
                }
            }
        }
        *self = OrderedMap { names, entries };
    }

    /// Sets the value under a name: in place where the name is there already,
    /// as the last where it is new.
    pub fn insert(&mut self, key: String, value: V)
        ensures
            final(self)@ == put(old(self)@, key@, value.deep_view()),
    {
        proof {
            lemma_find_key(self@, key@);
        }
        let i = self.position(key.as_str());
        if i < self.len() {
            let _ = self.replace(i, value);
        } else {
            self.push(key, value);
        }
    }

    /// Puts a value in the place of the one at a position and returns the old one.
    pub fn replace(&mut self, i: usize, value: V) -> (r: V)
        requires
            i < old(self)@.len(),
        ensures
            final(self)@ == old(self)@.update(i as int, (old(self)@[i as int].0, value.deep_view())),
            r.deep_view() == old(self)@[i as int].1,
    {
        proof {
            use_type_invariant(&*self);
        }
        let ghost before = self.entries.deep_view();
        let ghost model = value.deep_view();
        let mut taken = OrderedMap::new();
        std::mem::swap(self, &mut taken);
        let OrderedMap { names, mut entries } = taken;
        let ghost old_entries = entries@;
        let mut value = value;
        std::mem::swap(&mut entries[i].1, &mut value);
        assert(entries.deep_view() =~= before.update(i as int, (before[i as int].0, model)));
        proof {
            assert forall|j: int| 0 <= j < entries.len() implies (#[trigger] entries[j]).0@ == old_entries[j].0@ by {}
        }
        *self = OrderedMap { names, entries };
        value
    }

    /// The map of a list of pairs whose names are distinct, in the list's order.
    pub fn from_entries(entries: Vec<(String, V)>) -> (r: Self)
        requires
            distinct_keys(entries.deep_view()),
        ensures
            r@ == entries.deep_view(),
    {
        let mut names = index_new();
        let mut i: usize = 0;
        while i < entries.len()
            invariant
                i <= entries.len(),
                distinct_keys(entries.deep_view()),
                index_names(names).len() == i,
                forall|j: int| 0 <= j < i ==> index_names(names)[j] == (#[trigger] entries[j]).0@,
            decreases entries.len() - i,
        {
            let ghost before = index_names(names);
            let ghost e = entries.deep_view();
            proof {
                if before.contains(entries[i as int].0@) {
                    let j = choose|j: int| 0 <= j < before.len() && before[j] == entries[i as int].0@;
                    assert(e[j].0 == entries[j].0@);
                    assert(e[j].0 != e[i as int].0);
                }
            }
            let _ = index_insert(&mut names, entries[i].0.clone());
            i = i + 1;
        }
        proof {
            let e = entries.deep_view();
            assert forall|a: int, b: int| 0 <= a < b < entries.len() implies (#[trigger] entries[a]).0@ != (#[trigger] entries[b]).0@ by {
                assert(e[a].0 != e[b].0);
            }
        }
        OrderedMap { names, entries }
    }

    /// The pairs of the map, in its order.
    pub fn into_entries(self) -> (r: Vec<(String, V)>)
        ensures
            r.deep_view() == self@,
            distinct_keys(r.deep_view()),
    {
        proof {
            use_type_invariant(&self);
            lemma_index_distinct(index_names(self.names), self.entries);
        }
        let OrderedMap { names, entries } = self;
        entries
    }

    /// Takes a name out of the map, with its value.
    pub fn remove(&mut self, key: &str)
        ensures
            final(self)@ == without(old(self)@, key@),
    {
        let i = self.position(key);
        proof {
            use_type_invariant(&*self);
            lemma_index_distinct(index_names(self.names), self.entries);
            lemma_find_key(self@, key@);
        }
        let ghost before = self.entries.deep_view();
        if i < self.entries.len() {
            let mut taken = OrderedMap::new();
            std::mem::swap(self, &mut taken);
            let OrderedMap { mut names, mut entries } = taken;
            let ghost old_entries = entries@;
            let ghost old_names = index_names(names);
            let _ = index_remove(&mut names, key);
            proof {
                assert(old_names[i as int] == key@);
                let j = choose|j: int| 0 <= j < old_names.len() && old_names[j] == key@ && index_names(names) == names_without(old_names, j);
                if j != i {
                    assert(old_entries[j].0@ == old_names[j]);
                    assert(old_entries[i as int].0@ == old_names[i as int]);
                }
                assert(index_names(names) == old_names.remove(i as int));
            }
            let _ = entries.remove(i);
            assert(entries.deep_view() =~= before.remove(i as int));
            proof {
                let new_names = index_names(names);
                assert forall|a: int| 0 <= a < entries.len() implies new_names[a] == (#[trigger] entries[a]).0@ by {
                    if a < i {
                        assert(entries[a] == old_entries[a]);
                    } else {
                        assert(entries[a] == old_entries[a + 1]);
                    }
                }
                assert forall|a: int, b: int| 0 <= a < b < entries.len() implies (#[trigger] entries[a]).0@ != (#[trigger] entries[b]).0@ by {
                    let x = if a < i { a } else { a + 1 };
                    let y = if b < i { b } else { b + 1 };
                    assert(entries[a] == old_entries[x] && entries[b] == old_entries[y]);
                    assert(old_entries[x].0@ != old_entries[y].0@);
                }
            }
            *self = OrderedMap { names, entries };
        }
    }

    /// Keeps the first `n` names and drops the rest.
    pub fn truncate(&mut self, n: usize)
        ensures
            final(self)@ == (if n < old(self)@.len() {
                old(self)@.take(n as int)
            } else {
                old(self)@
            }),
    {
        proof {
            use_type_invariant(&*self);
        }
        let ghost before = self.entries.deep_view();
        if n < self.entries.len() {
            let mut taken = OrderedMap::new();
            std::mem::swap(self, &mut taken);
            let OrderedMap { mut names, mut entries } = taken;
            let ghost old_entries = entries@;
            let ghost old_names = index_names(names);
            index_truncate(&mut names, n);
            entries.truncate(n);
            assert(entries.deep_view() =~= before.take(n as int));
            proof {
                let new_names = index_names(names);
                assert(new_names == old_names.take(n as int));
                assert forall|a: int| 0 <= a < entries.len() implies new_names[a] == (#[trigger] entries[a]).0@ by {
                    assert(entries[a] == old_entries[a]);
                }
                assert forall|a: int, b: int| 0 <= a < b < entries.len() implies (#[trigger] entries[a]).0@ != (#[trigger] entries[b]).0@ by {
                    assert(entries[a] == old_entries[a] && entries[b] == old_entries[b]);
                }
            }
            *self = OrderedMap { names, entries };
        }
    }
}

} // verus!
