//! Stored rows: attribute values and the items that map attribute names to them.

use crate::assoc::{distinct_keys, has_key, lemma_find_key, lemma_put, lemma_without, position_of, put, value_of, without};
use crate::text::{clone_strings, views};
use vstd::prelude::*;

verus! {

/// One attribute value of a stored row.
#[derive(Debug)]
pub enum AttrValue {
    /// A string.
    S(String),
    /// A number, as its decimal text.
    N(String),
    Bool(bool),
    Null,
    /// A set of strings.
    Ss(Vec<String>),
    /// A set of numbers, each as its decimal text.
    Ns(Vec<String>),
    /// Binary data.
    B(Vec<u8>),
    /// A list of values.
    L(Vec<AttrValue>),
    /// A map from names to values.
    M(Vec<(String, AttrValue)>),
}

/// The mathematical model of an attribute value.
pub enum AttrModel {
    S(Seq<char>),
    N(Seq<char>),
    Bool(bool),
    Null,
    Ss(Seq<Seq<char>>),
    Ns(Seq<Seq<char>>),
    B(Seq<u8>),
    L(Seq<AttrModel>),
    M(Seq<(Seq<char>, AttrModel)>),
}

impl DeepView for AttrValue {
    type V = AttrModel;

    open spec fn deep_view(&self) -> AttrModel
        decreases self,
    {
        match self {
            AttrValue::S(s) => AttrModel::S(s@),
            AttrValue::N(s) => AttrModel::N(s@),
            AttrValue::Bool(b) => AttrModel::Bool(*b),
            AttrValue::Null => AttrModel::Null,
            AttrValue::Ss(v) => AttrModel::Ss(views(v@)),
            AttrValue::Ns(v) => AttrModel::Ns(views(v@)),
            AttrValue::B(v) => AttrModel::B(v@),
            AttrValue::L(v) => AttrModel::L(
                Seq::new(
                    v.len() as nat,
                    |i: int|
                        if 0 <= i < v.len() {
                            v[i].deep_view()
                        } else {
                            AttrModel::Null
                        },
                ),
            ),
            AttrValue::M(v) => AttrModel::M(
                Seq::new(
                    v.len() as nat,
                    |i: int|
                        (
                            v[i].0@,
                            if 0 <= i < v.len() {
                                v[i].1.deep_view()
                            } else {
                                AttrModel::Null
                            },
                        ),
                ),
            ),
        }
    }
}

impl View for AttrValue {
    type V = AttrModel;

    open spec fn view(&self) -> AttrModel {
        self.deep_view()
    }
}

impl AttrValue {
    /// A string attribute.
    pub fn string(s: &str) -> (r: AttrValue)
        ensures
            r@ == AttrModel::S(s@),
    {
        AttrValue::S(s.to_owned())
    }

    /// A string set with one member.
    pub fn string_set_of(s: &str) -> (r: AttrValue)
        ensures
            r@ == AttrModel::Ss(seq![s@]),
    {
        let mut v: Vec<String> = Vec::new();
        v.push(s.to_owned());
        assert(views(v@) =~= seq![s@]);
        AttrValue::Ss(v)
    }

    /// The string of a string attribute.
    pub fn as_string(&self) -> (r: Option<&String>)
        ensures
            match r {
                Some(s) => self@ == AttrModel::S(s@),
                None => !(self@ is S),
            },
    {
        match self {
            AttrValue::S(s) => Some(s),
            _ => None,
        }
    }

    /// The members of a string set attribute.
    pub fn as_string_set(&self) -> (r: Option<&Vec<String>>)
        ensures
            match r {
                Some(v) => self@ == AttrModel::Ss(views(v@)),
                None => !(self@ is Ss),
            },
    {
        match self {
            AttrValue::Ss(v) => Some(v),
            _ => None,
        }
    }

    /// An equal value of its own.
    #[verifier::loop_isolation(false)]
    pub fn duplicate(&self) -> (r: AttrValue)
        ensures
            r@ == self@,
        decreases self,
    {
        match self {
            AttrValue::S(s) => AttrValue::S(s.clone()),
            AttrValue::N(s) => AttrValue::N(s.clone()),
            AttrValue::Bool(b) => AttrValue::Bool(*b),
            AttrValue::Null => AttrValue::Null,
            AttrValue::Ss(v) => AttrValue::Ss(clone_strings(v)),
            AttrValue::Ns(v) => AttrValue::Ns(clone_strings(v)),
            AttrValue::B(v) => {
                let mut r: Vec<u8> = Vec::new();
                let mut i: usize = 0;
                while i < v.len()
                    invariant
                        i <= v.len(),
                        r@ == v@.subrange(0, i as int),
                    decreases v.len() - i,
                {
                    r.push(v[i]);
                    i = i + 1;
                }
                assert(r@ == v@);
                AttrValue::B(r)
            },
            AttrValue::L(v) => {
                let mut r: Vec<AttrValue> = Vec::new();
                let mut i: usize = 0;
                while i < v.len()
                    invariant
                        i <= v.len(),
                        r.len() == i,
                        forall|j: int| 0 <= j < i ==> r[j].deep_view() == v[j].deep_view(),
                    decreases v.len() - i,
                {
                    assert(decreases_to!(self => self->L_0));
                    assert(decreases_to!(v => v[i as int]));
                    let d = v[i].duplicate();
                    r.push(d);
                    i = i + 1;
                }
                let out = AttrValue::L(r);
                assert(out@->L_0 =~= self@->L_0);
                out
            },
            AttrValue::M(v) => {
                let mut r: Vec<(String, AttrValue)> = Vec::new();
                let mut i: usize = 0;
                while i < v.len()
                    invariant
                        i <= v.len(),
                        r.len() == i,
                        forall|j: int| 0 <= j < i ==> r[j].0@ == v[j].0@ && r[j].1.deep_view() == v[j].1.deep_view(),
                    decreases v.len() - i,
                {
                    assert(decreases_to!(self => self->M_0));
                    assert(decreases_to!(v => v[i as int]));
                    assert(decreases_to!(v[i as int] => v[i as int].1));
                    let d = v[i].1.duplicate();
                    r.push((v[i].0.clone(), d));
                    i = i + 1;
                }
                let out = AttrValue::M(r);
                assert(out@->M_0 =~= self@->M_0);
                out
            },
        }
    }
}

/// A stored row: attribute names with their values, each name once, in the
/// order in which the names were first set.
#[derive(Debug)]
pub struct Item {
    attrs: Vec<(String, AttrValue)>,
}

impl DeepView for Item {
    type V = Seq<(Seq<char>, AttrModel)>;

    closed spec fn deep_view(&self) -> Seq<(Seq<char>, AttrModel)> {
        self.attrs.deep_view()
    }
}

impl View for Item {
    type V = Seq<(Seq<char>, AttrModel)>;

    open spec fn view(&self) -> Seq<(Seq<char>, AttrModel)> {
        self.deep_view()
    }
}

impl Item {
    #[verifier::type_invariant]
    closed spec fn names_once(&self) -> bool {
        distinct_keys(self.attrs.deep_view())
    }

    /// Every item has each of its names once: a call brings that fact to the caller's proof.
    pub fn names_are_distinct(&self)
        ensures
            distinct_keys(self@),
    {
        proof {
            use_type_invariant(self);
        }
    }

    /// An item without attributes.
    pub fn new() -> (r: Item)
        ensures
            r@ == Seq::<(Seq<char>, AttrModel)>::empty(),
    {
        let attrs: Vec<(String, AttrValue)> = Vec::new();
        assert(attrs.deep_view() =~= Seq::<(Seq<char>, AttrModel)>::empty());
        Item { attrs }
    }

    /// The number of attributes.
    pub fn len(&self) -> (n: usize)
        ensures
            n == self@.len(),
    {
        self.attrs.len()
    }

    /// The name of the attribute at a position.
    pub fn name_at(&self, i: usize) -> (r: &str)
        requires
            i < self@.len(),
        ensures
            r@ == self@[i as int].0,
    {
        self.attrs[i].0.as_str()
    }

    /// The value of the attribute at a position.
    pub fn value_at(&self, i: usize) -> (r: &AttrValue)
        requires
            i < self@.len(),
        ensures
            r@ == self@[i as int].1,
    {
        &self.attrs[i].1
    }

    /// The value under a name.
    pub fn get(&self, name: &str) -> (r: Option<&AttrValue>)
        ensures
            match r {
                Some(v) => value_of(self@, name@) == Some(v@),
                None => value_of(self@, name@) is None,
            },
    {
        let i = position_of(&self.attrs, name);
        if i < self.attrs.len() {
            Some(&self.attrs[i].1)
        } else {
            None
        }
    }

    /// Whether the item has an attribute of this name.
    pub fn contains(&self, name: &str) -> (r: bool)
        ensures
            r == has_key(self@, name@),
    {
        position_of(&self.attrs, name) < self.attrs.len()
    }

    /// The text under a name, where the attribute is a string.
    pub fn text(&self, name: &str) -> (r: Option<String>)
        ensures
            r is Some <==> (value_of(self@, name@) is Some && value_of(self@, name@)->Some_0 is S),
            r is Some ==> value_of(self@, name@) == Some(AttrModel::S(r->Some_0@)),
    {
        match self.get(name) {
            Some(AttrValue::S(s)) => Some(s.clone()),
            _ => None,
        }
    }

    /// Sets the value under a name: in place where the name is there already,
    /// as the last attribute where it is new.
    pub fn insert(&mut self, name: String, value: AttrValue)
        ensures
            final(self)@ == put(old(self)@, name@, value@),
    {
        proof {
            use_type_invariant(&*self);
            lemma_put(self@, name@, value@);
            lemma_find_key(self@, name@);
        }
        let ghost before = self.attrs.deep_view();
        let ghost model = value@;
        let ghost key = name@;
        let mut attrs: Vec<(String, AttrValue)> = Vec::new();
        assert(attrs.deep_view() =~= Seq::<(Seq<char>, AttrModel)>::empty());
        std::mem::swap(&mut self.attrs, &mut attrs);
        let i = position_of(&attrs, name.as_str());
        if i < attrs.len() {
            attrs[i].1 = value;
            assert(attrs.deep_view() =~= before.update(i as int, (key, model)));
        } else {
            attrs.push((name, value));
            assert(attrs.deep_view() =~= before.push((key, model)));
        }
        std::mem::swap(&mut self.attrs, &mut attrs);
    }

    /// Takes the attribute of a name out and returns its value.
    pub fn remove(&mut self, name: &str) -> (r: Option<AttrValue>)
        ensures
            final(self)@ == without(old(self)@, name@),
            match r {
                Some(v) => value_of(old(self)@, name@) == Some(v@),
                None => value_of(old(self)@, name@) is None,
            },
    {
        proof {
            use_type_invariant(&*self);
            lemma_without(self@, name@);
            lemma_find_key(self@, name@);
        }
        let ghost before = self.attrs.deep_view();
        let mut attrs: Vec<(String, AttrValue)> = Vec::new();
        assert(attrs.deep_view() =~= Seq::<(Seq<char>, AttrModel)>::empty());
        std::mem::swap(&mut self.attrs, &mut attrs);
        let i = position_of(&attrs, name);
        let r = if i < attrs.len() {
            let pair = attrs.remove(i);
            assert(attrs.deep_view() =~= before.remove(i as int));
            Some(pair.1)
        } else {
            None
        };
        std::mem::swap(&mut self.attrs, &mut attrs);
        r
    }

    /// An equal item of its own.
    pub fn duplicate(&self) -> (r: Item)
        ensures
            r@ == self@,
    {
        proof {
            use_type_invariant(self);
        }
        let mut attrs: Vec<(String, AttrValue)> = Vec::new();
        let mut i: usize = 0;
        while i < self.attrs.len()
            invariant
                i <= self.attrs.len(),
                attrs.len() == i,
                forall|j: int| 0 <= j < i ==> attrs[j].0@ == self.attrs[j].0@ && attrs[j].1@ == self.attrs[j].1@,
            decreases self.attrs.len() - i,
        {
            let d = self.attrs[i].1.duplicate();
            attrs.push((self.attrs[i].0.clone(), d));
            i = i + 1;
        }
        assert(attrs.deep_view() =~= self.attrs.deep_view());
        Item { attrs }
    }
}

} // verus!
