//! The values that a mutation is called with.

use crate::item::{AttrModel, AttrValue};
use crate::text::same_text;
use vstd::prelude::*;

verus! {

/// A value of a mutation's input.
#[derive(Debug)]
pub enum InputValue {
    Null,
    /// A number, as its decimal text.
    Number(String),
    Text(String),
    Boolean(bool),
    /// The name of an enum value.
    Enum(String),
    List(Vec<InputValue>),
    /// The fields of an object, in the order in which they were written.
    Object(Vec<(String, InputValue)>),
}

/// The mathematical model of an input value.
pub enum InputModel {
    Null,
    Number(Seq<char>),
    Text(Seq<char>),
    Boolean(bool),
    Enum(Seq<char>),
    List(Seq<InputModel>),
    Object(Seq<(Seq<char>, InputModel)>),
}

impl DeepView for InputValue {
    type V = InputModel;

    open spec fn deep_view(&self) -> InputModel
        decreases self,
    {
        match self {
            InputValue::Null => InputModel::Null,
            InputValue::Number(n) => InputModel::Number(n@),
            InputValue::Text(s) => InputModel::Text(s@),
            InputValue::Boolean(b) => InputModel::Boolean(*b),
            InputValue::Enum(e) => InputModel::Enum(e@),
            InputValue::List(v) => InputModel::List(
                Seq::new(
                    v.len() as nat,
                    |i: int|
                        if 0 <= i < v.len() {
                            v[i].deep_view()
                        } else {
                            InputModel::Null
                        },
                ),
            ),
            InputValue::Object(v) => InputModel::Object(
                Seq::new(
                    v.len() as nat,
                    |i: int|
                        (
                            v[i].0@,
                            if 0 <= i < v.len() {
                                v[i].1.deep_view()
                            } else {
                                InputModel::Null
                            },
                        ),
                ),
            ),
        }
    }
}

impl View for InputValue {
    type V = InputModel;

    open spec fn view(&self) -> InputModel {
        self.deep_view()
    }
}

/// The model of a value has the value's own shape.
pub proof fn lemma_variants(v: InputValue)
    ensures
        (v@ is Null) == (v is Null),
        (v@ is Number) == (v is Number),
        (v@ is Boolean) == (v is Boolean),
        (v@ is Enum) == (v is Enum),
        (v@ is Text) == (v is Text),
        v is Text ==> v@->Text_0 == v->Text_0@,
        (v@ is List) == (v is List),
        v is List ==> v@->List_0 == v->List_0.deep_view(),
        (v@ is Object) == (v is Object),
        v is Object ==> v@->Object_0 == v->Object_0.deep_view(),
{
    match v {
        InputValue::List(items) => {
            assert(v@->List_0 =~= items.deep_view());
        },
        InputValue::Object(fields) => {
            assert(v@->Object_0 =~= fields.deep_view());
        },
        _ => {},
    }
}

/// The attribute that stores an input value: numbers and texts as they are,
/// enum values by their name, lists and objects element by element.
pub open spec fn attribute_of(value: InputModel) -> AttrModel
    decreases value,
{
    match value {
        InputModel::Null => AttrModel::Null,
        InputModel::Number(n) => AttrModel::N(n),
        InputModel::Text(s) => AttrModel::S(s),
        InputModel::Boolean(b) => AttrModel::Bool(b),
        InputModel::Enum(e) => AttrModel::S(e),
        InputModel::List(items) => AttrModel::L(
            Seq::new(
                items.len(),
                |i: int|
                    if 0 <= i < items.len() {
                        attribute_of(items[i])
                    } else {
                        AttrModel::Null
                    },
            ),
        ),
        InputModel::Object(fields) => AttrModel::M(
            Seq::new(
                fields.len(),
                |i: int|
                    (
                        fields[i].0,
                        if 0 <= i < fields.len() {
                            attribute_of(fields[i].1)
                        } else {
                            AttrModel::Null
                        },
                    ),
            ),
        ),
    }
}

/// The objects that an input holds: an object itself, or those of a list's
/// elements in their order; `None` for any other value.
pub open spec fn objects_of(value: InputModel) -> Option<Seq<Seq<(Seq<char>, InputModel)>>>
    decreases value, 1nat,
{
    match value {
        InputModel::Object(fields) => Some(seq![fields]),
        InputModel::List(items) => Some(objects_of_items(items, items.len())),
        _ => None,
    }
}

/// The objects that the first `n` elements of a list hold.
pub open spec fn objects_of_items(items: Seq<InputModel>, n: nat) -> Seq<Seq<(Seq<char>, InputModel)>>
    decreases items, 0nat, n,
{
    if n == 0 || n > items.len() {
        Seq::empty()
    } else {
        objects_of_items(items, (n - 1) as nat) + (match objects_of(items[n - 1]) {
            Some(found) => found,
            None => Seq::empty(),
        })
    }
}

/// The position of the first field named `key`, or the number of fields.
pub open spec fn field_index_from(fields: Seq<(Seq<char>, InputModel)>, key: Seq<char>, from: int) -> int
    decreases fields.len() - from,
{
    if from < 0 || from >= fields.len() {
        fields.len() as int
    } else if fields[from].0 == key {
        from
    } else {
        field_index_from(fields, key, from + 1)
    }
}

/// The value of the first field named `key`.
pub open spec fn field_of(fields: Seq<(Seq<char>, InputModel)>, key: Seq<char>) -> Option<InputModel> {
    if field_index_from(fields, key, 0) < fields.len() {
        Some(fields[field_index_from(fields, key, 0)].1)
    } else {
        None
    }
}

impl InputValue {
    /// A text value.
    pub fn text(s: &str) -> (r: InputValue)
        ensures
            r@ == InputModel::Text(s@),
    {
        InputValue::Text(s.to_owned())
    }

    /// An equal value of its own.
    #[verifier::loop_isolation(false)]
    pub fn duplicate(&self) -> (r: InputValue)
        ensures
            r@ == self@,
        decreases self,
    {
        match self {
            InputValue::Null => InputValue::Null,
            InputValue::Number(n) => InputValue::Number(n.clone()),
            InputValue::Text(s) => InputValue::Text(s.clone()),
            InputValue::Boolean(b) => InputValue::Boolean(*b),
            InputValue::Enum(e) => InputValue::Enum(e.clone()),
            InputValue::List(v) => {
                let mut r: Vec<InputValue> = Vec::new();
                let mut i: usize = 0;
                while i < v.len()
                    invariant
                        i <= v.len(),
                        r.len() == i,
                        forall|j: int| 0 <= j < i ==> r[j].deep_view() == v[j].deep_view(),
                    decreases v.len() - i,
                {
                    assert(decreases_to!(self => self->List_0));
                    assert(decreases_to!(v => v[i as int]));
                    let d = v[i].duplicate();
                    r.push(d);
                    i = i + 1;
                }
                let out = InputValue::List(r);
                assert(out@->List_0 =~= self@->List_0);
                out
            },
            InputValue::Object(v) => {
                let r = duplicate_fields(v);
                proof {
                    assert(r.len() == v.len()) by {
                        assert(r.deep_view().len() == v.deep_view().len());
                    }
                    assert forall|i: int| 0 <= i < v.len() implies r[i].0@ == v[i].0@ && r[i].1.deep_view() == v[i].1.deep_view() by {
                        assert(r.deep_view()[i] == v.deep_view()[i]);
                    }
                }
                let out = InputValue::Object(r);
                assert(out@->Object_0 =~= self@->Object_0);
                out
            },
        }
    }

    /// The attribute that stores this value.
    #[verifier::loop_isolation(false)]
    pub fn to_attribute(&self) -> (r: AttrValue)
        ensures
            r@ == attribute_of(self@),
        decreases self,
    {
        match self {
            InputValue::Null => AttrValue::Null,
            InputValue::Number(n) => AttrValue::N(n.clone()),
            InputValue::Text(s) => AttrValue::S(s.clone()),
            InputValue::Boolean(b) => AttrValue::Bool(*b),
            InputValue::Enum(e) => AttrValue::S(e.clone()),
            InputValue::List(v) => {
                let mut r: Vec<AttrValue> = Vec::new();
                let mut i: usize = 0;
                while i < v.len()
                    invariant
                        i <= v.len(),
                        r.len() == i,
                        forall|j: int| 0 <= j < i ==> r[j].deep_view() == attribute_of(v[j].deep_view()),
                    decreases v.len() - i,
                {
                    assert(decreases_to!(self => self->List_0));
                    assert(decreases_to!(v => v[i as int]));
                    let d = v[i].to_attribute();
                    r.push(d);
                    i = i + 1;
                }
                let out = AttrValue::L(r);
                assert(out@->L_0 =~= attribute_of(self@)->L_0);
                out
            },
            InputValue::Object(v) => {
                let mut r: Vec<(String, AttrValue)> = Vec::new();
                let mut i: usize = 0;
                while i < v.len()
                    invariant
                        i <= v.len(),
                        r.len() == i,
                        forall|j: int| 0 <= j < i ==> r[j].0@ == v[j].0@ && r[j].1.deep_view() == attribute_of(v[j].1.deep_view()),
                    decreases v.len() - i,
                {
                    assert(decreases_to!(self => self->Object_0));
                    assert(decreases_to!(v => v[i as int]));
                    assert(decreases_to!(v[i as int] => v[i as int].1));
                    let d = v[i].1.to_attribute();
                    r.push((v[i].0.clone(), d));
                    i = i + 1;
                }
                let out = AttrValue::M(r);
                assert(out@->M_0 =~= attribute_of(self@)->M_0);
                out
            },
        }
    }
}

/// An equal list of fields of its own.
pub fn duplicate_fields(fields: &Vec<(String, InputValue)>) -> (r: Vec<(String, InputValue)>)
    ensures
        r.deep_view() == fields.deep_view(),
    decreases fields,
{
    let mut r: Vec<(String, InputValue)> = Vec::new();
    let mut i: usize = 0;
    while i < fields.len()
        invariant
            i <= fields.len(),
            r.len() == i,
            forall|j: int| 0 <= j < i ==> r[j].0@ == fields[j].0@ && r[j].1.deep_view() == fields[j].1.deep_view(),
        decreases fields.len() - i,
    {
        assert(decreases_to!(fields => fields[i as int]));
        assert(decreases_to!(fields[i as int] => fields[i as int].1));
        let d = fields[i].1.duplicate();
        r.push((fields[i].0.clone(), d));
        i = i + 1;
    }
    assert(r.deep_view() =~= fields.deep_view());
    r
}

/// The value of the first field of a name.
pub fn get_field<'a>(fields: &'a Vec<(String, InputValue)>, key: &str) -> (r: Option<&'a InputValue>)
    ensures
        match r {
            Some(v) => field_of(fields.deep_view(), key@) == Some(v@) && exists|i: int| 0 <= i < fields.len() && fields[i].1 == *v,
            None => field_of(fields.deep_view(), key@) is None,
        },
{
    let mut i: usize = 0;
    while i < fields.len()
        invariant
            i <= fields.len(),
            field_index_from(fields.deep_view(), key@, 0) == field_index_from(fields.deep_view(), key@, i as int),
        decreases fields.len() - i,
    {
        if same_text(fields[i].0.as_str(), key) {
            return Some(&fields[i].1);
        }
        i = i + 1;
    }
    None
}

} // verus!
