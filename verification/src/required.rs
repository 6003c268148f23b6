//! Required field sets: the fields, with their arguments, that a subgraph
//! needs resolved before it can resolve an entity. Equal required fields
//! share one handle.

use crate::arena::{FieldDefinitionId, InputValueDefinitionId, RequiredFieldId, SchemaInputValueId};
use vstd::prelude::*;

verus! {

/// A field that is required, with the values of its arguments in the order
/// of their declaration.
#[derive(Debug)]
pub struct RequiredField {
    pub definition_id: FieldDefinitionId,
    pub arguments: Vec<(InputValueDefinitionId, SchemaInputValueId)>,
}

/// The mathematical model of a required field: the position of its
/// definition, and for each argument the positions of its definition and value.
pub struct FieldKey {
    pub definition: nat,
    pub arguments: Seq<(nat, nat)>,
}

impl View for RequiredField {
    type V = FieldKey;

    open spec fn view(&self) -> FieldKey {
        FieldKey {
            definition: self.definition_id.position(),
            arguments: Seq::new(self.arguments@.len(), |i: int| (self.arguments@[i].0.position(), self.arguments@[i].1.position())),
        }
    }
}

/// One item of a required field set: a required field and what is required below it.
#[derive(Debug)]
pub struct RequiredFieldSetItem {
    pub id: RequiredFieldId,
    pub subselection: RequiredFieldSet,
}

/// A required field set.
#[derive(Debug)]
pub struct RequiredFieldSet {
    pub items: Vec<RequiredFieldSetItem>,
}

/// The mathematical model of an item of a required field set.
pub struct ItemModel {
    pub id: nat,
    pub subselection: Seq<ItemModel>,
}

impl View for RequiredFieldSetItem {
    type V = ItemModel;

    open spec fn view(&self) -> ItemModel
        decreases self,
    {
        ItemModel { id: self.id.position(), subselection: set_model(self.subselection) }
    }
}

/// The model of a required field set: the models of its items.
pub open spec fn set_model(set: RequiredFieldSet) -> Seq<ItemModel>
    decreases set,
{
    Seq::new(
        set.items@.len(),
        |i: int|
            if 0 <= i < set.items@.len() {
                set.items@[i]@
            } else {
                ItemModel { id: 0, subselection: Seq::empty() }
            },
    )
}

impl View for RequiredFieldSet {
    type V = Seq<ItemModel>;

    open spec fn view(&self) -> Seq<ItemModel> {
        set_model(*self)
    }
}

/// Why an argument of a required field has no value.
#[derive(Debug)]
pub enum InputValueError {
    /// A required argument without a default was not supplied.
    MissingRequiredArgument(String),
    /// The supplied value does not fit the argument's type.
    Coercion(String),
}

/// The mathematical model of an argument's error.
pub enum InputValueErrorModel {
    MissingRequiredArgument(Seq<char>),
    Coercion(Seq<char>),
}

impl View for InputValueError {
    type V = InputValueErrorModel;

    open spec fn view(&self) -> InputValueErrorModel {
        match self {
            InputValueError::MissingRequiredArgument(name) => InputValueErrorModel::MissingRequiredArgument(name@),
            InputValueError::Coercion(message) => InputValueErrorModel::Coercion(message@),
        }
    }
}

impl InputValueError {
    /// An equal error of its own.
    pub fn duplicate(&self) -> (r: InputValueError)
        ensures
            r@ == self@,
    {
        match self {
            InputValueError::MissingRequiredArgument(name) => InputValueError::MissingRequiredArgument(name.clone()),
            InputValueError::Coercion(message) => InputValueError::Coercion(message.clone()),
        }
    }
}

/// Why a schema cannot be built.
#[derive(Debug)]
pub enum BuildError {
    /// An argument of a required field at `location` has no value.
    RequiredFieldArgumentCoercionError { location: String, err: InputValueError },
}

/// The position of the first required field at or after `from` that equals
/// `key`; the number of fields if there is none.
pub open spec fn find_field_from(table: Seq<RequiredField>, key: FieldKey, from: int) -> int
    decreases table.len() - from,
{
    if from < 0 || from >= table.len() {
        table.len() as int
    } else if table[from]@ == key {
        from
    } else {
        find_field_from(table, key, from + 1)
    }
}

/// No two fields of the table are equal.
pub open spec fn fields_distinct(table: Seq<RequiredField>) -> bool {
    forall|i: int, j: int| 0 <= i < j < table.len() ==> (#[trigger] table[i])@ != (#[trigger] table[j])@
}

/// Whether every handle in the items of a set names a field of a table with `n` fields.
pub open spec fn items_within(items: Seq<ItemModel>, n: nat) -> bool
    decreases items,
{
    forall|i: int| 0 <= i < items.len() ==> (#[trigger] items[i]).id < n && items_within(items[i].subselection, n)
}

/// Whether the required fields of a graph are each there once, refer to
/// field definitions of the graph, and are what the sets of the graph refer to.
pub open spec fn required_fields_valid(fields: Seq<RequiredField>, sets: Seq<RequiredFieldSet>, definitions: nat) -> bool {
    &&& fields_distinct(fields)
    &&& forall|i: int| 0 <= i < fields.len() ==> (#[trigger] fields[i]).definition_id.position() < definitions
    &&& forall|i: int| 0 <= i < sets.len() ==> items_within((#[trigger] sets[i])@, fields.len())
}

/// Whether two required fields are equal: the same definition and the same
/// arguments with the same values, in the same order.
pub fn same_field(a: &RequiredField, b: &RequiredField) -> (r: bool)
    ensures
        r == (a@ == b@),
{
    if !a.definition_id.same(b.definition_id) || a.arguments.len() != b.arguments.len() {
        assert(a@.arguments.len() == a.arguments@.len());
        assert(b@.arguments.len() == b.arguments@.len());
        return false;
    }
    let mut i: usize = 0;
    while i < a.arguments.len()
        invariant
            i <= a.arguments.len(),
            a.arguments.len() == b.arguments.len(),
            a.definition_id.position() == b.definition_id.position(),
            forall|j: int| 0 <= j < i ==> a@.arguments[j] == b@.arguments[j],
        decreases a.arguments.len() - i,
    {
        if !(a.arguments[i].0.same(b.arguments[i].0) && a.arguments[i].1.same(b.arguments[i].1)) {
            assert(a@.arguments[i as int] != b@.arguments[i as int]);
            return false;
        }
        i = i + 1;
    }
    assert(a@.arguments =~= b@.arguments);
    true
}

/// The position of the field of a table that equals `field`, or the number
/// of fields of the table.
pub fn find_field(table: &Vec<RequiredField>, field: &RequiredField) -> (i: usize)
    ensures
        i == find_field_from(table@, field@, 0),
        i <= table.len(),
        i < table.len() ==> table[i as int]@ == field@,
        forall|j: int| 0 <= j < i ==> (#[trigger] table[j])@ != field@,
{
    let mut i: usize = 0;
    while i < table.len()
        invariant
            i <= table.len(),
            find_field_from(table@, field@, 0) == find_field_from(table@, field@, i as int),
            forall|j: int| 0 <= j < i ==> (#[trigger] table[j])@ != field@,
        decreases table.len() - i,
    {
        if same_field(&table[i], field) {
            return i;
        }
        i = i + 1;
    }
    i
}

/// In a table without repeats, two handles name equal fields exactly if they
/// are the same handle: equal required fields share their handle, and
/// different ones have different handles.
pub proof fn lemma_equal_fields_share_a_handle(table: Seq<RequiredField>, i: int, j: int)
    requires
        fields_distinct(table),
        0 <= i < table.len(),
        0 <= j < table.len(),
    ensures
        (table[i]@ == table[j]@) <==> i == j,
{
    if i < j {
        assert(table[i]@ != table[j]@);
    }
    if j < i {
        assert(table[j]@ != table[i]@);
    }
}

} // verus!
