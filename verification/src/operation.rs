//! An operation as the engine holds it: selection sets and fields in arenas,
//! and walkers that read them together with the schema.

use crate::arena::{EnumValueId, FieldArgumentId, FieldId, IdRange, InputValueDefinitionId, QueryInputValueId, SelectionSetId};
use crate::input_values::{QueryInputValue, QueryInputValues, SchemaInputValue, SchemaInputValues, VariableState};
use crate::schema::Schema;
use vstd::prelude::*;

verus! {

/// The kind of an operation.
#[derive(Clone, Copy, Debug, PartialEq, Eq, Structural)]
pub enum OperationType {
    Query,
    Mutation,
    Subscription,
}

/// A place in the text of a request.
#[derive(Clone, Copy, Debug, PartialEq, Eq, Structural)]
pub struct Location {
    pub line: u16,
    pub column: u16,
}

/// A field of an operation.
#[derive(Debug)]
pub struct OperationField {
    /// The name of the field in the schema.
    pub name: String,
    /// Whether the request gives the field another name in the response.
    pub has_alias: bool,
    pub location: Location,
    /// The arguments of the field.
    pub arguments: IdRange,
    /// What is selected below the field, if anything.
    pub selection_set: Option<SelectionSetId>,
}

/// The fields of one selection set, with the fields of its fragments among them.
#[derive(Debug)]
pub struct SelectionSet {
    pub fields: Vec<FieldId>,
}

/// An argument of a field of an operation.
#[derive(Clone, Copy, Debug)]
pub struct FieldArgument {
    pub input_value_definition_id: InputValueDefinitionId,
    pub input_value_id: QueryInputValueId,
}

/// An operation.
#[derive(Debug)]
pub struct Operation {
    pub ty: OperationType,
    pub root_selection_set_id: SelectionSetId,
    pub selection_sets: Vec<SelectionSet>,
    pub fields: Vec<OperationField>,
    pub field_arguments: Vec<FieldArgument>,
    pub query_input_values: QueryInputValues,
    /// What is known of each variable of the operation.
    pub variables: Vec<VariableState>,
}

/// Reads an item of an operation together with an item of the schema.
#[derive(Debug)]
pub struct OperationWalker<'a, Item, SchemaItem> {
    pub schema: &'a Schema,
    pub schema_item: SchemaItem,
    pub operation: &'a Operation,
    pub item: Item,
}

impl<'a> OperationWalker<'a, (), ()> {
    /// The walker of a whole operation.
    pub fn new(schema: &'a Schema, operation: &'a Operation) -> (r: OperationWalker<'a, (), ()>)
        ensures
            r.schema == schema,
            r.operation == operation,
    {
        OperationWalker { schema, schema_item: (), operation, item: () }
    }

    pub fn as_ref(&self) -> (r: &'a Operation)
        ensures
            r == self.operation,
    {
        self.operation
    }

    pub fn is_query(&self) -> (r: bool)
        ensures
            r == (self.operation.ty == OperationType::Query),
    {
        match self.operation.ty {
            OperationType::Query => true,
            _ => false,
        }
    }

    /// The walker of the operation's root selection set.
    pub fn selection_set(&self) -> (r: OperationWalker<'a, SelectionSetId, ()>)
        ensures
            r.schema == self.schema,
            r.operation == self.operation,
            r.item == self.operation.root_selection_set_id,
    {
        self.walk(self.operation.root_selection_set_id)
    }
}

impl<'a, I, SI> OperationWalker<'a, I, SI> {
    /// The item that the walker reads.
    pub fn id(&self) -> (r: &I)
        ensures
            *r == self.item,
    {
        &self.item
    }

    /// A walker of another item of the same operation, with the same item of the schema.
    pub fn walk<I2>(&self, item: I2) -> (r: OperationWalker<'a, I2, SI>)
        where SI: Copy
        ensures
            r.schema == self.schema,
            r.schema_item == self.schema_item,
            r.operation == self.operation,
            r.item == item,
    {
        OperationWalker { schema: self.schema, schema_item: self.schema_item, operation: self.operation, item }
    }

    /// A walker of another item of the same operation, with another item of the schema.
    pub fn walk_with<I2, SI2>(&self, item: I2, schema_item: SI2) -> (r: OperationWalker<'a, I2, SI2>)
        ensures
            r.schema == self.schema,
            r.schema_item == schema_item,
            r.operation == self.operation,
            r.item == item,
    {
        OperationWalker { schema: self.schema, schema_item, operation: self.operation, item }
    }
}

/// The fields of the schema's input objects that a view shows.
#[derive(Debug)]
pub struct InputValueSet {
    /// The definitions of the fields that are shown; `None` shows all.
    pub selected: Option<Vec<InputValueDefinitionId>>,
}

/// Reads one argument of a field.
#[derive(Debug)]
pub struct FieldArgumentWalker<'a> {
    pub schema: &'a Schema,
    pub operation: &'a Operation,
    pub item: FieldArgumentId,
}

impl<'a> FieldArgumentWalker<'a> {
    /// The value of the argument; `None` where the operation does not hold
    /// the argument or its value, or where the value is undefined.
    pub fn value(&self) -> (r: Option<&'a QueryInputValue>)
        ensures
            match r {
                Some(value) => {
                    &&& self.item.position() < self.operation.field_arguments.len()
                    &&& self.operation.field_arguments[self.item.position() as int].input_value_id.position()
                        < self.operation.query_input_values.values.len()
                    &&& *value == self.operation.query_input_values.values[self.operation.field_arguments[self.item.position() as int].input_value_id.position() as int]
                    &&& !crate::input_values::undefined(*value, self.operation.variables@)
                },
                None => self.item.position() >= self.operation.field_arguments.len() || self.operation.field_arguments[self.item.position() as int].input_value_id.position()
                    >= self.operation.query_input_values.values.len() || crate::input_values::undefined(
                    self.operation.query_input_values.values[self.operation.field_arguments[self.item.position() as int].input_value_id.position() as int],
                    self.operation.variables@,
                ),
            },
    {
        let i = self.item.index();
        if i >= self.operation.field_arguments.len() {
            return None;
        }
        let v = self.operation.field_arguments[i].input_value_id.index();
        if v >= self.operation.query_input_values.values.len() {
            return None;
        }
        let value = &self.operation.query_input_values.values[v];
        if value.is_undefined(&self.operation.variables) {
            None
        } else {
            Some(value)
        }
    }
}

/// Reads the arguments of a field.
#[derive(Debug)]
pub struct FieldArgumentsWalker<'a> {
    pub schema: &'a Schema,
    pub operation: &'a Operation,
    pub item: IdRange,
}

/// The arguments of a field, as far as a set of input values shows them.
#[derive(Debug)]
pub struct FieldArgumentsView<'a> {
    pub inner: FieldArgumentsWalker<'a>,
    pub selection_set: &'a InputValueSet,
}

impl<'a> FieldArgumentsWalker<'a> {
    pub fn is_empty(&self) -> (r: bool)
        ensures
            r == (self.item.count() == 0),
    {
        self.item.is_empty()
    }

    /// The view of the arguments that a set of input values selects.
    pub fn with_selection_set(self, selection_set: &'a InputValueSet) -> (r: FieldArgumentsView<'a>)
        ensures
            r.inner == self,
            r.selection_set == selection_set,
    {
        FieldArgumentsView { inner: self, selection_set }
    }

    /// The walkers of the arguments, in their order.
    pub fn into_iter(self) -> (r: Vec<FieldArgumentWalker<'a>>)
        requires
            self.item.end < u32::MAX,
        ensures
            r.len() == self.item.count(),
            forall|i: int| 0 <= i < r.len() ==> (#[trigger] r[i]).item.position() == self.item.start + i && r[i].operation == self.operation,
    {
        let mut out: Vec<FieldArgumentWalker<'a>> = Vec::new();
        let mut i = self.item.start;
        while i < self.item.end
            invariant
                self.item.start <= i <= self.item.end || (self.item.start > self.item.end && i == self.item.start),
                self.item.end < u32::MAX,
                out.len() == (if self.item.start <= self.item.end { i - self.item.start } else { 0 }),
                forall|j: int| 0 <= j < out.len() ==> (#[trigger] out[j]).item.position() == self.item.start + j && out[j].operation == self.operation,
            decreases self.item.end - i,
        {
            out.push(FieldArgumentWalker { schema: self.schema, operation: self.operation, item: FieldArgumentId::new(i) });
            i = i + 1;
        }
        out
    }
}

/// A value of an operation, as far as a set of input values shows it.
#[derive(Debug)]
pub struct QueryInputValueView<'a> {
    pub inner: &'a QueryInputValue,
    pub selection_set: &'a InputValueSet,
}

impl QueryInputValue {
    /// The view of the value that a set of input values selects.
    pub fn with_selection_set<'a>(&'a self, selection_set: &'a InputValueSet) -> (r: QueryInputValueView<'a>)
        ensures
            r.inner == self,
            r.selection_set == selection_set,
    {
        QueryInputValueView { inner: self, selection_set }
    }

    /// The text of the value in a normalised query: the name of an enum
    /// value, `true` or `false` for a boolean, and the same for a default
    /// value of the schema that is one of the two; nothing for any other
    /// value, nor for one that the schema does not hold.
    pub fn to_normalized_query_const_value_str<'a>(&self, defaults: &SchemaInputValues, enum_names: &'a Vec<String>) -> (r: Option<&'a str>)
        ensures
            match normalized_text(*self, *defaults, enum_names@) {
                Some(text) => r is Some && r->Some_0@ == text,
                None => r is None,
            },
    {
        match self {
            QueryInputValue::EnumValue(id) => name_of_enum(enum_names, *id),
            QueryInputValue::Boolean(b) => Some(boolean_str(*b)),
            QueryInputValue::DefaultValue(id) => if id.index() < defaults.values.len() {
                match &defaults.values[id.index()] {
                    SchemaInputValue::EnumValue(id) => name_of_enum(enum_names, *id),
                    SchemaInputValue::Boolean(b) => Some(boolean_str(*b)),
                    _ => None,
                }
            } else {
                None
            },
            _ => None,
        }
    }
}

/// How a boolean is written.
pub open spec fn boolean_text(b: bool) -> Seq<char> {
    if b {
        "true"@
    } else {
        "false"@
    }
}

/// The name of an enum value, if the names hold it.
pub open spec fn enum_name(names: Seq<String>, id: EnumValueId) -> Option<Seq<char>> {
    if id.position() < names.len() {
        Some(names[id.position() as int]@)
    } else {
        None
    }
}

/// The text that stands for a value in a normalised query, if any does.
pub open spec fn normalized_text(value: QueryInputValue, defaults: SchemaInputValues, names: Seq<String>) -> Option<Seq<char>> {
    match value {
        QueryInputValue::EnumValue(id) => enum_name(names, id),
        QueryInputValue::Boolean(b) => Some(boolean_text(b)),
        QueryInputValue::DefaultValue(id) => if id.position() < defaults.values@.len() {
            match defaults.values@[id.position() as int] {
                SchemaInputValue::EnumValue(id) => enum_name(names, id),
                SchemaInputValue::Boolean(b) => Some(boolean_text(b)),
                _ => None,
            }
        } else {
            None
        },
        _ => None,
    }
}

fn boolean_str(b: bool) -> (r: &'static str)
    ensures
        r@ == boolean_text(b),
{
    if b {
        "true"
    } else {
        "false"
    }
}

fn name_of_enum<'a>(names: &'a Vec<String>, id: EnumValueId) -> (r: Option<&'a str>)
    ensures
        match enum_name(names@, id) {
            Some(text) => r is Some && r->Some_0@ == text,
            None => r is None,
        },
{
    if id.index() < names.len() {
        Some(names[id.index()].as_str())
    } else {
        None
    }
}

} // verus!
