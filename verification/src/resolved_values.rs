//! Input values as trees: what the values of an operation's arena come to
//! once defaults and variables are followed.

use crate::arena::{EnumValueId, IdRange, InputValueDefinitionId, QueryInputValueId};
use crate::input_values::{undefined, QueryInputValue, QueryInputValues, SchemaInputValue, SchemaInputValues, VariableState};
use vstd::prelude::*;

verus! {

/// An input value with its nested values inside it.
#[derive(Debug)]
pub enum ResolvedValue {
    Null,
    Text(String),
    EnumValue(EnumValueId),
    Int(i32),
    BigInt(i64),
    /// A floating-point number, as the bits of a double.
    Float(u64),
    Boolean(bool),
    InputObject(Vec<(InputValueDefinitionId, ResolvedValue)>),
    List(Vec<ResolvedValue>),
    JsonMap(Vec<(String, ResolvedValue)>),
    U64(u64),
}

/// What the variables of an operation stand for: for each variable, the
/// value in the operation's arena that it has, if it has one.
pub struct VariableValues<'a> {
    pub states: &'a Vec<VariableState>,
    pub values: &'a Vec<Option<QueryInputValueId>>,
}

/// Whether a tree is what a default value of the schema comes to, as deep
/// as `fuel` levels of nesting. What lies deeper, or outside the arena, is `Null`.
pub open spec fn is_schema_tree(tree: ResolvedValue, schema: SchemaInputValues, strings: Seq<String>, value: SchemaInputValue, fuel: nat) -> bool
    decreases fuel, 0nat,
{
    match value {
        SchemaInputValue::Null => tree is Null,
        SchemaInputValue::String(id) => if id.position() < strings.len() {
            tree is Text && tree->Text_0@ == strings[id.position() as int]@
        } else {
            tree is Null
        },
        SchemaInputValue::EnumValue(id) => tree == ResolvedValue::EnumValue(id),
        SchemaInputValue::Int(n) => tree == ResolvedValue::Int(n),
        SchemaInputValue::BigInt(n) => tree == ResolvedValue::BigInt(n),
        SchemaInputValue::U64(n) => tree == ResolvedValue::U64(n),
        SchemaInputValue::Float(f) => tree == ResolvedValue::Float(f),
        SchemaInputValue::Boolean(b) => tree == ResolvedValue::Boolean(b),
        SchemaInputValue::InputObject(range) => if fuel > 0 && range.within(schema.input_fields@.len()) {
            &&& tree is InputObject
            &&& tree->InputObject_0.len() == range.count()
            &&& forall|i: int|
                0 <= i < range.count() ==> (#[trigger] tree->InputObject_0[i]).0 == schema.input_fields@[range.start + i].0 && is_schema_tree(
                    tree->InputObject_0[i].1,
                    schema,
                    strings,
                    schema.input_fields@[range.start + i].1,
                    (fuel - 1) as nat,
                )
        } else {
            tree is Null
        },
        SchemaInputValue::List(range) => if fuel > 0 && range.within(schema.values@.len()) {
            &&& tree is List
            &&& tree->List_0.len() == range.count()
            &&& forall|i: int|
                0 <= i < range.count() ==> is_schema_tree(#[trigger] tree->List_0[i], schema, strings, schema.values@[range.start + i], (fuel - 1) as nat)
        } else {
            tree is Null
        },
        SchemaInputValue::JsonMap(range) => if fuel > 0 && range.within(schema.key_values@.len()) {
            &&& tree is JsonMap
            &&& tree->JsonMap_0.len() == range.count()
            &&& forall|i: int|
                0 <= i < range.count() ==> {
                    let key = schema.key_values@[range.start + i].0.position();
                    &&& (#[trigger] tree->JsonMap_0[i]).0@ == (if key < strings.len() {
                        strings[key as int]@
                    } else {
                        Seq::empty()
                    })
                    &&& is_schema_tree(tree->JsonMap_0[i].1, schema, strings, schema.key_values@[range.start + i].1, (fuel - 1) as nat)
                }
        } else {
            tree is Null
        },
    }
}

/// Makes the tree of a default value of the schema.
#[verifier::loop_isolation(false)]
pub fn schema_tree(schema: &SchemaInputValues, strings: &Vec<String>, value: &SchemaInputValue, fuel: usize) -> (r: ResolvedValue)
    ensures
        is_schema_tree(r, *schema, strings@, *value, fuel as nat),
    decreases fuel, 0nat,
{
    match value {
        SchemaInputValue::Null => ResolvedValue::Null,
        SchemaInputValue::String(id) => {
            let i = id.index();
            if i < strings.len() {
                ResolvedValue::Text(strings[i].clone())
            } else {
                ResolvedValue::Null
            }
        },
        SchemaInputValue::EnumValue(id) => ResolvedValue::EnumValue(*id),
        SchemaInputValue::Int(n) => ResolvedValue::Int(*n),
        SchemaInputValue::BigInt(n) => ResolvedValue::BigInt(*n),
        SchemaInputValue::U64(n) => ResolvedValue::U64(*n),
        SchemaInputValue::Float(f) => ResolvedValue::Float(*f),
        SchemaInputValue::Boolean(b) => ResolvedValue::Boolean(*b),
        SchemaInputValue::InputObject(range) => {
            if fuel == 0 || !(range.start <= range.end && range.end <= schema.input_fields.len()) {
                return ResolvedValue::Null;
            }
            let mut fields: Vec<(InputValueDefinitionId, ResolvedValue)> = Vec::new();
            let mut i = range.start;
            while i < range.end
                invariant
                    range.start <= i <= range.end,
                    fields.len() == i - range.start,
                    forall|k: int|
                        0 <= k < fields.len() ==> (#[trigger] fields[k]).0 == schema.input_fields@[range.start + k].0 && is_schema_tree(
                            fields[k].1,
                            *schema,
                            strings@,
                            schema.input_fields@[range.start + k].1,
                            (fuel - 1) as nat,
                        ),
                decreases range.end - i,
            {
                fields.push((schema.input_fields[i].0, schema_tree(schema, strings, &schema.input_fields[i].1, fuel - 1)));
                i = i + 1;
            }
            ResolvedValue::InputObject(fields)
        },
        SchemaInputValue::List(range) => {
            if fuel == 0 || !(range.start <= range.end && range.end <= schema.values.len()) {
                return ResolvedValue::Null;
            }
            let mut items: Vec<ResolvedValue> = Vec::new();
            let mut i = range.start;
            while i < range.end
                invariant
                    range.start <= i <= range.end,
                    items.len() == i - range.start,
                    forall|k: int|
                        0 <= k < items.len() ==> is_schema_tree(#[trigger] items[k], *schema, strings@, schema.values@[range.start + k], (fuel - 1) as nat),
                decreases range.end - i,
            {
                items.push(schema_tree(schema, strings, &schema.values[i], fuel - 1));
                i = i + 1;
            }
            ResolvedValue::List(items)
        },
        SchemaInputValue::JsonMap(range) => {
            if fuel == 0 || !(range.start <= range.end && range.end <= schema.key_values.len()) {
                return ResolvedValue::Null;
            }
            let mut entries: Vec<(String, ResolvedValue)> = Vec::new();
            let mut i = range.start;
            while i < range.end
                invariant
                    range.start <= i <= range.end,
                    entries.len() == i - range.start,
                    forall|k: int|
                        0 <= k < entries.len() ==> {
                            let key = schema.key_values@[range.start + k].0.position();
                            &&& (#[trigger] entries[k]).0@ == (if key < strings@.len() {
                                strings@[key as int]@
                            } else {
                                Seq::empty()
                            })
                            &&& is_schema_tree(entries[k].1, *schema, strings@, schema.key_values@[range.start + k].1, (fuel - 1) as nat)
                        },
                decreases range.end - i,
            {
                let key = schema.key_values[i].0.index();
                let name = if key < strings.len() {
                    strings[key].clone()
                } else {
                    String::new()
                };
                entries.push((name, schema_tree(schema, strings, &schema.key_values[i].1, fuel - 1)));
                i = i + 1;
            }
            ResolvedValue::JsonMap(entries)
        },
    }
}

/// The value that a variable has, if it has one in the arena.
pub open spec fn variable_value(values: Seq<Option<QueryInputValueId>>, query: QueryInputValues, id: nat) -> Option<QueryInputValue> {
    if id < values.len() && values[id as int] is Some && values[id as int]->Some_0.position() < query.values@.len() {
        Some(query.values@[values[id as int]->Some_0.position() as int])
    } else {
        None
    }
}

/// The fields of an input object, from the `k`-th of the range on, that are defined.
pub open spec fn defined_from(query: QueryInputValues, states: Seq<VariableState>, range: IdRange, k: int) -> Seq<int>
    decreases range.end - k,
{
    if k < range.start || k >= range.end || range.end > query.input_fields@.len() {
        Seq::empty()
    } else if undefined(query.input_fields@[k].1, states) {
        defined_from(query, states, range, k + 1)
    } else {
        seq![k] + defined_from(query, states, range, k + 1)
    }
}

/// Whether a tree is what a value of an operation comes to, as deep as
/// `fuel` levels of nesting: scalars are themselves; an input object holds
/// its fields that are defined, a list its elements and a map its entries,
/// each as its tree; a default value is the tree of the schema's value; a
/// variable is the tree of its value, or `Null` where it has none. What lies
/// deeper, or outside the arena, is `Null`.
pub open spec fn is_tree(
    tree: ResolvedValue,
    query: QueryInputValues,
    schema: SchemaInputValues,
    strings: Seq<String>,
    states: Seq<VariableState>,
    values: Seq<Option<QueryInputValueId>>,
    value: QueryInputValue,
    fuel: nat,
) -> bool
    decreases fuel, 0nat,
{
    match value {
        QueryInputValue::Null => tree is Null,
        QueryInputValue::String(s) => tree is Text && tree->Text_0@ == s@,
        QueryInputValue::EnumValue(id) => tree == ResolvedValue::EnumValue(id),
        QueryInputValue::Int(n) => tree == ResolvedValue::Int(n),
        QueryInputValue::BigInt(n) => tree == ResolvedValue::BigInt(n),
        QueryInputValue::U64(n) => tree == ResolvedValue::U64(n),
        QueryInputValue::Float(f) => tree == ResolvedValue::Float(f),
        QueryInputValue::Boolean(b) => tree == ResolvedValue::Boolean(b),
        QueryInputValue::InputObject(range) => if fuel > 0 && range.within(query.input_fields@.len()) {
            let kept = defined_from(query, states, range, range.start as int);
            &&& tree is InputObject
            &&& tree->InputObject_0.len() == kept.len()
            &&& forall|i: int|
                0 <= i < kept.len() ==> (#[trigger] tree->InputObject_0[i]).0 == query.input_fields@[kept[i]].0 && is_tree(
                    tree->InputObject_0[i].1,
                    query,
                    schema,
                    strings,
                    states,
                    values,
                    query.input_fields@[kept[i]].1,
                    (fuel - 1) as nat,
                )
        } else {
            tree is Null
        },
        QueryInputValue::List(range) => if fuel > 0 && range.within(query.values@.len()) {
            &&& tree is List
            &&& tree->List_0.len() == range.count()
            &&& forall|i: int|
                0 <= i < range.count() ==> is_tree(
                    #[trigger] tree->List_0[i],
                    query,
                    schema,
                    strings,
                    states,
                    values,
                    query.values@[range.start + i],
                    (fuel - 1) as nat,
                )
        } else {
            tree is Null
        },
        QueryInputValue::JsonMap(range) => if fuel > 0 && range.within(query.key_values@.len()) {
            &&& tree is JsonMap
            &&& tree->JsonMap_0.len() == range.count()
            &&& forall|i: int|
                0 <= i < range.count() ==> (#[trigger] tree->JsonMap_0[i]).0@ == query.key_values@[range.start + i].0@ && is_tree(
                    tree->JsonMap_0[i].1,
                    query,
                    schema,
                    strings,
                    states,
                    values,
                    query.key_values@[range.start + i].1,
                    (fuel - 1) as nat,
                )
        } else {
            tree is Null
        },
        QueryInputValue::DefaultValue(id) => if fuel > 0 && id.position() < schema.values@.len() {
            is_schema_tree(tree, schema, strings, schema.values@[id.position() as int], (fuel - 1) as nat)
        } else {
            tree is Null
        },
        QueryInputValue::Variable(id) => match variable_value(values, query, id.position()) {
            Some(held) => if fuel > 0 {
                is_tree(tree, query, schema, strings, states, values, held, (fuel - 1) as nat)
            } else {
                tree is Null
            },
            None => tree is Null,
        },
    }
}

/// Makes the tree of a value of an operation.
#[verifier::loop_isolation(false)]
pub fn to_input_value(
    query: &QueryInputValues,
    schema: &SchemaInputValues,
    strings: &Vec<String>,
    variables: &VariableValues<'_>,
    value: &QueryInputValue,
    fuel: usize,
) -> (r: ResolvedValue)
    ensures
        is_tree(r, *query, *schema, strings@, variables.states@, variables.values@, *value, fuel as nat),
    decreases fuel, 0nat,
{
    match value {
        QueryInputValue::Null => ResolvedValue::Null,
        QueryInputValue::String(s) => ResolvedValue::Text(s.clone()),
        QueryInputValue::EnumValue(id) => ResolvedValue::EnumValue(*id),
        QueryInputValue::Int(n) => ResolvedValue::Int(*n),
        QueryInputValue::BigInt(n) => ResolvedValue::BigInt(*n),
        QueryInputValue::U64(n) => ResolvedValue::U64(*n),
        QueryInputValue::Float(f) => ResolvedValue::Float(*f),
        QueryInputValue::Boolean(b) => ResolvedValue::Boolean(*b),
        QueryInputValue::InputObject(range) => {
            if fuel == 0 || !(range.start <= range.end && range.end <= query.input_fields.len()) {
                return ResolvedValue::Null;
            }
            let ghost all = defined_from(*query, variables.states@, *range, range.start as int);
            let mut fields: Vec<(InputValueDefinitionId, ResolvedValue)> = Vec::new();
            let ghost mut kept: Seq<int> = Seq::empty();
            let mut i = range.start;
            while i < range.end
                invariant
                    range.start <= i <= range.end,
                    fields.len() == kept.len(),
                    all == kept + defined_from(*query, variables.states@, *range, i as int),
                    forall|k: int|
                        0 <= k < kept.len() ==> range.start <= #[trigger] kept[k] < range.end && fields[k].0 == query.input_fields@[kept[k]].0 && is_tree(
                            fields[k].1,
                            *query,
                            *schema,
                            strings@,
                            variables.states@,
                            variables.values@,
                            query.input_fields@[kept[k]].1,
                            (fuel - 1) as nat,
                        ),
                decreases range.end - i,
            {
                let field = &query.input_fields[i];
                if !field.1.is_undefined(variables.states) {
                    proof {
                        let rest = defined_from(*query, variables.states@, *range, i + 1);
                        assert(kept + (seq![i as int] + rest) =~= kept.push(i as int) + rest);
                        kept = kept.push(i as int);
                    }
                    fields.push((field.0, to_input_value(query, schema, strings, variables, &field.1, fuel - 1)));
                }
                i = i + 1;
            }
            assert(kept + Seq::<int>::empty() =~= kept);
            ResolvedValue::InputObject(fields)
        },
        QueryInputValue::List(range) => {
            if fuel == 0 || !(range.start <= range.end && range.end <= query.values.len()) {
                return ResolvedValue::Null;
            }
            let mut items: Vec<ResolvedValue> = Vec::new();
            let mut i = range.start;
            while i < range.end
                invariant
                    range.start <= i <= range.end,
                    items.len() == i - range.start,
                    forall|k: int|
                        0 <= k < items.len() ==> is_tree(
                            #[trigger] items[k],
                            *query,
                            *schema,
                            strings@,
                            variables.states@,
                            variables.values@,
                            query.values@[range.start + k],
                            (fuel - 1) as nat,
                        ),
                decreases range.end - i,
            {
                items.push(to_input_value(query, schema, strings, variables, &query.values[i], fuel - 1));
                i = i + 1;
            }
            ResolvedValue::List(items)
        },
        QueryInputValue::JsonMap(range) => {
            if fuel == 0 || !(range.start <= range.end && range.end <= query.key_values.len()) {
                return ResolvedValue::Null;
            }
            let mut entries: Vec<(String, ResolvedValue)> = Vec::new();
            let mut i = range.start;
            while i < range.end
                invariant
                    range.start <= i <= range.end,
                    entries.len() == i - range.start,
                    forall|k: int|
                        0 <= k < entries.len() ==> (#[trigger] entries[k]).0@ == query.key_values@[range.start + k].0@ && is_tree(
                            entries[k].1,
                            *query,
                            *schema,
                            strings@,
                            variables.states@,
                            variables.values@,
                            query.key_values@[range.start + k].1,
                            (fuel - 1) as nat,
                        ),
                decreases range.end - i,
            {
                entries.push(
                    (query.key_values[i].0.clone(), to_input_value(query, schema, strings, variables, &query.key_values[i].1, fuel - 1)),
                );
                i = i + 1;
            }
            ResolvedValue::JsonMap(entries)
        },
        QueryInputValue::DefaultValue(id) => {
            let i = id.index();
            if fuel > 0 && i < schema.values.len() {
                schema_tree(schema, strings, &schema.values[i], fuel - 1)
            } else {
                ResolvedValue::Null
            }
        },
        QueryInputValue::Variable(id) => {
            let v = id.index();
            if v < variables.values.len() {
                match variables.values[v] {
                    Some(held) => {
                        let h = held.index();
                        if h < query.values.len() {
                            if fuel > 0 {
                                to_input_value(query, schema, strings, variables, &query.values[h], fuel - 1)
                            } else {
                                ResolvedValue::Null
                            }
                        } else {
                            ResolvedValue::Null
                        }
                    },
                    None => ResolvedValue::Null,
                }
            } else {
                ResolvedValue::Null
            }
        },
    }
}

} // verus!
