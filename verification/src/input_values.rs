//! The input values of an operation and the default values of a schema:
//! arenas in which nested values are runs of neighbouring slots.

use crate::arena::{EnumValueId, IdRange, InputValueDefinitionId, QueryInputValueId, SchemaInputValueId, StringId, VariableDefinitionId};
use crate::text::same_text;
use vstd::prelude::*;

verus! {

/// One coerced value of an operation. Nested values are ranges of the arena
/// that the value lives in.
#[derive(Debug)]
pub enum QueryInputValue {
    Null,
    String(String),
    EnumValue(EnumValueId),
    Int(i32),
    BigInt(i64),
    /// A floating-point number, as the bits of a double.
    Float(u64),
    Boolean(bool),
    /// A range of the arena's input fields.
    InputObject(IdRange),
    /// A range of the arena's values.
    List(IdRange),
    /// A range of the arena's key-value entries.
    JsonMap(IdRange),
    U64(u64),
    /// A default value of the schema.
    DefaultValue(SchemaInputValueId),
    /// A variable of the operation.
    Variable(VariableDefinitionId),
}

/// One default value of a schema.
#[derive(Debug)]
pub enum SchemaInputValue {
    Null,
    String(StringId),
    EnumValue(EnumValueId),
    Int(i32),
    BigInt(i64),
    /// A floating-point number, as the bits of a double.
    Float(u64),
    Boolean(bool),
    /// A range of the arena's input fields, in the order of their definitions.
    InputObject(IdRange),
    List(IdRange),
    JsonMap(IdRange),
    U64(u64),
}

/// The arena of the input values of one operation.
#[derive(Debug)]
pub struct QueryInputValues {
    /// Single values and the elements of lists.
    pub values: Vec<QueryInputValue>,
    /// The fields of input objects.
    pub input_fields: Vec<(InputValueDefinitionId, QueryInputValue)>,
    /// The entries of maps.
    pub key_values: Vec<(String, QueryInputValue)>,
}

/// The arena of the default values of a schema.
#[derive(Debug)]
pub struct SchemaInputValues {
    pub values: Vec<SchemaInputValue>,
    pub input_fields: Vec<(InputValueDefinitionId, SchemaInputValue)>,
    pub key_values: Vec<(StringId, SchemaInputValue)>,
}

impl QueryInputValues {
    /// An arena without values.
    pub fn new() -> (r: QueryInputValues)
        ensures
            r.values@.len() == 0,
            r.input_fields@.len() == 0,
            r.key_values@.len() == 0,
    {
        QueryInputValues { values: Vec::new(), input_fields: Vec::new(), key_values: Vec::new() }
    }

    /// Adds a value and returns its handle.
    pub fn push_value(&mut self, value: QueryInputValue) -> (id: QueryInputValueId)
        requires
            old(self).values.len() < u32::MAX,
        ensures
            final(self).values@ == old(self).values@.push(value),
            final(self).input_fields@ == old(self).input_fields@,
            final(self).key_values@ == old(self).key_values@,
            id.position() == old(self).values.len(),
    {
        let id = QueryInputValueId::new(self.values.len());
        self.values.push(value);
        id
    }

    /// Reserves the slots of a list of `n` elements, so that the elements
    /// lie side by side. Each slot holds `Null` until it is filled.
    pub fn reserve_list(&mut self, n: usize) -> (range: IdRange)
        requires
            old(self).values.len() + n <= usize::MAX,
        ensures
            range.start == old(self).values.len(),
            range.end == old(self).values.len() + n,
            final(self).values@.len() == old(self).values.len() + n,
            forall|i: int| 0 <= i < old(self).values.len() ==> final(self).values@[i] == old(self).values@[i],
            forall|i: int| old(self).values.len() <= i < final(self).values.len() ==> final(self).values@[i] is Null,
            final(self).input_fields@ == old(self).input_fields@,
            final(self).key_values@ == old(self).key_values@,
    {
        let start = self.values.len();
        let mut k: usize = 0;
        while k < n
            invariant
                k <= n,
                start + n <= usize::MAX,
                start == old(self).values.len(),
                self.values.len() == start + k,
                forall|i: int| 0 <= i < start ==> self.values@[i] == old(self).values@[i],
                forall|i: int| start <= i < self.values.len() ==> self.values@[i] is Null,
                self.input_fields@ == old(self).input_fields@,
                self.key_values@ == old(self).key_values@,
            decreases n - k,
        {
            self.values.push(QueryInputValue::Null);
            k = k + 1;
        }
        IdRange::new(start, self.values.len())
    }

    /// Reserves the entries of a map of `n` entries, so that the entries lie
    /// side by side. Each entry has an empty key and holds `Null` until it is filled.
    pub fn reserve_map(&mut self, n: usize) -> (range: IdRange)
        requires
            old(self).key_values.len() + n <= usize::MAX,
        ensures
            range.start == old(self).key_values.len(),
            range.end == old(self).key_values.len() + n,
            final(self).key_values@.len() == old(self).key_values.len() + n,
            forall|i: int| 0 <= i < old(self).key_values.len() ==> final(self).key_values@[i] == old(self).key_values@[i],
            forall|i: int|
                old(self).key_values.len() <= i < final(self).key_values.len() ==> {
                    &&& final(self).key_values@[i].0@.len() == 0
                    &&& final(self).key_values@[i].1 is Null
                },
            final(self).values@ == old(self).values@,
            final(self).input_fields@ == old(self).input_fields@,
    {
        let start = self.key_values.len();
        let mut k: usize = 0;
        while k < n
            invariant
                k <= n,
                start + n <= usize::MAX,
                start == old(self).key_values.len(),
                self.key_values.len() == start + k,
                forall|i: int| 0 <= i < start ==> self.key_values@[i] == old(self).key_values@[i],
                forall|i: int| start <= i < self.key_values.len() ==> self.key_values@[i].0@.len() == 0 && self.key_values@[i].1 is Null,
                self.values@ == old(self).values@,
                self.input_fields@ == old(self).input_fields@,
            decreases n - k,
        {
            self.key_values.push((String::new(), QueryInputValue::Null));
            k = k + 1;
        }
        IdRange::new(start, self.key_values.len())
    }

    /// Moves the fields of an input object into the arena, side by side, and
    /// leaves the vector empty.
    pub fn append_input_object(&mut self, fields: &mut Vec<(InputValueDefinitionId, QueryInputValue)>) -> (range: IdRange)
        ensures
            range.start == old(self).input_fields.len(),
            range.end == old(self).input_fields.len() + old(fields).len(),
            final(self).input_fields@ == old(self).input_fields@ + old(fields)@,
            final(fields)@.len() == 0,
            final(self).values@ == old(self).values@,
            final(self).key_values@ == old(self).key_values@,
    {
        let start = self.input_fields.len();
        self.input_fields.append(fields);
        IdRange::new(start, self.input_fields.len())
    }

    /// Fills a reserved slot of the values.
    pub fn set_value(&mut self, index: usize, value: QueryInputValue)
        requires
            index < old(self).values.len(),
        ensures
            final(self).values@ == old(self).values@.update(index as int, value),
            final(self).input_fields@ == old(self).input_fields@,
            final(self).key_values@ == old(self).key_values@,
    {
        self.values[index] = value;
    }

    /// Fills a reserved entry of the maps.
    pub fn set_key_value(&mut self, index: usize, key: String, value: QueryInputValue)
        requires
            index < old(self).key_values.len(),
        ensures
            final(self).key_values@ == old(self).key_values@.update(index as int, (key, value)),
            final(self).values@ == old(self).values@,
            final(self).input_fields@ == old(self).input_fields@,
    {
        self.key_values[index] = (key, value);
    }

    /// The value of a handle, if the arena has it.
    pub fn get(&self, id: QueryInputValueId) -> (r: Option<&QueryInputValue>)
        ensures
            r is Some == (id.position() < self.values.len()),
            r is Some ==> *r->Some_0 == self.values@[id.position() as int],
    {
        let i = id.index();
        if i < self.values.len() {
            Some(&self.values[i])
        } else {
            None
        }
    }
}

/// Whether the bits of a double are those of a number, not of a NaN.
pub open spec fn is_number(bits: u64) -> bool {
    bits & 0x7ff0_0000_0000_0000u64 != 0x7ff0_0000_0000_0000u64 || bits & 0x000f_ffff_ffff_ffffu64 == 0
}

/// Whether the bits of a double are those of zero, of either sign.
pub open spec fn is_zero(bits: u64) -> bool {
    bits & 0x7fff_ffff_ffff_ffffu64 == 0
}

/// Whether two doubles, given by their bits, are equal as numbers: a NaN
/// equals nothing, the two zeros equal each other, and any other number
/// equals only itself.
pub open spec fn floats_equal(a: u64, b: u64) -> bool {
    is_number(a) && is_number(b) && (a == b || (is_zero(a) && is_zero(b)))
}

/// Compares two doubles, given by their bits, as numbers.
pub fn float_bits_eq(a: u64, b: u64) -> (r: bool)
    ensures
        r == floats_equal(a, b),
{
    let a_number = a & 0x7ff0_0000_0000_0000u64 != 0x7ff0_0000_0000_0000u64 || a & 0x000f_ffff_ffff_ffffu64 == 0;
    let b_number = b & 0x7ff0_0000_0000_0000u64 != 0x7ff0_0000_0000_0000u64 || b & 0x000f_ffff_ffff_ffffu64 == 0;
    a_number && b_number && (a == b || (a & 0x7fff_ffff_ffff_ffffu64 == 0 && b & 0x7fff_ffff_ffff_ffffu64 == 0))
}

/// What an operation knows of one of its variables.
#[derive(Clone, Copy, Debug, PartialEq, Eq, Structural)]
pub struct VariableState {
    /// Whether the request supplied a value.
    pub supplied: bool,
    /// Whether the variable's definition has a default value.
    pub has_default: bool,
}

/// Whether a value is undefined: it is a variable that the request did not
/// supply and that has no default. A variable that the operation does not
/// know counts as undefined too.
pub open spec fn undefined(value: QueryInputValue, variables: Seq<VariableState>) -> bool {
    match value {
        QueryInputValue::Variable(id) => id.position() >= variables.len() || (!variables[id.position() as int].supplied
            && !variables[id.position() as int].has_default),
        _ => false,
    }
}

impl QueryInputValue {
    /// Whether the value is undefined, so that an optional field that holds
    /// it is absent and not null.
    pub fn is_undefined(&self, variables: &Vec<VariableState>) -> (r: bool)
        ensures
            r == undefined(*self, variables@),
    {
        match self {
            QueryInputValue::Variable(id) => {
                let i = id.index();
                if i < variables.len() {
                    !variables[i].supplied && !variables[i].has_default
                } else {
                    true
                }
            },
            _ => false,
        }
    }
}

/// The position of the first field of the range `[from, end)` of the
/// schema's input fields that has the definition `definition`; `end` if
/// there is none.
pub open spec fn schema_field_from(fields: Seq<(InputValueDefinitionId, SchemaInputValue)>, definition: nat, from: int, end: int) -> int
    decreases end - from,
{
    if from < 0 || from >= end || end > fields.len() {
        end
    } else if fields[from].0.position() == definition {
        from
    } else {
        schema_field_from(fields, definition, from + 1, end)
    }
}

/// The position of the first entry of the range `[from, end)` of the
/// schema's map entries whose key is `key`; `end` if there is none.
pub open spec fn schema_key_from(
    entries: Seq<(StringId, SchemaInputValue)>,
    strings: Seq<String>,
    key: Seq<char>,
    from: int,
    end: int,
) -> int
    decreases end - from,
{
    if from < 0 || from >= end || end > entries.len() {
        end
    } else if entries[from].0.position() < strings.len() && strings[entries[from].0.position() as int]@ == key {
        from
    } else {
        schema_key_from(entries, strings, key, from + 1, end)
    }
}

/// Whether two default values of a schema are equal, as far as `fuel` levels
/// of nesting go: scalars by value, strings by their text, and input objects,
/// lists and maps if they are as long and equal slot by slot.
pub open spec fn schema_values_equal(schema: SchemaInputValues, strings: Seq<String>, left: SchemaInputValue, right: SchemaInputValue, fuel: nat) -> bool
    decreases fuel, 0nat, 0nat,
{
    match (left, right) {
        (SchemaInputValue::Null, SchemaInputValue::Null) => true,
        (SchemaInputValue::String(l), SchemaInputValue::String(r)) => l.position() < strings.len() && r.position() < strings.len()
            && strings[l.position() as int]@ == strings[r.position() as int]@,
        (SchemaInputValue::EnumValue(l), SchemaInputValue::EnumValue(r)) => l.position() == r.position(),
        (SchemaInputValue::Int(l), SchemaInputValue::Int(r)) => l == r,
        (SchemaInputValue::BigInt(l), SchemaInputValue::BigInt(r)) => l == r,
        (SchemaInputValue::U64(l), SchemaInputValue::U64(r)) => l == r,
        (SchemaInputValue::Float(l), SchemaInputValue::Float(r)) => floats_equal(l, r),
        (SchemaInputValue::Boolean(l), SchemaInputValue::Boolean(r)) => l == r,
        (SchemaInputValue::InputObject(l), SchemaInputValue::InputObject(r)) => {
            &&& fuel > 0
            &&& l.within(schema.input_fields@.len())
            &&& r.within(schema.input_fields@.len())
            &&& l.count() == r.count()
            &&& schema_slots_equal(schema, strings, SlotKind::Field, l, r, l.count(), (fuel - 1) as nat)
        },
        (SchemaInputValue::List(l), SchemaInputValue::List(r)) => {
            &&& fuel > 0
            &&& l.within(schema.values@.len())
            &&& r.within(schema.values@.len())
            &&& l.count() == r.count()
            &&& schema_slots_equal(schema, strings, SlotKind::Element, l, r, l.count(), (fuel - 1) as nat)
        },
        (SchemaInputValue::JsonMap(l), SchemaInputValue::JsonMap(r)) => {
            &&& fuel > 0
            &&& l.within(schema.key_values@.len())
            &&& r.within(schema.key_values@.len())
            &&& l.count() == r.count()
            &&& schema_slots_equal(schema, strings, SlotKind::Entry, l, r, l.count(), (fuel - 1) as nat)
        },
        _ => false,
    }
}

/// Which of the three runs of an arena a range lies in.
pub enum SlotKind {
    Element,
    Field,
    Entry,
}

/// Whether the first `n` slots of two ranges of a schema's arena are equal,
/// slot by slot: elements by value, fields by definition and value, entries
/// by key and value.
pub open spec fn schema_slots_equal(
    schema: SchemaInputValues,
    strings: Seq<String>,
    kind: SlotKind,
    l: IdRange,
    r: IdRange,
    n: nat,
    fuel: nat,
) -> bool
    decreases fuel, 1nat, n,
{
    if n == 0 {
        true
    } else {
        let i = l.start + n - 1;
        let j = r.start + n - 1;
        &&& schema_slots_equal(schema, strings, kind, l, r, (n - 1) as nat, fuel)
        &&& match kind {
            SlotKind::Element => schema_values_equal(schema, strings, schema.values@[i], schema.values@[j], fuel),
            SlotKind::Field => schema.input_fields@[i].0.position() == schema.input_fields@[j].0.position() && schema_values_equal(
                schema,
                strings,
                schema.input_fields@[i].1,
                schema.input_fields@[j].1,
                fuel,
            ),
            SlotKind::Entry => {
                let a = schema.key_values@[i].0.position();
                let b = schema.key_values@[j].0.position();
                &&& a < strings.len()
                &&& b < strings.len()
                &&& strings[a as int]@ == strings[b as int]@
                &&& schema_values_equal(schema, strings, schema.key_values@[i].1, schema.key_values@[j].1, fuel)
            },
        }
    }
}

/// Whether a value of an operation equals a default value of the schema, as
/// far as `fuel` levels of nesting go. Scalars are equal by value. Input
/// objects are equal if they have as many fields and each field of the
/// operation's object equals the schema's field of the same definition.
/// Lists are equal if they are as long and equal element by element. A map
/// equals a schema map if the two have as many entries and each of its
/// entries equals the schema's entry of the same key. A reference to a default value equals what that default
/// value equals. A variable, values of different kinds and ranges that leave
/// their arena are never equal.
pub open spec fn values_equal(
    query: QueryInputValues,
    schema: SchemaInputValues,
    strings: Seq<String>,
    left: QueryInputValue,
    right: SchemaInputValue,
    fuel: nat,
) -> bool
    decreases fuel, 0nat, 0nat,
{
    match (left, right) {
        (QueryInputValue::Null, SchemaInputValue::Null) => true,
        (QueryInputValue::String(l), SchemaInputValue::String(r)) => r.position() < strings.len() && l@ == strings[r.position() as int]@,
        (QueryInputValue::EnumValue(l), SchemaInputValue::EnumValue(r)) => l.position() == r.position(),
        (QueryInputValue::Int(l), SchemaInputValue::Int(r)) => l == r,
        (QueryInputValue::BigInt(l), SchemaInputValue::BigInt(r)) => l == r,
        (QueryInputValue::U64(l), SchemaInputValue::U64(r)) => l == r,
        (QueryInputValue::Float(l), SchemaInputValue::Float(r)) => floats_equal(l, r),
        (QueryInputValue::Boolean(l), SchemaInputValue::Boolean(r)) => l == r,
        (QueryInputValue::InputObject(l), SchemaInputValue::InputObject(r)) => {
            &&& fuel > 0
            &&& l.within(query.input_fields@.len())
            &&& r.within(schema.input_fields@.len())
            &&& l.count() == r.count()
            &&& fields_equal(query, schema, strings, l, r, l.count(), (fuel - 1) as nat)
        },
        (QueryInputValue::List(l), SchemaInputValue::List(r)) => {
            &&& fuel > 0
            &&& l.within(query.values@.len())
            &&& r.within(schema.values@.len())
            &&& l.count() == r.count()
            &&& elements_equal(query, schema, strings, l, r, l.count(), (fuel - 1) as nat)
        },
        (QueryInputValue::JsonMap(l), SchemaInputValue::JsonMap(r)) => {
            &&& fuel > 0
            &&& l.within(query.key_values@.len())
            &&& r.within(schema.key_values@.len())
            &&& l.count() == r.count()
            &&& entries_equal(query, schema, strings, l, r, l.count(), (fuel - 1) as nat)
        },
        (QueryInputValue::DefaultValue(id), value) => {
            &&& fuel > 0
            &&& id.position() < schema.values@.len()
            &&& schema_values_equal(schema, strings, schema.values@[id.position() as int], value, (fuel - 1) as nat)
        },
        _ => false,
    }
}

/// Whether each of the first `n` fields of an input object of the operation
/// equals the schema's field of the same definition.
pub open spec fn fields_equal(
    query: QueryInputValues,
    schema: SchemaInputValues,
    strings: Seq<String>,
    l: IdRange,
    r: IdRange,
    n: nat,
    fuel: nat,
) -> bool
    decreases fuel, 1nat, n,
{
    if n == 0 {
        true
    } else {
        let field = query.input_fields@[l.start + n - 1];
        let found = schema_field_from(schema.input_fields@, field.0.position(), r.start as int, r.end as int);
        &&& fields_equal(query, schema, strings, l, r, (n - 1) as nat, fuel)
        &&& found < r.end
        &&& values_equal(query, schema, strings, field.1, schema.input_fields@[found].1, fuel)
    }
}

/// Whether the first `n` elements of two lists are equal, element by element.
pub open spec fn elements_equal(
    query: QueryInputValues,
    schema: SchemaInputValues,
    strings: Seq<String>,
    l: IdRange,
    r: IdRange,
    n: nat,
    fuel: nat,
) -> bool
    decreases fuel, 1nat, n,
{
    if n == 0 {
        true
    } else {
        &&& elements_equal(query, schema, strings, l, r, (n - 1) as nat, fuel)
        &&& values_equal(query, schema, strings, query.values@[l.start + n - 1], schema.values@[r.start + n - 1], fuel)
    }
}

/// Whether each of the first `n` entries of a map of the operation equals
/// the schema's entry of the same key.
pub open spec fn entries_equal(
    query: QueryInputValues,
    schema: SchemaInputValues,
    strings: Seq<String>,
    l: IdRange,
    r: IdRange,
    n: nat,
    fuel: nat,
) -> bool
    decreases fuel, 1nat, n,
{
    if n == 0 {
        true
    } else {
        let entry = query.key_values@[l.start + n - 1];
        let found = schema_key_from(schema.key_values@, strings, entry.0@, r.start as int, r.end as int);
        &&& entries_equal(query, schema, strings, l, r, (n - 1) as nat, fuel)
        &&& found < r.end
        &&& values_equal(query, schema, strings, entry.1, schema.key_values@[found].1, fuel)
    }
}

/// The position of the first field of a range of the schema's input fields
/// that has a definition.
fn find_schema_field(schema: &SchemaInputValues, definition: InputValueDefinitionId, range: IdRange) -> (i: usize)
    requires
        range.within(schema.input_fields@.len()),
    ensures
        i == schema_field_from(schema.input_fields@, definition.position(), range.start as int, range.end as int),
        range.start <= i <= range.end,
{
    let mut i = range.start;
    while i < range.end
        invariant
            range.start <= i <= range.end <= schema.input_fields@.len(),
            schema_field_from(schema.input_fields@, definition.position(), range.start as int, range.end as int) == schema_field_from(
                schema.input_fields@,
                definition.position(),
                i as int,
                range.end as int,
            ),
        decreases range.end - i,
    {
        if schema.input_fields[i].0.same(definition) {
            return i;
        }
        i = i + 1;
    }
    i
}

/// The position of the first entry of a range of the schema's map entries
/// that has a key.
fn find_schema_key(schema: &SchemaInputValues, strings: &Vec<String>, key: &str, range: IdRange) -> (i: usize)
    requires
        range.within(schema.key_values@.len()),
    ensures
        i == schema_key_from(schema.key_values@, strings@, key@, range.start as int, range.end as int),
        range.start <= i <= range.end,
{
    let mut i = range.start;
    while i < range.end
        invariant
            range.start <= i <= range.end <= schema.key_values@.len(),
            schema_key_from(schema.key_values@, strings@, key@, range.start as int, range.end as int) == schema_key_from(
                schema.key_values@,
                strings@,
                key@,
                i as int,
                range.end as int,
            ),
        decreases range.end - i,
    {
        let s = schema.key_values[i].0.index();
        if s < strings.len() && same_text(strings[s].as_str(), key) {
            return i;
        }
        i = i + 1;
    }
    i
}

/// Compares two default values of a schema, to `fuel` levels of nesting.
#[verifier::loop_isolation(false)]
pub fn schema_value_eq(schema: &SchemaInputValues, strings: &Vec<String>, left: &SchemaInputValue, right: &SchemaInputValue, fuel: usize) -> (r: bool)
    ensures
        r == schema_values_equal(*schema, strings@, *left, *right, fuel as nat),
    decreases fuel, 0nat, 0nat,
{
    match (left, right) {
        (SchemaInputValue::Null, SchemaInputValue::Null) => true,
        (SchemaInputValue::String(l), SchemaInputValue::String(r)) => {
            let a = l.index();
            let b = r.index();
            a < strings.len() && b < strings.len() && same_text(strings[a].as_str(), strings[b].as_str())
        },
        (SchemaInputValue::EnumValue(l), SchemaInputValue::EnumValue(r)) => l.same(*r),
        (SchemaInputValue::Int(l), SchemaInputValue::Int(r)) => *l == *r,
        (SchemaInputValue::BigInt(l), SchemaInputValue::BigInt(r)) => *l == *r,
        (SchemaInputValue::U64(l), SchemaInputValue::U64(r)) => *l == *r,
        (SchemaInputValue::Float(l), SchemaInputValue::Float(r)) => float_bits_eq(*l, *r),
        (SchemaInputValue::Boolean(l), SchemaInputValue::Boolean(r)) => *l == *r,
        (SchemaInputValue::InputObject(l), SchemaInputValue::InputObject(r)) => {
            if fuel == 0 || !(l.start <= l.end && l.end <= schema.input_fields.len()) || !(r.start <= r.end && r.end <= schema.input_fields.len())
                || l.len() != r.len() {
                return false;
            }
            let n = l.len();
            let mut k: usize = 0;
            while k < n
                invariant
                    k <= n,
                    schema_slots_equal(*schema, strings@, SlotKind::Field, *l, *r, k as nat, (fuel - 1) as nat),
                decreases n - k,
            {
                let a = &schema.input_fields[l.start + k];
                let b = &schema.input_fields[r.start + k];
                if !(a.0.same(b.0) && schema_value_eq(schema, strings, &a.1, &b.1, fuel - 1)) {
                    proof {
                        lemma_schema_slots_stay_unequal(*schema, strings@, SlotKind::Field, *l, *r, (k + 1) as nat, n as nat, (fuel - 1) as nat);
                    }
                    return false;
                }
                k = k + 1;
            }
            true
        },
        (SchemaInputValue::List(l), SchemaInputValue::List(r)) => {
            if fuel == 0 || !(l.start <= l.end && l.end <= schema.values.len()) || !(r.start <= r.end && r.end <= schema.values.len()) || l.len()
                != r.len() {
                return false;
            }
            let n = l.len();
            let mut k: usize = 0;
            while k < n
                invariant
                    k <= n,
                    schema_slots_equal(*schema, strings@, SlotKind::Element, *l, *r, k as nat, (fuel - 1) as nat),
                decreases n - k,
            {
                if !schema_value_eq(schema, strings, &schema.values[l.start + k], &schema.values[r.start + k], fuel - 1) {
                    proof {
                        lemma_schema_slots_stay_unequal(*schema, strings@, SlotKind::Element, *l, *r, (k + 1) as nat, n as nat, (fuel - 1) as nat);
                    }
                    return false;
                }
                k = k + 1;
            }
            true
        },
        (SchemaInputValue::JsonMap(l), SchemaInputValue::JsonMap(r)) => {
            if fuel == 0 || !(l.start <= l.end && l.end <= schema.key_values.len()) || !(r.start <= r.end && r.end <= schema.key_values.len())
                || l.len() != r.len() {
                return false;
            }
            let n = l.len();
            let mut k: usize = 0;
            while k < n
                invariant
                    k <= n,
                    schema_slots_equal(*schema, strings@, SlotKind::Entry, *l, *r, k as nat, (fuel - 1) as nat),
                decreases n - k,
            {
                let a = &schema.key_values[l.start + k];
                let b = &schema.key_values[r.start + k];
                let x = a.0.index();
                let y = b.0.index();
                if !(x < strings.len() && y < strings.len() && same_text(strings[x].as_str(), strings[y].as_str()) && schema_value_eq(
                    schema,
                    strings,
                    &a.1,
                    &b.1,
                    fuel - 1,
                )) {
                    proof {
                        lemma_schema_slots_stay_unequal(*schema, strings@, SlotKind::Entry, *l, *r, (k + 1) as nat, n as nat, (fuel - 1) as nat);
                    }
                    return false;
                }
                k = k + 1;
            }
            true
        },
        _ => false,
    }
}

/// Once a slot differs, the ranges differ however many more slots are looked at.
pub proof fn lemma_schema_slots_stay_unequal(
    schema: SchemaInputValues,
    strings: Seq<String>,
    kind: SlotKind,
    l: IdRange,
    r: IdRange,
    k: nat,
    n: nat,
    fuel: nat,
)
    requires
        k <= n,
        !schema_slots_equal(schema, strings, kind, l, r, k, fuel),
    ensures
        !schema_slots_equal(schema, strings, kind, l, r, n, fuel),
    decreases n,
{
    if k < n {
        lemma_schema_slots_stay_unequal(schema, strings, kind, l, r, k, (n - 1) as nat, fuel);
    }
}

proof fn lemma_fields_stay_unequal(query: QueryInputValues, schema: SchemaInputValues, strings: Seq<String>, l: IdRange, r: IdRange, k: nat, n: nat, fuel: nat)
    requires
        k <= n,
        !fields_equal(query, schema, strings, l, r, k, fuel),
    ensures
        !fields_equal(query, schema, strings, l, r, n, fuel),
    decreases n,
{
    if k < n {
        lemma_fields_stay_unequal(query, schema, strings, l, r, k, (n - 1) as nat, fuel);
    }
}

proof fn lemma_elements_stay_unequal(query: QueryInputValues, schema: SchemaInputValues, strings: Seq<String>, l: IdRange, r: IdRange, k: nat, n: nat, fuel: nat)
    requires
        k <= n,
        !elements_equal(query, schema, strings, l, r, k, fuel),
    ensures
        !elements_equal(query, schema, strings, l, r, n, fuel),
    decreases n,
{
    if k < n {
        lemma_elements_stay_unequal(query, schema, strings, l, r, k, (n - 1) as nat, fuel);
    }
}

proof fn lemma_entries_stay_unequal(query: QueryInputValues, schema: SchemaInputValues, strings: Seq<String>, l: IdRange, r: IdRange, k: nat, n: nat, fuel: nat)
    requires
        k <= n,
        !entries_equal(query, schema, strings, l, r, k, fuel),
    ensures
        !entries_equal(query, schema, strings, l, r, n, fuel),
    decreases n,
{
    if k < n {
        lemma_entries_stay_unequal(query, schema, strings, l, r, k, (n - 1) as nat, fuel);
    }
}

/// Compares a value of an operation with a default value of the schema, to
/// `fuel` levels of nesting.
#[verifier::loop_isolation(false)]
pub fn query_value_eq(
    query: &QueryInputValues,
    schema: &SchemaInputValues,
    strings: &Vec<String>,
    left: &QueryInputValue,
    right: &SchemaInputValue,
    fuel: usize,
) -> (r: bool)
    ensures
        r == values_equal(*query, *schema, strings@, *left, *right, fuel as nat),
    decreases fuel, 0nat, 0nat,
{
    match (left, right) {
        (QueryInputValue::Null, SchemaInputValue::Null) => true,
        (QueryInputValue::String(l), SchemaInputValue::String(r)) => {
            let b = r.index();
            b < strings.len() && same_text(l.as_str(), strings[b].as_str())
        },
        (QueryInputValue::EnumValue(l), SchemaInputValue::EnumValue(r)) => l.same(*r),
        (QueryInputValue::Int(l), SchemaInputValue::Int(r)) => *l == *r,
        (QueryInputValue::BigInt(l), SchemaInputValue::BigInt(r)) => *l == *r,
        (QueryInputValue::U64(l), SchemaInputValue::U64(r)) => *l == *r,
        (QueryInputValue::Float(l), SchemaInputValue::Float(r)) => float_bits_eq(*l, *r),
        (QueryInputValue::Boolean(l), SchemaInputValue::Boolean(r)) => *l == *r,
        (QueryInputValue::InputObject(l), SchemaInputValue::InputObject(r)) => {
            if fuel == 0 || !(l.start <= l.end && l.end <= query.input_fields.len()) || !(r.start <= r.end && r.end <= schema.input_fields.len())
                || l.len() != r.len() {
                return false;
            }
            let n = l.len();
            let mut k: usize = 0;
            while k < n
                invariant
                    k <= n,
                    fields_equal(*query, *schema, strings@, *l, *r, k as nat, (fuel - 1) as nat),
                decreases n - k,
            {
                let field = &query.input_fields[l.start + k];
                let found = find_schema_field(schema, field.0, *r);
                if !(found < r.end && query_value_eq(query, schema, strings, &field.1, &schema.input_fields[found].1, fuel - 1)) {
                    proof {
                        lemma_fields_stay_unequal(*query, *schema, strings@, *l, *r, (k + 1) as nat, n as nat, (fuel - 1) as nat);
                    }
                    return false;
                }
                k = k + 1;
            }
            true
        },
        (QueryInputValue::List(l), SchemaInputValue::List(r)) => {
            if fuel == 0 || !(l.start <= l.end && l.end <= query.values.len()) || !(r.start <= r.end && r.end <= schema.values.len()) || l.len()
                != r.len() {
                return false;
            }
            let n = l.len();
            let mut k: usize = 0;
            while k < n
                invariant
                    k <= n,
                    elements_equal(*query, *schema, strings@, *l, *r, k as nat, (fuel - 1) as nat),
                decreases n - k,
            {
                if !query_value_eq(query, schema, strings, &query.values[l.start + k], &schema.values[r.start + k], fuel - 1) {
                    proof {
                        lemma_elements_stay_unequal(*query, *schema, strings@, *l, *r, (k + 1) as nat, n as nat, (fuel - 1) as nat);
                    }
                    return false;
                }
                k = k + 1;
            }
            true
        },
        (QueryInputValue::JsonMap(l), SchemaInputValue::JsonMap(r)) => {
            if fuel == 0 || !(l.start <= l.end && l.end <= query.key_values.len()) || !(r.start <= r.end && r.end <= schema.key_values.len())
                || l.len() != r.len() {
                return false;
            }
            let n = l.len();
            let mut k: usize = 0;
            while k < n
                invariant
                    k <= n,
                    entries_equal(*query, *schema, strings@, *l, *r, k as nat, (fuel - 1) as nat),
                decreases n - k,
            {
                let entry = &query.key_values[l.start + k];
                let found = find_schema_key(schema, strings, entry.0.as_str(), *r);
                if !(found < r.end && query_value_eq(query, schema, strings, &entry.1, &schema.key_values[found].1, fuel - 1)) {
                    proof {
                        lemma_entries_stay_unequal(*query, *schema, strings@, *l, *r, (k + 1) as nat, n as nat, (fuel - 1) as nat);
                    }
                    return false;
                }
                k = k + 1;
            }
            true
        },
        (QueryInputValue::DefaultValue(id), value) => {
            let i = id.index();
            fuel > 0 && i < schema.values.len() && schema_value_eq(schema, strings, &schema.values[i], value, fuel - 1)
        },
        _ => false,
    }
}

/// How deep two arenas can nest at most: the number of their slots.
pub open spec fn nesting_bound(query: QueryInputValues, schema: SchemaInputValues) -> nat {
    let total = query.values@.len() + query.input_fields@.len() + query.key_values@.len() + schema.values@.len() + schema.input_fields@.len()
        + schema.key_values@.len() + 1;
    if total <= usize::MAX {
        total
    } else {
        usize::MAX as nat
    }
}

impl QueryInputValues {
    /// Whether a value of this arena equals a default value of the schema.
    /// Values are followed as deep as the two arenas can nest.
    pub fn eq(&self, schema: &SchemaInputValues, strings: &Vec<String>, left: &QueryInputValue, right: &SchemaInputValue) -> (r: bool)
        ensures
            r == values_equal(*self, *schema, strings@, *left, *right, nesting_bound(*self, *schema)),
    {
        let mut fuel: usize = 1;
        fuel = fuel.saturating_add(self.values.len());
        fuel = fuel.saturating_add(self.input_fields.len());
        fuel = fuel.saturating_add(self.key_values.len());
        fuel = fuel.saturating_add(schema.values.len());
        fuel = fuel.saturating_add(schema.input_fields.len());
        fuel = fuel.saturating_add(schema.key_values.len());
        query_value_eq(self, schema, strings, left, right, fuel)
    }
}

} // verus!
