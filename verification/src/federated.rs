//! The composed graph of a federation: the schema that composition hands
//! to the engine, in its current layout, and how the layout before it is
//! brought up to it.

use vstd::prelude::*;
use vstd::slice::slice_subrange;

verus! {

#[derive(Clone, Copy, Debug, PartialEq, Eq, Structural)]
pub struct StringId(pub usize);

#[derive(Clone, Copy, Debug, PartialEq, Eq, Structural)]
pub struct SubgraphId(pub usize);

#[derive(Clone, Copy, Debug, PartialEq, Eq, Structural)]
pub struct ObjectId(pub usize);

#[derive(Clone, Copy, Debug, PartialEq, Eq, Structural)]
pub struct InterfaceId(pub usize);

#[derive(Clone, Copy, Debug, PartialEq, Eq, Structural)]
pub struct FieldId(pub usize);

#[derive(Clone, Copy, Debug, PartialEq, Eq, Structural)]
pub struct ScalarId(pub usize);

#[derive(Clone, Copy, Debug, PartialEq, Eq, Structural)]
pub struct UnionId(pub usize);

#[derive(Clone, Copy, Debug, PartialEq, Eq, Structural)]
pub struct EnumId(pub usize);

#[derive(Clone, Copy, Debug, PartialEq, Eq, Structural)]
pub struct InputObjectId(pub usize);

#[derive(Clone, Copy, Debug, PartialEq, Eq, Structural)]
pub struct EnumValueId(pub usize);

#[derive(Clone, Copy, Debug, PartialEq, Eq, Structural)]
pub struct InputValueDefinitionId(pub usize);

#[derive(Clone, Copy, Debug, PartialEq, Eq, Structural)]
pub struct DirectiveId(pub usize);

#[derive(Clone, Copy, Debug, PartialEq, Eq, Structural)]
pub struct AuthorizedDirectiveId(pub usize);

/// A definition of the graph that has a name.
#[derive(Clone, Copy, Debug, PartialEq, Eq, Structural)]
pub enum Definition {
    Scalar(ScalarId),
    Object(ObjectId),
    Interface(InterfaceId),
    Union(UnionId),
    Enum(EnumId),
    InputObject(InputObjectId),
}

/// A run of directives: where it starts and how many it holds.
#[derive(Clone, Copy, Debug, PartialEq, Eq, Structural)]
pub struct Directives {
    pub start: DirectiveId,
    pub len: usize,
}

/// A run of argument or input field definitions.
#[derive(Clone, Copy, Debug, PartialEq, Eq, Structural)]
pub struct InputValueDefinitions {
    pub start: InputValueDefinitionId,
    pub len: usize,
}

/// A run of enum values.
#[derive(Clone, Copy, Debug, PartialEq, Eq, Structural)]
pub struct EnumValues {
    pub start: EnumValueId,
    pub len: usize,
}

/// A value of an enum.
#[derive(Clone, Copy, Debug, PartialEq, Eq, Structural)]
pub struct EnumValue {
    pub name: StringId,
    pub composed_directives: Directives,
    pub description: Option<StringId>,
}

/// A run of fields, from `start` up to, but not including, `end`.
#[derive(Clone, Copy, Debug, PartialEq, Eq, Structural)]
pub struct Fields {
    pub start: FieldId,
    pub end: FieldId,
}

/// A subgraph.
#[derive(Clone, Copy, Debug, PartialEq, Eq, Structural)]
pub struct Subgraph {
    pub name: StringId,
    pub url: StringId,
}

/// The root types of the graph.
#[derive(Clone, Copy, Debug, PartialEq, Eq, Structural)]
pub struct RootOperationTypes {
    pub query: ObjectId,
    pub mutation: Option<ObjectId>,
    pub subscription: Option<ObjectId>,
}

/// A value of a directive's argument or a default value.
#[derive(Debug)]
pub enum Value {
    Null,
    String(StringId),
    Int(i64),
    /// A floating-point number, as the bits of a double.
    Float(u64),
    Boolean(bool),
    /// An enum value that is known by its name only.
    UnboundEnumValue(StringId),
    EnumValue(EnumValueId),
    Object(Vec<(StringId, Value)>),
    List(Vec<Value>),
}

impl Value {
    pub fn is_list(&self) -> (r: bool)
        ensures
            r == (*self is List),
    {
        match self {
            Value::List(_) => true,
            _ => false,
        }
    }

    pub fn is_null(&self) -> (r: bool)
        ensures
            r == (*self is Null),
    {
        match self {
            Value::Null => true,
            _ => false,
        }
    }
}

/// A value in the layout before the current one.
#[derive(Debug)]
pub enum ValueV3 {
    Null,
    String(StringId),
    Int(i64),
    Float(u64),
    Boolean(bool),
    EnumValue(StringId),
    Object(Vec<(StringId, ValueV3)>),
    List(Vec<ValueV3>),
}

/// Whether a value is what a value of the layout before becomes: the same
/// value, with an enum value turned into the string of its name.
pub open spec fn is_value_of(new: Value, old: ValueV3) -> bool
    decreases old,
{
    match old {
        ValueV3::Null => new is Null,
        ValueV3::String(s) => new == Value::String(s),
        ValueV3::Int(i) => new == Value::Int(i),
        ValueV3::Float(f) => new == Value::Float(f),
        ValueV3::Boolean(b) => new == Value::Boolean(b),
        ValueV3::EnumValue(s) => new == Value::String(s),
        ValueV3::Object(fields) => new is Object && new->Object_0.len() == fields.len() && forall|i: int|
            0 <= i < fields.len() ==> (#[trigger] new->Object_0[i]).0 == fields[i].0 && is_value_of(new->Object_0[i].1, fields[i].1),
        ValueV3::List(items) => new is List && new->List_0.len() == items.len() && forall|i: int|
            0 <= i < items.len() ==> is_value_of(#[trigger] new->List_0[i], items[i]),
    }
}

/// Brings a value up to the current layout.
#[verifier::loop_isolation(false)]
pub fn value_from_v3(value: &ValueV3) -> (r: Value)
    ensures
        is_value_of(r, *value),
    decreases value,
{
    match value {
        ValueV3::Null => Value::Null,
        ValueV3::String(s) => Value::String(*s),
        ValueV3::Int(i) => Value::Int(*i),
        ValueV3::Float(f) => Value::Float(*f),
        ValueV3::Boolean(b) => Value::Boolean(*b),
        ValueV3::EnumValue(s) => Value::String(*s),
        ValueV3::Object(fields) => {
            let mut out: Vec<(StringId, Value)> = Vec::new();
            let mut i: usize = 0;
            while i < fields.len()
                invariant
                    i <= fields.len(),
                    out.len() == i,
                    forall|j: int| 0 <= j < i ==> (#[trigger] out[j]).0 == fields[j].0 && is_value_of(out[j].1, fields[j].1),
                decreases fields.len() - i,
            {
                assert(decreases_to!(value => value->Object_0));
                assert(decreases_to!(fields => fields[i as int]));
                assert(decreases_to!(fields[i as int] => fields[i as int].1));
                out.push((fields[i].0, value_from_v3(&fields[i].1)));
                i = i + 1;
            }
            Value::Object(out)
        },
        ValueV3::List(items) => {
            let mut out: Vec<Value> = Vec::new();
            let mut i: usize = 0;
            while i < items.len()
                invariant
                    i <= items.len(),
                    out.len() == i,
                    forall|j: int| 0 <= j < i ==> is_value_of(#[trigger] out[j], items[j]),
                decreases items.len() - i,
            {
                assert(decreases_to!(value => value->List_0));
                assert(decreases_to!(items => items[i as int]));
                out.push(value_from_v3(&items[i]));
                i = i + 1;
            }
            Value::List(out)
        },
    }
}

/// One field of a field set of the layout before: a field, the values of
/// its arguments, and the field set below it.
#[derive(Debug)]
pub struct FieldSetItem {
    pub field: FieldId,
    pub arguments: Vec<(InputValueDefinitionId, ValueV3)>,
    pub subselection: Vec<FieldSetItem>,
}

/// One selection of a selection set.
#[derive(Debug)]
pub enum Selection {
    Field { field: FieldId, arguments: Vec<(InputValueDefinitionId, Value)>, subselection: Vec<Selection> },
    InlineFragment { on: Definition, subselection: Vec<Selection> },
}

/// Whether a selection is what an item of a field set becomes: the
/// selection of the item's field, with its arguments brought up to the
/// current layout and its field set turned into a selection set.
pub open spec fn is_selection_of(new: Selection, old: FieldSetItem) -> bool
    decreases old,
{
    &&& new is Field
    &&& new->field == old.field
    &&& new->arguments.len() == old.arguments.len()
    &&& forall|i: int|
        0 <= i < old.arguments.len() ==> (#[trigger] new->arguments[i]).0 == old.arguments[i].0 && is_value_of(new->arguments[i].1, old.arguments[i].1)
    &&& new->Field_subselection.len() == old.subselection.len()
    &&& forall|i: int| 0 <= i < old.subselection.len() ==> is_selection_of(#[trigger] new->Field_subselection[i], old.subselection[i])
}

/// Whether a selection set is what a field set becomes.
pub open spec fn is_selection_set_of(new: Vec<Selection>, old: Vec<FieldSetItem>) -> bool {
    new.len() == old.len() && forall|i: int| 0 <= i < old.len() ==> is_selection_of(#[trigger] new[i], old[i])
}

/// Turns a field set into a selection set.
#[verifier::loop_isolation(false)]
pub fn field_set_to_selection_set(field_set: &Vec<FieldSetItem>) -> (r: Vec<Selection>)
    ensures
        is_selection_set_of(r, *field_set),
    decreases field_set,
{
    let mut out: Vec<Selection> = Vec::new();
    let mut i: usize = 0;
    while i < field_set.len()
        invariant
            i <= field_set.len(),
            out.len() == i,
            forall|j: int| 0 <= j < i ==> is_selection_of(#[trigger] out[j], field_set[j]),
        decreases field_set.len() - i,
    {
        let item = &field_set[i];
        let mut arguments: Vec<(InputValueDefinitionId, Value)> = Vec::new();
        let mut k: usize = 0;
        while k < item.arguments.len()
            invariant
                k <= item.arguments.len(),
                arguments.len() == k,
                forall|j: int| 0 <= j < k ==> (#[trigger] arguments[j]).0 == item.arguments[j].0 && is_value_of(arguments[j].1, item.arguments[j].1),
            decreases item.arguments.len() - k,
        {
            arguments.push((item.arguments[k].0, value_from_v3(&item.arguments[k].1)));
            k = k + 1;
        }
        assert(decreases_to!(field_set => field_set[i as int]));
        assert(decreases_to!(item => item.subselection));
        let subselection = field_set_to_selection_set(&item.subselection);
        let selection = Selection::Field { field: item.field, arguments, subselection };
        assert(is_selection_of(selection, *item));
        out.push(selection);
        i = i + 1;
    }
    out
}

/// A key of an entity, in the layout before.
#[derive(Debug)]
pub struct KeyV1 {
    pub subgraph_id: SubgraphId,
    pub fields: Vec<FieldSetItem>,
    pub is_interface_object: bool,
    pub resolvable: bool,
}

/// A key of an entity: the subgraph that resolves the entity by the fields.
#[derive(Debug)]
pub struct Key {
    pub subgraph_id: SubgraphId,
    /// The fields of the `@key` directive.
    pub fields: Vec<Selection>,
    pub is_interface_object: bool,
    pub resolvable: bool,
}

/// Whether a key is what a key of the layout before becomes.
pub open spec fn is_key_of(new: Key, old: KeyV1) -> bool {
    &&& new.subgraph_id == old.subgraph_id
    &&& is_selection_set_of(new.fields, old.fields)
    &&& new.is_interface_object == old.is_interface_object
    &&& new.resolvable == old.resolvable
}

/// Brings the keys of an entity up to the current layout.
pub fn convert_keys(keys: &Vec<KeyV1>) -> (r: Vec<Key>)
    ensures
        r.len() == keys.len(),
        forall|i: int| 0 <= i < keys.len() ==> is_key_of(#[trigger] r[i], keys[i]),
{
    let mut out: Vec<Key> = Vec::new();
    let mut i: usize = 0;
    while i < keys.len()
        invariant
            i <= keys.len(),
            out.len() == i,
            forall|j: int| 0 <= j < i ==> is_key_of(#[trigger] out[j], keys[j]),
        decreases keys.len() - i,
    {
        let key = &keys[i];
        out.push(
            Key {
                subgraph_id: key.subgraph_id,
                fields: field_set_to_selection_set(&key.fields),
                is_interface_object: key.is_interface_object,
                resolvable: key.resolvable,
            },
        );
        i = i + 1;
    }
    out
}

/// An object type.
#[derive(Debug)]
pub struct Object {
    pub name: StringId,
    pub implements_interfaces: Vec<InterfaceId>,
    pub join_implements: Vec<(SubgraphId, InterfaceId)>,
    pub keys: Vec<Key>,
    /// The directives that made it through composition.
    pub composed_directives: Directives,
    pub fields: Fields,
    pub description: Option<StringId>,
}

/// An interface.
#[derive(Debug)]
pub struct Interface {
    pub name: StringId,
    pub implements_interfaces: Vec<InterfaceId>,
    /// The keys, for entity interfaces.
    pub keys: Vec<Key>,
    /// The subgraphs that implement the interface.
    pub implemented_in: Vec<SubgraphId>,
    pub composed_directives: Directives,
    pub fields: Fields,
    pub description: Option<StringId>,
}

/// A directive that survived composition.
#[derive(Debug)]
pub enum Directive {
    Authenticated,
    Deprecated { reason: Option<StringId> },
    Inaccessible,
    Policy(Vec<Vec<StringId>>),
    RequiresScopes(Vec<Vec<StringId>>),
    Other { name: StringId, arguments: Vec<(StringId, Value)> },
}

/// An `@authorized` directive.
#[derive(Debug)]
pub struct AuthorizedDirective {
    pub fields: Option<Vec<Selection>>,
    pub node: Option<Vec<Selection>>,
    pub metadata: Option<Value>,
}

/// A definition that the engine only needs the name of: an enum, a union, a
/// scalar or an input object.
#[derive(Clone, Copy, Debug, PartialEq, Eq, Structural)]
pub struct Named {
    pub name: StringId,
    pub description: Option<StringId>,
}

/// What a subgraph provides below a field: an `@provides` directive.
#[derive(Debug)]
pub struct FieldProvides {
    pub subgraph_id: SubgraphId,
    pub fields: Vec<Selection>,
}

/// What a subgraph requires for a field: an `@requires` directive.
#[derive(Debug)]
pub struct FieldRequires {
    pub subgraph_id: SubgraphId,
    pub fields: Vec<Selection>,
}

/// A field of an object or an interface.
#[derive(Debug)]
pub struct Field {
    pub name: StringId,
    pub arguments: InputValueDefinitions,
    /// The subgraphs that can resolve the field.
    pub resolvable_in: Vec<SubgraphId>,
    pub provides: Vec<FieldProvides>,
    pub requires: Vec<FieldRequires>,
    pub composed_directives: Directives,
    pub description: Option<StringId>,
}

/// The definition of an argument or input field.
#[derive(Debug)]
pub struct InputValueDefinition {
    pub name: StringId,
    pub directives: Directives,
    pub description: Option<StringId>,
    pub default: Option<Value>,
}

/// The composed graph.
#[derive(Debug)]
pub struct FederatedGraph {
    pub subgraphs: Vec<Subgraph>,
    pub root_operation_types: RootOperationTypes,
    pub objects: Vec<Object>,
    pub interfaces: Vec<Interface>,
    pub fields: Vec<Field>,
    pub enums: Vec<Named>,
    pub unions: Vec<Named>,
    pub scalars: Vec<Named>,
    pub input_objects: Vec<Named>,
    pub enum_values: Vec<EnumValue>,
    /// The definitions of the arguments of fields and of the fields of input objects.
    pub input_value_definitions: Vec<InputValueDefinition>,
    /// The strings of the graph, each once.
    pub strings: Vec<String>,
    /// The instances of directives, not their definitions.
    pub directives: Vec<Directive>,
    pub authorized_directives: Vec<AuthorizedDirective>,
    /// The `@authorized` directives of fields, in the order of the fields.
    pub field_authorized_directives: Vec<(FieldId, AuthorizedDirectiveId)>,
    /// The `@authorized` directives of objects, in the order of the objects.
    pub object_authorized_directives: Vec<(ObjectId, AuthorizedDirectiveId)>,
    /// The `@authorized` directives of interfaces, in the order of the interfaces.
    pub interface_authorized_directives: Vec<(InterfaceId, AuthorizedDirectiveId)>,
}

/// The pairs are in the order of their first parts.
pub open spec fn sorted_by_object(pairs: Seq<(ObjectId, AuthorizedDirectiveId)>) -> bool {
    forall|i: int, j: int| 0 <= i <= j < pairs.len() ==> (#[trigger] pairs[i]).0.0 <= (#[trigger] pairs[j]).0.0
}

/// The position of the first pair whose object is not before `object`.
pub open spec fn first_not_before(pairs: Seq<(ObjectId, AuthorizedDirectiveId)>, object: usize, from: int) -> int
    decreases pairs.len() - from,
{
    if from < 0 || from >= pairs.len() {
        pairs.len() as int
    } else if pairs[from].0.0 >= object {
        from
    } else {
        first_not_before(pairs, object, from + 1)
    }
}

/// How many pairs from `from` on, one after the other, are of `object`.
pub open spec fn run_of(pairs: Seq<(ObjectId, AuthorizedDirectiveId)>, object: usize, from: int) -> nat
    decreases pairs.len() - from,
{
    if from < 0 || from >= pairs.len() || pairs[from].0.0 != object {
        0
    } else {
        run_of(pairs, object, from + 1) + 1
    }
}

proof fn lemma_first_not_before(pairs: Seq<(ObjectId, AuthorizedDirectiveId)>, object: usize, from: int)
    requires
        0 <= from <= pairs.len(),
    ensures
        from <= first_not_before(pairs, object, from) <= pairs.len(),
        first_not_before(pairs, object, from) < pairs.len() ==> pairs[first_not_before(pairs, object, from)].0.0 >= object,
        forall|j: int| from <= j < first_not_before(pairs, object, from) ==> (#[trigger] pairs[j]).0.0 < object,
    decreases pairs.len() - from,
{
    if from < pairs.len() && pairs[from].0.0 < object {
        lemma_first_not_before(pairs, object, from + 1);
    }
}

/// Finds by bisection the first pair whose object is not before `object`.
pub fn partition_point(pairs: &Vec<(ObjectId, AuthorizedDirectiveId)>, object: ObjectId) -> (r: usize)
    requires
        sorted_by_object(pairs@),
    ensures
        r == first_not_before(pairs@, object.0, 0),
        r <= pairs.len(),
{
    let mut low: usize = 0;
    let mut high: usize = pairs.len();
    proof {
        lemma_first_not_before(pairs@, object.0, 0);
    }
    while low < high
        invariant
            low <= high <= pairs.len(),
            sorted_by_object(pairs@),
            low <= first_not_before(pairs@, object.0, 0) <= high,
            first_not_before(pairs@, object.0, 0) < pairs.len() ==> pairs[first_not_before(pairs@, object.0, 0)].0.0 >= object.0,
            forall|j: int| 0 <= j < first_not_before(pairs@, object.0, 0) ==> (#[trigger] pairs[j]).0.0 < object.0,
        decreases high - low,
    {
        let mid = low + (high - low) / 2;
        let ghost first = first_not_before(pairs@, object.0, 0);
        if pairs[mid].0.0 < object.0 {
            proof {
                if first <= mid {
                    assert(pairs[first].0.0 <= pairs[mid as int].0.0);
                }
            }
            low = mid + 1;
        } else {
            proof {
                if first > mid {
                    assert(pairs[mid as int].0.0 < object.0);
                }
            }
            high = mid;
        }
    }
    low
}

/// The pairs are in the order of their first parts.
pub open spec fn sorted_by_interface(pairs: Seq<(InterfaceId, AuthorizedDirectiveId)>) -> bool {
    forall|i: int, j: int| 0 <= i <= j < pairs.len() ==> (#[trigger] pairs[i]).0.0 <= (#[trigger] pairs[j]).0.0
}

/// The position of the first pair whose interface is not before `interface`.
pub open spec fn first_interface_not_before(pairs: Seq<(InterfaceId, AuthorizedDirectiveId)>, interface: usize, from: int) -> int
    decreases pairs.len() - from,
{
    if from < 0 || from >= pairs.len() {
        pairs.len() as int
    } else if pairs[from].0.0 >= interface {
        from
    } else {
        first_interface_not_before(pairs, interface, from + 1)
    }
}

/// How many pairs from `from` on, one after the other, are of `interface`.
pub open spec fn interface_run_of(pairs: Seq<(InterfaceId, AuthorizedDirectiveId)>, interface: usize, from: int) -> nat
    decreases pairs.len() - from,
{
    if from < 0 || from >= pairs.len() || pairs[from].0.0 != interface {
        0
    } else {
        interface_run_of(pairs, interface, from + 1) + 1
    }
}

proof fn lemma_first_interface_not_before(pairs: Seq<(InterfaceId, AuthorizedDirectiveId)>, interface: usize, from: int)
    requires
        0 <= from <= pairs.len(),
    ensures
        from <= first_interface_not_before(pairs, interface, from) <= pairs.len(),
        first_interface_not_before(pairs, interface, from) < pairs.len() ==> pairs[first_interface_not_before(pairs, interface, from)].0.0 >= interface,
        forall|j: int| from <= j < first_interface_not_before(pairs, interface, from) ==> (#[trigger] pairs[j]).0.0 < interface,
    decreases pairs.len() - from,
{
    if from < pairs.len() && pairs[from].0.0 < interface {
        lemma_first_interface_not_before(pairs, interface, from + 1);
    }
}

/// Finds by bisection the first pair whose interface is not before `interface`.
pub fn interface_partition_point(pairs: &Vec<(InterfaceId, AuthorizedDirectiveId)>, interface: InterfaceId) -> (r: usize)
    requires
        sorted_by_interface(pairs@),
    ensures
        r == first_interface_not_before(pairs@, interface.0, 0),
        r <= pairs.len(),
{
    let mut low: usize = 0;
    let mut high: usize = pairs.len();
    proof {
        lemma_first_interface_not_before(pairs@, interface.0, 0);
    }
    while low < high
        invariant
            low <= high <= pairs.len(),
            sorted_by_interface(pairs@),
            low <= first_interface_not_before(pairs@, interface.0, 0) <= high,
            first_interface_not_before(pairs@, interface.0, 0) < pairs.len() ==> pairs[first_interface_not_before(pairs@, interface.0, 0)].0.0 >= interface.0,
            forall|j: int| 0 <= j < first_interface_not_before(pairs@, interface.0, 0) ==> (#[trigger] pairs[j]).0.0 < interface.0,
        decreases high - low,
    {
        let mid = low + (high - low) / 2;
        let ghost first = first_interface_not_before(pairs@, interface.0, 0);
        if pairs[mid].0.0 < interface.0 {
            proof {
                if first <= mid {
                    assert(pairs[first].0.0 <= pairs[mid as int].0.0);
                }
            }
            low = mid + 1;
        } else {
            proof {
                if first > mid {
                    assert(pairs[mid as int].0.0 < interface.0);
                }
            }
            high = mid;
        }
    }
    low
}

impl FederatedGraph {
    /// The `@authorized` directives of an object: those of the pairs of the
    /// object, which lie side by side, in their order. Pairs that name no
    /// directive of the graph are passed over.
    pub fn object_authorized_directives(&self, object_id: ObjectId) -> (r: Vec<&AuthorizedDirective>)
        requires
            sorted_by_object(self.object_authorized_directives@),
            forall|i: int|
                0 <= i < self.object_authorized_directives.len() ==> (#[trigger] self.object_authorized_directives[i]).1.0
                    < self.authorized_directives.len(),
        ensures
            r.len() == run_of(self.object_authorized_directives@, object_id.0, first_not_before(self.object_authorized_directives@, object_id.0, 0)),
            forall|i: int|
                0 <= i < r.len() ==> *(#[trigger] r[i]) == self.authorized_directives[self.object_authorized_directives[first_not_before(
                    self.object_authorized_directives@,
                    object_id.0,
                    0,
                ) + i].1.0 as int],
    {
        let pairs = &self.object_authorized_directives;
        let start = partition_point(pairs, object_id);
        let mut out: Vec<&AuthorizedDirective> = Vec::new();
        let mut i = start;
        while i < pairs.len() && pairs[i].0.0 == object_id.0
            invariant
                start <= i <= pairs.len(),
                pairs == &self.object_authorized_directives,
                forall|k: int| 0 <= k < pairs.len() ==> (#[trigger] pairs[k]).1.0 < self.authorized_directives.len(),
                out.len() == i - start,
                run_of(pairs@, object_id.0, start as int) == run_of(pairs@, object_id.0, i as int) + (i - start),
                forall|k: int| 0 <= k < out.len() ==> *(#[trigger] out[k]) == self.authorized_directives[pairs[start + k].1.0 as int],
            decreases pairs.len() - i,
        {
            out.push(&self.authorized_directives[pairs[i].1.0]);
            i = i + 1;
        }
        out
    }

    /// The `@authorized` directives of an interface: those of the pairs of the
    /// interface, which lie side by side, in their order. Pairs that name no
    /// directive of the graph are passed over.
    pub fn interface_authorized_directives(&self, interface_id: InterfaceId) -> (r: Vec<&AuthorizedDirective>)
        requires
            sorted_by_interface(self.interface_authorized_directives@),
            forall|i: int|
                0 <= i < self.interface_authorized_directives.len() ==> (#[trigger] self.interface_authorized_directives[i]).1.0
                    < self.authorized_directives.len(),
        ensures
            r.len() == interface_run_of(self.interface_authorized_directives@, interface_id.0, first_interface_not_before(self.interface_authorized_directives@, interface_id.0, 0)),
            forall|i: int|
                0 <= i < r.len() ==> *(#[trigger] r[i]) == self.authorized_directives[self.interface_authorized_directives[first_interface_not_before(
                    self.interface_authorized_directives@,
                    interface_id.0,
                    0,
                ) + i].1.0 as int],
    {
        let pairs = &self.interface_authorized_directives;
        let start = interface_partition_point(pairs, interface_id);
        let mut out: Vec<&AuthorizedDirective> = Vec::new();
        let mut i = start;
        while i < pairs.len() && pairs[i].0.0 == interface_id.0
            invariant
                start <= i <= pairs.len(),
                pairs == &self.interface_authorized_directives,
                forall|k: int| 0 <= k < pairs.len() ==> (#[trigger] pairs[k]).1.0 < self.authorized_directives.len(),
                out.len() == i - start,
                interface_run_of(pairs@, interface_id.0, start as int) == interface_run_of(pairs@, interface_id.0, i as int) + (i - start),
                forall|k: int| 0 <= k < out.len() ==> *(#[trigger] out[k]) == self.authorized_directives[pairs[start + k].1.0 as int],
            decreases pairs.len() - i,
        {
            out.push(&self.authorized_directives[pairs[i].1.0]);
            i = i + 1;
        }
        out
    }

    /// The objects of the graph, each with its handle.
    pub fn iter_objects(&self) -> (r: Vec<(ObjectId, &Object)>)
        ensures
            r.len() == self.objects.len(),
            forall|i: int| 0 <= i < r.len() ==> (#[trigger] r[i]).0.0 == i && *r[i].1 == self.objects[i],
    {
        let mut out: Vec<(ObjectId, &Object)> = Vec::new();
        let mut i: usize = 0;
        while i < self.objects.len()
            invariant
                i <= self.objects.len(),
                out.len() == i,
                forall|j: int| 0 <= j < i ==> (#[trigger] out[j]).0.0 == j && *out[j].1 == self.objects[j],
            decreases self.objects.len() - i,
        {
            out.push((ObjectId(i), &self.objects[i]));
            i = i + 1;
        }
        out
    }

    /// The interfaces of the graph, each with its handle.
    pub fn iter_interfaces(&self) -> (r: Vec<(InterfaceId, &Interface)>)
        ensures
            r.len() == self.interfaces.len(),
            forall|i: int| 0 <= i < r.len() ==> (#[trigger] r[i]).0.0 == i && *r[i].1 == self.interfaces[i],
    {
        let mut out: Vec<(InterfaceId, &Interface)> = Vec::new();
        let mut i: usize = 0;
        while i < self.interfaces.len()
            invariant
                i <= self.interfaces.len(),
                out.len() == i,
                forall|j: int| 0 <= j < i ==> (#[trigger] out[j]).0.0 == j && *out[j].1 == self.interfaces[j],
            decreases self.interfaces.len() - i,
        {
            out.push((InterfaceId(i), &self.interfaces[i]));
            i = i + 1;
        }
        out
    }

    /// The handle of the name of a definition, if the graph holds the definition.
    pub open spec fn name_of(&self, definition: Definition) -> Option<StringId> {
        match definition {
            Definition::Scalar(id) => if id.0 < self.scalars.len() {
                Some(self.scalars[id.0 as int].name)
            } else {
                None
            },
            Definition::Object(id) => if id.0 < self.objects.len() {
                Some(self.objects[id.0 as int].name)
            } else {
                None
            },
            Definition::Interface(id) => if id.0 < self.interfaces.len() {
                Some(self.interfaces[id.0 as int].name)
            } else {
                None
            },
            Definition::Union(id) => if id.0 < self.unions.len() {
                Some(self.unions[id.0 as int].name)
            } else {
                None
            },
            Definition::Enum(id) => if id.0 < self.enums.len() {
                Some(self.enums[id.0 as int].name)
            } else {
                None
            },
            Definition::InputObject(id) => if id.0 < self.input_objects.len() {
                Some(self.input_objects[id.0 as int].name)
            } else {
                None
            },
        }
    }

    /// The name of a definition; `None` where the graph does not hold the
    /// definition or its name.
    pub fn definition_name(&self, definition: Definition) -> (r: Option<&str>)
        ensures
            r is Some == (self.name_of(definition) is Some && self.name_of(definition)->Some_0.0 < self.strings.len()),
            r is Some ==> r->Some_0@ == self.strings[self.name_of(definition)->Some_0.0 as int]@,
    {
        let name_id = match definition {
            Definition::Scalar(id) => {
                if id.0 >= self.scalars.len() {
                    return None;
                }
                self.scalars[id.0].name
            },
            Definition::Object(id) => {
                if id.0 >= self.objects.len() {
                    return None;
                }
                self.objects[id.0].name
            },
            Definition::Interface(id) => {
                if id.0 >= self.interfaces.len() {
                    return None;
                }
                self.interfaces[id.0].name
            },
            Definition::Union(id) => {
                if id.0 >= self.unions.len() {
                    return None;
                }
                self.unions[id.0].name
            },
            Definition::Enum(id) => {
                if id.0 >= self.enums.len() {
                    return None;
                }
                self.enums[id.0].name
            },
            Definition::InputObject(id) => {
                if id.0 >= self.input_objects.len() {
                    return None;
                }
                self.input_objects[id.0].name
            },
        };
        if name_id.0 < self.strings.len() {
            Some(self.strings[name_id.0].as_str())
        } else {
            None
        }
    }

    /// The directives of a run.
    pub fn directives_in(&self, run: Directives) -> (r: &[Directive])
        requires
            run.start.0 + run.len <= self.directives.len(),
        ensures
            r@ == self.directives@.subrange(run.start.0 as int, run.start.0 + run.len),
    {
        slice_subrange(self.directives.as_slice(), run.start.0, run.start.0 + run.len)
    }

    /// The definitions of a run of arguments or input fields.
    pub fn input_value_definitions_in(&self, run: InputValueDefinitions) -> (r: &[InputValueDefinition])
        requires
            run.start.0 + run.len <= self.input_value_definitions.len(),
        ensures
            r@ == self.input_value_definitions@.subrange(run.start.0 as int, run.start.0 + run.len),
    {
        slice_subrange(self.input_value_definitions.as_slice(), run.start.0, run.start.0 + run.len)
    }

    /// The enum values of a run.
    pub fn enum_values_in(&self, run: EnumValues) -> (r: &[EnumValue])
        requires
            run.start.0 + run.len <= self.enum_values.len(),
        ensures
            r@ == self.enum_values@.subrange(run.start.0 as int, run.start.0 + run.len),
    {
        slice_subrange(self.enum_values.as_slice(), run.start.0, run.start.0 + run.len)
    }

    /// The fields of a run.
    pub fn fields_in(&self, run: Fields) -> (r: &[Field])
        requires
            run.start.0 <= run.end.0 <= self.fields.len(),
        ensures
            r@ == self.fields@.subrange(run.start.0 as int, run.end.0 as int),
    {
        slice_subrange(self.fields.as_slice(), run.start.0, run.end.0)
    }

    /// The graph with nothing in it but the root type `Query` with the two
    /// fields of introspection.
    pub fn default() -> (r: FederatedGraph)
        ensures
            r.objects.len() == 1,
            r.objects[0].name == StringId(0),
            r.objects[0].fields == (Fields { start: FieldId(0), end: FieldId(2) }),
            r.root_operation_types == (RootOperationTypes { query: ObjectId(0), mutation: None, subscription: None }),
            r.strings.len() == 3,
            r.strings[0]@ == "Query"@,
            r.strings[1]@ == "__type"@,
            r.strings[2]@ == "__schema"@,
            r.fields.len() == 2,
            r.fields[0].name == StringId(1),
            r.fields[1].name == StringId(2),
            r.subgraphs.len() == 0,
            r.interfaces.len() == 0,
            r.directives.len() == 0,
            r.enum_values.len() == 0,
            r.authorized_directives.len() == 0,
            r.field_authorized_directives.len() == 0,
            r.object_authorized_directives.len() == 0,
            r.interface_authorized_directives.len() == 0,
    {
        let mut objects: Vec<Object> = Vec::new();
        objects.push(
            Object {
                name: StringId(0),
                implements_interfaces: Vec::new(),
                join_implements: Vec::new(),
                keys: Vec::new(),
                composed_directives: Directives { start: DirectiveId(0), len: 0 },
                fields: Fields { start: FieldId(0), end: FieldId(2) },
                description: None,
            },
        );
        let mut fields: Vec<Field> = Vec::new();
        fields.push(
            Field {
                name: StringId(1),
                arguments: InputValueDefinitions { start: InputValueDefinitionId(0), len: 0 },
                resolvable_in: Vec::new(),
                provides: Vec::new(),
                requires: Vec::new(),
                composed_directives: Directives { start: DirectiveId(0), len: 0 },
                description: None,
            },
        );
        fields.push(
            Field {
                name: StringId(2),
                arguments: InputValueDefinitions { start: InputValueDefinitionId(0), len: 0 },
                resolvable_in: Vec::new(),
                provides: Vec::new(),
                requires: Vec::new(),
                composed_directives: Directives { start: DirectiveId(0), len: 0 },
                description: None,
            },
        );
        let mut strings: Vec<String> = Vec::new();
        strings.push("Query".to_owned());
        strings.push("__type".to_owned());
        strings.push("__schema".to_owned());
        FederatedGraph {
            subgraphs: Vec::new(),
            root_operation_types: RootOperationTypes { query: ObjectId(0), mutation: None, subscription: None },
            objects,
            interfaces: Vec::new(),
            fields,
            enums: Vec::new(),
            unions: Vec::new(),
            scalars: Vec::new(),
            input_objects: Vec::new(),
            enum_values: Vec::new(),
            input_value_definitions: Vec::new(),
            strings,
            directives: Vec::new(),
            authorized_directives: Vec::new(),
            field_authorized_directives: Vec::new(),
            object_authorized_directives: Vec::new(),
            interface_authorized_directives: Vec::new(),
        }
    }
}

/// An object type in the layout before.
#[derive(Debug)]
pub struct ObjectV3 {
    pub name: StringId,
    pub implements_interfaces: Vec<InterfaceId>,
    pub keys: Vec<KeyV1>,
    pub composed_directives: Directives,
    pub fields: Fields,
    pub description: Option<StringId>,
}

/// An interface in the layout before.
#[derive(Debug)]
pub struct InterfaceV3 {
    pub name: StringId,
    pub implements_interfaces: Vec<InterfaceId>,
    pub keys: Vec<KeyV1>,
    pub composed_directives: Directives,
    pub fields: Fields,
    pub description: Option<StringId>,
}

/// What a subgraph provides or requires for a field, in the layout before.
#[derive(Debug)]
pub struct FieldSetOfSubgraph {
    pub subgraph_id: SubgraphId,
    pub fields: Vec<FieldSetItem>,
}

/// A field in the layout before.
#[derive(Debug)]
pub struct FieldV3 {
    pub name: StringId,
    pub arguments: InputValueDefinitions,
    pub resolvable_in: Vec<SubgraphId>,
    pub provides: Vec<FieldSetOfSubgraph>,
    pub requires: Vec<FieldSetOfSubgraph>,
    pub composed_directives: Directives,
    pub description: Option<StringId>,
}

/// The definition of an argument or input field in the layout before.
#[derive(Debug)]
pub struct InputValueDefinitionV3 {
    pub name: StringId,
    pub directives: Directives,
    pub description: Option<StringId>,
    pub default: Option<ValueV3>,
}

/// A directive in the layout before.
#[derive(Debug)]
pub enum DirectiveV3 {
    Authenticated,
    Deprecated { reason: Option<StringId> },
    Inaccessible,
    Policy(Vec<Vec<StringId>>),
    RequiresScopes(Vec<Vec<StringId>>),
    Other { name: StringId, arguments: Vec<(StringId, ValueV3)> },
}

/// An `@authorized` directive in the layout before.
#[derive(Debug)]
pub struct AuthorizedDirectiveV3 {
    pub fields: Option<Vec<FieldSetItem>>,
    pub node: Option<Vec<FieldSetItem>>,
    pub metadata: Option<ValueV3>,
}

/// The composed graph in the layout before.
#[derive(Debug)]
pub struct FederatedGraphV3 {
    pub subgraphs: Vec<Subgraph>,
    pub root_operation_types: RootOperationTypes,
    pub objects: Vec<ObjectV3>,
    pub interfaces: Vec<InterfaceV3>,
    pub fields: Vec<FieldV3>,
    pub enums: Vec<Named>,
    pub unions: Vec<Named>,
    pub scalars: Vec<Named>,
    pub input_objects: Vec<Named>,
    pub enum_values: Vec<EnumValue>,
    pub input_value_definitions: Vec<InputValueDefinitionV3>,
    pub strings: Vec<String>,
    pub directives: Vec<DirectiveV3>,
    pub authorized_directives: Vec<AuthorizedDirectiveV3>,
    pub field_authorized_directives: Vec<(FieldId, AuthorizedDirectiveId)>,
    pub object_authorized_directives: Vec<(ObjectId, AuthorizedDirectiveId)>,
    pub interface_authorized_directives: Vec<(InterfaceId, AuthorizedDirectiveId)>,
}

/// Whether a list of keys is what a list of keys of the layout before becomes.
pub open spec fn are_keys_of(new: Vec<Key>, old: Vec<KeyV1>) -> bool {
    new.len() == old.len() && forall|i: int| 0 <= i < old.len() ==> is_key_of(#[trigger] new[i], old[i])
}

/// Whether an object is what an object of the layout before becomes: the
/// same object, which no subgraph is known to join yet.
pub open spec fn is_object_of(new: Object, old: ObjectV3) -> bool {
    &&& new.name == old.name
    &&& new.implements_interfaces@ == old.implements_interfaces@
    &&& new.join_implements.len() == 0
    &&& are_keys_of(new.keys, old.keys)
    &&& new.composed_directives == old.composed_directives
    &&& new.fields == old.fields
    &&& new.description == old.description
}

/// Whether an interface is what an interface of the layout before becomes:
/// the same interface, which no subgraph is known to implement yet.
pub open spec fn is_interface_of(new: Interface, old: InterfaceV3) -> bool {
    &&& new.name == old.name
    &&& new.implements_interfaces@ == old.implements_interfaces@
    &&& new.implemented_in.len() == 0
    &&& are_keys_of(new.keys, old.keys)
    &&& new.composed_directives == old.composed_directives
    &&& new.fields == old.fields
    &&& new.description == old.description
}

/// Whether a field is what a field of the layout before becomes.
pub open spec fn is_field_of(new: Field, old: FieldV3) -> bool {
    &&& new.name == old.name
    &&& new.arguments == old.arguments
    &&& new.resolvable_in@ == old.resolvable_in@
    &&& new.provides.len() == old.provides.len()
    &&& forall|i: int|
        0 <= i < old.provides.len() ==> (#[trigger] new.provides[i]).subgraph_id == old.provides[i].subgraph_id && is_selection_set_of(
            new.provides[i].fields,
            old.provides[i].fields,
        )
    &&& new.requires.len() == old.requires.len()
    &&& forall|i: int|
        0 <= i < old.requires.len() ==> (#[trigger] new.requires[i]).subgraph_id == old.requires[i].subgraph_id && is_selection_set_of(
            new.requires[i].fields,
            old.requires[i].fields,
        )
    &&& new.composed_directives == old.composed_directives
    &&& new.description == old.description
}

/// Whether an optional value is what an optional value of the layout before becomes.
pub open spec fn is_optional_value_of(new: Option<Value>, old: Option<ValueV3>) -> bool {
    match old {
        Some(value) => new is Some && is_value_of(new->Some_0, value),
        None => new is None,
    }
}

/// Whether an optional selection set is what an optional field set becomes.
pub open spec fn is_optional_selection_set_of(new: Option<Vec<Selection>>, old: Option<Vec<FieldSetItem>>) -> bool {
    match old {
        Some(set) => new is Some && is_selection_set_of(new->Some_0, set),
        None => new is None,
    }
}

/// Whether a directive is what a directive of the layout before becomes.
pub open spec fn is_directive_of(new: Directive, old: DirectiveV3) -> bool {
    match old {
        DirectiveV3::Authenticated => new is Authenticated,
        DirectiveV3::Deprecated { reason } => new is Deprecated && new->reason == reason,
        DirectiveV3::Inaccessible => new is Inaccessible,
        DirectiveV3::Policy(policy) => new is Policy && new->Policy_0 == policy,
        DirectiveV3::RequiresScopes(scopes) => new is RequiresScopes && new->RequiresScopes_0 == scopes,
        DirectiveV3::Other { name, arguments } => new is Other && new->name == name && new->Other_arguments.len() == arguments.len() && forall|
            i: int,
        |
            0 <= i < arguments.len() ==> (#[trigger] new->Other_arguments[i]).0 == arguments[i].0 && is_value_of(
                new->Other_arguments[i].1,
                arguments[i].1,
            ),
    }
}

/// Whether a graph is what a graph of the layout before becomes: what has
/// no new layout is taken over as it is, and objects, interfaces, fields,
/// argument definitions, directives and `@authorized` directives are each
/// brought up to the current layout, in their order.
pub open spec fn is_graph_of(new: FederatedGraph, old: FederatedGraphV3) -> bool {
    &&& new.subgraphs == old.subgraphs
    &&& new.root_operation_types == old.root_operation_types
    &&& new.enums == old.enums
    &&& new.unions == old.unions
    &&& new.scalars == old.scalars
    &&& new.input_objects == old.input_objects
    &&& new.enum_values == old.enum_values
    &&& new.field_authorized_directives == old.field_authorized_directives
    &&& new.strings == old.strings
    &&& new.object_authorized_directives == old.object_authorized_directives
    &&& new.interface_authorized_directives == old.interface_authorized_directives
    &&& new.objects.len() == old.objects.len()
    &&& forall|i: int| 0 <= i < old.objects.len() ==> is_object_of(#[trigger] new.objects[i], old.objects[i])
    &&& new.interfaces.len() == old.interfaces.len()
    &&& forall|i: int| 0 <= i < old.interfaces.len() ==> is_interface_of(#[trigger] new.interfaces[i], old.interfaces[i])
    &&& new.fields.len() == old.fields.len()
    &&& forall|i: int| 0 <= i < old.fields.len() ==> is_field_of(#[trigger] new.fields[i], old.fields[i])
    &&& new.input_value_definitions.len() == old.input_value_definitions.len()
    &&& forall|i: int|
        0 <= i < old.input_value_definitions.len() ==> {
            &&& (#[trigger] new.input_value_definitions[i]).name == old.input_value_definitions[i].name
            &&& new.input_value_definitions[i].directives == old.input_value_definitions[i].directives
            &&& new.input_value_definitions[i].description == old.input_value_definitions[i].description
            &&& is_optional_value_of(new.input_value_definitions[i].default, old.input_value_definitions[i].default)
        }
    &&& new.directives.len() == old.directives.len()
    &&& forall|i: int| 0 <= i < old.directives.len() ==> is_directive_of(#[trigger] new.directives[i], old.directives[i])
    &&& new.authorized_directives.len() == old.authorized_directives.len()
    &&& forall|i: int|
        0 <= i < old.authorized_directives.len() ==> {
            &&& is_optional_selection_set_of((#[trigger] new.authorized_directives[i]).fields, old.authorized_directives[i].fields)
            &&& is_optional_selection_set_of(new.authorized_directives[i].node, old.authorized_directives[i].node)
            &&& is_optional_value_of(new.authorized_directives[i].metadata, old.authorized_directives[i].metadata)
        }
}

/// A copy of a vector of values that can be copied.
pub fn copy_vec<T: Copy>(v: &Vec<T>) -> (r: Vec<T>)
    ensures
        r@ == v@,
{
    let mut out: Vec<T> = Vec::new();
    let mut i: usize = 0;
    while i < v.len()
        invariant
            i <= v.len(),
            out@ == v@.subrange(0, i as int),
        decreases v.len() - i,
    {
        out.push(v[i]);
        i = i + 1;
    }
    assert(v@.subrange(0, v.len() as int) =~= v@);
    out
}

fn optional_value_from(value: &Option<ValueV3>) -> (r: Option<Value>)
    ensures
        is_optional_value_of(r, *value),
{
    match value {
        Some(v) => Some(value_from_v3(v)),
        None => None,
    }
}

fn optional_selection_set_from(set: &Option<Vec<FieldSetItem>>) -> (r: Option<Vec<Selection>>)
    ensures
        is_optional_selection_set_of(r, *set),
{
    match set {
        Some(s) => Some(field_set_to_selection_set(s)),
        None => None,
    }
}

fn provides_from(old: &Vec<FieldSetOfSubgraph>) -> (r: Vec<FieldProvides>)
    ensures
        r.len() == old.len(),
        forall|i: int| 0 <= i < old.len() ==> (#[trigger] r[i]).subgraph_id == old[i].subgraph_id && is_selection_set_of(r[i].fields, old[i].fields),
{
    let mut out: Vec<FieldProvides> = Vec::new();
    let mut i: usize = 0;
    while i < old.len()
        invariant
            i <= old.len(),
            out.len() == i,
            forall|j: int| 0 <= j < i ==> (#[trigger] out[j]).subgraph_id == old[j].subgraph_id && is_selection_set_of(out[j].fields, old[j].fields),
        decreases old.len() - i,
    {
        out.push(FieldProvides { subgraph_id: old[i].subgraph_id, fields: field_set_to_selection_set(&old[i].fields) });
        i = i + 1;
    }
    out
}

fn requires_from(old: &Vec<FieldSetOfSubgraph>) -> (r: Vec<FieldRequires>)
    ensures
        r.len() == old.len(),
        forall|i: int| 0 <= i < old.len() ==> (#[trigger] r[i]).subgraph_id == old[i].subgraph_id && is_selection_set_of(r[i].fields, old[i].fields),
{
    let mut out: Vec<FieldRequires> = Vec::new();
    let mut i: usize = 0;
    while i < old.len()
        invariant
            i <= old.len(),
            out.len() == i,
            forall|j: int| 0 <= j < i ==> (#[trigger] out[j]).subgraph_id == old[j].subgraph_id && is_selection_set_of(out[j].fields, old[j].fields),
        decreases old.len() - i,
    {
        out.push(FieldRequires { subgraph_id: old[i].subgraph_id, fields: field_set_to_selection_set(&old[i].fields) });
        i = i + 1;
    }
    out
}

fn directive_from(old: DirectiveV3) -> (r: Directive)
    ensures
        is_directive_of(r, old),
{
    match old {
        DirectiveV3::Authenticated => Directive::Authenticated,
        DirectiveV3::Deprecated { reason } => Directive::Deprecated { reason },
        DirectiveV3::Inaccessible => Directive::Inaccessible,
        DirectiveV3::Policy(policy) => Directive::Policy(policy),
        DirectiveV3::RequiresScopes(scopes) => Directive::RequiresScopes(scopes),
        DirectiveV3::Other { name, arguments } => {
            let mut out: Vec<(StringId, Value)> = Vec::new();
            let mut i: usize = 0;
            while i < arguments.len()
                invariant
                    i <= arguments.len(),
                    out.len() == i,
                    forall|j: int| 0 <= j < i ==> (#[trigger] out[j]).0 == arguments[j].0 && is_value_of(out[j].1, arguments[j].1),
                decreases arguments.len() - i,
            {
                out.push((arguments[i].0, value_from_v3(&arguments[i].1)));
                i = i + 1;
            }
            Directive::Other { name, arguments: out }
        },
    }
}

impl FederatedGraph {
    /// Brings a graph of the layout before up to the current layout.
    pub fn from_v3(graph: FederatedGraphV3) -> (r: FederatedGraph)
        ensures
            is_graph_of(r, graph),
    {
        let FederatedGraphV3 {
            subgraphs,
            root_operation_types,
            objects,
            interfaces,
            fields,
            enums,
            unions,
            scalars,
            input_objects,
            enum_values,
            input_value_definitions,
            strings,
            directives,
            authorized_directives,
            field_authorized_directives,
            object_authorized_directives,
            interface_authorized_directives,
        } = graph;
        let mut new_objects: Vec<Object> = Vec::new();
        let mut i: usize = 0;
        while i < objects.len()
            invariant
                i <= objects.len(),
                new_objects.len() == i,
                forall|j: int| 0 <= j < i ==> is_object_of(#[trigger] new_objects[j], objects[j]),
            decreases objects.len() - i,
        {
            let old = &objects[i];
            new_objects.push(
                Object {
                    name: old.name,
                    implements_interfaces: copy_vec(&old.implements_interfaces),
                    join_implements: Vec::new(),
                    keys: convert_keys(&old.keys),
                    composed_directives: old.composed_directives,
                    fields: old.fields,
                    description: old.description,
                },
            );
            i = i + 1;
        }
        let mut new_interfaces: Vec<Interface> = Vec::new();
        i = 0;
        while i < interfaces.len()
            invariant
                i <= interfaces.len(),
                new_interfaces.len() == i,
                forall|j: int| 0 <= j < i ==> is_interface_of(#[trigger] new_interfaces[j], interfaces[j]),
            decreases interfaces.len() - i,
        {
            let old = &interfaces[i];
            new_interfaces.push(
                Interface {
                    name: old.name,
                    implements_interfaces: copy_vec(&old.implements_interfaces),
                    keys: convert_keys(&old.keys),
                    implemented_in: Vec::new(),
                    composed_directives: old.composed_directives,
                    fields: old.fields,
                    description: old.description,
                },
            );
            i = i + 1;
        }
        let mut new_fields: Vec<Field> = Vec::new();
        i = 0;
        while i < fields.len()
            invariant
                i <= fields.len(),
                new_fields.len() == i,
                forall|j: int| 0 <= j < i ==> is_field_of(#[trigger] new_fields[j], fields[j]),
            decreases fields.len() - i,
        {
            let old = &fields[i];
            new_fields.push(
                Field {
                    name: old.name,
                    arguments: old.arguments,
                    resolvable_in: copy_vec(&old.resolvable_in),
                    provides: provides_from(&old.provides),
                    requires: requires_from(&old.requires),
                    composed_directives: old.composed_directives,
                    description: old.description,
                },
            );
            i = i + 1;
        }
        let mut new_definitions: Vec<InputValueDefinition> = Vec::new();
        i = 0;
        while i < input_value_definitions.len()
            invariant
                i <= input_value_definitions.len(),
                new_definitions.len() == i,
                forall|j: int|
                    0 <= j < i ==> {
                        &&& (#[trigger] new_definitions[j]).name == input_value_definitions[j].name
                        &&& new_definitions[j].directives == input_value_definitions[j].directives
                        &&& new_definitions[j].description == input_value_definitions[j].description
                        &&& is_optional_value_of(new_definitions[j].default, input_value_definitions[j].default)
                    },
            decreases input_value_definitions.len() - i,
        {
            let old = &input_value_definitions[i];
            new_definitions.push(
                InputValueDefinition {
                    name: old.name,
                    directives: old.directives,
                    description: old.description,
                    default: optional_value_from(&old.default),
                },
            );
            i = i + 1;
        }
        let ghost old_directives = directives@;
        let mut pending = crate::text::reversed(directives);
        let mut new_directives: Vec<Directive> = Vec::new();
        while pending.len() > 0
            invariant
                new_directives.len() + pending.len() == old_directives.len(),
                forall|j: int| 0 <= j < pending.len() ==> pending[j] == old_directives[old_directives.len() - 1 - j],
                forall|j: int| 0 <= j < new_directives.len() ==> is_directive_of(#[trigger] new_directives[j], old_directives[j]),
            decreases pending.len(),
        {
            let old = pending.pop().unwrap();
            new_directives.push(directive_from(old));
        }
        let mut new_authorized: Vec<AuthorizedDirective> = Vec::new();
        i = 0;
        while i < authorized_directives.len()
            invariant
                i <= authorized_directives.len(),
                new_authorized.len() == i,
                forall|j: int|
                    0 <= j < i ==> {
                        &&& is_optional_selection_set_of((#[trigger] new_authorized[j]).fields, authorized_directives[j].fields)
                        &&& is_optional_selection_set_of(new_authorized[j].node, authorized_directives[j].node)
                        &&& is_optional_value_of(new_authorized[j].metadata, authorized_directives[j].metadata)
                    },
            decreases authorized_directives.len() - i,
        {
            let old = &authorized_directives[i];
            new_authorized.push(
                AuthorizedDirective {
                    fields: optional_selection_set_from(&old.fields),
                    node: optional_selection_set_from(&old.node),
                    metadata: optional_value_from(&old.metadata),
                },
            );
            i = i + 1;
        }
        FederatedGraph {
            subgraphs,
            root_operation_types,
            objects: new_objects,
            interfaces: new_interfaces,
            fields: new_fields,
            enums,
            unions,
            scalars,
            input_objects,
            enum_values,
            input_value_definitions: new_definitions,
            strings,
            directives: new_directives,
            authorized_directives: new_authorized,
            field_authorized_directives,
            object_authorized_directives,
            interface_authorized_directives,
        }
    }
}

} // verus!
