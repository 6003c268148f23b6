//! Building the required field sets of a schema from the field sets of the
//! composed graph.

use crate::arena::{FieldDefinitionId, IdRange, InputValueDefinitionId, RequiredFieldId, RequiredFieldSetId, SchemaInputValueId};
use crate::required::{
    items_within, same_field, BuildError, FieldKey, InputValueError, InputValueErrorModel, ItemModel, RequiredField, RequiredFieldSet,
    RequiredFieldSetItem,
};
use crate::schema::{graph_valid, Graph};
use vstd::prelude::*;

verus! {

/// One item of a field set of the composed graph: a field by its number
/// there, the values that the field set supplies for arguments, by the
/// arguments' numbers, and what is selected below the field. Each supplied
/// value has been coerced against the type of its argument, or has failed to be.
#[derive(Debug)]
pub struct FieldSetItem {
    pub field: usize,
    pub arguments: Vec<(usize, Result<SchemaInputValueId, InputValueError>)>,
    pub subselection: Vec<FieldSetItem>,
}

/// Which definitions of the schema the numbers of the composed graph stand
/// for. A number without a definition belongs to a part of the graph that
/// this schema leaves out.
#[derive(Debug)]
pub struct IdMaps {
    pub field: Vec<Option<FieldDefinitionId>>,
    pub input_value: Vec<Option<InputValueDefinitionId>>,
}

/// What a build knows besides the graph.
#[derive(Debug)]
pub struct BuildContext {
    pub idmaps: IdMaps,
}

/// Whether the definitions that the numbers stand for are definitions of the graph.
pub open spec fn context_valid(ctx: BuildContext, graph: Graph) -> bool {
    &&& graph.input_value_definitions.len() <= u32::MAX
    &&& forall|i: int|
        0 <= i < ctx.idmaps.field.len() && (#[trigger] ctx.idmaps.field[i]) is Some ==> ctx.idmaps.field[i]->Some_0.position()
            < graph.field_definitions.len()
    &&& forall|i: int|
        0 <= i < ctx.idmaps.input_value.len() && (#[trigger] ctx.idmaps.input_value[i]) is Some ==> ctx.idmaps.input_value[i]->Some_0.position()
            < graph.input_value_definitions.len()
}

/// The field definition that a number of the composed graph stands for.
pub open spec fn local_field(ctx: BuildContext, field: usize) -> Option<nat> {
    if field < ctx.idmaps.field.len() && ctx.idmaps.field[field as int] is Some {
        Some(ctx.idmaps.field[field as int]->Some_0.position())
    } else {
        None
    }
}

/// The argument definition that a number of the composed graph stands for.
pub open spec fn local_input_value(ctx: BuildContext, id: usize) -> Option<nat> {
    if id < ctx.idmaps.input_value.len() && ctx.idmaps.input_value[id as int] is Some {
        Some(ctx.idmaps.input_value[id as int]->Some_0.position())
    } else {
        None
    }
}

/// The first `n` supplied arguments that stand for a definition of the
/// schema: for each, the position of the definition and the place of the
/// argument among the supplied ones.
pub open spec fn supplied(ctx: BuildContext, item: FieldSetItem, n: nat) -> Seq<(nat, int)>
    decreases n,
{
    if n == 0 {
        Seq::empty()
    } else {
        match local_input_value(ctx, item.arguments[n - 1].0) {
            Some(definition) => supplied(ctx, item, (n - 1) as nat).push((definition, n - 1)),
            None => supplied(ctx, item, (n - 1) as nat),
        }
    }
}

/// The place of the first pair at or after `from` whose definition is
/// `definition`; the number of pairs if there is none.
pub open spec fn supplied_index_from(pairs: Seq<(nat, int)>, definition: nat, from: int) -> int
    decreases pairs.len() - from,
{
    if from < 0 || from >= pairs.len() {
        pairs.len() as int
    } else if pairs[from].0 == definition {
        from
    } else {
        supplied_index_from(pairs, definition, from + 1)
    }
}

/// The arguments of a required field, after the first `k` declared arguments
/// of the field have been looked at in the order of their declaration, and
/// the supplied arguments that are left. A declared argument takes the value
/// that is supplied for it; else its default; else, if it is required, the
/// field cannot be built; else it is left out.
pub open spec fn arguments_from(graph: Graph, item: FieldSetItem, pairs: Seq<(nat, int)>, declared: IdRange, k: nat) -> Result<
    (Seq<(nat, nat)>, Seq<(nat, int)>),
    InputValueErrorModel,
>
    decreases k,
{
    if k == 0 {
        Ok((Seq::empty(), pairs))
    } else {
        match arguments_from(graph, item, pairs, declared, (k - 1) as nat) {
            Err(e) => Err(e),
            Ok((arguments, rest)) => {
                let d = (declared.start + k - 1) as nat;
                let definition = graph.input_value_definitions[d as int];
                let p = supplied_index_from(rest, d, 0);
                if p < rest.len() {
                    match item.arguments[rest[p].1].1 {
                        Ok(value) => Ok((arguments.push((d, value.position())), rest.update(p, rest.last()).drop_last())),
                        Err(e) => Err(e@),
                    }
                } else if definition.default_value is Some {
                    Ok((arguments.push((d, definition.default_value->Some_0.position())), rest))
                } else if definition.ty.wrapping.required {
                    Err(InputValueErrorModel::MissingRequiredArgument(graph.strings[definition.name.position() as int]@))
                } else {
                    Ok((arguments, rest))
                }
            },
        }
    }
}

/// The place of the first field at or after `from` that equals `key`; the
/// number of fields if there is none.
pub open spec fn find_key_from(table: Seq<FieldKey>, key: FieldKey, from: int) -> int
    decreases table.len() - from,
{
    if from < 0 || from >= table.len() {
        table.len() as int
    } else if table[from] == key {
        from
    } else {
        find_key_from(table, key, from + 1)
    }
}

/// The models of the fields of a table.
pub open spec fn keys_of(table: Seq<RequiredField>) -> Seq<FieldKey> {
    Seq::new(table.len(), |i: int| table[i]@)
}

/// What the conversion of one item comes to: the table of required fields
/// after it, and the item of the required field set, if the item's field is
/// a field of this schema. The field takes the handle of the equal field of
/// the table, or is added to the table where there is none. A table that is
/// full takes no more fields.
pub open spec fn converted_item(ctx: BuildContext, graph: Graph, table: Seq<FieldKey>, item: FieldSetItem) -> Result<
    (Seq<FieldKey>, Option<ItemModel>),
    InputValueErrorModel,
>
    decreases item, 1nat, 0nat,
{
    match local_field(ctx, item.field) {
        None => Ok((table, None)),
        Some(definition) => {
            let pairs = supplied(ctx, item, item.arguments.len() as nat);
            let declared = graph.field_definitions[definition as int].argument_ids;
            match arguments_from(graph, item, pairs, declared, declared.count()) {
                Err(e) => Err(e),
                Ok((arguments, _)) => {
                    let key = FieldKey { definition, arguments };
                    let id = find_key_from(table, key, 0);
                    if id >= u32::MAX {
                        Err(InputValueErrorModel::Coercion(TOO_MANY@))
                    } else {
                        let grown = if id < table.len() {
                            table
                        } else {
                            table.push(key)
                        };
                        match converted_set(ctx, graph, grown, item.subselection, item.subselection.len() as nat) {
                            Err(e) => Err(e),
                            Ok((after, subselection)) => Ok((after, Some(ItemModel { id: id as nat, subselection }))),
                        }
                    }
                },
            }
        },
    }
}

/// What the conversion of the first `n` items of a field set comes to.
pub open spec fn converted_set(ctx: BuildContext, graph: Graph, table: Seq<FieldKey>, items: Vec<FieldSetItem>, n: nat) -> Result<
    (Seq<FieldKey>, Seq<ItemModel>),
    InputValueErrorModel,
>
    decreases items, 0nat, n,
{
    if n == 0 || n > items.len() {
        Ok((table, Seq::empty()))
    } else {
        match converted_set(ctx, graph, table, items, (n - 1) as nat) {
            Err(e) => Err(e),
            Ok((before, out)) => match converted_item(ctx, graph, before, items[n - 1]) {
                Err(e) => Err(e),
                Ok((after, None)) => Ok((after, out)),
                Ok((after, Some(converted))) => Ok((after, out.push(converted))),
            },
        }
    }
}

/// The message for a table of required fields that is full.
pub const TOO_MANY: &'static str = "Too many required fields";

/// Once the conversion of an item fails, the conversion of the set fails the same way.
pub proof fn lemma_set_error(ctx: BuildContext, graph: Graph, table: Seq<FieldKey>, items: Vec<FieldSetItem>, k: nat, n: nat)
    requires
        k <= n <= items.len(),
        converted_set(ctx, graph, table, items, k) is Err,
    ensures
        converted_set(ctx, graph, table, items, n) == converted_set(ctx, graph, table, items, k),
    decreases n,
{
    if k < n {
        lemma_set_error(ctx, graph, table, items, k, (n - 1) as nat);
    }
}

proof fn lemma_arguments_error(graph: Graph, item: FieldSetItem, pairs: Seq<(nat, int)>, declared: IdRange, k: nat, n: nat)
    requires
        k <= n,
        arguments_from(graph, item, pairs, declared, k) is Err,
    ensures
        arguments_from(graph, item, pairs, declared, n) == arguments_from(graph, item, pairs, declared, k),
    decreases n,
{
    if k < n {
        lemma_arguments_error(graph, item, pairs, declared, k, (n - 1) as nat);
    }
}

/// The place of a field among the fields of a table.
fn find_in_table(table: &Vec<RequiredField>, field: &RequiredField) -> (i: usize)
    ensures
        i == find_key_from(keys_of(table@), field@, 0),
        i <= table.len(),
{
    let mut i: usize = 0;
    while i < table.len()
        invariant
            i <= table.len(),
            find_key_from(keys_of(table@), field@, 0) == find_key_from(keys_of(table@), field@, i as int),
        decreases table.len() - i,
    {
        if same_field(&table[i], field) {
            return i;
        }
        i = i + 1;
    }
    i
}

/// The supplied arguments that stand for a definition of the schema.
fn supplied_pairs(ctx: &BuildContext, item: &FieldSetItem) -> (r: Vec<(usize, usize)>)
    ensures
        r@.len() == supplied(*ctx, *item, item.arguments.len() as nat).len(),
        forall|i: int|
            0 <= i < r@.len() ==> ((#[trigger] r@[i]).0 as nat, r@[i].1 as int) == supplied(*ctx, *item, item.arguments.len() as nat)[i],
        forall|i: int| 0 <= i < r@.len() ==> (#[trigger] r@[i]).1 < item.arguments.len(),
{
    let mut out: Vec<(usize, usize)> = Vec::new();
    let mut i: usize = 0;
    while i < item.arguments.len()
        invariant
            i <= item.arguments.len(),
            out@.len() == supplied(*ctx, *item, i as nat).len(),
            forall|j: int| 0 <= j < out@.len() ==> ((#[trigger] out@[j]).0 as nat, out@[j].1 as int) == supplied(*ctx, *item, i as nat)[j],
            forall|j: int| 0 <= j < out@.len() ==> (#[trigger] out@[j]).1 < item.arguments.len(),
        decreases item.arguments.len() - i,
    {
        let id = item.arguments[i].0;
        if id < ctx.idmaps.input_value.len() {
            match ctx.idmaps.input_value[id] {
                Some(definition) => {
                    out.push((definition.index(), i));
                },
                None => {},
            }
        }
        i = i + 1;
    }
    out
}

/// The model of the supplied arguments that are left.
pub open spec fn pairs_model(pairs: Seq<(usize, usize)>) -> Seq<(nat, int)> {
    Seq::new(pairs.len(), |i: int| (pairs[i].0 as nat, pairs[i].1 as int))
}

fn find_supplied(pairs: &Vec<(usize, usize)>, definition: usize) -> (i: usize)
    ensures
        i == supplied_index_from(pairs_model(pairs@), definition as nat, 0),
        i <= pairs.len(),
{
    let mut i: usize = 0;
    while i < pairs.len()
        invariant
            i <= pairs.len(),
            supplied_index_from(pairs_model(pairs@), definition as nat, 0) == supplied_index_from(pairs_model(pairs@), definition as nat, i as int),
        decreases pairs.len() - i,
    {
        if pairs[i].0 == definition {
            return i;
        }
        i = i + 1;
    }
    i
}

/// The model of a list of arguments.
pub open spec fn arguments_model(arguments: Seq<(InputValueDefinitionId, SchemaInputValueId)>) -> Seq<(nat, nat)> {
    Seq::new(arguments.len(), |i: int| (arguments[i].0.position(), arguments[i].1.position()))
}

/// Works out the arguments of a required field.
#[verifier::loop_isolation(false)]
fn build_arguments(graph: &Graph, item: &FieldSetItem, pairs: Vec<(usize, usize)>, declared: IdRange) -> (r: Result<
    Vec<(InputValueDefinitionId, SchemaInputValueId)>,
    InputValueError,
>)
    requires
        graph_valid(*graph),
        graph.input_value_definitions.len() <= u32::MAX,
        declared.within(graph.input_value_definitions.len() as nat),
        forall|i: int| 0 <= i < pairs@.len() ==> (#[trigger] pairs@[i]).1 < item.arguments.len(),
    ensures
        match r {
            Ok(arguments) => {
                &&& arguments_from(*graph, *item, pairs_model(pairs@), declared, declared.count()) is Ok
                &&& arguments_from(*graph, *item, pairs_model(pairs@), declared, declared.count())->Ok_0.0 == arguments_model(arguments@)
            },
            Err(e) => arguments_from(*graph, *item, pairs_model(pairs@), declared, declared.count()) == Err::<
                (Seq<(nat, nat)>, Seq<(nat, int)>),
                InputValueErrorModel,
            >(e@),
        },
{
    let ghost start = pairs_model(pairs@);
    let mut rest = pairs;
    let mut arguments: Vec<(InputValueDefinitionId, SchemaInputValueId)> = Vec::new();
    assert(arguments_model(arguments@) =~= Seq::empty());
    let n = declared.len();
    let mut k: usize = 0;
    while k < n
        invariant
            k <= n,
            n == declared.count(),
            graph_valid(*graph),
            graph.input_value_definitions.len() <= u32::MAX,
            declared.within(graph.input_value_definitions.len() as nat),
            forall|i: int| 0 <= i < rest@.len() ==> (#[trigger] rest@[i]).1 < item.arguments.len(),
            arguments_from(*graph, *item, start, declared, k as nat) == Ok::<(Seq<(nat, nat)>, Seq<(nat, int)>), InputValueErrorModel>(
                (arguments_model(arguments@), pairs_model(rest@)),
            ),
        decreases n - k,
    {
        let d = declared.start + k;
        let definition = &graph.input_value_definitions[d];
        let ghost before = arguments_model(arguments@);
        let ghost left = pairs_model(rest@);
        let p = find_supplied(&rest, d);
        if p < rest.len() {
            let pair = rest.swap_remove(p);
            assert(pairs_model(rest@) =~= left.update(p as int, left.last()).drop_last());
            assert(left[p as int] == (pair.0 as nat, pair.1 as int));
            match &item.arguments[pair.1].1 {
                Ok(value) => {
                    let id = InputValueDefinitionId::new(d);
                    arguments.push((id, *value));
                    assert(arguments_model(arguments@) =~= before.push((d as nat, value.position())));
                },
                Err(e) => {
                    proof {
                        assert(item.arguments[left[p as int].1].1 == Err::<SchemaInputValueId, InputValueError>(*e));
                        assert(arguments_from(*graph, *item, start, declared, (k + 1) as nat) == Err::<
                            (Seq<(nat, nat)>, Seq<(nat, int)>),
                            InputValueErrorModel,
                        >(e@));
                        lemma_arguments_error(*graph, *item, start, declared, (k + 1) as nat, n as nat);
                    }
                    return Err(e.duplicate());
                },
            }
        } else {
            match definition.default_value {
                Some(id) => {
                    arguments.push((InputValueDefinitionId::new(d), id));
                    assert(arguments_model(arguments@) =~= before.push((d as nat, id.position())));
                },
                None => {
                    if definition.ty.wrapping.is_required() {
                        proof {
                            assert(arguments_from(*graph, *item, start, declared, (k + 1) as nat) == Err::<
                                (Seq<(nat, nat)>, Seq<(nat, int)>),
                                InputValueErrorModel,
                            >(InputValueErrorModel::MissingRequiredArgument(graph.strings[definition.name.position() as int]@)));
                            lemma_arguments_error(*graph, *item, start, declared, (k + 1) as nat, n as nat);
                        }
                        return Err(InputValueError::MissingRequiredArgument(graph.strings[definition.name.index()].clone()));
                    }
                },
            }
        }
        k = k + 1;
    }
    Ok(arguments)
}

/// The table of required fields after the conversion of one item, whether
/// or not it succeeds. Where the item's own field cannot be built, or the
/// table is full, the table stays as it is. Else it holds the item's field,
/// and what the conversion of the items below it has left, as far as that
/// conversion got.
pub open spec fn table_after_item(ctx: BuildContext, graph: Graph, table: Seq<FieldKey>, item: FieldSetItem) -> Seq<FieldKey>
    decreases item, 1nat, 0nat,
{
    match local_field(ctx, item.field) {
        None => table,
        Some(definition) => {
            let pairs = supplied(ctx, item, item.arguments.len() as nat);
            let declared = graph.field_definitions[definition as int].argument_ids;
            match arguments_from(graph, item, pairs, declared, declared.count()) {
                Err(_) => table,
                Ok((arguments, _)) => {
                    let key = FieldKey { definition, arguments };
                    let id = find_key_from(table, key, 0);
                    if id >= u32::MAX {
                        table
                    } else {
                        let grown = if id < table.len() {
                            table
                        } else {
                            table.push(key)
                        };
                        table_after_set(ctx, graph, grown, item.subselection, item.subselection.len() as nat)
                    }
                },
            }
        },
    }
}

/// The table of required fields after the conversion of the first `n` items
/// of a field set, which stops at the first item that fails.
pub open spec fn table_after_set(ctx: BuildContext, graph: Graph, table: Seq<FieldKey>, items: Vec<FieldSetItem>, n: nat) -> Seq<FieldKey>
    decreases items, 0nat, n,
{
    if n == 0 || n > items.len() {
        table
    } else {
        match converted_set(ctx, graph, table, items, (n - 1) as nat) {
            Err(_) => table_after_set(ctx, graph, table, items, (n - 1) as nat),
            Ok((before, _)) => table_after_item(ctx, graph, before, items[n - 1]),
        }
    }
}

/// Once the conversion of a field set has failed, the table stays as the
/// failure left it.
proof fn lemma_table_after_error(ctx: BuildContext, graph: Graph, table: Seq<FieldKey>, items: Vec<FieldSetItem>, k: nat, n: nat)
    requires
        k <= n <= items.len(),
        converted_set(ctx, graph, table, items, k) is Err,
    ensures
        table_after_set(ctx, graph, table, items, n) == table_after_set(ctx, graph, table, items, k),
    decreases n,
{
    if k < n {
        lemma_set_error(ctx, graph, table, items, k, (n - 1) as nat);
        lemma_table_after_error(ctx, graph, table, items, k, (n - 1) as nat);
    }
}

/// Converts the items of the composed graph into required fields, and keeps
/// the table in which equal required fields share a handle.
pub struct Converter<'a> {
    pub ctx: &'a BuildContext,
    pub graph: &'a Graph,
    pub deduplicated_fields: Vec<RequiredField>,
}

impl<'a> Converter<'a> {
    /// Converts a field set, item by item; items whose field is no field of
    /// this schema are dropped.
    #[verifier::loop_isolation(false)]
    pub fn convert_set(&mut self, field_set: &Vec<FieldSetItem>) -> (r: Result<RequiredFieldSet, InputValueError>)
        requires
            graph_valid(*old(self).graph),
            context_valid(*old(self).ctx, *old(self).graph),
            keys_distinct(keys_of(old(self).deduplicated_fields@)),
        ensures
            final(self).ctx == old(self).ctx,
            final(self).graph == old(self).graph,
            keys_distinct(keys_of(final(self).deduplicated_fields@)),
            keys_of(final(self).deduplicated_fields@) == table_after_set(
                *old(self).ctx,
                *old(self).graph,
                keys_of(old(self).deduplicated_fields@),
                *field_set,
                field_set.len() as nat,
            ),
            match r {
                Ok(set) => {
                    &&& converted_set(
                        *old(self).ctx,
                        *old(self).graph,
                        keys_of(old(self).deduplicated_fields@),
                        *field_set,
                        field_set.len() as nat,
                    ) == Ok::<(Seq<FieldKey>, Seq<ItemModel>), InputValueErrorModel>((keys_of(final(self).deduplicated_fields@), set@))
                    &&& items_within(set@, final(self).deduplicated_fields@.len())
                },
                Err(e) => converted_set(
                    *old(self).ctx,
                    *old(self).graph,
                    keys_of(old(self).deduplicated_fields@),
                    *field_set,
                    field_set.len() as nat,
                ) == Err::<(Seq<FieldKey>, Seq<ItemModel>), InputValueErrorModel>(e@),
            },
        decreases field_set, 0nat, 0nat,
    {
        let ghost start = keys_of(self.deduplicated_fields@);
        let mut items: Vec<RequiredFieldSetItem> = Vec::new();
        let mut i: usize = 0;
        let ghost mut models: Seq<ItemModel> = Seq::empty();
        while i < field_set.len()
            invariant
                i <= field_set.len(),
                self.ctx == old(self).ctx,
                self.graph == old(self).graph,
                models.len() == items.len(),
                forall|j: int| 0 <= j < items.len() ==> (#[trigger] items[j])@ == models[j],
                converted_set(*self.ctx, *self.graph, start, *field_set, i as nat) == Ok::<(Seq<FieldKey>, Seq<ItemModel>), InputValueErrorModel>(
                    (keys_of(self.deduplicated_fields@), models),
                ),
                keys_distinct(keys_of(self.deduplicated_fields@)),
                keys_of(self.deduplicated_fields@) == table_after_set(*self.ctx, *self.graph, start, *field_set, i as nat),
            decreases field_set.len() - i,
        {
            assert(decreases_to!(field_set => field_set[i as int]));
            match self.convert_item(&field_set[i]) {
                Ok(Some(item)) => {
                    proof {
                        models = models.push(item@);
                    }
                    items.push(item);
                },
                Ok(None) => {},
                Err(e) => {
                    proof {
                        lemma_set_error(*self.ctx, *self.graph, start, *field_set, (i + 1) as nat, field_set.len() as nat);
                        lemma_table_after_error(*self.ctx, *self.graph, start, *field_set, (i + 1) as nat, field_set.len() as nat);
                    }
                    return Err(e);
                },
            }
            i = i + 1;
        }
        let set = RequiredFieldSet { items };
        assert(set@ =~= models);
        proof {
            lemma_converted_set(*self.ctx, *self.graph, start, *field_set, field_set.len() as nat);
        }
        Ok(set)
    }

    /// Converts one item: its field with its arguments becomes a required
    /// field, which takes the handle of an equal field where there is one,
    /// and the items below it are converted in turn. The table keeps each
    /// field once. Where the item's own field cannot be built the table
    /// stays as it is; where an item below it fails, the table holds what
    /// was converted up to there.
    pub fn convert_item(&mut self, item: &FieldSetItem) -> (r: Result<Option<RequiredFieldSetItem>, InputValueError>)
        requires
            graph_valid(*old(self).graph),
            context_valid(*old(self).ctx, *old(self).graph),
            keys_distinct(keys_of(old(self).deduplicated_fields@)),
        ensures
            final(self).ctx == old(self).ctx,
            final(self).graph == old(self).graph,
            keys_distinct(keys_of(final(self).deduplicated_fields@)),
            keys_of(final(self).deduplicated_fields@) == table_after_item(
                *old(self).ctx,
                *old(self).graph,
                keys_of(old(self).deduplicated_fields@),
                *item,
            ),
            match r {
                Ok(converted) => {
                    &&& converted_item(*old(self).ctx, *old(self).graph, keys_of(old(self).deduplicated_fields@), *item) == Ok::<
                        (Seq<FieldKey>, Option<ItemModel>),
                        InputValueErrorModel,
                    >(
                        (
                            keys_of(final(self).deduplicated_fields@),
                            match converted {
                                Some(c) => Some(c@),
                                None => None,
                            },
                        ),
                    )
                    &&& converted is Some ==> {
                        &&& converted->Some_0@.id < final(self).deduplicated_fields@.len()
                        &&& final(self).deduplicated_fields@[converted->Some_0@.id as int]@ == key_of_item(*old(self).ctx, *old(self).graph, *item)
                    }
                },
                Err(e) => converted_item(*old(self).ctx, *old(self).graph, keys_of(old(self).deduplicated_fields@), *item) == Err::<
                    (Seq<FieldKey>, Option<ItemModel>),
                    InputValueErrorModel,
                >(e@),
            },
        decreases item, 1nat, 0nat,
    {
        let definition_id = if item.field < self.ctx.idmaps.field.len() {
            match self.ctx.idmaps.field[item.field] {
                Some(id) => id,
                None => {
                    return Ok(None);
                },
            }
        } else {
            return Ok(None);
        };
        let pairs = supplied_pairs(self.ctx, item);
        assert(pairs_model(pairs@) =~= supplied(*self.ctx, *item, item.arguments.len() as nat));
        let declared = self.graph.field_definitions[definition_id.index()].argument_ids;
        let arguments = match build_arguments(self.graph, item, pairs, declared) {
            Ok(arguments) => arguments,
            Err(e) => {
                return Err(e);
            },
        };
        let field = RequiredField { definition_id, arguments };
        assert(field@.arguments =~= arguments_model(field.arguments@));
        let n = find_in_table(&self.deduplicated_fields, &field);
        let id = match RequiredFieldId::try_new(n) {
            Some(id) => id,
            None => {
                return Err(InputValueError::Coercion(TOO_MANY.to_owned()));
            },
        };
        let ghost table = keys_of(self.deduplicated_fields@);
        let ghost key = field@;
        proof {
            lemma_find_key(table, key, 0);
        }
        if n >= self.deduplicated_fields.len() {
            self.deduplicated_fields.push(field);
            assert(keys_of(self.deduplicated_fields@) =~= table.push(key));
        }
        let ghost grown = keys_of(self.deduplicated_fields@);
        assert(keys_distinct(grown)) by {
            assert forall|i: int, j: int| 0 <= i < j < grown.len() implies #[trigger] grown[i] != #[trigger] grown[j] by {
                if j < table.len() {
                    assert(table[i] != table[j]);
                } else {
                    assert(table[i] != key);
                }
            }
        }
        assert(decreases_to!(item => item.subselection));
        match self.convert_set(&item.subselection) {
            Ok(subselection) => {
                proof {
                    lemma_converted_item(*self.ctx, *self.graph, table, *item);
                }
                Ok(Some(RequiredFieldSetItem { id, subselection }))
            },
            Err(e) => Err(e),
        }
    }
}

/// No two fields of the table are equal.
pub open spec fn keys_distinct(table: Seq<FieldKey>) -> bool {
    forall|i: int, j: int| 0 <= i < j < table.len() ==> #[trigger] table[i] != #[trigger] table[j]
}

pub(crate) proof fn lemma_find_key(table: Seq<FieldKey>, key: FieldKey, from: int)
    requires
        0 <= from <= table.len(),
    ensures
        from <= find_key_from(table, key, from) <= table.len(),
        find_key_from(table, key, from) < table.len() ==> table[find_key_from(table, key, from)] == key,
        forall|j: int| from <= j < find_key_from(table, key, from) ==> #[trigger] table[j] != key,
    decreases table.len() - from,
{
    if from < table.len() && table[from] != key {
        lemma_find_key(table, key, from + 1);
    }
}

/// Handles that name fields of a table name fields of every longer table.
pub proof fn lemma_items_within_grows(items: Seq<ItemModel>, n: nat, m: nat)
    requires
        items_within(items, n),
        n <= m,
    ensures
        items_within(items, m),
    decreases items,
{
    assert forall|i: int| 0 <= i < items.len() implies (#[trigger] items[i]).id < m && items_within(items[i].subselection, m) by {
        assert(items[i].id < n && items_within(items[i].subselection, n));
        lemma_items_within_grows(items[i].subselection, n, m);
    }
}

/// The field that an item asks for, where its conversion gets that far.
pub open spec fn key_of_item(ctx: BuildContext, graph: Graph, item: FieldSetItem) -> FieldKey {
    let definition = local_field(ctx, item.field)->Some_0;
    let declared = graph.field_definitions[definition as int].argument_ids;
    FieldKey {
        definition,
        arguments: arguments_from(graph, item, supplied(ctx, item, item.arguments.len() as nat), declared, declared.count())->Ok_0.0,
    }
}

/// The conversion of an item keeps the table free of repeats and only adds
/// to its end, and the converted item names the field of the table that
/// equals the field that the item asks for. So two items that ask for equal
/// fields get the same handle, and two that ask for different fields get
/// different handles.
pub proof fn lemma_converted_item(ctx: BuildContext, graph: Graph, table: Seq<FieldKey>, item: FieldSetItem)
    requires
        keys_distinct(table),
        converted_item(ctx, graph, table, item) is Ok,
    ensures
        ({
            let (after, converted) = converted_item(ctx, graph, table, item)->Ok_0;
            &&& keys_distinct(after)
            &&& table.len() <= after.len()
            &&& forall|i: int| 0 <= i < table.len() ==> #[trigger] after[i] == table[i]
            &&& converted is Some ==> {
                &&& converted->Some_0.id < after.len()
                &&& after[converted->Some_0.id as int] == key_of_item(ctx, graph, item)
                &&& items_within(converted->Some_0.subselection, after.len())
            }
        }),
    decreases item, 1nat, 0nat,
{
    if local_field(ctx, item.field) is Some {
        let key = key_of_item(ctx, graph, item);
        let id = find_key_from(table, key, 0);
        lemma_find_key(table, key, 0);
        let grown = if id < table.len() {
            table
        } else {
            table.push(key)
        };
        assert(keys_distinct(grown)) by {
            assert forall|i: int, j: int| 0 <= i < j < grown.len() implies #[trigger] grown[i] != #[trigger] grown[j] by {
                if j < table.len() {
                    assert(table[i] != table[j]);
                } else {
                    assert(table[i] != key);
                }
            }
        }
        lemma_converted_set(ctx, graph, grown, item.subselection, item.subselection.len() as nat);
    }
}

/// The conversion of a field set keeps the table free of repeats and only
/// adds to its end, and every converted item names a field of the table.
pub proof fn lemma_converted_set(ctx: BuildContext, graph: Graph, table: Seq<FieldKey>, items: Vec<FieldSetItem>, n: nat)
    requires
        keys_distinct(table),
        converted_set(ctx, graph, table, items, n) is Ok,
    ensures
        ({
            let (after, out) = converted_set(ctx, graph, table, items, n)->Ok_0;
            &&& keys_distinct(after)
            &&& table.len() <= after.len()
            &&& forall|i: int| 0 <= i < table.len() ==> #[trigger] after[i] == table[i]
            &&& items_within(out, after.len())
        }),
    decreases items, 0nat, n,
{
    if n == 0 || n > items.len() {
    } else {
        lemma_converted_set(ctx, graph, table, items, (n - 1) as nat);
        let (before, out) = converted_set(ctx, graph, table, items, (n - 1) as nat)->Ok_0;
        lemma_converted_item(ctx, graph, before, items[n - 1]);
        let (after, converted) = converted_item(ctx, graph, before, items[n - 1])->Ok_0;
        lemma_items_within_grows(out, before.len(), after.len());
    }
}

/// A conversion that fails on the item's own field leaves the table as it
/// was: no handle is handed out for a field that cannot be built.
pub proof fn lemma_failed_field_keeps_the_table(ctx: BuildContext, graph: Graph, table: Seq<FieldKey>, item: FieldSetItem)
    requires
        local_field(ctx, item.field) is Some,
        ({
            let declared = graph.field_definitions[local_field(ctx, item.field)->Some_0 as int].argument_ids;
            arguments_from(graph, item, supplied(ctx, item, item.arguments.len() as nat), declared, declared.count()) is Err
        }),
    ensures
        converted_item(ctx, graph, table, item) is Err,
        table_after_item(ctx, graph, table, item) == table,
{
}

/// Whatever the conversion of an item comes to, the table after it is the
/// table before it with fields added at its end, each field once.
pub proof fn lemma_table_after_item_extends(ctx: BuildContext, graph: Graph, table: Seq<FieldKey>, item: FieldSetItem)
    requires
        keys_distinct(table),
    ensures
        ({
            let after = table_after_item(ctx, graph, table, item);
            &&& keys_distinct(after)
            &&& table.len() <= after.len()
            &&& forall|i: int| 0 <= i < table.len() ==> #[trigger] after[i] == table[i]
        }),
    decreases item, 1nat, 0nat,
{
    if local_field(ctx, item.field) is Some {
        let definition = local_field(ctx, item.field)->Some_0;
        let declared = graph.field_definitions[definition as int].argument_ids;
        let built = arguments_from(graph, item, supplied(ctx, item, item.arguments.len() as nat), declared, declared.count());
        if built is Ok {
            let key = FieldKey { definition, arguments: built->Ok_0.0 };
            let id = find_key_from(table, key, 0);
            lemma_find_key(table, key, 0);
            if id < u32::MAX {
                let grown = if id < table.len() {
                    table
                } else {
                    table.push(key)
                };
                assert(keys_distinct(grown)) by {
                    assert forall|i: int, j: int| 0 <= i < j < grown.len() implies #[trigger] grown[i] != #[trigger] grown[j] by {
                        if j < table.len() {
                            assert(table[i] != table[j]);
                        } else {
                            assert(table[i] != key);
                        }
                    }
                }
                lemma_table_after_set_extends(ctx, graph, grown, item.subselection, item.subselection.len() as nat);
            }
        }
    }
}

/// Whatever the conversion of a field set comes to, the table after it is
/// the table before it with fields added at its end, each field once.
pub proof fn lemma_table_after_set_extends(ctx: BuildContext, graph: Graph, table: Seq<FieldKey>, items: Vec<FieldSetItem>, n: nat)
    requires
        keys_distinct(table),
    ensures
        ({
            let after = table_after_set(ctx, graph, table, items, n);
            &&& keys_distinct(after)
            &&& table.len() <= after.len()
            &&& forall|i: int| 0 <= i < table.len() ==> #[trigger] after[i] == table[i]
        }),
    decreases items, 0nat, n,
{
    if n == 0 || n > items.len() {
    } else if converted_set(ctx, graph, table, items, (n - 1) as nat) is Err {
        lemma_table_after_set_extends(ctx, graph, table, items, (n - 1) as nat);
    } else {
        lemma_converted_set(ctx, graph, table, items, (n - 1) as nat);
        let before = converted_set(ctx, graph, table, items, (n - 1) as nat)->Ok_0.0;
        lemma_table_after_item_extends(ctx, graph, before, items[n - 1]);
    }
}

/// Two items that are converted one after the other and ask for equal
/// fields get the same handle, and the second adds no field of its own to
/// the table; two that ask for different fields get different handles.
pub proof fn lemma_items_share_handles(ctx: BuildContext, graph: Graph, table: Seq<FieldKey>, a: FieldSetItem, b: FieldSetItem)
    requires
        keys_distinct(table),
        converted_item(ctx, graph, table, a) is Ok,
        converted_item(ctx, graph, table, a)->Ok_0.1 is Some,
        converted_item(ctx, graph, converted_item(ctx, graph, table, a)->Ok_0.0, b) is Ok,
        converted_item(ctx, graph, converted_item(ctx, graph, table, a)->Ok_0.0, b)->Ok_0.1 is Some,
    ensures
        ({
            let (first, x) = converted_item(ctx, graph, table, a)->Ok_0;
            let (second, y) = converted_item(ctx, graph, first, b)->Ok_0;
            &&& (key_of_item(ctx, graph, a) == key_of_item(ctx, graph, b)) == (x->Some_0.id == y->Some_0.id)
            &&& key_of_item(ctx, graph, a) == key_of_item(ctx, graph, b) ==> find_key_from(first, key_of_item(ctx, graph, b), 0) < first.len()
        }),
{
    let (first, x) = converted_item(ctx, graph, table, a)->Ok_0;
    let (second, y) = converted_item(ctx, graph, first, b)->Ok_0;
    lemma_converted_item(ctx, graph, table, a);
    lemma_converted_item(ctx, graph, first, b);
    assert(second[x->Some_0.id as int] == first[x->Some_0.id as int]);
    lemma_find_key(first, key_of_item(ctx, graph, b), 0);
}

/// The field sets that a build has seen, each with the place in the schema
/// where it stands. They are converted once everything else of the schema
/// is known.
#[derive(Debug)]
pub struct RequiredFieldSetBuffer {
    pub entries: Vec<(String, Vec<FieldSetItem>)>,
}

/// What the conversion of the first `n` field sets of a buffer comes to:
/// the table of required fields and the required field sets, or the place
/// and the error of the first field set that cannot be converted.
pub open spec fn converted_buffer(ctx: BuildContext, graph: Graph, entries: Seq<(String, Vec<FieldSetItem>)>, n: nat) -> Result<
    (Seq<FieldKey>, Seq<Seq<ItemModel>>),
    (Seq<char>, InputValueErrorModel),
>
    decreases n,
{
    if n == 0 {
        Ok((Seq::empty(), Seq::empty()))
    } else {
        match converted_buffer(ctx, graph, entries, (n - 1) as nat) {
            Err(e) => Err(e),
            Ok((table, sets)) => match converted_set(ctx, graph, table, entries[n - 1].1, entries[n - 1].1.len() as nat) {
                Err(e) => Err((entries[n - 1].0@, e)),
                Ok((after, set)) => Ok((after, sets.push(set))),
            },
        }
    }
}

proof fn lemma_buffer_error(ctx: BuildContext, graph: Graph, entries: Seq<(String, Vec<FieldSetItem>)>, k: nat, n: nat)
    requires
        k <= n,
        converted_buffer(ctx, graph, entries, k) is Err,
    ensures
        converted_buffer(ctx, graph, entries, n) == converted_buffer(ctx, graph, entries, k),
    decreases n,
{
    if k < n {
        lemma_buffer_error(ctx, graph, entries, k, (n - 1) as nat);
    }
}

/// The conversion of a buffer gives a table without repeats, and every item
/// of every set names a field of the table.
pub proof fn lemma_converted_buffer(ctx: BuildContext, graph: Graph, entries: Seq<(String, Vec<FieldSetItem>)>, n: nat)
    requires
        converted_buffer(ctx, graph, entries, n) is Ok,
    ensures
        ({
            let (table, sets) = converted_buffer(ctx, graph, entries, n)->Ok_0;
            &&& keys_distinct(table)
            &&& sets.len() == n
            &&& forall|i: int| 0 <= i < sets.len() ==> items_within(#[trigger] sets[i], table.len())
        }),
    decreases n,
{
    if n > 0 {
        lemma_converted_buffer(ctx, graph, entries, (n - 1) as nat);
        let (table, sets) = converted_buffer(ctx, graph, entries, (n - 1) as nat)->Ok_0;
        lemma_converted_set(ctx, graph, table, entries[n - 1].1, entries[n - 1].1.len() as nat);
        let (after, set) = converted_set(ctx, graph, table, entries[n - 1].1, entries[n - 1].1.len() as nat)->Ok_0;
        assert forall|i: int| 0 <= i < sets.len() implies items_within(#[trigger] sets[i], after.len()) by {
            lemma_items_within_grows(sets[i], table.len(), after.len());
        }
    }
}

/// The models of the sets of a list.
pub open spec fn sets_model(sets: Seq<RequiredFieldSet>) -> Seq<Seq<ItemModel>> {
    Seq::new(sets.len(), |i: int| sets[i]@)
}

impl RequiredFieldSetBuffer {
    /// A buffer without field sets.
    pub fn new() -> (r: RequiredFieldSetBuffer)
        ensures
            r.entries@.len() == 0,
    {
        RequiredFieldSetBuffer { entries: Vec::new() }
    }

    /// Takes a field set in and returns the handle that its required field
    /// set will have.
    pub fn push(&mut self, location: String, field_set: Vec<FieldSetItem>) -> (id: RequiredFieldSetId)
        requires
            old(self).entries.len() < u32::MAX,
        ensures
            final(self).entries@ == old(self).entries@.push((location, field_set)),
            id.position() == old(self).entries.len(),
    {
        let id = RequiredFieldSetId::new(self.entries.len());
        self.entries.push((location, field_set));
        id
    }

    /// Converts the field sets of the buffer and puts the required fields
    /// and the required field sets into the graph: the fields each once, in
    /// the order of their handles, the sets in the order in which they came.
    /// If a field set cannot be converted, the graph stays as it is.
    #[verifier::loop_isolation(false)]
    pub fn try_insert_into(self, ctx: &BuildContext, graph: &mut Graph) -> (r: Result<(), BuildError>)
        requires
            graph_valid(*old(graph)),
            context_valid(*ctx, *old(graph)),
        ensures
            match r {
                Ok(()) => {
                    &&& converted_buffer(*ctx, *old(graph), self.entries@, self.entries.len() as nat) == Ok::<
                        (Seq<FieldKey>, Seq<Seq<ItemModel>>),
                        (Seq<char>, InputValueErrorModel),
                    >((keys_of(final(graph).required_fields@), sets_model(final(graph).required_field_sets@)))
                    &&& keys_distinct(keys_of(final(graph).required_fields@))
                    &&& final(graph).required_field_sets.len() == self.entries.len()
                    &&& forall|i: int|
                        0 <= i < final(graph).required_field_sets.len() ==> items_within(
                            (#[trigger] final(graph).required_field_sets[i])@,
                            final(graph).required_fields.len() as nat,
                        )
                    &&& final(graph).strings == old(graph).strings
                    &&& final(graph).field_definitions == old(graph).field_definitions
                    &&& final(graph).input_value_definitions == old(graph).input_value_definitions
                    &&& final(graph).interfaces == old(graph).interfaces
                    &&& final(graph).objects == old(graph).objects
                    &&& final(graph).graphql == old(graph).graphql
                },
                Err(BuildError::RequiredFieldArgumentCoercionError { location, err }) => {
                    &&& converted_buffer(*ctx, *old(graph), self.entries@, self.entries.len() as nat) == Err::<
                        (Seq<FieldKey>, Seq<Seq<ItemModel>>),
                        (Seq<char>, InputValueErrorModel),
                    >((location@, err@))
                    &&& *final(graph) == *old(graph)
                },
            },
    {
        let ghost all = self.entries@;
        let mut sets: Vec<RequiredFieldSet> = Vec::new();
        let mut table: Vec<RequiredField> = Vec::new();
        assert(keys_of(table@) =~= Seq::empty());
        assert(sets_model(sets@) =~= Seq::empty());
        let mut i: usize = 0;
        while i < self.entries.len()
            invariant
                i <= self.entries.len(),
                *graph == *old(graph),
                converted_buffer(*ctx, *old(graph), all, i as nat) == Ok::<(Seq<FieldKey>, Seq<Seq<ItemModel>>), (Seq<char>, InputValueErrorModel)>(
                    (keys_of(table@), sets_model(sets@)),
                ),
                keys_distinct(keys_of(table@)),
            decreases self.entries.len() - i,
        {
            let mut converter = Converter { ctx, graph: &*graph, deduplicated_fields: table };
            let outcome = converter.convert_set(&self.entries[i].1);
            let Converter { deduplicated_fields, .. } = converter;
            table = deduplicated_fields;
            match outcome {
                Ok(set) => {
                    let ghost before = sets_model(sets@);
                    let ghost model = set@;
                    sets.push(set);
                    assert(sets_model(sets@) =~= before.push(model));
                },
                Err(err) => {
                    proof {
                        lemma_buffer_error(*ctx, *old(graph), all, (i + 1) as nat, self.entries.len() as nat);
                    }
                    return Err(BuildError::RequiredFieldArgumentCoercionError { location: self.entries[i].0.clone(), err });
                },
            }
            i = i + 1;
        }
        proof {
            lemma_converted_buffer(*ctx, *old(graph), all, self.entries.len() as nat);
            assert(sets_model(sets@).len() == sets@.len());
            assert(keys_of(table@).len() == table@.len());
            assert forall|j: int| 0 <= j < sets.len() implies items_within((#[trigger] sets[j])@, table.len() as nat) by {
                assert(sets_model(sets@)[j] == sets[j]@);
            }
        }
        graph.required_fields = table;
        graph.required_field_sets = sets;
        Ok(())
    }
}

} // verus!
