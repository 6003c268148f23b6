//! What a mutation knows of the schema: the node types and their relations.

use crate::text::same_text;
use vstd::prelude::*;

verus! {

/// A field of a node type that relates it to another node type.
#[derive(Debug)]
pub struct Relation {
    /// The field's name.
    pub field: String,
    /// The relation's name, shared by the fields on both sides.
    pub name: String,
    /// The name of the node type that the field refers to.
    pub target: String,
}

/// The mathematical model of a relation field.
pub struct RelationModel {
    pub field: Seq<char>,
    pub name: Seq<char>,
    pub target: Seq<char>,
}

impl DeepView for Relation {
    type V = RelationModel;

    open spec fn deep_view(&self) -> RelationModel {
        RelationModel { field: self.field@, name: self.name@, target: self.target@ }
    }
}

impl View for Relation {
    type V = RelationModel;

    open spec fn view(&self) -> RelationModel {
        self.deep_view()
    }
}

/// A node type: its name and its relation fields in the order of their declaration.
#[derive(Debug)]
pub struct NodeType {
    pub name: String,
    pub relations: Vec<Relation>,
}

/// The mathematical model of a node type.
pub struct NodeTypeModel {
    pub name: Seq<char>,
    pub relations: Seq<RelationModel>,
}

impl DeepView for NodeType {
    type V = NodeTypeModel;

    open spec fn deep_view(&self) -> NodeTypeModel {
        NodeTypeModel { name: self.name@, relations: self.relations.deep_view() }
    }
}

impl View for NodeType {
    type V = NodeTypeModel;

    open spec fn view(&self) -> NodeTypeModel {
        self.deep_view()
    }
}

/// The position of the first relation of a type whose field is `field`, or
/// the number of relations.
pub open spec fn relation_field_from(relations: Seq<RelationModel>, field: Seq<char>, from: int) -> int
    decreases relations.len() - from,
{
    if from < 0 || from >= relations.len() {
        relations.len() as int
    } else if relations[from].field == field {
        from
    } else {
        relation_field_from(relations, field, from + 1)
    }
}

/// Whether a field of a type is one of its relation fields.
pub open spec fn is_relation_field(relations: Seq<RelationModel>, field: Seq<char>) -> bool {
    relation_field_from(relations, field, 0) < relations.len()
}

/// The position of the first type named `name`, or the number of types.
pub open spec fn type_index_from(types: Seq<NodeTypeModel>, name: Seq<char>, from: int) -> int
    decreases types.len() - from,
{
    if from < 0 || from >= types.len() {
        types.len() as int
    } else if types[from].name == name {
        from
    } else {
        type_index_from(types, name, from + 1)
    }
}

/// Every relation of every type refers to a type of the catalog.
pub open spec fn catalog_closed(types: Seq<NodeTypeModel>) -> bool {
    forall|t: int, r: int|
        0 <= t < types.len() && 0 <= r < types[t].relations.len() ==> type_index_from(types, #[trigger] types[t].relations[r].target, 0)
            < types.len()
}

impl NodeType {
    /// Whether a field is one of the type's relation fields.
    pub fn is_relation_field(&self, field: &str) -> (r: bool)
        ensures
            r == is_relation_field(self@.relations, field@),
    {
        let mut i: usize = 0;
        while i < self.relations.len()
            invariant
                i <= self.relations.len(),
                relation_field_from(self@.relations, field@, 0) == relation_field_from(self@.relations, field@, i as int),
            decreases self.relations.len() - i,
        {
            if same_text(self.relations[i].field.as_str(), field) {
                return true;
            }
            i = i + 1;
        }
        false
    }
}

/// The position of the first type of a name among the types of a catalog, or
/// their number.
pub fn find_type(types: &Vec<NodeType>, name: &str) -> (i: usize)
    ensures
        i == type_index_from(types.deep_view(), name@, 0),
        i <= types.len(),
{
    let mut i: usize = 0;
    while i < types.len()
        invariant
            i <= types.len(),
            type_index_from(types.deep_view(), name@, 0) == type_index_from(types.deep_view(), name@, i as int),
        decreases types.len() - i,
    {
        if same_text(types[i].name.as_str(), name) {
            return i;
        }
        i = i + 1;
    }
    i
}

} // verus!
