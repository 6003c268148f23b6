//! Handles into the arenas of a schema or an operation. A handle is a small
//! integer; it names an element only in the arena that it was made for.

use vstd::prelude::*;

verus! {

/// A run of neighbouring positions of an arena, from `start` up to, but not
/// including, `end`.
#[derive(Clone, Copy, Debug, PartialEq, Eq, Structural)]
pub struct IdRange {
    pub start: usize,
    pub end: usize,
}

impl IdRange {
    /// The number of positions in the range.
    pub open spec fn count(self) -> nat {
        if self.start <= self.end {
            (self.end - self.start) as nat
        } else {
            0
        }
    }

    /// The range of the positions from `start` up to `end`.
    pub fn new(start: usize, end: usize) -> (r: IdRange)
        ensures
            r.start == start,
            r.end == end,
    {
        IdRange { start, end }
    }

    /// The range without positions.
    pub fn empty() -> (r: IdRange)
        ensures
            r.count() == 0,
    {
        IdRange { start: 0, end: 0 }
    }

    pub fn len(self) -> (n: usize)
        ensures
            n == self.count(),
    {
        if self.start <= self.end {
            self.end - self.start
        } else {
            0
        }
    }

    pub fn is_empty(self) -> (r: bool)
        ensures
            r == (self.count() == 0),
    {
        self.start >= self.end
    }

    /// Whether the range lies within an arena of `n` elements.
    pub open spec fn within(self, n: nat) -> bool {
        self.start <= self.end <= n
    }
}

/// The handle of a string of the schema. It is kept as one more than the position,
/// so that zero is free to stand for "none".
#[derive(Clone, Copy, Debug, PartialEq, Eq, PartialOrd, Ord, Hash, Structural)]
pub struct StringId {
    raw: u32,
}

impl StringId {
    #[verifier::type_invariant]
    closed spec fn nonzero(self) -> bool {
        self.raw >= 1
    }

    /// The position that the handle names.
    pub closed spec fn position(self) -> nat {
        (self.raw - 1) as nat
    }

    /// The handle of a position.
    pub fn new(index: usize) -> (r: StringId)
        requires
            index < u32::MAX,
        ensures
            r.position() == index,
    {
        StringId { raw: (index + 1) as u32 }
    }

    /// The handle of a position, if the position is small enough to have one.
    pub fn try_new(index: usize) -> (r: Option<StringId>)
        ensures
            r is Some == (index < u32::MAX),
            r is Some ==> r->Some_0.position() == index,
    {
        if index < u32::MAX as usize {
            Some(StringId { raw: (index + 1) as u32 })
        } else {
            None
        }
    }

    /// The position that the handle names.
    pub fn index(self) -> (i: usize)
        ensures
            i == self.position(),
    {
        proof {
            use_type_invariant(self);
        }
        (self.raw - 1) as usize
    }

    /// Whether two handles name the same position.
    pub fn same(self, other: StringId) -> (r: bool)
        ensures
            r == (self.position() == other.position()),
            r == (self == other),
    {
        proof {
            use_type_invariant(self);
            use_type_invariant(other);
        }
        self.raw == other.raw
    }
}

/// The handle of a URL of the schema. It is kept as one more than the position,
/// so that zero is free to stand for "none".
#[derive(Clone, Copy, Debug, PartialEq, Eq, PartialOrd, Ord, Hash, Structural)]
pub struct UrlId {
    raw: u32,
}

impl UrlId {
    #[verifier::type_invariant]
    closed spec fn nonzero(self) -> bool {
        self.raw >= 1
    }

    /// The position that the handle names.
    pub closed spec fn position(self) -> nat {
        (self.raw - 1) as nat
    }

    /// The handle of a position.
    pub fn new(index: usize) -> (r: UrlId)
        requires
            index < u32::MAX,
        ensures
            r.position() == index,
    {
        UrlId { raw: (index + 1) as u32 }
    }

    /// The handle of a position, if the position is small enough to have one.
    pub fn try_new(index: usize) -> (r: Option<UrlId>)
        ensures
            r is Some == (index < u32::MAX),
            r is Some ==> r->Some_0.position() == index,
    {
        if index < u32::MAX as usize {
            Some(UrlId { raw: (index + 1) as u32 })
        } else {
            None
        }
    }

    /// The position that the handle names.
    pub fn index(self) -> (i: usize)
        ensures
            i == self.position(),
    {
        proof {
            use_type_invariant(self);
        }
        (self.raw - 1) as usize
    }

    /// Whether two handles name the same position.
    pub fn same(self, other: UrlId) -> (r: bool)
        ensures
            r == (self.position() == other.position()),
            r == (self == other),
    {
        proof {
            use_type_invariant(self);
            use_type_invariant(other);
        }
        self.raw == other.raw
    }
}

/// The handle of a subgraph. It is kept as one more than the position,
/// so that zero is free to stand for "none".
#[derive(Clone, Copy, Debug, PartialEq, Eq, PartialOrd, Ord, Hash, Structural)]
pub struct SubgraphId {
    raw: u32,
}

impl SubgraphId {
    #[verifier::type_invariant]
    closed spec fn nonzero(self) -> bool {
        self.raw >= 1
    }

    /// The position that the handle names.
    pub closed spec fn position(self) -> nat {
        (self.raw - 1) as nat
    }

    /// The handle of a position.
    pub fn new(index: usize) -> (r: SubgraphId)
        requires
            index < u32::MAX,
        ensures
            r.position() == index,
    {
        SubgraphId { raw: (index + 1) as u32 }
    }

    /// The handle of a position, if the position is small enough to have one.
    pub fn try_new(index: usize) -> (r: Option<SubgraphId>)
        ensures
            r is Some == (index < u32::MAX),
            r is Some ==> r->Some_0.position() == index,
    {
        if index < u32::MAX as usize {
            Some(SubgraphId { raw: (index + 1) as u32 })
        } else {
            None
        }
    }

    /// The position that the handle names.
    pub fn index(self) -> (i: usize)
        ensures
            i == self.position(),
    {
        proof {
            use_type_invariant(self);
        }
        (self.raw - 1) as usize
    }

    /// Whether two handles name the same position.
    pub fn same(self, other: SubgraphId) -> (r: bool)
        ensures
            r == (self.position() == other.position()),
            r == (self == other),
    {
        proof {
            use_type_invariant(self);
            use_type_invariant(other);
        }
        self.raw == other.raw
    }
}

/// The handle of a header rule. It is kept as one more than the position,
/// so that zero is free to stand for "none".
#[derive(Clone, Copy, Debug, PartialEq, Eq, PartialOrd, Ord, Hash, Structural)]
pub struct HeaderRuleId {
    raw: u32,
}

impl HeaderRuleId {
    #[verifier::type_invariant]
    closed spec fn nonzero(self) -> bool {
        self.raw >= 1
    }

    /// The position that the handle names.
    pub closed spec fn position(self) -> nat {
        (self.raw - 1) as nat
    }

    /// The handle of a position.
    pub fn new(index: usize) -> (r: HeaderRuleId)
        requires
            index < u32::MAX,
        ensures
            r.position() == index,
    {
        HeaderRuleId { raw: (index + 1) as u32 }
    }

    /// The handle of a position, if the position is small enough to have one.
    pub fn try_new(index: usize) -> (r: Option<HeaderRuleId>)
        ensures
            r is Some == (index < u32::MAX),
            r is Some ==> r->Some_0.position() == index,
    {
        if index < u32::MAX as usize {
            Some(HeaderRuleId { raw: (index + 1) as u32 })
        } else {
            None
        }
    }

    /// The position that the handle names.
    pub fn index(self) -> (i: usize)
        ensures
            i == self.position(),
    {
        proof {
            use_type_invariant(self);
        }
        (self.raw - 1) as usize
    }

    /// Whether two handles name the same position.
    pub fn same(self, other: HeaderRuleId) -> (r: bool)
        ensures
            r == (self.position() == other.position()),
            r == (self == other),
    {
        proof {
            use_type_invariant(self);
            use_type_invariant(other);
        }
        self.raw == other.raw
    }
}

/// The handle of a GraphQL endpoint. It is kept as one more than the position,
/// so that zero is free to stand for "none".
#[derive(Clone, Copy, Debug, PartialEq, Eq, PartialOrd, Ord, Hash, Structural)]
pub struct GraphqlEndpointId {
    raw: u8,
}

impl GraphqlEndpointId {
    #[verifier::type_invariant]
    closed spec fn nonzero(self) -> bool {
        self.raw >= 1
    }

    /// The position that the handle names.
    pub closed spec fn position(self) -> nat {
        (self.raw - 1) as nat
    }

    /// The handle of a position.
    pub fn new(index: usize) -> (r: GraphqlEndpointId)
        requires
            index < u8::MAX,
        ensures
            r.position() == index,
    {
        GraphqlEndpointId { raw: (index + 1) as u8 }
    }

    /// The handle of a position, if the position is small enough to have one.
    pub fn try_new(index: usize) -> (r: Option<GraphqlEndpointId>)
        ensures
            r is Some == (index < u8::MAX),
            r is Some ==> r->Some_0.position() == index,
    {
        if index < u8::MAX as usize {
            Some(GraphqlEndpointId { raw: (index + 1) as u8 })
        } else {
            None
        }
    }

    /// The position that the handle names.
    pub fn index(self) -> (i: usize)
        ensures
            i == self.position(),
    {
        proof {
            use_type_invariant(self);
        }
        (self.raw - 1) as usize
    }

    /// Whether two handles name the same position.
    pub fn same(self, other: GraphqlEndpointId) -> (r: bool)
        ensures
            r == (self.position() == other.position()),
            r == (self == other),
    {
        proof {
            use_type_invariant(self);
            use_type_invariant(other);
        }
        self.raw == other.raw
    }
}

/// The handle of an interface definition. It is kept as one more than the position,
/// so that zero is free to stand for "none".
#[derive(Clone, Copy, Debug, PartialEq, Eq, PartialOrd, Ord, Hash, Structural)]
pub struct InterfaceDefinitionId {
    raw: u32,
}

impl InterfaceDefinitionId {
    #[verifier::type_invariant]
    closed spec fn nonzero(self) -> bool {
        self.raw >= 1
    }

    /// The position that the handle names.
    pub closed spec fn position(self) -> nat {
        (self.raw - 1) as nat
    }

    /// The handle of a position.
    pub fn new(index: usize) -> (r: InterfaceDefinitionId)
        requires
            index < u32::MAX,
        ensures
            r.position() == index,
    {
        InterfaceDefinitionId { raw: (index + 1) as u32 }
    }

    /// The handle of a position, if the position is small enough to have one.
    pub fn try_new(index: usize) -> (r: Option<InterfaceDefinitionId>)
        ensures
            r is Some == (index < u32::MAX),
            r is Some ==> r->Some_0.position() == index,
    {
        if index < u32::MAX as usize {
            Some(InterfaceDefinitionId { raw: (index + 1) as u32 })
        } else {
            None
        }
    }

    /// The position that the handle names.
    pub fn index(self) -> (i: usize)
        ensures
            i == self.position(),
    {
        proof {
            use_type_invariant(self);
        }
        (self.raw - 1) as usize
    }

    /// Whether two handles name the same position.
    pub fn same(self, other: InterfaceDefinitionId) -> (r: bool)
        ensures
            r == (self.position() == other.position()),
            r == (self == other),
    {
        proof {
            use_type_invariant(self);
            use_type_invariant(other);
        }
        self.raw == other.raw
    }
}

/// The handle of an object definition. It is kept as one more than the position,
/// so that zero is free to stand for "none".
#[derive(Clone, Copy, Debug, PartialEq, Eq, PartialOrd, Ord, Hash, Structural)]
pub struct ObjectDefinitionId {
    raw: u32,
}

impl ObjectDefinitionId {
    #[verifier::type_invariant]
    closed spec fn nonzero(self) -> bool {
        self.raw >= 1
    }

    /// The position that the handle names.
    pub closed spec fn position(self) -> nat {
        (self.raw - 1) as nat
    }

    /// The handle of a position.
    pub fn new(index: usize) -> (r: ObjectDefinitionId)
        requires
            index < u32::MAX,
        ensures
            r.position() == index,
    {
        ObjectDefinitionId { raw: (index + 1) as u32 }
    }

    /// The handle of a position, if the position is small enough to have one.
    pub fn try_new(index: usize) -> (r: Option<ObjectDefinitionId>)
        ensures
            r is Some == (index < u32::MAX),
            r is Some ==> r->Some_0.position() == index,
    {
        if index < u32::MAX as usize {
            Some(ObjectDefinitionId { raw: (index + 1) as u32 })
        } else {
            None
        }
    }

    /// The position that the handle names.
    pub fn index(self) -> (i: usize)
        ensures
            i == self.position(),
    {
        proof {
            use_type_invariant(self);
        }
        (self.raw - 1) as usize
    }

    /// Whether two handles name the same position.
    pub fn same(self, other: ObjectDefinitionId) -> (r: bool)
        ensures
            r == (self.position() == other.position()),
            r == (self == other),
    {
        proof {
            use_type_invariant(self);
            use_type_invariant(other);
        }
        self.raw == other.raw
    }
}

/// The handle of a field definition. It is kept as one more than the position,
/// so that zero is free to stand for "none".
#[derive(Clone, Copy, Debug, PartialEq, Eq, PartialOrd, Ord, Hash, Structural)]
pub struct FieldDefinitionId {
    raw: u32,
}

impl FieldDefinitionId {
    #[verifier::type_invariant]
    closed spec fn nonzero(self) -> bool {
        self.raw >= 1
    }

    /// The position that the handle names.
    pub closed spec fn position(self) -> nat {
        (self.raw - 1) as nat
    }

    /// The handle of a position.
    pub fn new(index: usize) -> (r: FieldDefinitionId)
        requires
            index < u32::MAX,
        ensures
            r.position() == index,
    {
        FieldDefinitionId { raw: (index + 1) as u32 }
    }

    /// The handle of a position, if the position is small enough to have one.
    pub fn try_new(index: usize) -> (r: Option<FieldDefinitionId>)
        ensures
            r is Some == (index < u32::MAX),
            r is Some ==> r->Some_0.position() == index,
    {
        if index < u32::MAX as usize {
            Some(FieldDefinitionId { raw: (index + 1) as u32 })
        } else {
            None
        }
    }

    /// The position that the handle names.
    pub fn index(self) -> (i: usize)
        ensures
            i == self.position(),
    {
        proof {
            use_type_invariant(self);
        }
        (self.raw - 1) as usize
    }

    /// Whether two handles name the same position.
    pub fn same(self, other: FieldDefinitionId) -> (r: bool)
        ensures
            r == (self.position() == other.position()),
            r == (self == other),
    {
        proof {
            use_type_invariant(self);
            use_type_invariant(other);
        }
        self.raw == other.raw
    }
}

/// The handle of the definition of an argument or input field. It is kept as one more than the position,
/// so that zero is free to stand for "none".
#[derive(Clone, Copy, Debug, PartialEq, Eq, PartialOrd, Ord, Hash, Structural)]
pub struct InputValueDefinitionId {
    raw: u32,
}

impl InputValueDefinitionId {
    #[verifier::type_invariant]
    closed spec fn nonzero(self) -> bool {
        self.raw >= 1
    }

    /// The position that the handle names.
    pub closed spec fn position(self) -> nat {
        (self.raw - 1) as nat
    }

    /// The handle of a position.
    pub fn new(index: usize) -> (r: InputValueDefinitionId)
        requires
            index < u32::MAX,
        ensures
            r.position() == index,
    {
        InputValueDefinitionId { raw: (index + 1) as u32 }
    }

    /// The handle of a position, if the position is small enough to have one.
    pub fn try_new(index: usize) -> (r: Option<InputValueDefinitionId>)
        ensures
            r is Some == (index < u32::MAX),
            r is Some ==> r->Some_0.position() == index,
    {
        if index < u32::MAX as usize {
            Some(InputValueDefinitionId { raw: (index + 1) as u32 })
        } else {
            None
        }
    }

    /// The position that the handle names.
    pub fn index(self) -> (i: usize)
        ensures
            i == self.position(),
    {
        proof {
            use_type_invariant(self);
        }
        (self.raw - 1) as usize
    }

    /// Whether two handles name the same position.
    pub fn same(self, other: InputValueDefinitionId) -> (r: bool)
        ensures
            r == (self.position() == other.position()),
            r == (self == other),
    {
        proof {
            use_type_invariant(self);
            use_type_invariant(other);
        }
        self.raw == other.raw
    }
}

/// The handle of an enum value. It is kept as one more than the position,
/// so that zero is free to stand for "none".
#[derive(Clone, Copy, Debug, PartialEq, Eq, PartialOrd, Ord, Hash, Structural)]
pub struct EnumValueId {
    raw: u32,
}

impl EnumValueId {
    #[verifier::type_invariant]
    closed spec fn nonzero(self) -> bool {
        self.raw >= 1
    }

    /// The position that the handle names.
    pub closed spec fn position(self) -> nat {
        (self.raw - 1) as nat
    }

    /// The handle of a position.
    pub fn new(index: usize) -> (r: EnumValueId)
        requires
            index < u32::MAX,
        ensures
            r.position() == index,
    {
        EnumValueId { raw: (index + 1) as u32 }
    }

    /// The handle of a position, if the position is small enough to have one.
    pub fn try_new(index: usize) -> (r: Option<EnumValueId>)
        ensures
            r is Some == (index < u32::MAX),
            r is Some ==> r->Some_0.position() == index,
    {
        if index < u32::MAX as usize {
            Some(EnumValueId { raw: (index + 1) as u32 })
        } else {
            None
        }
    }

    /// The position that the handle names.
    pub fn index(self) -> (i: usize)
        ensures
            i == self.position(),
    {
        proof {
            use_type_invariant(self);
        }
        (self.raw - 1) as usize
    }

    /// Whether two handles name the same position.
    pub fn same(self, other: EnumValueId) -> (r: bool)
        ensures
            r == (self.position() == other.position()),
            r == (self == other),
    {
        proof {
            use_type_invariant(self);
            use_type_invariant(other);
        }
        self.raw == other.raw
    }
}

/// The handle of a directive of a type. It is kept as one more than the position,
/// so that zero is free to stand for "none".
#[derive(Clone, Copy, Debug, PartialEq, Eq, PartialOrd, Ord, Hash, Structural)]
pub struct DirectiveId {
    raw: u32,
}

impl DirectiveId {
    #[verifier::type_invariant]
    closed spec fn nonzero(self) -> bool {
        self.raw >= 1
    }

    /// The position that the handle names.
    pub closed spec fn position(self) -> nat {
        (self.raw - 1) as nat
    }

    /// The handle of a position.
    pub fn new(index: usize) -> (r: DirectiveId)
        requires
            index < u32::MAX,
        ensures
            r.position() == index,
    {
        DirectiveId { raw: (index + 1) as u32 }
    }

    /// The handle of a position, if the position is small enough to have one.
    pub fn try_new(index: usize) -> (r: Option<DirectiveId>)
        ensures
            r is Some == (index < u32::MAX),
            r is Some ==> r->Some_0.position() == index,
    {
        if index < u32::MAX as usize {
            Some(DirectiveId { raw: (index + 1) as u32 })
        } else {
            None
        }
    }

    /// The position that the handle names.
    pub fn index(self) -> (i: usize)
        ensures
            i == self.position(),
    {
        proof {
            use_type_invariant(self);
        }
        (self.raw - 1) as usize
    }

    /// Whether two handles name the same position.
    pub fn same(self, other: DirectiveId) -> (r: bool)
        ensures
            r == (self.position() == other.position()),
            r == (self == other),
    {
        proof {
            use_type_invariant(self);
            use_type_invariant(other);
        }
        self.raw == other.raw
    }
}

/// The handle of a default value of the schema. It is kept as one more than the position,
/// so that zero is free to stand for "none".
#[derive(Clone, Copy, Debug, PartialEq, Eq, PartialOrd, Ord, Hash, Structural)]
pub struct SchemaInputValueId {
    raw: u32,
}

impl SchemaInputValueId {
    #[verifier::type_invariant]
    closed spec fn nonzero(self) -> bool {
        self.raw >= 1
    }

    /// The position that the handle names.
    pub closed spec fn position(self) -> nat {
        (self.raw - 1) as nat
    }

    /// The handle of a position.
    pub fn new(index: usize) -> (r: SchemaInputValueId)
        requires
            index < u32::MAX,
        ensures
            r.position() == index,
    {
        SchemaInputValueId { raw: (index + 1) as u32 }
    }

    /// The handle of a position, if the position is small enough to have one.
    pub fn try_new(index: usize) -> (r: Option<SchemaInputValueId>)
        ensures
            r is Some == (index < u32::MAX),
            r is Some ==> r->Some_0.position() == index,
    {
        if index < u32::MAX as usize {
            Some(SchemaInputValueId { raw: (index + 1) as u32 })
        } else {
            None
        }
    }

    /// The position that the handle names.
    pub fn index(self) -> (i: usize)
        ensures
            i == self.position(),
    {
        proof {
            use_type_invariant(self);
        }
        (self.raw - 1) as usize
    }

    /// Whether two handles name the same position.
    pub fn same(self, other: SchemaInputValueId) -> (r: bool)
        ensures
            r == (self.position() == other.position()),
            r == (self == other),
    {
        proof {
            use_type_invariant(self);
            use_type_invariant(other);
        }
        self.raw == other.raw
    }
}

/// The handle of a field of a default input object. It is kept as one more than the position,
/// so that zero is free to stand for "none".
#[derive(Clone, Copy, Debug, PartialEq, Eq, PartialOrd, Ord, Hash, Structural)]
pub struct SchemaInputObjectFieldValueId {
    raw: u32,
}

impl SchemaInputObjectFieldValueId {
    #[verifier::type_invariant]
    closed spec fn nonzero(self) -> bool {
        self.raw >= 1
    }

    /// The position that the handle names.
    pub closed spec fn position(self) -> nat {
        (self.raw - 1) as nat
    }

    /// The handle of a position.
    pub fn new(index: usize) -> (r: SchemaInputObjectFieldValueId)
        requires
            index < u32::MAX,
        ensures
            r.position() == index,
    {
        SchemaInputObjectFieldValueId { raw: (index + 1) as u32 }
    }

    /// The handle of a position, if the position is small enough to have one.
    pub fn try_new(index: usize) -> (r: Option<SchemaInputObjectFieldValueId>)
        ensures
            r is Some == (index < u32::MAX),
            r is Some ==> r->Some_0.position() == index,
    {
        if index < u32::MAX as usize {
            Some(SchemaInputObjectFieldValueId { raw: (index + 1) as u32 })
        } else {
            None
        }
    }

    /// The position that the handle names.
    pub fn index(self) -> (i: usize)
        ensures
            i == self.position(),
    {
        proof {
            use_type_invariant(self);
        }
        (self.raw - 1) as usize
    }

    /// Whether two handles name the same position.
    pub fn same(self, other: SchemaInputObjectFieldValueId) -> (r: bool)
        ensures
            r == (self.position() == other.position()),
            r == (self == other),
    {
        proof {
            use_type_invariant(self);
            use_type_invariant(other);
        }
        self.raw == other.raw
    }
}

/// The handle of an entry of a default map. It is kept as one more than the position,
/// so that zero is free to stand for "none".
#[derive(Clone, Copy, Debug, PartialEq, Eq, PartialOrd, Ord, Hash, Structural)]
pub struct SchemaInputKeyValueId {
    raw: u32,
}

impl SchemaInputKeyValueId {
    #[verifier::type_invariant]
    closed spec fn nonzero(self) -> bool {
        self.raw >= 1
    }

    /// The position that the handle names.
    pub closed spec fn position(self) -> nat {
        (self.raw - 1) as nat
    }

    /// The handle of a position.
    pub fn new(index: usize) -> (r: SchemaInputKeyValueId)
        requires
            index < u32::MAX,
        ensures
            r.position() == index,
    {
        SchemaInputKeyValueId { raw: (index + 1) as u32 }
    }

    /// The handle of a position, if the position is small enough to have one.
    pub fn try_new(index: usize) -> (r: Option<SchemaInputKeyValueId>)
        ensures
            r is Some == (index < u32::MAX),
            r is Some ==> r->Some_0.position() == index,
    {
        if index < u32::MAX as usize {
            Some(SchemaInputKeyValueId { raw: (index + 1) as u32 })
        } else {
            None
        }
    }

    /// The position that the handle names.
    pub fn index(self) -> (i: usize)
        ensures
            i == self.position(),
    {
        proof {
            use_type_invariant(self);
        }
        (self.raw - 1) as usize
    }

    /// Whether two handles name the same position.
    pub fn same(self, other: SchemaInputKeyValueId) -> (r: bool)
        ensures
            r == (self.position() == other.position()),
            r == (self == other),
    {
        proof {
            use_type_invariant(self);
            use_type_invariant(other);
        }
        self.raw == other.raw
    }
}

/// The handle of a required field set. It is kept as one more than the position,
/// so that zero is free to stand for "none".
#[derive(Clone, Copy, Debug, PartialEq, Eq, PartialOrd, Ord, Hash, Structural)]
pub struct RequiredFieldSetId {
    raw: u32,
}

impl RequiredFieldSetId {
    #[verifier::type_invariant]
    closed spec fn nonzero(self) -> bool {
        self.raw >= 1
    }

    /// The position that the handle names.
    pub closed spec fn position(self) -> nat {
        (self.raw - 1) as nat
    }

    /// The handle of a position.
    pub fn new(index: usize) -> (r: RequiredFieldSetId)
        requires
            index < u32::MAX,
        ensures
            r.position() == index,
    {
        RequiredFieldSetId { raw: (index + 1) as u32 }
    }

    /// The handle of a position, if the position is small enough to have one.
    pub fn try_new(index: usize) -> (r: Option<RequiredFieldSetId>)
        ensures
            r is Some == (index < u32::MAX),
            r is Some ==> r->Some_0.position() == index,
    {
        if index < u32::MAX as usize {
            Some(RequiredFieldSetId { raw: (index + 1) as u32 })
        } else {
            None
        }
    }

    /// The position that the handle names.
    pub fn index(self) -> (i: usize)
        ensures
            i == self.position(),
    {
        proof {
            use_type_invariant(self);
        }
        (self.raw - 1) as usize
    }

    /// Whether two handles name the same position.
    pub fn same(self, other: RequiredFieldSetId) -> (r: bool)
        ensures
            r == (self.position() == other.position()),
            r == (self == other),
    {
        proof {
            use_type_invariant(self);
            use_type_invariant(other);
        }
        self.raw == other.raw
    }
}

/// The handle of a required field. It is kept as one more than the position,
/// so that zero is free to stand for "none".
#[derive(Clone, Copy, Debug, PartialEq, Eq, PartialOrd, Ord, Hash, Structural)]
pub struct RequiredFieldId {
    raw: u32,
}

impl RequiredFieldId {
    #[verifier::type_invariant]
    closed spec fn nonzero(self) -> bool {
        self.raw >= 1
    }

    /// The position that the handle names.
    pub closed spec fn position(self) -> nat {
        (self.raw - 1) as nat
    }

    /// The handle of a position.
    pub fn new(index: usize) -> (r: RequiredFieldId)
        requires
            index < u32::MAX,
        ensures
            r.position() == index,
    {
        RequiredFieldId { raw: (index + 1) as u32 }
    }

    /// The handle of a position, if the position is small enough to have one.
    pub fn try_new(index: usize) -> (r: Option<RequiredFieldId>)
        ensures
            r is Some == (index < u32::MAX),
            r is Some ==> r->Some_0.position() == index,
    {
        if index < u32::MAX as usize {
            Some(RequiredFieldId { raw: (index + 1) as u32 })
        } else {
            None
        }
    }

    /// The position that the handle names.
    pub fn index(self) -> (i: usize)
        ensures
            i == self.position(),
    {
        proof {
            use_type_invariant(self);
        }
        (self.raw - 1) as usize
    }

    /// Whether two handles name the same position.
    pub fn same(self, other: RequiredFieldId) -> (r: bool)
        ensures
            r == (self.position() == other.position()),
            r == (self == other),
    {
        proof {
            use_type_invariant(self);
            use_type_invariant(other);
        }
        self.raw == other.raw
    }
}

/// The handle of an input value of an operation. It is kept as one more than the position,
/// so that zero is free to stand for "none".
#[derive(Clone, Copy, Debug, PartialEq, Eq, PartialOrd, Ord, Hash, Structural)]
pub struct QueryInputValueId {
    raw: u32,
}

impl QueryInputValueId {
    #[verifier::type_invariant]
    closed spec fn nonzero(self) -> bool {
        self.raw >= 1
    }

    /// The position that the handle names.
    pub closed spec fn position(self) -> nat {
        (self.raw - 1) as nat
    }

    /// The handle of a position.
    pub fn new(index: usize) -> (r: QueryInputValueId)
        requires
            index < u32::MAX,
        ensures
            r.position() == index,
    {
        QueryInputValueId { raw: (index + 1) as u32 }
    }

    /// The handle of a position, if the position is small enough to have one.
    pub fn try_new(index: usize) -> (r: Option<QueryInputValueId>)
        ensures
            r is Some == (index < u32::MAX),
            r is Some ==> r->Some_0.position() == index,
    {
        if index < u32::MAX as usize {
            Some(QueryInputValueId { raw: (index + 1) as u32 })
        } else {
            None
        }
    }

    /// The position that the handle names.
    pub fn index(self) -> (i: usize)
        ensures
            i == self.position(),
    {
        proof {
            use_type_invariant(self);
        }
        (self.raw - 1) as usize
    }

    /// Whether two handles name the same position.
    pub fn same(self, other: QueryInputValueId) -> (r: bool)
        ensures
            r == (self.position() == other.position()),
            r == (self == other),
    {
        proof {
            use_type_invariant(self);
            use_type_invariant(other);
        }
        self.raw == other.raw
    }
}

/// The handle of a field of an input object of an operation. It is kept as one more than the position,
/// so that zero is free to stand for "none".
#[derive(Clone, Copy, Debug, PartialEq, Eq, PartialOrd, Ord, Hash, Structural)]
pub struct QueryInputObjectFieldValueId {
    raw: u32,
}

impl QueryInputObjectFieldValueId {
    #[verifier::type_invariant]
    closed spec fn nonzero(self) -> bool {
        self.raw >= 1
    }

    /// The position that the handle names.
    pub closed spec fn position(self) -> nat {
        (self.raw - 1) as nat
    }

    /// The handle of a position.
    pub fn new(index: usize) -> (r: QueryInputObjectFieldValueId)
        requires
            index < u32::MAX,
        ensures
            r.position() == index,
    {
        QueryInputObjectFieldValueId { raw: (index + 1) as u32 }
    }

    /// The handle of a position, if the position is small enough to have one.
    pub fn try_new(index: usize) -> (r: Option<QueryInputObjectFieldValueId>)
        ensures
            r is Some == (index < u32::MAX),
            r is Some ==> r->Some_0.position() == index,
    {
        if index < u32::MAX as usize {
            Some(QueryInputObjectFieldValueId { raw: (index + 1) as u32 })
        } else {
            None
        }
    }

    /// The position that the handle names.
    pub fn index(self) -> (i: usize)
        ensures
            i == self.position(),
    {
        proof {
            use_type_invariant(self);
        }
        (self.raw - 1) as usize
    }

    /// Whether two handles name the same position.
    pub fn same(self, other: QueryInputObjectFieldValueId) -> (r: bool)
        ensures
            r == (self.position() == other.position()),
            r == (self == other),
    {
        proof {
            use_type_invariant(self);
            use_type_invariant(other);
        }
        self.raw == other.raw
    }
}

/// The handle of an entry of a map of an operation. It is kept as one more than the position,
/// so that zero is free to stand for "none".
#[derive(Clone, Copy, Debug, PartialEq, Eq, PartialOrd, Ord, Hash, Structural)]
pub struct QueryInputKeyValueId {
    raw: u32,
}

impl QueryInputKeyValueId {
    #[verifier::type_invariant]
    closed spec fn nonzero(self) -> bool {
        self.raw >= 1
    }

    /// The position that the handle names.
    pub closed spec fn position(self) -> nat {
        (self.raw - 1) as nat
    }

    /// The handle of a position.
    pub fn new(index: usize) -> (r: QueryInputKeyValueId)
        requires
            index < u32::MAX,
        ensures
            r.position() == index,
    {
        QueryInputKeyValueId { raw: (index + 1) as u32 }
    }

    /// The handle of a position, if the position is small enough to have one.
    pub fn try_new(index: usize) -> (r: Option<QueryInputKeyValueId>)
        ensures
            r is Some == (index < u32::MAX),
            r is Some ==> r->Some_0.position() == index,
    {
        if index < u32::MAX as usize {
            Some(QueryInputKeyValueId { raw: (index + 1) as u32 })
        } else {
            None
        }
    }

    /// The position that the handle names.
    pub fn index(self) -> (i: usize)
        ensures
            i == self.position(),
    {
        proof {
            use_type_invariant(self);
        }
        (self.raw - 1) as usize
    }

    /// Whether two handles name the same position.
    pub fn same(self, other: QueryInputKeyValueId) -> (r: bool)
        ensures
            r == (self.position() == other.position()),
            r == (self == other),
    {
        proof {
            use_type_invariant(self);
            use_type_invariant(other);
        }
        self.raw == other.raw
    }
}

/// The handle of a variable of an operation. It is kept as one more than the position,
/// so that zero is free to stand for "none".
#[derive(Clone, Copy, Debug, PartialEq, Eq, PartialOrd, Ord, Hash, Structural)]
pub struct VariableDefinitionId {
    raw: u32,
}

impl VariableDefinitionId {
    #[verifier::type_invariant]
    closed spec fn nonzero(self) -> bool {
        self.raw >= 1
    }

    /// The position that the handle names.
    pub closed spec fn position(self) -> nat {
        (self.raw - 1) as nat
    }

    /// The handle of a position.
    pub fn new(index: usize) -> (r: VariableDefinitionId)
        requires
            index < u32::MAX,
        ensures
            r.position() == index,
    {
        VariableDefinitionId { raw: (index + 1) as u32 }
    }

    /// The handle of a position, if the position is small enough to have one.
    pub fn try_new(index: usize) -> (r: Option<VariableDefinitionId>)
        ensures
            r is Some == (index < u32::MAX),
            r is Some ==> r->Some_0.position() == index,
    {
        if index < u32::MAX as usize {
            Some(VariableDefinitionId { raw: (index + 1) as u32 })
        } else {
            None
        }
    }

    /// The position that the handle names.
    pub fn index(self) -> (i: usize)
        ensures
            i == self.position(),
    {
        proof {
            use_type_invariant(self);
        }
        (self.raw - 1) as usize
    }

    /// Whether two handles name the same position.
    pub fn same(self, other: VariableDefinitionId) -> (r: bool)
        ensures
            r == (self.position() == other.position()),
            r == (self == other),
    {
        proof {
            use_type_invariant(self);
            use_type_invariant(other);
        }
        self.raw == other.raw
    }
}

/// The handle of an argument of a field of an operation. It is kept as one more than the position,
/// so that zero is free to stand for "none".
#[derive(Clone, Copy, Debug, PartialEq, Eq, PartialOrd, Ord, Hash, Structural)]
pub struct FieldArgumentId {
    raw: u32,
}

impl FieldArgumentId {
    #[verifier::type_invariant]
    closed spec fn nonzero(self) -> bool {
        self.raw >= 1
    }

    /// The position that the handle names.
    pub closed spec fn position(self) -> nat {
        (self.raw - 1) as nat
    }

    /// The handle of a position.
    pub fn new(index: usize) -> (r: FieldArgumentId)
        requires
            index < u32::MAX,
        ensures
            r.position() == index,
    {
        FieldArgumentId { raw: (index + 1) as u32 }
    }

    /// The handle of a position, if the position is small enough to have one.
    pub fn try_new(index: usize) -> (r: Option<FieldArgumentId>)
        ensures
            r is Some == (index < u32::MAX),
            r is Some ==> r->Some_0.position() == index,
    {
        if index < u32::MAX as usize {
            Some(FieldArgumentId { raw: (index + 1) as u32 })
        } else {
            None
        }
    }

    /// The position that the handle names.
    pub fn index(self) -> (i: usize)
        ensures
            i == self.position(),
    {
        proof {
            use_type_invariant(self);
        }
        (self.raw - 1) as usize
    }

    /// Whether two handles name the same position.
    pub fn same(self, other: FieldArgumentId) -> (r: bool)
        ensures
            r == (self.position() == other.position()),
            r == (self == other),
    {
        proof {
            use_type_invariant(self);
            use_type_invariant(other);
        }
        self.raw == other.raw
    }
}

/// The handle of a selection set of an operation. It is kept as one more than the position,
/// so that zero is free to stand for "none".
#[derive(Clone, Copy, Debug, PartialEq, Eq, PartialOrd, Ord, Hash, Structural)]
pub struct SelectionSetId {
    raw: u32,
}

impl SelectionSetId {
    #[verifier::type_invariant]
    closed spec fn nonzero(self) -> bool {
        self.raw >= 1
    }

    /// The position that the handle names.
    pub closed spec fn position(self) -> nat {
        (self.raw - 1) as nat
    }

    /// The handle of a position.
    pub fn new(index: usize) -> (r: SelectionSetId)
        requires
            index < u32::MAX,
        ensures
            r.position() == index,
    {
        SelectionSetId { raw: (index + 1) as u32 }
    }

    /// The handle of a position, if the position is small enough to have one.
    pub fn try_new(index: usize) -> (r: Option<SelectionSetId>)
        ensures
            r is Some == (index < u32::MAX),
            r is Some ==> r->Some_0.position() == index,
    {
        if index < u32::MAX as usize {
            Some(SelectionSetId { raw: (index + 1) as u32 })
        } else {
            None
        }
    }

    /// The position that the handle names.
    pub fn index(self) -> (i: usize)
        ensures
            i == self.position(),
    {
        proof {
            use_type_invariant(self);
        }
        (self.raw - 1) as usize
    }

    /// Whether two handles name the same position.
    pub fn same(self, other: SelectionSetId) -> (r: bool)
        ensures
            r == (self.position() == other.position()),
            r == (self == other),
    {
        proof {
            use_type_invariant(self);
            use_type_invariant(other);
        }
        self.raw == other.raw
    }
}

/// The handle of a field of an operation. It is kept as one more than the position,
/// so that zero is free to stand for "none".
#[derive(Clone, Copy, Debug, PartialEq, Eq, PartialOrd, Ord, Hash, Structural)]
pub struct FieldId {
    raw: u32,
}

impl FieldId {
    #[verifier::type_invariant]
    closed spec fn nonzero(self) -> bool {
        self.raw >= 1
    }

    /// The position that the handle names.
    pub closed spec fn position(self) -> nat {
        (self.raw - 1) as nat
    }

    /// The handle of a position.
    pub fn new(index: usize) -> (r: FieldId)
        requires
            index < u32::MAX,
        ensures
            r.position() == index,
    {
        FieldId { raw: (index + 1) as u32 }
    }

    /// The handle of a position, if the position is small enough to have one.
    pub fn try_new(index: usize) -> (r: Option<FieldId>)
        ensures
            r is Some == (index < u32::MAX),
            r is Some ==> r->Some_0.position() == index,
    {
        if index < u32::MAX as usize {
            Some(FieldId { raw: (index + 1) as u32 })
        } else {
            None
        }
    }

    /// The position that the handle names.
    pub fn index(self) -> (i: usize)
        ensures
            i == self.position(),
    {
        proof {
            use_type_invariant(self);
        }
        (self.raw - 1) as usize
    }

    /// Whether two handles name the same position.
    pub fn same(self, other: FieldId) -> (r: bool)
        ensures
            r == (self.position() == other.position()),
            r == (self == other),
    {
        proof {
            use_type_invariant(self);
            use_type_invariant(other);
        }
        self.raw == other.raw
    }
}

} // verus!
