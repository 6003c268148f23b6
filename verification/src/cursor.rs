//! Pagination cursors: a direction, a page size and the key to continue after.

use vstd::prelude::*;

verus! {

/// Where a page starts and how far it goes. The first elements of a collection
/// are the most recent ones, the last the oldest.
#[derive(Debug)]
pub enum PaginatedCursor {
    Forward {
        exclusive_last_key: Option<String>,
        first: usize,
        /// The relation's name and the parent's partition key.
        nested: Option<(String, String)>,
    },
    Backward {
        exclusive_first_key: Option<String>,
        last: usize,
        /// The relation's name and the parent's partition key.
        nested: Option<(String, String)>,
    },
}

/// The mathematical model of a cursor.
pub enum CursorModel {
    Forward { exclusive_last_key: Option<Seq<char>>, first: usize, nested: Option<(Seq<char>, Seq<char>)> },
    Backward { exclusive_first_key: Option<Seq<char>>, last: usize, nested: Option<(Seq<char>, Seq<char>)> },
}

/// Why pagination arguments make no cursor.
#[derive(Debug, Clone, Copy, PartialEq, Eq, Structural)]
pub enum CursorCreation {
    SameParameterSameTime,
    FirstNonNegative,
    LastNonNegative,
    FirstAndBeforeSameTime,
    LastAndAfterSameTime,
    Direction,
}

impl CursorCreation {
    pub open spec fn message_text(&self) -> Seq<char> {
        match self {
            CursorCreation::SameParameterSameTime => "The \"first\" and \"last\" parameters cannot exist at the same time."@,
            CursorCreation::FirstNonNegative => "The \"first\" parameter must be a non-negative number"@,
            CursorCreation::LastNonNegative => "The \"last\" parameter must be a non-negative number"@,
            CursorCreation::FirstAndBeforeSameTime => "The \"first\" and \"before\" parameter cannot exist at the same time."@,
            CursorCreation::LastAndAfterSameTime => "The \"last\" and \"after\" parameter cannot exist at the same time."@,
            CursorCreation::Direction => "You must choose a Pagination direction by having the \"first\" or \"last\" parameter."@,
        }
    }

    /// The message shown to the user.
    pub fn message(&self) -> (r: &'static str)
        ensures
            r@ == self.message_text(),
    {
        match self {
            CursorCreation::SameParameterSameTime => "The \"first\" and \"last\" parameters cannot exist at the same time.",
            CursorCreation::FirstNonNegative => "The \"first\" parameter must be a non-negative number",
            CursorCreation::LastNonNegative => "The \"last\" parameter must be a non-negative number",
            CursorCreation::FirstAndBeforeSameTime => "The \"first\" and \"before\" parameter cannot exist at the same time.",
            CursorCreation::LastAndAfterSameTime => "The \"last\" and \"after\" parameter cannot exist at the same time.",
            CursorCreation::Direction => "You must choose a Pagination direction by having the \"first\" or \"last\" parameter.",
        }
    }

    /// The message as an owned string.
    pub fn to_string(&self) -> (r: String)
        ensures
            r@ == self.message_text(),
    {
        self.message().to_owned()
    }
}

/// The cursor that pagination arguments stand for, or the reason why they stand for none.
pub open spec fn cursor_of(
    first: Option<usize>,
    last: Option<usize>,
    after: Option<Seq<char>>,
    before: Option<Seq<char>>,
    nested: Option<(Seq<char>, Seq<char>)>,
) -> Result<CursorModel, CursorCreation> {
    if first is Some && last is Some {
        Err(CursorCreation::SameParameterSameTime)
    } else if first is Some && before is Some {
        Err(CursorCreation::FirstAndBeforeSameTime)
    } else if last is Some && after is Some {
        Err(CursorCreation::LastAndAfterSameTime)
    } else if first is Some {
        Ok(CursorModel::Forward { exclusive_last_key: after, first: first->Some_0, nested })
    } else if last is Some {
        Ok(CursorModel::Backward { exclusive_first_key: before, last: last->Some_0, nested })
    } else {
        Err(CursorCreation::Direction)
    }
}

impl DeepView for PaginatedCursor {
    type V = CursorModel;

    open spec fn deep_view(&self) -> CursorModel {
        match self {
            PaginatedCursor::Forward { exclusive_last_key, first, nested } => CursorModel::Forward {
                exclusive_last_key: exclusive_last_key.deep_view(),
                first: *first,
                nested: nested.deep_view(),
            },
            PaginatedCursor::Backward { exclusive_first_key, last, nested } => CursorModel::Backward {
                exclusive_first_key: exclusive_first_key.deep_view(),
                last: *last,
                nested: nested.deep_view(),
            },
        }
    }
}

impl View for PaginatedCursor {
    type V = CursorModel;

    open spec fn view(&self) -> CursorModel {
        self.deep_view()
    }
}

impl CursorModel {
    pub open spec fn nested(&self) -> Option<(Seq<char>, Seq<char>)> {
        match self {
            CursorModel::Forward { nested, .. } => *nested,
            CursorModel::Backward { nested, .. } => *nested,
        }
    }

    /// The key after which, or before which, the page starts.
    pub open spec fn pagination_string(&self) -> Option<Seq<char>> {
        match self {
            CursorModel::Forward { exclusive_last_key, .. } => *exclusive_last_key,
            CursorModel::Backward { exclusive_first_key, .. } => *exclusive_first_key,
        }
    }

    pub open spec fn relation_name(&self) -> Option<Seq<char>> {
        match self.nested() {
            Some(n) => Some(n.0),
            None => None,
        }
    }

    pub open spec fn nested_parent_pk(&self) -> Option<Seq<char>> {
        match self.nested() {
            Some(n) => Some(n.1),
            None => None,
        }
    }

    /// The number of entities on a page.
    pub open spec fn limit(&self) -> usize {
        match self {
            CursorModel::Forward { first, .. } => *first,
            CursorModel::Backward { last, .. } => *last,
        }
    }

    /// A forward cursor reads the store from its end, a backward one from its start.
    pub open spec fn scan_index_forward(&self) -> bool {
        self is Backward
    }
}

fn clone_text(s: &Option<String>) -> (r: Option<String>)
    ensures
        r.deep_view() == s.deep_view(),
{
    match s {
        Some(t) => Some(t.clone()),
        None => None,
    }
}

impl PaginatedCursor {
    /// The cursor for the arguments of a connection field. `first` and `last`
    /// exclude each other, `first` excludes `before` and `last` excludes
    /// `after`; one of `first` and `last` has to be there.
    pub fn from_graphql(
        first: Option<usize>,
        last: Option<usize>,
        after: Option<String>,
        before: Option<String>,
        nested: Option<(String, String)>,
    ) -> (r: Result<PaginatedCursor, CursorCreation>)
        ensures
            match r {
                Ok(c) => cursor_of(first, last, after.deep_view(), before.deep_view(), nested.deep_view()) == Ok::<CursorModel, CursorCreation>(c@),
                Err(e) => cursor_of(first, last, after.deep_view(), before.deep_view(), nested.deep_view()) == Err::<CursorModel, CursorCreation>(e),
            },
    {
        match (first, after, last, before) {
            (Some(_), _, Some(_), _) => Err(CursorCreation::SameParameterSameTime),
            (Some(_), _, _, Some(_)) => Err(CursorCreation::FirstAndBeforeSameTime),
            (_, Some(_), Some(_), _) => Err(CursorCreation::LastAndAfterSameTime),
            (Some(first), after, None, None) => Ok(PaginatedCursor::Forward { exclusive_last_key: after, first, nested }),
            (None, None, Some(last), before) => Ok(PaginatedCursor::Backward { exclusive_first_key: before, last, nested }),
            (None, _, None, _) => Err(CursorCreation::Direction),
        }
    }

    pub fn scan_index_forward(&self) -> (r: bool)
        ensures
            r == self@.scan_index_forward(),
    {
        match self {
            PaginatedCursor::Forward { .. } => false,
            PaginatedCursor::Backward { .. } => true,
        }
    }

    pub fn pagination_string(&self) -> (r: Option<String>)
        ensures
            r.deep_view() == self@.pagination_string(),
    {
        match self {
            PaginatedCursor::Forward { exclusive_last_key, .. } => clone_text(exclusive_last_key),
            PaginatedCursor::Backward { exclusive_first_key, .. } => clone_text(exclusive_first_key),
        }
    }

    pub fn relation_name(&self) -> (r: Option<String>)
        ensures
            r.deep_view() == self@.relation_name(),
    {
        match self {
            PaginatedCursor::Forward { nested: Some(n), .. } => Some(n.0.clone()),
            PaginatedCursor::Backward { nested: Some(n), .. } => Some(n.0.clone()),
            _ => None,
        }
    }

    pub fn nested_parent_pk(&self) -> (r: Option<String>)
        ensures
            r.deep_view() == self@.nested_parent_pk(),
    {
        match self {
            PaginatedCursor::Forward { nested: Some(n), .. } => Some(n.1.clone()),
            PaginatedCursor::Backward { nested: Some(n), .. } => Some(n.1.clone()),
            _ => None,
        }
    }

    pub fn is_nested_relation(&self) -> (r: bool)
        ensures
            r == (self@.nested() is Some),
    {
        match self {
            PaginatedCursor::Forward { nested, .. } => nested.is_some(),
            PaginatedCursor::Backward { nested, .. } => nested.is_some(),
        }
    }

    pub fn limit(&self) -> (r: usize)
        ensures
            r == self@.limit(),
    {
        match self {
            PaginatedCursor::Forward { first, .. } => *first,
            PaginatedCursor::Backward { last, .. } => *last,
        }
    }

    /// An equal cursor of its own.
    pub fn duplicate(&self) -> (r: PaginatedCursor)
        ensures
            r@ == self@,
    {
        match self {
            PaginatedCursor::Forward { exclusive_last_key, first, nested } => PaginatedCursor::Forward {
                exclusive_last_key: clone_text(exclusive_last_key),
                first: *first,
                nested: match nested {
                    Some(n) => Some((n.0.clone(), n.1.clone())),
                    None => None,
                },
            },
            PaginatedCursor::Backward { exclusive_first_key, last, nested } => PaginatedCursor::Backward {
                exclusive_first_key: clone_text(exclusive_first_key),
                last: *last,
                nested: match nested {
                    Some(n) => Some((n.0.clone(), n.1.clone())),
                    None => None,
                },
            },
        }
    }
}

/// No choice of arguments that sets both `first` and `last`, `first` and
/// `before`, or `last` and `after` makes a cursor, and each of the three gets
/// its own error.
pub proof fn lemma_exclusive_arguments(
    first: Option<usize>,
    last: Option<usize>,
    after: Option<Seq<char>>,
    before: Option<Seq<char>>,
    nested: Option<(Seq<char>, Seq<char>)>,
)
    ensures
        first is Some && last is Some ==> cursor_of(first, last, after, before, nested) == Err::<CursorModel, CursorCreation>(
            CursorCreation::SameParameterSameTime,
        ),
        first is Some && last is None && before is Some ==> cursor_of(first, last, after, before, nested) == Err::<
            CursorModel,
            CursorCreation,
        >(CursorCreation::FirstAndBeforeSameTime),
        first is None && last is Some && after is Some ==> cursor_of(first, last, after, before, nested) == Err::<
            CursorModel,
            CursorCreation,
        >(CursorCreation::LastAndAfterSameTime),
        cursor_of(first, last, after, before, nested) is Ok ==> (first is Some) != (last is Some),
        cursor_of(first, last, after, before, nested) is Ok && first is Some ==> before is None,
        cursor_of(first, last, after, before, nested) is Ok && last is Some ==> after is None,
{
}

} // verus!
