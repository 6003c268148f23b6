//! The fields of a subscription: which fields of a selection set get a
//! stream of their own, once fragments are followed.

use crate::text::{concat3, same_text};
use vstd::prelude::*;

verus! {

/// One selection of a selection set of a request.
#[derive(Debug)]
pub enum SelectionItem {
    /// A field, under the key that it has in the response.
    Field { response_key: String },
    /// The selections of a named fragment.
    FragmentSpread { fragment_name: String },
    /// Selections that hold for a type, or for any type.
    InlineFragment { type_condition: Option<String>, selection_set: Vec<SelectionItem> },
}

/// A named fragment of a request.
#[derive(Debug)]
pub struct Fragment {
    pub name: String,
    pub selection_set: Vec<SelectionItem>,
}

/// The position of the first fragment at or after `from` that has a name;
/// the number of fragments if none has.
pub open spec fn fragment_from(fragments: Seq<Fragment>, name: Seq<char>, from: int) -> int
    decreases fragments.len() - from,
{
    if from < 0 || from >= fragments.len() {
        fragments.len() as int
    } else if fragments[from].name@ == name {
        from
    } else {
        fragment_from(fragments, name, from + 1)
    }
}

/// The fields of the first `n` selections that get a stream, in their
/// order: each field itself; the fields of a fragment that the request
/// defines; and the fields of an inline fragment that has no type condition
/// or the condition of the subscription's own type. Fragments are followed
/// `fuel` deep.
pub open spec fn stream_fields(items: Vec<SelectionItem>, n: nat, fragments: Seq<Fragment>, ty: Seq<char>, fuel: nat) -> Seq<Seq<char>>
    decreases fuel, items, n,
{
    if n == 0 || n > items.len() {
        Seq::empty()
    } else {
        stream_fields(items, (n - 1) as nat, fragments, ty, fuel) + (match items[n - 1] {
            SelectionItem::Field { response_key } => seq![response_key@],
            SelectionItem::FragmentSpread { fragment_name } => {
                let f = fragment_from(fragments, fragment_name@, 0);
                if 0 <= f < fragments.len() && fuel > 0 {
                    stream_fields(
                        fragments[f].selection_set,
                        fragments[f].selection_set.len() as nat,
                        fragments,
                        ty,
                        (fuel - 1) as nat,
                    )
                } else {
                    Seq::empty()
                }
            },
            SelectionItem::InlineFragment { type_condition, selection_set } => if type_condition is None || type_condition->Some_0@ == ty {
                stream_fields(selection_set, selection_set.len() as nat, fragments, ty, fuel)
            } else {
                Seq::empty()
            },
        })
    }
}

fn find_fragment(fragments: &Vec<Fragment>, name: &str) -> (r: usize)
    ensures
        r == fragment_from(fragments@, name@, 0),
        r <= fragments.len(),
{
    let mut i: usize = 0;
    while i < fragments.len()
        invariant
            i <= fragments.len(),
            fragment_from(fragments@, name@, 0) == fragment_from(fragments@, name@, i as int),
        decreases fragments.len() - i,
    {
        if same_text(fragments[i].name.as_str(), name) {
            return i;
        }
        i = i + 1;
    }
    i
}

/// The models of some response keys.
pub open spec fn keys_of(keys: Seq<String>) -> Seq<Seq<char>> {
    Seq::new(keys.len(), |i: int| keys[i]@)
}

/// Collects the fields of a selection set that get a stream.
#[verifier::loop_isolation(false)]
pub fn collect_subscription_streams(items: &Vec<SelectionItem>, fragments: &Vec<Fragment>, ty: &str, fuel: usize, streams: &mut Vec<String>)
    ensures
        keys_of(final(streams)@) == keys_of(old(streams)@) + stream_fields(*items, items.len() as nat, fragments@, ty@, fuel as nat),
    decreases fuel, items, 0nat,
{
    let ghost start = keys_of(streams@);
    let mut i: usize = 0;
    assert(start + Seq::<Seq<char>>::empty() =~= start);
    while i < items.len()
        invariant
            i <= items.len(),
            keys_of(streams@) == start + stream_fields(*items, i as nat, fragments@, ty@, fuel as nat),
        decreases items.len() - i,
    {
        let ghost before = keys_of(streams@);
        let ghost so_far = stream_fields(*items, i as nat, fragments@, ty@, fuel as nat);
        assert(decreases_to!(items => items[i as int]));
        match &items[i] {
            SelectionItem::Field { response_key } => {
                streams.push(response_key.clone());
                assert(keys_of(streams@) =~= before + seq![response_key@]);
                assert(start + (so_far + seq![response_key@]) =~= (start + so_far) + seq![response_key@]);
            },
            SelectionItem::FragmentSpread { fragment_name } => {
                let f = find_fragment(fragments, fragment_name.as_str());
                if f < fragments.len() && fuel > 0 {
                    collect_subscription_streams(&fragments[f].selection_set, fragments, ty, fuel - 1, streams);
                    let ghost added = stream_fields(
                        fragments[f as int].selection_set,
                        fragments[f as int].selection_set.len() as nat,
                        fragments@,
                        ty@,
                        (fuel - 1) as nat,
                    );
                    assert(start + (so_far + added) =~= (start + so_far) + added);
                } else {
                    assert(start + (so_far + Seq::<Seq<char>>::empty()) =~= start + so_far);
                }
            },
            SelectionItem::InlineFragment { type_condition, selection_set } => {
                let holds = match type_condition {
                    Some(name) => same_text(name.as_str(), ty),
                    None => true,
                };
                if holds {
                    assert(decreases_to!(items[i as int] => items[i as int]->selection_set));
                    collect_subscription_streams(selection_set, fragments, ty, fuel, streams);
                    let ghost added = stream_fields(*selection_set, selection_set.len() as nat, fragments@, ty@, fuel as nat);
                    assert(start + (so_far + added) =~= (start + so_far) + added);
                } else {
                    assert(start + (so_far + Seq::<Seq<char>>::empty()) =~= start + so_far);
                }
            },
        }
        i = i + 1;
    }
}

/// The message for a field that the subscription type does not have.
pub fn cannot_query_field(field_name: &str, ty: &str) -> (r: String)
    ensures
        r@ == "Cannot query field \""@ + field_name@ + "\" on type \""@ + ty@ + "\"."@,
{
    let mut r = concat3("Cannot query field \"", field_name, "\" on type \"");
    r.append(ty);
    r.append("\".");
    r
}

/// The qualified name of a subscription type: the type, which has to be there.
pub fn qualified_type_name(ty: &str) -> (r: String)
    ensures
        r@ == ty@ + "!"@,
{
    crate::text::concat2(ty, "!")
}

} // verus!
