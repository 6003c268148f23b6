//! Identifiers of new nodes, derived from the identifier of the execution,
//! and the clock that stamps them.

use crate::text::concat3;
use chrono::Utc;
use ulid::Ulid;
use vstd::prelude::*;

verus! {

/// The largest random part of a ULID: its low eighty bits all set.
pub const MAX_RANDOM: u128 = 0xFFFF_FFFF_FFFF_FFFF_FFFFu128;

/// The digits of Crockford's base 32, in their order.
pub const CROCKFORD: &'static str = "0123456789ABCDEFGHJKMNPQRSTVWXYZ";

/// The `i`-th of the twenty-six digits of a ULID, counted from the left:
/// five bits of the value, the highest first.
pub open spec fn ulid_digit(value: u128, i: int) -> u128 {
    (value >> ((5 * (25 - i)) as u128)) & 0x1f
}

/// What `ulid::Ulid::to_string` returns for a ULID of this value: its
/// twenty-six digits in Crockford's base 32.
pub open spec fn ulid_text(value: u128) -> Seq<char> {
    Seq::new(26, |i: int| CROCKFORD@[ulid_digit(value, i) as int])
}

/// The ULID after this one with the same time, if the random part has room.
pub open spec fn next_ulid(value: u128) -> Option<u128> {
    if value & MAX_RANDOM == MAX_RANDOM {
        None
    } else {
        Some((value + 1) as u128)
    }
}

/// The ULID `n` steps after `base`, if the random part has room for all of them.
pub open spec fn ulid_after(base: u128, n: nat) -> Option<u128>
    decreases n,
{
    if n == 0 {
        Some(base)
    } else {
        match ulid_after(base, (n - 1) as nat) {
            Some(v) => next_ulid(v),
            None => None,
        }
    }
}

/// The identifier of a node: its type and its ULID.
pub open spec fn node_id(ty: Seq<char>, ulid: u128) -> Seq<char> {
    ty + "#"@ + ulid_text(ulid)
}

/// `ulid::Ulid::to_string` on the ULID of a value: each five bits of the
/// value, the highest first, as one digit of Crockford's base 32.
#[verifier::external_body]
fn ulid_to_string(value: u128) -> (r: String)
    ensures
        r@ == ulid_text(value),
{
    Ulid(value).to_string()
}

/// `ulid::Ulid::increment` on the ULID of a value: one more, unless the
/// random part is at its largest.
#[verifier::external_body]
pub(crate) fn ulid_increment(value: u128) -> (r: Option<u128>)
    ensures
        r == next_ulid(value),
{
    Ulid(value).increment().map(|next| next.0)
}

/// `chrono::Utc::now`, written out with `to_string`. Nothing is known of the
/// text: it is the time of the call.
#[verifier::external_body]
pub(crate) fn utc_now_text() -> (r: String)
{
    Utc::now().to_string()
}

/// The ULID `n` steps after `base`.
pub fn nth_ulid(base: u128, n: usize) -> (r: Option<u128>)
    ensures
        r == ulid_after(base, n as nat),
{
    let mut current = base;
    let mut i: usize = 0;
    while i < n
        invariant
            i <= n,
            ulid_after(base, i as nat) == Some(current),
        decreases n - i,
    {
        match ulid_increment(current) {
            Some(next) => {
                current = next;
            },
            None => {
                proof {
                    lemma_ulid_after_none(base, (i + 1) as nat, n as nat);
                }
                return None;
            },
        }
        i = i + 1;
    }
    Some(current)
}

/// Once the random part has no room, it has none for any further step.
pub proof fn lemma_ulid_after_none(base: u128, k: nat, n: nat)
    requires
        k <= n,
        ulid_after(base, k) is None,
    ensures
        ulid_after(base, n) is None,
    decreases n,
{
    if k < n {
        lemma_ulid_after_none(base, k, (n - 1) as nat);
    }
}

/// Later steps give larger ULIDs, so no two steps give the same one.
pub proof fn lemma_ulid_after_grows(base: u128, a: nat, b: nat)
    requires
        a < b,
        ulid_after(base, b) is Some,
    ensures
        ulid_after(base, a) is Some,
        ulid_after(base, a)->Some_0 < ulid_after(base, b)->Some_0,
    decreases b,
{
    if ulid_after(base, (b - 1) as nat) is None {
        assert(ulid_after(base, b) is None);
    }
    let previous = ulid_after(base, (b - 1) as nat)->Some_0;
    assert(next_ulid(previous) == Some((previous + 1) as u128));
    assert(previous & MAX_RANDOM != MAX_RANDOM);
    assert(previous < u128::MAX) by {
        if previous == u128::MAX {
            assert(previous & MAX_RANDOM == MAX_RANDOM) by (bit_vector)
                requires
                    previous == 0xFFFF_FFFF_FFFF_FFFF_FFFF_FFFF_FFFF_FFFFu128,
            ;
        }
    }
    if a < b - 1 {
        lemma_ulid_after_grows(base, a, (b - 1) as nat);
    }
}

/// Different ULIDs are written differently.
pub proof fn lemma_ulid_texts_differ(a: u128, b: u128)
    requires
        a != b,
    ensures
        ulid_text(a) != ulid_text(b),
{
    if ulid_text(a) == ulid_text(b) {
        reveal_strlit("0123456789ABCDEFGHJKMNPQRSTVWXYZ");
        assert forall|i: int| 0 <= i < 26 implies ulid_digit(a, i) == ulid_digit(b, i) by {
            let x = ulid_digit(a, i);
            let y = ulid_digit(b, i);
            let shift = (5 * (25 - i)) as u128;
            assert(x < 32 && y < 32) by (bit_vector)
                requires
                    x == (a >> shift) & 0x1f,
                    y == (b >> shift) & 0x1f,
            ;
            assert(ulid_text(a)[i] == CROCKFORD@[x as int]);
            assert(ulid_text(b)[i] == CROCKFORD@[y as int]);
            assert(CROCKFORD@[x as int] == CROCKFORD@[y as int]);
            lemma_digits_differ(x as int, y as int);
        }
        assert(ulid_digit(a, 0) == ulid_digit(b, 0) && ulid_digit(a, 1) == ulid_digit(b, 1) && ulid_digit(a, 2) == ulid_digit(b, 2));
        assert(ulid_digit(a, 3) == ulid_digit(b, 3) && ulid_digit(a, 4) == ulid_digit(b, 4) && ulid_digit(a, 5) == ulid_digit(b, 5));
        assert(ulid_digit(a, 6) == ulid_digit(b, 6) && ulid_digit(a, 7) == ulid_digit(b, 7) && ulid_digit(a, 8) == ulid_digit(b, 8));
        assert(ulid_digit(a, 9) == ulid_digit(b, 9) && ulid_digit(a, 10) == ulid_digit(b, 10) && ulid_digit(a, 11) == ulid_digit(b, 11));
        assert(ulid_digit(a, 12) == ulid_digit(b, 12) && ulid_digit(a, 13) == ulid_digit(b, 13) && ulid_digit(a, 14) == ulid_digit(b, 14));
        assert(ulid_digit(a, 15) == ulid_digit(b, 15) && ulid_digit(a, 16) == ulid_digit(b, 16) && ulid_digit(a, 17) == ulid_digit(b, 17));
        assert(ulid_digit(a, 18) == ulid_digit(b, 18) && ulid_digit(a, 19) == ulid_digit(b, 19) && ulid_digit(a, 20) == ulid_digit(b, 20));
        assert(ulid_digit(a, 21) == ulid_digit(b, 21) && ulid_digit(a, 22) == ulid_digit(b, 22) && ulid_digit(a, 23) == ulid_digit(b, 23));
        assert(ulid_digit(a, 24) == ulid_digit(b, 24) && ulid_digit(a, 25) == ulid_digit(b, 25));
        assert(a == b) by (bit_vector)
            requires
                (a >> 125u128) & 0x1f == (b >> 125u128) & 0x1f,
                (a >> 120u128) & 0x1f == (b >> 120u128) & 0x1f,
                (a >> 115u128) & 0x1f == (b >> 115u128) & 0x1f,
                (a >> 110u128) & 0x1f == (b >> 110u128) & 0x1f,
                (a >> 105u128) & 0x1f == (b >> 105u128) & 0x1f,
                (a >> 100u128) & 0x1f == (b >> 100u128) & 0x1f,
                (a >> 95u128) & 0x1f == (b >> 95u128) & 0x1f,
                (a >> 90u128) & 0x1f == (b >> 90u128) & 0x1f,
                (a >> 85u128) & 0x1f == (b >> 85u128) & 0x1f,
                (a >> 80u128) & 0x1f == (b >> 80u128) & 0x1f,
                (a >> 75u128) & 0x1f == (b >> 75u128) & 0x1f,
                (a >> 70u128) & 0x1f == (b >> 70u128) & 0x1f,
                (a >> 65u128) & 0x1f == (b >> 65u128) & 0x1f,
                (a >> 60u128) & 0x1f == (b >> 60u128) & 0x1f,
                (a >> 55u128) & 0x1f == (b >> 55u128) & 0x1f,
                (a >> 50u128) & 0x1f == (b >> 50u128) & 0x1f,
                (a >> 45u128) & 0x1f == (b >> 45u128) & 0x1f,
                (a >> 40u128) & 0x1f == (b >> 40u128) & 0x1f,
                (a >> 35u128) & 0x1f == (b >> 35u128) & 0x1f,
                (a >> 30u128) & 0x1f == (b >> 30u128) & 0x1f,
                (a >> 25u128) & 0x1f == (b >> 25u128) & 0x1f,
                (a >> 20u128) & 0x1f == (b >> 20u128) & 0x1f,
                (a >> 15u128) & 0x1f == (b >> 15u128) & 0x1f,
                (a >> 10u128) & 0x1f == (b >> 10u128) & 0x1f,
                (a >> 5u128) & 0x1f == (b >> 5u128) & 0x1f,
                (a >> 0u128) & 0x1f == (b >> 0u128) & 0x1f,
        ;
    }
}

/// No two digits of Crockford's base 32 are written alike.
proof fn lemma_digits_differ(x: int, y: int)
    requires
        0 <= x < 32,
        0 <= y < 32,
        CROCKFORD@[x] == CROCKFORD@[y],
    ensures
        x == y,
{
    reveal_strlit("0123456789ABCDEFGHJKMNPQRSTVWXYZ");
}

/// Different ULIDs make different identifiers, whatever the types are: the
/// nodes that one mutation creates step by step are all named differently.
pub proof fn lemma_node_ids_differ(first_ty: Seq<char>, second_ty: Seq<char>, a: u128, b: u128)
    requires
        a != b,
    ensures
        node_id(first_ty, a) != node_id(second_ty, b),
{
    let x = node_id(first_ty, a);
    let y = node_id(second_ty, b);
    lemma_ulid_texts_differ(a, b);
    reveal_strlit("#");
    if x == y {
        assert(x.len() == first_ty.len() + 1 + 26);
        assert(y.len() == second_ty.len() + 1 + 26);
        assert forall|i: int| 0 <= i < 26 implies ulid_text(a)[i] == ulid_text(b)[i] by {
            assert(x[first_ty.len() + 1 + i] == ulid_text(a)[i]);
            assert(y[second_ty.len() + 1 + i] == ulid_text(b)[i]);
        }
        assert(ulid_text(a) =~= ulid_text(b));
    }
}

/// The nodes that a mutation creates at different steps get different
/// identifiers, whatever their types are.
pub proof fn lemma_steps_name_different_nodes(base: u128, a: nat, b: nat, first_ty: Seq<char>, second_ty: Seq<char>)
    requires
        a < b,
        ulid_after(base, b) is Some,
    ensures
        ulid_after(base, a) is Some,
        node_id(first_ty, ulid_after(base, a)->Some_0) != node_id(second_ty, ulid_after(base, b)->Some_0),
{
    lemma_ulid_after_grows(base, a, b);
    lemma_node_ids_differ(first_ty, second_ty, ulid_after(base, a)->Some_0, ulid_after(base, b)->Some_0);
}

/// Writes the identifier of a node.
pub fn make_node_id(ty: &str, ulid: u128) -> (r: String)
    ensures
        r@ == node_id(ty@, ulid),
{
    let text = ulid_to_string(ulid);
    concat3(ty, "#", text.as_str())
}

} // verus!
