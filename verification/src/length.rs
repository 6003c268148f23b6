//! The bounds that a `@length` directive sets on a field.

use crate::connectors::{argument_value, find_argument};
use crate::document::{ArgumentModel, FieldDefinition, FieldModel};
use crate::input::{InputModel, InputValue};
use crate::rules::{directive_from, find_directive};
use crate::text::chars_of;
use vstd::prelude::*;

verus! {

pub const LENGTH_DIRECTIVE: &'static str = "length";

pub const MIN_ARGUMENT: &'static str = "min";

pub const MAX_ARGUMENT: &'static str = "max";

/// The bounds on the length of a value; a side without a bound is open.
#[derive(Debug, Clone, Copy, PartialEq, Eq, Structural)]
pub struct LengthValidator {
    pub min: Option<usize>,
    pub max: Option<usize>,
}

/// What a decimal digit counts; -1 for any other character.
pub open spec fn digit_value(c: char) -> int {
    if c == '0' {
        0
    } else if c == '1' {
        1
    } else if c == '2' {
        2
    } else if c == '3' {
        3
    } else if c == '4' {
        4
    } else if c == '5' {
        5
    } else if c == '6' {
        6
    } else if c == '7' {
        7
    } else if c == '8' {
        8
    } else if c == '9' {
        9
    } else {
        -1
    }
}

/// Whether the first `n` characters of a text are decimal digits.
pub open spec fn digits_only(t: Seq<char>, n: nat) -> bool {
    n <= t.len() && forall|i: int| 0 <= i < n ==> digit_value(#[trigger] t[i]) >= 0
}

/// The number that the first `n` characters of a text of digits stand for.
pub open spec fn digits_value(t: Seq<char>, n: nat) -> int
    decreases n,
{
    if n == 0 || n > t.len() {
        0
    } else {
        digits_value(t, (n - 1) as nat) * 10 + digit_value(t[n - 1])
    }
}

/// The bound that a value gives: a number written in digits alone, if the
/// machine can hold it.
pub open spec fn length_bound(value: InputModel) -> Option<usize> {
    match value {
        InputModel::Number(t) => if t.len() > 0 && digits_only(t, t.len()) && digits_value(t, t.len()) <= usize::MAX {
            Some(digits_value(t, t.len()) as usize)
        } else {
            None
        },
        _ => None,
    }
}

/// The bound that the first argument of a name gives.
pub open spec fn argument_bound(arguments: Seq<ArgumentModel>, name: Seq<char>) -> Option<usize> {
    match argument_value(arguments, name) {
        Some(value) => length_bound(value),
        None => None,
    }
}

/// The bounds of a field: those of its first `@length` directive, if it has one.
pub open spec fn length_validator(field: FieldModel) -> Option<LengthValidator> {
    let d = directive_from(field.directives, LENGTH_DIRECTIVE@, 0);
    if d < field.directives.len() {
        Some(
            LengthValidator {
                min: argument_bound(field.directives[d].arguments, MIN_ARGUMENT@),
                max: argument_bound(field.directives[d].arguments, MAX_ARGUMENT@),
            },
        )
    } else {
        None
    }
}

/// A longer text of digits stands for no smaller a number.
pub proof fn lemma_digits_value_grows(t: Seq<char>, k: nat, n: nat)
    requires
        k <= n,
        digits_only(t, n),
    ensures
        0 <= digits_value(t, k) <= digits_value(t, n),
    decreases n,
{
    if n == 0 {
    } else if k == n {
        lemma_digits_value_grows(t, (k - 1) as nat, (n - 1) as nat);
        assert(digit_value(t[n - 1]) >= 0);
    } else {
        lemma_digits_value_grows(t, k, (n - 1) as nat);
        assert(digit_value(t[n - 1]) >= 0);
    }
}

fn digit_of(c: char) -> (r: Option<usize>)
    ensures
        match r {
            Some(d) => d == digit_value(c) && d < 10,
            None => digit_value(c) < 0,
        },
{
    if c == '0' {
        Some(0)
    } else if c == '1' {
        Some(1)
    } else if c == '2' {
        Some(2)
    } else if c == '3' {
        Some(3)
    } else if c == '4' {
        Some(4)
    } else if c == '5' {
        Some(5)
    } else if c == '6' {
        Some(6)
    } else if c == '7' {
        Some(7)
    } else if c == '8' {
        Some(8)
    } else if c == '9' {
        Some(9)
    } else {
        None
    }
}

/// Reads the bound that a value gives.
pub fn read_bound(value: &InputValue) -> (r: Option<usize>)
    ensures
        r == length_bound(value@),
{
    match value {
        InputValue::Number(text) => {
            let chars = chars_of(text.as_str());
            assert(value@ == InputModel::Number(text@));
            if chars.len() == 0 {
                return None;
            }
            let mut acc: usize = 0;
            let mut i: usize = 0;
            while i < chars.len()
                invariant
                    i <= chars.len(),
                    chars@ == text@,
                    value@ == InputModel::Number(text@),
                    digits_only(chars@, i as nat),
                    acc == digits_value(chars@, i as nat),
                decreases chars.len() - i,
            {
                let d = match digit_of(chars[i]) {
                    Some(d) => d,
                    None => {
                        assert(digit_value(chars@[i as int]) < 0);
                        assert(!digits_only(text@, text@.len()));
                        return None;
                    },
                };
                if acc > (usize::MAX - d) / 10 {
                    proof {
                        assert(digits_value(chars@, (i + 1) as nat) == acc * 10 + d);
                        if digits_only(chars@, chars.len() as nat) {
                            lemma_digits_value_grows(chars@, (i + 1) as nat, chars.len() as nat);
                        }
                    }
                    return None;
                }
                acc = acc * 10 + d;
                i = i + 1;
            }
            Some(acc)
        },
        _ => None,
    }
}

/// The bounds that the `@length` directive of a field sets, if the field has one.
pub fn get_length_validator(field: &FieldDefinition) -> (r: Option<LengthValidator>)
    ensures
        r == length_validator(field@),
{
    match find_directive(&field.directives, LENGTH_DIRECTIVE) {
        Some(directive) => {
            let min = match find_argument(&directive.arguments, MIN_ARGUMENT) {
                Some(argument) => read_bound(&argument.value),
                None => None,
            };
            let max = match find_argument(&directive.arguments, MAX_ARGUMENT) {
                Some(argument) => read_bound(&argument.value),
                None => None,
            };
            Some(LengthValidator { min, max })
        },
        None => None,
    }
}

} // verus!
