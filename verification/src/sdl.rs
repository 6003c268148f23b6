//! Reading schema documents: the values of directive arguments, with the
//! places at which they stand.

use crate::input::{lemma_variants, InputModel, InputValue};
use crate::text::{find_char, first_index_from, same_text, text_between};
use vstd::prelude::*;

verus! {

/// A place in a document: line and column, both counted from one.
#[derive(Clone, Copy, Debug, PartialEq, Eq, Structural)]
pub struct Pos {
    pub line: usize,
    pub column: usize,
}

/// The number of line feeds among the first `n` characters.
pub open spec fn line_feeds(t: Seq<char>, n: int) -> nat
    decreases n,
{
    if n <= 0 || n > t.len() {
        0
    } else if t[n - 1] == '\n' {
        line_feeds(t, n - 1) + 1
    } else {
        line_feeds(t, n - 1)
    }
}

/// How many characters stand between the last line feed before `n` and `n`.
pub open spec fn column_offset(t: Seq<char>, n: int) -> nat
    decreases n,
{
    if n <= 0 || n > t.len() {
        0
    } else if t[n - 1] == '\n' {
        0
    } else {
        column_offset(t, n - 1) + 1
    }
}

/// The place of the character at `index`.
pub fn position_at(t: &Vec<char>, index: usize) -> (r: Pos)
    requires
        index <= t.len(),
        t.len() < usize::MAX,
    ensures
        r.line == line_feeds(t@, index as int) + 1,
        r.column == column_offset(t@, index as int) + 1,
{
    let mut line: usize = 1;
    let mut column: usize = 1;
    let mut i: usize = 0;
    while i < index
        invariant
            i <= index <= t.len(),
            t.len() < usize::MAX,
            line == line_feeds(t@, i as int) + 1,
            column == column_offset(t@, i as int) + 1,
            line <= i + 1,
            column <= i + 1,
        decreases index - i,
    {
        if t[i] == '\n' {
            line = line + 1;
            column = 1;
        } else {
            column = column + 1;
        }
        i = i + 1;
    }
    Pos { line, column }
}

/// Characters between the words of a document that mean nothing.
pub open spec fn is_ignored(c: char) -> bool {
    c == ' ' || c == '\t' || c == '\n' || c == '\r' || c == ','
}

pub open spec fn is_digit(c: char) -> bool {
    '0' <= c <= '9'
}

pub open spec fn is_name_start(c: char) -> bool {
    ('a' <= c <= 'z') || ('A' <= c <= 'Z') || c == '_'
}

pub open spec fn is_name_char(c: char) -> bool {
    is_name_start(c) || is_digit(c)
}

/// The position of the first character at or after `i` that means
/// something: blanks, commas and comments up to the end of their line are
/// passed over.
pub open spec fn skip_from(t: Seq<char>, i: int) -> int
    decreases t.len() - i,
{
    if i < 0 || i >= t.len() {
        t.len() as int
    } else if is_ignored(t[i]) {
        skip_from(t, i + 1)
    } else if t[i] == '#' {
        let end = first_index_from(t, '\n', i + 1);
        if i < end <= t.len() {
            skip_from(t, end)
        } else {
            t.len() as int
        }
    } else {
        i
    }
}

/// The position behind the name that starts at `i`.
pub open spec fn name_end(t: Seq<char>, i: int) -> int
    decreases t.len() - i,
{
    if i < 0 || i >= t.len() {
        t.len() as int
    } else if is_name_char(t[i]) {
        name_end(t, i + 1)
    } else {
        i
    }
}

/// The position behind the digits that start at `i`.
pub open spec fn digits_end(t: Seq<char>, i: int) -> int
    decreases t.len() - i,
{
    if i < 0 || i >= t.len() {
        t.len() as int
    } else if is_digit(t[i]) {
        digits_end(t, i + 1)
    } else {
        i
    }
}

pub(crate) proof fn lemma_skip_from(t: Seq<char>, i: int)
    requires
        0 <= i <= t.len(),
    ensures
        i <= skip_from(t, i) <= t.len(),
        skip_from(t, i) < t.len() ==> !is_ignored(t[skip_from(t, i)]) && t[skip_from(t, i)] != '#',
    decreases t.len() - i,
{
    if i < t.len() {
        if is_ignored(t[i]) {
            lemma_skip_from(t, i + 1);
        } else if t[i] == '#' {
            let end = first_index_from(t, '\n', i + 1);
            crate::text::lemma_first_index_from(t, '\n', i + 1);
            lemma_skip_from(t, end);
        }
    }
}

pub(crate) proof fn lemma_name_end(t: Seq<char>, i: int)
    requires
        0 <= i <= t.len(),
    ensures
        i <= name_end(t, i) <= t.len(),
        i < t.len() && is_name_char(t[i]) ==> name_end(t, i) > i,
    decreases t.len() - i,
{
    if i < t.len() && is_name_char(t[i]) {
        lemma_name_end(t, i + 1);
    }
}

fn ignored(c: char) -> (r: bool)
    ensures
        r == is_ignored(c),
{
    c == ' ' || c == '\t' || c == '\n' || c == '\r' || c == ','
}

fn digit(c: char) -> (r: bool)
    ensures
        r == is_digit(c),
{
    '0' <= c && c <= '9'
}

fn name_start(c: char) -> (r: bool)
    ensures
        r == is_name_start(c),
{
    ('a' <= c && c <= 'z') || ('A' <= c && c <= 'Z') || c == '_'
}

/// Passes over what means nothing.
pub fn skip(t: &Vec<char>, i: usize) -> (r: usize)
    requires
        i <= t.len(),
    ensures
        r == skip_from(t@, i as int),
        i <= r <= t.len(),
{
    let mut j = i;
    while j < t.len() && (ignored(t[j]) || t[j] == '#')
        invariant
            i <= j <= t.len(),
            skip_from(t@, i as int) == skip_from(t@, j as int),
        decreases t.len() - j,
    {
        if t[j] == '#' {
            let end = find_char(t, '\n', j + 1);
            j = end;
        } else {
            j = j + 1;
        }
    }
    j
}

/// Reads to the end of a name.
pub fn read_name_end(t: &Vec<char>, i: usize) -> (r: usize)
    requires
        i <= t.len(),
    ensures
        r == name_end(t@, i as int),
        i <= r <= t.len(),
{
    let mut j = i;
    while j < t.len() && (name_start(t[j]) || digit(t[j]))
        invariant
            i <= j <= t.len(),
            name_end(t@, i as int) == name_end(t@, j as int),
        decreases t.len() - j,
    {
        j = j + 1;
    }
    j
}

/// Reads to the end of a run of digits.
pub fn read_digits_end(t: &Vec<char>, i: usize) -> (r: usize)
    requires
        i <= t.len(),
    ensures
        r == digits_end(t@, i as int),
        i <= r <= t.len(),
{
    let mut j = i;
    while j < t.len() && digit(t[j])
        invariant
            i <= j <= t.len(),
            digits_end(t@, i as int) == digits_end(t@, j as int),
        decreases t.len() - j,
    {
        j = j + 1;
    }
    j
}

/// The character that an escape stands for.
pub open spec fn unescaped(c: char) -> Option<char> {
    if c == '"' || c == '\\' || c == '/' {
        Some(c)
    } else if c == 'n' {
        Some('\n')
    } else if c == 't' {
        Some('\t')
    } else if c == 'r' {
        Some('\r')
    } else {
        None
    }
}

/// The text of a string whose opening quote stands before `i`, read on from
/// what has been read already, and the position behind its closing quote.
/// A string ends on its own line.
pub open spec fn string_from(t: Seq<char>, i: int, read: Seq<char>) -> Option<(Seq<char>, int)>
    decreases t.len() - i,
{
    if i < 0 || i >= t.len() || t[i] == '\n' {
        None
    } else if t[i] == '"' {
        Some((read, i + 1))
    } else if t[i] == '\\' {
        if i + 1 < t.len() && unescaped(t[i + 1]) is Some {
            string_from(t, i + 2, read.push(unescaped(t[i + 1])->Some_0))
        } else {
            None
        }
    } else {
        string_from(t, i + 1, read.push(t[i]))
    }
}

proof fn lemma_string_from(t: Seq<char>, i: int, read: Seq<char>)
    requires
        0 <= i <= t.len(),
    ensures
        string_from(t, i, read) is Some ==> i < string_from(t, i, read)->Some_0.1 <= t.len(),
    decreases t.len() - i,
{
    if i < t.len() && t[i] != '\n' && t[i] != '"' {
        if t[i] == '\\' {
            if i + 1 < t.len() && unescaped(t[i + 1]) is Some {
                lemma_string_from(t, i + 2, read.push(unescaped(t[i + 1])->Some_0));
            }
        } else {
            lemma_string_from(t, i + 1, read.push(t[i]));
        }
    }
}

fn unescape(c: char) -> (r: Option<char>)
    ensures
        r == unescaped(c),
{
    if c == '"' || c == '\\' || c == '/' {
        Some(c)
    } else if c == 'n' {
        Some('\n')
    } else if c == 't' {
        Some('\t')
    } else if c == 'r' {
        Some('\r')
    } else {
        None
    }
}

/// Reads a string whose opening quote stands before `i`.
pub fn read_string(t: &Vec<char>, i: usize) -> (r: Option<(String, usize)>)
    requires
        i <= t.len(),
    ensures
        match r {
            Some((text, end)) => string_from(t@, i as int, Seq::empty()) == Some((text@, end as int)) && i < end <= t.len(),
            None => string_from(t@, i as int, Seq::empty()) is None,
        },
{
    let mut text = String::new();
    let mut j = i;
    proof {
        lemma_string_from(t@, i as int, Seq::empty());
    }
    while j < t.len() && t[j] != '\n' && t[j] != '"'
        invariant
            i <= j <= t.len(),
            string_from(t@, i as int, Seq::empty()) == string_from(t@, j as int, text@),
        decreases t.len() - j,
    {
        if t[j] == '\\' {
            if j + 1 < t.len() {
                match unescape(t[j + 1]) {
                    Some(c) => {
                        crate::text::push_char(&mut text, c);
                        j = j + 2;
                    },
                    None => {
                        return None;
                    },
                }
            } else {
                return None;
            }
        } else {
            crate::text::push_char(&mut text, t[j]);
            j = j + 1;
        }
    }
    if j < t.len() && t[j] == '"' {
        Some((text, j + 1))
    } else {
        None
    }
}

/// The position behind the number that starts at `i`: a sign, digits, a
/// fraction and an exponent, of which only the digits have to be there.
pub open spec fn number_end(t: Seq<char>, i: int) -> Option<int> {
    let start = if 0 <= i < t.len() && t[i] == '-' {
        i + 1
    } else {
        i
    };
    let whole = digits_end(t, start);
    let fraction = if whole < t.len() && t[whole] == '.' {
        digits_end(t, whole + 1)
    } else {
        whole
    };
    let marked = fraction < t.len() && (t[fraction] == 'e' || t[fraction] == 'E');
    let signed = marked && fraction + 1 < t.len() && (t[fraction + 1] == '+' || t[fraction + 1] == '-');
    let exponent_start = if signed {
        fraction + 2
    } else {
        fraction + 1
    };
    let end = if marked {
        digits_end(t, exponent_start)
    } else {
        fraction
    };
    if i < 0 || start >= t.len() || whole == start || (fraction != whole && fraction == whole + 1) || (marked && end == exponent_start) {
        None
    } else {
        Some(end)
    }
}

/// Reads to the end of a number.
pub fn read_number_end(t: &Vec<char>, i: usize) -> (r: Option<usize>)
    requires
        i <= t.len(),
    ensures
        match r {
            Some(end) => number_end(t@, i as int) == Some(end as int) && i < end <= t.len(),
            None => number_end(t@, i as int) is None,
        },
{
    let start = if i < t.len() && t[i] == '-' {
        i + 1
    } else {
        i
    };
    if start >= t.len() {
        return None;
    }
    let whole = read_digits_end(t, start);
    if whole == start {
        return None;
    }
    let fraction = if whole < t.len() && t[whole] == '.' {
        read_digits_end(t, whole + 1)
    } else {
        whole
    };
    if fraction != whole && fraction == whole + 1 {
        return None;
    }
    if fraction < t.len() && (t[fraction] == 'e' || t[fraction] == 'E') {
        let exponent_start = if fraction + 1 < t.len() && (t[fraction + 1] == '+' || t[fraction + 1] == '-') {
            fraction + 2
        } else {
            fraction + 1
        };
        let end = read_digits_end(t, exponent_start);
        if end == exponent_start {
            return None;
        }
        Some(end)
    } else {
        Some(fraction)
    }
}

/// The value that a bare word stands for.
pub open spec fn word_value(word: Seq<char>) -> InputModel {
    if word == "true"@ {
        InputModel::Boolean(true)
    } else if word == "false"@ {
        InputModel::Boolean(false)
    } else if word == "null"@ {
        InputModel::Null
    } else {
        InputModel::Enum(word)
    }
}

/// The value that starts at or after `i`, and the position behind it.
pub open spec fn value_from(t: Seq<char>, i: int) -> Option<(InputModel, int)>
    decreases t.len() - i, 0nat,
{
    let j = skip_from(t, i);
    if i < 0 || j < i || j >= t.len() {
        None
    } else if t[j] == '"' {
        match string_from(t, j + 1, Seq::empty()) {
            Some((text, end)) => Some((InputModel::Text(text), end)),
            None => None,
        }
    } else if t[j] == '[' {
        list_from(t, j + 1, Seq::empty())
    } else if t[j] == '{' {
        object_from(t, j + 1, Seq::empty())
    } else if t[j] == '-' || is_digit(t[j]) {
        match number_end(t, j) {
            Some(end) => if j < end <= t.len() {
                Some((InputModel::Number(t.subrange(j, end)), end))
            } else {
                None
            },
            None => None,
        }
    } else if is_name_start(t[j]) {
        Some((word_value(t.subrange(j, name_end(t, j))), name_end(t, j)))
    } else {
        None
    }
}

/// The list whose opening bracket stands before `i`, read on from the
/// elements that have been read already.
pub open spec fn list_from(t: Seq<char>, i: int, read: Seq<InputModel>) -> Option<(InputModel, int)>
    decreases t.len() - i, 1nat,
{
    let j = skip_from(t, i);
    if i < 0 || j < i || j >= t.len() {
        None
    } else if t[j] == ']' {
        Some((InputModel::List(read), j + 1))
    } else {
        match value_from(t, j) {
            Some((value, end)) => if j < end <= t.len() {
                list_from(t, end, read.push(value))
            } else {
                None
            },
            None => None,
        }
    }
}

/// The object whose opening brace stands before `i`, read on from the
/// fields that have been read already.
pub open spec fn object_from(t: Seq<char>, i: int, read: Seq<(Seq<char>, InputModel)>) -> Option<(InputModel, int)>
    decreases t.len() - i, 1nat,
{
    let j = skip_from(t, i);
    if i < 0 || j < i || j >= t.len() {
        None
    } else if t[j] == '}' {
        Some((InputModel::Object(read), j + 1))
    } else if is_name_start(t[j]) {
        let e = name_end(t, j);
        let c = skip_from(t, e);
        if j < e <= c < t.len() && t[c] == ':' {
            match value_from(t, c + 1) {
                Some((value, end)) => if c < end <= t.len() {
                    object_from(t, end, read.push((t.subrange(j, e), value)))
                } else {
                    None
                },
                None => None,
            }
        } else {
            None
        }
    } else {
        None
    }
}

/// A value ends behind where it starts, within the text.
pub proof fn lemma_value_from(t: Seq<char>, i: int)
    requires
        0 <= i <= t.len(),
    ensures
        value_from(t, i) is Some ==> i < value_from(t, i)->Some_0.1 <= t.len(),
    decreases t.len() - i, 0nat,
{
    lemma_skip_from(t, i);
    let j = skip_from(t, i);
    if j < t.len() {
        if t[j] == '"' {
            lemma_string_from(t, j + 1, Seq::empty());
        } else if t[j] == '[' {
            lemma_list_from(t, j + 1, Seq::empty());
        } else if t[j] == '{' {
            lemma_object_from(t, j + 1, Seq::empty());
        } else if t[j] == '-' || is_digit(t[j]) {
        } else if is_name_start(t[j]) {
            lemma_name_end(t, j);
        }
    }
}

proof fn lemma_list_from(t: Seq<char>, i: int, read: Seq<InputModel>)
    requires
        0 <= i <= t.len(),
    ensures
        list_from(t, i, read) is Some ==> i < list_from(t, i, read)->Some_0.1 <= t.len(),
    decreases t.len() - i, 1nat,
{
    lemma_skip_from(t, i);
    let j = skip_from(t, i);
    if j < t.len() && t[j] != ']' {
        match value_from(t, j) {
            Some((value, end)) => {
                if j < end <= t.len() {
                    lemma_list_from(t, end, read.push(value));
                }
            },
            None => {},
        }
    }
}

proof fn lemma_object_from(t: Seq<char>, i: int, read: Seq<(Seq<char>, InputModel)>)
    requires
        0 <= i <= t.len(),
    ensures
        object_from(t, i, read) is Some ==> i < object_from(t, i, read)->Some_0.1 <= t.len(),
    decreases t.len() - i, 1nat,
{
    lemma_skip_from(t, i);
    let j = skip_from(t, i);
    if j < t.len() && t[j] != '}' && is_name_start(t[j]) {
        let e = name_end(t, j);
        let c = skip_from(t, e);
        if j < e <= c < t.len() && t[c] == ':' {
            match value_from(t, c + 1) {
                Some((value, end)) => {
                    if c < end <= t.len() {
                        lemma_object_from(t, end, read.push((t.subrange(j, e), value)));
                    }
                },
                None => {},
            }
        }
    }
}

fn value_of_word(word: String) -> (r: InputValue)
    ensures
        r@ == word_value(word@),
{
    if same_text(word.as_str(), "true") {
        InputValue::Boolean(true)
    } else if same_text(word.as_str(), "false") {
        InputValue::Boolean(false)
    } else if same_text(word.as_str(), "null") {
        InputValue::Null
    } else {
        InputValue::Enum(word)
    }
}

/// Reads the value that starts at or after `i`.
#[verifier::loop_isolation(false)]
pub fn parse_value(t: &Vec<char>, i: usize) -> (r: Option<(InputValue, usize)>)
    requires
        i <= t.len(),
    ensures
        match r {
            Some((value, end)) => value_from(t@, i as int) == Some((value@, end as int)) && i < end <= t.len(),
            None => value_from(t@, i as int) is None,
        },
    decreases t.len() - i, 0nat,
{
    proof {
        lemma_value_from(t@, i as int);
    }
    let j = skip(t, i);
    if j >= t.len() {
        return None;
    }
    let c = t[j];
    if c == '"' {
        match read_string(t, j + 1) {
            Some((text, end)) => Some((InputValue::Text(text), end)),
            None => None,
        }
    } else if c == '[' {
        let mut items: Vec<InputValue> = Vec::new();
        assert(items.deep_view() =~= Seq::empty());
        let mut k = j + 1;
        loop
            invariant
                j < k <= t.len(),
                list_from(t@, j + 1, Seq::empty()) == list_from(t@, k as int, items.deep_view()),
            decreases t.len() - k,
        {
            proof {
                lemma_skip_from(t@, k as int);
            }
            let n = skip(t, k);
            if n >= t.len() {
                return None;
            }
            if t[n] == ']' {
                let value = InputValue::List(items);
                proof {
                    lemma_variants(value);
                }
                return Some((value, n + 1));
            }
            proof {
                lemma_value_from(t@, n as int);
            }
            match parse_value(t, n) {
                Some((value, end)) => {
                    let ghost before = items.deep_view();
                    let ghost model = value@;
                    items.push(value);
                    assert(items.deep_view() =~= before.push(model));
                    k = end;
                },
                None => {
                    return None;
                },
            }
        }
    } else if c == '{' {
        let mut fields: Vec<(String, InputValue)> = Vec::new();
        assert(fields.deep_view() =~= Seq::empty());
        let mut k = j + 1;
        loop
            invariant
                j < k <= t.len(),
                object_from(t@, j + 1, Seq::empty()) == object_from(t@, k as int, fields.deep_view()),
            decreases t.len() - k,
        {
            proof {
                lemma_skip_from(t@, k as int);
            }
            let n = skip(t, k);
            if n >= t.len() {
                return None;
            }
            if t[n] == '}' {
                let value = InputValue::Object(fields);
                proof {
                    lemma_variants(value);
                }
                return Some((value, n + 1));
            }
            if !name_start(t[n]) {
                return None;
            }
            proof {
                lemma_name_end(t@, n as int);
            }
            let e = read_name_end(t, n);
            let colon = skip(t, e);
            if colon >= t.len() || t[colon] != ':' {
                return None;
            }
            proof {
                lemma_value_from(t@, colon + 1);
            }
            match parse_value(t, colon + 1) {
                Some((value, end)) => {
                    let name = text_between(t, n, e);
                    let ghost before = fields.deep_view();
                    let ghost model = (name@, value@);
                    fields.push((name, value));
                    assert(fields.deep_view() =~= before.push(model));
                    k = end;
                },
                None => {
                    return None;
                },
            }
        }
    } else if c == '-' || digit(c) {
        match read_number_end(t, j) {
            Some(end) => Some((InputValue::Number(text_between(t, j, end)), end)),
            None => None,
        }
    } else if name_start(c) {
        proof {
            lemma_name_end(t@, j as int);
        }
        let e = read_name_end(t, j);
        Some((value_of_word(text_between(t, j, e)), e))
    } else {
        None
    }
}

} // verus!
