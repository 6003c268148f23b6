//! Text as sequences of characters: the helpers every other module builds on.

use case::CaseExt;
use itertools::Itertools;
use vstd::prelude::*;

verus! {

/// The models of a sequence of values, element by element.
pub open spec fn views<T: View>(s: Seq<T>) -> Seq<T::V> {
    Seq::new(s.len(), |i: int| s[i]@)
}

/// The models of the strings of an optional list.
pub open spec fn optional_views(names: Option<Vec<String>>) -> Option<Seq<Seq<char>>> {
    match names {
        Some(v) => Some(views(v@)),
        None => None,
    }
}

/// `parts` with `sep` between each two neighbours.
pub open spec fn joined(parts: Seq<Seq<char>>, sep: Seq<char>) -> Seq<char>
    decreases parts.len(),
{
    if parts.len() == 0 {
        Seq::empty()
    } else if parts.len() == 1 {
        parts[0]
    } else {
        joined(parts.drop_last(), sep) + sep + parts.last()
    }
}

/// The position of the first `c` in `s` at or after `from`, or `s.len()` if there is none.
pub open spec fn first_index_from(s: Seq<char>, c: char, from: int) -> int
    decreases s.len() - from,
{
    if from < 0 || from >= s.len() {
        s.len() as int
    } else if s[from] == c {
        from
    } else {
        first_index_from(s, c, from + 1)
    }
}

pub(crate) proof fn lemma_first_index_from(s: Seq<char>, c: char, from: int)
    requires
        0 <= from <= s.len(),
    ensures
        from <= first_index_from(s, c, from) <= s.len(),
        first_index_from(s, c, from) < s.len() ==> s[first_index_from(s, c, from)] == c,
        forall|j: int| from <= j < first_index_from(s, c, from) ==> s[j] != c,
    decreases s.len() - from,
{
    if from < s.len() && s[from] != c {
        lemma_first_index_from(s, c, from + 1);
    }
}

/// What std's `str::to_lowercase` returns for a text.
pub uninterp spec fn lowercase_text(s: Seq<char>) -> Seq<char>;

/// Whether a character is one of the capital letters `A` to `Z`.
pub open spec fn is_ascii_capital(c: char) -> bool {
    'A' <= c && c <= 'Z'
}

/// A capital letter from `A` to `Z` as a small letter; any other character
/// as it is.
pub open spec fn ascii_lower(c: char) -> char {
    if 'A' <= c && c <= 'Z' {
        ((c as u8 + 32) as u8) as char
    } else {
        c
    }
}

/// A small letter from `a` to `z` as a capital letter; any other character
/// as it is.
pub open spec fn ascii_upper(c: char) -> char {
    if 'a' <= c && c <= 'z' {
        ((c as u8 - 32) as u8) as char
    } else {
        c
    }
}

/// What has been written of a name in camel case: the text so far, whether
/// the next character starts a word, and whether a character other than an
/// underscore has been seen.
pub struct CamelState {
    pub out: Seq<char>,
    pub at_new_word: bool,
    pub started: bool,
}

/// The first `n` characters of a text on their way to camel case.
/// Underscores at the start are passed over. Any other underscore is left
/// out and makes the next character start a word. A character that starts a
/// word is written as a capital letter, any other as it is. The first
/// character starts a word if `capital_first` says so.
pub open spec fn camel_upto(s: Seq<char>, n: nat, capital_first: bool) -> CamelState
    decreases n,
{
    if n == 0 || n > s.len() {
        CamelState { out: Seq::empty(), at_new_word: capital_first, started: false }
    } else {
        let before = camel_upto(s, (n - 1) as nat, capital_first);
        let c = s[n - 1];
        if c == '_' {
            if before.started {
                CamelState { at_new_word: true, ..before }
            } else {
                before
            }
        } else if before.at_new_word {
            CamelState { out: before.out.push(ascii_upper(c)), at_new_word: false, started: true }
        } else {
            CamelState { out: before.out.push(c), at_new_word: false, started: true }
        }
    }
}

/// What `case::CaseExt::to_camel` returns for a text: the words between
/// underscores, each with its first letter as a capital.
pub open spec fn camel_text(s: Seq<char>) -> Seq<char> {
    camel_upto(s, s.len(), true).out
}

/// What `case::CaseExt::to_camel_lowercase` returns for a text: as
/// `to_camel`, but the first word is left as it is.
pub open spec fn camel_lowercase_text(s: Seq<char>) -> Seq<char> {
    camel_upto(s, s.len(), false).out
}

/// The first `n` characters of a text in snake case: a capital letter from
/// `A` to `Z` is written as a small letter, behind an underscore unless it is
/// the first character of the text; any other character is written as it is.
pub open spec fn snake_upto(s: Seq<char>, n: nat) -> Seq<char>
    decreases n,
{
    if n == 0 || n > s.len() {
        Seq::empty()
    } else {
        let before = snake_upto(s, (n - 1) as nat);
        let c = s[n - 1];
        if is_ascii_capital(c) {
            if n == 1 {
                before.push(ascii_lower(c))
            } else {
                before.push('_').push(ascii_lower(c))
            }
        } else {
            before.push(c)
        }
    }
}

/// What `case::CaseExt::to_snake` returns for a text.
pub open spec fn snake_text(s: Seq<char>) -> Seq<char> {
    snake_upto(s, s.len())
}

/// A field or query name in lower camel case.
pub open spec fn lower_camel_text(s: Seq<char>) -> Seq<char> {
    camel_lowercase_text(snake_text(s))
}

/// std's `String::push`: appends one character.
#[verifier::external_body]
pub(crate) fn push_char(s: &mut String, c: char)
    ensures
        final(s)@ == old(s)@.push(c),
{
    s.push(c)
}

/// std's `str::to_lowercase`: the result is a function of the text alone.
#[verifier::external_body]
pub(crate) fn lowercase(s: &str) -> (r: String)
    ensures
        r@ == lowercase_text(s@),
{
    s.to_lowercase()
}

/// `case::CaseExt::to_camel` on a string slice: what `camel_text` says,
/// character by character.
#[verifier::external_body]
pub(crate) fn camel(s: &str) -> (r: String)
    ensures
        r@ == camel_text(s@),
{
    s.to_camel()
}

/// `case::CaseExt::to_camel_lowercase` on a string slice: what
/// `camel_lowercase_text` says, character by character.
#[verifier::external_body]
pub(crate) fn camel_lowercase(s: &str) -> (r: String)
    ensures
        r@ == camel_lowercase_text(s@),
{
    s.to_camel_lowercase()
}

/// `case::CaseExt::to_snake` on a string slice: what `snake_text` says,
/// character by character.
#[verifier::external_body]
pub(crate) fn snake(s: &str) -> (r: String)
    ensures
        r@ == snake_text(s@),
{
    s.to_snake()
}

/// `itertools::Itertools::join` over the strings of a vector: the first
/// element, then for each further one the separator and the element.
#[verifier::external_body]
pub(crate) fn join_strings(parts: &Vec<String>, sep: &str) -> (r: String)
    ensures
        r@ == joined(views(parts@), sep@),
{
    parts.iter().join(sep)
}

/// A name with its first word in lower case and the following ones capitalised.
pub fn to_lower_camelcase(s: &str) -> (r: String)
    ensures
        r@ == lower_camel_text(s@),
{
    let snaked = snake(s);
    camel_lowercase(snaked.as_str())
}

/// The characters of a string slice.
pub fn chars_of(s: &str) -> (v: Vec<char>)
    ensures
        v@ == s@,
{
    let n = s.unicode_len();
    let mut v: Vec<char> = Vec::new();
    let mut i: usize = 0;
    while i < n
        invariant
            i <= n,
            n == s@.len(),
            v@ == s@.subrange(0, i as int),
        decreases n - i,
    {
        v.push(s.get_char(i));
        i = i + 1;
    }
    v
}

/// The string made of `v[from..to]`.
pub fn text_between(v: &Vec<char>, from: usize, to: usize) -> (s: String)
    requires
        from <= to <= v.len(),
    ensures
        s@ == v@.subrange(from as int, to as int),
{
    let mut s = String::new();
    let mut i: usize = from;
    while i < to
        invariant
            from <= i <= to <= v.len(),
            s@ == v@.subrange(from as int, i as int),
        decreases to - i,
    {
        push_char(&mut s, v[i]);
        i = i + 1;
    }
    s
}

/// The string made of the characters of `v`.
pub fn text_of(v: &Vec<char>) -> (s: String)
    ensures
        s@ == v@,
{
    let s = text_between(v, 0, v.len());
    assert(v@.subrange(0, v.len() as int) == v@);
    s
}

/// The position of the first `c` in `v` at or after `from`; `v.len()` if there is none.
pub fn find_char(v: &Vec<char>, c: char, from: usize) -> (i: usize)
    requires
        from <= v.len(),
    ensures
        i == first_index_from(v@, c, from as int),
        from <= i <= v.len(),
{
    let mut i: usize = from;
    while i < v.len() && v[i] != c
        invariant
            from <= i <= v.len(),
            first_index_from(v@, c, from as int) == first_index_from(v@, c, i as int),
        decreases v.len() - i,
    {
        i = i + 1;
    }
    i
}

/// `a` followed by `b`.
pub fn concat2(a: &str, b: &str) -> (r: String)
    ensures
        r@ == a@ + b@,
{
    let mut r = a.to_owned();
    r.append(b);
    r
}

/// `a`, `b` and `c` in a row.
pub fn concat3(a: &str, b: &str, c: &str) -> (r: String)
    ensures
        r@ == a@ + b@ + c@,
{
    let mut r = a.to_owned();
    r.append(b);
    r.append(c);
    r
}

/// Whether two string slices hold the same characters.
pub fn same_text(a: &str, b: &str) -> (r: bool)
    ensures
        r == (a@ == b@),
{
    let x = a.to_owned();
    let y = b.to_owned();
    x == y
}

/// The digit for a number below ten.
pub open spec fn digit_char(d: int) -> char {
    if d == 0 {
        '0'
    } else if d == 1 {
        '1'
    } else if d == 2 {
        '2'
    } else if d == 3 {
        '3'
    } else if d == 4 {
        '4'
    } else if d == 5 {
        '5'
    } else if d == 6 {
        '6'
    } else if d == 7 {
        '7'
    } else if d == 8 {
        '8'
    } else {
        '9'
    }
}

/// A number written in decimal digits.
pub open spec fn decimal_text(n: nat) -> Seq<char>
    decreases n,
{
    if n < 10 {
        seq![digit_char(n as int)]
    } else {
        decimal_text(n / 10).push(digit_char((n % 10) as int))
    }
}

fn digit(d: usize) -> (c: char)
    requires
        d < 10,
    ensures
        c == digit_char(d as int),
{
    if d == 0 {
        '0'
    } else if d == 1 {
        '1'
    } else if d == 2 {
        '2'
    } else if d == 3 {
        '3'
    } else if d == 4 {
        '4'
    } else if d == 5 {
        '5'
    } else if d == 6 {
        '6'
    } else if d == 7 {
        '7'
    } else if d == 8 {
        '8'
    } else {
        '9'
    }
}

/// Writes a number in decimal digits.
pub fn decimal(n: usize) -> (r: String)
    ensures
        r@ == decimal_text(n as nat),
    decreases n,
{
    if n < 10 {
        let mut r = String::new();
        push_char(&mut r, digit(n));
        assert(r@ =~= seq![digit_char(n as int)]);
        r
    } else {
        let mut r = decimal(n / 10);
        push_char(&mut r, digit(n % 10));
        r
    }
}

fn digit_of(d: u64) -> (c: char)
    requires
        d < 10,
    ensures
        c == digit_char(d as int),
{
    if d == 0 {
        '0'
    } else if d == 1 {
        '1'
    } else if d == 2 {
        '2'
    } else if d == 3 {
        '3'
    } else if d == 4 {
        '4'
    } else if d == 5 {
        '5'
    } else if d == 6 {
        '6'
    } else if d == 7 {
        '7'
    } else if d == 8 {
        '8'
    } else {
        '9'
    }
}

/// Writes a number of sixty-four bits in decimal digits.
pub fn decimal_of(n: u64) -> (r: String)
    ensures
        r@ == decimal_text(n as nat),
    decreases n,
{
    if n < 10 {
        let mut r = String::new();
        push_char(&mut r, digit_of(n));
        assert(r@ =~= seq![digit_char(n as int)]);
        r
    } else {
        let mut r = decimal_of(n / 10);
        push_char(&mut r, digit_of(n % 10));
        r
    }
}

/// The elements of a vector in the opposite order.
pub fn reversed<T>(v: Vec<T>) -> (r: Vec<T>)
    ensures
        r.len() == v.len(),
        forall|j: int| 0 <= j < r.len() ==> r[j] == v[v.len() - 1 - j],
{
    let ghost all = v@;
    let mut v = v;
    let mut r: Vec<T> = Vec::new();
    while v.len() > 0
        invariant
            v.len() + r.len() == all.len(),
            forall|j: int| 0 <= j < v.len() ==> v[j] == all[j],
            forall|j: int| 0 <= j < r.len() ==> r[j] == all[all.len() - 1 - j],
        decreases v.len(),
    {
        let x = v.pop().unwrap();
        r.push(x);
    }
    r
}

/// A copy of a vector of strings.
pub fn clone_strings(v: &Vec<String>) -> (r: Vec<String>)
    ensures
        views(r@) == views(v@),
{
    let mut r: Vec<String> = Vec::new();
    let mut i: usize = 0;
    while i < v.len()
        invariant
            i <= v.len(),
            r.len() == i,
            forall|j: int| 0 <= j < i ==> r[j]@ == v[j]@,
        decreases v.len() - i,
    {
        r.push(v[i].clone());
        i = i + 1;
    }
    assert(views(r@) =~= views(v@));
    r
}

/// Whether `needle` is one of the strings of `v`.
pub fn contains_text(v: &Vec<String>, needle: &str) -> (r: bool)
    ensures
        r == views(v@).contains(needle@),
{
    let mut i: usize = 0;
    while i < v.len()
        invariant
            i <= v.len(),
            forall|j: int| 0 <= j < i ==> v[j]@ != needle@,
        decreases v.len() - i,
    {
        if same_text(v[i].as_str(), needle) {
            assert(views(v@)[i as int] == needle@);
            return true;
        }
        i = i + 1;
    }
    false
}

} // verus!
