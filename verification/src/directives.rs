//! The connector directives of a schema: `@graphql` and `@openapi`, read
//! from the arguments of a directive into the settings of a connector.

use crate::input::{field_index_from, get_field, lemma_variants, InputModel, InputValue};
use crate::sdl::Pos;
use crate::text::{concat2, concat3, decimal, decimal_text, first_index_from, find_char, chars_of};
use url::Url;
use vstd::prelude::*;

verus! {

/// What `url::Url::parse` says of a text that is no URL: the message of its
/// error. `None` for a text that is a URL.
pub uninterp spec fn url_parse_error(s: Seq<char>) -> Option<Seq<char>>;

/// `url::Url::parse`: the URL that a text stands for, or the error with its
/// message written out. Whether a text is a URL, and the message if it is
/// none, depend on the text alone.
#[verifier::external_body]
fn parse_url(s: &str) -> (r: Result<Url, String>)
    ensures
        match r {
            Ok(_) => url_parse_error(s@) is None,
            Err(e) => url_parse_error(s@) == Some(e@),
        },
{
    Url::parse(s).map_err(|e| e.to_string())
}

/// How a value is named in the message of an error.
pub open spec fn unexpected(value: InputModel) -> Seq<char> {
    match value {
        InputModel::Null => "unit value"@,
        InputModel::Boolean(b) => if b {
            "boolean `true`"@
        } else {
            "boolean `false`"@
        },
        InputModel::Number(n) => if first_index_from(n, '.', 0) < n.len() || first_index_from(n, 'e', 0) < n.len() || first_index_from(n, 'E', 0)
            < n.len() {
            "floating point `"@ + n + "`"@
        } else {
            "integer `"@ + n + "`"@
        },
        InputModel::Text(s) => "string \""@ + s + "\""@,
        InputModel::Enum(s) => "string \""@ + s + "\""@,
        InputModel::List(_) => "sequence"@,
        InputModel::Object(_) => "map"@,
    }
}

/// The message for a value of the wrong type.
pub open spec fn invalid_type(value: InputModel, expected: Seq<char>) -> Seq<char> {
    "invalid type: "@ + unexpected(value) + ", expected "@ + expected
}

/// The message for a field that is not there.
pub open spec fn missing_field(name: Seq<char>) -> Seq<char> {
    "missing field `"@ + name + "`"@
}

/// A place, as messages show it.
pub open spec fn pos_text(pos: Pos) -> Seq<char> {
    "["@ + decimal_text(pos.line as nat) + ":"@ + decimal_text(pos.column as nat) + "] "@
}

/// The text of a value that is a string: a text, or the name of an enum value.
pub open spec fn as_text(value: InputModel) -> Result<Seq<char>, Seq<char>> {
    match value {
        InputModel::Text(s) => Ok(s),
        InputModel::Enum(s) => Ok(s),
        _ => Err(invalid_type(value, "a string"@)),
    }
}

/// The text of a value that may be missing: `null` stands for none.
pub open spec fn as_optional_text(value: InputModel) -> Result<Option<Seq<char>>, Seq<char>> {
    match value {
        InputModel::Null => Ok(None),
        _ => match as_text(value) {
            Ok(s) => Ok(Some(s)),
            Err(e) => Err(e),
        },
    }
}

pub(crate) fn describe_value(value: &InputValue) -> (r: String)
    ensures
        r@ == unexpected(value@),
{
    proof {
        lemma_variants(*value);
    }
    match value {
        InputValue::Null => "unit value".to_owned(),
        InputValue::Boolean(b) => if *b {
            "boolean `true`".to_owned()
        } else {
            "boolean `false`".to_owned()
        },
        InputValue::Number(n) => {
            let chars = chars_of(n.as_str());
            if find_char(&chars, '.', 0) < chars.len() || find_char(&chars, 'e', 0) < chars.len() || find_char(&chars, 'E', 0) < chars.len() {
                concat3("floating point `", n.as_str(), "`")
            } else {
                concat3("integer `", n.as_str(), "`")
            }
        },
        InputValue::Text(s) => concat3("string \"", s.as_str(), "\""),
        InputValue::Enum(s) => concat3("string \"", s.as_str(), "\""),
        InputValue::List(_) => "sequence".to_owned(),
        InputValue::Object(_) => "map".to_owned(),
    }
}

fn wrong_type(value: &InputValue, expected: &str) -> (r: String)
    ensures
        r@ == invalid_type(value@, expected@),
{
    let described = describe_value(value);
    let mut message = concat2("invalid type: ", described.as_str());
    message.append(", expected ");
    message.append(expected);
    message
}

fn missing(name: &str) -> (r: String)
    ensures
        r@ == missing_field(name@),
{
    concat3("missing field `", name, "`")
}

/// Writes a place as messages show it.
pub fn write_pos(pos: Pos) -> (r: String)
    ensures
        r@ == pos_text(pos),
{
    let line = decimal(pos.line);
    let column = decimal(pos.column);
    let mut r = concat3("[", line.as_str(), ":");
    r.append(column.as_str());
    r.append("] ");
    r
}

pub(crate) fn read_text(value: &InputValue) -> (r: Result<String, String>)
    ensures
        match r {
            Ok(s) => as_text(value@) == Ok::<Seq<char>, Seq<char>>(s@),
            Err(e) => as_text(value@) == Err::<Seq<char>, Seq<char>>(e@),
        },
{
    proof {
        lemma_variants(*value);
    }
    match value {
        InputValue::Text(s) => Ok(s.clone()),
        InputValue::Enum(s) => Ok(s.clone()),
        _ => Err(wrong_type(value, "a string")),
    }
}

pub(crate) fn read_optional(value: &InputValue) -> (r: Result<Option<String>, String>)
    ensures
        match r {
            Ok(s) => as_optional_text(value@) == Ok::<Option<Seq<char>>, Seq<char>>(s.deep_view()),
            Err(e) => as_optional_text(value@) == Err::<Option<Seq<char>>, Seq<char>>(e@),
        },
{
    proof {
        lemma_variants(*value);
    }
    match value {
        InputValue::Null => Ok(None),
        _ => match read_text(value) {
            Ok(s) => Ok(Some(s)),
            Err(e) => Err(e),
        },
    }
}

/// Where the value of a header comes from.
#[derive(Debug)]
pub enum ConnectorHeaderValue {
    /// The value itself.
    Static(String),
    /// The header of this name of the request that is being answered.
    Forward(String),
}

/// The mathematical model of a header's value.
pub enum HeaderValueModel {
    Static(Seq<char>),
    Forward(Seq<char>),
}

/// A header that is sent with every request to a connector.
#[derive(Debug)]
pub struct Header {
    pub name: String,
    pub value: ConnectorHeaderValue,
}

/// The mathematical model of a header.
pub struct HeaderModel {
    pub name: Seq<char>,
    pub value: HeaderValueModel,
}

impl DeepView for Header {
    type V = HeaderModel;

    open spec fn deep_view(&self) -> HeaderModel {
        HeaderModel {
            name: self.name@,
            value: match self.value {
                ConnectorHeaderValue::Static(s) => HeaderValueModel::Static(s@),
                ConnectorHeaderValue::Forward(s) => HeaderValueModel::Forward(s@),
            },
        }
    }
}

/// A header that is sent when a connector's schema is asked for.
#[derive(Debug)]
pub struct IntrospectionHeader {
    pub name: String,
    pub value: String,
}

impl DeepView for IntrospectionHeader {
    type V = (Seq<char>, Seq<char>);

    open spec fn deep_view(&self) -> (Seq<char>, Seq<char>) {
        (self.name@, self.value@)
    }
}

/// The text of a field of an object that has to be there.
pub open spec fn required_text(fields: Seq<(Seq<char>, InputModel)>, name: Seq<char>) -> Result<Seq<char>, Seq<char>> {
    let i = field_index_from(fields, name, 0);
    if i < fields.len() {
        as_text(fields[i].1)
    } else {
        Err(missing_field(name))
    }
}

/// The text of a field of an object that may be missing or `null`.
pub open spec fn optional_text(fields: Seq<(Seq<char>, InputModel)>, name: Seq<char>) -> Result<Option<Seq<char>>, Seq<char>> {
    let i = field_index_from(fields, name, 0);
    if i < fields.len() {
        as_optional_text(fields[i].1)
    } else {
        Ok(None)
    }
}

/// The header that a value stands for: an object with a name and either a
/// value or the name of a header to forward.
pub open spec fn header_of(value: InputModel) -> Result<HeaderModel, Seq<char>> {
    match value {
        InputModel::Object(fields) => match required_text(fields, "name"@) {
            Err(e) => Err(e),
            Ok(name) => match optional_text(fields, "value"@) {
                Err(e) => Err(e),
                Ok(Some(value)) => Ok(HeaderModel { name, value: HeaderValueModel::Static(value) }),
                Ok(None) => match optional_text(fields, "forward"@) {
                    Err(e) => Err(e),
                    Ok(Some(forward)) => Ok(HeaderModel { name, value: HeaderValueModel::Forward(forward) }),
                    Ok(None) => Err(missing_field("value"@)),
                },
            },
        },
        _ => Err(invalid_type(value, "struct Header"@)),
    }
}

/// The introspection header that a value stands for: an object with a name
/// and a value.
pub open spec fn introspection_header_of(value: InputModel) -> Result<(Seq<char>, Seq<char>), Seq<char>> {
    match value {
        InputModel::Object(fields) => match required_text(fields, "name"@) {
            Err(e) => Err(e),
            Ok(name) => match required_text(fields, "value"@) {
                Err(e) => Err(e),
                Ok(value) => Ok((name, value)),
            },
        },
        _ => Err(invalid_type(value, "struct IntrospectionHeader"@)),
    }
}

/// The headers that the first `n` elements of a list stand for.
pub open spec fn headers_from(items: Seq<InputModel>, n: nat) -> Result<Seq<HeaderModel>, Seq<char>>
    decreases n,
{
    if n == 0 {
        Ok(Seq::empty())
    } else {
        match headers_from(items, (n - 1) as nat) {
            Err(e) => Err(e),
            Ok(read) => match header_of(items[n - 1]) {
                Err(e) => Err(e),
                Ok(header) => Ok(read.push(header)),
            },
        }
    }
}

/// The headers that a value stands for: a list of headers.
pub open spec fn headers_of(value: InputModel) -> Result<Seq<HeaderModel>, Seq<char>> {
    match value {
        InputModel::List(items) => headers_from(items, items.len()),
        _ => Err(invalid_type(value, "a sequence"@)),
    }
}

/// The introspection headers that the first `n` elements of a list stand for.
pub open spec fn introspection_headers_from(items: Seq<InputModel>, n: nat) -> Result<Seq<(Seq<char>, Seq<char>)>, Seq<char>>
    decreases n,
{
    if n == 0 {
        Ok(Seq::empty())
    } else {
        match introspection_headers_from(items, (n - 1) as nat) {
            Err(e) => Err(e),
            Ok(read) => match introspection_header_of(items[n - 1]) {
                Err(e) => Err(e),
                Ok(header) => Ok(read.push(header)),
            },
        }
    }
}

/// The introspection headers that a value stands for: a list of them.
pub open spec fn introspection_headers_of(value: InputModel) -> Result<Seq<(Seq<char>, Seq<char>)>, Seq<char>> {
    match value {
        InputModel::List(items) => introspection_headers_from(items, items.len()),
        _ => Err(invalid_type(value, "a sequence"@)),
    }
}

proof fn lemma_field_index(fields: Seq<(Seq<char>, InputModel)>, key: Seq<char>)
    ensures
        0 <= field_index_from(fields, key, 0) <= fields.len(),
{
    crate::planner::lemma_field_index(fields, key, 0);
}

fn read_required_text(fields: &Vec<(String, InputValue)>, name: &str) -> (r: Result<String, String>)
    ensures
        match r {
            Ok(s) => required_text(fields.deep_view(), name@) == Ok::<Seq<char>, Seq<char>>(s@),
            Err(e) => required_text(fields.deep_view(), name@) == Err::<Seq<char>, Seq<char>>(e@),
        },
{
    proof {
        lemma_field_index(fields.deep_view(), name@);
    }
    match get_field(fields, name) {
        Some(value) => read_text(value),
        None => Err(missing(name)),
    }
}

fn read_optional_text(fields: &Vec<(String, InputValue)>, name: &str) -> (r: Result<Option<String>, String>)
    ensures
        match r {
            Ok(s) => optional_text(fields.deep_view(), name@) == Ok::<Option<Seq<char>>, Seq<char>>(s.deep_view()),
            Err(e) => optional_text(fields.deep_view(), name@) == Err::<Option<Seq<char>>, Seq<char>>(e@),
        },
{
    proof {
        lemma_field_index(fields.deep_view(), name@);
    }
    match get_field(fields, name) {
        Some(value) => read_optional(value),
        None => Ok(None),
    }
}

fn read_header(value: &InputValue) -> (r: Result<Header, String>)
    ensures
        match r {
            Ok(h) => header_of(value@) == Ok::<HeaderModel, Seq<char>>(h.deep_view()),
            Err(e) => header_of(value@) == Err::<HeaderModel, Seq<char>>(e@),
        },
{
    proof {
        lemma_variants(*value);
    }
    match value {
        InputValue::Object(fields) => {
            let name = match read_required_text(fields, "name") {
                Ok(name) => name,
                Err(e) => {
                    return Err(e);
                },
            };
            match read_optional_text(fields, "value") {
                Err(e) => Err(e),
                Ok(Some(value)) => Ok(Header { name, value: ConnectorHeaderValue::Static(value) }),
                Ok(None) => match read_optional_text(fields, "forward") {
                    Err(e) => Err(e),
                    Ok(Some(forward)) => Ok(Header { name, value: ConnectorHeaderValue::Forward(forward) }),
                    Ok(None) => Err(missing("value")),
                },
            }
        },
        _ => Err(wrong_type(value, "struct Header")),
    }
}

fn read_introspection_header(value: &InputValue) -> (r: Result<IntrospectionHeader, String>)
    ensures
        match r {
            Ok(h) => introspection_header_of(value@) == Ok::<(Seq<char>, Seq<char>), Seq<char>>(h.deep_view()),
            Err(e) => introspection_header_of(value@) == Err::<(Seq<char>, Seq<char>), Seq<char>>(e@),
        },
{
    proof {
        lemma_variants(*value);
    }
    match value {
        InputValue::Object(fields) => {
            let name = match read_required_text(fields, "name") {
                Ok(name) => name,
                Err(e) => {
                    return Err(e);
                },
            };
            match read_required_text(fields, "value") {
                Ok(value) => Ok(IntrospectionHeader { name, value }),
                Err(e) => Err(e),
            }
        },
        _ => Err(wrong_type(value, "struct IntrospectionHeader")),
    }
}

proof fn lemma_headers_error(items: Seq<InputModel>, k: nat, n: nat)
    requires
        k <= n,
        headers_from(items, k) is Err,
    ensures
        headers_from(items, n) == headers_from(items, k),
    decreases n,
{
    if k < n {
        lemma_headers_error(items, k, (n - 1) as nat);
    }
}

proof fn lemma_introspection_headers_error(items: Seq<InputModel>, k: nat, n: nat)
    requires
        k <= n,
        introspection_headers_from(items, k) is Err,
    ensures
        introspection_headers_from(items, n) == introspection_headers_from(items, k),
    decreases n,
{
    if k < n {
        lemma_introspection_headers_error(items, k, (n - 1) as nat);
    }
}

/// Reads a list of headers.
#[verifier::loop_isolation(false)]
pub fn read_headers(value: &InputValue) -> (r: Result<Vec<Header>, String>)
    ensures
        match r {
            Ok(h) => headers_of(value@) == Ok::<Seq<HeaderModel>, Seq<char>>(h.deep_view()),
            Err(e) => headers_of(value@) == Err::<Seq<HeaderModel>, Seq<char>>(e@),
        },
{
    proof {
        lemma_variants(*value);
    }
    match value {
        InputValue::List(items) => {
            let mut out: Vec<Header> = Vec::new();
            assert(out.deep_view() =~= Seq::empty());
            let mut i: usize = 0;
            while i < items.len()
                invariant
                    i <= items.len(),
                    headers_from(items.deep_view(), i as nat) == Ok::<Seq<HeaderModel>, Seq<char>>(out.deep_view()),
                decreases items.len() - i,
            {
                assert(items.deep_view()[i as int] == items[i as int]@);
                match read_header(&items[i]) {
                    Ok(header) => {
                        let ghost before = out.deep_view();
                        let ghost model = header.deep_view();
                        out.push(header);
                        assert(out.deep_view() =~= before.push(model));
                    },
                    Err(e) => {
                        proof {
                            lemma_headers_error(items.deep_view(), (i + 1) as nat, items.len() as nat);
                        }
                        return Err(e);
                    },
                }
                i = i + 1;
            }
            Ok(out)
        },
        _ => Err(wrong_type(value, "a sequence")),
    }
}

/// Reads a list of introspection headers.
#[verifier::loop_isolation(false)]
pub fn read_introspection_headers(value: &InputValue) -> (r: Result<Vec<IntrospectionHeader>, String>)
    ensures
        match r {
            Ok(h) => introspection_headers_of(value@) == Ok::<Seq<(Seq<char>, Seq<char>)>, Seq<char>>(h.deep_view()),
            Err(e) => introspection_headers_of(value@) == Err::<Seq<(Seq<char>, Seq<char>)>, Seq<char>>(e@),
        },
{
    proof {
        lemma_variants(*value);
    }
    match value {
        InputValue::List(items) => {
            let mut out: Vec<IntrospectionHeader> = Vec::new();
            assert(out.deep_view() =~= Seq::empty());
            let mut i: usize = 0;
            while i < items.len()
                invariant
                    i <= items.len(),
                    introspection_headers_from(items.deep_view(), i as nat) == Ok::<Seq<(Seq<char>, Seq<char>)>, Seq<char>>(out.deep_view()),
                decreases items.len() - i,
            {
                assert(items.deep_view()[i as int] == items[i as int]@);
                match read_introspection_header(&items[i]) {
                    Ok(header) => {
                        let ghost before = out.deep_view();
                        let ghost model = header.deep_view();
                        out.push(header);
                        assert(out.deep_view() =~= before.push(model));
                    },
                    Err(e) => {
                        proof {
                            lemma_introspection_headers_error(items.deep_view(), (i + 1) as nat, items.len() as nat);
                        }
                        return Err(e);
                    },
                }
                i = i + 1;
            }
            Ok(out)
        },
        _ => Err(wrong_type(value, "a sequence")),
    }
}

/// What is made of a text that has to be a URL, given the message of the
/// error with which it fails to be one, if it fails.
pub open spec fn url_checked(text: Seq<char>, error: Option<Seq<char>>) -> Result<Seq<char>, Seq<char>> {
    match error {
        Some(error) => Err("invalid value: string \""@ + text + "\", expected "@ + error),
        None => Ok(text),
    }
}

/// The text of a value that has to be a URL.
pub open spec fn as_url(value: InputModel) -> Result<Seq<char>, Seq<char>> {
    match as_text(value) {
        Err(e) => Err(e),
        Ok(text) => url_checked(text, url_parse_error(text)),
    }
}

/// Makes the result for a text that has to be a URL: the text, or the
/// message that names the text and says why it is none.
pub fn checked_url(text: String, error: Option<String>) -> (r: Result<String, String>)
    ensures
        match r {
            Ok(s) => url_checked(text@, error.deep_view()) == Ok::<Seq<char>, Seq<char>>(s@),
            Err(e) => url_checked(text@, error.deep_view()) == Err::<Seq<char>, Seq<char>>(e@),
        },
{
    match error {
        Some(error) => {
            let mut message = concat3("invalid value: string \"", text.as_str(), "\", expected ");
            message.append(error.as_str());
            Err(message)
        },
        None => Ok(text),
    }
}

/// Reads a URL.
pub fn read_url(value: &InputValue) -> (r: Result<String, String>)
    ensures
        match r {
            Ok(s) => as_url(value@) == Ok::<Seq<char>, Seq<char>>(s@),
            Err(e) => as_url(value@) == Err::<Seq<char>, Seq<char>>(e@),
        },
{
    match read_text(value) {
        Err(e) => Err(e),
        Ok(text) => {
            let error = match parse_url(text.as_str()) {
                Err(error) => Some(error),
                Ok(_) => None,
            };
            checked_url(text, error)
        },
    }
}

/// The URL of a text that a directive holds, if the text is one.
pub fn to_url(text: &str) -> (r: Option<Url>)
    ensures
        r is Some == url_parse_error(text@) is None,
{
    match parse_url(text) {
        Ok(url) => Some(url),
        Err(_) => None,
    }
}

} // verus!
