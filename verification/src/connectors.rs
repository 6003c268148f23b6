//! The settings of the connectors of a schema, as the `@graphql` and
//! `@openapi` directives give them.

use crate::directives::{
    as_optional_text, as_text, as_url, headers_of, introspection_headers_of, invalid_type, missing_field, pos_text, read_headers,
    read_introspection_headers, read_url, write_pos, ConnectorHeaderValue, Header, HeaderModel, HeaderValueModel, IntrospectionHeader,
};
use crate::document::{Argument, ArgumentModel};
use crate::input::{field_index_from, get_field, lemma_variants, InputModel, InputValue};
use crate::text::{concat2, concat3, same_text};
use vstd::prelude::*;

verus! {

/// How the fields of the generated query type are named.
#[derive(Clone, Copy, Debug, PartialEq, Eq, Structural)]
pub enum OpenApiQueryNamingStrategy {
    /// After the operation's identifier.
    OperationId,
    /// After the schema that the operation returns, where there is one.
    SchemaName,
}

/// How an OpenAPI source is turned into a schema.
#[derive(Debug)]
pub struct OpenApiTransforms {
    pub query_naming: OpenApiQueryNamingStrategy,
}

/// The `@graphql` directive: a GraphQL source.
#[derive(Debug)]
pub struct GraphqlDirective {
    /// The number of the directive in its document. It is given on reading
    /// and not kept anywhere else.
    pub id: Option<u16>,
    pub namespace: Option<String>,
    pub name: Option<String>,
    pub url: String,
    pub headers: Vec<Header>,
    pub introspection_headers: Option<Vec<IntrospectionHeader>>,
}

/// The mathematical model of a `@graphql` directive.
pub struct GraphqlModel {
    pub id: Option<u16>,
    pub namespace: Option<Seq<char>>,
    pub name: Option<Seq<char>>,
    pub url: Seq<char>,
    pub headers: Seq<HeaderModel>,
    pub introspection_headers: Option<Seq<(Seq<char>, Seq<char>)>>,
}

impl DeepView for GraphqlDirective {
    type V = GraphqlModel;

    open spec fn deep_view(&self) -> GraphqlModel {
        GraphqlModel {
            id: self.id,
            namespace: self.namespace.deep_view(),
            name: self.name.deep_view(),
            url: self.url@,
            headers: self.headers.deep_view(),
            introspection_headers: self.introspection_headers.deep_view(),
        }
    }
}

/// The `@openapi` directive: an OpenAPI source.
#[derive(Debug)]
pub struct OpenApiDirective {
    pub id: Option<u16>,
    pub namespace: Option<String>,
    pub url: Option<String>,
    pub schema_url: String,
    pub headers: Vec<Header>,
    pub introspection_headers: Vec<IntrospectionHeader>,
    pub transforms: OpenApiTransforms,
}

/// The mathematical model of an `@openapi` directive.
pub struct OpenApiModel {
    pub id: Option<u16>,
    pub namespace: Option<Seq<char>>,
    pub url: Option<Seq<char>>,
    pub schema_url: Seq<char>,
    pub headers: Seq<HeaderModel>,
    pub introspection_headers: Seq<(Seq<char>, Seq<char>)>,
    pub query_naming: OpenApiQueryNamingStrategy,
}

impl DeepView for OpenApiDirective {
    type V = OpenApiModel;

    open spec fn deep_view(&self) -> OpenApiModel {
        OpenApiModel {
            id: self.id,
            namespace: self.namespace.deep_view(),
            url: self.url.deep_view(),
            schema_url: self.schema_url@,
            headers: self.headers.deep_view(),
            introspection_headers: self.introspection_headers.deep_view(),
            query_naming: self.transforms.query_naming,
        }
    }
}

/// The naming strategy that a value stands for.
pub open spec fn naming_of(value: InputModel) -> Result<OpenApiQueryNamingStrategy, Seq<char>> {
    match as_text(value) {
        Err(_) => Err(invalid_type(value, "enum OpenApiQueryNamingStrategy"@)),
        Ok(text) => if text == "OPERATION_ID"@ {
            Ok(OpenApiQueryNamingStrategy::OperationId)
        } else if text == "SCHEMA_NAME"@ {
            Ok(OpenApiQueryNamingStrategy::SchemaName)
        } else {
            Err("unknown variant `"@ + text + "`, expected `OPERATION_ID` or `SCHEMA_NAME`"@)
        },
    }
}

/// The transforms that a value stands for: an object, whose `queryNaming`
/// is the naming strategy; without it, queries are named after schemas.
pub open spec fn transforms_of(value: InputModel) -> Result<OpenApiQueryNamingStrategy, Seq<char>> {
    match value {
        InputModel::Object(fields) => {
            let i = field_index_from(fields, "queryNaming"@, 0);
            if i < fields.len() {
                naming_of(fields[i].1)
            } else {
                Ok(OpenApiQueryNamingStrategy::SchemaName)
            }
        },
        _ => Err(invalid_type(value, "struct OpenApiTransforms"@)),
    }
}

fn read_naming(value: &InputValue) -> (r: Result<OpenApiQueryNamingStrategy, String>)
    ensures
        match r {
            Ok(n) => naming_of(value@) == Ok::<OpenApiQueryNamingStrategy, Seq<char>>(n),
            Err(e) => naming_of(value@) == Err::<OpenApiQueryNamingStrategy, Seq<char>>(e@),
        },
{
    proof {
        lemma_variants(*value);
    }
    let text = match value {
        InputValue::Text(s) => s,
        InputValue::Enum(s) => s,
        _ => {
            let described = crate::directives::describe_value(value);
            let mut message = concat2("invalid type: ", described.as_str());
            message.append(", expected ");
            message.append("enum OpenApiQueryNamingStrategy");
            return Err(message);
        },
    };
    if same_text(text.as_str(), "OPERATION_ID") {
        Ok(OpenApiQueryNamingStrategy::OperationId)
    } else if same_text(text.as_str(), "SCHEMA_NAME") {
        Ok(OpenApiQueryNamingStrategy::SchemaName)
    } else {
        Err(concat3("unknown variant `", text.as_str(), "`, expected `OPERATION_ID` or `SCHEMA_NAME`"))
    }
}

fn read_transforms(value: &InputValue) -> (r: Result<OpenApiQueryNamingStrategy, String>)
    ensures
        match r {
            Ok(n) => transforms_of(value@) == Ok::<OpenApiQueryNamingStrategy, Seq<char>>(n),
            Err(e) => transforms_of(value@) == Err::<OpenApiQueryNamingStrategy, Seq<char>>(e@),
        },
{
    proof {
        lemma_variants(*value);
    }
    match value {
        InputValue::Object(fields) => {
            proof {
                crate::planner::lemma_field_index(fields.deep_view(), "queryNaming"@, 0);
            }
            match get_field(fields, "queryNaming") {
                Some(naming) => read_naming(naming),
                None => Ok(OpenApiQueryNamingStrategy::SchemaName),
            }
        },
        _ => {
            let described = crate::directives::describe_value(value);
            let mut message = concat2("invalid type: ", described.as_str());
            message.append(", expected ");
            message.append("struct OpenApiTransforms");
            Err(message)
        },
    }
}

/// Which of the two directives is read.
#[derive(Clone, Copy, Debug, PartialEq, Eq, Structural)]
pub enum ConnectorKind {
    Graphql,
    OpenApi,
}

/// What is wrong with the value of an argument of a connector directive, if
/// anything is. Arguments that the directive does not know are passed over.
pub open spec fn argument_error(kind: ConnectorKind, argument: ArgumentModel) -> Option<Seq<char>> {
    let name = argument.name;
    let value = argument.value;
    if name == "namespace"@ || name == "name"@ {
        match as_optional_text(value) {
            Err(e) => Some(e),
            Ok(_) => None,
        }
    } else if name == "url"@ {
        if kind == ConnectorKind::OpenApi && value is Null {
            None
        } else {
            match as_url(value) {
                Err(e) => Some(e),
                Ok(_) => None,
            }
        }
    } else if name == "schema"@ && kind == ConnectorKind::OpenApi {
        match as_text(value) {
            Err(e) => Some(e),
            Ok(_) => None,
        }
    } else if name == "headers"@ {
        match headers_of(value) {
            Err(e) => Some(e),
            Ok(_) => None,
        }
    } else if name == "introspectionHeaders"@ {
        if kind == ConnectorKind::Graphql && value is Null {
            None
        } else {
            match introspection_headers_of(value) {
                Err(e) => Some(e),
                Ok(_) => None,
            }
        }
    } else if name == "transforms"@ && kind == ConnectorKind::OpenApi {
        match transforms_of(value) {
            Err(e) => Some(e),
            Ok(_) => None,
        }
    } else {
        None
    }
}

/// The position of the first argument at or after `from` whose value is
/// wrong; the number of arguments if none is.
pub open spec fn first_wrong_from(kind: ConnectorKind, arguments: Seq<ArgumentModel>, from: int) -> int
    decreases arguments.len() - from,
{
    if from < 0 || from >= arguments.len() {
        arguments.len() as int
    } else if argument_error(kind, arguments[from]) is Some {
        from
    } else {
        first_wrong_from(kind, arguments, from + 1)
    }
}

/// The position of the first argument at or after `from` that has a name;
/// the number of arguments if none has.
pub open spec fn argument_from(arguments: Seq<ArgumentModel>, name: Seq<char>, from: int) -> int
    decreases arguments.len() - from,
{
    if from < 0 || from >= arguments.len() {
        arguments.len() as int
    } else if arguments[from].name == name {
        from
    } else {
        argument_from(arguments, name, from + 1)
    }
}

/// The value of the first argument of a name.
pub open spec fn argument_value(arguments: Seq<ArgumentModel>, name: Seq<char>) -> Option<InputModel> {
    let i = argument_from(arguments, name, 0);
    if i < arguments.len() {
        Some(arguments[i].value)
    } else {
        None
    }
}

/// The message of a connector directive whose arguments are wrong: the
/// first wrong value, with its place; else the first missing field.
pub open spec fn connector_error(kind: ConnectorKind, arguments: Seq<ArgumentModel>) -> Option<Seq<char>> {
    let wrong = first_wrong_from(kind, arguments, 0);
    if wrong < arguments.len() {
        Some(pos_text(arguments[wrong].pos) + argument_error(kind, arguments[wrong])->Some_0)
    } else if kind == ConnectorKind::Graphql && argument_value(arguments, "url"@) is None {
        Some(missing_field("url"@))
    } else if kind == ConnectorKind::OpenApi && argument_value(arguments, "schema"@) is None {
        Some(missing_field("schema"@))
    } else {
        None
    }
}

/// The text of an optional argument.
pub open spec fn optional_argument(arguments: Seq<ArgumentModel>, name: Seq<char>) -> Option<Seq<char>> {
    match argument_value(arguments, name) {
        Some(value) => match as_optional_text(value) {
            Ok(text) => text,
            Err(_) => None,
        },
        None => None,
    }
}

/// The headers of a connector directive; none where the argument is missing.
pub open spec fn headers_argument(arguments: Seq<ArgumentModel>) -> Seq<HeaderModel> {
    match argument_value(arguments, "headers"@) {
        Some(value) => match headers_of(value) {
            Ok(headers) => headers,
            Err(_) => Seq::empty(),
        },
        None => Seq::empty(),
    }
}

/// The introspection headers of a connector directive, where it gives any.
pub open spec fn introspection_argument(arguments: Seq<ArgumentModel>) -> Option<Seq<(Seq<char>, Seq<char>)>> {
    match argument_value(arguments, "introspectionHeaders"@) {
        Some(InputModel::Null) => None,
        Some(value) => match introspection_headers_of(value) {
            Ok(headers) => Some(headers),
            Err(_) => None,
        },
        None => None,
    }
}

/// The `@graphql` directive that arguments stand for, or the message that
/// says why they stand for none.
pub open spec fn graphql_directive_of(arguments: Seq<ArgumentModel>) -> Result<GraphqlModel, Seq<char>> {
    match connector_error(ConnectorKind::Graphql, arguments) {
        Some(message) => Err(message),
        None => Ok(
            GraphqlModel {
                id: None,
                namespace: optional_argument(arguments, "namespace"@),
                name: optional_argument(arguments, "name"@),
                url: as_url(argument_value(arguments, "url"@)->Some_0)->Ok_0,
                headers: headers_argument(arguments),
                introspection_headers: introspection_argument(arguments),
            },
        ),
    }
}

/// The namespace of an `@openapi` directive: `namespace`, or `name` where
/// that is not there.
pub open spec fn openapi_namespace(arguments: Seq<ArgumentModel>) -> Option<Seq<char>> {
    if argument_value(arguments, "namespace"@) is Some {
        optional_argument(arguments, "namespace"@)
    } else {
        optional_argument(arguments, "name"@)
    }
}

/// The `@openapi` directive that arguments stand for, or the message that
/// says why they stand for none.
pub open spec fn openapi_directive_of(arguments: Seq<ArgumentModel>) -> Result<OpenApiModel, Seq<char>> {
    match connector_error(ConnectorKind::OpenApi, arguments) {
        Some(message) => Err(message),
        None => Ok(
            OpenApiModel {
                id: None,
                namespace: openapi_namespace(arguments),
                url: match argument_value(arguments, "url"@) {
                    Some(InputModel::Null) => None,
                    Some(value) => Some(as_url(value)->Ok_0),
                    None => None,
                },
                schema_url: as_text(argument_value(arguments, "schema"@)->Some_0)->Ok_0,
                headers: headers_argument(arguments),
                introspection_headers: match introspection_argument(arguments) {
                    Some(headers) => headers,
                    None => Seq::empty(),
                },
                query_naming: match argument_value(arguments, "transforms"@) {
                    Some(value) => transforms_of(value)->Ok_0,
                    None => OpenApiQueryNamingStrategy::SchemaName,
                },
            },
        ),
    }
}

/// The names of the arguments of the connector directives all differ.
pub proof fn lemma_names_differ()
    ensures
        "namespace"@.len() == 9,
        "name"@.len() == 4,
        "url"@.len() == 3,
        "schema"@.len() == 6,
        "headers"@.len() == 7,
        "introspectionHeaders"@.len() == 20,
        "transforms"@.len() == 10,
{
    reveal_strlit("namespace");
    reveal_strlit("name");
    reveal_strlit("url");
    reveal_strlit("schema");
    reveal_strlit("headers");
    reveal_strlit("introspectionHeaders");
    reveal_strlit("transforms");
}

/// Once no argument is wrong, none of them is.
pub proof fn lemma_none_wrong(kind: ConnectorKind, arguments: Seq<ArgumentModel>, from: int, i: int)
    requires
        0 <= from <= i < arguments.len(),
        first_wrong_from(kind, arguments, from) >= arguments.len(),
    ensures
        argument_error(kind, arguments[i]) is None,
    decreases arguments.len() - from,
{
    if from < i {
        lemma_none_wrong(kind, arguments, from + 1, i);
    }
}

proof fn lemma_argument_from(arguments: Seq<ArgumentModel>, name: Seq<char>, from: int)
    requires
        0 <= from <= arguments.len(),
    ensures
        from <= argument_from(arguments, name, from) <= arguments.len(),
        argument_from(arguments, name, from) < arguments.len() ==> arguments[argument_from(arguments, name, from)].name == name,
    decreases arguments.len() - from,
{
    if from < arguments.len() && arguments[from].name != name {
        lemma_argument_from(arguments, name, from + 1);
    }
}

fn check_argument(kind: ConnectorKind, argument: &Argument) -> (r: Option<String>)
    ensures
        r.deep_view() == argument_error(kind, argument@),
{
    let name = argument.name.as_str();
    let value = &argument.value;
    proof {
        lemma_variants(*value);
    }
    let is_null = match value {
        InputValue::Null => true,
        _ => false,
    };
    let is_openapi = match kind {
        ConnectorKind::OpenApi => true,
        ConnectorKind::Graphql => false,
    };
    if same_text(name, "namespace") || same_text(name, "name") {
        match crate::directives::read_optional(value) {
            Err(e) => Some(e),
            Ok(_) => None,
        }
    } else if same_text(name, "url") {
        if is_openapi && is_null {
            None
        } else {
            match read_url(value) {
                Err(e) => Some(e),
                Ok(_) => None,
            }
        }
    } else if same_text(name, "schema") && is_openapi {
        match crate::directives::read_text(value) {
            Err(e) => Some(e),
            Ok(_) => None,
        }
    } else if same_text(name, "headers") {
        match read_headers(value) {
            Err(e) => Some(e),
            Ok(_) => None,
        }
    } else if same_text(name, "introspectionHeaders") {
        if !is_openapi && is_null {
            None
        } else {
            match read_introspection_headers(value) {
                Err(e) => Some(e),
                Ok(_) => None,
            }
        }
    } else if same_text(name, "transforms") && is_openapi {
        match read_transforms(value) {
            Err(e) => Some(e),
            Ok(_) => None,
        }
    } else {
        None
    }
}

pub(crate) fn find_argument<'a>(arguments: &'a Vec<Argument>, name: &str) -> (r: Option<&'a Argument>)
    ensures
        match r {
            Some(argument) => {
                &&& argument_from(arguments.deep_view(), name@, 0) < arguments.len()
                &&& argument@ == arguments.deep_view()[argument_from(arguments.deep_view(), name@, 0)]
            },
            None => argument_from(arguments.deep_view(), name@, 0) >= arguments.len(),
        },
{
    let mut i: usize = 0;
    while i < arguments.len()
        invariant
            i <= arguments.len(),
            argument_from(arguments.deep_view(), name@, 0) == argument_from(arguments.deep_view(), name@, i as int),
        decreases arguments.len() - i,
    {
        assert(arguments.deep_view()[i as int] == arguments[i as int]@);
        if same_text(arguments[i].name.as_str(), name) {
            return Some(&arguments[i]);
        }
        i = i + 1;
    }
    None
}

/// Looks for what is wrong with the arguments of a connector directive.
fn find_connector_error(kind: ConnectorKind, arguments: &Vec<Argument>) -> (r: Option<String>)
    ensures
        r.deep_view() == connector_error(kind, arguments.deep_view()),
{
    let mut i: usize = 0;
    while i < arguments.len()
        invariant
            i <= arguments.len(),
            first_wrong_from(kind, arguments.deep_view(), 0) == first_wrong_from(kind, arguments.deep_view(), i as int),
        decreases arguments.len() - i,
    {
        assert(arguments.deep_view()[i as int] == arguments[i as int]@);
        match check_argument(kind, &arguments[i]) {
            Some(message) => {
                let place = write_pos(arguments[i].pos);
                return Some(concat2(place.as_str(), message.as_str()));
            },
            None => {},
        }
        i = i + 1;
    }
    match kind {
        ConnectorKind::Graphql => match find_argument(arguments, "url") {
            Some(_) => None,
            None => Some(concat3("missing field `", "url", "`")),
        },
        ConnectorKind::OpenApi => match find_argument(arguments, "schema") {
            Some(_) => None,
            None => Some(concat3("missing field `", "schema", "`")),
        },
    }
}

fn read_optional_argument(arguments: &Vec<Argument>, name: &str) -> (r: Option<String>)
    ensures
        r.deep_view() == optional_argument(arguments.deep_view(), name@),
{
    match find_argument(arguments, name) {
        Some(argument) => match crate::directives::read_optional(&argument.value) {
            Ok(text) => text,
            Err(_) => None,
        },
        None => None,
    }
}

fn read_headers_argument(arguments: &Vec<Argument>) -> (r: Vec<Header>)
    ensures
        r.deep_view() == headers_argument(arguments.deep_view()),
{
    let empty: Vec<Header> = Vec::new();
    assert(empty.deep_view() =~= Seq::empty());
    match find_argument(arguments, "headers") {
        Some(argument) => match read_headers(&argument.value) {
            Ok(headers) => headers,
            Err(_) => empty,
        },
        None => empty,
    }
}

fn read_introspection_argument(arguments: &Vec<Argument>) -> (r: Option<Vec<IntrospectionHeader>>)
    ensures
        r.deep_view() == introspection_argument(arguments.deep_view()),
{
    match find_argument(arguments, "introspectionHeaders") {
        Some(argument) => {
            proof {
                lemma_variants(argument.value);
            }
            match &argument.value {
                InputValue::Null => None,
                value => match read_introspection_headers(value) {
                    Ok(headers) => Some(headers),
                    Err(_) => None,
                },
            }
        },
        None => None,
    }
}

impl GraphqlDirective {
    /// Reads the directive from its arguments. Values are looked at in the
    /// order of the arguments; the first wrong one is reported with its
    /// place. A directive without a URL is reported without a place.
    pub fn from_arguments(arguments: &Vec<Argument>) -> (r: Result<GraphqlDirective, String>)
        ensures
            match r {
                Ok(directive) => graphql_directive_of(arguments.deep_view()) == Ok::<GraphqlModel, Seq<char>>(directive.deep_view()),
                Err(message) => graphql_directive_of(arguments.deep_view()) == Err::<GraphqlModel, Seq<char>>(message@),
            },
    {
        match find_connector_error(ConnectorKind::Graphql, arguments) {
            Some(message) => {
                return Err(message);
            },
            None => {},
        }
        let url = match find_argument(arguments, "url") {
            Some(argument) => {
                proof {
                    let i = argument_from(arguments.deep_view(), "url"@, 0);
                    lemma_argument_from(arguments.deep_view(), "url"@, 0);
                    lemma_none_wrong(ConnectorKind::Graphql, arguments.deep_view(), 0, i);
                    lemma_names_differ();
                }
                match read_url(&argument.value) {
                    Ok(url) => url,
                    Err(e) => {
                        return Err(e);
                    },
                }
            },
            None => {
                return Err(String::new());
            },
        };
        Ok(
            GraphqlDirective {
                id: None,
                namespace: read_optional_argument(arguments, "namespace"),
                name: read_optional_argument(arguments, "name"),
                url,
                headers: read_headers_argument(arguments),
                introspection_headers: read_introspection_argument(arguments),
            },
        )
    }

    /// The headers that are sent with every request.
    pub fn headers(&self) -> (r: &Vec<Header>)
        ensures
            r.deep_view() == self.deep_view().headers,
    {
        &self.headers
    }

    /// The headers that are sent when the source's schema is asked for: the
    /// introspection headers where the directive gives any, even none; else
    /// those of the headers that have a value of their own.
    pub fn introspection_headers(&self) -> (r: Vec<(&str, &str)>)
        ensures
            r.deep_view() == introspection_pairs(self.deep_view()),
    {
        let mut out: Vec<(&str, &str)> = Vec::new();
        assert(out.deep_view() =~= Seq::empty());
        match &self.introspection_headers {
            Some(headers) => {
                let mut i: usize = 0;
                while i < headers.len()
                    invariant
                        i <= headers.len(),
                        out.len() == i,
                        forall|j: int| 0 <= j < i ==> (#[trigger] out[j]).0@ == headers[j].name@ && out[j].1@ == headers[j].value@,
                    decreases headers.len() - i,
                {
                    out.push((headers[i].name.as_str(), headers[i].value.as_str()));
                    i = i + 1;
                }
                assert(out.deep_view() =~= headers.deep_view());
            },
            None => {
                let mut i: usize = 0;
                while i < self.headers.len()
                    invariant
                        i <= self.headers.len(),
                        out.deep_view() == static_headers(self.headers.deep_view(), i as nat),
                    decreases self.headers.len() - i,
                {
                    assert(self.headers.deep_view()[i as int] == self.headers[i as int].deep_view());
                    match &self.headers[i].value {
                        ConnectorHeaderValue::Static(value) => {
                            let ghost before = out.deep_view();
                            out.push((self.headers[i].name.as_str(), value.as_str()));
                            assert(out.deep_view() =~= before.push((self.headers[i as int].name@, value@)));
                        },
                        _ => {},
                    }
                    i = i + 1;
                }
            },
        }
        out
    }

    /// The namespace of the source: `namespace`, or `name` where that is not there.
    pub fn namespace(&self) -> (r: Option<&str>)
        ensures
            r.deep_view() == (match self.deep_view().namespace {
                Some(namespace) => Some(namespace),
                None => self.deep_view().name,
            }),
    {
        match &self.namespace {
            Some(namespace) => Some(namespace.as_str()),
            None => match &self.name {
                Some(name) => Some(name.as_str()),
                None => None,
            },
        }
    }
}

/// The first `n` headers that have a value of their own, as pairs of name and value.
pub open spec fn static_headers(headers: Seq<HeaderModel>, n: nat) -> Seq<(Seq<char>, Seq<char>)>
    decreases n,
{
    if n == 0 {
        Seq::empty()
    } else {
        match headers[n - 1].value {
            HeaderValueModel::Static(value) => static_headers(headers, (n - 1) as nat).push((headers[n - 1].name, value)),
            HeaderValueModel::Forward(_) => static_headers(headers, (n - 1) as nat),
        }
    }
}

/// The headers that are sent when the schema of a GraphQL source is asked for.
pub open spec fn introspection_pairs(directive: GraphqlModel) -> Seq<(Seq<char>, Seq<char>)> {
    match directive.introspection_headers {
        Some(headers) => headers,
        None => static_headers(directive.headers, directive.headers.len()),
    }
}

impl OpenApiDirective {
    /// Reads the directive from its arguments. Values are looked at in the
    /// order of the arguments; the first wrong one is reported with its
    /// place. A directive without a schema is reported without a place.
    pub fn from_arguments(arguments: &Vec<Argument>) -> (r: Result<OpenApiDirective, String>)
        ensures
            match r {
                Ok(directive) => openapi_directive_of(arguments.deep_view()) == Ok::<OpenApiModel, Seq<char>>(directive.deep_view()),
                Err(message) => openapi_directive_of(arguments.deep_view()) == Err::<OpenApiModel, Seq<char>>(message@),
            },
    {
        match find_connector_error(ConnectorKind::OpenApi, arguments) {
            Some(message) => {
                return Err(message);
            },
            None => {},
        }
        let ghost all = arguments.deep_view();
        let schema_url = match find_argument(arguments, "schema") {
            Some(argument) => {
                proof {
                    lemma_argument_from(all, "schema"@, 0);
                    lemma_none_wrong(ConnectorKind::OpenApi, all, 0, argument_from(all, "schema"@, 0));
                    lemma_names_differ();
                }
                match crate::directives::read_text(&argument.value) {
                    Ok(text) => text,
                    Err(e) => {
                        return Err(e);
                    },
                }
            },
            None => {
                return Err(String::new());
            },
        };
        let url = match find_argument(arguments, "url") {
            Some(argument) => {
                proof {
                    lemma_argument_from(all, "url"@, 0);
                    lemma_none_wrong(ConnectorKind::OpenApi, all, 0, argument_from(all, "url"@, 0));
                    lemma_variants(argument.value);
                    lemma_names_differ();
                }
                match &argument.value {
                    InputValue::Null => None,
                    value => match read_url(value) {
                        Ok(url) => Some(url),
                        Err(e) => {
                            return Err(e);
                        },
                    },
                }
            },
            None => None,
        };
        let query_naming = match find_argument(arguments, "transforms") {
            Some(argument) => {
                proof {
                    lemma_argument_from(all, "transforms"@, 0);
                    lemma_none_wrong(ConnectorKind::OpenApi, all, 0, argument_from(all, "transforms"@, 0));
                    lemma_names_differ();
                }
                match read_transforms(&argument.value) {
                    Ok(naming) => naming,
                    Err(e) => {
                        return Err(e);
                    },
                }
            },
            None => OpenApiQueryNamingStrategy::SchemaName,
        };
        let namespace = match find_argument(arguments, "namespace") {
            Some(_) => read_optional_argument(arguments, "namespace"),
            None => read_optional_argument(arguments, "name"),
        };
        let introspection_headers = match read_introspection_argument(arguments) {
            Some(headers) => headers,
            None => {
                let empty: Vec<IntrospectionHeader> = Vec::new();
                assert(empty.deep_view() =~= Seq::empty());
                empty
            },
        };
        Ok(
            OpenApiDirective {
                id: None,
                namespace,
                url,
                schema_url,
                headers: read_headers_argument(arguments),
                introspection_headers,
                transforms: OpenApiTransforms { query_naming },
            },
        )
    }

    /// The headers that are sent with every request.
    pub fn headers(&self) -> (r: &Vec<Header>)
        ensures
            r.deep_view() == self.deep_view().headers,
    {
        &self.headers
    }

    /// The headers that are sent when the source's schema is asked for.
    pub fn introspection_headers(&self) -> (r: Vec<(String, String)>)
        ensures
            r.deep_view() == self.deep_view().introspection_headers,
    {
        let mut out: Vec<(String, String)> = Vec::new();
        let mut i: usize = 0;
        while i < self.introspection_headers.len()
            invariant
                i <= self.introspection_headers.len(),
                out.len() == i,
                forall|j: int| 0 <= j < i ==> (#[trigger] out[j]).0@ == self.introspection_headers[j].name@ && out[j].1@ == self.introspection_headers[j].value@,
            decreases self.introspection_headers.len() - i,
        {
            out.push((self.introspection_headers[i].name.clone(), self.introspection_headers[i].value.clone()));
            i = i + 1;
        }
        assert(out.deep_view() =~= self.introspection_headers.deep_view());
        out
    }
}

} // verus!
