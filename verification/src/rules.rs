//! The rules that read a schema document: the connector directives of its
//! schema definitions, and the `@default` directive of its fields.

use crate::connectors::{graphql_directive_of, openapi_directive_of, GraphqlDirective, GraphqlModel, OpenApiDirective, OpenApiModel};
use crate::document::{
    document_of, parse_schema, Directive, DirectiveModel, DocumentModel, FieldDefinition, FieldModel, SchemaDefinition, ServiceDocument, TypeModel,
};
use crate::input::{lemma_variants, InputModel, InputValue};
use crate::sdl::Pos;
use crate::text::{chars_of, concat2, concat3, contains_text, find_char, first_index_from, same_text, views};
use vstd::prelude::*;

verus! {

/// An error of a rule: where it is, and what it says.
#[derive(Debug)]
pub struct RuleError {
    pub locations: Vec<Pos>,
    pub message: String,
}

/// The mathematical model of a rule's error.
pub struct RuleErrorModel {
    pub locations: Seq<Pos>,
    pub message: Seq<char>,
}

impl DeepView for RuleError {
    type V = RuleErrorModel;

    open spec fn deep_view(&self) -> RuleErrorModel {
        RuleErrorModel { locations: self.locations@, message: self.message@ }
    }
}

/// What the rules have found in a document.
#[derive(Debug)]
pub struct VisitorContext {
    pub errors: Vec<RuleError>,
    pub graphql_directives: Vec<GraphqlDirective>,
    pub openapi_directives: Vec<OpenApiDirective>,
    /// The names of the types that are models.
    pub model_types: Vec<String>,
}

/// The mathematical model of what the rules have found.
pub struct ContextModel {
    pub errors: Seq<RuleErrorModel>,
    pub graphql_directives: Seq<GraphqlModel>,
    pub openapi_directives: Seq<OpenApiModel>,
    pub model_types: Seq<Seq<char>>,
}

impl DeepView for VisitorContext {
    type V = ContextModel;

    open spec fn deep_view(&self) -> ContextModel {
        ContextModel {
            errors: self.errors.deep_view(),
            graphql_directives: self.graphql_directives.deep_view(),
            openapi_directives: self.openapi_directives.deep_view(),
            model_types: views(self.model_types@),
        }
    }
}

impl View for VisitorContext {
    type V = ContextModel;

    open spec fn view(&self) -> ContextModel {
        self.deep_view()
    }
}

/// The name of the `@graphql` directive.
pub const GRAPHQL_DIRECTIVE_NAME: &'static str = "graphql";

/// The name of the `@openapi` directive.
pub const OPENAPI_DIRECTIVE_NAME: &'static str = "openapi";

/// The name of the `@default` directive.
pub const DEFAULT_DIRECTIVE: &'static str = "default";

/// The name of the only argument of the `@default` directive.
pub const VALUE_ARGUMENT: &'static str = "value";

/// The name of the directive that makes a type a model.
pub const MODEL_DIRECTIVE: &'static str = "model";

/// The number that a directive gets: its place among those read before it.
pub open spec fn numbered(n: nat) -> Option<u16> {
    if n <= u16::MAX {
        Some(n as u16)
    } else {
        None
    }
}

/// An error at the place of a directive.
pub open spec fn error_at(pos: Pos, message: Seq<char>) -> RuleErrorModel {
    RuleErrorModel { locations: seq![pos], message }
}

/// What is found after the `@graphql` rule has looked at the first `n`
/// directives of a schema definition: each `@graphql` directive is read and
/// numbered, or reported at its place.
pub open spec fn graphql_seen(directives: Seq<DirectiveModel>, n: nat, found: ContextModel) -> ContextModel
    decreases n,
{
    if n == 0 {
        found
    } else {
        let before = graphql_seen(directives, (n - 1) as nat, found);
        let directive = directives[n - 1];
        if directive.name != GRAPHQL_DIRECTIVE_NAME@ {
            before
        } else {
            match graphql_directive_of(directive.arguments) {
                Ok(read) => ContextModel {
                    graphql_directives: before.graphql_directives.push(GraphqlModel { id: numbered(before.graphql_directives.len()), ..read }),
                    ..before
                },
                Err(message) => ContextModel { errors: before.errors.push(error_at(directive.pos, message)), ..before },
            }
        }
    }
}

/// What is found after the `@openapi` rule has looked at the first `n`
/// directives of a schema definition.
pub open spec fn openapi_seen(directives: Seq<DirectiveModel>, n: nat, found: ContextModel) -> ContextModel
    decreases n,
{
    if n == 0 {
        found
    } else {
        let before = openapi_seen(directives, (n - 1) as nat, found);
        let directive = directives[n - 1];
        if directive.name != OPENAPI_DIRECTIVE_NAME@ {
            before
        } else {
            match openapi_directive_of(directive.arguments) {
                Ok(read) => ContextModel {
                    openapi_directives: before.openapi_directives.push(OpenApiModel { id: numbered(before.openapi_directives.len()), ..read }),
                    ..before
                },
                Err(message) => ContextModel { errors: before.errors.push(error_at(directive.pos, message)), ..before },
            }
        }
    }
}

fn number(n: usize) -> (r: Option<u16>)
    ensures
        r == numbered(n as nat),
{
    if n <= 0xffff {
        Some(n as u16)
    } else {
        None
    }
}

impl VisitorContext {
    /// Reports an error.
    pub fn report_error(&mut self, locations: Vec<Pos>, message: String)
        ensures
            final(self)@ == (ContextModel { errors: old(self)@.errors.push(RuleErrorModel { locations: locations@, message: message@ }), ..old(self)@ }),
    {
        let ghost before = self.errors.deep_view();
        let ghost model = RuleErrorModel { locations: locations@, message: message@ };
        self.errors.push(RuleError { locations, message });
        assert(self.errors.deep_view() =~= before.push(model));
    }
}

fn one_place(pos: Pos) -> (r: Vec<Pos>)
    ensures
        r@ == seq![pos],
{
    let mut r: Vec<Pos> = Vec::new();
    r.push(pos);
    assert(r@ =~= seq![pos]);
    r
}

/// The rule that reads the `@graphql` directives of a schema.
#[derive(Debug)]
pub struct GraphqlVisitor;

impl GraphqlVisitor {
    /// Looks at the directives of a schema definition.
    pub fn enter_schema(&mut self, ctx: &mut VisitorContext, doc: &SchemaDefinition)
        ensures
            final(ctx)@ == graphql_seen(doc.deep_view(), doc.directives.len() as nat, old(ctx)@),
    {
        let mut i: usize = 0;
        while i < doc.directives.len()
            invariant
                i <= doc.directives.len(),
                ctx@ == graphql_seen(doc.deep_view(), i as nat, old(ctx)@),
            decreases doc.directives.len() - i,
        {
            let directive = &doc.directives[i];
            assert(doc.deep_view()[i as int] == directive@);
            if same_text(directive.name.as_str(), GRAPHQL_DIRECTIVE_NAME) {
                match GraphqlDirective::from_arguments(&directive.arguments) {
                    Ok(parsed_directive) => {
                        let mut parsed_directive = parsed_directive;
                        parsed_directive.id = number(ctx.graphql_directives.len());
                        let ghost before = ctx.graphql_directives.deep_view();
                        let ghost model = parsed_directive.deep_view();
                        ctx.graphql_directives.push(parsed_directive);
                        assert(ctx.graphql_directives.deep_view() =~= before.push(model));
                    },
                    Err(err) => {
                        ctx.report_error(one_place(directive.pos), err);
                    },
                }
            }
            i = i + 1;
        }
    }
}

/// The rule that reads the `@openapi` directives of a schema.
#[derive(Debug)]
pub struct OpenApiVisitor;

impl OpenApiVisitor {
    /// Looks at the directives of a schema definition.
    pub fn enter_schema(&mut self, ctx: &mut VisitorContext, doc: &SchemaDefinition)
        ensures
            final(ctx)@ == openapi_seen(doc.deep_view(), doc.directives.len() as nat, old(ctx)@),
    {
        let mut i: usize = 0;
        while i < doc.directives.len()
            invariant
                i <= doc.directives.len(),
                ctx@ == openapi_seen(doc.deep_view(), i as nat, old(ctx)@),
            decreases doc.directives.len() - i,
        {
            let directive = &doc.directives[i];
            assert(doc.deep_view()[i as int] == directive@);
            if same_text(directive.name.as_str(), OPENAPI_DIRECTIVE_NAME) {
                match OpenApiDirective::from_arguments(&directive.arguments) {
                    Ok(parsed_directive) => {
                        let mut parsed_directive = parsed_directive;
                        parsed_directive.id = number(ctx.openapi_directives.len());
                        let ghost before = ctx.openapi_directives.deep_view();
                        let ghost model = parsed_directive.deep_view();
                        ctx.openapi_directives.push(parsed_directive);
                        assert(ctx.openapi_directives.deep_view() =~= before.push(model));
                    },
                    Err(err) => {
                        ctx.report_error(one_place(directive.pos), err);
                    },
                }
            }
            i = i + 1;
        }
    }
}

/// The position of the first directive at or after `from` that has a name;
/// the number of directives if none has.
pub open spec fn directive_from(directives: Seq<DirectiveModel>, name: Seq<char>, from: int) -> int
    decreases directives.len() - from,
{
    if from < 0 || from >= directives.len() {
        directives.len() as int
    } else if directives[from].name == name {
        from
    } else {
        directive_from(directives, name, from + 1)
    }
}

pub(crate) fn find_directive<'a>(directives: &'a Vec<Directive>, name: &str) -> (r: Option<&'a Directive>)
    ensures
        match r {
            Some(d) => directive_from(directives.deep_view(), name@, 0) < directives.len() && d@ == directives.deep_view()[directive_from(
                directives.deep_view(),
                name@,
                0,
            )],
            None => directive_from(directives.deep_view(), name@, 0) >= directives.len(),
        },
{
    let mut i: usize = 0;
    while i < directives.len()
        invariant
            i <= directives.len(),
            directive_from(directives.deep_view(), name@, 0) == directive_from(directives.deep_view(), name@, i as int),
        decreases directives.len() - i,
    {
        assert(directives.deep_view()[i as int] == directives[i as int]@);
        if same_text(directives[i].name.as_str(), name) {
            return Some(&directives[i]);
        }
        i = i + 1;
    }
    None
}

/// Whether a number is written as a whole number.
pub open spec fn is_whole(n: Seq<char>) -> bool {
    first_index_from(n, '.', 0) >= n.len() && first_index_from(n, 'e', 0) >= n.len() && first_index_from(n, 'E', 0) >= n.len()
}

/// Whether a value is a value of a built-in scalar type; of any other type
/// every value counts as one.
pub open spec fn fits_scalar(base: Seq<char>, value: InputModel) -> bool {
    if base == "String"@ || base == "ID"@ {
        value is Text
    } else if base == "Int"@ {
        value is Number && is_whole(value->Number_0)
    } else if base == "Float"@ {
        value is Number
    } else if base == "Boolean"@ {
        value is Boolean
    } else {
        true
    }
}

/// What is wrong with the type of a default value, if anything is: `null`
/// does not fit a type that is required, a value that is no list does not
/// fit a list, and a value has to fit a built-in scalar.
pub open spec fn default_type_error(field: FieldModel, value: InputModel) -> Option<Seq<char>> {
    let text = field.ty.text;
    let required = text.len() > 0 && text.last() == '!';
    let list = text.len() > 0 && text[0] == '[';
    let fits = if value is Null {
        !required
    } else if list {
        value is List
    } else {
        fits_scalar(field.ty.base, value)
    };
    if fits {
        None
    } else {
        Some("\""@ + field.name + "\", expected type \""@ + (if list { text } else { field.ty.base }) + "\""@)
    }
}

/// The message for a default on a field that refers to a model.
pub const DEFAULT_ON_MODEL: &'static str = "The @default directive is not accepted on fields referring to other models";

/// The message for a default with other arguments than a single value.
pub const DEFAULT_ARGUMENTS: &'static str = "The @default directive takes a single `value` argument";

/// The errors of the `@default` directive of a field, all at the place of
/// the directive: a field that refers to a model takes no default; the `id`
/// field takes none; the directive takes a single argument, `value`, whose
/// value has to fit the field's type.
pub open spec fn default_errors(model_types: Seq<Seq<char>>, field: FieldModel) -> Seq<RuleErrorModel> {
    let i = directive_from(field.directives, DEFAULT_DIRECTIVE@, 0);
    if i >= field.directives.len() {
        Seq::empty()
    } else {
        let directive = field.directives[i];
        let on_model = if model_types.contains(field.ty.base) {
            seq![error_at(directive.pos, DEFAULT_ON_MODEL@)]
        } else {
            Seq::empty()
        };
        let on_id = if field.name == "id"@ {
            seq![error_at(directive.pos, "The @default directive is not accepted on the `"@ + field.name + "` field"@)]
        } else {
            Seq::empty()
        };
        let on_value = if directive.arguments.len() == 1 && directive.arguments[0].name == VALUE_ARGUMENT@ {
            match default_type_error(field, directive.arguments[0].value) {
                Some(err) => seq![error_at(directive.pos, "The @default value is of a wrong type: "@ + err)],
                None => Seq::empty(),
            }
        } else {
            seq![error_at(directive.pos, DEFAULT_ARGUMENTS@)]
        };
        on_model + on_id + on_value
    }
}

fn scalar_fits(base: &str, value: &InputValue) -> (r: bool)
    ensures
        r == fits_scalar(base@, value@),
{
    proof {
        lemma_variants(*value);
    }
    if same_text(base, "String") || same_text(base, "ID") {
        match value {
            InputValue::Text(_) => true,
            _ => false,
        }
    } else if same_text(base, "Int") {
        match value {
            InputValue::Number(n) => {
                let chars = chars_of(n.as_str());
                find_char(&chars, '.', 0) >= chars.len() && find_char(&chars, 'e', 0) >= chars.len() && find_char(&chars, 'E', 0) >= chars.len()
            },
            _ => false,
        }
    } else if same_text(base, "Float") {
        match value {
            InputValue::Number(_) => true,
            _ => false,
        }
    } else if same_text(base, "Boolean") {
        match value {
            InputValue::Boolean(_) => true,
            _ => false,
        }
    } else {
        true
    }
}

fn check_default_type(field: &FieldDefinition, value: &InputValue) -> (r: Option<String>)
    ensures
        r.deep_view() == default_type_error(field@, value@),
{
    proof {
        lemma_variants(*value);
    }
    let text = chars_of(field.ty.text.as_str());
    let required = text.len() > 0 && text[text.len() - 1] == '!';
    let list = text.len() > 0 && text[0] == '[';
    let is_null = match value {
        InputValue::Null => true,
        _ => false,
    };
    let is_list = match value {
        InputValue::List(_) => true,
        _ => false,
    };
    let fits = if is_null {
        !required
    } else if list {
        is_list
    } else {
        scalar_fits(field.ty.base.as_str(), value)
    };
    if fits {
        None
    } else {
        let mut message = concat3("\"", field.name.as_str(), "\", expected type \"");
        if list {
            message.append(field.ty.text.as_str());
        } else {
            message.append(field.ty.base.as_str());
        }
        message.append("\"");
        Some(message)
    }
}

/// The rule of the `@default` directive.
#[derive(Debug)]
pub struct DefaultDirective;

impl DefaultDirective {
    /// The definition of the directive.
    pub fn directives(&self) -> (r: String)
        ensures
            r@ == "\n        directive @default(value: String) on FIELD_DEFINITION\n        "@,
    {
        "\n        directive @default(value: String) on FIELD_DEFINITION\n        ".to_owned()
    }

    /// Looks at a field.
    pub fn enter_field(&mut self, ctx: &mut VisitorContext, field: &FieldDefinition)
        ensures
            final(ctx)@ == (ContextModel { errors: old(ctx)@.errors + default_errors(old(ctx)@.model_types, field@), ..old(ctx)@ }),
    {
        let ghost start = ctx@;
        match find_directive(&field.directives, DEFAULT_DIRECTIVE) {
            None => {
                assert(ctx@.errors + Seq::<RuleErrorModel>::empty() =~= ctx@.errors);
            },
            Some(directive) => {
                let ghost on_model = if start.model_types.contains(field@.ty.base) {
                    seq![error_at(directive.pos, DEFAULT_ON_MODEL@)]
                } else {
                    Seq::empty()
                };
                if contains_text(&ctx.model_types, field.ty.base.as_str()) {
                    ctx.report_error(one_place(directive.pos), DEFAULT_ON_MODEL.to_owned());
                }
                assert(ctx@.errors =~= start.errors + on_model);
                let ghost on_id = if field@.name == "id"@ {
                    seq![error_at(directive.pos, "The @default directive is not accepted on the `"@ + field@.name + "` field"@)]
                } else {
                    Seq::empty()
                };
                if same_text(field.name.as_str(), "id") {
                    ctx.report_error(
                        one_place(directive.pos),
                        concat3("The @default directive is not accepted on the `", field.name.as_str(), "` field"),
                    );
                }
                assert(ctx@.errors =~= start.errors + on_model + on_id);
                if directive.arguments.len() == 1 && same_text(directive.arguments[0].name.as_str(), VALUE_ARGUMENT) {
                    assert(directive@.arguments[0] == directive.arguments[0]@);
                    match check_default_type(field, &directive.arguments[0].value) {
                        Some(err) => {
                            ctx.report_error(one_place(directive.pos), concat2("The @default value is of a wrong type: ", err.as_str()));
                            assert(ctx@.errors =~= start.errors + default_errors(start.model_types, field@));
                        },
                        None => {
                            assert(ctx@.errors =~= start.errors + default_errors(start.model_types, field@));
                        },
                    }
                } else {
                    if directive.arguments.len() == 1 {
                        assert(directive@.arguments[0] == directive.arguments[0]@);
                    }
                    ctx.report_error(one_place(directive.pos), DEFAULT_ARGUMENTS.to_owned());
                    assert(ctx@.errors =~= start.errors + default_errors(start.model_types, field@));
                }
            },
        }
    }
}

/// The names of the first `n` types that are models.
pub open spec fn model_names(types: Seq<TypeModel>, n: nat) -> Seq<Seq<char>>
    decreases n,
{
    if n == 0 {
        Seq::empty()
    } else if directive_from(types[n - 1].directives, MODEL_DIRECTIVE@, 0) < types[n - 1].directives.len() {
        model_names(types, (n - 1) as nat).push(types[n - 1].name)
    } else {
        model_names(types, (n - 1) as nat)
    }
}

/// What is found after the `@graphql` rule has looked at the first `n`
/// schema definitions of a document.
pub open spec fn graphql_seen_all(schemas: Seq<Seq<DirectiveModel>>, n: nat, found: ContextModel) -> ContextModel
    decreases n,
{
    if n == 0 {
        found
    } else {
        graphql_seen(schemas[n - 1], schemas[n - 1].len(), graphql_seen_all(schemas, (n - 1) as nat, found))
    }
}

/// What is found after the `@openapi` rule has looked at the first `n`
/// schema definitions of a document.
pub open spec fn openapi_seen_all(schemas: Seq<Seq<DirectiveModel>>, n: nat, found: ContextModel) -> ContextModel
    decreases n,
{
    if n == 0 {
        found
    } else {
        openapi_seen(schemas[n - 1], schemas[n - 1].len(), openapi_seen_all(schemas, (n - 1) as nat, found))
    }
}

/// The errors of the `@default` directives of the first `n` fields.
pub open spec fn default_errors_of_fields(model_types: Seq<Seq<char>>, fields: Seq<FieldModel>, n: nat) -> Seq<RuleErrorModel>
    decreases n,
{
    if n == 0 {
        Seq::empty()
    } else {
        default_errors_of_fields(model_types, fields, (n - 1) as nat) + default_errors(model_types, fields[n - 1])
    }
}

/// The errors of the `@default` directives of the fields of the first `n` types.
pub open spec fn default_errors_of_types(model_types: Seq<Seq<char>>, types: Seq<TypeModel>, n: nat) -> Seq<RuleErrorModel>
    decreases n,
{
    if n == 0 {
        Seq::empty()
    } else {
        default_errors_of_types(model_types, types, (n - 1) as nat) + default_errors_of_fields(
            model_types,
            types[n - 1].fields,
            types[n - 1].fields.len(),
        )
    }
}

/// What the rules find in a document: the `@graphql` rule goes first, then
/// the `@openapi` rule, then the rule of `@default`.
pub open spec fn visited(doc: DocumentModel) -> ContextModel {
    let start = ContextModel {
        errors: Seq::empty(),
        graphql_directives: Seq::empty(),
        openapi_directives: Seq::empty(),
        model_types: model_names(doc.types, doc.types.len()),
    };
    let connectors = openapi_seen_all(doc.schemas, doc.schemas.len(), graphql_seen_all(doc.schemas, doc.schemas.len(), start));
    ContextModel { errors: connectors.errors + default_errors_of_types(start.model_types, doc.types, doc.types.len()), ..connectors }
}

/// Why a document gives no registry.
#[derive(Debug)]
pub enum Error {
    /// The text is no document.
    Parser,
    /// The rules have found errors.
    Validation(Vec<RuleError>),
}

impl Error {
    /// The errors that the rules have found, if that is why there is no registry.
    pub fn validation_errors(self) -> (r: Option<Vec<RuleError>>)
        ensures
            match self {
                Error::Validation(errors) => r == Some(errors),
                Error::Parser => r is None,
            },
    {
        match self {
            Error::Validation(errors) => Some(errors),
            Error::Parser => None,
        }
    }
}

impl VisitorContext {
    /// What is known of a document before any rule has looked at it: which
    /// of its types are models.
    pub fn new(doc: &ServiceDocument) -> (r: VisitorContext)
        ensures
            r@ == (ContextModel {
                errors: Seq::empty(),
                graphql_directives: Seq::empty(),
                openapi_directives: Seq::empty(),
                model_types: model_names(doc@.types, doc@.types.len()),
            }),
    {
        let mut model_types: Vec<String> = Vec::new();
        assert(views(model_types@) =~= Seq::empty());
        let mut i: usize = 0;
        while i < doc.types.len()
            invariant
                i <= doc.types.len(),
                views(model_types@) == model_names(doc@.types, i as nat),
            decreases doc.types.len() - i,
        {
            assert(doc@.types[i as int] == doc.types[i as int]@);
            match find_directive(&doc.types[i].directives, MODEL_DIRECTIVE) {
                Some(_) => {
                    let ghost before = views(model_types@);
                    model_types.push(doc.types[i].name.clone());
                    assert(views(model_types@) =~= before.push(doc.types[i as int].name@));
                },
                None => {},
            }
            i = i + 1;
        }
        let errors: Vec<RuleError> = Vec::new();
        let graphql_directives: Vec<GraphqlDirective> = Vec::new();
        let openapi_directives: Vec<OpenApiDirective> = Vec::new();
        assert(errors.deep_view() =~= Seq::empty());
        assert(graphql_directives.deep_view() =~= Seq::empty());
        assert(openapi_directives.deep_view() =~= Seq::empty());
        VisitorContext { errors, graphql_directives, openapi_directives, model_types }
    }
}

/// Lets the rules look at a document.
pub fn visit(ctx: &mut VisitorContext, doc: &ServiceDocument)
    requires
        old(ctx)@ == (ContextModel {
            errors: Seq::empty(),
            graphql_directives: Seq::empty(),
            openapi_directives: Seq::empty(),
            model_types: model_names(doc@.types, doc@.types.len()),
        }),
    ensures
        final(ctx)@ == visited(doc@),
{
    let ghost start = ctx@;
    let mut graphql = GraphqlVisitor;
    let mut i: usize = 0;
    while i < doc.schemas.len()
        invariant
            i <= doc.schemas.len(),
            ctx@ == graphql_seen_all(doc@.schemas, i as nat, start),
        decreases doc.schemas.len() - i,
    {
        assert(doc@.schemas[i as int] == doc.schemas[i as int].deep_view());
        graphql.enter_schema(ctx, &doc.schemas[i]);
        i = i + 1;
    }
    let ghost after_graphql = ctx@;
    let mut openapi = OpenApiVisitor;
    i = 0;
    while i < doc.schemas.len()
        invariant
            i <= doc.schemas.len(),
            ctx@ == openapi_seen_all(doc@.schemas, i as nat, after_graphql),
        decreases doc.schemas.len() - i,
    {
        assert(doc@.schemas[i as int] == doc.schemas[i as int].deep_view());
        openapi.enter_schema(ctx, &doc.schemas[i]);
        i = i + 1;
    }
    let ghost connectors = ctx@;
    proof {
        lemma_graphql_keeps_models(doc@.schemas, doc@.schemas.len(), start);
        lemma_openapi_keeps_models(doc@.schemas, doc@.schemas.len(), after_graphql);
    }
    let mut rule = DefaultDirective;
    let mut t: usize = 0;
    assert(ctx@.errors + Seq::<RuleErrorModel>::empty() =~= ctx@.errors);
    while t < doc.types.len()
        invariant
            t <= doc.types.len(),
            connectors.model_types == start.model_types,
            ctx@ == (ContextModel { errors: connectors.errors + default_errors_of_types(start.model_types, doc@.types, t as nat), ..connectors }),
        decreases doc.types.len() - t,
    {
        let ty = &doc.types[t];
        assert(doc@.types[t as int] == ty@);
        let ghost before = ctx@;
        let mut f: usize = 0;
        assert(before.errors + Seq::<RuleErrorModel>::empty() =~= before.errors);
        while f < ty.fields.len()
            invariant
                f <= ty.fields.len(),
                before.model_types == start.model_types,
                ctx@ == (ContextModel { errors: before.errors + default_errors_of_fields(start.model_types, ty@.fields, f as nat), ..before }),
            decreases ty.fields.len() - f,
        {
            assert(ty@.fields[f as int] == ty.fields[f as int]@);
            let ghost so_far = ctx@.errors;
            rule.enter_field(ctx, &ty.fields[f]);
            assert(ctx@.errors =~= before.errors + default_errors_of_fields(start.model_types, ty@.fields, (f + 1) as nat));
            f = f + 1;
        }
        assert(ctx@.errors =~= connectors.errors + default_errors_of_types(start.model_types, doc@.types, (t + 1) as nat));
        t = t + 1;
    }
}

/// The `@graphql` rule leaves the model types as they are.
pub proof fn lemma_graphql_keeps_models(schemas: Seq<Seq<DirectiveModel>>, n: nat, found: ContextModel)
    ensures
        graphql_seen_all(schemas, n, found).model_types == found.model_types,
    decreases n,
{
    if n > 0 {
        lemma_graphql_keeps_models(schemas, (n - 1) as nat, found);
        lemma_graphql_seen_keeps_models(schemas[n - 1], schemas[n - 1].len(), graphql_seen_all(schemas, (n - 1) as nat, found));
    }
}

proof fn lemma_graphql_seen_keeps_models(directives: Seq<DirectiveModel>, n: nat, found: ContextModel)
    ensures
        graphql_seen(directives, n, found).model_types == found.model_types,
    decreases n,
{
    if n > 0 {
        lemma_graphql_seen_keeps_models(directives, (n - 1) as nat, found);
    }
}

/// The `@openapi` rule leaves the model types as they are.
pub proof fn lemma_openapi_keeps_models(schemas: Seq<Seq<DirectiveModel>>, n: nat, found: ContextModel)
    ensures
        openapi_seen_all(schemas, n, found).model_types == found.model_types,
    decreases n,
{
    if n > 0 {
        lemma_openapi_keeps_models(schemas, (n - 1) as nat, found);
        lemma_openapi_seen_keeps_models(schemas[n - 1], schemas[n - 1].len(), openapi_seen_all(schemas, (n - 1) as nat, found));
    }
}

proof fn lemma_openapi_seen_keeps_models(directives: Seq<DirectiveModel>, n: nat, found: ContextModel)
    ensures
        openapi_seen(directives, n, found).model_types == found.model_types,
    decreases n,
{
    if n > 0 {
        lemma_openapi_seen_keeps_models(directives, (n - 1) as nat, found);
    }
}

/// Reads a schema document and lets the rules look at it. The result is
/// what the rules have found, if they have found no error.
pub fn parse_registry(schema: &str) -> (r: Result<VisitorContext, Error>)
    ensures
        match r {
            Ok(ctx) => document_of(schema@) is Some && ctx@ == visited(document_of(schema@)->Some_0) && ctx@.errors.len() == 0,
            Err(Error::Parser) => document_of(schema@) is None,
            Err(Error::Validation(errors)) => document_of(schema@) is Some && errors.deep_view() == visited(document_of(schema@)->Some_0).errors
                && errors.len() > 0,
        },
{
    let doc = match parse_schema(schema) {
        Some(doc) => doc,
        None => {
            return Err(Error::Parser);
        },
    };
    let mut ctx = VisitorContext::new(&doc);
    visit(&mut ctx, &doc);
    if ctx.errors.len() > 0 {
        let VisitorContext { errors, .. } = ctx;
        Err(Error::Validation(errors))
    } else {
        Ok(ctx)
    }
}

} // verus!
