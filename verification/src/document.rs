//! Schema documents: the schema definitions and object types of a document,
//! with their directives.

use crate::input::{InputModel, InputValue};
use crate::sdl::{
    is_name_start, lemma_name_end, lemma_skip_from, lemma_value_from, line_feeds, column_offset, name_end, parse_value, position_at, read_name_end, skip,
    skip_from, value_from, Pos,
};
use crate::text::{chars_of, concat2, concat3, find_char, first_index_from, same_text, text_between};
use vstd::prelude::*;

verus! {

/// An argument of a directive, with the place of its value.
#[derive(Debug)]
pub struct Argument {
    pub name: String,
    pub pos: Pos,
    pub value: InputValue,
}

/// The mathematical model of an argument.
pub struct ArgumentModel {
    pub name: Seq<char>,
    pub pos: Pos,
    pub value: InputModel,
}

impl DeepView for Argument {
    type V = ArgumentModel;

    open spec fn deep_view(&self) -> ArgumentModel {
        ArgumentModel { name: self.name@, pos: self.pos, value: self.value@ }
    }
}

impl View for Argument {
    type V = ArgumentModel;

    open spec fn view(&self) -> ArgumentModel {
        self.deep_view()
    }
}

/// A directive, with the place of its `@`.
#[derive(Debug)]
pub struct Directive {
    pub name: String,
    pub pos: Pos,
    pub arguments: Vec<Argument>,
}

/// The mathematical model of a directive.
pub struct DirectiveModel {
    pub name: Seq<char>,
    pub pos: Pos,
    pub arguments: Seq<ArgumentModel>,
}

impl DeepView for Directive {
    type V = DirectiveModel;

    open spec fn deep_view(&self) -> DirectiveModel {
        DirectiveModel { name: self.name@, pos: self.pos, arguments: self.arguments.deep_view() }
    }
}

impl View for Directive {
    type V = DirectiveModel;

    open spec fn view(&self) -> DirectiveModel {
        self.deep_view()
    }
}

/// The type of a field: the named type at its core, and the type as it is written.
#[derive(Debug)]
pub struct TypeRef {
    pub base: String,
    pub text: String,
}

/// The mathematical model of a field's type.
pub struct TypeRefModel {
    pub base: Seq<char>,
    pub text: Seq<char>,
}

impl DeepView for TypeRef {
    type V = TypeRefModel;

    open spec fn deep_view(&self) -> TypeRefModel {
        TypeRefModel { base: self.base@, text: self.text@ }
    }
}

impl View for TypeRef {
    type V = TypeRefModel;

    open spec fn view(&self) -> TypeRefModel {
        self.deep_view()
    }
}

/// A field of an object type.
#[derive(Debug)]
pub struct FieldDefinition {
    pub name: String,
    pub ty: TypeRef,
    pub directives: Vec<Directive>,
}

/// The mathematical model of a field.
pub struct FieldModel {
    pub name: Seq<char>,
    pub ty: TypeRefModel,
    pub directives: Seq<DirectiveModel>,
}

impl DeepView for FieldDefinition {
    type V = FieldModel;

    open spec fn deep_view(&self) -> FieldModel {
        FieldModel { name: self.name@, ty: self.ty@, directives: self.directives.deep_view() }
    }
}

impl View for FieldDefinition {
    type V = FieldModel;

    open spec fn view(&self) -> FieldModel {
        self.deep_view()
    }
}

/// An object type.
#[derive(Debug)]
pub struct TypeDefinition {
    pub name: String,
    pub directives: Vec<Directive>,
    pub fields: Vec<FieldDefinition>,
}

/// The mathematical model of an object type.
pub struct TypeModel {
    pub name: Seq<char>,
    pub directives: Seq<DirectiveModel>,
    pub fields: Seq<FieldModel>,
}

impl DeepView for TypeDefinition {
    type V = TypeModel;

    open spec fn deep_view(&self) -> TypeModel {
        TypeModel { name: self.name@, directives: self.directives.deep_view(), fields: self.fields.deep_view() }
    }
}

impl View for TypeDefinition {
    type V = TypeModel;

    open spec fn view(&self) -> TypeModel {
        self.deep_view()
    }
}

/// A schema definition or extension.
#[derive(Debug)]
pub struct SchemaDefinition {
    pub directives: Vec<Directive>,
}

/// A document: its schema definitions and its object types, in their order.
#[derive(Debug)]
pub struct ServiceDocument {
    pub schemas: Vec<SchemaDefinition>,
    pub types: Vec<TypeDefinition>,
}

/// The mathematical model of a document.
pub struct DocumentModel {
    pub schemas: Seq<Seq<DirectiveModel>>,
    pub types: Seq<TypeModel>,
}

impl DeepView for SchemaDefinition {
    type V = Seq<DirectiveModel>;

    open spec fn deep_view(&self) -> Seq<DirectiveModel> {
        self.directives.deep_view()
    }
}

impl DeepView for ServiceDocument {
    type V = DocumentModel;

    open spec fn deep_view(&self) -> DocumentModel {
        DocumentModel { schemas: self.schemas.deep_view(), types: self.types.deep_view() }
    }
}

impl View for ServiceDocument {
    type V = DocumentModel;

    open spec fn view(&self) -> DocumentModel {
        self.deep_view()
    }
}

/// The place of the character at a position of a text.
pub open spec fn pos_of(t: Seq<char>, i: int) -> Pos {
    Pos { line: (line_feeds(t, i) + 1) as usize, column: (column_offset(t, i) + 1) as usize }
}

/// The arguments whose opening parenthesis stands before `i`, read on from
/// those that have been read already.
pub open spec fn arguments_from(t: Seq<char>, i: int, read: Seq<ArgumentModel>) -> Option<(Seq<ArgumentModel>, int)>
    decreases t.len() - i,
{
    let j = skip_from(t, i);
    if i < 0 || j < i || j >= t.len() {
        None
    } else if t[j] == ')' {
        Some((read, j + 1))
    } else if is_name_start(t[j]) {
        let e = name_end(t, j);
        let c = skip_from(t, e);
        if j < e <= c < t.len() && t[c] == ':' {
            match value_from(t, c + 1) {
                Some((value, end)) => if c < end <= t.len() {
                    arguments_from(
                        t,
                        end,
                        read.push(ArgumentModel { name: t.subrange(j, e), pos: pos_of(t, skip_from(t, c + 1)), value }),
                    )
                } else {
                    None
                },
                None => None,
            }
        } else {
            None
        }
    } else {
        None
    }
}

/// The directives that start at or after `i`, read on from those that have
/// been read already, and the position behind the last of them.
pub open spec fn directives_from(t: Seq<char>, i: int, read: Seq<DirectiveModel>) -> Option<(Seq<DirectiveModel>, int)>
    decreases t.len() - i,
{
    let j = skip_from(t, i);
    if i < 0 || j < i {
        None
    } else if j < t.len() && t[j] == '@' {
        let e = name_end(t, j + 1);
        let p = skip_from(t, e);
        if !(j + 1 < e <= p <= t.len()) {
            None
        } else if p < t.len() && t[p] == '(' {
            match arguments_from(t, p + 1, Seq::empty()) {
                Some((arguments, end)) => if p < end <= t.len() {
                    directives_from(t, end, read.push(DirectiveModel { name: t.subrange(j + 1, e), pos: pos_of(t, j), arguments }))
                } else {
                    None
                },
                None => None,
            }
        } else {
            directives_from(t, e, read.push(DirectiveModel { name: t.subrange(j + 1, e), pos: pos_of(t, j), arguments: Seq::empty() }))
        }
    } else {
        Some((read, j))
    }
}

proof fn lemma_arguments_from(t: Seq<char>, i: int, read: Seq<ArgumentModel>)
    requires
        0 <= i <= t.len(),
    ensures
        arguments_from(t, i, read) is Some ==> i < arguments_from(t, i, read)->Some_0.1 <= t.len(),
    decreases t.len() - i,
{
    lemma_skip_from(t, i);
    let j = skip_from(t, i);
    if j < t.len() && t[j] != ')' && is_name_start(t[j]) {
        let e = name_end(t, j);
        let c = skip_from(t, e);
        if j < e <= c < t.len() && t[c] == ':' {
            match value_from(t, c + 1) {
                Some((value, end)) => {
                    if c < end <= t.len() {
                        lemma_arguments_from(t, end, read.push(ArgumentModel { name: t.subrange(j, e), pos: pos_of(t, skip_from(t, c + 1)), value }));
                    }
                },
                None => {},
            }
        }
    }
}

proof fn lemma_directives_from(t: Seq<char>, i: int, read: Seq<DirectiveModel>)
    requires
        0 <= i <= t.len(),
    ensures
        directives_from(t, i, read) is Some ==> i <= directives_from(t, i, read)->Some_0.1 <= t.len(),
    decreases t.len() - i,
{
    lemma_skip_from(t, i);
    let j = skip_from(t, i);
    if j < t.len() && t[j] == '@' {
        let e = name_end(t, j + 1);
        let p = skip_from(t, e);
        if j + 1 < e <= p <= t.len() {
            if p < t.len() && t[p] == '(' {
                match arguments_from(t, p + 1, Seq::empty()) {
                    Some((arguments, end)) => {
                        if p < end <= t.len() {
                            lemma_directives_from(t, end, read.push(DirectiveModel { name: t.subrange(j + 1, e), pos: pos_of(t, j), arguments }));
                        }
                    },
                    None => {},
                }
            } else {
                lemma_directives_from(t, e, read.push(DirectiveModel { name: t.subrange(j + 1, e), pos: pos_of(t, j), arguments: Seq::empty() }));
            }
        }
    }
}

fn is_start_of_name(c: char) -> (r: bool)
    ensures
        r == is_name_start(c),
{
    ('a' <= c && c <= 'z') || ('A' <= c && c <= 'Z') || c == '_'
}

/// Reads the arguments whose opening parenthesis stands before `i`.
pub fn parse_arguments(t: &Vec<char>, i: usize) -> (r: Option<(Vec<Argument>, usize)>)
    requires
        i <= t.len(),
        t.len() < usize::MAX,
    ensures
        match r {
            Some((arguments, end)) => arguments_from(t@, i as int, Seq::empty()) == Some((arguments.deep_view(), end as int)) && i < end <= t.len(),
            None => arguments_from(t@, i as int, Seq::empty()) is None,
        },
{
    let mut arguments: Vec<Argument> = Vec::new();
    assert(arguments.deep_view() =~= Seq::empty());
    let mut k = i;
    proof {
        lemma_arguments_from(t@, i as int, Seq::empty());
    }
    loop
        invariant
            i <= k <= t.len(),
            t.len() < usize::MAX,
            arguments_from(t@, i as int, Seq::empty()) == arguments_from(t@, k as int, arguments.deep_view()),
            arguments_from(t@, i as int, Seq::empty()) is Some ==> i < arguments_from(t@, i as int, Seq::empty())->Some_0.1 <= t.len(),
        decreases t.len() - k,
    {
        proof {
            lemma_skip_from(t@, k as int);
        }
        let j = skip(t, k);
        if j >= t.len() {
            return None;
        }
        if t[j] == ')' {
            return Some((arguments, j + 1));
        }
        if !is_start_of_name(t[j]) {
            return None;
        }
        proof {
            lemma_name_end(t@, j as int);
        }
        let e = read_name_end(t, j);
        let c = skip(t, e);
        if c >= t.len() || t[c] != ':' {
            return None;
        }
        proof {
            lemma_value_from(t@, c + 1);
        }
        let start = skip(t, c + 1);
        match parse_value(t, c + 1) {
            Some((value, end)) => {
                let ghost before = arguments.deep_view();
                let argument = Argument { name: text_between(t, j, e), pos: position_at(t, start), value };
                let ghost model = argument@;
                arguments.push(argument);
                assert(arguments.deep_view() =~= before.push(model));
                k = end;
            },
            None => {
                return None;
            },
        }
    }
}

/// Reads the directives that start at or after `i`.
pub fn parse_directives(t: &Vec<char>, i: usize) -> (r: Option<(Vec<Directive>, usize)>)
    requires
        i <= t.len(),
        t.len() < usize::MAX,
    ensures
        match r {
            Some((directives, end)) => directives_from(t@, i as int, Seq::empty()) == Some((directives.deep_view(), end as int)) && i <= end
                <= t.len(),
            None => directives_from(t@, i as int, Seq::empty()) is None,
        },
{
    let mut directives: Vec<Directive> = Vec::new();
    assert(directives.deep_view() =~= Seq::empty());
    let mut k = i;
    loop
        invariant
            i <= k <= t.len(),
            t.len() < usize::MAX,
            directives_from(t@, i as int, Seq::empty()) == directives_from(t@, k as int, directives.deep_view()),
        decreases t.len() - k,
    {
        proof {
            lemma_skip_from(t@, k as int);
        }
        let j = skip(t, k);
        if j >= t.len() || t[j] != '@' {
            return Some((directives, j));
        }
        proof {
            lemma_name_end(t@, j + 1);
        }
        let e = read_name_end(t, j + 1);
        if e <= j + 1 {
            return None;
        }
        let p = skip(t, e);
        let ghost before = directives.deep_view();
        if p < t.len() && t[p] == '(' {
            match parse_arguments(t, p + 1) {
                Some((arguments, end)) => {
                    let directive = Directive { name: text_between(t, j + 1, e), pos: position_at(t, j), arguments };
                    let ghost model = directive@;
                    directives.push(directive);
                    assert(directives.deep_view() =~= before.push(model));
                    k = end;
                },
                None => {
                    return None;
                },
            }
        } else {
            let arguments: Vec<Argument> = Vec::new();
            assert(arguments.deep_view() =~= Seq::empty());
            let directive = Directive { name: text_between(t, j + 1, e), pos: position_at(t, j), arguments };
            let ghost model = directive@;
            directives.push(directive);
            assert(directives.deep_view() =~= before.push(model));
            k = e;
        }
    }
}

/// The type that is written at or after `i`: a name, or a type in brackets,
/// each with an exclamation mark behind it or without.
pub open spec fn type_from(t: Seq<char>, i: int) -> Option<(TypeRefModel, int)>
    decreases t.len() - i,
{
    let j = skip_from(t, i);
    if i < 0 || j < i || j >= t.len() {
        None
    } else if t[j] == '[' {
        match type_from(t, j + 1) {
            Some((inner, e)) => {
                let c = skip_from(t, e);
                if j < e <= c < t.len() && t[c] == ']' {
                    let b = skip_from(t, c + 1);
                    if c < b < t.len() && t[b] == '!' {
                        Some((TypeRefModel { base: inner.base, text: "["@ + inner.text + "]!"@ }, b + 1))
                    } else {
                        Some((TypeRefModel { base: inner.base, text: "["@ + inner.text + "]"@ }, c + 1))
                    }
                } else {
                    None
                }
            },
            None => None,
        }
    } else if is_name_start(t[j]) {
        let e = name_end(t, j);
        let b = skip_from(t, e);
        if j < e <= b < t.len() && t[b] == '!' {
            Some((TypeRefModel { base: t.subrange(j, e), text: t.subrange(j, e) + "!"@ }, b + 1))
        } else {
            Some((TypeRefModel { base: t.subrange(j, e), text: t.subrange(j, e) }, e))
        }
    } else {
        None
    }
}

proof fn lemma_type_from(t: Seq<char>, i: int)
    requires
        0 <= i <= t.len(),
    ensures
        type_from(t, i) is Some ==> i < type_from(t, i)->Some_0.1 <= t.len(),
    decreases t.len() - i,
{
    lemma_skip_from(t, i);
    let j = skip_from(t, i);
    if j < t.len() {
        if t[j] == '[' {
            lemma_type_from(t, j + 1);
            if type_from(t, j + 1) is Some {
                let e = type_from(t, j + 1)->Some_0.1;
                lemma_skip_from(t, e);
                let c = skip_from(t, e);
                if c < t.len() {
                    lemma_skip_from(t, c + 1);
                }
            }
        } else if is_name_start(t[j]) {
            lemma_name_end(t, j);
            lemma_skip_from(t, name_end(t, j));
        }
    }
}

/// Reads the type that is written at or after `i`.
pub fn parse_type(t: &Vec<char>, i: usize) -> (r: Option<(TypeRef, usize)>)
    requires
        i <= t.len(),
    ensures
        match r {
            Some((ty, end)) => type_from(t@, i as int) == Some((ty@, end as int)) && i < end <= t.len(),
            None => type_from(t@, i as int) is None,
        },
    decreases t.len() - i,
{
    proof {
        lemma_type_from(t@, i as int);
        lemma_skip_from(t@, i as int);
    }
    let j = skip(t, i);
    if j >= t.len() {
        return None;
    }
    if t[j] == '[' {
        match parse_type(t, j + 1) {
            Some((inner, e)) => {
                let c = skip(t, e);
                if c >= t.len() || t[c] != ']' {
                    return None;
                }
                let b = skip(t, c + 1);
                if b < t.len() && t[b] == '!' {
                    Some((TypeRef { base: inner.base, text: concat3("[", inner.text.as_str(), "]!") }, b + 1))
                } else {
                    Some((TypeRef { base: inner.base, text: concat3("[", inner.text.as_str(), "]") }, c + 1))
                }
            },
            None => None,
        }
    } else if is_start_of_name(t[j]) {
        proof {
            lemma_name_end(t@, j as int);
        }
        let e = read_name_end(t, j);
        let b = skip(t, e);
        let name = text_between(t, j, e);
        if b < t.len() && t[b] == '!' {
            Some((TypeRef { base: name.clone(), text: concat2(name.as_str(), "!") }, b + 1))
        } else {
            Some((TypeRef { base: name.clone(), text: name }, e))
        }
    } else {
        None
    }
}

/// The fields whose opening brace stands before `i`, read on from those
/// that have been read already. The declarations of a field's arguments are
/// passed over.
pub open spec fn fields_from(t: Seq<char>, i: int, read: Seq<FieldModel>) -> Option<(Seq<FieldModel>, int)>
    decreases t.len() - i,
{
    let j = skip_from(t, i);
    if i < 0 || j < i || j >= t.len() {
        None
    } else if t[j] == '}' {
        Some((read, j + 1))
    } else if is_name_start(t[j]) {
        let e = name_end(t, j);
        let p = skip_from(t, e);
        let c = if p < t.len() && t[p] == '(' {
            skip_from(t, first_index_from(t, ')', p + 1) + 1)
        } else {
            p
        };
        if j < e <= p <= c < t.len() && t[c] == ':' {
            match type_from(t, c + 1) {
                Some((ty, after)) => if c < after <= t.len() {
                    match directives_from(t, after, Seq::empty()) {
                        Some((directives, end)) => if after <= end <= t.len() {
                            fields_from(t, end, read.push(FieldModel { name: t.subrange(j, e), ty, directives }))
                        } else {
                            None
                        },
                        None => None,
                    }
                } else {
                    None
                },
                None => None,
            }
        } else {
            None
        }
    } else {
        None
    }
}

proof fn lemma_fields_from(t: Seq<char>, i: int, read: Seq<FieldModel>)
    requires
        0 <= i <= t.len(),
    ensures
        fields_from(t, i, read) is Some ==> i < fields_from(t, i, read)->Some_0.1 <= t.len(),
    decreases t.len() - i,
{
    lemma_skip_from(t, i);
    let j = skip_from(t, i);
    if j < t.len() && t[j] != '}' && is_name_start(t[j]) {
        let e = name_end(t, j);
        let p = skip_from(t, e);
        let c = if p < t.len() && t[p] == '(' {
            skip_from(t, first_index_from(t, ')', p + 1) + 1)
        } else {
            p
        };
        if j < e <= p <= c < t.len() && t[c] == ':' {
            match type_from(t, c + 1) {
                Some((ty, after)) => {
                    if c < after <= t.len() {
                        match directives_from(t, after, Seq::empty()) {
                            Some((directives, end)) => {
                                if after <= end <= t.len() {
                                    lemma_fields_from(t, end, read.push(FieldModel { name: t.subrange(j, e), ty, directives }));
                                }
                            },
                            None => {},
                        }
                    }
                },
                None => {},
            }
        }
    }
}

/// Reads the fields whose opening brace stands before `i`.
pub fn parse_fields(t: &Vec<char>, i: usize) -> (r: Option<(Vec<FieldDefinition>, usize)>)
    requires
        i <= t.len(),
        t.len() < usize::MAX,
    ensures
        match r {
            Some((fields, end)) => fields_from(t@, i as int, Seq::empty()) == Some((fields.deep_view(), end as int)) && i < end <= t.len(),
            None => fields_from(t@, i as int, Seq::empty()) is None,
        },
{
    let mut fields: Vec<FieldDefinition> = Vec::new();
    assert(fields.deep_view() =~= Seq::empty());
    let mut k = i;
    proof {
        lemma_fields_from(t@, i as int, Seq::empty());
    }
    loop
        invariant
            i <= k <= t.len(),
            t.len() < usize::MAX,
            fields_from(t@, i as int, Seq::empty()) == fields_from(t@, k as int, fields.deep_view()),
            fields_from(t@, i as int, Seq::empty()) is Some ==> i < fields_from(t@, i as int, Seq::empty())->Some_0.1 <= t.len(),
        decreases t.len() - k,
    {
        proof {
            lemma_skip_from(t@, k as int);
        }
        let j = skip(t, k);
        if j >= t.len() {
            return None;
        }
        if t[j] == '}' {
            return Some((fields, j + 1));
        }
        if !is_start_of_name(t[j]) {
            return None;
        }
        proof {
            lemma_name_end(t@, j as int);
        }
        let e = read_name_end(t, j);
        let p = skip(t, e);
        let c = if p < t.len() && t[p] == '(' {
            let close = find_char(t, ')', p + 1);
            if close >= t.len() {
                return None;
            }
            skip(t, close + 1)
        } else {
            p
        };
        if c >= t.len() || t[c] != ':' {
            return None;
        }
        let (ty, after) = match parse_type(t, c + 1) {
            Some(found) => found,
            None => {
                return None;
            },
        };
        proof {
            crate::document::lemma_directives_from(t@, after as int, Seq::empty());
        }
        match parse_directives(t, after) {
            Some((directives, end)) => {
                let ghost before = fields.deep_view();
                let field = FieldDefinition { name: text_between(t, j, e), ty, directives };
                let ghost model = field@;
                fields.push(field);
                assert(fields.deep_view() =~= before.push(model));
                k = end;
            },
            None => {
                return None;
            },
        }
    }
}

/// The schema definition whose directives start at or after `start`: its
/// directives, and the position behind it. Operation types in braces are
/// passed over.
pub open spec fn schema_definition_from(t: Seq<char>, start: int) -> Option<(Seq<DirectiveModel>, int)> {
    match directives_from(t, start, Seq::empty()) {
        Some((directives, after)) => {
            let b = skip_from(t, after);
            let next = if b < t.len() && t[b] == '{' {
                first_index_from(t, '}', b + 1) + 1
            } else {
                after
            };
            if start <= after <= next <= t.len() {
                Some((directives, next))
            } else {
                None
            }
        },
        None => None,
    }
}

/// The object type whose name starts at `k`: the type, and the position behind it.
pub open spec fn type_definition_from(t: Seq<char>, k: int) -> Option<(TypeModel, int)> {
    if 0 <= k < t.len() && is_name_start(t[k]) {
        let n = name_end(t, k);
        match directives_from(t, n, Seq::empty()) {
            Some((directives, after)) => {
                let b = skip_from(t, after);
                if k < n <= after <= b < t.len() && t[b] == '{' {
                    match fields_from(t, b + 1, Seq::empty()) {
                        Some((fields, next)) => if b < next <= t.len() {
                            Some((TypeModel { name: t.subrange(k, n), directives, fields }, next))
                        } else {
                            None
                        },
                        None => None,
                    }
                } else {
                    None
                }
            },
            None => None,
        }
    } else {
        None
    }
}

/// What a definition that starts with a word at `j` is.
pub enum DefinitionKind {
    /// A schema definition whose directives start at the position.
    Schema(int),
    /// An object type whose name starts at the position.
    Type(int),
    Unknown,
}

/// Tells the definition that starts at `j` by its first words: `schema`,
/// `extend schema` or `type`.
pub open spec fn definition_kind(t: Seq<char>, j: int) -> DefinitionKind {
    let e = name_end(t, j);
    let word = t.subrange(j, e);
    let k = skip_from(t, e);
    if word == "extend"@ && k < t.len() && is_name_start(t[k]) && t.subrange(k, name_end(t, k)) == "schema"@ {
        DefinitionKind::Schema(name_end(t, k))
    } else if word == "schema"@ {
        DefinitionKind::Schema(e)
    } else if word == "type"@ {
        DefinitionKind::Type(k)
    } else {
        DefinitionKind::Unknown
    }
}

/// The document that is written from `i` on, added to what has been read
/// already. A document is made of schema definitions, extended or not, and
/// of object types. Anything else is no document.
pub open spec fn document_from(t: Seq<char>, i: int, read: DocumentModel) -> Option<DocumentModel>
    decreases t.len() - i,
{
    let j = skip_from(t, i);
    if i < 0 || j < i {
        None
    } else if j >= t.len() {
        Some(read)
    } else if !is_name_start(t[j]) {
        None
    } else {
        match definition_kind(t, j) {
            DefinitionKind::Schema(start) => match schema_definition_from(t, start) {
                Some((directives, next)) => if i < next <= t.len() {
                    document_from(t, next, DocumentModel { schemas: read.schemas.push(directives), types: read.types })
                } else {
                    None
                },
                None => None,
            },
            DefinitionKind::Type(k) => match type_definition_from(t, k) {
                Some((definition, next)) => if i < next <= t.len() {
                    document_from(t, next, DocumentModel { schemas: read.schemas, types: read.types.push(definition) })
                } else {
                    None
                },
                None => None,
            },
            DefinitionKind::Unknown => None,
        }
    }
}

/// The document that a text holds.
pub open spec fn document_of(t: Seq<char>) -> Option<DocumentModel> {
    if t.len() >= usize::MAX {
        None
    } else {
        document_from(t, 0, DocumentModel { schemas: Seq::empty(), types: Seq::empty() })
    }
}

/// Reads a schema definition whose directives start at or after `start`.
pub fn parse_schema_definition(t: &Vec<char>, start: usize) -> (r: Option<(SchemaDefinition, usize)>)
    requires
        start <= t.len(),
        t.len() < usize::MAX,
    ensures
        match r {
            Some((definition, next)) => schema_definition_from(t@, start as int) == Some((definition.deep_view(), next as int)) && start <= next
                <= t.len(),
            None => schema_definition_from(t@, start as int) is None,
        },
{
    match parse_directives(t, start) {
        Some((directives, after)) => {
            let b = skip(t, after);
            let next = if b < t.len() && t[b] == '{' {
                let close = find_char(t, '}', b + 1);
                if close >= t.len() {
                    return None;
                }
                close + 1
            } else {
                after
            };
            Some((SchemaDefinition { directives }, next))
        },
        None => None,
    }
}

/// Reads an object type whose name starts at `k`.
pub fn parse_type_definition(t: &Vec<char>, k: usize) -> (r: Option<(TypeDefinition, usize)>)
    requires
        k <= t.len(),
        t.len() < usize::MAX,
    ensures
        match r {
            Some((definition, next)) => type_definition_from(t@, k as int) == Some((definition@, next as int)) && k < next <= t.len(),
            None => type_definition_from(t@, k as int) is None,
        },
{
    if !(k < t.len() && is_start_of_name(t[k])) {
        return None;
    }
    proof {
        lemma_name_end(t@, k as int);
    }
    let n = read_name_end(t, k);
    let (directives, after) = match parse_directives(t, n) {
        Some(found) => found,
        None => {
            return None;
        },
    };
    let b = skip(t, after);
    if b >= t.len() || t[b] != '{' {
        return None;
    }
    match parse_fields(t, b + 1) {
        Some((fields, next)) => Some((TypeDefinition { name: text_between(t, k, n), directives, fields }, next)),
        None => None,
    }
}

/// What a definition that starts with a word at a position is.
pub enum StartOfDefinition {
    Schema(usize),
    Type(usize),
    Unknown,
}

impl StartOfDefinition {
    pub open spec fn kind(self) -> DefinitionKind {
        match self {
            StartOfDefinition::Schema(start) => DefinitionKind::Schema(start as int),
            StartOfDefinition::Type(k) => DefinitionKind::Type(k as int),
            StartOfDefinition::Unknown => DefinitionKind::Unknown,
        }
    }
}

/// Tells the definition that starts at `j` by its first words.
pub fn read_definition_kind(t: &Vec<char>, j: usize) -> (r: StartOfDefinition)
    requires
        j < t.len(),
        is_name_start(t[j as int]),
    ensures
        r.kind() == definition_kind(t@, j as int),
        match r {
            StartOfDefinition::Schema(start) => j < start <= t.len(),
            StartOfDefinition::Type(k) => j < k <= t.len(),
            StartOfDefinition::Unknown => true,
        },
{
    proof {
        lemma_name_end(t@, j as int);
    }
    let e = read_name_end(t, j);
    let word = text_between(t, j, e);
    let k = skip(t, e);
    if same_text(word.as_str(), "extend") && k < t.len() && is_start_of_name(t[k]) {
        proof {
            lemma_name_end(t@, k as int);
        }
        let e2 = read_name_end(t, k);
        let second = text_between(t, k, e2);
        if same_text(second.as_str(), "schema") {
            return StartOfDefinition::Schema(e2);
        }
    }
    if same_text(word.as_str(), "schema") {
        StartOfDefinition::Schema(e)
    } else if same_text(word.as_str(), "type") {
        StartOfDefinition::Type(k)
    } else {
        StartOfDefinition::Unknown
    }
}

/// Reads a document.
pub fn parse_schema(text: &str) -> (r: Option<ServiceDocument>)
    ensures
        r.deep_view() == document_of(text@),
{
    let chars = chars_of(text);
    if chars.len() == usize::MAX {
        return None;
    }
    let t = &chars;
    let mut schemas: Vec<SchemaDefinition> = Vec::new();
    let mut types: Vec<TypeDefinition> = Vec::new();
    assert(schemas.deep_view() =~= Seq::empty());
    assert(types.deep_view() =~= Seq::empty());
    let ghost start_model = DocumentModel { schemas: Seq::empty(), types: Seq::empty() };
    let mut i: usize = 0;
    loop
        invariant
            i <= t.len(),
            t.len() < usize::MAX,
            t@ == text@,
            document_of(text@) == document_from(t@, i as int, (DocumentModel { schemas: schemas.deep_view(), types: types.deep_view() })),
        decreases t.len() - i,
    {
        let j = skip(t, i);
        if j >= t.len() {
            return Some(ServiceDocument { schemas, types });
        }
        if !is_start_of_name(t[j]) {
            return None;
        }
        match read_definition_kind(t, j) {
            StartOfDefinition::Schema(start) => match parse_schema_definition(t, start) {
                Some((definition, next)) => {
                    let ghost before = schemas.deep_view();
                    let ghost model = definition.deep_view();
                    schemas.push(definition);
                    assert(schemas.deep_view() =~= before.push(model));
                    i = next;
                },
                None => {
                    return None;
                },
            },
            StartOfDefinition::Type(k) => match parse_type_definition(t, k) {
                Some((definition, next)) => {
                    let ghost before = types.deep_view();
                    let ghost model = definition@;
                    types.push(definition);
                    assert(types.deep_view() =~= before.push(model));
                    i = next;
                },
                None => {
                    return None;
                },
            },
            StartOfDefinition::Unknown => {
                return None;
            },
        }
    }
}

} // verus!
