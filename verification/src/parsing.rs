//! The boundary to the external grammar parser.
//!
//! Text parsing is delegated to `graphql_parser`; everything here only turns
//! its syntax tree into this crate's own document model, value for value.
//! These items are trusted: their bodies are not verified. The `Ast*` structs
//! only carry syntax-tree nodes between the conversion steps; nothing reads
//! them from verified code.

use vstd::prelude::*;

use crate::model::{
    ArgValue, DirectiveUse, DocDefinition, Document, EnumDef, FieldDef, InputObjectDef,
    InterfaceDef, ObjectDef, ScalarDef, TypeDef, TypeRef, UnionDef,
};
use graphql_parser::query::Type as GqlType;
use graphql_parser::query::Value as GqlValue;
use graphql_parser::schema::Definition as GqlDefinition;
use graphql_parser::schema::TypeDefinition as GqlTypeDefinition;

verus! {

#[verifier::external_body]
struct AstDefinition(graphql_parser::schema::Definition<'static, String>);

#[verifier::external_body]
struct AstTypeDefinition(graphql_parser::schema::TypeDefinition<'static, String>);

#[verifier::external_body]
struct AstObject(graphql_parser::schema::ObjectType<'static, String>);

#[verifier::external_body]
struct AstInterface(graphql_parser::schema::InterfaceType<'static, String>);

#[verifier::external_body]
struct AstField(graphql_parser::schema::Field<'static, String>);

#[verifier::external_body]
struct AstInput(graphql_parser::schema::InputValue<'static, String>);

#[verifier::external_body]
struct AstDirective(graphql_parser::schema::Directive<'static, String>);

#[verifier::external_body]
struct AstScalar(graphql_parser::schema::ScalarType<'static, String>);

#[verifier::external_body]
struct AstEnum(graphql_parser::schema::EnumType<'static, String>);

#[verifier::external_body]
struct AstInputObject(graphql_parser::schema::InputObjectType<'static, String>);

#[verifier::external_body]
struct AstType(graphql_parser::query::Type<'static, String>);

#[verifier::external_body]
struct AstValue(graphql_parser::query::Value<'static, String>);

/// Relies on graphql_parser::query::Value: each syntax-tree value is carried
/// over variant for variant. An integer literal is held by the parser as a
/// 64-bit value; a float literal's value is not consulted by this crate.
#[verifier::external_body]
fn conv_value(v: AstValue) -> ArgValue {
    match v.0 {
        GqlValue::Variable(s) => ArgValue::Variable(s),
        GqlValue::Int(n) => ArgValue::Int(n.as_i64().unwrap_or(0)),
        GqlValue::Float(_) => ArgValue::Float,
        GqlValue::String(s) => ArgValue::String(s),
        GqlValue::Boolean(b) => ArgValue::Boolean(b),
        GqlValue::Null => ArgValue::Null,
        GqlValue::Enum(s) => ArgValue::Enum(s),
        GqlValue::List(l) => ArgValue::List(l.into_iter().map(|w| conv_value(AstValue(w))).collect()),
        GqlValue::Object(m) => ArgValue::Object(m.into_iter().map(|(k, w)| (k, conv_value(AstValue(w)))).collect()),
    }
}

/// Relies on graphql_parser::query::Type: the three wrappers are carried over.
#[verifier::external_body]
fn conv_type(t: AstType) -> TypeRef {
    match t.0 {
        GqlType::NamedType(n) => TypeRef::Named(n),
        GqlType::ListType(inner) => TypeRef::List(Box::new(conv_type(AstType(*inner)))),
        GqlType::NonNullType(inner) => TypeRef::NonNull(Box::new(conv_type(AstType(*inner)))),
    }
}

/// Relies on graphql_parser::schema::Directive: name and arguments are moved over.
#[verifier::external_body]
fn conv_directive(d: AstDirective) -> DirectiveUse {
    DirectiveUse {
        name: d.0.name,
        arguments: d.0.arguments.into_iter().map(|(k, v)| (k, conv_value(AstValue(v)))).collect(),
    }
}

/// Relies on graphql_parser::schema::Field: name, type and directives are moved over.
#[verifier::external_body]
fn conv_field(f: AstField) -> FieldDef {
    FieldDef {
        name: f.0.name,
        field_type: conv_type(AstType(f.0.field_type)),
        directives: f.0.directives.into_iter().map(|d| conv_directive(AstDirective(d))).collect(),
    }
}

/// Relies on graphql_parser::schema::InputValue: an input field is carried
/// over as a field with its declared type.
#[verifier::external_body]
fn conv_input_value(f: AstInput) -> FieldDef {
    FieldDef {
        name: f.0.name,
        field_type: conv_type(AstType(f.0.value_type)),
        directives: f.0.directives.into_iter().map(|d| conv_directive(AstDirective(d))).collect(),
    }
}

/// Relies on graphql_parser::schema::ObjectType: name, implements clause,
/// fields and directives are moved over in declaration order.
#[verifier::external_body]
fn conv_object(o: AstObject) -> ObjectDef {
    ObjectDef {
        name: o.0.name,
        implements_interfaces: o.0.implements_interfaces,
        fields: o.0.fields.into_iter().map(|f| conv_field(AstField(f))).collect(),
        directives: o.0.directives.into_iter().map(|d| conv_directive(AstDirective(d))).collect(),
    }
}

/// Relies on graphql_parser::schema::InterfaceType: name, fields and
/// directives are moved over in declaration order.
#[verifier::external_body]
fn conv_interface(i: AstInterface) -> InterfaceDef {
    InterfaceDef {
        name: i.0.name,
        fields: i.0.fields.into_iter().map(|f| conv_field(AstField(f))).collect(),
        directives: i.0.directives.into_iter().map(|d| conv_directive(AstDirective(d))).collect(),
    }
}

/// Relies on graphql_parser::schema::ScalarType: name and directives are
/// moved over.
#[verifier::external_body]
fn conv_scalar(s: AstScalar) -> ScalarDef {
    ScalarDef {
        name: s.0.name,
        directives: s.0.directives.into_iter().map(|d| conv_directive(AstDirective(d))).collect(),
    }
}

/// Relies on graphql_parser::schema::EnumType: name, value names and
/// directives are moved over.
#[verifier::external_body]
fn conv_enum(e: AstEnum) -> EnumDef {
    EnumDef {
        name: e.0.name,
        values: e.0.values.into_iter().map(|v| v.name).collect(),
        directives: e.0.directives.into_iter().map(|d| conv_directive(AstDirective(d))).collect(),
    }
}

/// Relies on graphql_parser::schema::InputObjectType: name and input fields
/// are moved over.
#[verifier::external_body]
fn conv_input_object(io: AstInputObject) -> InputObjectDef {
    InputObjectDef {
        name: io.0.name,
        fields: io.0.fields.into_iter().map(|f| conv_input_value(AstInput(f))).collect(),
    }
}

/// Relies on graphql_parser::schema::TypeDefinition: each of the six kinds is
/// carried over to the matching kind of this crate's model.
#[verifier::external_body]
fn conv_type_def(t: AstTypeDefinition) -> TypeDef {
    match t.0 {
        GqlTypeDefinition::Scalar(s) => TypeDef::Scalar(conv_scalar(AstScalar(s))),
        GqlTypeDefinition::Object(o) => TypeDef::Object(conv_object(AstObject(o))),
        GqlTypeDefinition::Interface(i) => TypeDef::Interface(conv_interface(AstInterface(i))),
        GqlTypeDefinition::Union(u) => TypeDef::Union(UnionDef { name: u.name, types: u.types }),
        GqlTypeDefinition::Enum(e) => TypeDef::Enum(conv_enum(AstEnum(e))),
        GqlTypeDefinition::InputObject(io) => TypeDef::InputObject(conv_input_object(AstInputObject(io))),
    }
}

/// Relies on graphql_parser::schema::Definition: a type definition is carried
/// over; schema definitions, extensions and directive definitions take part
/// in no rule of this crate and are kept as opaque markers.
#[verifier::external_body]
fn conv_definition(d: AstDefinition) -> DocDefinition {
    match d.0 {
        GqlDefinition::TypeDefinition(td) => DocDefinition::Type(conv_type_def(AstTypeDefinition(td))),
        _ => DocDefinition::Other,
    }
}

/// The document that the external grammar parser derives from a text, if the
/// text is grammatical; the result depends on the characters alone.
pub uninterp spec fn parsed_document(raw: Seq<char>) -> Option<Document>;

/// Relies on graphql_parser::parse_schema: parsing is deterministic in the
/// input text; on a grammatical text it returns the document, otherwise an
/// error describing the first offence.
#[verifier::external_body]
pub fn parse_document(raw: &str) -> (r: Result<Document, String>)
    ensures
        parsed_document(raw@) == (match r {
            Ok(d) => Some(d),
            Err(_) => None::<Document>,
        }),
{
    match graphql_parser::parse_schema::<String>(raw) {
        Ok(ast) => Ok(Document { definitions: ast.into_static().definitions.into_iter().map(|d| conv_definition(AstDefinition(d))).collect() }),
        Err(e) => Err(e.to_string()),
    }
}

} // verus!
