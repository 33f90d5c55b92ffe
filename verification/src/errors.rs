//! The two disjoint error taxonomies: structural defects local to one
//! schema's text, and failures to reach another subgraph's schema.

use vstd::prelude::*;

verus! {

/// A list of names, kept for error payloads that report several offenders at
/// once.
#[derive(Debug, Clone, PartialEq, Eq)]
pub struct Strings(pub Vec<String>);

/// Every item of `items` prefixed by a comma and a space, concatenated.
pub open spec fn spec_tail_joined(items: Seq<Seq<char>>) -> Seq<char>
    decreases items.len(),
{
    if items.len() == 0 {
        Seq::empty()
    } else {
        spec_tail_joined(items.drop_last()) + ", "@ + items.last()
    }
}

/// The names joined with a comma and a space between each pair.
pub open spec fn spec_joined(items: Seq<Seq<char>>) -> Seq<char> {
    if items.len() == 0 {
        Seq::empty()
    } else {
        items[0] + spec_tail_joined(items.skip(1))
    }
}

impl Strings {
    /// One line of text holding every name, comma-separated.
    pub fn joined(&self) -> (r: String)
        ensures
            r@ == spec_joined(self.0@.map_values(|s: String| s@)),
    {
        let ghost items = self.0@.map_values(|s: String| s@);
        let n = self.0.len();
        let mut out = String::new();
        let mut i: usize = 0;
        while i < n
            invariant
                n == self.0@.len(),
                items == self.0@.map_values(|s: String| s@),
                items.len() == n,
                i <= n,
                i == 0 ==> out@ =~= Seq::<char>::empty(),
                i >= 1 ==> out@ == items[0] + spec_tail_joined(items.subrange(1, i as int)),
            decreases n - i,
        {
            if i > 0 {
                let ghost before = out@;
                out.append(", ");
                out.append(self.0[i].as_str());
                proof {
                    assert(items.subrange(1, i as int + 1).drop_last() =~= items.subrange(
                        1,
                        i as int,
                    ));
                    assert(items.subrange(1, i as int + 1).last() == items[i as int]);
                    assert(out@ =~= items[0] + spec_tail_joined(items.subrange(1, i as int + 1)));
                }
            } else {
                out.append(self.0[i].as_str());
                proof {
                    assert(items.subrange(1, 1).len() == 0);
                    assert(out@ =~= items[0] + spec_tail_joined(items.subrange(1, 1)));
                }
            }
            i += 1;
        }
        proof {
            if n > 0 {
                assert(items.subrange(1, n as int) =~= items.skip(1));
            }
        }
        out
    }
}

/// A structural defect intrinsic to one schema's text. Validation gathers
/// every defect it finds; it never stops at the first.
#[derive(Debug, Clone, PartialEq, Eq)]
pub enum SchemaValidationError {
    /// An object type implements an interface that the document does not
    /// define.
    InterfaceUndefined { implementor: String, interface: String },
    /// User-defined types reuse platform-reserved names; every offender is
    /// listed.
    UsageOfReservedTypes { names: Strings },
    /// The schema-metadata type declares fields; it may only carry
    /// directives.
    SchemaTypeWithFields,
    /// A directive other than `@import` or `@fulltext` appears on the
    /// schema-metadata type.
    InvalidSchemaTypeDirective { name: String },
    /// A `@fulltext` directive has no usable `name` argument.
    FulltextNameMissing,
    /// A `@fulltext` name collides with a field of an entity type or with an
    /// earlier fulltext search name.
    FulltextNameCollision { name: String },
    /// The `algorithm` argument is missing or is not one of the recognized
    /// values; the payload carries the full account.
    FulltextAlgorithmInvalid { message: String },
    /// The `language` argument is missing or is not a recognized tag.
    FulltextLanguageInvalid,
    /// The `include` argument is missing, empty, or names an unknown entity
    /// type or field.
    FulltextIncludeInvalid,
    /// An `@import` directive's `types` argument is not a list of names or
    /// `{name, as}` objects.
    ImportDirectiveInvalid,
    /// An `@import` directive's `subgraph` argument is not a resolvable
    /// reference shape.
    ImportedSubgraphReferenceInvalid,
    /// A type named by a resolved import does not exist in the referenced
    /// schema.
    ImportedTypeUndefined { name: String, subgraph: String },
    /// A field's base type names neither a type of the document, an imported
    /// type, nor a built-in scalar.
    FieldTypeUnknown { owner: String, field: String, base_type: String },
    /// A `@derivedFrom` directive does not point back at the declaring type.
    DerivedFromInvalid { owner: String, field: String },
    /// A type does not declare a field demanded by an interface it
    /// implements, or declares it at a different type.
    InterfaceFieldNotImplemented { implementor: String, interface: String, field: String },
    /// A type implementing an interface keys its `id` by a base type other
    /// than `ID`, `String` or `Bytes`.
    IllegalIdType { owner: String },
    /// Two types implementing the same interface key their `id` fields by
    /// different base scalar types.
    InterfaceIdTypeMismatch { interface: String },
}

/// The mathematical shadow of a validation error: the same taxonomy over
/// character sequences, used by contracts to pin an error list down.
pub ghost enum ErrModel {
    InterfaceUndefined { implementor: Seq<char>, interface: Seq<char> },
    UsageOfReservedTypes { names: Seq<Seq<char>> },
    SchemaTypeWithFields,
    InvalidSchemaTypeDirective { name: Seq<char> },
    FulltextNameMissing,
    FulltextNameCollision { name: Seq<char> },
    FulltextAlgorithmInvalid { message: Seq<char> },
    FulltextLanguageInvalid,
    FulltextIncludeInvalid,
    ImportDirectiveInvalid,
    ImportedSubgraphReferenceInvalid,
    ImportedTypeUndefined { name: Seq<char>, subgraph: Seq<char> },
    FieldTypeUnknown { owner: Seq<char>, field: Seq<char>, base_type: Seq<char> },
    DerivedFromInvalid { owner: Seq<char>, field: Seq<char> },
    InterfaceFieldNotImplemented { implementor: Seq<char>, interface: Seq<char>, field: Seq<char> },
    IllegalIdType { owner: Seq<char> },
    InterfaceIdTypeMismatch { interface: Seq<char> },
}

/// What a validation error says, abstracted to character sequences.
pub open spec fn err_view(e: SchemaValidationError) -> ErrModel {
    match e {
        SchemaValidationError::InterfaceUndefined { implementor, interface } => (
        ErrModel::InterfaceUndefined { implementor: implementor@, interface: interface@ }),
        SchemaValidationError::UsageOfReservedTypes { names } => (ErrModel::UsageOfReservedTypes {
            names: names.0@.map_values(|s: String| s@),
        }),
        SchemaValidationError::SchemaTypeWithFields => ErrModel::SchemaTypeWithFields,
        SchemaValidationError::InvalidSchemaTypeDirective { name } => (
        ErrModel::InvalidSchemaTypeDirective { name: name@ }),
        SchemaValidationError::FulltextNameMissing => ErrModel::FulltextNameMissing,
        SchemaValidationError::FulltextNameCollision { name } => (ErrModel::FulltextNameCollision {
            name: name@,
        }),
        SchemaValidationError::FulltextAlgorithmInvalid { message } => (
        ErrModel::FulltextAlgorithmInvalid { message: message@ }),
        SchemaValidationError::FulltextLanguageInvalid => ErrModel::FulltextLanguageInvalid,
        SchemaValidationError::FulltextIncludeInvalid => ErrModel::FulltextIncludeInvalid,
        SchemaValidationError::ImportDirectiveInvalid => ErrModel::ImportDirectiveInvalid,
        SchemaValidationError::ImportedSubgraphReferenceInvalid => (
        ErrModel::ImportedSubgraphReferenceInvalid),
        SchemaValidationError::ImportedTypeUndefined { name, subgraph } => (
        ErrModel::ImportedTypeUndefined { name: name@, subgraph: subgraph@ }),
        SchemaValidationError::FieldTypeUnknown { owner, field, base_type } => (
        ErrModel::FieldTypeUnknown { owner: owner@, field: field@, base_type: base_type@ }),
        SchemaValidationError::DerivedFromInvalid { owner, field } => (
        ErrModel::DerivedFromInvalid { owner: owner@, field: field@ }),
        SchemaValidationError::InterfaceFieldNotImplemented { implementor, interface, field } => (
        ErrModel::InterfaceFieldNotImplemented {
            implementor: implementor@,
            interface: interface@,
            field: field@,
        }),
        SchemaValidationError::IllegalIdType { owner } => (ErrModel::IllegalIdType {
            owner: owner@,
        }),
        SchemaValidationError::InterfaceIdTypeMismatch { interface } => (
        ErrModel::InterfaceIdTypeMismatch { interface: interface@ }),
    }
}

/// Why a text failed to become a schema: the grammar rejected it, or the
/// document broke structural rules; the aggregated list carries every defect
/// found.
#[derive(Debug, Clone, PartialEq, Eq)]
pub enum SchemaParseError {
    Syntax(String),
    Validation(Vec<SchemaValidationError>),
}

/// A failure to reach another subgraph's schema. These are aggregated apart
/// from structural validation errors and may be transient.
#[derive(Debug, Clone, PartialEq, Eq)]
pub enum SchemaImportError {
    /// The referenced subgraph is known but its schema was not found.
    ImportedSchemaNotFound(crate::imports::SchemaReference),
    /// The referenced subgraph was never deployed.
    ImportedSubgraphNotFound(crate::imports::SchemaReference),
}

impl SchemaImportError {
    /// The reference whose resolution failed.
    pub open spec fn spec_reference(&self) -> crate::imports::SchemaReference {
        match *self {
            SchemaImportError::ImportedSchemaNotFound(r) => r,
            SchemaImportError::ImportedSubgraphNotFound(r) => r,
        }
    }
}

} // verus!
