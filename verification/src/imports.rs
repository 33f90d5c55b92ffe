//! Cross-schema references: entries of an `@import` directive and the
//! identity of a referenced subgraph's schema.

use vstd::prelude::*;

use crate::model::{spec_argument, ArgValue};

verus! {

/// A single entry of an `@import` directive's type list: either a plain name
/// `"Thing"` or an object `{name: "Thing", as: "Stuff"}`. The plain form is
/// the same as `{name: "Thing", as: "Thing"}` with `explicit` false.
#[derive(Debug, Clone, PartialEq, Eq, Hash)]
pub struct ImportedType {
    /// The name the type has in the schema it comes from.
    pub name: String,
    /// The alias it is imported under, a copy of `name` when none was given.
    pub alias: String,
    /// Whether the alias was written out.
    pub explicit: bool,
}

/// What `ImportedType::parse` derives from a type-list entry: the name, the
/// alias and whether the alias was explicit, or nothing when the entry has
/// neither of the two accepted shapes.
pub open spec fn spec_imported_type(v: ArgValue) -> Option<(Seq<char>, Seq<char>, bool)> {
    match v {
        ArgValue::String(s) => Some((s@, s@, false)),
        ArgValue::Object(m) => match (spec_argument(m@, "name"@), spec_argument(m@, "as"@)) {
            (Some(ArgValue::String(n)), Some(ArgValue::String(a))) => Some((n@, a@, true)),
            _ => None,
        },
        _ => None,
    }
}

impl ImportedType {
    /// Reads one entry of an `@import` type list. A bare string imports a
    /// type under its own name; an object must carry `name` and `as` strings.
    pub fn parse(type_import: &ArgValue) -> (r: Option<ImportedType>)
        ensures
            match r {
                Some(t) => spec_imported_type(*type_import) == Some(
                    (t.name@, t.alias@, t.explicit),
                ),
                None => spec_imported_type(*type_import) is None,
            },
    {
        match type_import {
            ArgValue::String(s) => Some(
                ImportedType { name: s.clone(), alias: s.clone(), explicit: false },
            ),
            ArgValue::Object(m) => {
                let name = crate::model::argument_lookup(m, "name");
                let alias = crate::model::argument_lookup(m, "as");
                match (name, alias) {
                    (Some(ArgValue::String(n)), Some(ArgValue::String(a))) => Some(
                        ImportedType { name: n.clone(), alias: a.clone(), explicit: true },
                    ),
                    _ => None,
                }
            },
            _ => None,
        }
    }
}

/// The identity of another subgraph's schema, the target of an import edge.
#[derive(Debug, Clone, PartialEq, Eq, Hash)]
pub struct SchemaReference {
    pub subgraph: String,
}

/// What `SchemaReference::parse` derives from a `subgraph` argument: the
/// subgraph identity, or nothing when the argument is not an object with an
/// `id` string.
pub open spec fn spec_schema_reference(v: ArgValue) -> Option<Seq<char>> {
    match v {
        ArgValue::Object(m) => match spec_argument(m@, "id"@) {
            Some(ArgValue::String(id)) => Some(id@),
            _ => None,
        },
        _ => None,
    }
}

impl SchemaReference {
    /// Wraps a subgraph identity.
    pub fn new(subgraph: String) -> (r: SchemaReference)
        ensures
            r.subgraph == subgraph,
    {
        SchemaReference { subgraph }
    }

    /// A copy of this reference under the same identity.
    pub fn duplicate(&self) -> (r: SchemaReference)
        ensures
            r.subgraph@ == self.subgraph@,
    {
        SchemaReference { subgraph: self.subgraph.clone() }
    }

    /// Reads a `subgraph` argument: an object holding the identity under
    /// `id`.
    pub fn parse(value: &ArgValue) -> (r: Option<SchemaReference>)
        ensures
            match r {
                Some(s) => spec_schema_reference(*value) == Some(s.subgraph@),
                None => spec_schema_reference(*value) is None,
            },
    {
        match value {
            ArgValue::Object(m) => match crate::model::argument_lookup(m, "id") {
                Some(ArgValue::String(id)) => Some(SchemaReference { subgraph: id.clone() }),
                _ => None,
            },
            _ => None,
        }
    }
}

} // verus!
