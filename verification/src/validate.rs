//! The validation battery: a fixed set of independent structural checks,
//! every violation gathered, none cut short.

use vstd::prelude::*;

use crate::errors::{err_view, ErrModel, SchemaValidationError, Strings};
use crate::fulltext::{
    spec_fulltext_definition, spec_invalid_algorithm_message, spec_parse_algorithm,
    spec_parse_language, spec_word_value, FulltextAlgorithm, FulltextLanguage,
};
use crate::imports::{spec_imported_type, ImportedType, SchemaReference};
use crate::model::{
    spec_argument, spec_base_type, spec_directive, spec_field, spec_interface_type,
    spec_named_type, spec_object_type, type_def_name, ArgValue, DirectiveUse, DocDefinition,
    Document, FieldDef, InterfaceDef, ObjectDef, TypeRef, TypeDef,
};
use crate::schema::{
    spec_ref_of_directive, spec_schema_imports, Schema,
};

verus! {

// ---------------------------------------------------------------------------
// Reserved type names

/// Whether a definition reuses a platform-reserved name: `_Meta_` and
/// `_Block_` are never user-definable, and `_Schema_` may only be the
/// object type that carries schema-level directives.
pub open spec fn spec_reserved(d: DocDefinition) -> bool {
    match d {
        DocDefinition::Type(td) => type_def_name(td) == "_Meta_"@ || type_def_name(td)
            == "_Block_"@ || (type_def_name(td) == "_Schema_"@ && !(td is Object)),
        DocDefinition::Other => false,
    }
}

/// The names of the reserved-name offenders among the first `i` definitions.
pub open spec fn spec_reserved_offenders(defs: Seq<DocDefinition>, i: int) -> Seq<Seq<char>>
    decreases i,
{
    if i <= 0 {
        Seq::empty()
    } else {
        spec_reserved_offenders(defs, i - 1) + (if spec_reserved(defs[i - 1]) {
            match defs[i - 1] {
                DocDefinition::Type(td) => seq![type_def_name(td)],
                DocDefinition::Other => Seq::empty(),
            }
        } else {
            Seq::empty()
        })
    }
}

/// The reserved-name errors of a document: one error listing every offender,
/// or none.
pub open spec fn spec_reserved_errs(defs: Seq<DocDefinition>) -> Seq<ErrModel> {
    let offenders = spec_reserved_offenders(defs, defs.len() as int);
    if offenders.len() > 0 {
        seq![ErrModel::UsageOfReservedTypes { names: offenders }]
    } else {
        Seq::empty()
    }
}

// ---------------------------------------------------------------------------
// The schema-metadata type's shape

/// The shape errors of the schema-metadata type: it may carry directives
/// alone, never fields.
pub open spec fn spec_schema_type_field_errs(defs: Seq<DocDefinition>) -> Seq<ErrModel> {
    match spec_object_type(defs, "_Schema_"@) {
        Some(o) => if o.fields@.len() > 0 {
            seq![ErrModel::SchemaTypeWithFields]
        } else {
            Seq::empty()
        },
        None => Seq::empty(),
    }
}

/// The names of the directives among the first `j` that are neither
/// `@import` nor `@fulltext`.
pub open spec fn spec_bad_directive_names(ds: Seq<DirectiveUse>, j: int) -> Seq<ErrModel>
    decreases j,
{
    if j <= 0 {
        Seq::empty()
    } else {
        spec_bad_directive_names(ds, j - 1) + (if ds[j - 1].name@ != "import"@ && ds[j - 1].name@
            != "fulltext"@ {
            seq![ErrModel::InvalidSchemaTypeDirective { name: ds[j - 1].name@ }]
        } else {
            Seq::empty()
        })
    }
}

/// The directive errors of the schema-metadata type: only `@import` and
/// `@fulltext` may stand on it.
pub open spec fn spec_schema_type_directive_errs(defs: Seq<DocDefinition>) -> Seq<ErrModel> {
    match spec_object_type(defs, "_Schema_"@) {
        Some(o) => spec_bad_directive_names(o.directives@, o.directives@.len() as int),
        None => Seq::empty(),
    }
}

// ---------------------------------------------------------------------------
// Fulltext directives

/// Whether some object type among the first `i` definitions declares a field
/// with the given name.
pub open spec fn spec_def_declares_field(d: DocDefinition, name: Seq<char>) -> bool {
    match d {
        DocDefinition::Type(TypeDef::Object(o)) => spec_field(o.fields@, name) is Some,
        _ => false,
    }
}

pub open spec fn spec_field_name_taken(defs: Seq<DocDefinition>, name: Seq<char>) -> bool {
    exists|i: int| 0 <= i < defs.len() && #[trigger] spec_def_declares_field(defs[i], name)
}

/// The search name a `@fulltext` directive declares, when its `name`
/// argument is a string.
pub open spec fn spec_ft_dir_name(d: DirectiveUse) -> Option<Seq<char>> {
    match spec_argument(d.arguments@, "name"@) {
        Some(ArgValue::String(n)) => Some(n@),
        _ => None,
    }
}

/// Whether an earlier `@fulltext` directive, among the first `j`, already
/// declared this search name.
pub open spec fn spec_search_name_taken(ds: Seq<DirectiveUse>, j: int, name: Seq<char>) -> bool {
    exists|k: int|
        0 <= k < j && ds[k].name@ == "fulltext"@ && #[trigger] spec_ft_dir_name(ds[k]) == Some(
            name,
        )
}

/// The name errors of the `@fulltext` directive at position `j`: the
/// argument must be a string and must reuse neither a field name of an
/// entity type nor an earlier fulltext search name.
pub open spec fn spec_ft_name_errs(
    defs: Seq<DocDefinition>,
    ds: Seq<DirectiveUse>,
    j: int,
) -> Seq<ErrModel> {
    match spec_argument(ds[j].arguments@, "name"@) {
        Some(ArgValue::String(n)) => if spec_field_name_taken(defs, n@) || spec_search_name_taken(
            ds,
            j,
            n@,
        ) {
            seq![ErrModel::FulltextNameCollision { name: n@ }]
        } else {
            Seq::empty()
        },
        _ => seq![ErrModel::FulltextNameMissing],
    }
}

/// The language errors of one `@fulltext` directive.
pub open spec fn spec_ft_language_errs(d: DirectiveUse) -> Seq<ErrModel> {
    match spec_word_value(spec_argument(d.arguments@, "language"@)) {
        Some(t) => if spec_parse_language(t) is Some {
            Seq::empty()
        } else {
            seq![ErrModel::FulltextLanguageInvalid]
        },
        None => seq![ErrModel::FulltextLanguageInvalid],
    }
}

/// The algorithm errors of one `@fulltext` directive; the message always
/// lists the two recognized values.
pub open spec fn spec_ft_algorithm_errs(d: DirectiveUse) -> Seq<ErrModel> {
    match spec_word_value(spec_argument(d.arguments@, "algorithm"@)) {
        Some(t) => if spec_parse_algorithm(t) is Some {
            Seq::empty()
        } else {
            seq![ErrModel::FulltextAlgorithmInvalid { message: spec_invalid_algorithm_message(t) }]
        },
        None => seq![
            ErrModel::FulltextAlgorithmInvalid {
                message: spec_invalid_algorithm_message(Seq::empty()),
            },
        ],
    }
}

/// Whether one `@fulltext` directive's `include` argument is sound: a
/// non-empty list whose first entry names an entity type of the document and
/// a non-empty set of fields that all exist on it.
pub open spec fn spec_ft_include_ok(defs: Seq<DocDefinition>, d: DirectiveUse) -> bool {
    match spec_fulltext_definition(d) {
        Some(t) => {
            let entity = t.3;
            let fields = t.4;
            &&& fields.len() > 0
            &&& match spec_object_type(defs, entity) {
                Some(o) => forall|k: int|
                    0 <= k < fields.len() ==> spec_field(o.fields@, fields[k]) is Some,
                None => false,
            }
        },
        None => false,
    }
}

/// The include errors of one `@fulltext` directive.
pub open spec fn spec_ft_include_errs(defs: Seq<DocDefinition>, d: DirectiveUse) -> Seq<ErrModel> {
    if spec_ft_include_ok(defs, d) {
        Seq::empty()
    } else {
        seq![ErrModel::FulltextIncludeInvalid]
    }
}

/// Every error of the `@fulltext` directive at position `j`, in the order
/// the sub-checks run: name, language, algorithm, include.
pub open spec fn spec_ft_dir_errs(
    defs: Seq<DocDefinition>,
    ds: Seq<DirectiveUse>,
    j: int,
) -> Seq<ErrModel> {
    spec_ft_name_errs(defs, ds, j) + spec_ft_language_errs(ds[j]) + spec_ft_algorithm_errs(ds[j])
        + spec_ft_include_errs(defs, ds[j])
}

/// The fulltext errors of the first `j` directives of the schema-metadata
/// type.
pub open spec fn spec_ft_errs_upto(defs: Seq<DocDefinition>, ds: Seq<DirectiveUse>, j: int) -> Seq<
    ErrModel,
>
    decreases j,
{
    if j <= 0 {
        Seq::empty()
    } else {
        spec_ft_errs_upto(defs, ds, j - 1) + (if ds[j - 1].name@ == "fulltext"@ {
            spec_ft_dir_errs(defs, ds, j - 1)
        } else {
            Seq::empty()
        })
    }
}

/// Every fulltext error of a document.
pub open spec fn spec_fulltext_errs(defs: Seq<DocDefinition>) -> Seq<ErrModel> {
    match spec_object_type(defs, "_Schema_"@) {
        Some(o) => spec_ft_errs_upto(defs, o.directives@, o.directives@.len() as int),
        None => Seq::empty(),
    }
}

// ---------------------------------------------------------------------------
// Import directives

/// Whether an `@import` directive's `types` argument is a list whose every
/// entry has one of the two accepted shapes.
pub open spec fn spec_import_types_ok(d: DirectiveUse) -> bool {
    match spec_argument(d.arguments@, "types"@) {
        Some(ArgValue::List(l)) => forall|k: int|
            0 <= k < l@.len() ==> spec_imported_type(l@[k]) is Some,
        _ => false,
    }
}

/// The errors of one `@import` directive: its type list, then its subgraph
/// reference.
pub open spec fn spec_import_dir_errs(d: DirectiveUse) -> Seq<ErrModel> {
    (if spec_import_types_ok(d) {
        Seq::empty()
    } else {
        seq![ErrModel::ImportDirectiveInvalid]
    }) + (if spec_ref_of_directive(d) is Some {
        Seq::empty()
    } else {
        seq![ErrModel::ImportedSubgraphReferenceInvalid]
    })
}

/// The import-syntax errors of the first `j` directives.
pub open spec fn spec_import_errs_upto(ds: Seq<DirectiveUse>, j: int) -> Seq<ErrModel>
    decreases j,
{
    if j <= 0 {
        Seq::empty()
    } else {
        spec_import_errs_upto(ds, j - 1) + (if ds[j - 1].name@ == "import"@ {
            spec_import_dir_errs(ds[j - 1])
        } else {
            Seq::empty()
        })
    }
}

/// Every import-syntax error of a document.
pub open spec fn spec_import_errs(defs: Seq<DocDefinition>) -> Seq<ErrModel> {
    match spec_object_type(defs, "_Schema_"@) {
        Some(o) => spec_import_errs_upto(o.directives@, o.directives@.len() as int),
        None => Seq::empty(),
    }
}

// ---------------------------------------------------------------------------
// Field base types

/// The scalar types every document may use without declaring them.
pub open spec fn spec_builtin_scalar(n: Seq<char>) -> bool {
    n == "ID"@ || n == "String"@ || n == "Boolean"@ || n == "Int"@ || n == "BigInt"@ || n
        == "Bytes"@ || n == "BigDecimal"@
}

/// Whether some import entry brings a type in under the alias `n`.
pub open spec fn spec_imported_alias(defs: Seq<DocDefinition>, n: Seq<char>) -> bool {
    exists|k: int|
        0 <= k < spec_schema_imports(defs).len() && spec_schema_imports(defs)[k].1 == n
}

/// Whether a field's base type resolves: a built-in scalar, a type of the
/// document, or an imported alias.
pub open spec fn spec_field_type_ok(defs: Seq<DocDefinition>, f: FieldDef) -> bool {
    let base = spec_base_type(f.field_type);
    spec_builtin_scalar(base) || spec_named_type(defs, base) is Some || spec_imported_alias(
        defs,
        base,
    )
}

/// The unknown-type errors among the first `k` fields of one type.
pub open spec fn spec_field_errs_list(
    defs: Seq<DocDefinition>,
    owner: Seq<char>,
    fields: Seq<FieldDef>,
    k: int,
) -> Seq<ErrModel>
    decreases k,
{
    if k <= 0 {
        Seq::empty()
    } else {
        spec_field_errs_list(defs, owner, fields, k - 1) + (if spec_field_type_ok(
            defs,
            fields[k - 1],
        ) {
            Seq::empty()
        } else {
            seq![
                ErrModel::FieldTypeUnknown {
                    owner: owner,
                    field: fields[k - 1].name@,
                    base_type: spec_base_type(fields[k - 1].field_type),
                },
            ]
        })
    }
}

/// The unknown-type errors of one definition's fields.
pub open spec fn spec_field_errs_def(defs: Seq<DocDefinition>, d: DocDefinition) -> Seq<ErrModel> {
    match d {
        DocDefinition::Type(TypeDef::Object(o)) => spec_field_errs_list(
            defs,
            o.name@,
            o.fields@,
            o.fields@.len() as int,
        ),
        DocDefinition::Type(TypeDef::Interface(f)) => spec_field_errs_list(
            defs,
            f.name@,
            f.fields@,
            f.fields@.len() as int,
        ),
        _ => Seq::empty(),
    }
}

/// The unknown-type errors of the first `i` definitions.
pub open spec fn spec_field_errs_upto(defs: Seq<DocDefinition>, i: int) -> Seq<ErrModel>
    decreases i,
{
    if i <= 0 {
        Seq::empty()
    } else {
        spec_field_errs_upto(defs, i - 1) + spec_field_errs_def(defs, defs[i - 1])
    }
}

/// Every unknown-field-type error of a document.
pub open spec fn spec_field_errs(defs: Seq<DocDefinition>) -> Seq<ErrModel> {
    spec_field_errs_upto(defs, defs.len() as int)
}

// ---------------------------------------------------------------------------
// @derivedFrom

/// Whether a derived field points back properly: its directive names a field
/// of the field's base type whose own base type is the declaring type or an
/// interface the declaring type implements.
pub open spec fn spec_derived_ok(defs: Seq<DocDefinition>, o: ObjectDef, f: FieldDef) -> bool {
    match spec_directive(f.directives@, "derivedFrom"@) {
        Some(d) => match spec_argument(d.arguments@, "field"@) {
            Some(ArgValue::String(tname)) => match spec_named_type(
                defs,
                spec_base_type(f.field_type),
            ) {
                Some(TypeDef::Object(t)) => spec_back_ref_ok(o, t.fields@, tname@),
                Some(TypeDef::Interface(t)) => spec_back_ref_ok(o, t.fields@, tname@),
                _ => false,
            },
            _ => false,
        },
        None => true,
    }
}

/// Whether the named field of the pointed-to type refers back to the
/// declaring type, directly or through an interface it implements.
pub open spec fn spec_back_ref_ok(o: ObjectDef, tfields: Seq<FieldDef>, tname: Seq<char>) -> bool {
    match spec_field(tfields, tname) {
        Some(tf) => spec_base_type(tf.field_type) == o.name@ || crate::schema::spec_implements(
            o,
            spec_base_type(tf.field_type),
        ),
        None => false,
    }
}

/// The first derived-field violation among one object's fields, from `k` on.
pub open spec fn spec_first_derived_err_in(
    defs: Seq<DocDefinition>,
    o: ObjectDef,
    k: int,
) -> Option<ErrModel>
    decreases o.fields@.len() - k,
{
    if k < 0 || k >= o.fields@.len() {
        None
    } else if !spec_derived_ok(defs, o, o.fields@[k]) {
        Some(ErrModel::DerivedFromInvalid { owner: o.name@, field: o.fields@[k].name@ })
    } else {
        spec_first_derived_err_in(defs, o, k + 1)
    }
}

/// The first derived-field violation of the document, from definition `i`
/// on.
pub open spec fn spec_first_derived_err(defs: Seq<DocDefinition>, i: int) -> Option<ErrModel>
    decreases defs.len() - i,
{
    if i < 0 || i >= defs.len() {
        None
    } else {
        match defs[i] {
            DocDefinition::Type(TypeDef::Object(o)) => match spec_first_derived_err_in(
                defs,
                o,
                0,
            ) {
                Some(e) => Some(e),
                None => spec_first_derived_err(defs, i + 1),
            },
            _ => spec_first_derived_err(defs, i + 1),
        }
    }
}

/// The derived-field errors of a document: the first violation, if any.
pub open spec fn spec_derived_errs(defs: Seq<DocDefinition>) -> Seq<ErrModel> {
    match spec_first_derived_err(defs, 0) {
        Some(e) => seq![e],
        None => Seq::empty(),
    }
}

// ---------------------------------------------------------------------------
// Interface implementation

/// Structural equality of two type references.
pub open spec fn spec_type_ref_eqv(a: TypeRef, b: TypeRef) -> bool
    decreases a,
{
    match (a, b) {
        (TypeRef::Named(x), TypeRef::Named(y)) => x@ == y@,
        (TypeRef::List(x), TypeRef::List(y)) => spec_type_ref_eqv(*x, *y),
        (TypeRef::NonNull(x), TypeRef::NonNull(y)) => spec_type_ref_eqv(*x, *y),
        _ => false,
    }
}

/// Whether the object declares the interface field under the same name and
/// an identical type.
pub open spec fn spec_field_implemented(o: ObjectDef, f: FieldDef) -> bool {
    match spec_field(o.fields@, f.name@) {
        Some(of) => spec_type_ref_eqv(of.field_type, f.field_type),
        None => false,
    }
}

/// The name of the first interface field, from `k` on, that the object does
/// not properly declare.
pub open spec fn spec_first_unimplemented(o: ObjectDef, ifields: Seq<FieldDef>, k: int) -> Option<
    Seq<char>,
>
    decreases ifields.len() - k,
{
    if k < 0 || k >= ifields.len() {
        None
    } else if !spec_field_implemented(o, ifields[k]) {
        Some(ifields[k].name@)
    } else {
        spec_first_unimplemented(o, ifields, k + 1)
    }
}

/// The first implementation violation of one object, over its `implements`
/// clause from `k` on.
pub open spec fn spec_first_impl_err_in(defs: Seq<DocDefinition>, o: ObjectDef, k: int) -> Option<
    ErrModel,
>
    decreases o.implements_interfaces@.len() - k,
{
    if k < 0 || k >= o.implements_interfaces@.len() {
        None
    } else {
        match spec_interface_type(defs, o.implements_interfaces@[k]@) {
            Some(f) => match spec_first_unimplemented(o, f.fields@, 0) {
                Some(fname) => Some(
                    ErrModel::InterfaceFieldNotImplemented {
                        implementor: o.name@,
                        interface: f.name@,
                        field: fname,
                    },
                ),
                None => spec_first_impl_err_in(defs, o, k + 1),
            },
            None => spec_first_impl_err_in(defs, o, k + 1),
        }
    }
}

/// The first implementation violation of the document, from definition `i`
/// on.
pub open spec fn spec_first_impl_err(defs: Seq<DocDefinition>, i: int) -> Option<ErrModel>
    decreases defs.len() - i,
{
    if i < 0 || i >= defs.len() {
        None
    } else {
        match defs[i] {
            DocDefinition::Type(TypeDef::Object(o)) => match spec_first_impl_err_in(defs, o, 0) {
                Some(e) => Some(e),
                None => spec_first_impl_err(defs, i + 1),
            },
            _ => spec_first_impl_err(defs, i + 1),
        }
    }
}

/// The interface-implementation errors of a document: the first violation,
/// if any.
pub open spec fn spec_impl_errs(defs: Seq<DocDefinition>) -> Seq<ErrModel> {
    match spec_first_impl_err(defs, 0) {
        Some(e) => seq![e],
        None => Seq::empty(),
    }
}

// ---------------------------------------------------------------------------
// Interface id-type consistency

/// The id kind of an entity type: text-keyed (`ID` or `String`), byte-keyed
/// (`Bytes`), or nothing when the id field is missing or of another type.
pub open spec fn spec_id_kind(o: ObjectDef) -> Option<bool> {
    match spec_field(o.fields@, "id"@) {
        Some(f) => {
            let base = spec_base_type(f.field_type);
            if base == "ID"@ || base == "String"@ {
                Some(true)
            } else if base == "Bytes"@ {
                Some(false)
            } else {
                None
            }
        },
        None => None,
    }
}

/// Scans the document for implementors of `iface` from definition `j` on,
/// carrying the id kind of the first implementor seen, and yields the first
/// anomaly: an implementor with an illegal id type, or one whose kind
/// differs from the first.
pub open spec fn spec_iface_id_scan(
    defs: Seq<DocDefinition>,
    iface: Seq<char>,
    j: int,
    kind0: Option<bool>,
) -> Option<ErrModel>
    decreases defs.len() - j,
{
    if j < 0 || j >= defs.len() {
        None
    } else {
        match defs[j] {
            DocDefinition::Type(TypeDef::Object(o)) => if crate::schema::spec_implements(
                o,
                iface,
            ) {
                match spec_id_kind(o) {
                    None => Some(ErrModel::IllegalIdType { owner: o.name@ }),
                    Some(b) => match kind0 {
                        None => spec_iface_id_scan(defs, iface, j + 1, Some(b)),
                        Some(b0) => if b != b0 {
                            Some(ErrModel::InterfaceIdTypeMismatch { interface: iface })
                        } else {
                            spec_iface_id_scan(defs, iface, j + 1, Some(b0))
                        },
                    },
                }
            } else {
                spec_iface_id_scan(defs, iface, j + 1, kind0)
            },
            _ => spec_iface_id_scan(defs, iface, j + 1, kind0),
        }
    }
}

/// The first id-type anomaly of the document, over its interface
/// definitions from `i` on.
pub open spec fn spec_first_id_err(defs: Seq<DocDefinition>, i: int) -> Option<ErrModel>
    decreases defs.len() - i,
{
    if i < 0 || i >= defs.len() {
        None
    } else {
        match defs[i] {
            DocDefinition::Type(TypeDef::Interface(f)) => match spec_iface_id_scan(
                defs,
                f.name@,
                0,
                None,
            ) {
                Some(e) => Some(e),
                None => spec_first_id_err(defs, i + 1),
            },
            _ => spec_first_id_err(defs, i + 1),
        }
    }
}

/// The id-type errors of a document: the first anomaly, if any.
pub open spec fn spec_id_errs(defs: Seq<DocDefinition>) -> Seq<ErrModel> {
    match spec_first_id_err(defs, 0) {
        Some(e) => seq![e],
        None => Seq::empty(),
    }
}

// ---------------------------------------------------------------------------
// The whole battery

/// Every structural error local to one document, in the order the checks
/// run: reserved names, the metadata type's fields and directives, fulltext
/// directives, import syntax, field types, derived fields, interface
/// implementation, interface id types.
pub open spec fn spec_local_errs(defs: Seq<DocDefinition>) -> Seq<ErrModel> {
    spec_reserved_errs(defs) + spec_schema_type_field_errs(defs) + spec_schema_type_directive_errs(
        defs,
    ) + spec_fulltext_errs(defs) + spec_import_errs(defs) + spec_field_errs(defs)
        + spec_derived_errs(defs) + spec_impl_errs(defs) + spec_id_errs(defs)
}

/// The schema held in a resolved-import map under a subgraph identity,
/// scanning from `i` on.
pub open spec fn spec_schema_for(
    ms: Seq<(SchemaReference, Schema)>,
    sg: Seq<char>,
    i: int,
) -> Option<Schema>
    decreases ms.len() - i,
{
    if i < 0 || i >= ms.len() {
        None
    } else if ms[i].0.subgraph@ == sg {
        Some(ms[i].1)
    } else {
        spec_schema_for(ms, sg, i + 1)
    }
}

/// The errors of the first `k` import entries against a resolved-import
/// map: an entry whose referenced schema is present but does not define the
/// named type is an error; an unresolved reference is no structural error.
pub open spec fn spec_imported_type_errs_upto(
    entries: Seq<(Seq<char>, Seq<char>, bool, Seq<char>)>,
    ms: Seq<(SchemaReference, Schema)>,
    k: int,
) -> Seq<ErrModel>
    decreases k,
{
    if k <= 0 {
        Seq::empty()
    } else {
        spec_imported_type_errs_upto(entries, ms, k - 1) + (match spec_schema_for(
            ms,
            entries[k - 1].3,
            0,
        ) {
            Some(remote) => if spec_named_type(
                remote.document.definitions@,
                entries[k - 1].0,
            ) is Some {
                Seq::empty()
            } else {
                seq![
                    ErrModel::ImportedTypeUndefined {
                        name: entries[k - 1].0,
                        subgraph: entries[k - 1].3,
                    },
                ]
            },
            None => Seq::empty(),
        })
    }
}

/// Every imported-type resolvability error of a document against a
/// resolved-import map.
pub open spec fn spec_imported_type_errs(
    defs: Seq<DocDefinition>,
    ms: Seq<(SchemaReference, Schema)>,
) -> Seq<ErrModel> {
    spec_imported_type_errs_upto(
        spec_schema_imports(defs),
        ms,
        spec_schema_imports(defs).len() as int,
    )
}

/// Every error validation reports for a schema and a resolved-import map.
pub open spec fn spec_validate_errs(
    defs: Seq<DocDefinition>,
    ms: Seq<(SchemaReference, Schema)>,
) -> Seq<ErrModel> {
    spec_local_errs(defs) + spec_imported_type_errs(defs, ms)
}

// ---------------------------------------------------------------------------
// Executable checks

/// The errors of a list, abstracted.
pub open spec fn errs_view(v: Seq<SchemaValidationError>) -> Seq<ErrModel> {
    v.map_values(|e: SchemaValidationError| err_view(e))
}

/// Structural equality of two type references, decided.
pub fn type_ref_eq(a: &TypeRef, b: &TypeRef) -> (r: bool)
    ensures
        r == spec_type_ref_eqv(*a, *b),
    decreases *a,
{
    match (a, b) {
        (TypeRef::Named(x), TypeRef::Named(y)) => crate::model::str_eq(x.as_str(), y.as_str()),
        (TypeRef::List(x), TypeRef::List(y)) => type_ref_eq(x, y),
        (TypeRef::NonNull(x), TypeRef::NonNull(y)) => type_ref_eq(x, y),
        _ => false,
    }
}

/// The id kind of an entity type, decided.
fn id_kind(o: &ObjectDef) -> (r: Option<bool>)
    ensures
        r == spec_id_kind(*o),
{
    match crate::model::find_field(&o.fields, "id") {
        Some(f) => {
            let base = f.field_type.get_base_type();
            if crate::model::str_eq(base.as_str(), "ID") || crate::model::str_eq(
                base.as_str(),
                "String",
            ) {
                Some(true)
            } else if crate::model::str_eq(base.as_str(), "Bytes") {
                Some(false)
            } else {
                None
            }
        },
        None => None,
    }
}

/// Whether an earlier `@fulltext` directive, among the first `j`, already
/// declared the search name, decided.
fn search_name_taken(ds: &Vec<DirectiveUse>, j: usize, name: &str) -> (r: bool)
    requires
        j <= ds@.len(),
    ensures
        r == spec_search_name_taken(ds@, j as int, name@),
{
    let mut k: usize = 0;
    while k < j
        invariant
            j <= ds@.len(),
            k <= j,
            forall|t: int|
                0 <= t < k ==> !(ds@[t].name@ == "fulltext"@ && #[trigger] spec_ft_dir_name(
                    ds@[t],
                ) == Some(name@)),
        decreases j - k,
    {
        if crate::model::str_eq(ds[k].name.as_str(), "fulltext") {
            match crate::model::argument_lookup(&ds[k].arguments, "name") {
                Some(ArgValue::String(m)) => {
                    if crate::model::str_eq(m.as_str(), name) {
                        proof {
                            assert(spec_ft_dir_name(ds@[k as int]) == Some(name@));
                        }
                        return true;
                    }
                },
                _ => {},
            }
        }
        proof {
            assert(!(ds@[k as int].name@ == "fulltext"@ && spec_ft_dir_name(ds@[k as int])
                == Some(name@)));
        }
        k += 1;
    }
    false
}

impl Schema {
    /// Rejects user definitions under platform-reserved names; one error
    /// lists every offender.
    pub fn validate_reserved_types_usage(&self) -> (r: Result<(), SchemaValidationError>)
        ensures
            match r {
                Ok(()) => spec_reserved_errs(self.document.definitions@).len() == 0,
                Err(e) => spec_reserved_errs(self.document.definitions@) == seq![err_view(e)],
            },
    {
        let ghost defs = self.document.definitions@;
        let n = self.document.definitions.len();
        let mut names: Vec<String> = Vec::new();
        let mut i: usize = 0;
        while i < n
            invariant
                n == defs.len(),
                defs == self.document.definitions@,
                i <= n,
                names@.map_values(|s: String| s@) == spec_reserved_offenders(defs, i as int),
            decreases n - i,
        {
            let ghost prev = names@.map_values(|s: String| s@);
            match &self.document.definitions[i] {
                DocDefinition::Type(td) => {
                    let name = td.name();
                    let is_object = match td {
                        TypeDef::Object(_) => true,
                        _ => false,
                    };
                    if crate::model::str_eq(name.as_str(), "_Meta_") || crate::model::str_eq(
                        name.as_str(),
                        "_Block_",
                    ) || (crate::model::str_eq(name.as_str(), "_Schema_") && !is_object) {
                        names.push(name.clone());
                        proof {
                            assert(names@.map_values(|s: String| s@) =~= prev.push(
                                type_def_name(*td),
                            ));
                            assert(spec_reserved_offenders(defs, i as int + 1) =~= prev.push(
                                type_def_name(*td),
                            ));
                        }
                    } else {
                        proof {
                            assert(spec_reserved_offenders(defs, i as int + 1) =~= prev);
                        }
                    }
                },
                DocDefinition::Other => {
                    proof {
                        assert(spec_reserved_offenders(defs, i as int + 1) =~= prev);
                    }
                },
            }
            i += 1;
        }
        if names.len() == 0 {
            Ok(())
        } else {
            Err(SchemaValidationError::UsageOfReservedTypes { names: Strings(names) })
        }
    }

    /// The schema-metadata type, if present, must declare no fields.
    pub fn validate_schema_type_has_no_fields(&self) -> (r: Result<(), SchemaValidationError>)
        ensures
            match r {
                Ok(()) => spec_schema_type_field_errs(self.document.definitions@).len() == 0,
                Err(e) => spec_schema_type_field_errs(self.document.definitions@) == seq![
                    err_view(e),
                ],
            },
    {
        match self.subgraph_schema_object_type() {
            Some(o) => {
                if o.fields.len() > 0 {
                    Err(SchemaValidationError::SchemaTypeWithFields)
                } else {
                    Ok(())
                }
            },
            None => Ok(()),
        }
    }

    /// Only `@import` and `@fulltext` may stand on the schema-metadata type;
    /// every other directive there is reported.
    pub fn validate_directives_on_schema_type(&self) -> (r: Vec<SchemaValidationError>)
        ensures
            errs_view(r@) == spec_schema_type_directive_errs(self.document.definitions@),
    {
        let ghost defs = self.document.definitions@;
        let mut out: Vec<SchemaValidationError> = Vec::new();
        let schema_type = match self.subgraph_schema_object_type() {
            Some(o) => o,
            None => {
                return out;
            },
        };
        let nd = schema_type.directives.len();
        let mut j: usize = 0;
        while j < nd
            invariant
                nd == schema_type.directives@.len(),
                spec_object_type(defs, "_Schema_"@) == Some(*schema_type),
                defs == self.document.definitions@,
                j <= nd,
                errs_view(out@) == spec_bad_directive_names(schema_type.directives@, j as int),
            decreases nd - j,
        {
            let d = &schema_type.directives[j];
            let ghost prev = errs_view(out@);
            if !crate::model::str_eq(d.name.as_str(), "import") && !crate::model::str_eq(
                d.name.as_str(),
                "fulltext",
            ) {
                out.push(SchemaValidationError::InvalidSchemaTypeDirective { name: d.name.clone() });
                proof {
                    assert(errs_view(out@) =~= prev.push(
                        ErrModel::InvalidSchemaTypeDirective { name: d.name@ },
                    ));
                    assert(spec_bad_directive_names(schema_type.directives@, j as int + 1)
                        =~= prev.push(ErrModel::InvalidSchemaTypeDirective { name: d.name@ }));
                }
            } else {
                proof {
                    assert(spec_bad_directive_names(schema_type.directives@, j as int + 1)
                        =~= prev);
                }
            }
            j += 1;
        }
        out
    }

    /// Both shape checks of the schema-metadata type: no fields, and no
    /// directive besides `@import` and `@fulltext`.
    pub fn validate_schema_types(&self) -> (r: Vec<SchemaValidationError>)
        ensures
            errs_view(r@) == spec_schema_type_field_errs(self.document.definitions@)
                + spec_schema_type_directive_errs(self.document.definitions@),
    {
        let mut out: Vec<SchemaValidationError> = Vec::new();
        match self.validate_schema_type_has_no_fields() {
            Ok(()) => {},
            Err(e) => {
                out.push(e);
            },
        }
        let ghost head = errs_view(out@);
        let mut more = self.validate_directives_on_schema_type();
        let ghost tail = errs_view(more@);
        out.append(&mut more);
        proof {
            assert(errs_view(out@) =~= head + tail);
            assert(head =~= spec_schema_type_field_errs(self.document.definitions@));
        }
        out
    }

    /// Whether some entity type of the document declares a field with this
    /// name.
    fn field_name_taken(&self, name: &str) -> (r: bool)
        ensures
            r == spec_field_name_taken(self.document.definitions@, name@),
    {
        let n = self.document.definitions.len();
        let mut i: usize = 0;
        while i < n
            invariant
                n == self.document.definitions@.len(),
                i <= n,
                forall|k: int|
                    0 <= k < i ==> !spec_def_declares_field(self.document.definitions@[k], name@),
            decreases n - i,
        {
            match &self.document.definitions[i] {
                DocDefinition::Type(TypeDef::Object(o)) => {
                    if crate::model::find_field(&o.fields, name).is_some() {
                        proof {
                            assert(spec_def_declares_field(
                                self.document.definitions@[i as int],
                                name@,
                            ));
                        }
                        return true;
                    }
                },
                _ => {},
            }
            i += 1;
        }
        false
    }

    /// The `name` sub-check of the `@fulltext` directive at position `j` of
    /// the schema-metadata type's directive list.
    pub fn validate_fulltext_directive_name(
        &self,
        directives: &Vec<DirectiveUse>,
        j: usize,
    ) -> (r: Vec<SchemaValidationError>)
        requires
            j < directives@.len(),
        ensures
            errs_view(r@) == spec_ft_name_errs(self.document.definitions@, directives@, j as int),
    {
        let fulltext = &directives[j];
        let mut out: Vec<SchemaValidationError> = Vec::new();
        match crate::model::argument_lookup(&fulltext.arguments, "name") {
            Some(ArgValue::String(n)) => {
                if self.field_name_taken(n.as_str()) || search_name_taken(directives, j, n.as_str())
                {
                    out.push(SchemaValidationError::FulltextNameCollision { name: n.clone() });
                    proof {
                        assert(errs_view(out@) =~= seq![
                            ErrModel::FulltextNameCollision { name: n@ },
                        ]);
                    }
                } else {
                    proof {
                        assert(errs_view(out@) =~= Seq::<ErrModel>::empty());
                    }
                }
            },
            _ => {
                out.push(SchemaValidationError::FulltextNameMissing);
                proof {
                    assert(errs_view(out@) =~= seq![ErrModel::FulltextNameMissing]);
                }
            },
        }
        out
    }

    /// The `language` sub-check of one `@fulltext` directive.
    pub fn validate_fulltext_directive_language(&self, fulltext: &DirectiveUse) -> (r: Vec<
        SchemaValidationError,
    >)
        ensures
            errs_view(r@) == spec_ft_language_errs(*fulltext),
    {
        let mut out: Vec<SchemaValidationError> = Vec::new();
        let ok = match crate::model::argument_lookup(&fulltext.arguments, "language") {
            Some(ArgValue::Enum(s)) => FulltextLanguage::parse(s.as_str()).is_some(),
            Some(ArgValue::String(s)) => FulltextLanguage::parse(s.as_str()).is_some(),
            _ => false,
        };
        if !ok {
            out.push(SchemaValidationError::FulltextLanguageInvalid);
            proof {
                assert(errs_view(out@) =~= seq![ErrModel::FulltextLanguageInvalid]);
            }
        } else {
            proof {
                assert(errs_view(out@) =~= Seq::<ErrModel>::empty());
            }
        }
        out
    }

    /// The `algorithm` sub-check of one `@fulltext` directive.
    pub fn validate_fulltext_directive_algorithm(&self, fulltext: &DirectiveUse) -> (r: Vec<
        SchemaValidationError,
    >)
        ensures
            errs_view(r@) == spec_ft_algorithm_errs(*fulltext),
    {
        let mut out: Vec<SchemaValidationError> = Vec::new();
        let word: Option<&String> = match crate::model::argument_lookup(
            &fulltext.arguments,
            "algorithm",
        ) {
            Some(ArgValue::Enum(s)) => Some(s),
            Some(ArgValue::String(s)) => Some(s),
            _ => None,
        };
        match word {
            Some(s) => {
                match FulltextAlgorithm::parse(s.as_str()) {
                    Ok(_) => {
                        proof {
                            assert(errs_view(out@) =~= Seq::<ErrModel>::empty());
                        }
                    },
                    Err(m) => {
                        let ghost mv = m@;
                        out.push(SchemaValidationError::FulltextAlgorithmInvalid { message: m });
                        proof {
                            assert(errs_view(out@) =~= seq![
                                ErrModel::FulltextAlgorithmInvalid { message: mv },
                            ]);
                        }
                    },
                }
            },
            None => {
                match FulltextAlgorithm::parse("") {
                    Ok(_) => {
                        proof {
                            reveal_strlit("");
                            reveal_strlit("rank");
                            reveal_strlit("proximityRank");
                            assert(""@.len() == 0);
                            assert("rank"@.len() == 4);
                            assert("proximityRank"@.len() == 13);
                            assert(false);
                        }
                    },
                    Err(m) => {
                        let ghost mv = m@;
                        out.push(SchemaValidationError::FulltextAlgorithmInvalid { message: m });
                        proof {
                            reveal_strlit("");
                            assert(""@ =~= Seq::<char>::empty());
                            assert(errs_view(out@) =~= seq![
                                ErrModel::FulltextAlgorithmInvalid { message: mv },
                            ]);
                        }
                    },
                }
            },
        }
        out
    }

    /// Whether one `@fulltext` directive's `include` argument is sound,
    /// decided.
    fn fulltext_include_ok(&self, fulltext: &DirectiveUse) -> (r: bool)
        ensures
            r == spec_ft_include_ok(self.document.definitions@, *fulltext),
    {
        let d = match crate::fulltext::FulltextDefinition::from_directive(fulltext) {
            Some(d) => d,
            None => {
                return false;
            },
        };
        if d.included_fields.len() == 0 {
            return false;
        }
        let entity = match crate::fulltext::FulltextDefinition::directive_entity(fulltext) {
            Some(entity) => entity,
            None => vstd::pervasive::unreached(),
        };
        let o = match self.document.get_object_type_definition(entity.as_str()) {
            Some(o) => o,
            None => {
                return false;
            },
        };
        let m = d.included_fields.len();
        let mut k: usize = 0;
        while k < m
            invariant
                m == d.included_fields@.len(),
                k <= m,
                match spec_fulltext_definition(*fulltext) {
                    Some(t) => d.included_fields@.map_values(|s: String| s@) == t.4
                        && spec_object_type(self.document.definitions@, t.3) == Some(*o),
                    None => false,
                },
                forall|t: int|
                    0 <= t < k ==> spec_field(o.fields@, d.included_fields@[t]@) is Some,
            decreases m - k,
        {
            if crate::model::find_field(&o.fields, d.included_fields[k].as_str()).is_none() {
                proof {
                    let fields = (match spec_fulltext_definition(*fulltext) {
                        Some(t) => t.4,
                        None => Seq::<Seq<char>>::empty(),
                    });
                    assert(fields[k as int] == d.included_fields@[k as int]@);
                }
                return false;
            }
            k += 1;
        }
        proof {
            let fields = (match spec_fulltext_definition(*fulltext) {
                Some(t) => t.4,
                None => Seq::<Seq<char>>::empty(),
            });
            assert(forall|t: int|
                0 <= t < fields.len() ==> fields[t] == d.included_fields@[t]@);
        }
        true
    }

    /// The `include` sub-check of one `@fulltext` directive.
    pub fn validate_fulltext_directive_includes(&self, fulltext: &DirectiveUse) -> (r: Vec<
        SchemaValidationError,
    >)
        ensures
            errs_view(r@) == spec_ft_include_errs(self.document.definitions@, *fulltext),
    {
        let mut out: Vec<SchemaValidationError> = Vec::new();
        if !self.fulltext_include_ok(fulltext) {
            out.push(SchemaValidationError::FulltextIncludeInvalid);
            proof {
                assert(errs_view(out@) =~= seq![ErrModel::FulltextIncludeInvalid]);
            }
        } else {
            proof {
                assert(errs_view(out@) =~= Seq::<ErrModel>::empty());
            }
        }
        out
    }

    /// Every fulltext error of this schema, each directive checked for its
    /// name, language, algorithm and include list in turn.
    pub fn validate_fulltext_directives(&self) -> (r: Vec<SchemaValidationError>)
        ensures
            errs_view(r@) == spec_fulltext_errs(self.document.definitions@),
    {
        let ghost defs = self.document.definitions@;
        let mut out: Vec<SchemaValidationError> = Vec::new();
        let schema_type = match self.subgraph_schema_object_type() {
            Some(o) => o,
            None => {
                return out;
            },
        };
        let nd = schema_type.directives.len();
        let mut j: usize = 0;
        while j < nd
            invariant
                nd == schema_type.directives@.len(),
                spec_object_type(defs, "_Schema_"@) == Some(*schema_type),
                defs == self.document.definitions@,
                j <= nd,
                errs_view(out@) == spec_ft_errs_upto(defs, schema_type.directives@, j as int),
            decreases nd - j,
        {
            let d = &schema_type.directives[j];
            let ghost prev = errs_view(out@);
            if crate::model::str_eq(d.name.as_str(), "fulltext") {
                let mut part = self.validate_fulltext_directive_name(&schema_type.directives, j);
                let ghost v1 = errs_view(part@);
                out.append(&mut part);
                let mut part2 = self.validate_fulltext_directive_language(d);
                let ghost v2 = errs_view(part2@);
                out.append(&mut part2);
                let mut part3 = self.validate_fulltext_directive_algorithm(d);
                let ghost v3 = errs_view(part3@);
                out.append(&mut part3);
                let mut part4 = self.validate_fulltext_directive_includes(d);
                let ghost v4 = errs_view(part4@);
                out.append(&mut part4);
                proof {
                    assert(errs_view(out@) =~= prev + v1 + v2 + v3 + v4);
                    assert(spec_ft_errs_upto(defs, schema_type.directives@, j as int + 1)
                        =~= prev + v1 + v2 + v3 + v4);
                }
            } else {
                proof {
                    assert(spec_ft_errs_upto(defs, schema_type.directives@, j as int + 1)
                        =~= prev);
                }
            }
            j += 1;
        }
        out
    }

    /// Checks the `types` list of one `@import` directive.
    pub fn validate_import_directive_arguments(import: &DirectiveUse) -> (r: Option<
        SchemaValidationError,
    >)
        ensures
            match r {
                None => spec_import_types_ok(*import),
                Some(e) => !spec_import_types_ok(*import) && err_view(e)
                    == ErrModel::ImportDirectiveInvalid,
            },
    {
        match crate::model::argument_lookup(&import.arguments, "types") {
            Some(ArgValue::List(l)) => {
                let n = l.len();
                let mut k: usize = 0;
                while k < n
                    invariant
                        n == l@.len(),
                        k <= n,
                        spec_argument(import.arguments@, "types"@) == Some(ArgValue::List(*l)),
                        forall|t: int| 0 <= t < k ==> spec_imported_type(l@[t]) is Some,
                    decreases n - k,
                {
                    if ImportedType::parse(&l[k]).is_none() {
                        proof {
                            assert(spec_imported_type(l@[k as int]) is None);
                            assert(!spec_import_types_ok(*import));
                        }
                        return Some(SchemaValidationError::ImportDirectiveInvalid);
                    }
                    k += 1;
                }
                None
            },
            _ => Some(SchemaValidationError::ImportDirectiveInvalid),
        }
    }

    /// Checks the `subgraph` reference of one `@import` directive.
    pub fn validate_import_directive_schema_reference_parses(directive: &DirectiveUse) -> (r:
        Option<SchemaValidationError>)
        ensures
            match r {
                None => spec_ref_of_directive(*directive) is Some,
                Some(e) => spec_ref_of_directive(*directive) is None && err_view(e)
                    == ErrModel::ImportedSubgraphReferenceInvalid,
            },
    {
        let parsed = match crate::model::argument_lookup(&directive.arguments, "subgraph") {
            Some(v) => SchemaReference::parse(v),
            None => None,
        };
        match parsed {
            Some(_) => None,
            None => Some(SchemaValidationError::ImportedSubgraphReferenceInvalid),
        }
    }

    /// Every import-syntax error of this schema.
    pub fn validate_import_directives(&self) -> (r: Vec<SchemaValidationError>)
        ensures
            errs_view(r@) == spec_import_errs(self.document.definitions@),
    {
        let ghost defs = self.document.definitions@;
        let mut out: Vec<SchemaValidationError> = Vec::new();
        let schema_type = match self.subgraph_schema_object_type() {
            Some(o) => o,
            None => {
                return out;
            },
        };
        let nd = schema_type.directives.len();
        let mut j: usize = 0;
        while j < nd
            invariant
                nd == schema_type.directives@.len(),
                spec_object_type(defs, "_Schema_"@) == Some(*schema_type),
                defs == self.document.definitions@,
                j <= nd,
                errs_view(out@) == spec_import_errs_upto(schema_type.directives@, j as int),
            decreases nd - j,
        {
            let d = &schema_type.directives[j];
            let ghost prev = errs_view(out@);
            if crate::model::str_eq(d.name.as_str(), "import") {
                let ghost mut mid = prev;
                match Self::validate_import_directive_arguments(d) {
                    Some(e) => {
                        let ghost ev = err_view(e);
                        out.push(e);
                        proof {
                            mid = prev.push(ev);
                            assert(errs_view(out@) =~= mid);
                        }
                    },
                    None => {},
                }
                match Self::validate_import_directive_schema_reference_parses(d) {
                    Some(e) => {
                        let ghost ev = err_view(e);
                        out.push(e);
                        proof {
                            assert(errs_view(out@) =~= mid.push(ev));
                        }
                    },
                    None => {},
                }
                proof {
                    assert(spec_import_errs_upto(schema_type.directives@, j as int + 1)
                        =~= errs_view(out@));
                }
            } else {
                proof {
                    assert(spec_import_errs_upto(schema_type.directives@, j as int + 1) =~= prev);
                }
            }
            j += 1;
        }
        out
    }
}


/// The schema a resolved-import map holds under a subgraph identity.
pub fn schema_for<'a>(ms: &'a Vec<(SchemaReference, Schema)>, sg: &str) -> (r: Option<&'a Schema>)
    ensures
        match r {
            Some(s) => spec_schema_for(ms@, sg@, 0) == Some(*s),
            None => spec_schema_for(ms@, sg@, 0) is None,
        },
{
    let n = ms.len();
    let mut i: usize = 0;
    while i < n
        invariant
            n == ms@.len(),
            i <= n,
            spec_schema_for(ms@, sg@, 0) == spec_schema_for(ms@, sg@, i as int),
        decreases n - i,
    {
        if crate::model::str_eq(ms[i].0.subgraph.as_str(), sg) {
            return Some(&ms[i].1);
        }
        i += 1;
    }
    None
}

impl Schema {
    /// Whether a field's base type resolves, decided against this document
    /// and the imported aliases.
    fn field_type_ok(
        &self,
        imports: &Vec<(ImportedType, SchemaReference)>,
        f: &FieldDef,
    ) -> (r: bool)
        requires
            imports@.map_values(
                |p: (ImportedType, SchemaReference)| crate::schema::import_pair_view(p),
            ) == spec_schema_imports(self.document.definitions@),
        ensures
            r == spec_field_type_ok(self.document.definitions@, *f),
    {
        let base = f.field_type.get_base_type();
        if crate::model::str_eq(base.as_str(), "ID") || crate::model::str_eq(
            base.as_str(),
            "String",
        ) || crate::model::str_eq(base.as_str(), "Boolean") || crate::model::str_eq(
            base.as_str(),
            "Int",
        ) || crate::model::str_eq(base.as_str(), "BigInt") || crate::model::str_eq(
            base.as_str(),
            "Bytes",
        ) || crate::model::str_eq(base.as_str(), "BigDecimal") {
            return true;
        }
        if self.document.get_named_type(base.as_str()).is_some() {
            return true;
        }
        let n = imports.len();
        let mut k: usize = 0;
        while k < n
            invariant
                n == imports@.len(),
                imports@.map_values(
                    |p: (ImportedType, SchemaReference)| crate::schema::import_pair_view(p),
                ) == spec_schema_imports(self.document.definitions@),
                base@ == spec_base_type(f.field_type),
                k <= n,
                forall|t: int|
                    0 <= t < k ==> spec_schema_imports(self.document.definitions@)[t].1
                        != spec_base_type(f.field_type),
            decreases n - k,
        {
            if crate::model::str_eq(imports[k].0.alias.as_str(), base.as_str()) {
                proof {
                    assert(spec_schema_imports(self.document.definitions@)[k as int].1
                        == imports@[k as int].0.alias@);
                }
                return true;
            }
            proof {
                assert(spec_schema_imports(self.document.definitions@)[k as int].1
                    == imports@[k as int].0.alias@);
            }
            k += 1;
        }
        proof {
            assert(!spec_imported_alias(self.document.definitions@, spec_base_type(f.field_type)));
        }
        false
    }

    /// The unknown-type errors of one type's field list.
    fn check_fields_list(
        &self,
        imports: &Vec<(ImportedType, SchemaReference)>,
        owner: &String,
        fields: &Vec<FieldDef>,
    ) -> (r: Vec<SchemaValidationError>)
        requires
            imports@.map_values(
                |p: (ImportedType, SchemaReference)| crate::schema::import_pair_view(p),
            ) == spec_schema_imports(self.document.definitions@),
        ensures
            errs_view(r@) == spec_field_errs_list(
                self.document.definitions@,
                owner@,
                fields@,
                fields@.len() as int,
            ),
    {
        let mut out: Vec<SchemaValidationError> = Vec::new();
        let m = fields.len();
        let mut k: usize = 0;
        while k < m
            invariant
                m == fields@.len(),
                imports@.map_values(
                    |p: (ImportedType, SchemaReference)| crate::schema::import_pair_view(p),
                ) == spec_schema_imports(self.document.definitions@),
                k <= m,
                errs_view(out@) == spec_field_errs_list(
                    self.document.definitions@,
                    owner@,
                    fields@,
                    k as int,
                ),
            decreases m - k,
        {
            let ghost prev = errs_view(out@);
            let f = &fields[k];
            if !self.field_type_ok(imports, f) {
                out.push(
                    SchemaValidationError::FieldTypeUnknown {
                        owner: owner.clone(),
                        field: f.name.clone(),
                        base_type: f.field_type.get_base_type().clone(),
                    },
                );
                proof {
                    assert(errs_view(out@) =~= prev.push(
                        ErrModel::FieldTypeUnknown {
                            owner: owner@,
                            field: f.name@,
                            base_type: spec_base_type(f.field_type),
                        },
                    ));
                    assert(spec_field_errs_list(
                        self.document.definitions@,
                        owner@,
                        fields@,
                        k as int + 1,
                    ) =~= prev.push(
                        ErrModel::FieldTypeUnknown {
                            owner: owner@,
                            field: f.name@,
                            base_type: spec_base_type(f.field_type),
                        },
                    ));
                }
            } else {
                proof {
                    assert(spec_field_errs_list(
                        self.document.definitions@,
                        owner@,
                        fields@,
                        k as int + 1,
                    ) =~= prev);
                }
            }
            k += 1;
        }
        out
    }

    /// Every field whose base type resolves to nothing: not a built-in
    /// scalar, not a type of the document, not an imported alias.
    pub fn validate_fields(&self) -> (r: Vec<SchemaValidationError>)
        ensures
            errs_view(r@) == spec_field_errs(self.document.definitions@),
    {
        let ghost defs = self.document.definitions@;
        let imports = self.imported_types();
        let mut out: Vec<SchemaValidationError> = Vec::new();
        let n = self.document.definitions.len();
        let mut i: usize = 0;
        while i < n
            invariant
                n == defs.len(),
                defs == self.document.definitions@,
                imports@.map_values(
                    |p: (ImportedType, SchemaReference)| crate::schema::import_pair_view(p),
                ) == spec_schema_imports(self.document.definitions@),
                i <= n,
                errs_view(out@) == spec_field_errs_upto(defs, i as int),
            decreases n - i,
        {
            let ghost prev = errs_view(out@);
            match &self.document.definitions[i] {
                DocDefinition::Type(TypeDef::Object(o)) => {
                    let mut part = self.check_fields_list(&imports, &o.name, &o.fields);
                    let ghost pv = errs_view(part@);
                    out.append(&mut part);
                    proof {
                        assert(errs_view(out@) =~= prev + pv);
                        assert(spec_field_errs_upto(defs, i as int + 1) =~= prev + pv);
                    }
                },
                DocDefinition::Type(TypeDef::Interface(f)) => {
                    let mut part = self.check_fields_list(&imports, &f.name, &f.fields);
                    let ghost pv = errs_view(part@);
                    out.append(&mut part);
                    proof {
                        assert(errs_view(out@) =~= prev + pv);
                        assert(spec_field_errs_upto(defs, i as int + 1) =~= prev + pv);
                    }
                },
                _ => {
                    proof {
                        assert(spec_field_errs_upto(defs, i as int + 1) =~= prev);
                    }
                },
            }
            i += 1;
        }
        out
    }

    /// Whether the named field of the pointed-to type refers back to the
    /// declaring type.
    fn back_ref_ok(&self, o: &ObjectDef, tfields: &Vec<FieldDef>, tname: &str) -> (r: bool)
        ensures
            r == spec_back_ref_ok(*o, tfields@, tname@),
    {
        match crate::model::find_field(tfields, tname) {
            Some(tf) => {
                let base = tf.field_type.get_base_type();
                crate::model::str_eq(base.as_str(), o.name.as_str()) || crate::schema::implements(
                    o,
                    base.as_str(),
                )
            },
            None => false,
        }
    }

    /// Whether one field's `@derivedFrom` directive, if any, points back
    /// properly.
    fn derived_ok(&self, o: &ObjectDef, f: &FieldDef) -> (r: bool)
        ensures
            r == spec_derived_ok(self.document.definitions@, *o, *f),
    {
        match crate::model::find_directive(&f.directives, "derivedFrom") {
            Some(d) => match crate::model::argument_lookup(&d.arguments, "field") {
                Some(ArgValue::String(tname)) => {
                    let base = f.field_type.get_base_type();
                    match self.document.get_named_type(base.as_str()) {
                        Some(TypeDef::Object(t)) => self.back_ref_ok(o, &t.fields, tname.as_str()),
                        Some(TypeDef::Interface(t)) => self.back_ref_ok(
                            o,
                            &t.fields,
                            tname.as_str(),
                        ),
                        _ => false,
                    }
                },
                _ => false,
            },
            None => true,
        }
    }

    /// The first `@derivedFrom` violation of the document, if any.
    pub fn validate_derived_from(&self) -> (r: Result<(), SchemaValidationError>)
        ensures
            match r {
                Ok(()) => spec_first_derived_err(self.document.definitions@, 0) is None,
                Err(e) => spec_first_derived_err(self.document.definitions@, 0) == Some(
                    err_view(e),
                ),
            },
    {
        let ghost defs = self.document.definitions@;
        let n = self.document.definitions.len();
        let mut i: usize = 0;
        while i < n
            invariant
                n == defs.len(),
                defs == self.document.definitions@,
                i <= n,
                spec_first_derived_err(defs, 0) == spec_first_derived_err(defs, i as int),
            decreases n - i,
        {
            match &self.document.definitions[i] {
                DocDefinition::Type(TypeDef::Object(o)) => {
                    let m = o.fields.len();
                    let mut k: usize = 0;
                    while k < m
                        invariant
                            n == defs.len(),
                            defs == self.document.definitions@,
                            m == o.fields@.len(),
                            0 <= i < n,
                            defs[i as int] == DocDefinition::Type(TypeDef::Object(*o)),
                            k <= m,
                            spec_first_derived_err(defs, 0) == spec_first_derived_err(
                                defs,
                                i as int,
                            ),
                            spec_first_derived_err_in(defs, *o, 0) == spec_first_derived_err_in(
                                defs,
                                *o,
                                k as int,
                            ),
                        decreases m - k,
                    {
                        if !self.derived_ok(o, &o.fields[k]) {
                            return Err(
                                SchemaValidationError::DerivedFromInvalid {
                                    owner: o.name.clone(),
                                    field: o.fields[k].name.clone(),
                                },
                            );
                        }
                        k += 1;
                    }
                    proof {
                        assert(spec_first_derived_err_in(defs, *o, m as int) is None);
                        assert(spec_first_derived_err(defs, i as int) == spec_first_derived_err(
                            defs,
                            i as int + 1,
                        ));
                    }
                },
                _ => {
                    proof {
                        assert(spec_first_derived_err(defs, i as int) == spec_first_derived_err(
                            defs,
                            i as int + 1,
                        ));
                    }
                },
            }
            i += 1;
        }
        Ok(())
    }

    /// Checks that `object` declares every field `interface` demands, each
    /// under an identical type.
    pub fn validate_interface_implementation(
        object: &ObjectDef,
        interface: &InterfaceDef,
    ) -> (r: Result<(), SchemaValidationError>)
        ensures
            match r {
                Ok(()) => spec_first_unimplemented(*object, interface.fields@, 0) is None,
                Err(e) => spec_first_unimplemented(*object, interface.fields@, 0) matches Some(
                    fname,
                ) && err_view(e) == (ErrModel::InterfaceFieldNotImplemented {
                    implementor: object.name@,
                    interface: interface.name@,
                    field: fname,
                }),
            },
    {
        let m = interface.fields.len();
        let mut k: usize = 0;
        while k < m
            invariant
                m == interface.fields@.len(),
                k <= m,
                spec_first_unimplemented(*object, interface.fields@, 0)
                    == spec_first_unimplemented(*object, interface.fields@, k as int),
            decreases m - k,
        {
            let f = &interface.fields[k];
            let implemented = match crate::model::find_field(&object.fields, f.name.as_str()) {
                Some(of) => type_ref_eq(&of.field_type, &f.field_type),
                None => false,
            };
            if !implemented {
                return Err(
                    SchemaValidationError::InterfaceFieldNotImplemented {
                        implementor: object.name.clone(),
                        interface: interface.name.clone(),
                        field: f.name.clone(),
                    },
                );
            }
            k += 1;
        }
        Ok(())
    }

    /// The first interface-implementation violation of the document, if any.
    pub fn validate_interface_implementations(&self) -> (r: Result<(), SchemaValidationError>)
        ensures
            match r {
                Ok(()) => spec_first_impl_err(self.document.definitions@, 0) is None,
                Err(e) => spec_first_impl_err(self.document.definitions@, 0) == Some(err_view(e)),
            },
    {
        let ghost defs = self.document.definitions@;
        let n = self.document.definitions.len();
        let mut i: usize = 0;
        while i < n
            invariant
                n == defs.len(),
                defs == self.document.definitions@,
                i <= n,
                spec_first_impl_err(defs, 0) == spec_first_impl_err(defs, i as int),
            decreases n - i,
        {
            match &self.document.definitions[i] {
                DocDefinition::Type(TypeDef::Object(o)) => {
                    let m = o.implements_interfaces.len();
                    let mut k: usize = 0;
                    while k < m
                        invariant
                            n == defs.len(),
                            defs == self.document.definitions@,
                            m == o.implements_interfaces@.len(),
                            0 <= i < n,
                            defs[i as int] == DocDefinition::Type(TypeDef::Object(*o)),
                            k <= m,
                            spec_first_impl_err(defs, 0) == spec_first_impl_err(defs, i as int),
                            spec_first_impl_err_in(defs, *o, 0) == spec_first_impl_err_in(
                                defs,
                                *o,
                                k as int,
                            ),
                        decreases m - k,
                    {
                        match self.document.get_interface_type_definition(
                            o.implements_interfaces[k].as_str(),
                        ) {
                            Some(f) => {
                                match Self::validate_interface_implementation(o, f) {
                                    Ok(()) => {},
                                    Err(e) => {
                                        return Err(e);
                                    },
                                }
                            },
                            None => {},
                        }
                        k += 1;
                    }
                    proof {
                        assert(spec_first_impl_err_in(defs, *o, m as int) is None);
                        assert(spec_first_impl_err(defs, i as int) == spec_first_impl_err(
                            defs,
                            i as int + 1,
                        ));
                    }
                },
                _ => {
                    proof {
                        assert(spec_first_impl_err(defs, i as int) == spec_first_impl_err(
                            defs,
                            i as int + 1,
                        ));
                    }
                },
            }
            i += 1;
        }
        Ok(())
    }

    /// The first id-type anomaly of the document: an implementor of some
    /// interface with an illegal id base type, or two implementors of one
    /// interface keyed differently.
    pub fn validate_interface_id_type(&self) -> (r: Result<(), SchemaValidationError>)
        ensures
            match r {
                Ok(()) => spec_first_id_err(self.document.definitions@, 0) is None,
                Err(e) => spec_first_id_err(self.document.definitions@, 0) == Some(err_view(e)),
            },
    {
        let ghost defs = self.document.definitions@;
        let n = self.document.definitions.len();
        let mut i: usize = 0;
        while i < n
            invariant
                n == defs.len(),
                defs == self.document.definitions@,
                i <= n,
                spec_first_id_err(defs, 0) == spec_first_id_err(defs, i as int),
            decreases n - i,
        {
            match &self.document.definitions[i] {
                DocDefinition::Type(TypeDef::Interface(f)) => {
                    let mut kind0: Option<bool> = None;
                    let mut j: usize = 0;
                    while j < n
                        invariant
                            n == defs.len(),
                            defs == self.document.definitions@,
                            0 <= i < n,
                            defs[i as int] == DocDefinition::Type(TypeDef::Interface(*f)),
                            j <= n,
                            spec_first_id_err(defs, 0) == spec_first_id_err(defs, i as int),
                            spec_iface_id_scan(defs, f.name@, 0, None) == spec_iface_id_scan(
                                defs,
                                f.name@,
                                j as int,
                                kind0,
                            ),
                        decreases n - j,
                    {
                        match &self.document.definitions[j] {
                            DocDefinition::Type(TypeDef::Object(o)) => {
                                if crate::schema::implements(o, f.name.as_str()) {
                                    match id_kind(o) {
                                        None => {
                                            return Err(
                                                SchemaValidationError::IllegalIdType {
                                                    owner: o.name.clone(),
                                                },
                                            );
                                        },
                                        Some(b) => {
                                            match kind0 {
                                                None => {
                                                    kind0 = Some(b);
                                                },
                                                Some(b0) => {
                                                    if b != b0 {
                                                        return Err(
                                                            SchemaValidationError::InterfaceIdTypeMismatch {
                                                                interface: f.name.clone(),
                                                            },
                                                        );
                                                    }
                                                },
                                            }
                                        },
                                    }
                                }
                            },
                            _ => {},
                        }
                        j += 1;
                    }
                    proof {
                        assert(spec_iface_id_scan(defs, f.name@, n as int, kind0) is None);
                        assert(spec_first_id_err(defs, i as int) == spec_first_id_err(
                            defs,
                            i as int + 1,
                        ));
                    }
                },
                _ => {
                    proof {
                        assert(spec_first_id_err(defs, i as int) == spec_first_id_err(
                            defs,
                            i as int + 1,
                        ));
                    }
                },
            }
            i += 1;
        }
        Ok(())
    }

    /// Every import entry whose referenced schema is present but does not
    /// define the named type; an unresolved reference is no structural
    /// error.
    pub fn validate_imported_types(&self, schemas: &Vec<(SchemaReference, Schema)>) -> (r: Vec<
        SchemaValidationError,
    >)
        ensures
            errs_view(r@) == spec_imported_type_errs(self.document.definitions@, schemas@),
    {
        let ghost defs = self.document.definitions@;
        let imports = self.imported_types();
        let ghost entries = spec_schema_imports(defs);
        let mut out: Vec<SchemaValidationError> = Vec::new();
        let n = imports.len();
        let mut k: usize = 0;
        while k < n
            invariant
                n == imports@.len(),
                defs == self.document.definitions@,
                imports@.map_values(
                    |p: (ImportedType, SchemaReference)| crate::schema::import_pair_view(p),
                ) == entries,
                entries == spec_schema_imports(defs),
                k <= n,
                errs_view(out@) == spec_imported_type_errs_upto(entries, schemas@, k as int),
            decreases n - k,
        {
            let ghost prev = errs_view(out@);
            proof {
                assert(entries[k as int] == crate::schema::import_pair_view(imports@[k as int]));
            }
            match schema_for(schemas, imports[k].1.subgraph.as_str()) {
                Some(remote) => {
                    if remote.document.get_named_type(imports[k].0.name.as_str()).is_none() {
                        out.push(
                            SchemaValidationError::ImportedTypeUndefined {
                                name: imports[k].0.name.clone(),
                                subgraph: imports[k].1.subgraph.clone(),
                            },
                        );
                        proof {
                            assert(errs_view(out@) =~= prev.push(
                                ErrModel::ImportedTypeUndefined {
                                    name: entries[k as int].0,
                                    subgraph: entries[k as int].3,
                                },
                            ));
                            assert(spec_imported_type_errs_upto(entries, schemas@, k as int + 1)
                                =~= prev.push(
                                ErrModel::ImportedTypeUndefined {
                                    name: entries[k as int].0,
                                    subgraph: entries[k as int].3,
                                },
                            ));
                        }
                    } else {
                        proof {
                            assert(spec_imported_type_errs_upto(entries, schemas@, k as int + 1)
                                =~= prev);
                        }
                    }
                },
                None => {
                    proof {
                        assert(spec_imported_type_errs_upto(entries, schemas@, k as int + 1)
                            =~= prev);
                    }
                },
            }
            k += 1;
        }
        out
    }

    /// Every structural error local to this schema's text, in the order the
    /// checks run.
    #[verifier::rlimit(80)]
    pub fn validate_local(&self) -> (r: Vec<SchemaValidationError>)
        ensures
            errs_view(r@) == spec_local_errs(self.document.definitions@),
    {
        let ghost defs = self.document.definitions@;
        let mut out: Vec<SchemaValidationError> = Vec::new();
        match self.validate_reserved_types_usage() {
            Ok(()) => {},
            Err(e) => {
                out.push(e);
            },
        }
        let ghost p1 = errs_view(out@);
        proof {
            assert(p1 =~= spec_reserved_errs(defs));
        }
        let mut part = self.validate_schema_types();
        let ghost p2 = errs_view(part@);
        out.append(&mut part);
        let mut part2 = self.validate_fulltext_directives();
        let ghost p3 = errs_view(part2@);
        out.append(&mut part2);
        let mut part3 = self.validate_import_directives();
        let ghost p4 = errs_view(part3@);
        out.append(&mut part3);
        let mut part4 = self.validate_fields();
        let ghost p5 = errs_view(part4@);
        out.append(&mut part4);
        match self.validate_derived_from() {
            Ok(()) => {},
            Err(e) => {
                out.push(e);
            },
        }
        let ghost p6 = errs_view(out@);
        proof {
            assert(p6 =~= p1 + p2 + p3 + p4 + p5 + spec_derived_errs(defs));
        }
        match self.validate_interface_implementations() {
            Ok(()) => {},
            Err(e) => {
                out.push(e);
            },
        }
        let ghost p7 = errs_view(out@);
        proof {
            assert(p7 =~= p6 + spec_impl_errs(defs));
        }
        match self.validate_interface_id_type() {
            Ok(()) => {},
            Err(e) => {
                out.push(e);
            },
        }
        proof {
            assert(errs_view(out@) =~= p7 + spec_id_errs(defs));
            assert(errs_view(out@) =~= spec_local_errs(defs));
        }
        out
    }

    /// Runs the whole battery against this schema and a resolved-import map
    /// and hands back every error found, never only the first.
    pub fn validate(&self, schemas: &Vec<(SchemaReference, Schema)>) -> (r: Result<
        (),
        Vec<SchemaValidationError>,
    >)
        ensures
            match r {
                Ok(()) => spec_validate_errs(self.document.definitions@, schemas@).len() == 0,
                Err(v) => errs_view(v@) == spec_validate_errs(self.document.definitions@, schemas@)
                    && v@.len() > 0,
            },
    {
        let ghost defs = self.document.definitions@;
        let mut out = self.validate_local();
        let ghost p1 = errs_view(out@);
        let mut part = self.validate_imported_types(schemas);
        let ghost p2 = errs_view(part@);
        out.append(&mut part);
        proof {
            assert(errs_view(out@) =~= p1 + p2);
        }
        if out.len() == 0 {
            proof {
                assert(spec_validate_errs(defs, schemas@).len() == errs_view(out@).len());
            }
            Ok(())
        } else {
            Err(out)
        }
    }

    /// Turns raw text and an identity into a validated schema: the external
    /// grammar parses the text, the type index is built, and the whole local
    /// battery runs; any defect fails the parse with the aggregated list.
    pub fn parse(raw: &str, id: String) -> (r: Result<Schema, crate::errors::SchemaParseError>)
        ensures
            match r {
                Ok(s) => crate::parsing::parsed_document(raw@) == Some(s.document) && s.id == id
                    && s.wf() && spec_local_errs(s.document.definitions@).len() == 0,
                Err(crate::errors::SchemaParseError::Syntax(_)) => crate::parsing::parsed_document(
                    raw@,
                ) is None,
                Err(crate::errors::SchemaParseError::Validation(v)) => match crate::parsing::parsed_document(raw@) {
                    Some(doc) => match crate::schema::spec_first_undef(doc.definitions@, 0) {
                        Some(p) => errs_view(v@) == seq![
                            ErrModel::InterfaceUndefined { implementor: p.0, interface: p.1 },
                        ],
                        None => errs_view(v@) == spec_local_errs(doc.definitions@) && v@.len() > 0,
                    },
                    None => false,
                },
            },
    {
        let doc = match crate::parsing::parse_document(raw) {
            Ok(d) => d,
            Err(m) => {
                return Err(crate::errors::SchemaParseError::Syntax(m));
            },
        };
        match Schema::collect_interfaces(&doc) {
            Err(e) => {
                let mut v: Vec<SchemaValidationError> = Vec::new();
                v.push(e);
                proof {
                    assert(errs_view(v@) =~= seq![err_view(e)]);
                }
                Err(crate::errors::SchemaParseError::Validation(v))
            },
            Ok(maps) => {
                let (fwd, inv) = maps;
                let schema = Schema {
                    id,
                    document: doc,
                    interfaces_for_type: fwd,
                    types_for_interface: inv,
                };
                let errs = schema.validate_local();
                if errs.len() == 0 {
                    proof {
                        assert(spec_local_errs(schema.document.definitions@).len() == errs_view(
                            errs@,
                        ).len());
                    }
                    Ok(schema)
                } else {
                    Err(crate::errors::SchemaParseError::Validation(errs))
                }
            },
        }
    }
}


/// What an entity's full-text definition holds, abstracted.
pub open spec fn ft_def_view(d: crate::fulltext::FulltextDefinition) -> (
    Seq<char>,
    crate::fulltext::FulltextAlgorithm,
    crate::fulltext::FulltextLanguage,
    Seq<Seq<char>>,
) {
    (
        d.name@,
        d.config.algorithm,
        d.config.language,
        d.included_fields@.map_values(|s: String| s@),
    )
}

/// The full-text definitions the first `j` directives declare over the given
/// entity type; nothing when a `@fulltext` directive is malformed.
pub open spec fn spec_entity_ft(
    ds: Seq<DirectiveUse>,
    entity: Seq<char>,
    j: int,
) -> Option<
    Seq<
        (
            Seq<char>,
            crate::fulltext::FulltextAlgorithm,
            crate::fulltext::FulltextLanguage,
            Seq<Seq<char>>,
        ),
    >,
>
    decreases j,
{
    if j <= 0 {
        Some(Seq::empty())
    } else {
        match spec_entity_ft(ds, entity, j - 1) {
            Some(prefix) => if ds[j - 1].name@ == "fulltext"@ {
                match spec_fulltext_definition(ds[j - 1]) {
                    Some(t) => if t.3 == entity {
                        Some(prefix + seq![(t.0, t.1, t.2, t.4)])
                    } else {
                        Some(prefix)
                    },
                    None => None,
                }
            } else {
                Some(prefix)
            },
            None => None,
        }
    }
}

/// A malformed directive poisons every longer prefix.
proof fn lemma_entity_ft_none(ds: Seq<DirectiveUse>, entity: Seq<char>, j: int, k: int)
    requires
        spec_entity_ft(ds, entity, j) is None,
        j <= k,
    ensures
        spec_entity_ft(ds, entity, k) is None,
    decreases k - j,
{
    if k > j {
        lemma_entity_ft_none(ds, entity, j, k - 1);
    }
}

impl Schema {
    /// The full-text search definitions scoped to one entity type: every
    /// well-shaped `@fulltext` directive whose first `include` entry names
    /// that entity; a malformed `@fulltext` directive fails the whole call.
    pub fn entity_fulltext_definitions(entity: &str, document: &Document) -> (r: Result<
        Vec<crate::fulltext::FulltextDefinition>,
        String,
    >)
        ensures
            match spec_object_type(document.definitions@, "_Schema_"@) {
                Some(o) => match r {
                    Ok(v) => spec_entity_ft(o.directives@, entity@, o.directives@.len() as int)
                        == Some(
                        v@.map_values(|d: crate::fulltext::FulltextDefinition| ft_def_view(d)),
                    ),
                    Err(_) => spec_entity_ft(
                        o.directives@,
                        entity@,
                        o.directives@.len() as int,
                    ) is None,
                },
                None => r matches Ok(v) && v@.len() == 0,
            },
    {
        let mut out: Vec<crate::fulltext::FulltextDefinition> = Vec::new();
        let schema_type = match document.get_object_type_definition("_Schema_") {
            Some(o) => o,
            None => {
                return Ok(out);
            },
        };
        let nd = schema_type.directives.len();
        let mut j: usize = 0;
        while j < nd
            invariant
                nd == schema_type.directives@.len(),
                spec_object_type(document.definitions@, "_Schema_"@) == Some(*schema_type),
                j <= nd,
                spec_entity_ft(schema_type.directives@, entity@, j as int) == Some(
                    out@.map_values(|d: crate::fulltext::FulltextDefinition| ft_def_view(d)),
                ),
            decreases nd - j,
        {
            let d = &schema_type.directives[j];
            let ghost prev = out@.map_values(
                |x: crate::fulltext::FulltextDefinition| ft_def_view(x),
            );
            if crate::model::str_eq(d.name.as_str(), "fulltext") {
                let def = match crate::fulltext::FulltextDefinition::from_directive(d) {
                    Some(def) => def,
                    None => {
                        proof {
                            assert(spec_entity_ft(
                                schema_type.directives@,
                                entity@,
                                j as int + 1,
                            ) is None);
                            lemma_entity_ft_none(
                                schema_type.directives@,
                                entity@,
                                j as int + 1,
                                nd as int,
                            );
                        }
                        return Err(String::from_str("malformed fulltext directive"));
                    },
                };
                let dentity = match crate::fulltext::FulltextDefinition::directive_entity(d) {
                    Some(e) => e,
                    None => vstd::pervasive::unreached(),
                };
                if crate::model::str_eq(dentity.as_str(), entity) {
                    let ghost dv = ft_def_view(def);
                    out.push(def);
                    proof {
                        assert(out@.map_values(
                            |x: crate::fulltext::FulltextDefinition| ft_def_view(x),
                        ) =~= prev.push(dv));
                        assert(prev + seq![dv] =~= prev.push(dv));
                    }
                }
            }
            j += 1;
        }
        Ok(out)
    }
}

/// How stamping rewrites one definition: object, interface and enum types
/// gain one `@subgraphId(id: ...)` directive; everything else stands.
pub open spec fn spec_id_stamped(old: DocDefinition, new: DocDefinition, idv: Seq<char>) -> bool {
    match old {
        DocDefinition::Type(TypeDef::Object(o)) => match new {
            DocDefinition::Type(TypeDef::Object(q)) => q.name == o.name
                && q.implements_interfaces == o.implements_interfaces && q.fields == o.fields
                && spec_stamped_directives(o.directives@, q.directives@, idv),
            _ => false,
        },
        DocDefinition::Type(TypeDef::Interface(o)) => match new {
            DocDefinition::Type(TypeDef::Interface(q)) => q.name == o.name && q.fields == o.fields
                && spec_stamped_directives(o.directives@, q.directives@, idv),
            _ => false,
        },
        DocDefinition::Type(TypeDef::Enum(o)) => match new {
            DocDefinition::Type(TypeDef::Enum(q)) => q.name == o.name && q.values == o.values
                && spec_stamped_directives(o.directives@, q.directives@, idv),
            _ => false,
        },
        _ => new == old,
    }
}

/// The new directive list is the old one with a final `@subgraphId` whose
/// `id` argument carries the subgraph identity.
pub open spec fn spec_stamped_directives(
    old: Seq<DirectiveUse>,
    new: Seq<DirectiveUse>,
    idv: Seq<char>,
) -> bool {
    &&& new.len() == old.len() + 1
    &&& new.subrange(0, old.len() as int) == old
    &&& new.last().name@ == "subgraphId"@
    &&& match spec_argument(new.last().arguments@, "id"@) {
        Some(ArgValue::String(s)) => s@ == idv,
        _ => false,
    }
}

impl Schema {
    /// Stamps the subgraph identity onto the document: every object,
    /// interface and enum type gains a `@subgraphId(id: ...)` directive.
    /// This runs once, before the document is considered final.
    pub fn add_subgraph_id_directives(&mut self, id: String)
        ensures
            final(self).id == old(self).id,
            final(self).interfaces_for_type == old(self).interfaces_for_type,
            final(self).types_for_interface == old(self).types_for_interface,
            final(self).document.definitions@.len() == old(self).document.definitions@.len(),
            forall|t: int|
                0 <= t < old(self).document.definitions@.len() ==> spec_id_stamped(
                    old(self).document.definitions@[t],
                    #[trigger] final(self).document.definitions@[t],
                    id@,
                ),
    {
        let ghost defs0 = self.document.definitions@;
        let mut defs: Vec<DocDefinition> = Vec::new();
        core::mem::swap(&mut defs, &mut self.document.definitions);
        let mut out: Vec<DocDefinition> = Vec::new();
        while defs.len() > 0
            invariant
                out@.len() + defs@.len() == defs0.len(),
                defs@ == defs0.skip(out@.len() as int),
                forall|t: int|
                    0 <= t < out@.len() ==> spec_id_stamped(defs0[t], #[trigger] out@[t], id@),
            decreases defs@.len(),
        {
            let ghost i = out@.len() as int;
            proof {
                assert(defs@[0] == defs0[i]);
            }
            let d = defs.remove(0);
            match d {
                DocDefinition::Type(TypeDef::Object(mut o)) => {
                    let ghost ds0 = o.directives@;
                    o.directives.push(subgraph_id_directive(&id));
                    proof {
                        assert(o.directives@.subrange(0, ds0.len() as int) =~= ds0);
                    }
                    out.push(DocDefinition::Type(TypeDef::Object(o)));
                },
                DocDefinition::Type(TypeDef::Interface(mut o)) => {
                    let ghost ds0 = o.directives@;
                    o.directives.push(subgraph_id_directive(&id));
                    proof {
                        assert(o.directives@.subrange(0, ds0.len() as int) =~= ds0);
                    }
                    out.push(DocDefinition::Type(TypeDef::Interface(o)));
                },
                DocDefinition::Type(TypeDef::Enum(mut o)) => {
                    let ghost ds0 = o.directives@;
                    o.directives.push(subgraph_id_directive(&id));
                    proof {
                        assert(o.directives@.subrange(0, ds0.len() as int) =~= ds0);
                    }
                    out.push(DocDefinition::Type(TypeDef::Enum(o)));
                },
                other => {
                    out.push(other);
                },
            }
            proof {
                assert(defs@ =~= defs0.skip(out@.len() as int));
            }
        }
        core::mem::swap(&mut out, &mut self.document.definitions);
    }
}

/// One `@subgraphId(id: ...)` directive carrying the given identity.
fn subgraph_id_directive(id: &String) -> (r: DirectiveUse)
    ensures
        r.name@ == "subgraphId"@,
        spec_argument(r.arguments@, "id"@) matches Some(ArgValue::String(s)) && s@ == id@,
{
    let mut arguments: Vec<(String, ArgValue)> = Vec::new();
    arguments.push((String::from_str("id"), ArgValue::String(id.clone())));
    DirectiveUse { name: String::from_str("subgraphId"), arguments }
}

/// Validation is a function of the schema's text and the resolved imports
/// alone: two runs over the same inputs report identical error lists.
pub proof fn lemma_validate_deterministic(
    r1: Seq<SchemaValidationError>,
    r2: Seq<SchemaValidationError>,
    defs: Seq<DocDefinition>,
    ms: Seq<(SchemaReference, Schema)>,
)
    requires
        errs_view(r1) == spec_validate_errs(defs, ms),
        errs_view(r2) == spec_validate_errs(defs, ms),
    ensures
        errs_view(r1) == errs_view(r2),
{
}

/// The id-type check reports at most one error, and a mismatch it reports
/// always names the interface whose implementors disagree.
pub proof fn lemma_id_mismatch_names_interface(
    defs: Seq<DocDefinition>,
    iface: Seq<char>,
    j: int,
    kind0: Option<bool>,
)
    ensures
        match spec_iface_id_scan(defs, iface, j, kind0) {
            Some(ErrModel::InterfaceIdTypeMismatch { interface }) => interface == iface,
            _ => true,
        },
    decreases defs.len() - j,
{
    if 0 <= j < defs.len() {
        match defs[j] {
            DocDefinition::Type(TypeDef::Object(o)) => {
                if crate::schema::spec_implements(o, iface) {
                    match spec_id_kind(o) {
                        None => {},
                        Some(b) => match kind0 {
                            None => {
                                lemma_id_mismatch_names_interface(defs, iface, j + 1, Some(b));
                            },
                            Some(b0) => {
                                if b == b0 {
                                    lemma_id_mismatch_names_interface(defs, iface, j + 1, Some(b0));
                                }
                            },
                        },
                    }
                } else {
                    lemma_id_mismatch_names_interface(defs, iface, j + 1, kind0);
                }
            },
            _ => {
                lemma_id_mismatch_names_interface(defs, iface, j + 1, kind0);
            },
        }
    }
}


/// The id kind an implementor of `iface` contributes: nothing for a
/// definition that is no implementor, else its id kind.
pub open spec fn impl_kind(d: DocDefinition, iface: Seq<char>) -> Option<Option<bool>> {
    match d {
        DocDefinition::Type(TypeDef::Object(o)) => if crate::schema::spec_implements(o, iface) {
            Some(spec_id_kind(o))
        } else {
            None
        },
        _ => None,
    }
}

/// Once one implementor's kind is fixed, a later implementor of a different
/// legal kind forces the mismatch error, provided no implementor is
/// illegally keyed.
#[verifier::rlimit(60)]
proof fn lemma_id_scan_finds_diff(
    defs: Seq<DocDefinition>,
    iface: Seq<char>,
    j: int,
    k0: bool,
    t: int,
)
    requires
        0 <= j <= t < defs.len(),
        impl_kind(defs[t], iface) matches Some(k) && k != Some(k0),
        forall|u: int|
            j <= u < defs.len() ==> #[trigger] impl_kind(defs[u], iface) != Some(None::<bool>),
    ensures
        spec_iface_id_scan(defs, iface, j, Some(k0)) == Some(
            ErrModel::InterfaceIdTypeMismatch { interface: iface },
        ),
    decreases defs.len() - j,
{
    match defs[j] {
        DocDefinition::Type(TypeDef::Object(o)) => {
            if crate::schema::spec_implements(o, iface) {
                assert(impl_kind(defs[j], iface) == Some(spec_id_kind(o)));
                assert(impl_kind(defs[j], iface) != Some(None::<bool>));
                let b = spec_id_kind(o)->0;
                if b != k0 {
                } else {
                    assert(t != j);
                    lemma_id_scan_finds_diff(defs, iface, j + 1, k0, t);
                }
            } else {
                assert(t != j);
                lemma_id_scan_finds_diff(defs, iface, j + 1, k0, t);
            }
        },
        _ => {
            assert(t != j);
            lemma_id_scan_finds_diff(defs, iface, j + 1, k0, t);
        },
    }
}

/// Two implementors of one interface keyed by the two different legal id
/// kinds force the id-type scan to report exactly the mismatch error naming
/// that interface, provided no implementor is illegally keyed.
#[verifier::rlimit(60)]
pub proof fn lemma_interface_id_inconsistency(
    defs: Seq<DocDefinition>,
    iface: Seq<char>,
    j: int,
    a: int,
    b: int,
)
    requires
        0 <= j <= a < defs.len(),
        j <= b < defs.len(),
        impl_kind(defs[a], iface) == Some(Some(true)),
        impl_kind(defs[b], iface) == Some(Some(false)),
        forall|u: int|
            j <= u < defs.len() ==> #[trigger] impl_kind(defs[u], iface) != Some(None::<bool>),
    ensures
        spec_iface_id_scan(defs, iface, j, None) == Some(
            ErrModel::InterfaceIdTypeMismatch { interface: iface },
        ),
    decreases defs.len() - j,
{
    match defs[j] {
        DocDefinition::Type(TypeDef::Object(o)) => {
            if crate::schema::spec_implements(o, iface) {
                assert(impl_kind(defs[j], iface) == Some(spec_id_kind(o)));
                assert(impl_kind(defs[j], iface) != Some(None::<bool>));
                let k = spec_id_kind(o)->0;
                let t = if k {
                    b
                } else {
                    a
                };
                assert(impl_kind(defs[t], iface) == Some(Some(!k)));
                assert(t != j);
                lemma_id_scan_finds_diff(defs, iface, j + 1, k, t);
            } else {
                assert(a != j && b != j);
                lemma_interface_id_inconsistency(defs, iface, j + 1, a, b);
            }
        },
        _ => {
            assert(a != j && b != j);
            lemma_interface_id_inconsistency(defs, iface, j + 1, a, b);
        },
    }
}

} // verus!
