//! The query-facing schema: a validated schema with the fixed introspection
//! type system merged in, and name-keyed lookup for query execution.

use vstd::prelude::*;

use crate::model::{
    spec_base_type, spec_named_type, spec_object_type, DocDefinition, Document, EnumDef, FieldDef,
    InterfaceDef, ObjectDef, ObjectOrInterface, TypeDef, TypeRef,
};
use crate::schema::Schema;

verus! {

/// How the introspection merge rewrites one definition: the root `Query`
/// object gains the two introspection entry fields, everything else stands
/// unchanged.
pub open spec fn spec_injected(old: DocDefinition, new: DocDefinition) -> bool {
    match old {
        DocDefinition::Type(TypeDef::Object(o)) => if o.name@ == "Query"@ {
            match new {
                DocDefinition::Type(TypeDef::Object(q)) => q.name@ == o.name@
                    && q.implements_interfaces == o.implements_interfaces && q.directives
                    == o.directives && q.fields@.len() == o.fields@.len() + 2 && q.fields@.subrange(
                    0,
                    o.fields@.len() as int,
                ) == o.fields@ && q.fields@[o.fields@.len() as int].name@ == "__schema"@
                    && q.fields@[o.fields@.len() as int + 1].name@ == "__type"@,
                _ => false,
            }
        } else {
            new == old
        },
        _ => new == old,
    }
}

/// The names of the fixed introspection definitions, in order.
pub open spec fn spec_intro_names() -> Seq<Seq<char>> {
    seq![
        "__Schema"@,
        "__Type"@,
        "__Field"@,
        "__InputValue"@,
        "__EnumValue"@,
        "__TypeKind"@,
        "__Directive"@,
        "__DirectiveLocation"@,
    ]
}

/// Whether a definition list is the fixed introspection type system: eight
/// definitions under the reserved double-underscore names.
pub open spec fn spec_is_introspection(defs: Seq<DocDefinition>) -> bool {
    &&& defs.len() == 8
    &&& forall|t: int| 0 <= t < 8 ==> crate::model::def_has_name(defs[t], spec_intro_names()[t])
    &&& defs[1] matches DocDefinition::Type(TypeDef::Object(_))
}

fn intro_field(name: &str, base: &str) -> (r: FieldDef)
    ensures
        r.name@ == name@,
{
    FieldDef {
        name: String::from_str(name),
        field_type: TypeRef::NonNull(Box::new(TypeRef::Named(String::from_str(base)))),
        directives: Vec::new(),
    }
}

fn intro_object(name: &str, fields: Vec<FieldDef>) -> (r: DocDefinition)
    ensures
        crate::model::def_has_name(r, name@),
        r matches DocDefinition::Type(TypeDef::Object(_)),
{
    DocDefinition::Type(
        TypeDef::Object(
            ObjectDef {
                name: String::from_str(name),
                implements_interfaces: Vec::new(),
                fields,
                directives: Vec::new(),
            },
        ),
    )
}

fn intro_enum(name: &str, values: Vec<String>) -> (r: DocDefinition)
    ensures
        crate::model::def_has_name(r, name@),
{
    DocDefinition::Type(
        TypeDef::Enum(EnumDef { name: String::from_str(name), values, directives: Vec::new() }),
    )
}

/// The fixed introspection type system, built once per call and identical
/// every time: the schema, type, field, input-value, enum-value and
/// directive meta-types with their two enums.
pub fn introspection_document() -> (r: Document)
    ensures
        spec_is_introspection(r.definitions@),
{
    let mut defs: Vec<DocDefinition> = Vec::new();
    let mut schema_fields: Vec<FieldDef> = Vec::new();
    schema_fields.push(intro_field("queryType", "__Type"));
    schema_fields.push(intro_field("types", "__Type"));
    defs.push(intro_object("__Schema", schema_fields));
    let mut type_fields: Vec<FieldDef> = Vec::new();
    type_fields.push(intro_field("kind", "__TypeKind"));
    type_fields.push(intro_field("name", "String"));
    type_fields.push(intro_field("fields", "__Field"));
    defs.push(intro_object("__Type", type_fields));
    let mut field_fields: Vec<FieldDef> = Vec::new();
    field_fields.push(intro_field("name", "String"));
    field_fields.push(intro_field("type", "__Type"));
    defs.push(intro_object("__Field", field_fields));
    let mut input_fields: Vec<FieldDef> = Vec::new();
    input_fields.push(intro_field("name", "String"));
    input_fields.push(intro_field("type", "__Type"));
    defs.push(intro_object("__InputValue", input_fields));
    let mut enum_fields: Vec<FieldDef> = Vec::new();
    enum_fields.push(intro_field("name", "String"));
    defs.push(intro_object("__EnumValue", enum_fields));
    let mut kind_values: Vec<String> = Vec::new();
    kind_values.push(String::from_str("SCALAR"));
    kind_values.push(String::from_str("OBJECT"));
    kind_values.push(String::from_str("INTERFACE"));
    kind_values.push(String::from_str("UNION"));
    kind_values.push(String::from_str("ENUM"));
    kind_values.push(String::from_str("INPUT_OBJECT"));
    kind_values.push(String::from_str("LIST"));
    kind_values.push(String::from_str("NON_NULL"));
    defs.push(intro_enum("__TypeKind", kind_values));
    let mut directive_fields: Vec<FieldDef> = Vec::new();
    directive_fields.push(intro_field("name", "String"));
    defs.push(intro_object("__Directive", directive_fields));
    let mut loc_values: Vec<String> = Vec::new();
    loc_values.push(String::from_str("QUERY"));
    loc_values.push(String::from_str("FIELD"));
    defs.push(intro_enum("__DirectiveLocation", loc_values));
    proof {
        assert(spec_is_introspection(defs@)) by {
            assert(crate::model::def_has_name(defs@[0], spec_intro_names()[0]));
            assert(crate::model::def_has_name(defs@[1], spec_intro_names()[1]));
            assert(crate::model::def_has_name(defs@[2], spec_intro_names()[2]));
            assert(crate::model::def_has_name(defs@[3], spec_intro_names()[3]));
            assert(crate::model::def_has_name(defs@[4], spec_intro_names()[4]));
            assert(crate::model::def_has_name(defs@[5], spec_intro_names()[5]));
            assert(crate::model::def_has_name(defs@[6], spec_intro_names()[6]));
            assert(crate::model::def_has_name(defs@[7], spec_intro_names()[7]));
        }
    }
    Document { definitions: defs }
}

/// Merges the fixed introspection type system into a document: the root
/// `Query` object, if any, gains the `__schema` and `__type` entry fields,
/// and the introspection definitions are appended.
pub fn add_introspection_schema(document: Document) -> (r: Document)
    ensures
        r.definitions@.len() == document.definitions@.len() + 8,
        forall|t: int|
            0 <= t < document.definitions@.len() ==> spec_injected(
                document.definitions@[t],
                #[trigger] r.definitions@[t],
            ),
        spec_is_introspection(
            r.definitions@.subrange(
                document.definitions@.len() as int,
                r.definitions@.len() as int,
            ),
        ),
{
    let ghost defs0 = document.definitions@;
    let mut defs = document.definitions;
    let mut out: Vec<DocDefinition> = Vec::new();
    while defs.len() > 0
        invariant
            out@.len() + defs@.len() == defs0.len(),
            defs@ == defs0.skip(out@.len() as int),
            forall|t: int| 0 <= t < out@.len() ==> spec_injected(defs0[t], #[trigger] out@[t]),
        decreases defs@.len(),
    {
        let ghost i = out@.len() as int;
        proof {
            assert(defs@[0] == defs0[i]);
        }
        let d = defs.remove(0);
        match d {
            DocDefinition::Type(TypeDef::Object(mut o)) => {
                if crate::model::str_eq(o.name.as_str(), "Query") {
                    let ghost fields0 = o.fields@;
                    o.fields.push(
                        FieldDef {
                            name: String::from_str("__schema"),
                            field_type: TypeRef::NonNull(
                                Box::new(TypeRef::Named(String::from_str("__Schema"))),
                            ),
                            directives: Vec::new(),
                        },
                    );
                    o.fields.push(
                        FieldDef {
                            name: String::from_str("__type"),
                            field_type: TypeRef::Named(String::from_str("__Type")),
                            directives: Vec::new(),
                        },
                    );
                    proof {
                        assert(o.fields@.subrange(0, fields0.len() as int) =~= fields0);
                    }
                    out.push(DocDefinition::Type(TypeDef::Object(o)));
                } else {
                    out.push(DocDefinition::Type(TypeDef::Object(o)));
                }
            },
            other => {
                out.push(other);
            },
        }
        proof {
            assert(defs@ =~= defs0.skip(out@.len() as int));
        }
    }
    let intro = introspection_document();
    let mut intro_defs = intro.definitions;
    let ghost iv = intro_defs@;
    let ghost base = out@;
    out.append(&mut intro_defs);
    proof {
        assert(base.len() == defs0.len());
        assert(out@.subrange(defs0.len() as int, out@.len() as int) =~= iv);
    }
    Document { definitions: out }
}

/// Whether a name carries the introspection marker: two leading
/// underscores.
pub open spec fn spec_intro_name(name: Seq<char>) -> bool {
    name.len() >= 2 && name[0] == '_' && name[1] == '_'
}

/// A validated schema wrapped for query execution: the introspection types
/// are merged into its document, and the fixed introspection document is
/// kept alongside for marker-name lookups.
#[derive(Debug)]
pub struct ApiSchema {
    /// The wrapped schema, its document already merged with introspection.
    pub schema: Schema,
    /// The fixed introspection type system, for marker-name lookups.
    pub introspection: Document,
}

impl ApiSchema {
    /// The merged document declares a root `Query` object type and the
    /// introspection companion is the fixed type system.
    pub open spec fn wf(&self) -> bool {
        &&& spec_object_type(self.schema.document.definitions@, "Query"@) is Some
        &&& spec_is_introspection(self.introspection.definitions@)
    }

    /// Wraps a schema that has already had the API-shaping transform
    /// applied: merges the introspection type system into its document and
    /// requires a root `Query` type, whose absence is the one fatal
    /// construction error.
    pub fn from_api_schema(api_schema: Schema) -> (r: Result<ApiSchema, String>)
        ensures
            match r {
                Ok(a) => {
                    &&& a.wf()
                    &&& a.schema.id == api_schema.id
                    &&& a.schema.document.definitions@.len()
                        == api_schema.document.definitions@.len() + 8
                    &&& forall|t: int|
                        0 <= t < api_schema.document.definitions@.len() ==> spec_injected(
                            api_schema.document.definitions@[t],
                            #[trigger] a.schema.document.definitions@[t],
                        )
                    &&& spec_is_introspection(
                        a.schema.document.definitions@.subrange(
                            api_schema.document.definitions@.len() as int,
                            a.schema.document.definitions@.len() as int,
                        ),
                    )
                },
                Err(_) => spec_object_type(api_schema.document.definitions@, "Query"@) is None,
            },
    {
        if api_schema.document.get_object_type_definition("Query").is_none() {
            return Err(String::from_str("no root Query type in the schema"));
        }
        let Schema { id, document, interfaces_for_type, types_for_interface } = api_schema;
        let merged = add_introspection_schema(document);
        let schema = Schema { id, document: merged, interfaces_for_type, types_for_interface };
        let introspection = introspection_document();
        proof {
            crate::model::lemma_object_type_index(api_schema.document.definitions@, "Query"@);
            let i = choose|i: int|
                0 <= i < api_schema.document.definitions@.len()
                    && #[trigger] crate::model::is_object_named(
                    api_schema.document.definitions@[i],
                    "Query"@,
                );
            assert(spec_injected(
                api_schema.document.definitions@[i],
                schema.document.definitions@[i],
            ));
            assert(crate::model::is_object_named(schema.document.definitions@[i], "Query"@));
            crate::model::lemma_object_type_present(schema.document.definitions@, "Query"@, i);
        }
        match schema.document.get_object_type_definition("Query") {
            Some(_) => Ok(ApiSchema { schema, introspection }),
            None => Err(String::from_str("no root Query type in the schema")),
        }
    }

    /// The merged document.
    pub fn document(&self) -> (r: &Document)
        ensures
            r == &self.schema.document,
    {
        &self.schema.document
    }

    /// The identity of the subgraph the wrapped schema belongs to.
    pub fn id(&self) -> (r: &String)
        ensures
            r == &self.schema.id,
    {
        &self.schema.id
    }

    /// The wrapped schema.
    pub fn schema(&self) -> (r: &Schema)
        ensures
            r == &self.schema,
    {
        &self.schema
    }

    /// The inverse index of the wrapped schema.
    pub fn types_for_interface(&self) -> (r: &Vec<(String, Vec<String>)>)
        ensures
            r == &self.schema.types_for_interface,
    {
        &self.schema.types_for_interface
    }

    /// The interface names a type implements; nothing when it implements
    /// none.
    pub fn interfaces_for_type(&self, name: &str) -> (r: Option<&Vec<String>>)
        ensures
            match r {
                Some(v) => crate::schema::spec_assoc(
                    self.schema.interfaces_for_type@.map_values(
                        |p: (String, Vec<String>)| crate::schema::name_list_view(p),
                    ),
                    name@,
                    0,
                ) == Some(v@.map_values(|s: String| s@)),
                None => crate::schema::spec_assoc(
                    self.schema.interfaces_for_type@.map_values(
                        |p: (String, Vec<String>)| crate::schema::name_list_view(p),
                    ),
                    name@,
                    0,
                ) is None,
            },
    {
        self.schema.interfaces_for_type(name)
    }

    /// The document's own definition of the named object type; the caller
    /// owes a name the document defines.
    pub fn object_type(&self, obj_type: &ObjectDef) -> (r: &ObjectDef)
        requires
            spec_object_type(self.schema.document.definitions@, obj_type.name@) is Some,
        ensures
            spec_object_type(self.schema.document.definitions@, obj_type.name@) == Some(*r),
    {
        match self.schema.document.get_object_type_definition(obj_type.name.as_str()) {
            Some(o) => o,
            None => vstd::pervasive::unreached(),
        }
    }

    /// The first type definition with the given name.
    pub fn get_named_type(&self, name: &str) -> (r: Option<&TypeDef>)
        ensures
            match r {
                Some(td) => spec_named_type(self.schema.document.definitions@, name@) == Some(*td),
                None => spec_named_type(self.schema.document.definitions@, name@) is None,
            },
    {
        self.schema.document.get_named_type(name)
    }

    /// Whether a type may stand in input position: its base name resolves to
    /// a scalar, enum or input-object definition.
    pub fn is_input_type(&self, t: &TypeRef) -> (r: bool)
        ensures
            r == spec_is_input_type(self.schema.document.definitions@, *t),
        decreases *t,
    {
        match t {
            TypeRef::Named(name) => match self.schema.document.get_named_type(name.as_str()) {
                Some(TypeDef::Scalar(_)) => true,
                Some(TypeDef::Enum(_)) => true,
                Some(TypeDef::InputObject(_)) => true,
                _ => false,
            },
            TypeRef::List(inner) => self.is_input_type(inner),
            TypeRef::NonNull(inner) => self.is_input_type(inner),
        }
    }

    /// The root `Query` object type definition, if the document declares
    /// one.
    pub fn get_root_query_type_def(&self) -> (r: Option<&ObjectDef>)
        ensures
            match r {
                Some(o) => spec_object_type(self.schema.document.definitions@, "Query"@) == Some(
                    *o,
                ),
                None => spec_object_type(self.schema.document.definitions@, "Query"@) is None,
            },
    {
        self.schema.document.get_root_query_type()
    }

    /// The root `Query` object type; an `ApiSchema` always has one.
    pub fn query_type(&self) -> (r: &ObjectDef)
        requires
            self.wf(),
        ensures
            spec_object_type(self.schema.document.definitions@, "Query"@) == Some(*r),
    {
        match self.schema.document.get_root_query_type() {
            Some(o) => o,
            None => vstd::pervasive::unreached(),
        }
    }

    /// The root `Subscription` object type, if the document declares one.
    pub fn subscription_type(&self) -> (r: Option<&ObjectDef>)
        ensures
            match r {
                Some(o) => spec_object_type(self.schema.document.definitions@, "Subscription"@)
                    == Some(*o),
                None => spec_object_type(
                    self.schema.document.definitions@,
                    "Subscription"@,
                ) is None,
            },
    {
        self.schema.document.get_object_type_definition("Subscription")
    }

    /// Resolves a name to an object or interface definition: a name carrying
    /// the introspection marker resolves against the fixed introspection
    /// type system, whatever the wrapped document holds; every other name
    /// resolves against the wrapped document.
    pub fn object_or_interface(&self, name: &str) -> (r: Option<ObjectOrInterface<'_>>)
        ensures
            ({
                let defs = if spec_intro_name(name@) {
                    self.introspection.definitions@
                } else {
                    self.schema.document.definitions@
                };
                match r {
                    Some(ObjectOrInterface::Object(o)) => spec_named_type(defs, name@) == Some(
                        TypeDef::Object(*o),
                    ),
                    Some(ObjectOrInterface::Interface(i)) => spec_named_type(defs, name@) == Some(
                        TypeDef::Interface(*i),
                    ),
                    None => !(spec_named_type(defs, name@) matches Some(td) && (td is Object
                        || td is Interface)),
                }
            }),
    {
        let n = name.unicode_len();
        let is_intro = n >= 2 && name.get_char(0) == '_' && name.get_char(1) == '_';
        if is_intro {
            self.introspection.object_or_interface(name)
        } else {
            self.schema.document.object_or_interface(name)
        }
    }

    /// The type definition a field's type bottoms out at.
    pub fn get_type_definition_from_field<'a>(&'a self, field: &FieldDef) -> (r: Option<
        &'a TypeDef,
    >)
        ensures
            match r {
                Some(td) => spec_named_type(
                    self.schema.document.definitions@,
                    spec_base_type(field.field_type),
                ) == Some(*td),
                None => spec_named_type(
                    self.schema.document.definitions@,
                    spec_base_type(field.field_type),
                ) is None,
            },
    {
        self.get_type_definition_from_type(&field.field_type)
    }

    /// The type definition a type reference bottoms out at.
    pub fn get_type_definition_from_type<'a>(&'a self, t: &TypeRef) -> (r: Option<&'a TypeDef>)
        ensures
            match r {
                Some(td) => spec_named_type(
                    self.schema.document.definitions@,
                    spec_base_type(*t),
                ) == Some(*td),
                None => spec_named_type(
                    self.schema.document.definitions@,
                    spec_base_type(*t),
                ) is None,
            },
    {
        self.schema.document.get_named_type(t.get_base_type().as_str())
    }

    /// Every definition of the merged document.
    pub fn definitions(&self) -> (r: &Vec<DocDefinition>)
        ensures
            r == &self.schema.document.definitions,
    {
        &self.schema.document.definitions
    }
}

/// Whether a type may stand in input position, per the resolution rule: the
/// base named type must be a scalar, enum or input-object definition.
pub open spec fn spec_is_input_type(defs: Seq<DocDefinition>, t: TypeRef) -> bool
    decreases t,
{
    match t {
        TypeRef::Named(name) => match spec_named_type(defs, name@) {
            Some(TypeDef::Scalar(_)) => true,
            Some(TypeDef::Enum(_)) => true,
            Some(TypeDef::InputObject(_)) => true,
            _ => false,
        },
        TypeRef::List(inner) => spec_is_input_type(defs, *inner),
        TypeRef::NonNull(inner) => spec_is_input_type(defs, *inner),
    }
}

} // verus!
