//! The document model: type definitions, fields, directives and values of a
//! subgraph schema, held as plain data.

use vstd::prelude::*;

verus! {

/// A (possibly wrapped) reference to a named type.
#[derive(Debug)]
pub enum TypeRef {
    Named(String),
    List(Box<TypeRef>),
    NonNull(Box<TypeRef>),
}

/// A literal value appearing as a directive argument.
///
/// A float literal is recorded but its numeric value is never consulted by
/// any rule in this crate, so it carries no payload.
#[derive(Debug)]
pub enum ArgValue {
    Null,
    Int(i64),
    Float,
    String(String),
    Boolean(bool),
    Enum(String),
    Variable(String),
    List(Vec<ArgValue>),
    Object(Vec<(String, ArgValue)>),
}

/// A directive usage: `@name(arg: value, ...)`.
#[derive(Debug)]
pub struct DirectiveUse {
    pub name: String,
    pub arguments: Vec<(String, ArgValue)>,
}

/// A field of an object, interface or input-object type.
#[derive(Debug)]
pub struct FieldDef {
    pub name: String,
    pub field_type: TypeRef,
    pub directives: Vec<DirectiveUse>,
}

#[derive(Debug)]
pub struct ObjectDef {
    pub name: String,
    pub implements_interfaces: Vec<String>,
    pub fields: Vec<FieldDef>,
    pub directives: Vec<DirectiveUse>,
}

#[derive(Debug)]
pub struct InterfaceDef {
    pub name: String,
    pub fields: Vec<FieldDef>,
    pub directives: Vec<DirectiveUse>,
}

#[derive(Debug)]
pub struct ScalarDef {
    pub name: String,
    pub directives: Vec<DirectiveUse>,
}

#[derive(Debug)]
pub struct UnionDef {
    pub name: String,
    pub types: Vec<String>,
}

#[derive(Debug)]
pub struct EnumDef {
    pub name: String,
    pub values: Vec<String>,
    pub directives: Vec<DirectiveUse>,
}

#[derive(Debug)]
pub struct InputObjectDef {
    pub name: String,
    pub fields: Vec<FieldDef>,
}

#[derive(Debug)]
pub enum TypeDef {
    Scalar(ScalarDef),
    Object(ObjectDef),
    Interface(InterfaceDef),
    Union(UnionDef),
    Enum(EnumDef),
    InputObject(InputObjectDef),
}

/// One definition of a document. Schema definitions, type extensions and
/// directive definitions never take part in any rule of this crate, so they
/// are kept only as an opaque marker.
#[derive(Debug)]
pub enum DocDefinition {
    Type(TypeDef),
    Other,
}

/// A parsed type-definition document.
#[derive(Debug)]
pub struct Document {
    pub definitions: Vec<DocDefinition>,
}

/// The name of a type definition, as a sequence of characters.
pub open spec fn type_def_name(d: TypeDef) -> Seq<char> {
    match d {
        TypeDef::Scalar(t) => t.name@,
        TypeDef::Object(t) => t.name@,
        TypeDef::Interface(t) => t.name@,
        TypeDef::Union(t) => t.name@,
        TypeDef::Enum(t) => t.name@,
        TypeDef::InputObject(t) => t.name@,
    }
}

/// Whether a definition is a type definition with the given name.
pub open spec fn def_has_name(d: DocDefinition, name: Seq<char>) -> bool {
    match d {
        DocDefinition::Type(td) => type_def_name(td) == name,
        DocDefinition::Other => false,
    }
}

impl TypeDef {
    /// The declared name of this type definition.
    pub fn name(&self) -> (r: &String)
        ensures
            r@ == type_def_name(*self),
    {
        match self {
            TypeDef::Scalar(t) => &t.name,
            TypeDef::Object(t) => &t.name,
            TypeDef::Interface(t) => &t.name,
            TypeDef::Union(t) => &t.name,
            TypeDef::Enum(t) => &t.name,
            TypeDef::InputObject(t) => &t.name,
        }
    }
}

/// The first type definition with the given name, scanning left to right.
pub open spec fn spec_named_type(defs: Seq<DocDefinition>, name: Seq<char>) -> Option<TypeDef>
    decreases defs.len(),
{
    if defs.len() == 0 {
        None
    } else {
        match defs[0] {
            DocDefinition::Type(td) => if type_def_name(td) == name {
                Some(td)
            } else {
                spec_named_type(defs.skip(1), name)
            },
            DocDefinition::Other => spec_named_type(defs.skip(1), name),
        }
    }
}

/// The first object type definition with the given name.
pub open spec fn spec_object_type(defs: Seq<DocDefinition>, name: Seq<char>) -> Option<ObjectDef>
    decreases defs.len(),
{
    if defs.len() == 0 {
        None
    } else {
        match defs[0] {
            DocDefinition::Type(TypeDef::Object(o)) => if o.name@ == name {
                Some(o)
            } else {
                spec_object_type(defs.skip(1), name)
            },
            _ => spec_object_type(defs.skip(1), name),
        }
    }
}

/// Whether a definition is an object type definition with the given name.
pub open spec fn is_object_named(d: DocDefinition, name: Seq<char>) -> bool {
    match d {
        DocDefinition::Type(TypeDef::Object(o)) => o.name@ == name,
        _ => false,
    }
}

/// A successful object-type lookup has a witness index.
pub proof fn lemma_object_type_index(defs: Seq<DocDefinition>, name: Seq<char>)
    requires
        spec_object_type(defs, name) is Some,
    ensures
        exists|i: int| 0 <= i < defs.len() && #[trigger] is_object_named(defs[i], name),
    decreases defs.len(),
{
    if defs.len() > 0 {
        if is_object_named(defs[0], name) {
        } else {
            lemma_object_type_index(defs.skip(1), name);
            let i = choose|i: int|
                0 <= i < defs.skip(1).len() && #[trigger] is_object_named(defs.skip(1)[i], name);
            assert(defs.skip(1)[i] == defs[i + 1]);
            assert(is_object_named(defs[i + 1], name));
        }
    }
}

/// An object type definition at any index makes the lookup succeed.
pub proof fn lemma_object_type_present(defs: Seq<DocDefinition>, name: Seq<char>, i: int)
    requires
        0 <= i < defs.len(),
        is_object_named(defs[i], name),
    ensures
        spec_object_type(defs, name) is Some,
    decreases defs.len(),
{
    if is_object_named(defs[0], name) {
    } else {
        assert(i > 0);
        assert(defs.skip(1)[i - 1] == defs[i]);
        lemma_object_type_present(defs.skip(1), name, i - 1);
    }
}

/// The first interface type definition with the given name.
pub open spec fn spec_interface_type(defs: Seq<DocDefinition>, name: Seq<char>) -> Option<
    InterfaceDef,
>
    decreases defs.len(),
{
    if defs.len() == 0 {
        None
    } else {
        match defs[0] {
            DocDefinition::Type(TypeDef::Interface(f)) => if f.name@ == name {
                Some(f)
            } else {
                spec_interface_type(defs.skip(1), name)
            },
            _ => spec_interface_type(defs.skip(1), name),
        }
    }
}

/// All object type definitions, in declaration order.
pub open spec fn spec_object_defs(defs: Seq<DocDefinition>) -> Seq<ObjectDef>
    decreases defs.len(),
{
    if defs.len() == 0 {
        Seq::empty()
    } else {
        let rest = spec_object_defs(defs.skip(1));
        match defs[0] {
            DocDefinition::Type(TypeDef::Object(o)) => seq![o] + rest,
            _ => rest,
        }
    }
}

/// The first field with the given name.
pub open spec fn spec_field(fields: Seq<FieldDef>, name: Seq<char>) -> Option<FieldDef>
    decreases fields.len(),
{
    if fields.len() == 0 {
        None
    } else if fields[0].name@ == name {
        Some(fields[0])
    } else {
        spec_field(fields.skip(1), name)
    }
}

/// The first argument with the given name.
pub open spec fn spec_argument(args: Seq<(String, ArgValue)>, name: Seq<char>) -> Option<ArgValue>
    decreases args.len(),
{
    if args.len() == 0 {
        None
    } else if args[0].0@ == name {
        Some(args[0].1)
    } else {
        spec_argument(args.skip(1), name)
    }
}

/// The first directive with the given name.
pub open spec fn spec_directive(ds: Seq<DirectiveUse>, name: Seq<char>) -> Option<DirectiveUse>
    decreases ds.len(),
{
    if ds.len() == 0 {
        None
    } else if ds[0].name@ == name {
        Some(ds[0])
    } else {
        spec_directive(ds.skip(1), name)
    }
}

/// The name at the bottom of a type reference, after unwrapping every list
/// and non-null wrapper.
pub open spec fn spec_base_type(t: TypeRef) -> Seq<char>
    decreases t,
{
    match t {
        TypeRef::Named(n) => n@,
        TypeRef::List(inner) => spec_base_type(*inner),
        TypeRef::NonNull(inner) => spec_base_type(*inner),
    }
}

impl TypeRef {
    /// The named type at the bottom of this reference.
    pub fn get_base_type(&self) -> (r: &String)
        ensures
            r@ == spec_base_type(*self),
        decreases *self,
    {
        match self {
            TypeRef::Named(n) => n,
            TypeRef::List(inner) => inner.get_base_type(),
            TypeRef::NonNull(inner) => inner.get_base_type(),
        }
    }
}

impl DirectiveUse {
    /// The value of the first argument with the given name.
    pub fn argument(&self, name: &str) -> (r: Option<&ArgValue>)
        ensures
            match r {
                Some(v) => spec_argument(self.arguments@, name@) == Some(*v),
                None => spec_argument(self.arguments@, name@) is None,
            },
    {
        let n = self.arguments.len();
        let mut i: usize = 0;
        proof {
            assert(self.arguments@.skip(0) =~= self.arguments@);
        }
        while i < n
            invariant
                n == self.arguments@.len(),
                i <= n,
                spec_argument(self.arguments@, name@)
                    == spec_argument(self.arguments@.skip(i as int), name@),
            decreases n - i,
        {
            proof {
                assert(self.arguments@.skip(i as int)[0] == self.arguments@[i as int]);
                assert(self.arguments@.skip(i as int).skip(1) =~= self.arguments@.skip(
                    i as int + 1,
                ));
            }
            if str_eq(self.arguments[i].0.as_str(), name) {
                return Some(&self.arguments[i].1);
            }
            i += 1;
        }
        None
    }
}

/// The value of the first argument with the given name among `args`.
pub fn argument_lookup<'a>(args: &'a Vec<(String, ArgValue)>, name: &str) -> (r: Option<
    &'a ArgValue,
>)
    ensures
        match r {
            Some(v) => spec_argument(args@, name@) == Some(*v),
            None => spec_argument(args@, name@) is None,
        },
{
    let n = args.len();
    let mut i: usize = 0;
    proof {
        assert(args@.skip(0) =~= args@);
    }
    while i < n
        invariant
            n == args@.len(),
            i <= n,
            spec_argument(args@, name@) == spec_argument(args@.skip(i as int), name@),
        decreases n - i,
    {
        proof {
            assert(args@.skip(i as int)[0] == args@[i as int]);
            assert(args@.skip(i as int).skip(1) =~= args@.skip(i as int + 1));
        }
        if str_eq(args[i].0.as_str(), name) {
            return Some(&args[i].1);
        }
        i += 1;
    }
    None
}

/// The first directive with the given name among `ds`.
pub fn find_directive<'a>(ds: &'a Vec<DirectiveUse>, name: &str) -> (r: Option<&'a DirectiveUse>)
    ensures
        match r {
            Some(d) => spec_directive(ds@, name@) == Some(*d),
            None => spec_directive(ds@, name@) is None,
        },
{
    let n = ds.len();
    let mut i: usize = 0;
    proof {
        assert(ds@.skip(0) =~= ds@);
    }
    while i < n
        invariant
            n == ds@.len(),
            i <= n,
            spec_directive(ds@, name@) == spec_directive(ds@.skip(i as int), name@),
        decreases n - i,
    {
        proof {
            assert(ds@.skip(i as int)[0] == ds@[i as int]);
            assert(ds@.skip(i as int).skip(1) =~= ds@.skip(i as int + 1));
        }
        if str_eq(ds[i].name.as_str(), name) {
            return Some(&ds[i]);
        }
        i += 1;
    }
    None
}

/// The first field with the given name among `fields`.
pub fn find_field<'a>(fields: &'a Vec<FieldDef>, name: &str) -> (r: Option<&'a FieldDef>)
    ensures
        match r {
            Some(f) => spec_field(fields@, name@) == Some(*f),
            None => spec_field(fields@, name@) is None,
        },
{
    let n = fields.len();
    let mut i: usize = 0;
    proof {
        assert(fields@.skip(0) =~= fields@);
    }
    while i < n
        invariant
            n == fields@.len(),
            i <= n,
            spec_field(fields@, name@) == spec_field(fields@.skip(i as int), name@),
        decreases n - i,
    {
        proof {
            assert(fields@.skip(i as int)[0] == fields@[i as int]);
            assert(fields@.skip(i as int).skip(1) =~= fields@.skip(i as int + 1));
        }
        if str_eq(fields[i].name.as_str(), name) {
            return Some(&fields[i]);
        }
        i += 1;
    }
    None
}

impl ObjectDef {
    /// The first field of this object type with the given name.
    pub fn field(&self, name: &str) -> (r: Option<&FieldDef>)
        ensures
            match r {
                Some(f) => spec_field(self.fields@, name@) == Some(*f),
                None => spec_field(self.fields@, name@) is None,
            },
    {
        find_field(&self.fields, name)
    }
}

impl InterfaceDef {
    /// The first field of this interface with the given name.
    pub fn field(&self, name: &str) -> (r: Option<&FieldDef>)
        ensures
            match r {
                Some(f) => spec_field(self.fields@, name@) == Some(*f),
                None => spec_field(self.fields@, name@) is None,
            },
    {
        find_field(&self.fields, name)
    }
}

/// An object or an interface definition, by reference.
pub enum ObjectOrInterface<'a> {
    Object(&'a ObjectDef),
    Interface(&'a InterfaceDef),
}

impl Document {
    /// The first type definition with the given name.
    pub fn get_named_type(&self, name: &str) -> (r: Option<&TypeDef>)
        ensures
            match r {
                Some(td) => spec_named_type(self.definitions@, name@) == Some(*td),
                None => spec_named_type(self.definitions@, name@) is None,
            },
    {
        let n = self.definitions.len();
        let mut i: usize = 0;
        proof {
            assert(self.definitions@.skip(0) =~= self.definitions@);
        }
        while i < n
            invariant
                n == self.definitions@.len(),
                i <= n,
                spec_named_type(self.definitions@, name@)
                    == spec_named_type(self.definitions@.skip(i as int), name@),
            decreases n - i,
        {
            proof {
                assert(self.definitions@.skip(i as int)[0] == self.definitions@[i as int]);
                assert(self.definitions@.skip(i as int).skip(1) =~= self.definitions@.skip(
                    i as int + 1,
                ));
            }
            match &self.definitions[i] {
                DocDefinition::Type(td) => {
                    if str_eq(td.name().as_str(), name) {
                        return Some(td);
                    }
                },
                DocDefinition::Other => {},
            }
            i += 1;
        }
        None
    }

    /// The first object type definition with the given name.
    pub fn get_object_type_definition(&self, name: &str) -> (r: Option<&ObjectDef>)
        ensures
            match r {
                Some(o) => spec_object_type(self.definitions@, name@) == Some(*o),
                None => spec_object_type(self.definitions@, name@) is None,
            },
    {
        let n = self.definitions.len();
        let mut i: usize = 0;
        proof {
            assert(self.definitions@.skip(0) =~= self.definitions@);
        }
        while i < n
            invariant
                n == self.definitions@.len(),
                i <= n,
                spec_object_type(self.definitions@, name@)
                    == spec_object_type(self.definitions@.skip(i as int), name@),
            decreases n - i,
        {
            proof {
                assert(self.definitions@.skip(i as int)[0] == self.definitions@[i as int]);
                assert(self.definitions@.skip(i as int).skip(1) =~= self.definitions@.skip(
                    i as int + 1,
                ));
            }
            match &self.definitions[i] {
                DocDefinition::Type(TypeDef::Object(o)) => {
                    if str_eq(o.name.as_str(), name) {
                        return Some(o);
                    }
                },
                _ => {},
            }
            i += 1;
        }
        None
    }

    /// The first interface type definition with the given name.
    pub fn get_interface_type_definition(&self, name: &str) -> (r: Option<&InterfaceDef>)
        ensures
            match r {
                Some(f) => spec_interface_type(self.definitions@, name@) == Some(*f),
                None => spec_interface_type(self.definitions@, name@) is None,
            },
    {
        let n = self.definitions.len();
        let mut i: usize = 0;
        proof {
            assert(self.definitions@.skip(0) =~= self.definitions@);
        }
        while i < n
            invariant
                n == self.definitions@.len(),
                i <= n,
                spec_interface_type(self.definitions@, name@)
                    == spec_interface_type(self.definitions@.skip(i as int), name@),
            decreases n - i,
        {
            proof {
                assert(self.definitions@.skip(i as int)[0] == self.definitions@[i as int]);
                assert(self.definitions@.skip(i as int).skip(1) =~= self.definitions@.skip(
                    i as int + 1,
                ));
            }
            match &self.definitions[i] {
                DocDefinition::Type(TypeDef::Interface(f)) => {
                    if str_eq(f.name.as_str(), name) {
                        return Some(f);
                    }
                },
                _ => {},
            }
            i += 1;
        }
        None
    }

    /// All object type definitions, in declaration order.
    pub fn get_object_type_definitions(&self) -> (r: Vec<&ObjectDef>)
        ensures
            r@.map_values(|o: &ObjectDef| *o) == spec_object_defs(self.definitions@),
    {
        let n = self.definitions.len();
        let mut out: Vec<&ObjectDef> = Vec::new();
        let mut i: usize = 0;
        proof {
            assert(self.definitions@.skip(0) =~= self.definitions@);
        }
        while i < n
            invariant
                n == self.definitions@.len(),
                i <= n,
                out@.map_values(|o: &ObjectDef| *o) + spec_object_defs(
                    self.definitions@.skip(i as int),
                ) == spec_object_defs(self.definitions@),
            decreases n - i,
        {
            proof {
                assert(self.definitions@.skip(i as int)[0] == self.definitions@[i as int]);
                assert(self.definitions@.skip(i as int).skip(1) =~= self.definitions@.skip(
                    i as int + 1,
                ));
            }
            match &self.definitions[i] {
                DocDefinition::Type(TypeDef::Object(o)) => {
                    let ghost prev = out@.map_values(|x: &ObjectDef| *x);
                    out.push(o);
                    proof {
                        assert(out@.map_values(|x: &ObjectDef| *x) =~= prev.push(*o));
                        assert(prev.push(*o) + spec_object_defs(
                            self.definitions@.skip(i as int + 1),
                        ) =~= prev + (seq![*o] + spec_object_defs(
                            self.definitions@.skip(i as int + 1),
                        )));
                    }
                },
                _ => {},
            }
            i += 1;
        }
        proof {
            assert(spec_object_defs(self.definitions@.skip(n as int)) =~= Seq::<
                ObjectDef,
            >::empty());
            assert(out@.map_values(|o: &ObjectDef| *o) =~= out@.map_values(|o: &ObjectDef| *o)
                + Seq::<ObjectDef>::empty());
        }
        out
    }

    /// The root `Query` object type, if the document declares one.
    pub fn get_root_query_type(&self) -> (r: Option<&ObjectDef>)
        ensures
            match r {
                Some(o) => spec_object_type(self.definitions@, "Query"@) == Some(*o),
                None => spec_object_type(self.definitions@, "Query"@) is None,
            },
    {
        self.get_object_type_definition("Query")
    }

    /// The first object or interface definition with the given name.
    pub fn object_or_interface(&self, name: &str) -> (r: Option<ObjectOrInterface<'_>>)
        ensures
            match r {
                Some(ObjectOrInterface::Object(o)) => spec_named_type(self.definitions@, name@)
                    == Some(TypeDef::Object(*o)),
                Some(ObjectOrInterface::Interface(i)) => spec_named_type(self.definitions@, name@)
                    == Some(TypeDef::Interface(*i)),
                None => !(spec_named_type(self.definitions@, name@) matches Some(td)
                    && (td is Object || td is Interface)),
            },
    {
        match self.get_named_type(name) {
            Some(TypeDef::Object(o)) => Some(ObjectOrInterface::Object(o)),
            Some(TypeDef::Interface(i)) => Some(ObjectOrInterface::Interface(i)),
            _ => None,
        }
    }
}

/// Character-for-character equality of two string slices.
pub fn str_eq(a: &str, b: &str) -> (r: bool)
    ensures
        r == (a@ == b@),
{
    let n = a.unicode_len();
    if n != b.unicode_len() {
        proof {
            assert(a@ != b@) by {
                assert(a@.len() != b@.len());
            }
        }
        return false;
    }
    let mut i: usize = 0;
    while i < n
        invariant
            n == a@.len(),
            n == b@.len(),
            i <= n,
            forall|j: int| 0 <= j < i ==> a@[j] == b@[j],
        decreases n - i,
    {
        if a.get_char(i) != b.get_char(i) {
            return false;
        }
        i += 1;
    }
    proof {
        assert(a@ =~= b@);
    }
    true
}

} // verus!
