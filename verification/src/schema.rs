//! The validated schema: construction, the type index, and what a schema
//! imports from other subgraphs.

use vstd::prelude::*;

use crate::errors::{err_view, ErrModel, SchemaImportError, SchemaValidationError};
use crate::imports::{spec_imported_type, spec_schema_reference, ImportedType, SchemaReference};
use crate::model::{
    spec_argument, spec_interface_type, spec_object_type, ArgValue, DirectiveUse, DocDefinition,
    Document, ObjectDef, TypeDef,
};

verus! {

/// Whether an object type's `implements` clause lists the interface name.
pub open spec fn spec_implements(o: ObjectDef, iface: Seq<char>) -> bool {
    exists|k: int|
        0 <= k < o.implements_interfaces@.len() && o.implements_interfaces@[k]@ == iface
}

/// The names of the object types among the first `i` definitions whose
/// `implements` clause lists `iface`, in declaration order.
pub open spec fn spec_implementor_names(defs: Seq<DocDefinition>, iface: Seq<char>, i: int) -> Seq<
    Seq<char>,
>
    decreases i,
{
    if i <= 0 {
        Seq::empty()
    } else {
        spec_implementor_names(defs, iface, i - 1) + (match defs[i - 1] {
            DocDefinition::Type(TypeDef::Object(o)) => if spec_implements(o, iface) {
                seq![o.name@]
            } else {
                Seq::empty()
            },
            _ => Seq::empty(),
        })
    }
}

/// The forward index drawn from the first `i` definitions: one entry per
/// object type with a non-empty `implements` clause, carrying that clause.
pub open spec fn spec_fwd_entries(defs: Seq<DocDefinition>, i: int) -> Seq<
    (Seq<char>, Seq<Seq<char>>),
>
    decreases i,
{
    if i <= 0 {
        Seq::empty()
    } else {
        spec_fwd_entries(defs, i - 1) + (match defs[i - 1] {
            DocDefinition::Type(TypeDef::Object(o)) => if o.implements_interfaces@.len() > 0 {
                seq![(o.name@, o.implements_interfaces@.map_values(|s: String| s@))]
            } else {
                Seq::empty()
            },
            _ => Seq::empty(),
        })
    }
}

/// The inverse index drawn from the first `i` definitions: one entry per
/// interface definition, carrying its implementors in declaration order.
pub open spec fn spec_inv_entries(defs: Seq<DocDefinition>, i: int) -> Seq<
    (Seq<char>, Seq<Seq<char>>),
>
    decreases i,
{
    if i <= 0 {
        Seq::empty()
    } else {
        spec_inv_entries(defs, i - 1) + (match defs[i - 1] {
            DocDefinition::Type(TypeDef::Interface(f)) => seq![
                (f.name@, spec_implementor_names(defs, f.name@, defs.len() as int)),
            ],
            _ => Seq::empty(),
        })
    }
}

/// The first `(type, interface)` pair, from index `k` on in one object's
/// `implements` clause, whose interface the document does not define.
pub open spec fn spec_first_undef_in(defs: Seq<DocDefinition>, o: ObjectDef, k: int) -> Option<
    (Seq<char>, Seq<char>),
>
    decreases o.implements_interfaces@.len() - k,
{
    if k < 0 || k >= o.implements_interfaces@.len() {
        None
    } else if spec_interface_type(defs, o.implements_interfaces@[k]@) is None {
        Some((o.name@, o.implements_interfaces@[k]@))
    } else {
        spec_first_undef_in(defs, o, k + 1)
    }
}

/// The first `(type, interface)` pair, from definition `i` on, naming an
/// undefined interface.
pub open spec fn spec_first_undef(defs: Seq<DocDefinition>, i: int) -> Option<
    (Seq<char>, Seq<char>),
>
    decreases defs.len() - i,
{
    if i < 0 || i >= defs.len() {
        None
    } else {
        match defs[i] {
            DocDefinition::Type(TypeDef::Object(o)) => match spec_first_undef_in(defs, o, 0) {
                Some(p) => Some(p),
                None => spec_first_undef(defs, i + 1),
            },
            _ => spec_first_undef(defs, i + 1),
        }
    }
}

/// The view of one index entry: its key and its name list, as characters.
pub open spec fn name_list_view(p: (String, Vec<String>)) -> (Seq<char>, Seq<Seq<char>>) {
    (p.0@, p.1@.map_values(|s: String| s@))
}

/// The list a name-keyed association holds under `key`, scanning first to
/// last.
pub open spec fn spec_assoc(entries: Seq<(Seq<char>, Seq<Seq<char>>)>, key: Seq<char>, i: int) -> Option<
    Seq<Seq<char>>,
>
    decreases entries.len() - i,
{
    if i < 0 || i >= entries.len() {
        None
    } else if entries[i].0 == key {
        Some(entries[i].1)
    } else {
        spec_assoc(entries, key, i + 1)
    }
}

/// A validated and preprocessed subgraph schema.
#[derive(Debug)]
pub struct Schema {
    /// The identity of the subgraph this schema belongs to.
    pub id: String,
    /// The parsed type-definition document.
    pub document: Document,
    /// Maps each type name to the interface names it implements.
    pub interfaces_for_type: Vec<(String, Vec<String>)>,
    /// Maps each interface name to the names of the types implementing it.
    pub types_for_interface: Vec<(String, Vec<String>)>,
}

impl Schema {
    /// The two index maps agree with the document and every implemented
    /// interface is defined.
    pub open spec fn wf(&self) -> bool {
        let defs = self.document.definitions@;
        &&& self.interfaces_for_type@.map_values(|p: (String, Vec<String>)| name_list_view(p))
            == spec_fwd_entries(defs, defs.len() as int)
        &&& self.types_for_interface@.map_values(|p: (String, Vec<String>)| name_list_view(p))
            == spec_inv_entries(defs, defs.len() as int)
        &&& spec_first_undef(defs, 0) is None
    }

    /// Wraps an already-validated document with empty index maps. Meant for
    /// the fixed introspection document, which implements no interfaces.
    pub fn new(id: String, document: Document) -> (r: Schema)
        ensures
            r.id == id,
            r.document == document,
            r.interfaces_for_type@.len() == 0,
            r.types_for_interface@.len() == 0,
    {
        Schema { id, document, interfaces_for_type: Vec::new(), types_for_interface: Vec::new() }
    }

    /// The inverse index: one entry for each interface in the schema.
    pub fn types_for_interface(&self) -> (r: &Vec<(String, Vec<String>)>)
        ensures
            r == &self.types_for_interface,
    {
        &self.types_for_interface
    }

    /// The interface names a type implements; nothing when it implements
    /// none.
    pub fn interfaces_for_type(&self, name: &str) -> (r: Option<&Vec<String>>)
        ensures
            match r {
                Some(v) => spec_assoc(
                    self.interfaces_for_type@.map_values(
                        |p: (String, Vec<String>)| name_list_view(p),
                    ),
                    name@,
                    0,
                ) == Some(v@.map_values(|s: String| s@)),
                None => spec_assoc(
                    self.interfaces_for_type@.map_values(
                        |p: (String, Vec<String>)| name_list_view(p),
                    ),
                    name@,
                    0,
                ) is None,
            },
    {
        assoc_lookup(&self.interfaces_for_type, name)
    }

    /// The schema-metadata type: the object type named `_Schema_`, the
    /// carrier of schema-level directives.
    pub fn subgraph_schema_object_type(&self) -> (r: Option<&ObjectDef>)
        ensures
            match r {
                Some(o) => spec_object_type(self.document.definitions@, "_Schema_"@) == Some(*o),
                None => spec_object_type(self.document.definitions@, "_Schema_"@) is None,
            },
    {
        self.document.get_object_type_definition("_Schema_")
    }

    /// The `name` argument a directive carries; the caller owes a directive
    /// that carries one.
    pub fn name_argument_value_from_directive(directive: &DirectiveUse) -> (r: &ArgValue)
        requires
            spec_argument(directive.arguments@, "name"@) is Some,
        ensures
            spec_argument(directive.arguments@, "name"@) == Some(*r),
    {
        match crate::model::argument_lookup(&directive.arguments, "name") {
            Some(v) => v,
            None => vstd::pervasive::unreached(),
        }
    }
}

/// The list held under `key` in a name-keyed association, by reference.
pub fn assoc_lookup<'a>(entries: &'a Vec<(String, Vec<String>)>, key: &str) -> (r: Option<
    &'a Vec<String>,
>)
    ensures
        match r {
            Some(v) => spec_assoc(
                entries@.map_values(|p: (String, Vec<String>)| name_list_view(p)),
                key@,
                0,
            ) == Some(v@.map_values(|s: String| s@)),
            None => spec_assoc(
                entries@.map_values(|p: (String, Vec<String>)| name_list_view(p)),
                key@,
                0,
            ) is None,
        },
{
    let ghost ventries = entries@.map_values(|p: (String, Vec<String>)| name_list_view(p));
    let n = entries.len();
    let mut i: usize = 0;
    while i < n
        invariant
            n == entries@.len(),
            ventries == entries@.map_values(|p: (String, Vec<String>)| name_list_view(p)),
            i <= n,
            spec_assoc(ventries, key@, 0) == spec_assoc(ventries, key@, i as int),
        decreases n - i,
    {
        if crate::model::str_eq(entries[i].0.as_str(), key) {
            return Some(&entries[i].1);
        }
        i += 1;
    }
    None
}

/// Copies a list of names.
pub fn clone_names(v: &Vec<String>) -> (r: Vec<String>)
    ensures
        r@.map_values(|s: String| s@) == v@.map_values(|s: String| s@),
{
    let n = v.len();
    let mut out: Vec<String> = Vec::new();
    let mut i: usize = 0;
    while i < n
        invariant
            n == v@.len(),
            i <= n,
            out@.map_values(|s: String| s@) == v@.map_values(|s: String| s@).take(i as int),
        decreases n - i,
    {
        let ghost prev = out@.map_values(|s: String| s@);
        out.push(v[i].clone());
        proof {
            assert(out@.map_values(|s: String| s@) =~= prev.push(v@[i as int]@));
            assert(v@.map_values(|s: String| s@).take(i as int + 1) =~= v@.map_values(
                |s: String| s@,
            ).take(i as int).push(v@[i as int]@));
        }
        i += 1;
    }
    proof {
        assert(v@.map_values(|s: String| s@).take(n as int) =~= v@.map_values(|s: String| s@));
    }
    out
}

/// Whether the object type's `implements` clause lists `iface`.
pub(crate) fn implements(o: &ObjectDef, iface: &str) -> (r: bool)
    ensures
        r == spec_implements(*o, iface@),
{
    let n = o.implements_interfaces.len();
    let mut i: usize = 0;
    while i < n
        invariant
            n == o.implements_interfaces@.len(),
            i <= n,
            forall|k: int| 0 <= k < i ==> o.implements_interfaces@[k]@ != iface@,
        decreases n - i,
    {
        if crate::model::str_eq(o.implements_interfaces[i].as_str(), iface) {
            return true;
        }
        i += 1;
    }
    false
}

impl Schema {
    /// Builds the two index maps of a document. Scans every object type; an
    /// `implements` entry naming an interface the document does not define
    /// is an error naming the type and the interface, and no partial index
    /// is returned.
    pub fn collect_interfaces(document: &Document) -> (r: Result<
        (Vec<(String, Vec<String>)>, Vec<(String, Vec<String>)>),
        SchemaValidationError,
    >)
        ensures
            match r {
                Ok(maps) => {
                    &&& spec_first_undef(document.definitions@, 0) is None
                    &&& maps.0@.map_values(|p: (String, Vec<String>)| name_list_view(p))
                        == spec_fwd_entries(
                        document.definitions@,
                        document.definitions@.len() as int,
                    )
                    &&& maps.1@.map_values(|p: (String, Vec<String>)| name_list_view(p))
                        == spec_inv_entries(
                        document.definitions@,
                        document.definitions@.len() as int,
                    )
                },
                Err(e) => {
                    &&& spec_first_undef(document.definitions@, 0) matches Some(p) && err_view(e)
                        == (ErrModel::InterfaceUndefined { implementor: p.0, interface: p.1 })
                },
            },
    {
        let ghost defs = document.definitions@;
        let n = document.definitions.len();
        let mut fwd: Vec<(String, Vec<String>)> = Vec::new();
        let mut i: usize = 0;
        while i < n
            invariant
                n == document.definitions@.len(),
                defs == document.definitions@,
                i <= n,
                spec_first_undef(defs, 0) == spec_first_undef(defs, i as int),
                fwd@.map_values(|p: (String, Vec<String>)| name_list_view(p)) == spec_fwd_entries(
                    defs,
                    i as int,
                ),
            decreases n - i,
        {
            match &document.definitions[i] {
                DocDefinition::Type(TypeDef::Object(o)) => {
                    let m = o.implements_interfaces.len();
                    let mut k: usize = 0;
                    while k < m
                        invariant
                            n == document.definitions@.len(),
                            defs == document.definitions@,
                            m == o.implements_interfaces@.len(),
                            0 <= i < n,
                            document.definitions@[i as int] == DocDefinition::Type(
                                TypeDef::Object(*o),
                            ),
                            k <= m,
                            spec_first_undef(defs, 0) == spec_first_undef(defs, i as int),
                            spec_first_undef_in(defs, *o, 0) == spec_first_undef_in(
                                defs,
                                *o,
                                k as int,
                            ),
                        decreases m - k,
                    {
                        let iface = &o.implements_interfaces[k];
                        if document.get_interface_type_definition(iface.as_str()).is_none() {
                            proof {
                                assert(spec_first_undef_in(defs, *o, k as int) == Some(
                                    (o.name@, o.implements_interfaces@[k as int]@),
                                ));
                                assert(spec_first_undef(defs, i as int) == Some(
                                    (o.name@, o.implements_interfaces@[k as int]@),
                                ));
                            }
                            return Err(
                                SchemaValidationError::InterfaceUndefined {
                                    implementor: o.name.clone(),
                                    interface: iface.clone(),
                                },
                            );
                        }
                        k += 1;
                    }
                    proof {
                        assert(spec_first_undef_in(defs, *o, m as int) is None);
                        assert(spec_first_undef(defs, i as int) == spec_first_undef(
                            defs,
                            i as int + 1,
                        ));
                    }
                    let ghost prevv = fwd@.map_values(|p: (String, Vec<String>)| name_list_view(p));
                    if o.implements_interfaces.len() > 0 {
                        fwd.push((o.name.clone(), clone_names(&o.implements_interfaces)));
                        proof {
                            assert(fwd@.map_values(|p: (String, Vec<String>)| name_list_view(p))
                                =~= prevv.push(
                                (o.name@, o.implements_interfaces@.map_values(|s: String| s@)),
                            ));
                            assert(spec_fwd_entries(defs, i as int + 1) =~= prevv.push(
                                (o.name@, o.implements_interfaces@.map_values(|s: String| s@)),
                            ));
                        }
                    } else {
                        proof {
                            assert(spec_fwd_entries(defs, i as int + 1) =~= prevv);
                        }
                    }
                },
                _ => {
                    proof {
                        assert(spec_fwd_entries(defs, i as int + 1) =~= spec_fwd_entries(
                            defs,
                            i as int,
                        ));
                        assert(spec_first_undef(defs, i as int) == spec_first_undef(
                            defs,
                            i as int + 1,
                        ));
                    }
                },
            }
            i += 1;
        }
        proof {
            assert(spec_first_undef(defs, n as int) is None);
        }
        let mut inv: Vec<(String, Vec<String>)> = Vec::new();
        let mut i2: usize = 0;
        while i2 < n
            invariant
                n == document.definitions@.len(),
                defs == document.definitions@,
                i2 <= n,
                inv@.map_values(|p: (String, Vec<String>)| name_list_view(p)) == spec_inv_entries(
                    defs,
                    i2 as int,
                ),
            decreases n - i2,
        {
            match &document.definitions[i2] {
                DocDefinition::Type(TypeDef::Interface(f)) => {
                    let mut impls: Vec<String> = Vec::new();
                    let mut j: usize = 0;
                    while j < n
                        invariant
                            n == document.definitions@.len(),
                            defs == document.definitions@,
                            0 <= i2 < n,
                            document.definitions@[i2 as int] == DocDefinition::Type(
                                TypeDef::Interface(*f),
                            ),
                            j <= n,
                            impls@.map_values(|s: String| s@) == spec_implementor_names(
                                defs,
                                f.name@,
                                j as int,
                            ),
                        decreases n - j,
                    {
                        match &document.definitions[j] {
                            DocDefinition::Type(TypeDef::Object(o)) => {
                                let ghost prevn = impls@.map_values(|s: String| s@);
                                if implements(o, f.name.as_str()) {
                                    impls.push(o.name.clone());
                                    proof {
                                        assert(impls@.map_values(|s: String| s@) =~= prevn.push(
                                            o.name@,
                                        ));
                                        assert(spec_implementor_names(defs, f.name@, j as int + 1)
                                            =~= prevn.push(o.name@));
                                    }
                                } else {
                                    proof {
                                        assert(spec_implementor_names(defs, f.name@, j as int + 1)
                                            =~= prevn);
                                    }
                                }
                            },
                            _ => {
                                proof {
                                    assert(spec_implementor_names(defs, f.name@, j as int + 1)
                                        =~= spec_implementor_names(defs, f.name@, j as int));
                                }
                            },
                        }
                        j += 1;
                    }
                    let ghost previ = inv@.map_values(|p: (String, Vec<String>)| name_list_view(p));
                    inv.push((f.name.clone(), impls));
                    proof {
                        assert(inv@.map_values(|p: (String, Vec<String>)| name_list_view(p))
                            =~= previ.push(
                            (f.name@, spec_implementor_names(defs, f.name@, defs.len() as int)),
                        ));
                        assert(spec_inv_entries(defs, i2 as int + 1) =~= previ.push(
                            (f.name@, spec_implementor_names(defs, f.name@, defs.len() as int)),
                        ));
                    }
                },
                _ => {
                    proof {
                        assert(spec_inv_entries(defs, i2 as int + 1) =~= spec_inv_entries(
                            defs,
                            i2 as int,
                        ));
                    }
                },
            }
            i2 += 1;
        }
        Ok((fwd, inv))
    }
}

/// The subgraph identity an `@import` directive's `subgraph` argument names.
pub open spec fn spec_ref_of_directive(d: DirectiveUse) -> Option<Seq<char>> {
    match spec_argument(d.arguments@, "subgraph"@) {
        Some(v) => spec_schema_reference(v),
        None => None,
    }
}

/// The `(name, alias, explicit, subgraph)` entries drawn from the first `j`
/// values of one type list; a malformed entry contributes nothing.
pub open spec fn spec_entries(l: Seq<ArgValue>, sg: Seq<char>, j: int) -> Seq<
    (Seq<char>, Seq<char>, bool, Seq<char>),
>
    decreases j,
{
    if j <= 0 {
        Seq::empty()
    } else {
        spec_entries(l, sg, j - 1) + (match spec_imported_type(l[j - 1]) {
            Some(t) => seq![(t.0, t.1, t.2, sg)],
            None => Seq::empty(),
        })
    }
}

/// Every type entry one `@import` directive imports; nothing when its
/// `subgraph` or `types` argument is unusable.
pub open spec fn spec_directive_imports(d: DirectiveUse) -> Seq<
    (Seq<char>, Seq<char>, bool, Seq<char>),
> {
    match spec_ref_of_directive(d) {
        Some(sg) => match spec_argument(d.arguments@, "types"@) {
            Some(ArgValue::List(l)) => spec_entries(l@, sg, l@.len() as int),
            _ => Seq::empty(),
        },
        None => Seq::empty(),
    }
}

/// Every type entry the first `j` directives import.
pub open spec fn spec_imported_pairs(ds: Seq<DirectiveUse>, j: int) -> Seq<
    (Seq<char>, Seq<char>, bool, Seq<char>),
>
    decreases j,
{
    if j <= 0 {
        Seq::empty()
    } else {
        spec_imported_pairs(ds, j - 1) + (if ds[j - 1].name@ == "import"@ {
            spec_directive_imports(ds[j - 1])
        } else {
            Seq::empty()
        })
    }
}

/// Every type entry a document imports, through the `@import` directives of
/// its schema-metadata type.
pub open spec fn spec_schema_imports(defs: Seq<DocDefinition>) -> Seq<
    (Seq<char>, Seq<char>, bool, Seq<char>),
> {
    match spec_object_type(defs, "_Schema_"@) {
        Some(o) => spec_imported_pairs(o.directives@, o.directives@.len() as int),
        None => Seq::empty(),
    }
}

/// The subgraph identities the first `j` directives refer to, one per
/// `@import` directive with a usable `subgraph` argument.
pub open spec fn spec_import_refs(ds: Seq<DirectiveUse>, j: int) -> Seq<Seq<char>>
    decreases j,
{
    if j <= 0 {
        Seq::empty()
    } else {
        spec_import_refs(ds, j - 1) + (if ds[j - 1].name@ == "import"@ {
            match spec_ref_of_directive(ds[j - 1]) {
                Some(sg) => seq![sg],
                None => Seq::empty(),
            }
        } else {
            Seq::empty()
        })
    }
}

/// The subgraph identities a document's `@import` directives refer to.
pub open spec fn spec_schema_import_refs(defs: Seq<DocDefinition>) -> Seq<Seq<char>> {
    match spec_object_type(defs, "_Schema_"@) {
        Some(o) => spec_import_refs(o.directives@, o.directives@.len() as int),
        None => Seq::empty(),
    }
}

/// The view of one imported-type entry.
pub open spec fn import_pair_view(p: (ImportedType, SchemaReference)) -> (
    Seq<char>,
    Seq<char>,
    bool,
    Seq<char>,
) {
    (p.0.name@, p.0.alias@, p.0.explicit, p.1.subgraph@)
}

impl Schema {
    /// Every type this schema imports, each entry paired with the reference
    /// it is imported from. Entries of malformed directives are passed over;
    /// validation reports those.
    pub fn imported_types(&self) -> (r: Vec<(ImportedType, SchemaReference)>)
        ensures
            r@.map_values(|p: (ImportedType, SchemaReference)| import_pair_view(p))
                == spec_schema_imports(self.document.definitions@),
    {
        let ghost defs = self.document.definitions@;
        let mut out: Vec<(ImportedType, SchemaReference)> = Vec::new();
        let schema_type = match self.subgraph_schema_object_type() {
            Some(o) => o,
            None => {
                return out;
            },
        };
        let nd = schema_type.directives.len();
        let mut j: usize = 0;
        while j < nd
            invariant
                nd == schema_type.directives@.len(),
                spec_object_type(defs, "_Schema_"@) == Some(*schema_type),
                j <= nd,
                out@.map_values(|p: (ImportedType, SchemaReference)| import_pair_view(p))
                    == spec_imported_pairs(schema_type.directives@, j as int),
            decreases nd - j,
        {
            let d = &schema_type.directives[j];
            let ghost prev = out@.map_values(
                |p: (ImportedType, SchemaReference)| import_pair_view(p),
            );
            if crate::model::str_eq(d.name.as_str(), "import") {
                let sg = match crate::model::argument_lookup(&d.arguments, "subgraph") {
                    Some(v) => SchemaReference::parse(v),
                    None => None,
                };
                match sg {
                    Some(sgref) => {
                        match crate::model::argument_lookup(&d.arguments, "types") {
                            Some(ArgValue::List(l)) => {
                                let nl = l.len();
                                let mut k: usize = 0;
                                while k < nl
                                    invariant
                                        nl == l@.len(),
                                        k <= nl,
                                        out@.map_values(
                                            |p: (ImportedType, SchemaReference)| import_pair_view(
                                                p,
                                            ),
                                        ) == prev + spec_entries(l@, sgref.subgraph@, k as int),
                                    decreases nl - k,
                                {
                                    let ghost prev2 = out@.map_values(
                                        |p: (ImportedType, SchemaReference)| import_pair_view(p),
                                    );
                                    match ImportedType::parse(&l[k]) {
                                        Some(t) => {
                                            let ghost tv = (
                                                t.name@,
                                                t.alias@,
                                                t.explicit,
                                                sgref.subgraph@,
                                            );
                                            out.push((t, sgref.duplicate()));
                                            proof {
                                                assert(out@.map_values(
                                                    |p: (ImportedType, SchemaReference)|
                                                        import_pair_view(p),
                                                ) =~= prev2.push(tv));
                                                assert(prev + spec_entries(
                                                    l@,
                                                    sgref.subgraph@,
                                                    k as int + 1,
                                                ) =~= prev2.push(tv));
                                            }
                                        },
                                        None => {
                                            proof {
                                                assert(prev + spec_entries(
                                                    l@,
                                                    sgref.subgraph@,
                                                    k as int + 1,
                                                ) =~= prev2);
                                            }
                                        },
                                    }
                                    k += 1;
                                }
                                proof {
                                    assert(spec_directive_imports(
                                        schema_type.directives@[j as int],
                                    ) == spec_entries(l@, sgref.subgraph@, nl as int));
                                    assert(spec_imported_pairs(
                                        schema_type.directives@,
                                        j as int + 1,
                                    ) =~= prev + spec_entries(l@, sgref.subgraph@, nl as int));
                                }
                            },
                            _ => {
                                proof {
                                    assert(spec_directive_imports(
                                        schema_type.directives@[j as int],
                                    ) =~= Seq::<(Seq<char>, Seq<char>, bool, Seq<char>)>::empty());
                                    assert(spec_imported_pairs(
                                        schema_type.directives@,
                                        j as int + 1,
                                    ) =~= prev);
                                }
                            },
                        }
                    },
                    None => {
                        proof {
                            assert(spec_directive_imports(schema_type.directives@[j as int])
                                =~= Seq::<(Seq<char>, Seq<char>, bool, Seq<char>)>::empty());
                            assert(spec_imported_pairs(schema_type.directives@, j as int + 1)
                                =~= prev);
                        }
                    },
                }
            } else {
                proof {
                    assert(spec_imported_pairs(schema_type.directives@, j as int + 1) =~= prev);
                }
            }
            j += 1;
        }
        out
    }

    /// The references this schema's `@import` directives point at, one per
    /// directive with a usable `subgraph` argument, in declaration order.
    pub fn imported_schemas(&self) -> (r: Vec<SchemaReference>)
        ensures
            r@.map_values(|x: SchemaReference| x.subgraph@) == spec_schema_import_refs(
                self.document.definitions@,
            ),
    {
        let ghost defs = self.document.definitions@;
        let mut out: Vec<SchemaReference> = Vec::new();
        let schema_type = match self.subgraph_schema_object_type() {
            Some(o) => o,
            None => {
                return out;
            },
        };
        let nd = schema_type.directives.len();
        let mut j: usize = 0;
        while j < nd
            invariant
                nd == schema_type.directives@.len(),
                spec_object_type(defs, "_Schema_"@) == Some(*schema_type),
                j <= nd,
                out@.map_values(|x: SchemaReference| x.subgraph@) == spec_import_refs(
                    schema_type.directives@,
                    j as int,
                ),
            decreases nd - j,
        {
            let d = &schema_type.directives[j];
            let ghost prev = out@.map_values(|x: SchemaReference| x.subgraph@);
            if crate::model::str_eq(d.name.as_str(), "import") {
                let sg = match crate::model::argument_lookup(&d.arguments, "subgraph") {
                    Some(v) => SchemaReference::parse(v),
                    None => None,
                };
                match sg {
                    Some(sgref) => {
                        let ghost sv = sgref.subgraph@;
                        out.push(sgref);
                        proof {
                            assert(out@.map_values(|x: SchemaReference| x.subgraph@) =~= prev.push(
                                sv,
                            ));
                            assert(spec_import_refs(schema_type.directives@, j as int + 1)
                                =~= prev.push(sv));
                        }
                    },
                    None => {
                        proof {
                            assert(spec_import_refs(schema_type.directives@, j as int + 1)
                                =~= prev);
                        }
                    },
                }
            } else {
                proof {
                    assert(spec_import_refs(schema_type.directives@, j as int + 1) =~= prev);
                }
            }
            j += 1;
        }
        out
    }
}

/// The wording that rejects an unknown entity type, naming the type and the
/// raw id.
pub open spec fn spec_unknown_entity_message(t: Seq<char>, i: Seq<char>) -> Seq<char> {
    "Entity "@ + t + "["@ + i + "]: unknown entity type `"@ + t + "`"@
}

/// The wording that rejects an entity type without an id field.
pub open spec fn spec_missing_id_message(t: Seq<char>) -> Seq<char> {
    "Entity type "@ + t + " has no id field"@
}

/// The wording that rejects a raw id that is no byte sequence, naming the
/// type and the raw id.
pub open spec fn spec_bad_bytes_message(t: Seq<char>, i: Seq<char>) -> Seq<char> {
    "Entity "@ + t + "["@ + i + "]: id is not a byte sequence"@
}

/// The wording that rejects an illegal id column, naming the type and the
/// offending base type.
pub open spec fn spec_illegal_id_message(t: Seq<char>, base: Seq<char>) -> Seq<char> {
    "Entity type "@ + t + " uses illegal type "@ + base + " for id column"@
}

impl Schema {
    /// Derives the typed identifier value of one entity: a `String` or `ID`
    /// id column carries the raw id as text, a `Bytes` column carries the
    /// bytes its hexadecimal text denotes, and any other base type is
    /// illegal for an id. Each failure names the entity type and what
    /// offended.
    pub fn id_value(&self, key: &crate::store::EntityKey) -> (r: Result<
        crate::store::StoreValue,
        String,
    >)
        ensures
            match spec_object_type(self.document.definitions@, key.entity_type@) {
                Some(o) => match crate::model::spec_field(o.fields@, "id"@) {
                    Some(f) => {
                        let base = crate::model::spec_base_type(f.field_type);
                        if base == "ID"@ || base == "String"@ {
                            r matches Ok(crate::store::StoreValue::String(v)) && v@
                                == key.entity_id@
                        } else if base == "Bytes"@ {
                            match crate::store::spec_id_bytes(key.entity_id@) {
                                Some(bs) => r matches Ok(crate::store::StoreValue::Bytes(v)) && v@
                                    == bs,
                                None => r matches Err(m) && m@ == spec_bad_bytes_message(
                                    key.entity_type@,
                                    key.entity_id@,
                                ),
                            }
                        } else {
                            r matches Err(m) && m@ == spec_illegal_id_message(
                                key.entity_type@,
                                base,
                            )
                        }
                    },
                    None => r matches Err(m) && m@ == spec_missing_id_message(key.entity_type@),
                },
                None => r matches Err(m) && m@ == spec_unknown_entity_message(
                    key.entity_type@,
                    key.entity_id@,
                ),
            },
    {
        let o = match self.document.get_object_type_definition(key.entity_type.as_str()) {
            Some(o) => o,
            None => {
                let mut m = String::from_str("Entity ");
                m.append(key.entity_type.as_str());
                m.append("[");
                m.append(key.entity_id.as_str());
                m.append("]: unknown entity type `");
                m.append(key.entity_type.as_str());
                m.append("`");
                return Err(m);
            },
        };
        let f = match o.field("id") {
            Some(f) => f,
            None => {
                let mut m = String::from_str("Entity type ");
                m.append(key.entity_type.as_str());
                m.append(" has no id field");
                return Err(m);
            },
        };
        let base = f.field_type.get_base_type();
        if crate::model::str_eq(base.as_str(), "ID") || crate::model::str_eq(
            base.as_str(),
            "String",
        ) {
            Ok(crate::store::StoreValue::String(key.entity_id.clone()))
        } else if crate::model::str_eq(base.as_str(), "Bytes") {
            match crate::store::id_bytes(key.entity_id.as_str()) {
                Some(bs) => Ok(crate::store::StoreValue::Bytes(bs)),
                None => {
                    let mut m = String::from_str("Entity ");
                    m.append(key.entity_type.as_str());
                    m.append("[");
                    m.append(key.entity_id.as_str());
                    m.append("]: id is not a byte sequence");
                    Err(m)
                },
            }
        } else {
            let mut m = String::from_str("Entity type ");
            m.append(key.entity_type.as_str());
            m.append(" uses illegal type ");
            m.append(base.as_str());
            m.append(" for id column");
            Err(m)
        }
    }
}

/// The store collaborator: it hands back the already-validated schema
/// deployed under a reference, or reports that none exists. Implementations
/// decide freely; nothing is assumed of them.
pub trait SchemaStore {
    /// The schema deployed under `reference`, if the store holds one.
    fn lookup_schema(&self, reference: &SchemaReference) -> Option<Schema>;
}

impl SchemaReference {
    /// Asks the store for the schema this reference names. Whatever the
    /// store answers, a failure names this reference.
    pub fn resolve<S: SchemaStore>(&self, store: &S) -> (r: Result<Schema, SchemaImportError>)
        ensures
            r matches Err(e) ==> e.spec_reference().subgraph@ == self.subgraph@ && e matches (
            SchemaImportError::ImportedSchemaNotFound(_)),
    {
        match store.lookup_schema(self) {
            Some(s) => Ok(s),
            None => Err(SchemaImportError::ImportedSchemaNotFound(self.duplicate())),
        }
    }
}

/// Whether `x` occurs among the first `n` of `ids`.
pub open spec fn spec_id_in(ids: Seq<Seq<char>>, x: Seq<char>) -> bool {
    exists|i: int| 0 <= i < ids.len() && ids[i] == x
}

/// The subgraph identities of a result map's keys.
pub open spec fn spec_result_ids(m: Seq<(SchemaReference, Schema)>) -> Seq<Seq<char>> {
    m.map_values(|p: (SchemaReference, Schema)| p.0.subgraph@)
}

/// The subgraph identities an error list names.
pub open spec fn spec_error_ids(es: Seq<SchemaImportError>) -> Seq<Seq<char>> {
    es.map_values(|e: SchemaImportError| e.spec_reference().subgraph@)
}

/// Whether a reference is settled: fetched into the map or recorded as a
/// failure.
pub open spec fn spec_settled(
    x: Seq<char>,
    m: Seq<(SchemaReference, Schema)>,
    es: Seq<SchemaImportError>,
) -> bool {
    spec_id_in(spec_result_ids(m), x) || spec_id_in(spec_error_ids(es), x)
}

/// Whether a reference with identity `x` occurs in `pending`.
pub open spec fn spec_pending_has(pending: Seq<SchemaReference>, x: Seq<char>) -> bool {
    exists|i: int| 0 <= i < pending.len() && pending[i].subgraph@ == x
}

/// Whether `refs` lists a reference with identity `x`.
fn refs_contain(refs: &Vec<SchemaReference>, x: &SchemaReference) -> (r: bool)
    ensures
        r == spec_pending_has(refs@, x.subgraph@),
{
    let n = refs.len();
    let mut i: usize = 0;
    while i < n
        invariant
            n == refs@.len(),
            i <= n,
            forall|k: int| 0 <= k < i ==> refs@[k].subgraph@ != x.subgraph@,
        decreases n - i,
    {
        if crate::model::str_eq(refs[i].subgraph.as_str(), x.subgraph.as_str()) {
            return true;
        }
        i += 1;
    }
    false
}

proof fn lemma_id_in_push(ids: Seq<Seq<char>>, v: Seq<char>, x: Seq<char>)
    ensures
        spec_id_in(ids.push(v), x) <==> (spec_id_in(ids, x) || x == v),
{
    if spec_id_in(ids.push(v), x) {
        let i = choose|i: int| 0 <= i < ids.push(v).len() && ids.push(v)[i] == x;
        if i < ids.len() {
            assert(ids[i] == x);
        }
    }
    if spec_id_in(ids, x) {
        let i = choose|i: int| 0 <= i < ids.len() && ids[i] == x;
        assert(ids.push(v)[i] == x);
    }
    if x == v {
        assert(ids.push(v)[ids.len() as int] == x);
    }
}

proof fn lemma_pending_push(p: Seq<SchemaReference>, v: SchemaReference, x: Seq<char>)
    ensures
        spec_pending_has(p.push(v), x) <==> (spec_pending_has(p, x) || v.subgraph@ == x),
{
    if spec_pending_has(p.push(v), x) {
        let i = choose|i: int| 0 <= i < p.push(v).len() && p.push(v)[i].subgraph@ == x;
        if i < p.len() {
            assert(p[i].subgraph@ == x);
        }
    }
    if spec_pending_has(p, x) {
        let i = choose|i: int| 0 <= i < p.len() && p[i].subgraph@ == x;
        assert(p.push(v)[i].subgraph@ == x);
    }
    if v.subgraph@ == x {
        assert(p.push(v)[p.len() as int].subgraph@ == x);
    }
}

proof fn lemma_pending_concat(a: Seq<SchemaReference>, b: Seq<SchemaReference>, x: Seq<char>)
    ensures
        spec_pending_has(a + b, x) <==> (spec_pending_has(a, x) || spec_pending_has(b, x)),
{
    if spec_pending_has(a + b, x) {
        let i = choose|i: int| 0 <= i < (a + b).len() && (a + b)[i].subgraph@ == x;
        if i < a.len() {
            assert(a[i].subgraph@ == x);
        } else {
            assert(b[i - a.len()].subgraph@ == x);
        }
    }
    if spec_pending_has(a, x) {
        let i = choose|i: int| 0 <= i < a.len() && a[i].subgraph@ == x;
        assert((a + b)[i].subgraph@ == x);
    }
    if spec_pending_has(b, x) {
        let i = choose|i: int| 0 <= i < b.len() && b[i].subgraph@ == x;
        assert((a + b)[a.len() + i].subgraph@ == x);
    }
}

/// Whether an identity was drawn from a source of the traversal: the root
/// schema's own imports, or the imports of a schema already fetched into the
/// map.
pub open spec fn spec_from_sources(
    x: Seq<char>,
    defs: Seq<DocDefinition>,
    m: Seq<(SchemaReference, Schema)>,
) -> bool {
    spec_id_in(spec_schema_import_refs(defs), x) || exists|k: int|
        0 <= k < m.len() && #[trigger] spec_id_in(
            spec_schema_import_refs(m[k].1.document.definitions@),
            x,
        )
}

proof fn lemma_sources_grow(
    x: Seq<char>,
    defs: Seq<DocDefinition>,
    m: Seq<(SchemaReference, Schema)>,
    p: (SchemaReference, Schema),
)
    requires
        spec_from_sources(x, defs, m),
    ensures
        spec_from_sources(x, defs, m.push(p)),
{
    if !spec_id_in(spec_schema_import_refs(defs), x) {
        let k = choose|k: int|
            0 <= k < m.len() && #[trigger] spec_id_in(
                spec_schema_import_refs(m[k].1.document.definitions@),
                x,
            );
        assert(m.push(p)[k] == m[k]);
        assert(spec_id_in(spec_schema_import_refs(m.push(p)[k].1.document.definitions@), x));
    }
}

impl Schema {
    /// Walks the import graph from this schema, asking the store for each
    /// referenced schema once. Every reference reachable through resolved
    /// schemas ends settled: fetched into the map or recorded as exactly one
    /// failure — a cycle is a no-op on its second encounter, and a failed
    /// branch never stops a sibling.
    pub fn resolve_schema_references<S: SchemaStore>(&self, store: &S) -> (r: (
        Vec<(SchemaReference, Schema)>,
        Vec<SchemaImportError>,
    ))
        ensures
            ({
                let keys = spec_result_ids(r.0@);
                let errs = spec_error_ids(r.1@);
                &&& forall|i: int, j: int| 0 <= i < j < keys.len() ==> keys[i] != keys[j]
                &&& forall|i: int, j: int| 0 <= i < j < errs.len() ==> errs[i] != errs[j]
                &&& forall|i: int, j: int|
                    0 <= i < keys.len() && 0 <= j < errs.len() ==> keys[i] != errs[j]
                &&& forall|e: SchemaImportError|
                    r.1@.contains(e) ==> (e matches SchemaImportError::ImportedSchemaNotFound(_))
                &&& forall|x: Seq<char>|
                    #[trigger] spec_id_in(
                        spec_schema_import_refs(self.document.definitions@),
                        x,
                    ) ==> spec_settled(x, r.0@, r.1@)
                &&& forall|k: int, x: Seq<char>|
                    0 <= k < r.0@.len() && #[trigger] spec_id_in(
                        spec_schema_import_refs(r.0@[k].1.document.definitions@),
                        x,
                    ) ==> spec_settled(x, r.0@, r.1@)
                &&& forall|x: Seq<char>|
                    #[trigger] spec_id_in(keys, x) ==> spec_from_sources(
                        x,
                        self.document.definitions@,
                        r.0@,
                    )
                &&& forall|x: Seq<char>|
                    #[trigger] spec_id_in(errs, x) ==> spec_from_sources(
                        x,
                        self.document.definitions@,
                        r.0@,
                    )
            }),
    {
        let mut schemas: Vec<(SchemaReference, Schema)> = Vec::new();
        let mut import_errors: Vec<SchemaImportError> = Vec::new();
        let mut visit_log: Vec<SchemaReference> = Vec::new();
        let mut pending: Vec<SchemaReference> = self.imported_schemas();
        proof {
            assert forall|x: Seq<char>| #[trigger] spec_pending_has(pending@, x)
                implies spec_from_sources(x, self.document.definitions@, schemas@) by {
                let i = choose|i: int| 0 <= i < pending@.len() && pending@[i].subgraph@ == x;
                assert(pending@.map_values(|v: SchemaReference| v.subgraph@)[i] == x);
            }
        }
        while pending.len() > 0
            invariant
                ({
                    let keys = spec_result_ids(schemas@);
                    let errs = spec_error_ids(import_errors@);
                    &&& forall|i: int, j: int| 0 <= i < j < keys.len() ==> keys[i] != keys[j]
                    &&& forall|i: int, j: int| 0 <= i < j < errs.len() ==> errs[i] != errs[j]
                    &&& forall|i: int, j: int|
                        0 <= i < keys.len() && 0 <= j < errs.len() ==> keys[i] != errs[j]
                    &&& forall|e: SchemaImportError|
                        import_errors@.contains(e) ==> (e matches
                        SchemaImportError::ImportedSchemaNotFound(_))
                    &&& forall|x: Seq<char>|
                        #[trigger] spec_pending_has(visit_log@, x) <==> spec_settled(
                            x,
                            schemas@,
                            import_errors@,
                        )
                    &&& forall|x: Seq<char>|
                        #[trigger] spec_id_in(
                            spec_schema_import_refs(self.document.definitions@),
                            x,
                        ) ==> spec_settled(x, schemas@, import_errors@) || spec_pending_has(
                            pending@,
                            x,
                        )
                    &&& forall|k: int, x: Seq<char>|
                        0 <= k < schemas@.len() && #[trigger] spec_id_in(
                            spec_schema_import_refs(schemas@[k].1.document.definitions@),
                            x,
                        ) ==> spec_settled(x, schemas@, import_errors@) || spec_pending_has(
                            pending@,
                            x,
                        )
                    &&& forall|x: Seq<char>|
                        #[trigger] spec_pending_has(pending@, x) ==> spec_from_sources(
                            x,
                            self.document.definitions@,
                            schemas@,
                        )
                    &&& forall|x: Seq<char>|
                        #[trigger] spec_settled(x, schemas@, import_errors@)
                            ==> spec_from_sources(x, self.document.definitions@, schemas@)
                }),
            decreases usize::MAX as int + 1 - visit_log@.len(), pending@.len(),
        {
            let visits_so_far = visit_log.len();
            proof {
                assert(visit_log@.len() <= usize::MAX);
            }
            let ghost popped = pending@;
            let next = match pending.pop() {
                Some(n) => n,
                None => vstd::pervasive::unreached(),
            };
            proof {
                assert(popped =~= pending@.push(next));
                assert forall|x: Seq<char>|
                    spec_pending_has(popped, x) implies x == next.subgraph@ || spec_pending_has(
                    pending@,
                    x,
                ) by {
                    lemma_pending_push(pending@, next, x);
                }
            }
            let settled_already = refs_contain(&visit_log, &next);
            if settled_already {
                // Already settled: the second encounter of a reference is a
                // no-op.
                proof {
                    assert forall|x: Seq<char>| #[trigger] spec_pending_has(pending@, x)
                        implies spec_from_sources(x, self.document.definitions@, schemas@) by {
                        let i = choose|i: int|
                            0 <= i < pending@.len() && pending@[i].subgraph@ == x;
                        assert(popped[i].subgraph@ == x);
                        assert(spec_pending_has(popped, x));
                    }
                }
                continue ;
            }
            let ghost visit0 = visit_log@;
            visit_log.push(next.duplicate());
            proof {
                assert forall|x: Seq<char>|
                    #[trigger] spec_pending_has(visit_log@, x) <==> (spec_pending_has(visit0, x)
                        || x == next.subgraph@) by {
                    lemma_pending_push(visit0, visit_log@.last(), x);
                    assert(visit_log@ =~= visit0.push(visit_log@.last()));
                }
            }
            match store.lookup_schema(&next) {
                Some(fetched) => {
                    let mut new_refs = fetched.imported_schemas();
                    let ghost added = new_refs@;
                    let ghost keys0 = spec_result_ids(schemas@);
                    let ghost errs0 = spec_error_ids(import_errors@);
                    let ghost nextv = next.subgraph@;
                    let ghost s0 = schemas@;
                    let ghost pend0 = pending@;
                    schemas.push((next, fetched));
                    pending.append(&mut new_refs);
                    proof {
                        assert(spec_result_ids(schemas@) =~= keys0.push(nextv));
                        assert(pending@ =~= pend0 + added);
                        assert forall|x: Seq<char>|
                            #[trigger] spec_settled(x, schemas@, import_errors@) <==> (spec_settled(
                                x,
                                s0,
                                import_errors@,
                            ) || x == nextv) by {
                            lemma_id_in_push(keys0, nextv, x);
                        }
                        assert forall|x: Seq<char>|
                            #[trigger] spec_pending_has(pending@, x) <==> (spec_pending_has(
                                pend0,
                                x,
                            ) || spec_pending_has(added, x)) by {
                            lemma_pending_concat(pend0, added, x);
                        }
                        assert(schemas@.last().1 == fetched);
                        assert forall|k: int, x: Seq<char>|
                            0 <= k < schemas@.len() && #[trigger] spec_id_in(
                                spec_schema_import_refs(schemas@[k].1.document.definitions@),
                                x,
                            ) implies spec_settled(x, schemas@, import_errors@)
                            || spec_pending_has(pending@, x) by {
                            if k == schemas@.len() - 1 {
                                assert(spec_pending_has(added, x));
                            } else {
                                assert(schemas@[k] == s0[k]);
                            }
                        }
                        assert(popped[popped.len() - 1].subgraph@ == nextv);
                        assert(spec_pending_has(popped, nextv));
                        assert(schemas@ =~= s0.push(schemas@.last()));
                        assert forall|x: Seq<char>|
                            #[trigger] spec_settled(x, schemas@, import_errors@)
                            implies spec_from_sources(
                            x,
                            self.document.definitions@,
                            schemas@,
                        ) by {
                            if spec_settled(x, s0, import_errors@) {
                                lemma_sources_grow(
                                    x,
                                    self.document.definitions@,
                                    s0,
                                    schemas@.last(),
                                );
                            } else {
                                lemma_sources_grow(
                                    x,
                                    self.document.definitions@,
                                    s0,
                                    schemas@.last(),
                                );
                            }
                        }
                        assert forall|x: Seq<char>| #[trigger] spec_pending_has(pending@, x)
                            implies spec_from_sources(
                            x,
                            self.document.definitions@,
                            schemas@,
                        ) by {
                            if spec_pending_has(pend0, x) {
                                let i = choose|i: int|
                                    0 <= i < pend0.len() && pend0[i].subgraph@ == x;
                                assert(popped[i].subgraph@ == x);
                                assert(spec_pending_has(popped, x));
                                lemma_sources_grow(
                                    x,
                                    self.document.definitions@,
                                    s0,
                                    schemas@.last(),
                                );
                            } else {
                                let i = choose|i: int|
                                    0 <= i < added.len() && added[i].subgraph@ == x;
                                assert(added.map_values(|v: SchemaReference| v.subgraph@)[i] == x);
                                let k = schemas@.len() - 1;
                                assert(spec_id_in(
                                    spec_schema_import_refs(
                                        schemas@[k].1.document.definitions@,
                                    ),
                                    x,
                                ));
                            }
                        }
                    }
                },
                None => {
                    let ghost errs0 = spec_error_ids(import_errors@);
                    let ghost nextv = next.subgraph@;
                    let ghost e0 = import_errors@;
                    import_errors.push(SchemaImportError::ImportedSchemaNotFound(next));
                    proof {
                        assert(import_errors@.last() matches (
                        SchemaImportError::ImportedSchemaNotFound(_)));
                        assert(import_errors@.last().spec_reference().subgraph@ == nextv);
                        assert(spec_error_ids(import_errors@) =~= errs0.push(nextv));
                        assert forall|e: SchemaImportError|
                            import_errors@.contains(e) implies e matches (
                        SchemaImportError::ImportedSchemaNotFound(_)) by {
                            if e != import_errors@.last() {
                                let i = choose|i: int|
                                    0 <= i < import_errors@.len() && import_errors@[i] == e;
                                assert(e0.contains(e)) by {
                                    assert(e0[i] == e);
                                }
                            }
                        }
                        assert forall|x: Seq<char>|
                            #[trigger] spec_settled(x, schemas@, import_errors@) <==> (spec_settled(
                                x,
                                schemas@,
                                e0,
                            ) || x == nextv) by {
                            lemma_id_in_push(errs0, nextv, x);
                        }
                        assert(popped[popped.len() - 1].subgraph@ == nextv);
                        assert(spec_pending_has(popped, nextv));
                        assert forall|x: Seq<char>| #[trigger] spec_pending_has(pending@, x)
                            implies spec_from_sources(
                            x,
                            self.document.definitions@,
                            schemas@,
                        ) by {
                            let i = choose|i: int|
                                0 <= i < pending@.len() && pending@[i].subgraph@ == x;
                            assert(popped[i].subgraph@ == x);
                            assert(spec_pending_has(popped, x));
                        }
                    }
                },
            }
        }
        proof {
            assert forall|x: Seq<char>| #[trigger] spec_id_in(spec_result_ids(schemas@), x)
                implies spec_from_sources(x, self.document.definitions@, schemas@) by {
                assert(spec_settled(x, schemas@, import_errors@));
            }
            assert forall|x: Seq<char>| #[trigger] spec_id_in(spec_error_ids(import_errors@), x)
                implies spec_from_sources(x, self.document.definitions@, schemas@) by {
                assert(spec_settled(x, schemas@, import_errors@));
            }
        }
        (schemas, import_errors)
    }
}

} // verus!
