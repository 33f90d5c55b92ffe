use subgraph_schema::api::ApiSchema;
use subgraph_schema::errors::{SchemaImportError, SchemaValidationError, Strings};
use subgraph_schema::fulltext::{FulltextAlgorithm, FulltextDefinition, FulltextLanguage};
use subgraph_schema::imports::{ImportedType, SchemaReference};
use subgraph_schema::model::{
    ArgValue, DirectiveUse, DocDefinition, Document, FieldDef, InterfaceDef, ObjectDef,
    ObjectOrInterface, ScalarDef, TypeDef, TypeRef,
};
use subgraph_schema::schema::{Schema, SchemaStore};
use subgraph_schema::store::{id_bytes, EntityKey, StoreValue};

fn field(name: &str, base: &str) -> FieldDef {
    FieldDef {
        name: name.to_string(),
        field_type: TypeRef::Named(base.to_string()),
        directives: vec![],
    }
}

fn object(name: &str, implements: Vec<&str>, fields: Vec<FieldDef>) -> DocDefinition {
    DocDefinition::Type(TypeDef::Object(ObjectDef {
        name: name.to_string(),
        implements_interfaces: implements.iter().map(|s| s.to_string()).collect(),
        fields,
        directives: vec![],
    }))
}

fn interface(name: &str, fields: Vec<FieldDef>) -> DocDefinition {
    DocDefinition::Type(TypeDef::Interface(InterfaceDef {
        name: name.to_string(),
        fields,
        directives: vec![],
    }))
}

fn import_directive(types: Vec<&str>, subgraph: &str) -> DirectiveUse {
    DirectiveUse {
        name: "import".to_string(),
        arguments: vec![
            (
                "types".to_string(),
                ArgValue::List(types.iter().map(|t| ArgValue::String(t.to_string())).collect()),
            ),
            (
                "subgraph".to_string(),
                ArgValue::Object(vec![("id".to_string(), ArgValue::String(subgraph.to_string()))]),
            ),
        ],
    }
}

fn schema_type_with(directives: Vec<DirectiveUse>) -> DocDefinition {
    DocDefinition::Type(TypeDef::Object(ObjectDef {
        name: "_Schema_".to_string(),
        implements_interfaces: vec![],
        fields: vec![],
        directives,
    }))
}

fn make_schema(id: &str, defs: Vec<DocDefinition>) -> Schema {
    let document = Document { definitions: defs };
    let (fwd, inv) = Schema::collect_interfaces(&document).expect("index");
    Schema {
        id: id.to_string(),
        document,
        interfaces_for_type: fwd,
        types_for_interface: inv,
    }
}

fn importing_schema(id: &str, targets: &[&str]) -> Schema {
    let dirs = targets.iter().map(|t| import_directive(vec!["Thing"], t)).collect();
    make_schema(
        id,
        vec![schema_type_with(dirs), object("Thing", vec![], vec![field("id", "ID")])],
    )
}

struct MapStore {
    entries: Vec<(String, Vec<String>)>,
}

impl SchemaStore for MapStore {
    fn lookup_schema(&self, reference: &SchemaReference) -> Option<Schema> {
        self.entries.iter().find(|e| e.0 == reference.subgraph).map(|e| {
            let targets: Vec<&str> = e.1.iter().map(|s| s.as_str()).collect();
            importing_schema(&e.0, &targets)
        })
    }
}

#[test]
fn validation_is_idempotent() {
    let schema = make_schema(
        "s1",
        vec![
            DocDefinition::Type(TypeDef::Scalar(ScalarDef {
                name: "_Meta_".to_string(),
                directives: vec![],
            })),
            object("Broken", vec![], vec![field("x", "Missing")]),
        ],
    );
    let resolved: Vec<(SchemaReference, Schema)> = vec![];
    let first = schema.validate(&resolved).unwrap_err();
    let second = schema.validate(&resolved).unwrap_err();
    assert_eq!(first, second);
    assert!(first.len() >= 2);
}

#[test]
fn aggregation_reports_every_defect() {
    // Three independent defects, one per distinct check: a reserved type
    // name, a schema-metadata type with a field, and a stray directive on it.
    let schema = make_schema(
        "s1",
        vec![
            DocDefinition::Type(TypeDef::Scalar(ScalarDef {
                name: "_Meta_".to_string(),
                directives: vec![],
            })),
            DocDefinition::Type(TypeDef::Object(ObjectDef {
                name: "_Schema_".to_string(),
                implements_interfaces: vec![],
                fields: vec![field("id", "ID")],
                directives: vec![DirectiveUse { name: "weird".to_string(), arguments: vec![] }],
            })),
        ],
    );
    let resolved: Vec<(SchemaReference, Schema)> = vec![];
    let errs = schema.validate(&resolved).unwrap_err();
    assert_eq!(errs.len(), 3);
    assert_eq!(
        errs[0],
        SchemaValidationError::UsageOfReservedTypes { names: Strings(vec!["_Meta_".to_string()]) }
    );
    assert_eq!(errs[1], SchemaValidationError::SchemaTypeWithFields);
    assert_eq!(
        errs[2],
        SchemaValidationError::InvalidSchemaTypeDirective { name: "weird".to_string() }
    );
}

#[test]
fn interface_id_type_mismatch_reported_once() {
    let schema = make_schema(
        "s1",
        vec![
            interface("I", vec![]),
            object("A", vec!["I"], vec![field("id", "String")]),
            object("B", vec!["I"], vec![field("id", "Bytes")]),
        ],
    );
    let resolved: Vec<(SchemaReference, Schema)> = vec![];
    let errs = schema.validate(&resolved).unwrap_err();
    let mismatches: Vec<&SchemaValidationError> = errs
        .iter()
        .filter(|e| matches!(e, SchemaValidationError::InterfaceIdTypeMismatch { .. }))
        .collect();
    assert_eq!(mismatches.len(), 1);
    assert_eq!(
        *mismatches[0],
        SchemaValidationError::InterfaceIdTypeMismatch { interface: "I".to_string() }
    );
    assert_eq!(errs.len(), 1);
}

#[test]
fn cyclic_imports_terminate() {
    let a = importing_schema("A", &["B"]);
    let store = MapStore {
        entries: vec![
            ("A".to_string(), vec!["B".to_string()]),
            ("B".to_string(), vec!["A".to_string()]),
        ],
    };
    let (map, errors) = a.resolve_schema_references(&store);
    assert_eq!(map.len(), 2);
    assert!(errors.is_empty());
    let mut ids: Vec<String> = map.iter().map(|p| p.0.subgraph.clone()).collect();
    ids.sort();
    assert_eq!(ids, vec!["A".to_string(), "B".to_string()]);
}

#[test]
fn partial_failure_keeps_siblings() {
    let a = importing_schema("A", &["B", "C"]);
    let store = MapStore { entries: vec![("B".to_string(), vec![])] };
    let (map, errors) = a.resolve_schema_references(&store);
    assert_eq!(map.len(), 1);
    assert_eq!(map[0].0.subgraph, "B");
    assert_eq!(errors.len(), 1);
    match &errors[0] {
        SchemaImportError::ImportedSchemaNotFound(r) => assert_eq!(r.subgraph, "C"),
        other => panic!("unexpected error: {:?}", other),
    }
}

#[test]
fn fulltext_algorithm_values() {
    assert_eq!(FulltextAlgorithm::parse("rank"), Ok(FulltextAlgorithm::Rank));
    assert_eq!(
        FulltextAlgorithm::parse("proximityRank"),
        Ok(FulltextAlgorithm::ProximityRank)
    );
    let err = FulltextAlgorithm::parse("fastrank").unwrap_err();
    assert_eq!(
        err,
        "The provided fulltext search algorithm fastrank is invalid. \
         It must be one of: rank, proximityRank"
    );
    assert!(err.contains("rank"));
    assert!(err.contains("proximityRank"));
}

#[test]
fn id_value_derivation() {
    let schema = make_schema(
        "s1",
        vec![
            object(
                "Text",
                vec![],
                vec![FieldDef {
                    name: "id".to_string(),
                    field_type: TypeRef::NonNull(Box::new(TypeRef::Named("ID".to_string()))),
                    directives: vec![],
                }],
            ),
            object(
                "Blob",
                vec![],
                vec![FieldDef {
                    name: "id".to_string(),
                    field_type: TypeRef::NonNull(Box::new(TypeRef::Named("Bytes".to_string()))),
                    directives: vec![],
                }],
            ),
            object(
                "Numbered",
                vec![],
                vec![FieldDef {
                    name: "id".to_string(),
                    field_type: TypeRef::NonNull(Box::new(TypeRef::Named("Int".to_string()))),
                    directives: vec![],
                }],
            ),
        ],
    );
    let text = schema
        .id_value(&EntityKey { entity_type: "Text".to_string(), entity_id: "42".to_string() })
        .unwrap();
    assert_eq!(text, StoreValue::String("42".to_string()));
    let blob = schema
        .id_value(&EntityKey { entity_type: "Blob".to_string(), entity_id: "0xab".to_string() })
        .unwrap();
    assert_eq!(blob, StoreValue::Bytes(vec![0xAB]));
    let bad = schema
        .id_value(&EntityKey { entity_type: "Numbered".to_string(), entity_id: "7".to_string() });
    assert!(bad.is_err());
}

#[test]
fn introspection_isolated_from_document() {
    let schema = make_schema(
        "s1",
        vec![
            object("Query", vec![], vec![field("token", "Token")]),
            object("Token", vec![], vec![field("id", "ID")]),
        ],
    );
    let api = ApiSchema::from_api_schema(schema).unwrap();
    match api.object_or_interface("__Type") {
        Some(ObjectOrInterface::Object(o)) => assert_eq!(o.name, "__Type"),
        other => panic!("introspection type not resolved: {:?}", other.is_some()),
    }
    match api.object_or_interface("Token") {
        Some(ObjectOrInterface::Object(o)) => {
            assert_eq!(o.name, "Token");
            assert_eq!(o.fields[0].name, "id");
        },
        _ => panic!("document type not resolved"),
    }
}

#[test]
fn api_schema_requires_query_type() {
    let no_query = make_schema("s1", vec![object("Token", vec![], vec![field("id", "ID")])]);
    assert!(ApiSchema::from_api_schema(no_query).is_err());
    let with_query = make_schema(
        "s1",
        vec![object("Query", vec![], vec![field("x", "ID")])],
    );
    let api = ApiSchema::from_api_schema(with_query).unwrap();
    let q = api.get_root_query_type_def().expect("query type");
    // The merge injects the two introspection entry fields onto Query.
    let names: Vec<&str> = q.fields.iter().map(|f| f.name.as_str()).collect();
    assert_eq!(names, vec!["x", "__schema", "__type"]);
}

#[test]
fn parse_builds_document_from_text() {
    let schema = Schema::parse(
        "type Token { id: ID! name: String }",
        "deployment1".to_string(),
    )
    .unwrap();
    assert_eq!(schema.id, "deployment1");
    assert_eq!(schema.document.definitions.len(), 1);
    match &schema.document.definitions[0] {
        DocDefinition::Type(TypeDef::Object(o)) => {
            assert_eq!(o.name, "Token");
            assert_eq!(o.fields.len(), 2);
            assert_eq!(o.fields[0].name, "id");
            match &o.fields[0].field_type {
                TypeRef::NonNull(inner) => match inner.as_ref() {
                    TypeRef::Named(n) => assert_eq!(n, "ID"),
                    _ => panic!("id base type"),
                },
                _ => panic!("id wrapper"),
            }
        },
        _ => panic!("expected an object type"),
    }
}

#[test]
fn parse_rejects_bad_grammar_and_bad_structure() {
    assert!(matches!(
        Schema::parse("this is not a schema", "d".to_string()),
        Err(subgraph_schema::errors::SchemaParseError::Syntax(_))
    ));
    let err = Schema::parse("type A implements Ghost { id: ID! }", "d".to_string()).unwrap_err();
    match err {
        subgraph_schema::errors::SchemaParseError::Validation(v) => {
            assert_eq!(
                v,
                vec![SchemaValidationError::InterfaceUndefined {
                    implementor: "A".to_string(),
                    interface: "Ghost".to_string(),
                }]
            );
        },
        other => panic!("unexpected: {:?}", other),
    }
}

#[test]
fn type_index_maps_both_directions() {
    let schema = make_schema(
        "s1",
        vec![
            interface("I", vec![]),
            object("A", vec!["I"], vec![field("id", "String")]),
            object("B", vec!["I"], vec![field("id", "String")]),
            object("C", vec![], vec![field("id", "String")]),
        ],
    );
    let inv = schema.types_for_interface();
    assert_eq!(inv.len(), 1);
    assert_eq!(inv[0].0, "I");
    assert_eq!(inv[0].1, vec!["A".to_string(), "B".to_string()]);
    assert_eq!(
        schema.interfaces_for_type("A"),
        Some(&vec!["I".to_string()])
    );
    assert_eq!(schema.interfaces_for_type("C"), None);
}

#[test]
fn derived_from_must_point_back() {
    let schema = make_schema(
        "s1",
        vec![
            object("Band", vec![], vec![field("id", "ID"), {
                FieldDef {
                    name: "members".to_string(),
                    field_type: TypeRef::Named("Musician".to_string()),
                    directives: vec![DirectiveUse {
                        name: "derivedFrom".to_string(),
                        arguments: vec![(
                            "field".to_string(),
                            ArgValue::String("band".to_string()),
                        )],
                    }],
                }
            }]),
            object(
                "Musician",
                vec![],
                vec![field("id", "ID"), field("band", "Band")],
            ),
        ],
    );
    let resolved: Vec<(SchemaReference, Schema)> = vec![];
    assert!(schema.validate(&resolved).is_ok());

    let broken = make_schema(
        "s1",
        vec![
            object("Band", vec![], vec![field("id", "ID"), {
                FieldDef {
                    name: "members".to_string(),
                    field_type: TypeRef::Named("Musician".to_string()),
                    directives: vec![DirectiveUse {
                        name: "derivedFrom".to_string(),
                        arguments: vec![(
                            "field".to_string(),
                            ArgValue::String("label".to_string()),
                        )],
                    }],
                }
            }]),
            object(
                "Musician",
                vec![],
                vec![field("id", "ID"), field("label", "String")],
            ),
        ],
    );
    let errs = broken.validate(&resolved).unwrap_err();
    assert_eq!(
        errs,
        vec![SchemaValidationError::DerivedFromInvalid {
            owner: "Band".to_string(),
            field: "members".to_string(),
        }]
    );
}

#[test]
fn imported_type_must_exist_remotely() {
    let a = make_schema(
        "A",
        vec![schema_type_with(vec![import_directive(vec!["Ghost"], "B")])],
    );
    let b = make_schema("B", vec![object("Thing", vec![], vec![field("id", "ID")])]);
    let resolved = vec![(SchemaReference::new("B".to_string()), b)];
    let errs = a.validate(&resolved).unwrap_err();
    assert_eq!(
        errs,
        vec![SchemaValidationError::ImportedTypeUndefined {
            name: "Ghost".to_string(),
            subgraph: "B".to_string(),
        }]
    );
}

#[test]
fn import_directive_shapes() {
    let ok = ImportedType::parse(&ArgValue::String("Thing".to_string())).unwrap();
    assert_eq!(ok.name, "Thing");
    assert_eq!(ok.alias, "Thing");
    assert!(!ok.explicit);
    let aliased = ImportedType::parse(&ArgValue::Object(vec![
        ("name".to_string(), ArgValue::String("Thing".to_string())),
        ("as".to_string(), ArgValue::String("Stuff".to_string())),
    ]))
    .unwrap();
    assert_eq!(aliased.alias, "Stuff");
    assert!(aliased.explicit);
    assert!(ImportedType::parse(&ArgValue::Int(3)).is_none());
    assert!(SchemaReference::parse(&ArgValue::String("B".to_string())).is_none());
    let r = SchemaReference::parse(&ArgValue::Object(vec![(
        "id".to_string(),
        ArgValue::String("B".to_string()),
    )]))
    .unwrap();
    assert_eq!(r.subgraph, "B");
}

fn band_search_directive() -> DirectiveUse {
    DirectiveUse {
        name: "fulltext".to_string(),
        arguments: vec![
            ("name".to_string(), ArgValue::String("bandSearch".to_string())),
            ("language".to_string(), ArgValue::Enum("en".to_string())),
            ("algorithm".to_string(), ArgValue::Enum("rank".to_string())),
            (
                "include".to_string(),
                ArgValue::List(vec![ArgValue::Object(vec![
                    ("entity".to_string(), ArgValue::String("Band".to_string())),
                    (
                        "fields".to_string(),
                        ArgValue::List(vec![ArgValue::Object(vec![(
                            "name".to_string(),
                            ArgValue::String("title".to_string()),
                        )])]),
                    ),
                ])]),
            ),
        ],
    }
}

#[test]
fn fulltext_definition_extraction() {
    let directive = DirectiveUse {
        name: "fulltext".to_string(),
        arguments: vec![
            ("name".to_string(), ArgValue::String("bandSearch".to_string())),
            ("language".to_string(), ArgValue::Enum("en".to_string())),
            ("algorithm".to_string(), ArgValue::Enum("rank".to_string())),
            (
                "include".to_string(),
                ArgValue::List(vec![ArgValue::Object(vec![
                    ("entity".to_string(), ArgValue::String("Band".to_string())),
                    (
                        "fields".to_string(),
                        ArgValue::List(vec![ArgValue::Object(vec![(
                            "name".to_string(),
                            ArgValue::String("title".to_string()),
                        )])]),
                    ),
                ])]),
            ),
        ],
    };
    let def = FulltextDefinition::from_directive(&directive).unwrap();
    assert_eq!(def.name, "bandSearch");
    assert_eq!(def.config.algorithm, FulltextAlgorithm::Rank);
    assert_eq!(def.config.language, FulltextLanguage::English);
    assert_eq!(def.included_fields, vec!["title".to_string()]);

    let document = Document {
        definitions: vec![
            schema_type_with(vec![band_search_directive()]),
            object("Band", vec![], vec![field("id", "ID"), field("title", "String")]),
        ],
    };
    let defs = Schema::entity_fulltext_definitions("Band", &document).unwrap();
    assert_eq!(defs.len(), 1);
    assert_eq!(defs[0].name, "bandSearch");
    let none = Schema::entity_fulltext_definitions("Other", &document).unwrap();
    assert!(none.is_empty());

    // The same schema passes the fulltext validation battery.
    let schema = make_schema(
        "s1",
        vec![
            schema_type_with(vec![band_search_directive()]),
            object("Band", vec![], vec![field("id", "ID"), field("title", "String")]),
        ],
    );
    let resolved: Vec<(SchemaReference, Schema)> = vec![];
    assert!(schema.validate(&resolved).is_ok());
}

#[test]
fn fulltext_invalid_algorithm_reported() {
    let directive = DirectiveUse {
        name: "fulltext".to_string(),
        arguments: vec![
            ("name".to_string(), ArgValue::String("s".to_string())),
            ("language".to_string(), ArgValue::Enum("xx".to_string())),
            ("algorithm".to_string(), ArgValue::Enum("fastrank".to_string())),
        ],
    };
    let schema = make_schema("s1", vec![schema_type_with(vec![directive])]);
    let resolved: Vec<(SchemaReference, Schema)> = vec![];
    let errs = schema.validate(&resolved).unwrap_err();
    // Language, algorithm and include are all unusable; the name is fine.
    assert_eq!(errs.len(), 3);
    assert_eq!(errs[0], SchemaValidationError::FulltextLanguageInvalid);
    assert!(matches!(
        &errs[1],
        SchemaValidationError::FulltextAlgorithmInvalid { message } if message.contains("fastrank")
    ));
    assert_eq!(errs[2], SchemaValidationError::FulltextIncludeInvalid);
}

#[test]
fn unknown_field_type_reported() {
    let schema = make_schema(
        "s1",
        vec![object("A", vec![], vec![field("id", "ID"), field("x", "Missing")])],
    );
    let resolved: Vec<(SchemaReference, Schema)> = vec![];
    let errs = schema.validate(&resolved).unwrap_err();
    assert_eq!(
        errs,
        vec![SchemaValidationError::FieldTypeUnknown {
            owner: "A".to_string(),
            field: "x".to_string(),
            base_type: "Missing".to_string(),
        }]
    );
}

#[test]
fn interface_fields_must_be_implemented() {
    let schema = make_schema(
        "s1",
        vec![
            interface("Named", vec![field("id", "ID"), field("name", "String")]),
            object("A", vec!["Named"], vec![field("id", "ID")]),
        ],
    );
    let resolved: Vec<(SchemaReference, Schema)> = vec![];
    let errs = schema.validate(&resolved).unwrap_err();
    assert_eq!(
        errs,
        vec![SchemaValidationError::InterfaceFieldNotImplemented {
            implementor: "A".to_string(),
            interface: "Named".to_string(),
            field: "name".to_string(),
        }]
    );
}

#[test]
fn hex_id_bytes() {
    assert_eq!(id_bytes("0xab"), Some(vec![0xAB]));
    assert_eq!(id_bytes("AB01"), Some(vec![0xAB, 0x01]));
    assert_eq!(id_bytes(""), Some(vec![]));
    assert_eq!(id_bytes("0x"), Some(vec![]));
    assert_eq!(id_bytes("abc"), None);
    assert_eq!(id_bytes("zz"), None);
}

#[test]
fn joined_names() {
    assert_eq!(Strings(vec![]).joined(), "");
    assert_eq!(Strings(vec!["a".to_string()]).joined(), "a");
    assert_eq!(
        Strings(vec!["a".to_string(), "b".to_string(), "c".to_string()]).joined(),
        "a, b, c"
    );
}

#[test]
fn subgraph_id_stamping() {
    let mut schema = make_schema(
        "s1",
        vec![object("A", vec![], vec![field("id", "ID")])],
    );
    schema.add_subgraph_id_directives("deployment9".to_string());
    match &schema.document.definitions[0] {
        DocDefinition::Type(TypeDef::Object(o)) => {
            let d = o.directives.last().expect("stamped directive");
            assert_eq!(d.name, "subgraphId");
            assert_eq!(d.arguments[0].0, "id");
            match &d.arguments[0].1 {
                ArgValue::String(v) => assert_eq!(v, "deployment9"),
                _ => panic!("id argument is not a string"),
            }
        },
        _ => panic!("expected object"),
    }
}

#[test]
fn fulltext_name_collides_with_earlier_search_name() {
    let one = DirectiveUse {
        name: "fulltext".to_string(),
        arguments: vec![("name".to_string(), ArgValue::String("search".to_string()))],
    };
    let two = DirectiveUse {
        name: "fulltext".to_string(),
        arguments: vec![("name".to_string(), ArgValue::String("search".to_string()))],
    };
    let schema = make_schema("s1", vec![schema_type_with(vec![one, two])]);
    let resolved: Vec<(SchemaReference, Schema)> = vec![];
    let errs = schema.validate(&resolved).unwrap_err();
    let collisions: Vec<&SchemaValidationError> = errs
        .iter()
        .filter(|e| matches!(e, SchemaValidationError::FulltextNameCollision { .. }))
        .collect();
    assert_eq!(collisions.len(), 1);
    assert_eq!(
        *collisions[0],
        SchemaValidationError::FulltextNameCollision { name: "search".to_string() }
    );
}

#[test]
fn fulltext_included_fields_are_distinct() {
    let directive = DirectiveUse {
        name: "fulltext".to_string(),
        arguments: vec![
            ("name".to_string(), ArgValue::String("s".to_string())),
            ("language".to_string(), ArgValue::Enum("en".to_string())),
            ("algorithm".to_string(), ArgValue::Enum("rank".to_string())),
            (
                "include".to_string(),
                ArgValue::List(vec![ArgValue::Object(vec![
                    ("entity".to_string(), ArgValue::String("Band".to_string())),
                    (
                        "fields".to_string(),
                        ArgValue::List(vec![
                            ArgValue::Object(vec![(
                                "name".to_string(),
                                ArgValue::String("title".to_string()),
                            )]),
                            ArgValue::Object(vec![(
                                "name".to_string(),
                                ArgValue::String("title".to_string()),
                            )]),
                        ]),
                    ),
                ])]),
            ),
        ],
    };
    let def = FulltextDefinition::from_directive(&directive).unwrap();
    assert_eq!(def.included_fields, vec!["title".to_string()]);
}

#[test]
fn resolution_without_imports_yields_nothing() {
    let schema = make_schema("s1", vec![object("Thing", vec![], vec![field("id", "ID")])]);
    let store = MapStore { entries: vec![("B".to_string(), vec![])] };
    let (map, errors) = schema.resolve_schema_references(&store);
    assert!(map.is_empty());
    assert!(errors.is_empty());
}

#[test]
fn id_value_error_text() {
    let schema = make_schema("s1", vec![object("Numbered", vec![], vec![field("id", "Int")])]);
    let illegal = schema
        .id_value(&EntityKey { entity_type: "Numbered".to_string(), entity_id: "7".to_string() })
        .unwrap_err();
    assert_eq!(illegal, "Entity type Numbered uses illegal type Int for id column");
    let unknown = schema
        .id_value(&EntityKey { entity_type: "Ghost".to_string(), entity_id: "7".to_string() })
        .unwrap_err();
    assert_eq!(unknown, "Entity Ghost[7]: unknown entity type `Ghost`");
}
