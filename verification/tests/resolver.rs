//! The resolver pipeline: raw types canonicalized, structs parsed to the
//! intermediate representation, nested records resolved against the
//! registry, and the error cases of every stage.

use df_tabular::{
    analyze_type, compile_schema, compute_mapping, is_option, is_vec, needs_cast, parse_to_ir,
    resolve_struct, to_row, Base, BaseType, Error, LeafValue, PrimitiveBase, PrimitiveTransform,
    RawField, RawStruct, RawType, RecordField, RecordSchema, SchemaRegistry, StorageType,
    TypeDescriptor, Value, Wrapper,
};

fn raw(name: &str) -> RawType {
    RawType { name: name.to_string(), args: vec![] }
}

fn raw_g(name: &str, args: Vec<RawType>) -> RawType {
    RawType { name: name.to_string(), args }
}

fn named_field(name: &str, ty: RawType) -> RawField {
    RawField { name: Some(name.to_string()), ty, as_string: false }
}

fn positional_field(ty: RawType) -> RawField {
    RawField { name: None, ty, as_string: false }
}

#[test]
fn analyze_peels_wrappers_in_order() {
    let ty = raw_g("Option", vec![raw_g("Vec", vec![raw_g("Option", vec![raw("i64")])])]);
    let a = analyze_type(&ty, false).unwrap();
    assert_eq!(a.wrappers, vec![Wrapper::Optional, Wrapper::List, Wrapper::Optional]);
    assert!(matches!(a.base, BaseType::Primitive(PrimitiveBase::I64)));
    assert!(a.transform.is_none());
}

#[test]
fn analyze_recognizes_domain_types() {
    let dt = analyze_type(&raw_g("DateTime", vec![raw("Utc")]), false).unwrap();
    assert!(matches!(dt.base, BaseType::Primitive(PrimitiveBase::Timestamp)));
    assert_eq!(dt.transform, Some(PrimitiveTransform::TimestampToMillis));

    let dec = analyze_type(&raw("Decimal"), false).unwrap();
    assert!(matches!(dec.base, BaseType::Primitive(PrimitiveBase::Decimal)));
    assert_eq!(dec.transform, Some(PrimitiveTransform::DecimalToText));

    // A DateTime over anything else is not the supported timestamp.
    let other = analyze_type(&raw_g("DateTime", vec![raw("Local")]), false).unwrap();
    assert!(matches!(other.base, BaseType::Struct(ref n) if n == "DateTime"));
}

#[test]
fn analyze_widens_pointer_sized_integers() {
    let a = analyze_type(&raw("isize"), false).unwrap();
    assert!(matches!(a.base, BaseType::Primitive(PrimitiveBase::I64)));
    let b = analyze_type(&raw("usize"), false).unwrap();
    assert!(matches!(b.base, BaseType::Primitive(PrimitiveBase::U64)));
}

#[test]
fn analyze_rejects_maps() {
    let ty = raw_g("Vec", vec![raw_g("HashMap", vec![raw("String"), raw("i32")])]);
    let e = analyze_type(&ty, false).unwrap_err();
    assert!(matches!(e, Error::Shape { .. }));
}

#[test]
fn analyze_as_string_overrides_everything() {
    let a = analyze_type(&raw("Status"), true).unwrap();
    assert_eq!(a.transform, Some(PrimitiveTransform::Stringify));
    assert!(matches!(a.base, BaseType::Struct(ref n) if n == "Status"));

    let b = analyze_type(&raw_g("DateTime", vec![raw("Utc")]), true).unwrap();
    assert_eq!(b.transform, Some(PrimitiveTransform::Stringify));
}

#[test]
fn parse_names_positional_fields() {
    let input = RawStruct {
        name: "Pair".to_string(),
        fields: vec![positional_field(raw("i32")), positional_field(raw("String"))],
    };
    let ir = parse_to_ir(&input).unwrap();
    assert_eq!(ir.fields.len(), 2);
    assert_eq!(ir.fields[0].name, "field_0");
    assert_eq!(ir.fields[1].name, "field_1");
    assert_eq!(ir.fields[0].field_index, Some(0));
    assert_eq!(ir.fields[1].field_index, Some(1));
}

#[test]
fn parse_reports_the_offending_field() {
    let input = RawStruct {
        name: "Bad".to_string(),
        fields: vec![
            named_field("ok", raw("bool")),
            named_field("lookup", raw_g("HashMap", vec![raw("String"), raw("i32")])),
        ],
    };
    match parse_to_ir(&input).unwrap_err() {
        Error::Shape { field } => assert_eq!(field, "lookup"),
        other => panic!("expected a shape error, got {:?}", other),
    }
}

#[test]
fn resolve_nested_struct_end_to_end() {
    let address = RawStruct {
        name: "Address".to_string(),
        fields: vec![
            named_field("street", raw("String")),
            named_field("city", raw("String")),
            named_field("zip", raw("String")),
        ],
    };
    let person = RawStruct {
        name: "Person".to_string(),
        fields: vec![
            named_field("id", raw("u32")),
            named_field("address", raw("Address")),
        ],
    };
    let mut registry = SchemaRegistry::new();
    let address_ir = parse_to_ir(&address).unwrap();
    let address_schema = resolve_struct(&address_ir, &registry).unwrap();
    registry.register("Address".to_string(), address_schema);

    let person_ir = parse_to_ir(&person).unwrap();
    let person_schema = resolve_struct(&person_ir, &registry).unwrap();
    let cols = compile_schema(&person_schema);
    let names: Vec<&str> = cols.iter().map(|c| c.name.as_str()).collect();
    assert_eq!(names, vec!["id", "address.street", "address.city", "address.zip"]);
}

#[test]
fn resolve_fails_on_unregistered_nested_type() {
    let person = RawStruct {
        name: "Person".to_string(),
        fields: vec![named_field("home", raw("Address"))],
    };
    let registry = SchemaRegistry::new();
    let ir = parse_to_ir(&person).unwrap();
    match resolve_struct(&ir, &registry).unwrap_err() {
        Error::Shape { field } => assert_eq!(field, "home"),
        other => panic!("expected a shape error, got {:?}", other),
    }
}

#[test]
fn resolve_treats_stringified_struct_as_text() {
    let with_enum = RawStruct {
        name: "WithEnum".to_string(),
        fields: vec![RawField {
            name: Some("status".to_string()),
            ty: raw("Status"),
            as_string: true,
        }],
    };
    let registry = SchemaRegistry::new();
    let ir = parse_to_ir(&with_enum).unwrap();
    let schema = resolve_struct(&ir, &registry).unwrap();
    let cols = compile_schema(&schema);
    assert_eq!(cols[0].dtype, StorageType::Text);

    let t = to_row(&vec![Value::Text("Active".to_string())], &schema).unwrap();
    assert_eq!(t.columns[0].values, vec![LeafValue::Text("Active".to_string())]);
}

#[test]
fn stringified_primitives_render_themselves() {
    let schema = RecordSchema {
        fields: vec![
            RecordField {
                name: "n".to_string(),
                descriptor: TypeDescriptor {
                    wrappers: vec![],
                    base: Base::Primitive(PrimitiveBase::I64),
                    transform: Some(PrimitiveTransform::Stringify),
                },
            },
            RecordField {
                name: "b".to_string(),
                descriptor: TypeDescriptor {
                    wrappers: vec![],
                    base: Base::Primitive(PrimitiveBase::Bool),
                    transform: Some(PrimitiveTransform::Stringify),
                },
            },
            RecordField {
                name: "list".to_string(),
                descriptor: TypeDescriptor {
                    wrappers: vec![Wrapper::List],
                    base: Base::Primitive(PrimitiveBase::U32),
                    transform: Some(PrimitiveTransform::Stringify),
                },
            },
        ],
    };
    let cols = compile_schema(&schema);
    assert_eq!(cols[0].dtype, StorageType::Text);
    assert_eq!(cols[1].dtype, StorageType::Text);
    assert_eq!(cols[2].dtype, StorageType::List(Box::new(StorageType::Text)));

    let instance = vec![
        Value::Int(-42),
        Value::Bool(true),
        Value::List(vec![Value::UInt(0), Value::UInt(905)]),
    ];
    let t = to_row(&instance, &schema).unwrap();
    assert_eq!(t.columns[0].values, vec![LeafValue::Text("-42".to_string())]);
    assert_eq!(t.columns[1].values, vec![LeafValue::Text("true".to_string())]);
    assert_eq!(
        t.columns[2].values,
        vec![LeafValue::List(vec![
            LeafValue::Text("0".to_string()),
            LeafValue::Text("905".to_string()),
        ])]
    );
}

#[test]
fn stringify_renders_integer_extremes() {
    let schema = RecordSchema {
        fields: vec![
            RecordField {
                name: "min".to_string(),
                descriptor: TypeDescriptor {
                    wrappers: vec![],
                    base: Base::Primitive(PrimitiveBase::I64),
                    transform: Some(PrimitiveTransform::Stringify),
                },
            },
            RecordField {
                name: "max".to_string(),
                descriptor: TypeDescriptor {
                    wrappers: vec![],
                    base: Base::Primitive(PrimitiveBase::U64),
                    transform: Some(PrimitiveTransform::Stringify),
                },
            },
        ],
    };
    let instance = vec![Value::Int(i64::MIN), Value::UInt(u64::MAX)];
    let t = to_row(&instance, &schema).unwrap();
    assert_eq!(
        t.columns[0].values,
        vec![LeafValue::Text("-9223372036854775808".to_string())]
    );
    assert_eq!(
        t.columns[1].values,
        vec![LeafValue::Text("18446744073709551615".to_string())]
    );
}

#[test]
fn conversion_rejects_ill_typed_values() {
    let schema = RecordSchema {
        fields: vec![RecordField {
            name: "v".to_string(),
            descriptor: TypeDescriptor {
                wrappers: vec![],
                base: Base::Primitive(PrimitiveBase::I8),
                transform: None,
            },
        }],
    };
    // Out of range for the declared width.
    assert_eq!(to_row(&vec![Value::Int(300)], &schema).unwrap_err(), Error::Conversion);
    // Wrong kind entirely.
    assert_eq!(
        to_row(&vec![Value::Text("300".to_string())], &schema).unwrap_err(),
        Error::Conversion
    );
    // Wrong number of field values.
    assert_eq!(to_row(&vec![], &schema).unwrap_err(), Error::Conversion);
    // In range succeeds.
    let t = to_row(&vec![Value::Int(-128)], &schema).unwrap();
    assert_eq!(t.columns[0].values, vec![LeafValue::Int(-128)]);
}

#[test]
fn conversion_rejects_stringified_floats() {
    let schema = RecordSchema {
        fields: vec![RecordField {
            name: "f".to_string(),
            descriptor: TypeDescriptor {
                wrappers: vec![],
                base: Base::Primitive(PrimitiveBase::F64),
                transform: Some(PrimitiveTransform::Stringify),
            },
        }],
    };
    let bits = Value::F64Bits(1.5f64.to_bits());
    assert_eq!(to_row(&vec![bits], &schema).unwrap_err(), Error::Conversion);
}

#[test]
fn batch_aborts_atomically_on_bad_instance() {
    let schema = RecordSchema {
        fields: vec![RecordField {
            name: "v".to_string(),
            descriptor: TypeDescriptor {
                wrappers: vec![],
                base: Base::Primitive(PrimitiveBase::U8),
                transform: None,
            },
        }],
    };
    let instances = vec![
        vec![Value::UInt(1)],
        vec![Value::UInt(999)],
        vec![Value::UInt(2)],
    ];
    assert_eq!(df_tabular::to_table(&instances, &schema).unwrap_err(), Error::Conversion);
}

#[test]
fn wrapper_predicates() {
    assert!(is_vec(&[Wrapper::Optional, Wrapper::List]));
    assert!(!is_vec(&[Wrapper::Optional]));
    assert!(is_option(&[Wrapper::Optional]));
    assert!(!is_option(&[Wrapper::List]));
    assert!(!is_vec(&[]));
    assert!(!is_option(&[]));
}

#[test]
fn cast_flags_and_storage_mapping() {
    assert!(needs_cast(Some(&PrimitiveTransform::TimestampToMillis)));
    assert!(needs_cast(Some(&PrimitiveTransform::DecimalToText)));
    assert!(!needs_cast(Some(&PrimitiveTransform::Stringify)));
    assert!(!needs_cast(None));

    let m = compute_mapping(
        &PrimitiveBase::Timestamp,
        Some(&PrimitiveTransform::TimestampToMillis),
        &[Wrapper::List],
    );
    assert_eq!(m.element_dtype, StorageType::Datetime);
    assert_eq!(m.full_dtype, StorageType::List(Box::new(StorageType::Datetime)));

    let s = compute_mapping(&PrimitiveBase::I32, Some(&PrimitiveTransform::Stringify), &[]);
    assert_eq!(s.element_dtype, StorageType::Text);
    assert_eq!(s.full_dtype, StorageType::Text);

    let plain = compute_mapping(&PrimitiveBase::Bool, None, &[]);
    assert_eq!(plain.full_dtype, StorageType::Boolean);
}

#[test]
fn bare_wrapper_names_without_arguments_are_structs() {
    let a = analyze_type(&raw("Option"), false).unwrap();
    assert!(matches!(a.base, BaseType::Struct(ref n) if n == "Option"));
    assert!(a.wrappers.is_empty());
}
