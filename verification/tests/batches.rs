//! Batch conversion across many instances, wider shapes, and the bounds
//! of the integer widths.

use df_tabular::{
    compile_schema, parse_to_ir, resolve_struct, to_row, to_table, Base, Error, LeafValue,
    PrimitiveBase, RawField, RawType, RecordField, RecordSchema, SchemaRegistry, StorageType,
    TypeDescriptor, Value, Wrapper,
};

fn prim(base: PrimitiveBase) -> TypeDescriptor {
    TypeDescriptor { wrappers: vec![], base: Base::Primitive(base), transform: None }
}

fn record_td(wrappers: Vec<Wrapper>, rs: RecordSchema) -> TypeDescriptor {
    TypeDescriptor { wrappers, base: Base::Record(rs), transform: None }
}

fn field(name: &str, descriptor: TypeDescriptor) -> RecordField {
    RecordField { name: name.to_string(), descriptor }
}

fn rec(fields: Vec<RecordField>) -> RecordSchema {
    RecordSchema { fields }
}

#[test]
fn batch_with_list_of_records_per_row() {
    let price = rec(vec![
        field("price", prim(PrimitiveBase::F64)),
        field("volume", prim(PrimitiveBase::U64)),
    ]);
    let schema = rec(vec![
        field("symbol", prim(PrimitiveBase::Text)),
        field("prices", record_td(vec![Wrapper::List], price)),
    ]);
    let mk = |sym: &str, pairs: Vec<(u64, u64)>| -> Vec<Value> {
        vec![
            Value::Text(sym.to_string()),
            Value::List(
                pairs
                    .into_iter()
                    .map(|(p, v)| {
                        Value::Record(vec![Value::F64Bits(p), Value::UInt(v)])
                    })
                    .collect(),
            ),
        ]
    };
    let instances = vec![
        mk("A", vec![(1, 10), (2, 20)]),
        mk("B", vec![]),
        mk("C", vec![(3, 30)]),
    ];
    let t = to_table(&instances, &schema).unwrap();
    assert_eq!(t.height, 3);
    assert_eq!(t.columns.len(), 3);
    assert_eq!(t.columns[0].name, "symbol");
    assert_eq!(t.columns[1].name, "prices.price");
    assert_eq!(t.columns[2].name, "prices.volume");
    assert_eq!(
        t.columns[2].values,
        vec![
            LeafValue::List(vec![LeafValue::UInt(10), LeafValue::UInt(20)]),
            LeafValue::List(vec![]),
            LeafValue::List(vec![LeafValue::UInt(30)]),
        ]
    );
    assert_eq!(
        t.columns[1].values,
        vec![
            LeafValue::List(vec![LeafValue::F64Bits(1), LeafValue::F64Bits(2)]),
            LeafValue::List(vec![]),
            LeafValue::List(vec![LeafValue::F64Bits(3)]),
        ]
    );
}

#[test]
fn optional_vec_of_records() {
    let inner = rec(vec![field("v", prim(PrimitiveBase::I32))]);
    let schema = rec(vec![
        field("tag", prim(PrimitiveBase::Text)),
        field("data", record_td(vec![Wrapper::Optional, Wrapper::List], inner)),
    ]);
    let present = vec![
        Value::Text("p".to_string()),
        Value::List(vec![Value::Record(vec![Value::Int(1)])]),
    ];
    let absent = vec![Value::Text("a".to_string()), Value::Null];
    let t = to_table(&vec![present, absent], &schema).unwrap();
    assert_eq!(t.columns[1].name, "data.v");
    assert_eq!(
        t.columns[1].values,
        vec![LeafValue::List(vec![LeafValue::Int(1)]), LeafValue::Null]
    );
}

#[test]
fn hundred_row_batch() {
    let schema = rec(vec![
        field("i", prim(PrimitiveBase::U64)),
        field("label", TypeDescriptor {
            wrappers: vec![],
            base: Base::Primitive(PrimitiveBase::U64),
            transform: Some(df_tabular::PrimitiveTransform::Stringify),
        }),
    ]);
    let instances: Vec<Vec<Value>> =
        (0..100).map(|i| vec![Value::UInt(i), Value::UInt(i)]).collect();
    let t = to_table(&instances, &schema).unwrap();
    assert_eq!(t.height, 100);
    assert_eq!(t.columns[0].values[99], LeafValue::UInt(99));
    assert_eq!(t.columns[1].values[42], LeafValue::Text("42".to_string()));
    assert_eq!(t.columns[1].dtype, StorageType::Text);
}

#[test]
fn integer_width_bounds() {
    let schema = rec(vec![
        field("a", prim(PrimitiveBase::I16)),
        field("b", prim(PrimitiveBase::U16)),
    ]);
    let ok = vec![Value::Int(-32768), Value::UInt(65535)];
    let t = to_row(&ok, &schema).unwrap();
    assert_eq!(t.columns[0].values, vec![LeafValue::Int(-32768)]);
    assert_eq!(t.columns[1].values, vec![LeafValue::UInt(65535)]);

    let too_small = vec![Value::Int(-32769), Value::UInt(0)];
    assert_eq!(to_row(&too_small, &schema).unwrap_err(), Error::Conversion);
    let too_big = vec![Value::Int(0), Value::UInt(65536)];
    assert_eq!(to_row(&too_big, &schema).unwrap_err(), Error::Conversion);
}

#[test]
fn registry_earliest_registration_wins() {
    let mut registry = SchemaRegistry::new();
    registry.register(
        "T".to_string(),
        rec(vec![field("first", prim(PrimitiveBase::I32))]),
    );
    registry.register(
        "T".to_string(),
        rec(vec![field("second", prim(PrimitiveBase::I64))]),
    );
    let outer = df_tabular::RawStruct {
        name: "Outer".to_string(),
        fields: vec![RawField {
            name: Some("t".to_string()),
            ty: RawType { name: "T".to_string(), args: vec![] },
            as_string: false,
        }],
    };
    let ir = parse_to_ir(&outer).unwrap();
    let schema = resolve_struct(&ir, &registry).unwrap();
    let cols = compile_schema(&schema);
    assert_eq!(cols.len(), 1);
    assert_eq!(cols[0].name, "t.first");
    assert_eq!(cols[0].dtype, StorageType::Int32);
}

#[test]
fn tuple_struct_pipeline() {
    let point = df_tabular::RawStruct {
        name: "Point".to_string(),
        fields: vec![
            RawField {
                name: None,
                ty: RawType { name: "f64".to_string(), args: vec![] },
                as_string: false,
            },
            RawField {
                name: None,
                ty: RawType { name: "f64".to_string(), args: vec![] },
                as_string: false,
            },
        ],
    };
    let registry = SchemaRegistry::new();
    let ir = parse_to_ir(&point).unwrap();
    let schema = resolve_struct(&ir, &registry).unwrap();
    let cols = compile_schema(&schema);
    let names: Vec<&str> = cols.iter().map(|c| c.name.as_str()).collect();
    assert_eq!(names, vec!["field_0", "field_1"]);

    let t = to_row(
        &vec![
            Value::F64Bits(1.0f64.to_bits()),
            Value::F64Bits(2.5f64.to_bits()),
        ],
        &schema,
    )
    .unwrap();
    assert_eq!(t.columns[1].values, vec![LeafValue::F64Bits(2.5f64.to_bits())]);
}

#[test]
fn nested_tuple_structs_resolve() {
    let inner = df_tabular::RawStruct {
        name: "Inner".to_string(),
        fields: vec![
            RawField {
                name: None,
                ty: RawType { name: "i32".to_string(), args: vec![] },
                as_string: false,
            },
            RawField {
                name: None,
                ty: RawType { name: "String".to_string(), args: vec![] },
                as_string: false,
            },
        ],
    };
    let outer = df_tabular::RawStruct {
        name: "Outer".to_string(),
        fields: vec![RawField {
            name: None,
            ty: RawType { name: "Inner".to_string(), args: vec![] },
            as_string: false,
        }],
    };
    let mut registry = SchemaRegistry::new();
    let inner_schema = resolve_struct(&parse_to_ir(&inner).unwrap(), &registry).unwrap();
    registry.register("Inner".to_string(), inner_schema);
    let outer_schema = resolve_struct(&parse_to_ir(&outer).unwrap(), &registry).unwrap();
    let cols = compile_schema(&outer_schema);
    let names: Vec<&str> = cols.iter().map(|c| c.name.as_str()).collect();
    assert_eq!(names, vec!["field_0.field_0", "field_0.field_1"]);
}

#[test]
fn all_primitive_kinds_in_one_schema() {
    let schema = rec(vec![
        field("b", prim(PrimitiveBase::Bool)),
        field("i8", prim(PrimitiveBase::I8)),
        field("i16", prim(PrimitiveBase::I16)),
        field("i32", prim(PrimitiveBase::I32)),
        field("i64", prim(PrimitiveBase::I64)),
        field("u8", prim(PrimitiveBase::U8)),
        field("u16", prim(PrimitiveBase::U16)),
        field("u32", prim(PrimitiveBase::U32)),
        field("u64", prim(PrimitiveBase::U64)),
        field("f32", prim(PrimitiveBase::F32)),
        field("f64", prim(PrimitiveBase::F64)),
        field("text", prim(PrimitiveBase::Text)),
        field("ts", prim(PrimitiveBase::Timestamp)),
        field("dec", prim(PrimitiveBase::Decimal)),
    ]);
    let cols = compile_schema(&schema);
    let dtypes: Vec<&StorageType> = cols.iter().map(|c| &c.dtype).collect();
    assert_eq!(
        dtypes,
        vec![
            &StorageType::Boolean,
            &StorageType::Int8,
            &StorageType::Int16,
            &StorageType::Int32,
            &StorageType::Int64,
            &StorageType::UInt8,
            &StorageType::UInt16,
            &StorageType::UInt32,
            &StorageType::UInt64,
            &StorageType::Float32,
            &StorageType::Float64,
            &StorageType::Text,
            &StorageType::Datetime,
            &StorageType::Decimal,
        ]
    );
    let instance = vec![
        Value::Bool(false),
        Value::Int(-1),
        Value::Int(-2),
        Value::Int(-3),
        Value::Int(-4),
        Value::UInt(1),
        Value::UInt(2),
        Value::UInt(3),
        Value::UInt(4),
        Value::F32Bits(1.5f32.to_bits()),
        Value::F64Bits(2.5f64.to_bits()),
        Value::Text("t".to_string()),
        Value::Timestamp(123),
        Value::Decimal("9.75".to_string()),
    ];
    let t = to_row(&instance, &schema).unwrap();
    assert_eq!(t.columns[0].values, vec![LeafValue::Bool(false)]);
    assert_eq!(t.columns[4].values, vec![LeafValue::Int(-4)]);
    assert_eq!(t.columns[9].values, vec![LeafValue::F32Bits(1.5f32.to_bits())]);
    assert_eq!(t.columns[12].values, vec![LeafValue::Int(123)]);
    assert_eq!(t.columns[13].values, vec![LeafValue::Text("9.75".to_string())]);
}

#[test]
fn doubly_wrapped_primitive_list() {
    let schema = rec(vec![field(
        "grid",
        TypeDescriptor {
            wrappers: vec![Wrapper::List, Wrapper::List],
            base: Base::Primitive(PrimitiveBase::I32),
            transform: None,
        },
    )]);
    // The storage type carries a single list layer however deeply the
    // wrappers nest; the cell values nest as declared.
    let cols = compile_schema(&schema);
    assert_eq!(cols[0].dtype, StorageType::List(Box::new(StorageType::Int32)));

    let instance = vec![Value::List(vec![
        Value::List(vec![Value::Int(1), Value::Int(2)]),
        Value::List(vec![]),
    ])];
    let t = to_row(&instance, &schema).unwrap();
    assert_eq!(
        t.columns[0].values,
        vec![LeafValue::List(vec![
            LeafValue::List(vec![LeafValue::Int(1), LeafValue::Int(2)]),
            LeafValue::List(vec![]),
        ])]
    );
}

#[test]
fn repeated_empty_record_contributes_no_columns() {
    let empty_inner = rec(vec![]);
    let schema = rec(vec![
        field("id", prim(PrimitiveBase::Text)),
        field("metadata", record_td(vec![Wrapper::List], empty_inner)),
    ]);
    let cols = compile_schema(&schema);
    assert_eq!(cols.len(), 1);
    assert_eq!(cols[0].name, "id");

    let instance = vec![
        Value::Text("x".to_string()),
        Value::List(vec![Value::Record(vec![]), Value::Record(vec![])]),
    ];
    let t = to_row(&instance, &schema).unwrap();
    assert_eq!(t.height, 1);
    assert_eq!(t.columns.len(), 1);
    assert_eq!(t.columns[0].values, vec![LeafValue::Text("x".to_string())]);
}
