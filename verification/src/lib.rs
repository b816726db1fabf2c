//! Conversion of statically described, arbitrarily nested record types into a
//! tabular (columnar) representation: a flat list of named, typed columns, one
//! row per record instance.
//!
//! The core is the recursive schema-flattening and columnar-assembly engine:
//! given a type descriptor composed of primitives, nullable wrappers, list
//! wrappers and nested records in any combination, it computes the flat column
//! schema, converts one instance into a row of leaf values, and converts many
//! instances into per-column buffers.

pub mod error;
pub mod ir;
pub mod parser;
pub mod render;
pub mod resolve;
pub mod row;
pub mod schema;
pub mod table;
pub mod type_analysis;
pub mod type_registry;
pub mod value;

pub use error::Error;
pub use ir::{is_option, is_vec, BaseType, PrimitiveBase, PrimitiveTransform, Wrapper};
pub use parser::{parse_to_ir, FieldIR, RawField, RawStruct, StructIR};
pub use resolve::{resolve_struct, SchemaRegistry};
pub use row::convert_instance;
pub use schema::{compile_schema, Base, ColumnSpec, RecordField, RecordSchema, TypeDescriptor};
pub use table::{empty_table, to_row, to_table, Column, Table};
pub use type_analysis::{analyze_type, AnalyzedType, RawType};
pub use type_registry::{compute_mapping, needs_cast, StorageType, TypeMapping};
pub use value::{LeafValue, Value};
