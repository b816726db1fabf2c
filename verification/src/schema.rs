//! Canonical type descriptors and the schema compiler: the recursive
//! flattening of a nested record type into an ordered list of
//! (dotted name, storage type) columns.

use vstd::prelude::*;
use vstd::string::StringExecFns;

use crate::ir::{spec_is_vec, PrimitiveBase, PrimitiveTransform, Wrapper};
use crate::type_registry::{compute_mapping, spec_full_dtype, StorageType};

verus! {

/// Canonical description of one field's shape: an ordered wrapper stack
/// (outermost first), a base kind, and an optional value transform.
#[derive(Debug)]
pub struct TypeDescriptor {
    pub wrappers: Vec<Wrapper>,
    pub base: Base,
    pub transform: Option<PrimitiveTransform>,
}

/// What a field bottoms out in once every wrapper is peeled: a primitive
/// leaf kind or a nested record.
#[derive(Debug)]
pub enum Base {
    Primitive(PrimitiveBase),
    Record(RecordSchema),
}

/// The ordered named fields of a record type.
#[derive(Debug)]
pub struct RecordSchema {
    pub fields: Vec<RecordField>,
}

/// One field of a record: its declared (or positional) name and its
/// canonical descriptor.
#[derive(Debug)]
pub struct RecordField {
    pub name: String,
    pub descriptor: TypeDescriptor,
}

/// One output column: its dotted name and its storage type.
#[derive(PartialEq, Eq, Debug)]
pub struct ColumnSpec {
    pub name: String,
    pub dtype: StorageType,
}

/// The mathematical value of a [`ColumnSpec`].
pub struct ColumnSpecV {
    pub name: Seq<char>,
    pub dtype: StorageType,
}

impl View for ColumnSpec {
    type V = ColumnSpecV;

    open spec fn view(&self) -> ColumnSpecV {
        ColumnSpecV { name: self.name@, dtype: self.dtype }
    }
}

/// The views of a sequence of columns.
pub open spec fn views_of_columns(s: Seq<ColumnSpec>) -> Seq<ColumnSpecV> {
    s.map_values(|c: ColumnSpec| c@)
}

/// Whether a descriptor is treated as a single text column because of an
/// explicit `Stringify` transform, whatever its base kind.
pub open spec fn spec_is_stringified(td: TypeDescriptor) -> bool {
    td.transform == Some(PrimitiveTransform::Stringify)
}

/// Wraps a nested column's storage type in one extra `List` layer when the
/// field that contains the nested record is itself repeated.
pub open spec fn spec_bump_dtype(dtype: StorageType, as_list: bool) -> StorageType {
    if as_list {
        StorageType::List(Box::new(dtype))
    } else {
        dtype
    }
}

/// The columns contributed by one field, named `name`, of shape `td`.
///
/// A primitive (or stringified) field contributes exactly one column. A
/// nested record contributes one column per nested leaf, its names prefixed
/// with `name` and a dot, and its storage types wrapped in one `List` layer
/// when the field is repeated. An empty nested record contributes none.
pub open spec fn spec_field_columns(name: Seq<char>, td: TypeDescriptor) -> Seq<ColumnSpecV>
    decreases td, 0nat,
{
    if spec_is_stringified(td) {
        seq![
            ColumnSpecV {
                name: name,
                dtype: spec_full_dtype(PrimitiveBase::Text, td.transform, td.wrappers@),
            },
        ]
    } else {
        match td.base {
            Base::Primitive(p) => seq![
                ColumnSpecV { name: name, dtype: spec_full_dtype(p, td.transform, td.wrappers@) },
            ],
            Base::Record(rs) => spec_record_columns_from(rs, 0).map_values(
                |c: ColumnSpecV| ColumnSpecV {
                    name: name + "."@ + c.name,
                    dtype: spec_bump_dtype(c.dtype, spec_is_vec(td.wrappers@)),
                },
            ),
        }
    }
}

/// The columns contributed by the fields of `rs` from index `i` on.
pub open spec fn spec_record_columns_from(rs: RecordSchema, i: int) -> Seq<ColumnSpecV>
    decreases rs, rs.fields@.len() - i,
{
    if i < 0 || i >= rs.fields@.len() {
        Seq::empty()
    } else {
        spec_field_columns(rs.fields@[i].name@, rs.fields@[i].descriptor)
            + spec_record_columns_from(rs, i + 1)
    }
}

/// The flat column schema of a record type: the concatenation of its
/// fields' columns, in declaration order.
pub open spec fn spec_record_columns(rs: RecordSchema) -> Seq<ColumnSpecV> {
    spec_record_columns_from(rs, 0)
}

/// The number of leaf columns one field contributes.
pub open spec fn spec_field_leaf_count(td: TypeDescriptor) -> nat
    decreases td, 0nat,
{
    if spec_is_stringified(td) {
        1
    } else {
        match td.base {
            Base::Primitive(_) => 1,
            Base::Record(rs) => spec_record_leaf_count_from(rs, 0),
        }
    }
}

/// The number of leaf columns the fields of `rs` from index `i` on
/// contribute.
pub open spec fn spec_record_leaf_count_from(rs: RecordSchema, i: int) -> nat
    decreases rs, rs.fields@.len() - i,
{
    if i < 0 || i >= rs.fields@.len() {
        0
    } else {
        spec_field_leaf_count(rs.fields@[i].descriptor) + spec_record_leaf_count_from(rs, i + 1)
    }
}

/// The number of leaf fields reachable by recursively expanding `rs`.
pub open spec fn spec_record_leaf_count(rs: RecordSchema) -> nat {
    spec_record_leaf_count_from(rs, 0)
}

/// The flat schema of a field has exactly one column per reachable leaf.
pub proof fn lemma_field_columns_len(name: Seq<char>, td: TypeDescriptor)
    ensures
        spec_field_columns(name, td).len() == spec_field_leaf_count(td),
    decreases td, 0nat,
{
    if !spec_is_stringified(td) {
        match td.base {
            Base::Primitive(_) => {},
            Base::Record(rs) => {
                lemma_record_columns_from_len(rs, 0);
            },
        }
    }
}

/// The flat schema of a record's field suffix has exactly one column per
/// reachable leaf.
pub proof fn lemma_record_columns_from_len(rs: RecordSchema, i: int)
    ensures
        spec_record_columns_from(rs, i).len() == spec_record_leaf_count_from(rs, i),
    decreases rs, rs.fields@.len() - i,
{
    if 0 <= i < rs.fields@.len() {
        lemma_field_columns_len(rs.fields@[i].name@, rs.fields@[i].descriptor);
        lemma_record_columns_from_len(rs, i + 1);
    }
}

/// The length of a record type's flat schema equals the number of leaf
/// fields reachable by recursively expanding it; empty nested records
/// contribute none.
pub proof fn lemma_schema_len_is_leaf_count(rs: RecordSchema)
    ensures
        spec_record_columns(rs).len() == spec_record_leaf_count(rs),
{
    lemma_record_columns_from_len(rs, 0);
}

/// Copies a storage type.
pub fn dup_dtype(dtype: &StorageType) -> (r: StorageType)
    ensures
        r == *dtype,
    decreases *dtype,
{
    match dtype {
        StorageType::Boolean => StorageType::Boolean,
        StorageType::Int8 => StorageType::Int8,
        StorageType::Int16 => StorageType::Int16,
        StorageType::Int32 => StorageType::Int32,
        StorageType::Int64 => StorageType::Int64,
        StorageType::UInt8 => StorageType::UInt8,
        StorageType::UInt16 => StorageType::UInt16,
        StorageType::UInt32 => StorageType::UInt32,
        StorageType::UInt64 => StorageType::UInt64,
        StorageType::Float32 => StorageType::Float32,
        StorageType::Float64 => StorageType::Float64,
        StorageType::Text => StorageType::Text,
        StorageType::Datetime => StorageType::Datetime,
        StorageType::Decimal => StorageType::Decimal,
        StorageType::List(inner) => StorageType::List(Box::new(dup_dtype(inner))),
    }
}

/// Joins a field name and a nested column name with a dot.
pub fn dotted_name(prefix: &String, inner: &String) -> (r: String)
    ensures
        r@ == prefix@ + "."@ + inner@,
{
    let mut s = String::new();
    s.append(prefix.as_str());
    s.append(".");
    s.append(inner.as_str());
    s
}

/// Compiles the columns contributed by one field.
pub fn compile_field(name: &String, td: &TypeDescriptor) -> (cols: Vec<ColumnSpec>)
    ensures
        views_of_columns(cols@) == spec_field_columns(name@, *td),
    decreases *td,
{
    let is_stringified = matches!(td.transform, Some(PrimitiveTransform::Stringify));
    if is_stringified {
        let mapping = compute_mapping(
            &PrimitiveBase::Text,
            td.transform.as_ref(),
            td.wrappers.as_slice(),
        );
        let mut cols: Vec<ColumnSpec> = Vec::new();
        cols.push(ColumnSpec { name: name.clone(), dtype: mapping.full_dtype });
        proof {
            assert(views_of_columns(cols@) =~= spec_field_columns(name@, *td));
        }
        cols
    } else {
        match &td.base {
            Base::Primitive(p) => {
                let mapping = compute_mapping(p, td.transform.as_ref(), td.wrappers.as_slice());
                let mut cols: Vec<ColumnSpec> = Vec::new();
                cols.push(ColumnSpec { name: name.clone(), dtype: mapping.full_dtype });
                proof {
                    assert(views_of_columns(cols@) =~= spec_field_columns(name@, *td));
                }
                cols
            },
            Base::Record(rs) => {
                let inner_cols = compile_schema(rs);
                let as_list = crate::ir::is_vec(td.wrappers.as_slice());
                let mut cols: Vec<ColumnSpec> = Vec::new();
                let ghost inner_views = views_of_columns(inner_cols@);
                let mut j: usize = 0;
                while j < inner_cols.len()
                    invariant
                        0 <= j <= inner_cols@.len(),
                        inner_views == views_of_columns(inner_cols@),
                        inner_views == spec_record_columns(*rs),
                        as_list == spec_is_vec(td.wrappers@),
                        cols@.len() == j,
                        forall|k: int|
                            0 <= k < j ==> cols@[k]@ == (ColumnSpecV {
                                name: name@ + "."@ + inner_views[k].name,
                                dtype: spec_bump_dtype(inner_views[k].dtype, as_list),
                            }),
                    decreases inner_cols@.len() - j,
                {
                    let inner = &inner_cols[j];
                    let bumped = if as_list {
                        StorageType::List(Box::new(dup_dtype(&inner.dtype)))
                    } else {
                        dup_dtype(&inner.dtype)
                    };
                    cols.push(ColumnSpec { name: dotted_name(name, &inner.name), dtype: bumped });
                    j = j + 1;
                }
                proof {
                    assert(views_of_columns(cols@) =~= spec_field_columns(name@, *td));
                }
                cols
            },
        }
    }
}

/// Compiles the flat column schema of a record type: one column per
/// reachable leaf field, dot-named, in declaration order.
pub fn compile_schema(rs: &RecordSchema) -> (cols: Vec<ColumnSpec>)
    ensures
        views_of_columns(cols@) == spec_record_columns(*rs),
    decreases *rs,
{
    let mut cols: Vec<ColumnSpec> = Vec::new();
    let mut i: usize = 0;
    while i < rs.fields.len()
        invariant
            0 <= i <= rs.fields@.len(),
            views_of_columns(cols@) + spec_record_columns_from(*rs, i as int)
                == spec_record_columns(*rs),
        decreases rs.fields@.len() - i,
    {
        let field = &rs.fields[i];
        let mut field_cols = compile_field(&field.name, &field.descriptor);
        let ghost old_cols = cols@;
        let ghost added = field_cols@;
        cols.append(&mut field_cols);
        proof {
            assert(views_of_columns(old_cols + added) =~= views_of_columns(old_cols)
                + views_of_columns(added));
            assert(views_of_columns(cols@) + spec_record_columns_from(*rs, i + 1)
                =~= spec_record_columns(*rs));
        }
        i = i + 1;
    }
    cols
}

} // verus!
