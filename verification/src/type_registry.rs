//! The storage-type mapper: from a (base kind, transform) pair and a wrapper
//! stack to the storage type of the resulting column.

use vstd::prelude::*;

use crate::ir::{spec_is_vec, PrimitiveBase, PrimitiveTransform, Wrapper};

verus! {

/// The type a finished column stores. A `List` layer marks a column whose
/// cells are sequences of the inner storage type.
#[derive(PartialEq, Eq, Debug)]
pub enum StorageType {
    Boolean,
    Int8,
    Int16,
    Int32,
    Int64,
    UInt8,
    UInt16,
    UInt32,
    UInt64,
    Float32,
    Float64,
    Text,
    /// Epoch milliseconds materialized behind a datetime column.
    Datetime,
    /// Fixed-precision decimal, materialized as text and cast on construction.
    Decimal,
    List(Box<StorageType>),
}

/// The storage type of a leaf, before any list wrapping. A `Stringify`
/// transform overrides every base kind and forces `Text`.
pub open spec fn spec_element_dtype(
    base: PrimitiveBase,
    transform: Option<PrimitiveTransform>,
) -> StorageType {
    if transform == Some(PrimitiveTransform::Stringify) {
        StorageType::Text
    } else {
        match base {
            PrimitiveBase::Bool => StorageType::Boolean,
            PrimitiveBase::I8 => StorageType::Int8,
            PrimitiveBase::I16 => StorageType::Int16,
            PrimitiveBase::I32 => StorageType::Int32,
            PrimitiveBase::I64 => StorageType::Int64,
            PrimitiveBase::U8 => StorageType::UInt8,
            PrimitiveBase::U16 => StorageType::UInt16,
            PrimitiveBase::U32 => StorageType::UInt32,
            PrimitiveBase::U64 => StorageType::UInt64,
            PrimitiveBase::F32 => StorageType::Float32,
            PrimitiveBase::F64 => StorageType::Float64,
            PrimitiveBase::Text => StorageType::Text,
            PrimitiveBase::Timestamp => StorageType::Datetime,
            PrimitiveBase::Decimal => StorageType::Decimal,
        }
    }
}

/// One `List` layer is added when the wrapper stack repeats the value;
/// `Optional` wrappers leave the storage type unchanged.
pub open spec fn spec_wrap_dtype(element: StorageType, wrappers: Seq<Wrapper>) -> StorageType {
    if spec_is_vec(wrappers) {
        StorageType::List(Box::new(element))
    } else {
        element
    }
}

/// The full storage type of a primitive field.
pub open spec fn spec_full_dtype(
    base: PrimitiveBase,
    transform: Option<PrimitiveTransform>,
    wrappers: Seq<Wrapper>,
) -> StorageType {
    spec_wrap_dtype(spec_element_dtype(base, transform), wrappers)
}

/// The element and full storage types computed for one primitive field.
pub struct TypeMapping {
    /// Storage type of a single leaf value, before list wrapping.
    pub element_dtype: StorageType,
    /// Storage type of the whole column, list wrapping included.
    pub full_dtype: StorageType,
}

/// Whether the transform materializes an intermediate representation that is
/// cast to the final storage type afterwards. This holds exactly for the
/// timestamp and decimal paths.
pub fn needs_cast(transform: Option<&PrimitiveTransform>) -> (r: bool)
    ensures
        r == (transform == Some(&PrimitiveTransform::TimestampToMillis) || transform == Some(
            &PrimitiveTransform::DecimalToText,
        )),
{
    match transform {
        Some(PrimitiveTransform::TimestampToMillis) => true,
        Some(PrimitiveTransform::DecimalToText) => true,
        _ => false,
    }
}

fn element_dtype(base: &PrimitiveBase, transform: Option<&PrimitiveTransform>) -> (r: StorageType)
    ensures
        r == spec_element_dtype(*base, option_deref(transform)),
{
    if matches!(transform, Some(PrimitiveTransform::Stringify)) {
        StorageType::Text
    } else {
        match base {
            PrimitiveBase::Bool => StorageType::Boolean,
            PrimitiveBase::I8 => StorageType::Int8,
            PrimitiveBase::I16 => StorageType::Int16,
            PrimitiveBase::I32 => StorageType::Int32,
            PrimitiveBase::I64 => StorageType::Int64,
            PrimitiveBase::U8 => StorageType::UInt8,
            PrimitiveBase::U16 => StorageType::UInt16,
            PrimitiveBase::U32 => StorageType::UInt32,
            PrimitiveBase::U64 => StorageType::UInt64,
            PrimitiveBase::F32 => StorageType::Float32,
            PrimitiveBase::F64 => StorageType::Float64,
            PrimitiveBase::Text => StorageType::Text,
            PrimitiveBase::Timestamp => StorageType::Datetime,
            PrimitiveBase::Decimal => StorageType::Decimal,
        }
    }
}

/// The value of an `Option<&T>` as an `Option<T>`, for contracts over
/// borrowed transforms.
pub open spec fn option_deref(t: Option<&PrimitiveTransform>) -> Option<PrimitiveTransform> {
    match t {
        Some(x) => Some(*x),
        None => None,
    }
}

/// Computes the element and full storage types of one primitive field.
pub fn compute_mapping(
    base: &PrimitiveBase,
    transform: Option<&PrimitiveTransform>,
    wrappers: &[Wrapper],
) -> (r: TypeMapping)
    ensures
        r.element_dtype == spec_element_dtype(*base, option_deref(transform)),
        r.full_dtype == spec_full_dtype(*base, option_deref(transform), wrappers@),
{
    let element = element_dtype(base, transform);
    let full = if crate::ir::is_vec(wrappers) {
        StorageType::List(Box::new(element_dtype(base, transform)))
    } else {
        element_dtype(base, transform)
    };
    TypeMapping { element_dtype: element, full_dtype: full }
}

} // verus!
