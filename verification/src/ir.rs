//! The wrapper, transform and base-kind vocabulary shared by the whole engine.

use vstd::prelude::*;

verus! {

/// Wrapper layers applied around a field's base type, listed outermost first.
#[derive(Clone, Copy, PartialEq, Eq, Structural, Debug)]
pub enum Wrapper {
    /// A nullable layer: the value may be absent.
    Optional,
    /// A repeated layer: the value is a sequence of inner values.
    List,
}

/// Optional transformation applied to leaf values while materializing them.
#[derive(Clone, Copy, PartialEq, Eq, Structural, Debug)]
pub enum PrimitiveTransform {
    /// Materialize a timestamp as epoch milliseconds (64-bit integer).
    TimestampToMillis,
    /// Materialize a decimal as its textual form.
    DecimalToText,
    /// Force the textual representation of the value, whatever its base kind.
    Stringify,
}

/// The leaf kinds a field can bottom out in, besides nested records.
#[derive(Clone, Copy, PartialEq, Eq, Structural, Debug)]
pub enum PrimitiveBase {
    Bool,
    I8,
    I16,
    I32,
    I64,
    U8,
    U16,
    U32,
    U64,
    F32,
    F64,
    Text,
    Timestamp,
    Decimal,
}

/// The base a raw field type resolves to before nested records are looked
/// up: a primitive leaf kind, or the name of another record type.
#[derive(PartialEq, Eq, Debug)]
pub enum BaseType {
    Primitive(PrimitiveBase),
    Struct(String),
}

/// Holds exactly when the wrapper stack contains a `List` layer.
pub open spec fn spec_is_vec(wrappers: Seq<Wrapper>) -> bool {
    exists|i: int| 0 <= i < wrappers.len() && wrappers[i] == Wrapper::List
}

/// Holds exactly when the wrapper stack contains an `Optional` layer.
pub open spec fn spec_is_option(wrappers: Seq<Wrapper>) -> bool {
    exists|i: int| 0 <= i < wrappers.len() && wrappers[i] == Wrapper::Optional
}

/// Whether any layer of the wrapper stack is a `List`.
pub fn is_vec(wrappers: &[Wrapper]) -> (r: bool)
    ensures
        r == spec_is_vec(wrappers@),
{
    let mut k: usize = 0;
    while k < wrappers.len()
        invariant
            0 <= k <= wrappers@.len(),
            forall|i: int| 0 <= i < k ==> wrappers@[i] != Wrapper::List,
        decreases wrappers@.len() - k,
    {
        if wrappers[k] == Wrapper::List {
            return true;
        }
        k = k + 1;
    }
    false
}

/// Whether any layer of the wrapper stack is an `Optional`.
pub fn is_option(wrappers: &[Wrapper]) -> (r: bool)
    ensures
        r == spec_is_option(wrappers@),
{
    let mut k: usize = 0;
    while k < wrappers.len()
        invariant
            0 <= k <= wrappers@.len(),
            forall|i: int| 0 <= i < k ==> wrappers@[i] != Wrapper::Optional,
        decreases wrappers@.len() - k,
    {
        if wrappers[k] == Wrapper::Optional {
            return true;
        }
        k = k + 1;
    }
    false
}

} // verus!
