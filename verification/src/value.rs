//! Runtime values: record instances fed to the converters, the leaf values
//! that come out, and the mathematical model of both.

use vstd::prelude::*;

use crate::ir::{PrimitiveBase, PrimitiveTransform, Wrapper};
use crate::schema::{
    spec_field_leaf_count, spec_is_stringified, spec_record_leaf_count_from, Base, RecordSchema,
    TypeDescriptor,
};

verus! {

/// One runtime value of a field, before conversion. `Null` stands for an
/// absent `Optional` layer; a record instance is the ordered list of its
/// field values.
#[derive(PartialEq, Eq, Debug)]
pub enum Value {
    Null,
    Bool(bool),
    /// Any signed integer leaf, widened to 64 bits.
    Int(i64),
    /// Any unsigned integer leaf, widened to 64 bits.
    UInt(u64),
    /// A 32-bit float leaf, carried opaquely as its bit pattern.
    F32Bits(u32),
    /// A 64-bit float leaf, carried opaquely as its bit pattern.
    F64Bits(u64),
    Text(String),
    /// A timestamp, as epoch milliseconds.
    Timestamp(i64),
    /// A decimal, as its textual form.
    Decimal(String),
    List(Vec<Value>),
    Record(Vec<Value>),
}

/// One converted cell: the row-level output unit, one per column.
#[derive(PartialEq, Eq, Debug)]
pub enum LeafValue {
    Null,
    Bool(bool),
    Int(i64),
    UInt(u64),
    F32Bits(u32),
    F64Bits(u64),
    Text(String),
    List(Vec<LeafValue>),
}

/// The mathematical value of a [`LeafValue`].
pub enum LeafV {
    Null,
    Bool(bool),
    Int(int),
    UInt(int),
    F32Bits(u32),
    F64Bits(u64),
    Text(Seq<char>),
    List(Seq<LeafV>),
}

/// The mathematical value of one leaf.
pub open spec fn leaf_view(l: LeafValue) -> LeafV
    decreases l, 0nat,
{
    match l {
        LeafValue::Null => LeafV::Null,
        LeafValue::Bool(b) => LeafV::Bool(b),
        LeafValue::Int(i) => LeafV::Int(i as int),
        LeafValue::UInt(u) => LeafV::UInt(u as int),
        LeafValue::F32Bits(x) => LeafV::F32Bits(x),
        LeafValue::F64Bits(x) => LeafV::F64Bits(x),
        LeafValue::Text(s) => LeafV::Text(s@),
        LeafValue::List(v) => LeafV::List(leafs_view(v@)),
    }
}

/// The mathematical values of a sequence of leaves.
pub open spec fn leafs_view(s: Seq<LeafValue>) -> Seq<LeafV>
    decreases s, 1nat,
{
    if s.len() == 0 {
        Seq::empty()
    } else {
        seq![leaf_view(s[0])] + leafs_view(s.drop_first())
    }
}

/// `leafs_view` maps `leaf_view` over the sequence, element by element.
pub proof fn lemma_leafs_view(s: Seq<LeafValue>)
    ensures
        leafs_view(s).len() == s.len(),
        forall|i: int| 0 <= i < s.len() ==> leafs_view(s)[i] == leaf_view(s[i]),
    decreases s,
{
    if s.len() > 0 {
        lemma_leafs_view(s.drop_first());
    }
}

/// `leafs_view` distributes over concatenation.
pub proof fn lemma_leafs_view_add(a: Seq<LeafValue>, b: Seq<LeafValue>)
    ensures
        leafs_view(a + b) == leafs_view(a) + leafs_view(b),
{
    lemma_leafs_view(a);
    lemma_leafs_view(b);
    lemma_leafs_view(a + b);
    assert(leafs_view(a + b) =~= leafs_view(a) + leafs_view(b));
}

/// `leafs_view` of one more element pushes its view.
pub proof fn lemma_leafs_view_push(s: Seq<LeafValue>, l: LeafValue)
    ensures
        leafs_view(s.push(l)) == leafs_view(s).push(leaf_view(l)),
{
    assert(s.push(l) =~= s + seq![l]);
    lemma_leafs_view_add(s, seq![l]);
    lemma_leafs_view(seq![l]);
    assert(leafs_view(seq![l]) =~= seq![leaf_view(l)]);
    assert(leafs_view(s) + seq![leaf_view(l)] =~= leafs_view(s).push(leaf_view(l)));
}

/// The transform actually applied to a leaf: timestamps and decimals are
/// materialized through their implicit transform when none is given.
pub open spec fn spec_effective_transform(
    base: PrimitiveBase,
    t: Option<PrimitiveTransform>,
) -> Option<PrimitiveTransform> {
    if t is Some {
        t
    } else {
        match base {
            PrimitiveBase::Timestamp => Some(PrimitiveTransform::TimestampToMillis),
            PrimitiveBase::Decimal => Some(PrimitiveTransform::DecimalToText),
            _ => None,
        }
    }
}

/// Whether a value fits a primitive base kind, widened integers included.
pub open spec fn spec_wf_prim(v: Value, p: PrimitiveBase) -> bool {
    match p {
        PrimitiveBase::Bool => v is Bool,
        PrimitiveBase::I8 => v matches Value::Int(i) && -128 <= i <= 127,
        PrimitiveBase::I16 => v matches Value::Int(i) && -32768 <= i <= 32767,
        PrimitiveBase::I32 => v matches Value::Int(i) && -2147483648 <= i <= 2147483647,
        PrimitiveBase::I64 => v is Int,
        PrimitiveBase::U8 => v matches Value::UInt(u) && u <= 255,
        PrimitiveBase::U16 => v matches Value::UInt(u) && u <= 65535,
        PrimitiveBase::U32 => v matches Value::UInt(u) && u <= 4294967295,
        PrimitiveBase::U64 => v is UInt,
        PrimitiveBase::F32 => v is F32Bits,
        PrimitiveBase::F64 => v is F64Bits,
        PrimitiveBase::Text => v is Text,
        PrimitiveBase::Timestamp => v is Timestamp,
        PrimitiveBase::Decimal => v is Decimal,
    }
}

/// The kinds of value whose textual representation the engine can produce
/// itself. Floats are carried as opaque bit patterns, so they have none;
/// nested structures have none either.
pub open spec fn spec_stringifiable(v: Value) -> bool {
    match v {
        Value::Bool(_) => true,
        Value::Int(_) => true,
        Value::UInt(_) => true,
        Value::Text(_) => true,
        Value::Timestamp(_) => true,
        Value::Decimal(_) => true,
        _ => false,
    }
}

/// The textual representation of a stringifiable value: integers and
/// timestamps in decimal, booleans as `true`/`false`, text and decimals as
/// they stand.
pub open spec fn spec_stringify(v: Value) -> Seq<char> {
    match v {
        Value::Bool(b) => if b {
            "true"@
        } else {
            "false"@
        },
        Value::Int(i) => crate::render::spec_int_chars(i as int),
        Value::UInt(u) => crate::render::spec_nat_chars(u as nat),
        Value::Text(s) => s@,
        Value::Timestamp(ms) => crate::render::spec_int_chars(ms as int),
        Value::Decimal(s) => s@,
        _ => arbitrary(),
    }
}

/// The leaf a well-formed primitive value converts to, its effective
/// transform applied.
pub open spec fn spec_prim_leaf(v: Value, p: PrimitiveBase, t: Option<PrimitiveTransform>) -> LeafV {
    if spec_effective_transform(p, t) == Some(PrimitiveTransform::Stringify) {
        LeafV::Text(spec_stringify(v))
    } else {
        match v {
            Value::Bool(b) => LeafV::Bool(b),
            Value::Int(i) => LeafV::Int(i as int),
            Value::UInt(u) => LeafV::UInt(u as int),
            Value::F32Bits(x) => LeafV::F32Bits(x),
            Value::F64Bits(x) => LeafV::F64Bits(x),
            Value::Text(s) => LeafV::Text(s@),
            Value::Timestamp(ms) => LeafV::Int(ms as int),
            Value::Decimal(s) => LeafV::Text(s@),
            _ => arbitrary(),
        }
    }
}

/// Whether a value is well formed for a field of shape `td` with the
/// wrapper layers before index `wi` already peeled. Conversion succeeds on
/// exactly these values.
pub open spec fn spec_wf_field(v: Value, td: TypeDescriptor, wi: int) -> bool
    decreases v, td, td.wrappers@.len() - wi,
{
    if 0 <= wi < td.wrappers@.len() {
        if td.wrappers@[wi] == Wrapper::Optional {
            v is Null || spec_wf_field(v, td, wi + 1)
        } else {
            v matches Value::List(es) && spec_wf_elems(es@, td, wi + 1)
        }
    } else {
        if spec_is_stringified(td) {
            spec_stringifiable(v)
        } else {
            match td.base {
                Base::Primitive(p) => spec_wf_prim(v, p),
                Base::Record(rs) => v matches Value::Record(vs) && spec_wf_record_from(vs@, rs, 0),
            }
        }
    }
}

/// Whether every element of a list is well formed for the remaining layers.
pub open spec fn spec_wf_elems(es: Seq<Value>, td: TypeDescriptor, wi: int) -> bool
    decreases es, td, td.wrappers@.len() - wi,
{
    if es.len() == 0 {
        true
    } else {
        spec_wf_field(es[0], td, wi) && spec_wf_elems(es.drop_first(), td, wi)
    }
}

/// Whether the field values of a record instance, from index `i` on, are
/// well formed for the record's schema, and the instance has exactly one
/// value per field.
pub open spec fn spec_wf_record_from(vs: Seq<Value>, rs: RecordSchema, i: int) -> bool
    decreases vs, rs, rs.fields@.len() - i,
{
    if i < 0 || i >= rs.fields@.len() {
        vs.len() == rs.fields@.len()
    } else if i >= vs.len() {
        false
    } else {
        spec_wf_field(vs[i], rs.fields@[i].descriptor, 0) && spec_wf_record_from(vs, rs, i + 1)
    }
}

/// Whether a record instance is well formed for its schema.
pub open spec fn spec_wf_record(vs: Seq<Value>, rs: RecordSchema) -> bool {
    spec_wf_record_from(vs, rs, 0)
}

/// One list column per nested leaf: column `j` of the result lists the
/// `j`-th leaf of every element's own conversion, in element order.
pub open spec fn spec_transpose(rows: Seq<Seq<LeafV>>, ncols: nat) -> Seq<LeafV> {
    Seq::new(ncols, |j: int| LeafV::List(rows.map_values(|r: Seq<LeafV>| r[j])))
}

/// The leaves one field contributes to a row, the wrapper layers before
/// index `wi` already peeled: one leaf per column of the field.
///
/// An absent `Optional` produces one `Null` per column. A `List` layer
/// produces, for every column, one list leaf holding that column's value
/// for each element in order — for elements that are absent records, a
/// `Null` at that element's position.
pub open spec fn spec_field_values(v: Value, td: TypeDescriptor, wi: int) -> Seq<LeafV>
    decreases v, td, td.wrappers@.len() - wi,
{
    if 0 <= wi < td.wrappers@.len() {
        if td.wrappers@[wi] == Wrapper::Optional {
            if v is Null {
                Seq::new(spec_field_leaf_count(td), |j: int| LeafV::Null)
            } else {
                spec_field_values(v, td, wi + 1)
            }
        } else {
            match v {
                Value::List(es) => spec_transpose(
                    spec_elem_rows(es@, td, wi + 1),
                    spec_field_leaf_count(td),
                ),
                _ => arbitrary(),
            }
        }
    } else {
        if spec_is_stringified(td) {
            seq![LeafV::Text(spec_stringify(v))]
        } else {
            match td.base {
                Base::Primitive(p) => seq![spec_prim_leaf(v, p, td.transform)],
                Base::Record(rs) => match v {
                    Value::Record(vs) => spec_record_values_from(vs@, rs, 0),
                    _ => arbitrary(),
                },
            }
        }
    }
}

/// The conversions of a list's elements, one row of leaves per element.
pub open spec fn spec_elem_rows(es: Seq<Value>, td: TypeDescriptor, wi: int) -> Seq<Seq<LeafV>>
    decreases es, td, td.wrappers@.len() - wi,
{
    if es.len() == 0 {
        Seq::empty()
    } else {
        seq![spec_field_values(es[0], td, wi)] + spec_elem_rows(es.drop_first(), td, wi)
    }
}

/// The leaves the fields of a record instance contribute, from field `i`
/// on: the concatenation of each field's leaves, in declaration order.
pub open spec fn spec_record_values_from(vs: Seq<Value>, rs: RecordSchema, i: int) -> Seq<LeafV>
    decreases vs, rs, rs.fields@.len() - i,
{
    if i < 0 || i >= rs.fields@.len() {
        Seq::empty()
    } else if i >= vs.len() {
        arbitrary()
    } else {
        spec_field_values(vs[i], rs.fields@[i].descriptor, 0)
            + spec_record_values_from(vs, rs, i + 1)
    }
}

/// The full row of a record instance: one leaf per column of its schema.
pub open spec fn spec_record_values(vs: Seq<Value>, rs: RecordSchema) -> Seq<LeafV> {
    spec_record_values_from(vs, rs, 0)
}

/// `spec_elem_rows` maps the field conversion over the elements.
pub proof fn lemma_elem_rows(es: Seq<Value>, td: TypeDescriptor, wi: int)
    ensures
        spec_elem_rows(es, td, wi).len() == es.len(),
        forall|i: int|
            0 <= i < es.len() ==> spec_elem_rows(es, td, wi)[i] == spec_field_values(
                es[i],
                td,
                wi,
            ),
    decreases es,
{
    if es.len() > 0 {
        lemma_elem_rows(es.drop_first(), td, wi);
    }
}

/// A well-formed field converts to exactly one leaf per column of its flat
/// schema: the counts the schema compiler and the converters produce can
/// never disagree.
pub proof fn lemma_field_values_len(v: Value, td: TypeDescriptor, wi: int)
    requires
        spec_wf_field(v, td, wi),
    ensures
        spec_field_values(v, td, wi).len() == spec_field_leaf_count(td),
    decreases v, td, td.wrappers@.len() - wi,
{
    if 0 <= wi < td.wrappers@.len() {
        if td.wrappers@[wi] == Wrapper::Optional {
            if !(v is Null) {
                lemma_field_values_len(v, td, wi + 1);
            }
        }
    } else {
        if !spec_is_stringified(td) {
            match td.base {
                Base::Primitive(_) => {},
                Base::Record(rs) => match v {
                    Value::Record(vs) => {
                        lemma_record_values_from_len(vs@, rs, 0);
                    },
                    _ => {},
                },
            }
        }
    }
}

/// The scatter law for repeated fields. For a well-formed list value at a
/// `List` wrapper layer, every column of the field converts to a list of
/// the original length whose entry at each position is that element's own
/// conversion for that column — and where the elements are optional and
/// one is absent, a `Null` at exactly that position.
pub proof fn lemma_list_scatter(v: Value, td: TypeDescriptor, wi: int, j: int)
    requires
        0 <= wi < td.wrappers@.len(),
        td.wrappers@[wi] == Wrapper::List,
        spec_wf_field(v, td, wi),
        0 <= j < spec_field_leaf_count(td),
    ensures
        v matches Value::List(es) && spec_field_values(v, td, wi)[j] matches LeafV::List(cells)
            ==> cells.len() == es@.len() && (forall|i: int|
            0 <= i < es@.len() ==> cells[i] == spec_field_values(es@[i], td, wi + 1)[j]) && (
        forall|i: int|
            0 <= i < es@.len() && wi + 1 < td.wrappers@.len() && td.wrappers@[wi + 1]
                == Wrapper::Optional && es@[i] is Null ==> cells[i] == LeafV::Null),
        v is List && spec_field_values(v, td, wi)[j] is List,
{
    match v {
        Value::List(es) => {
            lemma_elem_rows(es@, td, wi + 1);
            let rows = spec_elem_rows(es@, td, wi + 1);
            let cells = rows.map_values(|r: Seq<LeafV>| r[j]);
            assert(spec_field_values(v, td, wi)[j] == LeafV::List(cells));
            assert forall|i: int|
                0 <= i < es@.len() && wi + 1 < td.wrappers@.len() && td.wrappers@[wi + 1]
                    == Wrapper::Optional && es@[i] is Null implies cells[i] == LeafV::Null by {
                assert(spec_field_values(es@[i], td, wi + 1) == Seq::new(
                    spec_field_leaf_count(td),
                    |q: int| LeafV::Null,
                ));
            }
        },
        _ => {},
    }
}

/// A well-formed record suffix converts to exactly one leaf per column.
pub proof fn lemma_record_values_from_len(vs: Seq<Value>, rs: RecordSchema, i: int)
    requires
        spec_wf_record_from(vs, rs, i),
    ensures
        spec_record_values_from(vs, rs, i).len() == spec_record_leaf_count_from(rs, i),
    decreases vs, rs, rs.fields@.len() - i,
{
    if 0 <= i < rs.fields@.len() {
        lemma_field_values_len(vs[i], rs.fields@[i].descriptor, 0);
        lemma_record_values_from_len(vs, rs, i + 1);
    }
}

} // verus!
