//! The row converter: one record instance to a flat row of leaf values,
//! one per compiled column, by recursive wrapper resolution per field.

use vstd::prelude::*;
use vstd::string::StringExecFns;

use crate::error::Error;
use crate::ir::{PrimitiveBase, PrimitiveTransform, Wrapper};
use crate::schema::{
    compile_field, lemma_field_columns_len, spec_field_leaf_count, views_of_columns, Base,
    RecordSchema, TypeDescriptor,
};
use crate::type_registry::option_deref;
use crate::value::{
    leaf_view, leafs_view, lemma_leafs_view, lemma_leafs_view_push, spec_stringifiable,
    spec_stringify, spec_wf_prim, spec_prim_leaf, LeafV, LeafValue, Value,
};

verus! {

/// Every element of a list is well formed exactly when each element is.
pub proof fn lemma_wf_elems_iff(es: Seq<Value>, td: TypeDescriptor, wi: int)
    ensures
        crate::value::spec_wf_elems(es, td, wi) <==> (forall|k: int|
            0 <= k < es.len() ==> crate::value::spec_wf_field(es[k], td, wi)),
    decreases es,
{
    if es.len() > 0 {
        lemma_wf_elems_iff(es.drop_first(), td, wi);
        if crate::value::spec_wf_field(es[0], td, wi) && (forall|k: int|
            0 <= k < es.drop_first().len() ==> crate::value::spec_wf_field(
                es.drop_first()[k],
                td,
                wi,
            )) {
            assert forall|k: int| 0 <= k < es.len() implies crate::value::spec_wf_field(
                es[k],
                td,
                wi,
            ) by {
                if k > 0 {
                    assert(es.drop_first()[k - 1] == es[k]);
                }
            }
        }
        if forall|k: int| 0 <= k < es.len() ==> crate::value::spec_wf_field(es[k], td, wi) {
            assert forall|k: int|
                0 <= k < es.drop_first().len() implies crate::value::spec_wf_field(
                es.drop_first()[k],
                td,
                wi,
            ) by {
                assert(es.drop_first()[k] == es[k + 1]);
            }
        }
    }
}

/// A record instance is well formed exactly when it has one value per
/// field and each value is well formed for its field.
pub proof fn lemma_wf_record_iff(vs: Seq<Value>, rs: RecordSchema, i: int)
    requires
        0 <= i <= rs.fields@.len(),
    ensures
        crate::value::spec_wf_record_from(vs, rs, i) <==> (vs.len() == rs.fields@.len() && forall|
            k: int,
        |
            i <= k < rs.fields@.len() ==> crate::value::spec_wf_field(
                vs[k],
                rs.fields@[k].descriptor,
                0,
            )),
    decreases rs.fields@.len() - i,
{
    if i < rs.fields@.len() {
        lemma_wf_record_iff(vs, rs, i + 1);
    }
}

/// Renders the textual representation of a stringifiable value; booleans,
/// integers and timestamps are rendered by the engine itself, text and
/// decimals stand as they are.
pub fn stringify_value(v: &Value) -> (r: Result<String, Error>)
    ensures
        r is Ok <==> spec_stringifiable(*v),
        r matches Ok(s) ==> s@ == spec_stringify(*v),
        r matches Err(e) ==> e is Conversion,
{
    match v {
        Value::Bool(b) => {
            if *b {
                Ok(String::from_str("true"))
            } else {
                Ok(String::from_str("false"))
            }
        },
        Value::Int(i) => Ok(crate::render::i64_to_string(*i)),
        Value::UInt(u) => Ok(crate::render::u64_to_string(*u)),
        Value::Text(s) => Ok(s.clone()),
        Value::Timestamp(ms) => Ok(crate::render::i64_to_string(*ms)),
        Value::Decimal(s) => Ok(s.clone()),
        _ => Err(Error::Conversion),
    }
}

/// Converts one well-formed primitive leaf, applying the effective
/// transform: timestamps materialize as their epoch milliseconds, decimals
/// as their text.
fn convert_prim(v: &Value, p: &PrimitiveBase, t: Option<&PrimitiveTransform>) -> (r: Result<
    LeafValue,
    Error,
>)
    requires
        option_deref(t) != Some(PrimitiveTransform::Stringify),
    ensures
        r is Ok <==> spec_wf_prim(*v, *p),
        r matches Ok(l) ==> leaf_view(l) == spec_prim_leaf(*v, *p, option_deref(t)),
        r matches Err(e) ==> e is Conversion,
{
    match p {
        PrimitiveBase::Bool => match v {
            Value::Bool(b) => Ok(LeafValue::Bool(*b)),
            _ => Err(Error::Conversion),
        },
        PrimitiveBase::I8 => match v {
            Value::Int(i) => {
                if -128 <= *i && *i <= 127 {
                    Ok(LeafValue::Int(*i))
                } else {
                    Err(Error::Conversion)
                }
            },
            _ => Err(Error::Conversion),
        },
        PrimitiveBase::I16 => match v {
            Value::Int(i) => {
                if -32768 <= *i && *i <= 32767 {
                    Ok(LeafValue::Int(*i))
                } else {
                    Err(Error::Conversion)
                }
            },
            _ => Err(Error::Conversion),
        },
        PrimitiveBase::I32 => match v {
            Value::Int(i) => {
                if -2147483648 <= *i && *i <= 2147483647 {
                    Ok(LeafValue::Int(*i))
                } else {
                    Err(Error::Conversion)
                }
            },
            _ => Err(Error::Conversion),
        },
        PrimitiveBase::I64 => match v {
            Value::Int(i) => Ok(LeafValue::Int(*i)),
            _ => Err(Error::Conversion),
        },
        PrimitiveBase::U8 => match v {
            Value::UInt(u) => {
                if *u <= 255 {
                    Ok(LeafValue::UInt(*u))
                } else {
                    Err(Error::Conversion)
                }
            },
            _ => Err(Error::Conversion),
        },
        PrimitiveBase::U16 => match v {
            Value::UInt(u) => {
                if *u <= 65535 {
                    Ok(LeafValue::UInt(*u))
                } else {
                    Err(Error::Conversion)
                }
            },
            _ => Err(Error::Conversion),
        },
        PrimitiveBase::U32 => match v {
            Value::UInt(u) => {
                if *u <= 4294967295 {
                    Ok(LeafValue::UInt(*u))
                } else {
                    Err(Error::Conversion)
                }
            },
            _ => Err(Error::Conversion),
        },
        PrimitiveBase::U64 => match v {
            Value::UInt(u) => Ok(LeafValue::UInt(*u)),
            _ => Err(Error::Conversion),
        },
        PrimitiveBase::F32 => match v {
            Value::F32Bits(x) => Ok(LeafValue::F32Bits(*x)),
            _ => Err(Error::Conversion),
        },
        PrimitiveBase::F64 => match v {
            Value::F64Bits(x) => Ok(LeafValue::F64Bits(*x)),
            _ => Err(Error::Conversion),
        },
        PrimitiveBase::Text => match v {
            Value::Text(s) => Ok(LeafValue::Text(s.clone())),
            _ => Err(Error::Conversion),
        },
        PrimitiveBase::Timestamp => match v {
            Value::Timestamp(ms) => Ok(LeafValue::Int(*ms)),
            _ => Err(Error::Conversion),
        },
        PrimitiveBase::Decimal => match v {
            Value::Decimal(s) => Ok(LeafValue::Text(s.clone())),
            _ => Err(Error::Conversion),
        },
    }
}

/// Copies a leaf value.
#[verifier::loop_isolation(false)]
pub fn dup_leaf(l: &LeafValue) -> (r: LeafValue)
    ensures
        leaf_view(r) == leaf_view(*l),
    decreases *l,
{
    match l {
        LeafValue::Null => LeafValue::Null,
        LeafValue::Bool(b) => LeafValue::Bool(*b),
        LeafValue::Int(i) => LeafValue::Int(*i),
        LeafValue::UInt(u) => LeafValue::UInt(*u),
        LeafValue::F32Bits(x) => LeafValue::F32Bits(*x),
        LeafValue::F64Bits(x) => LeafValue::F64Bits(*x),
        LeafValue::Text(s) => LeafValue::Text(s.clone()),
        LeafValue::List(v) => {
            let mut out: Vec<LeafValue> = Vec::new();
            let mut i: usize = 0;
            while i < v.len()
                invariant
                    0 <= i <= v@.len(),
                    leafs_view(out@) == leafs_view(v@).take(i as int),
                decreases v@.len() - i,
            {
                proof {
                    assert(decreases_to!(*l => l->List_0));
                    assert(l->List_0 == *v);
                    assert(decreases_to!(*v => v[i as int]));
                    assert(decreases_to!(*l => v[i as int]));
                }
                let copied = dup_leaf(&v[i]);
                proof {
                    lemma_leafs_view_push(out@, copied);
                    lemma_leafs_view(v@);
                    assert(leafs_view(v@).take(i as int).push(leaf_view(v@[i as int]))
                        =~= leafs_view(v@).take(i + 1));
                }
                out.push(copied);
                i = i + 1;
            }
            proof {
                lemma_leafs_view(v@);
                assert(leafs_view(v@).take(v@.len() as int) =~= leafs_view(v@));
            }
            LeafValue::List(out)
        },
    }
}

/// Converts one field of a record instance, the wrapper layers before
/// index `wi` already peeled, appending one leaf per column of the field
/// to `out`. Succeeds exactly on well-formed values.
#[verifier::loop_isolation(false)]
fn convert_field(v: &Value, td: &TypeDescriptor, wi: usize, out: &mut Vec<LeafValue>) -> (r: Result<
    (),
    Error,
>)
    requires
        wi <= td.wrappers@.len(),
    ensures
        r is Ok <==> crate::value::spec_wf_field(*v, *td, wi as int),
        r is Ok ==> leafs_view(final(out)@) == leafs_view(old(out)@) + crate::value::spec_field_values(
            *v,
            *td,
            wi as int,
        ),
        r matches Err(e) ==> e is Conversion,
    decreases *v, *td, td.wrappers@.len() - wi,
{
    let ghost entry = out@;
    if wi < td.wrappers.len() {
        match td.wrappers[wi] {
            Wrapper::Optional => {
                if matches!(v, Value::Null) {
                    let n = field_leaf_count(td);
                    let mut j: usize = 0;
                    while j < n
                        invariant
                            0 <= j <= n,
                            leafs_view(out@) == leafs_view(entry) + Seq::new(
                                j as nat,
                                |q: int| LeafV::Null,
                            ),
                        decreases n - j,
                    {
                        proof {
                            lemma_leafs_view_push(out@, LeafValue::Null);
                            assert((leafs_view(entry) + Seq::new(j as nat, |q: int| LeafV::Null))
                                .push(LeafV::Null) =~= leafs_view(entry) + Seq::new(
                                (j + 1) as nat,
                                |q: int| LeafV::Null,
                            ));
                        }
                        out.push(LeafValue::Null);
                        j = j + 1;
                    }
                    proof {
                        assert(Seq::new(n as nat, |q: int| LeafV::Null) =~= Seq::new(
                            spec_field_leaf_count(*td),
                            |q: int| LeafV::Null,
                        ));
                    }
                    Ok(())
                } else {
                    convert_field(v, td, wi + 1, out)
                }
            },
            Wrapper::List => {
                match v {
                    Value::List(es) => {
                        proof {
                            assert(decreases_to!(*v => v->List_0));
                        }
                        let ghost rows_spec = crate::value::spec_elem_rows(
                            es@,
                            *td,
                            wi as int + 1,
                        );
                        proof {
                            crate::value::lemma_elem_rows(es@, *td, wi as int + 1);
                        }
                        let mut rows: Vec<Vec<LeafValue>> = Vec::new();
                        let mut i: usize = 0;
                        while i < es.len()
                            invariant
                                0 <= i <= es@.len(),
                                rows@.len() == i,
                                forall|k: int|
                                    0 <= k < i ==> crate::value::spec_wf_field(
                                        es@[k],
                                        *td,
                                        wi as int + 1,
                                    ),
                                forall|k: int|
                                    0 <= k < i ==> leafs_view(
                                        #[trigger] rows@[k]@,
                                    ) == rows_spec[k],
                            decreases es@.len() - i,
                        {
                            let mut row: Vec<LeafValue> = Vec::new();
                            proof {
                                assert(decreases_to!(*es => es[i as int]));
                            }
                            let converted = convert_field(&es[i], td, wi + 1, &mut row);
                            match converted {
                                Ok(()) => {},
                                Err(e) => {
                                    proof {
                                        lemma_wf_elems_iff(es@, *td, wi as int + 1);
                                    }
                                    return Err(e);
                                },
                            }
                            proof {
                                assert(leafs_view(row@) == rows_spec[i as int]);
                            }
                            rows.push(row);
                            i = i + 1;
                        }
                        proof {
                            lemma_wf_elems_iff(es@, *td, wi as int + 1);
                        }
                        let n = field_leaf_count(td);
                        proof {
                            assert forall|k: int| 0 <= k < es@.len() implies rows_spec[k].len()
                                == n as nat by {
                                crate::value::lemma_field_values_len(es@[k], *td, wi as int + 1);
                            }
                        }
                        let ghost cols_spec = crate::value::spec_transpose(
                            rows_spec,
                            spec_field_leaf_count(*td),
                        );
                        let mut j: usize = 0;
                        while j < n
                            invariant
                                0 <= j <= n,
                                leafs_view(out@) == leafs_view(entry) + cols_spec.take(j as int),
                            decreases n - j,
                        {
                            let mut col: Vec<LeafValue> = Vec::new();
                            let mut q: usize = 0;
                            while q < rows.len()
                                invariant
                                    0 <= q <= rows@.len(),
                                    0 <= j < n,
                                    leafs_view(col@) == rows_spec.map_values(
                                        |r: Seq<LeafV>| r[j as int],
                                    ).take(q as int),
                                decreases rows@.len() - q,
                            {
                                proof {
                                    lemma_leafs_view(rows@[q as int]@);
                                }
                                let leaf = dup_leaf(&rows[q][j]);
                                proof {
                                    lemma_leafs_view_push(col@, leaf);
                                    assert(leaf_view(leaf) == rows_spec[q as int][j as int]);
                                    assert(rows_spec.map_values(|r: Seq<LeafV>| r[j as int]).take(
                                        q as int,
                                    ).push(rows_spec[q as int][j as int]) =~= rows_spec.map_values(
                                        |r: Seq<LeafV>| r[j as int],
                                    ).take(q + 1));
                                }
                                col.push(leaf);
                                q = q + 1;
                            }
                            proof {
                                assert(rows_spec.map_values(|r: Seq<LeafV>| r[j as int]).take(
                                    rows@.len() as int,
                                ) =~= rows_spec.map_values(|r: Seq<LeafV>| r[j as int]));
                            }
                            let built = LeafValue::List(col);
                            proof {
                                assert(leaf_view(built) == cols_spec[j as int]);
                                lemma_leafs_view_push(out@, built);
                                assert((leafs_view(entry) + cols_spec.take(j as int)).push(
                                    cols_spec[j as int],
                                ) =~= leafs_view(entry) + cols_spec.take(j + 1));
                            }
                            out.push(built);
                            j = j + 1;
                        }
                        proof {
                            assert(cols_spec.take(n as int) =~= cols_spec);
                        }
                        Ok(())
                    },
                    _ => Err(Error::Conversion),
                }
            },
        }
    } else {
        let is_stringified = matches!(td.transform, Some(PrimitiveTransform::Stringify));
        if is_stringified {
            match stringify_value(v) {
                Ok(s) => {
                    let built = LeafValue::Text(s);
                    proof {
                        lemma_leafs_view_push(out@, built);
                        assert(leafs_view(entry).push(leaf_view(built)) =~= leafs_view(entry)
                            + crate::value::spec_field_values(*v, *td, wi as int));
                    }
                    out.push(built);
                    Ok(())
                },
                Err(e) => Err(e),
            }
        } else {
            match &td.base {
                Base::Primitive(p) => {
                    match convert_prim(v, p, td.transform.as_ref()) {
                        Ok(l) => {
                            proof {
                                lemma_leafs_view_push(out@, l);
                                assert(leafs_view(entry).push(leaf_view(l)) =~= leafs_view(entry)
                                    + crate::value::spec_field_values(*v, *td, wi as int));
                            }
                            out.push(l);
                            Ok(())
                        },
                        Err(e) => Err(e),
                    }
                },
                Base::Record(rs) => {
                    match v {
                        Value::Record(vs) => {
                            proof {
                                assert(decreases_to!(*v => v->Record_0));
                            }
                            convert_record_into(vs, rs, out)
                        },
                        _ => Err(Error::Conversion),
                    }
                },
            }
        }
    }
}

/// Converts every field of a record instance in declaration order,
/// appending each field's leaves to `out`. Succeeds exactly on instances
/// with one well-formed value per field.
#[verifier::loop_isolation(false)]
fn convert_record_into(vs: &Vec<Value>, rs: &RecordSchema, out: &mut Vec<LeafValue>) -> (r: Result<
    (),
    Error,
>)
    ensures
        r is Ok <==> crate::value::spec_wf_record(vs@, *rs),
        r is Ok ==> leafs_view(final(out)@) == leafs_view(old(out)@) + crate::value::spec_record_values(
            vs@,
            *rs,
        ),
        r matches Err(e) ==> e is Conversion,
    decreases *vs, *rs, 0nat,
{
    if vs.len() != rs.fields.len() {
        proof {
            lemma_wf_record_iff(vs@, *rs, 0);
        }
        return Err(Error::Conversion);
    }
    let mut i: usize = 0;
    while i < rs.fields.len()
        invariant
            0 <= i <= rs.fields@.len(),
            vs@.len() == rs.fields@.len(),
            forall|k: int|
                0 <= k < i ==> crate::value::spec_wf_field(vs@[k], rs.fields@[k].descriptor, 0),
            leafs_view(old(out)@) + crate::value::spec_record_values_from(vs@, *rs, 0)
                == leafs_view(out@) + crate::value::spec_record_values_from(vs@, *rs, i as int),
        decreases rs.fields@.len() - i,
    {
        let field = &rs.fields[i];
        proof {
            assert(decreases_to!(*vs => vs[i as int]));
        }
        let ghost before = out@;
        let converted = convert_field(&vs[i], &field.descriptor, 0, out);
        match converted {
            Ok(()) => {},
            Err(e) => {
                proof {
                    lemma_wf_record_iff(vs@, *rs, 0);
                }
                return Err(e);
            },
        }
        proof {
            assert((leafs_view(before) + crate::value::spec_field_values(
                vs@[i as int],
                rs.fields@[i as int].descriptor,
                0,
            )) + crate::value::spec_record_values_from(vs@, *rs, i + 1) =~= leafs_view(before) + (
            crate::value::spec_field_values(vs@[i as int], rs.fields@[i as int].descriptor, 0)
                + crate::value::spec_record_values_from(vs@, *rs, i + 1)));
        }
        i = i + 1;
    }
    proof {
        lemma_wf_record_iff(vs@, *rs, 0);
        assert(leafs_view(out@) + crate::value::spec_record_values_from(vs@, *rs, rs.fields@.len() as int)
            =~= leafs_view(out@));
    }
    Ok(())
}

/// Converts one record instance into its flat row: one leaf value per
/// compiled column, in schema order. Succeeds exactly on instances with
/// one well-formed value per field; on failure nothing is returned.
pub fn convert_instance(values: &Vec<Value>, rs: &RecordSchema) -> (r: Result<Vec<LeafValue>, Error>)
    ensures
        r is Ok <==> crate::value::spec_wf_record(values@, *rs),
        r matches Ok(row) ==> leafs_view(row@) == crate::value::spec_record_values(values@, *rs)
            && row@.len() == crate::schema::spec_record_leaf_count(*rs),
        r matches Err(e) ==> e is Conversion,
{
    let mut out: Vec<LeafValue> = Vec::new();
    let converted = convert_record_into(values, rs, &mut out);
    match converted {
        Ok(()) => {
            proof {
                assert(leafs_view(Seq::<LeafValue>::empty()) + crate::value::spec_record_values(
                    values@,
                    *rs,
                ) =~= crate::value::spec_record_values(values@, *rs));
                lemma_leafs_view(out@);
                crate::value::lemma_record_values_from_len(values@, *rs, 0);
            }
            Ok(out)
        },
        Err(e) => Err(e),
    }
}

/// The number of columns one field contributes.
pub fn field_leaf_count(td: &TypeDescriptor) -> (n: usize)
    ensures
        n as nat == spec_field_leaf_count(*td),
{
    let name = String::new();
    let cols = compile_field(&name, td);
    proof {
        lemma_field_columns_len(name@, *td);
        assert(views_of_columns(cols@).len() == cols@.len());
    }
    cols.len()
}

} // verus!
