//! The type-descriptor resolver's second half: turning the analysis-level
//! representation of a record type into a canonical schema, nested record
//! types looked up in an explicit registry filled once per type.

use vstd::prelude::*;

use crate::error::Error;
use crate::ir::{BaseType, PrimitiveBase, PrimitiveTransform, Wrapper};
use crate::parser::{FieldIR, StructIR};
use crate::schema::{
    spec_field_columns, spec_field_leaf_count, spec_record_columns_from,
    spec_record_leaf_count_from, Base, RecordField, RecordSchema, TypeDescriptor,
};
use crate::value::Value;

verus! {

/// Structural equality of two descriptors: same wrappers, same transform,
/// same base, nested records compared field by field.
pub open spec fn spec_td_equiv(a: TypeDescriptor, b: TypeDescriptor) -> bool
    decreases a, 0nat,
{
    &&& a.wrappers@ == b.wrappers@
    &&& a.transform == b.transform
    &&& (match a.base {
        Base::Primitive(p) => b.base matches Base::Primitive(q) && q == p,
        Base::Record(x) => b.base matches Base::Record(y) && spec_schema_equiv_from(x, y, 0),
    })
}

/// Structural equality of two schemas, from field `i` on.
pub open spec fn spec_schema_equiv_from(a: RecordSchema, b: RecordSchema, i: int) -> bool
    decreases a, a.fields@.len() - i,
{
    if i < 0 || i >= a.fields@.len() {
        a.fields@.len() == b.fields@.len()
    } else {
        &&& i < b.fields@.len()
        &&& a.fields@[i].name@ == b.fields@[i].name@
        &&& spec_td_equiv(a.fields@[i].descriptor, b.fields@[i].descriptor)
        &&& spec_schema_equiv_from(a, b, i + 1)
    }
}

/// Structural equality of two schemas.
pub open spec fn spec_schema_equiv(a: RecordSchema, b: RecordSchema) -> bool {
    spec_schema_equiv_from(a, b, 0)
}

/// Structurally equal descriptors compile to the same columns and the
/// same leaf count, whatever the field is named.
pub proof fn lemma_td_equiv_columns(name: Seq<char>, a: TypeDescriptor, b: TypeDescriptor)
    requires
        spec_td_equiv(a, b),
    ensures
        spec_field_columns(name, a) == spec_field_columns(name, b),
        spec_field_leaf_count(a) == spec_field_leaf_count(b),
    decreases a, 0nat,
{
    if !crate::schema::spec_is_stringified(a) {
        match a.base {
            Base::Primitive(_) => {},
            Base::Record(x) => {
                match b.base {
                    Base::Record(y) => {
                        lemma_schema_equiv_columns(x, y, 0);
                    },
                    _ => {},
                }
            },
        }
    }
}

/// Structurally equal schemas compile to the same columns and leaf count.
pub proof fn lemma_schema_equiv_columns(a: RecordSchema, b: RecordSchema, i: int)
    requires
        spec_schema_equiv_from(a, b, i),
    ensures
        spec_record_columns_from(a, i) == spec_record_columns_from(b, i),
        spec_record_leaf_count_from(a, i) == spec_record_leaf_count_from(b, i),
    decreases a, a.fields@.len() - i,
{
    if 0 <= i < a.fields@.len() {
        lemma_td_equiv_columns(
            a.fields@[i].name@,
            a.fields@[i].descriptor,
            b.fields@[i].descriptor,
        );
        lemma_schema_equiv_columns(a, b, i + 1);
    }
}

/// Structurally equal descriptors accept the same values and convert
/// them to the same leaves.
pub proof fn lemma_td_equiv_conversion(v: Value, a: TypeDescriptor, b: TypeDescriptor, wi: int)
    requires
        spec_td_equiv(a, b),
    ensures
        crate::value::spec_wf_field(v, a, wi) == crate::value::spec_wf_field(v, b, wi),
        crate::value::spec_wf_field(v, a, wi) ==> crate::value::spec_field_values(v, a, wi)
            == crate::value::spec_field_values(v, b, wi),
    decreases v, a, a.wrappers@.len() - wi,
{
    lemma_td_equiv_columns(Seq::<char>::empty(), a, b);
    if 0 <= wi < a.wrappers@.len() {
        if a.wrappers@[wi] == Wrapper::Optional {
            if v is Null {
                assert(crate::value::spec_field_values(v, a, wi) =~= crate::value::spec_field_values(
                    v,
                    b,
                    wi,
                ));
            } else {
                lemma_td_equiv_conversion(v, a, b, wi + 1);
            }
        } else {
            match v {
                Value::List(es) => {
                    lemma_elems_equiv_conversion(es@, a, b, wi + 1);
                    if crate::value::spec_wf_field(v, a, wi) {
                        assert(crate::value::spec_field_values(v, a, wi)
                            =~= crate::value::spec_field_values(v, b, wi));
                    }
                },
                _ => {},
            }
        }
    } else {
        if !crate::schema::spec_is_stringified(a) {
            match a.base {
                Base::Primitive(_) => {},
                Base::Record(x) => {
                    match b.base {
                        Base::Record(y) => {
                            match v {
                                Value::Record(vs) => {
                                    lemma_schema_equiv_conversion_from(vs@, x, y, 0);
                                },
                                _ => {},
                            }
                        },
                        _ => {},
                    }
                },
            }
        }
    }
}

/// Structurally equal descriptors treat every element of a list alike.
proof fn lemma_elems_equiv_conversion(
    es: Seq<Value>,
    a: TypeDescriptor,
    b: TypeDescriptor,
    wi: int,
)
    requires
        spec_td_equiv(a, b),
    ensures
        crate::value::spec_wf_elems(es, a, wi) == crate::value::spec_wf_elems(es, b, wi),
        crate::value::spec_wf_elems(es, a, wi) ==> crate::value::spec_elem_rows(es, a, wi)
            == crate::value::spec_elem_rows(es, b, wi),
    decreases es, a, a.wrappers@.len() - wi,
{
    if es.len() > 0 {
        lemma_td_equiv_conversion(es[0], a, b, wi);
        lemma_elems_equiv_conversion(es.drop_first(), a, b, wi);
    }
}

/// Structurally equal schema suffixes accept the same instances and
/// convert them to the same leaves.
proof fn lemma_schema_equiv_conversion_from(vs: Seq<Value>, x: RecordSchema, y: RecordSchema, i: int)
    requires
        spec_schema_equiv_from(x, y, i),
    ensures
        crate::value::spec_wf_record_from(vs, x, i) == crate::value::spec_wf_record_from(vs, y, i),
        crate::value::spec_wf_record_from(vs, x, i) ==> crate::value::spec_record_values_from(
            vs,
            x,
            i,
        ) == crate::value::spec_record_values_from(vs, y, i),
    decreases vs, x, x.fields@.len() - i,
{
    if i >= 0 {
        lemma_schema_equiv_lens(x, y, i);
    }
    if 0 <= i < x.fields@.len() {
        if 0 <= i < vs.len() {
            lemma_td_equiv_conversion(vs[i], x.fields@[i].descriptor, y.fields@[i].descriptor, 0);
        }
        lemma_schema_equiv_conversion_from(vs, x, y, i + 1);
    }
}

proof fn lemma_schema_equiv_lens(x: RecordSchema, y: RecordSchema, i: int)
    requires
        spec_schema_equiv_from(x, y, i),
        0 <= i,
    ensures
        x.fields@.len() == y.fields@.len(),
    decreases x.fields@.len() - i,
{
    if i < x.fields@.len() {
        lemma_schema_equiv_lens(x, y, i + 1);
    }
}

/// A structural copy of a record schema — such as the resolver embeds for
/// a nested record type — is interchangeable with the original: it accepts
/// exactly the same instances and converts them to exactly the same rows.
pub proof fn lemma_equiv_conversion(vs: Seq<Value>, x: RecordSchema, y: RecordSchema)
    requires
        spec_schema_equiv(x, y),
    ensures
        crate::value::spec_wf_record(vs, x) == crate::value::spec_wf_record(vs, y),
        crate::value::spec_wf_record(vs, x) ==> crate::value::spec_record_values(vs, x)
            == crate::value::spec_record_values(vs, y),
{
    lemma_schema_equiv_conversion_from(vs, x, y, 0);
}

fn dup_wrappers(ws: &Vec<Wrapper>) -> (r: Vec<Wrapper>)
    ensures
        r@ == ws@,
{
    let mut r: Vec<Wrapper> = Vec::new();
    let mut i: usize = 0;
    while i < ws.len()
        invariant
            0 <= i <= ws@.len(),
            r@ == ws@.take(i as int),
        decreases ws@.len() - i,
    {
        r.push(ws[i]);
        proof {
            assert(ws@.take(i as int).push(ws@[i as int]) =~= ws@.take(i + 1));
        }
        i = i + 1;
    }
    proof {
        assert(ws@.take(ws@.len() as int) =~= ws@);
    }
    r
}

/// Copies a type descriptor; the copy is structurally equal.
pub fn dup_descriptor(td: &TypeDescriptor) -> (r: TypeDescriptor)
    ensures
        spec_td_equiv(r, *td),
    decreases *td,
{
    let wrappers = dup_wrappers(&td.wrappers);
    let transform = match &td.transform {
        Some(t) => Some(*t),
        None => None,
    };
    let base = match &td.base {
        Base::Primitive(p) => Base::Primitive(*p),
        Base::Record(rs) => Base::Record(dup_schema(rs)),
    };
    TypeDescriptor { wrappers, base, transform }
}

proof fn lemma_schema_equiv_from_intro(a: RecordSchema, b: RecordSchema, i: int)
    requires
        0 <= i <= a.fields@.len(),
        a.fields@.len() == b.fields@.len(),
        forall|k: int|
            i <= k < a.fields@.len() ==> (#[trigger] a.fields@[k]).name@ == b.fields@[k].name@
                && spec_td_equiv(a.fields@[k].descriptor, b.fields@[k].descriptor),
    ensures
        spec_schema_equiv_from(a, b, i),
    decreases a.fields@.len() - i,
{
    if i < a.fields@.len() {
        lemma_schema_equiv_from_intro(a, b, i + 1);
    }
}

/// Copies a record schema; the copy is structurally equal.
pub fn dup_schema(rs: &RecordSchema) -> (r: RecordSchema)
    ensures
        spec_schema_equiv(r, *rs),
    decreases *rs,
{
    let mut fields: Vec<RecordField> = Vec::new();
    let mut i: usize = 0;
    while i < rs.fields.len()
        invariant
            0 <= i <= rs.fields@.len(),
            fields@.len() == i,
            forall|k: int|
                0 <= k < i ==> (#[trigger] fields@[k]).name@ == rs.fields@[k].name@
                    && spec_td_equiv(fields@[k].descriptor, rs.fields@[k].descriptor),
        decreases rs.fields@.len() - i,
    {
        let field = &rs.fields[i];
        proof {
            assert(decreases_to!(*rs => rs.fields));
            assert(decreases_to!(rs.fields => rs.fields[i as int]));
            assert(decreases_to!(*rs => rs.fields[i as int]));
        }
        let descriptor = dup_descriptor(&field.descriptor);
        fields.push(RecordField { name: field.name.clone(), descriptor });
        i = i + 1;
    }
    let r = RecordSchema { fields };
    proof {
        lemma_schema_equiv_from_intro(r, *rs, 0);
    }
    r
}

/// One registered record type: its name and its canonical schema.
pub struct RegistryEntry {
    pub name: String,
    pub schema: RecordSchema,
}

/// The explicit configuration object nested record types are resolved
/// against: record schemas registered once, looked up by name while
/// later types are resolved. The earliest registration of a name wins.
pub struct SchemaRegistry {
    pub entries: Vec<RegistryEntry>,
}

/// The first registered schema under a name, if any.
pub open spec fn spec_lookup(entries: Seq<RegistryEntry>, name: Seq<char>) -> Option<RecordSchema>
    decreases entries,
{
    if entries.len() == 0 {
        None
    } else if entries[0].name@ == name {
        Some(entries[0].schema)
    } else {
        spec_lookup(entries.drop_first(), name)
    }
}

proof fn lemma_lookup_skip(entries: Seq<RegistryEntry>, name: Seq<char>, i: int)
    requires
        0 <= i <= entries.len(),
        forall|k: int| 0 <= k < i ==> (#[trigger] entries[k]).name@ != name,
    ensures
        spec_lookup(entries, name) == spec_lookup(entries.skip(i), name),
    decreases i,
{
    if i > 0 {
        lemma_lookup_skip(entries.drop_first(), name, i - 1);
        assert(entries.drop_first().skip(i - 1) =~= entries.skip(i));
        assert forall|k: int|
            0 <= k < i - 1 implies (#[trigger] entries.drop_first()[k]).name@ != name by {
            assert(entries.drop_first()[k] == entries[k + 1]);
        }
    } else {
        assert(entries.skip(0) =~= entries);
    }
}

impl SchemaRegistry {
    /// A registry with nothing in it.
    pub fn new() -> (r: SchemaRegistry)
        ensures
            r.entries@.len() == 0,
    {
        SchemaRegistry { entries: Vec::new() }
    }

    /// Registers a record type's schema under a name.
    pub fn register(&mut self, name: String, schema: RecordSchema)
        ensures
            final(self).entries@ == old(self).entries@.push(RegistryEntry { name, schema }),
    {
        self.entries.push(RegistryEntry { name, schema });
    }

    /// Finds the first schema registered under a name.
    fn lookup(&self, name: &String) -> (r: Option<&RecordSchema>)
        ensures
            match r {
                Some(s) => spec_lookup(self.entries@, name@) == Some(*s),
                None => spec_lookup(self.entries@, name@) is None,
            },
    {
        let mut i: usize = 0;
        while i < self.entries.len()
            invariant
                0 <= i <= self.entries@.len(),
                forall|k: int| 0 <= k < i ==> (#[trigger] self.entries@[k]).name@ != name@,
            decreases self.entries@.len() - i,
        {
            let entry = &self.entries[i];
            if entry.name.eq(name) {
                proof {
                    lemma_lookup_skip(self.entries@, name@, i as int);
                    assert(self.entries@.skip(i as int)[0] == self.entries@[i as int]);
                }
                return Some(&self.entries[i].schema);
            }
            i = i + 1;
        }
        proof {
            lemma_lookup_skip(self.entries@, name@, self.entries@.len() as int);
            assert(self.entries@.skip(self.entries@.len() as int) =~= Seq::<RegistryEntry>::empty());
        }
        None
    }
}

/// Whether one analysis-level field can be resolved against a registry:
/// primitives always, stringified fields always, a nested record type
/// only when its name is registered.
pub open spec fn spec_field_resolvable(g: FieldIR, entries: Seq<RegistryEntry>) -> bool {
    match g.base_type {
        BaseType::Primitive(_) => true,
        BaseType::Struct(n) => g.transform == Some(PrimitiveTransform::Stringify) || spec_lookup(
            entries,
            n@,
        ) is Some,
    }
}

/// Whether a schema field faithfully resolves one analysis-level field:
/// wrappers and transform carried over; a stringified record type turned
/// into a text leaf; a nested record type replaced by a structural copy
/// of its registered schema.
pub open spec fn spec_resolved_field(
    g: FieldIR,
    entries: Seq<RegistryEntry>,
    rf: RecordField,
) -> bool {
    &&& rf.name@ == g.name@
    &&& rf.descriptor.wrappers@ == g.wrappers@
    &&& rf.descriptor.transform == g.transform
    &&& (match g.base_type {
        BaseType::Primitive(p) => rf.descriptor.base matches Base::Primitive(q) && q == p,
        BaseType::Struct(n) => {
            if g.transform == Some(PrimitiveTransform::Stringify) {
                rf.descriptor.base matches Base::Primitive(q) && q == PrimitiveBase::Text
            } else {
                &&& rf.descriptor.base matches Base::Record(s)
                &&& spec_lookup(entries, n@) matches Some(reg)
                &&& spec_schema_equiv(rf.descriptor.base->Record_0, reg)
            }
        },
    })
}

/// Resolves an analysis-level struct into its canonical record schema.
/// Every nested record type must already be registered; a stringified
/// field is treated as a text leaf whatever it names. Fails exactly on
/// the unregistered nested types, naming the offending field.
pub fn resolve_struct(ir: &StructIR, registry: &SchemaRegistry) -> (r: Result<RecordSchema, Error>)
    ensures
        r is Ok <==> (forall|i: int|
            0 <= i < ir.fields@.len() ==> spec_field_resolvable(
                #[trigger] ir.fields@[i],
                registry.entries@,
            )),
        r matches Ok(rs) ==> rs.fields@.len() == ir.fields@.len() && (forall|i: int|
            0 <= i < ir.fields@.len() ==> spec_resolved_field(
                ir.fields@[i],
                registry.entries@,
                #[trigger] rs.fields@[i],
            )),
        r matches Err(e) ==> e matches Error::Shape { field } && (exists|i: int|
            0 <= i < ir.fields@.len() && !spec_field_resolvable(
                #[trigger] ir.fields@[i],
                registry.entries@,
            ) && field@ == ir.fields@[i].name@),
{
    let mut fields: Vec<RecordField> = Vec::new();
    let mut i: usize = 0;
    while i < ir.fields.len()
        invariant
            0 <= i <= ir.fields@.len(),
            fields@.len() == i,
            forall|k: int|
                0 <= k < i ==> spec_field_resolvable(#[trigger] ir.fields@[k], registry.entries@),
            forall|k: int|
                0 <= k < i ==> spec_resolved_field(
                    ir.fields@[k],
                    registry.entries@,
                    #[trigger] fields@[k],
                ),
        decreases ir.fields@.len() - i,
    {
        let g = &ir.fields[i];
        let wrappers = dup_wrappers(&g.wrappers);
        let transform = match &g.transform {
            Some(t) => Some(*t),
            None => None,
        };
        let is_stringified = matches!(g.transform, Some(PrimitiveTransform::Stringify));
        let base = match &g.base_type {
            BaseType::Primitive(p) => Base::Primitive(*p),
            BaseType::Struct(n) => {
                if is_stringified {
                    Base::Primitive(PrimitiveBase::Text)
                } else {
                    match registry.lookup(n) {
                        Some(registered) => Base::Record(dup_schema(registered)),
                        None => {
                            return Err(Error::Shape { field: g.name.clone() });
                        },
                    }
                }
            },
        };
        fields.push(
            RecordField { name: g.name.clone(), descriptor: TypeDescriptor { wrappers, base, transform } },
        );
        i = i + 1;
    }
    Ok(RecordSchema { fields })
}

} // verus!
