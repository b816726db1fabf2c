//! From a raw struct declaration to the analysis-level intermediate
//! representation: every field canonicalized, positional fields named.

use vstd::prelude::*;
use vstd::string::StringExecFns;

use crate::error::Error;
use crate::ir::{BaseType, PrimitiveTransform, Wrapper};
use crate::render::spec_nat_chars;
use crate::type_analysis::{
    analyze_type, spec_base_kind, spec_peel_base, spec_peel_wrappers, spec_transform_for, RawType,
};

verus! {

/// One field of a raw struct declaration: its name (absent for the
/// positional fields of tuple-like structs), its raw type, and whether
/// stringification was requested for it.
pub struct RawField {
    pub name: Option<String>,
    pub ty: RawType,
    pub as_string: bool,
}

/// A raw struct declaration: its name and its fields in declaration
/// order. A unit-like struct simply has no fields.
pub struct RawStruct {
    pub name: String,
    pub fields: Vec<RawField>,
}

/// The analysis-level representation of one field.
#[derive(Debug)]
pub struct FieldIR {
    /// Field name as declared, or `field_<index>` for positional fields.
    pub name: String,
    /// The field's position, for positional fields only.
    pub field_index: Option<usize>,
    /// Wrapper layers, outermost first.
    pub wrappers: Vec<Wrapper>,
    /// The base kind, nested record types still by name.
    pub base_type: BaseType,
    /// The transform applied when values are materialized.
    pub transform: Option<PrimitiveTransform>,
}

/// The analysis-level representation of a whole struct.
#[derive(Debug)]
pub struct StructIR {
    pub name: String,
    pub fields: Vec<FieldIR>,
}

/// The name one field carries in the flat schema: its declared name, or
/// `field_` followed by its position.
pub open spec fn spec_field_label(f: RawField, i: int) -> Seq<char> {
    match f.name {
        Some(n) => n@,
        None => "field_"@ + spec_nat_chars(i as nat),
    }
}

/// Whether one analysis-level field faithfully represents a raw field at
/// position `i`.
pub open spec fn spec_field_ir_matches(f: RawField, i: int, g: FieldIR) -> bool {
    &&& g.name@ == spec_field_label(f, i)
    &&& (match f.name {
        Some(_) => g.field_index is None,
        None => g.field_index matches Some(k) && k as int == i,
    })
    &&& g.wrappers@ == spec_peel_wrappers(f.ty)
    &&& g.transform == spec_transform_for(spec_base_kind(spec_peel_base(f.ty)), f.as_string)
    &&& (match spec_base_kind(spec_peel_base(f.ty)) {
        Some(p) => g.base_type == BaseType::Primitive(p),
        None => g.base_type matches BaseType::Struct(n) && n@ == spec_peel_base(f.ty).name@,
    })
}

/// Parses a raw struct declaration into the analysis-level
/// representation: each field's type canonicalized, positional fields
/// named `field_0`, `field_1`, and so on. Fails exactly when some field's
/// type bottoms out in a map-shaped base, naming that field.
pub fn parse_to_ir(input: &RawStruct) -> (r: Result<StructIR, Error>)
    ensures
        r is Ok <==> (forall|i: int|
            0 <= i < input.fields@.len() ==> spec_peel_base(
                (#[trigger] input.fields@[i]).ty,
            ).name@ != "HashMap"@),
        r matches Ok(ir) ==> ir.name@ == input.name@ && ir.fields@.len() == input.fields@.len()
            && (forall|i: int|
            0 <= i < input.fields@.len() ==> spec_field_ir_matches(
                input.fields@[i],
                i,
                #[trigger] ir.fields@[i],
            )),
        r matches Err(e) ==> e matches Error::Shape { field } && (exists|i: int|
            0 <= i < input.fields@.len() && spec_peel_base((#[trigger] input.fields@[i]).ty).name@
                == "HashMap"@ && field@ == spec_field_label(input.fields@[i], i)),
{
    let mut fields: Vec<FieldIR> = Vec::new();
    let mut i: usize = 0;
    while i < input.fields.len()
        invariant
            0 <= i <= input.fields@.len(),
            fields@.len() == i,
            forall|k: int|
                0 <= k < i ==> spec_peel_base((#[trigger] input.fields@[k]).ty).name@
                    != "HashMap"@,
            forall|k: int|
                0 <= k < i ==> spec_field_ir_matches(
                    input.fields@[k],
                    k,
                    #[trigger] fields@[k],
                ),
        decreases input.fields@.len() - i,
    {
        let field = &input.fields[i];
        let label = match &field.name {
            Some(n) => n.clone(),
            None => {
                let mut s = String::new();
                s.append("field_");
                let digits = crate::render::u64_to_string(i as u64);
                s.append(digits.as_str());
                s
            },
        };
        match analyze_type(&field.ty, field.as_string) {
            Ok(analyzed) => {
                let field_index = match &field.name {
                    Some(_) => None,
                    None => Some(i),
                };
                fields.push(
                    FieldIR {
                        name: label,
                        field_index,
                        wrappers: analyzed.wrappers,
                        base_type: analyzed.base,
                        transform: analyzed.transform,
                    },
                );
            },
            Err(_) => {
                return Err(Error::Shape { field: label });
            },
        }
        i = i + 1;
    }
    Ok(StructIR { name: input.name.clone(), fields })
}

} // verus!
