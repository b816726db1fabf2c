//! The type-descriptor resolver's first half: canonicalizing a raw field
//! type into an ordered wrapper stack, a base kind and a transform.

use vstd::prelude::*;
use vstd::string::StringExecFns;

use crate::error::Error;
use crate::ir::{BaseType, PrimitiveBase, PrimitiveTransform, Wrapper};

verus! {

/// A raw field type as the host language declares it: the last segment of
/// its path and its type arguments, e.g. `Option<Vec<Item>>` as
/// `Option[Vec[Item]]`.
pub struct RawType {
    pub name: String,
    pub args: Vec<RawType>,
}

/// The canonical form of one raw field type.
#[derive(Debug)]
pub struct AnalyzedType {
    pub base: BaseType,
    pub wrappers: Vec<Wrapper>,
    pub transform: Option<PrimitiveTransform>,
}

/// The wrapper layers of a raw type, outermost first: `Option` and `Vec`
/// nodes with a type argument are peeled in declaration order.
pub open spec fn spec_peel_wrappers(ty: RawType) -> Seq<Wrapper>
    decreases ty,
{
    if ty.args@.len() > 0 && ty.name@ == "Option"@ {
        seq![Wrapper::Optional] + spec_peel_wrappers(ty.args@[0])
    } else if ty.args@.len() > 0 && ty.name@ == "Vec"@ {
        seq![Wrapper::List] + spec_peel_wrappers(ty.args@[0])
    } else {
        Seq::empty()
    }
}

/// The first non-wrapper node of a raw type.
pub open spec fn spec_peel_base(ty: RawType) -> RawType
    decreases ty,
{
    if ty.args@.len() > 0 && (ty.name@ == "Option"@ || ty.name@ == "Vec"@) {
        spec_peel_base(ty.args@[0])
    } else {
        ty
    }
}

/// The primitive kind a base node names, if any: `None` stands for a
/// user-defined record type. Pointer-width integers are widened to the
/// 64-bit kinds.
pub open spec fn spec_base_kind(base: RawType) -> Option<PrimitiveBase> {
    if base.name@ == "DateTime"@ && base.args@.len() > 0 && base.args@[0].name@ == "Utc"@ {
        Some(PrimitiveBase::Timestamp)
    } else if base.name@ == "String"@ {
        Some(PrimitiveBase::Text)
    } else if base.name@ == "f64"@ {
        Some(PrimitiveBase::F64)
    } else if base.name@ == "f32"@ {
        Some(PrimitiveBase::F32)
    } else if base.name@ == "i8"@ {
        Some(PrimitiveBase::I8)
    } else if base.name@ == "u8"@ {
        Some(PrimitiveBase::U8)
    } else if base.name@ == "i16"@ {
        Some(PrimitiveBase::I16)
    } else if base.name@ == "u16"@ {
        Some(PrimitiveBase::U16)
    } else if base.name@ == "i64"@ || base.name@ == "isize"@ {
        Some(PrimitiveBase::I64)
    } else if base.name@ == "u64"@ || base.name@ == "usize"@ {
        Some(PrimitiveBase::U64)
    } else if base.name@ == "u32"@ {
        Some(PrimitiveBase::U32)
    } else if base.name@ == "i32"@ {
        Some(PrimitiveBase::I32)
    } else if base.name@ == "bool"@ {
        Some(PrimitiveBase::Bool)
    } else if base.name@ == "Decimal"@ {
        Some(PrimitiveBase::Decimal)
    } else {
        None
    }
}

/// The transform a canonicalized field carries: an explicit request for
/// stringification overrides everything; otherwise timestamps and
/// decimals get their implicit materializing transform.
pub open spec fn spec_transform_for(kind: Option<PrimitiveBase>, as_string: bool) -> Option<
    PrimitiveTransform,
> {
    if as_string {
        Some(PrimitiveTransform::Stringify)
    } else {
        match kind {
            Some(PrimitiveBase::Timestamp) => Some(PrimitiveTransform::TimestampToMillis),
            Some(PrimitiveBase::Decimal) => Some(PrimitiveTransform::DecimalToText),
            _ => None,
        }
    }
}

/// Whether a string holds exactly the given literal's characters.
fn name_is(s: &String, lit: &str) -> (r: bool)
    ensures
        r == (s@ == lit@),
{
    let other = String::from_str(lit);
    s.eq(&other)
}

fn base_kind(base: &RawType) -> (r: Option<PrimitiveBase>)
    ensures
        r == spec_base_kind(*base),
{
    if name_is(&base.name, "DateTime") && base.args.len() > 0 && name_is(&base.args[0].name, "Utc")
    {
        Some(PrimitiveBase::Timestamp)
    } else if name_is(&base.name, "String") {
        Some(PrimitiveBase::Text)
    } else if name_is(&base.name, "f64") {
        Some(PrimitiveBase::F64)
    } else if name_is(&base.name, "f32") {
        Some(PrimitiveBase::F32)
    } else if name_is(&base.name, "i8") {
        Some(PrimitiveBase::I8)
    } else if name_is(&base.name, "u8") {
        Some(PrimitiveBase::U8)
    } else if name_is(&base.name, "i16") {
        Some(PrimitiveBase::I16)
    } else if name_is(&base.name, "u16") {
        Some(PrimitiveBase::U16)
    } else if name_is(&base.name, "i64") || name_is(&base.name, "isize") {
        Some(PrimitiveBase::I64)
    } else if name_is(&base.name, "u64") || name_is(&base.name, "usize") {
        Some(PrimitiveBase::U64)
    } else if name_is(&base.name, "u32") {
        Some(PrimitiveBase::U32)
    } else if name_is(&base.name, "i32") {
        Some(PrimitiveBase::I32)
    } else if name_is(&base.name, "bool") {
        Some(PrimitiveBase::Bool)
    } else if name_is(&base.name, "Decimal") {
        Some(PrimitiveBase::Decimal)
    } else {
        None
    }
}

/// Canonicalizes one raw field type: peels `Option` and `Vec` layers in
/// declaration order until a non-wrapper node, rejects map-shaped bases,
/// resolves the base kind, and picks the transform. Fails exactly on
/// map-shaped bases.
pub fn analyze_type(ty: &RawType, as_string: bool) -> (r: Result<AnalyzedType, Error>)
    ensures
        r is Ok <==> spec_peel_base(*ty).name@ != "HashMap"@,
        r matches Ok(a) ==> {
            &&& a.wrappers@ == spec_peel_wrappers(*ty)
            &&& a.transform == spec_transform_for(spec_base_kind(spec_peel_base(*ty)), as_string)
            &&& (match spec_base_kind(spec_peel_base(*ty)) {
                Some(p) => a.base == BaseType::Primitive(p),
                None => a.base matches BaseType::Struct(n) && n@ == spec_peel_base(*ty).name@,
            })
        },
        r matches Err(e) ==> e is Shape,
    decreases *ty,
{
    let is_opt = name_is(&ty.name, "Option");
    let is_list = name_is(&ty.name, "Vec");
    if (is_opt || is_list) && ty.args.len() > 0 {
        proof {
            assert(decreases_to!(*ty => ty.args));
            assert(decreases_to!(ty.args => ty.args[0]));
            assert(decreases_to!(*ty => ty.args[0]));
        }
        match analyze_type(&ty.args[0], as_string) {
            Ok(inner) => {
                let mut wrappers = inner.wrappers;
                let w = if is_opt {
                    Wrapper::Optional
                } else {
                    Wrapper::List
                };
                wrappers.insert(0, w);
                proof {
                    assert(wrappers@ =~= seq![w] + spec_peel_wrappers(ty.args@[0]));
                }
                Ok(AnalyzedType { base: inner.base, wrappers, transform: inner.transform })
            },
            Err(e) => Err(e),
        }
    } else if name_is(&ty.name, "HashMap") {
        Err(Error::Shape { field: String::new() })
    } else {
        let kind = base_kind(ty);
        let transform = if as_string {
            Some(PrimitiveTransform::Stringify)
        } else {
            match kind {
                Some(PrimitiveBase::Timestamp) => Some(PrimitiveTransform::TimestampToMillis),
                Some(PrimitiveBase::Decimal) => Some(PrimitiveTransform::DecimalToText),
                _ => None,
            }
        };
        let base = match kind {
            Some(p) => BaseType::Primitive(p),
            None => BaseType::Struct(ty.name.clone()),
        };
        Ok(AnalyzedType { base, wrappers: Vec::new(), transform })
    }
}

} // verus!
