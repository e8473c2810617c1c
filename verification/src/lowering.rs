//! How checked types are classified for lowering: float and unsigned
//! scalars, scalar collection elements, bridge views, print imports,
//! string-concatenation part tags, union and inline-sum tags, and field
//! types along a place path.
use vstd::prelude::*;
use crate::places::{PlaceRoot, PlaceRootView};
use crate::symbols::{internal, internal_message};
use crate::ty::{SumId, Ty, TypeDef, TypeId, Types};

verus! {

/// The runtime tag of one scalar part of a string concatenation.
pub open spec fn spec_concat_part_tag(ty: Ty) -> Option<u64> {
    match ty {
        Ty::Int64 => Some(1),
        Ty::Byte => Some(2),
        Ty::UInt16 => Some(3),
        Ty::UInt32 => Some(4),
        Ty::UInt64 => Some(5),
        Ty::Float32 => Some(6),
        Ty::Float64 => Some(7),
        Ty::Bool => Some(8),
        Ty::Unicode => Some(9),
        _ => None,
    }
}

/// The tag the runtime's concatenation plan uses for a scalar part; any
/// other type is an internal error.
pub fn concat_part_tag(ty: Ty) -> (r: Result<u64, String>)
    ensures
        match r {
            Ok(tag) => spec_concat_part_tag(ty) == Some(tag),
            Err(e) => spec_concat_part_tag(ty) is None && e@ == internal_message(
                "unsupported scalar concatenation part"@,
            ),
        },
{
    match ty {
        Ty::Int64 => Ok(1),
        Ty::Byte => Ok(2),
        Ty::UInt16 => Ok(3),
        Ty::UInt32 => Ok(4),
        Ty::UInt64 => Ok(5),
        Ty::Float32 => Ok(6),
        Ty::Float64 => Ok(7),
        Ty::Bool => Ok(8),
        Ty::Unicode => Ok(9),
        _ => Err(internal("unsupported scalar concatenation part")),
    }
}

/// Distinct scalar parts carry distinct concatenation tags.
pub proof fn lemma_concat_part_tags_distinct(a: Ty, b: Ty)
    requires
        spec_concat_part_tag(a) is Some,
        spec_concat_part_tag(a) == spec_concat_part_tag(b),
    ensures
        a == b,
{
}

/// Whether a type is lowered as a floating-point value.
pub fn is_float(ty: Ty) -> (r: bool)
    ensures
        r == (ty == Ty::Float64 || ty == Ty::Float32),
{
    match ty {
        Ty::Float64 | Ty::Float32 => true,
        Ty::Int64 | Ty::Byte | Ty::UInt16 | Ty::UInt32 | Ty::UInt64 | Ty::Bool | Ty::Nil | Ty::User(
            _,
        )
        | Ty::Sum(_) | Ty::Box(_) => false,
        Ty::String | Ty::Unicode | Ty::ViewByte | Ty::ViewUnicode | Ty::Array(_) | Ty::List(_)
        | Ty::View(_) | Ty::MapOf(_) | Ty::SetOf(_) => false,
    }
}

/// Whether an integer type's division and ordering are unsigned.
pub fn is_unsigned(ty: Ty) -> (r: bool)
    ensures
        r == (ty == Ty::Byte || ty == Ty::UInt16 || ty == Ty::UInt32 || ty == Ty::UInt64 || ty
            == Ty::Unicode),
{
    match ty {
        Ty::Byte | Ty::UInt16 | Ty::UInt32 | Ty::UInt64 => true,
        Ty::Int64 | Ty::Float64 | Ty::Float32 | Ty::Bool | Ty::Nil | Ty::User(_) | Ty::Sum(_)
        | Ty::Box(_) => false,
        Ty::String | Ty::ViewByte | Ty::ViewUnicode => false,
        Ty::Unicode => true,
        Ty::Array(_) | Ty::List(_) | Ty::View(_) | Ty::MapOf(_) | Ty::SetOf(_) => false,
    }
}

pub open spec fn spec_is_scalar_collection_element(ty: Ty) -> bool {
    ty == Ty::Int64 || ty == Ty::Byte || ty == Ty::UInt16 || ty == Ty::UInt32 || ty == Ty::UInt64
        || ty == Ty::Float32 || ty == Ty::Float64 || ty == Ty::Bool || ty == Ty::Unicode
}

/// Whether a collection element is stored as a scalar of its own width.
pub fn is_scalar_collection_element(ty: Ty) -> (r: bool)
    ensures
        r == spec_is_scalar_collection_element(ty),
{
    matches!(
        ty,
        Ty::Int64 | Ty::Byte | Ty::UInt16 | Ty::UInt32 | Ty::UInt64 | Ty::Float32 | Ty::Float64
            | Ty::Bool | Ty::Unicode
    )
}

/// A scalar collection element is exactly a scalar with a concatenation
/// tag: the two classifications agree.
pub proof fn lemma_scalar_element_has_concat_tag(ty: Ty)
    ensures
        spec_is_scalar_collection_element(ty) <==> spec_concat_part_tag(ty) is Some,
{
}

/// Whether a bridge parameter of this type is passed as a pointer/length
/// pair.
pub fn is_bridge_view_ty(ty: Ty) -> (r: bool)
    ensures
        r == (ty is ViewByte || ty is ViewUnicode || ty is View),
{
    matches!(ty, Ty::ViewByte | Ty::ViewUnicode | Ty::View(_))
}

/// The environment key for a place root. `self` is a reserved word, so the
/// receiver never collides with a declared local.
pub fn root_name(root: &PlaceRoot) -> (r: &str)
    ensures
        r@ == match root@ {
            PlaceRootView::Local(name) => name,
            PlaceRootView::SelfRef => "self"@,
        },
{
    match root {
        PlaceRoot::Local(name) => name.as_str(),
        PlaceRoot::SelfRef => "self",
    }
}

/// The runtime import that prints one value of `ty`, or the internal error
/// for a type the checker never lets reach `print`.
pub open spec fn spec_print_symbol(ty: Ty) -> Result<Seq<char>, Seq<char>> {
    match ty {
        Ty::Float64 => Ok("snacc_print_f64"@),
        Ty::Float32 => Ok("snacc_print_f32"@),
        Ty::Int64 => Ok("snacc_print_i64"@),
        Ty::Byte => Ok("snacc_print_u8"@),
        Ty::UInt16 => Ok("snacc_print_u16"@),
        Ty::UInt32 => Ok("snacc_print_u32"@),
        Ty::UInt64 => Ok("snacc_print_u64"@),
        Ty::Bool => Ok("snacc_print_bool"@),
        Ty::String => Ok("snacc_print_string_ptr"@),
        Ty::Unicode => Ok("snacc_print_unicode"@),
        Ty::ViewUnicode => Ok("snacc_print_unicode_view"@),
        Ty::User(_) => Err("a user-defined type reached 'print' lowering"@),
        Ty::Nil => Err("a standalone 'Nil' reached 'print' lowering"@),
        Ty::Sum(_) => Err("an inline sum type reached 'print' lowering"@),
        Ty::Box(_) => Err("a box type reached 'print' lowering"@),
        Ty::ViewByte => Err("a byte view reached 'print' lowering"@),
        _ => Err("a collection reached 'print' lowering"@),
    }
}

/// The print import's symbol; a `String` is passed by pointer, every other
/// printable value by its scalar type.
pub fn print_symbol(ty: Ty) -> (r: Result<&'static str, String>)
    ensures
        match r {
            Ok(s) => spec_print_symbol(ty) == Ok::<Seq<char>, Seq<char>>(s@),
            Err(e) => spec_print_symbol(ty) matches Err(m) && e@ == internal_message(m),
        },
{
    match ty {
        Ty::Float64 => Ok("snacc_print_f64"),
        Ty::Float32 => Ok("snacc_print_f32"),
        Ty::Int64 => Ok("snacc_print_i64"),
        Ty::Byte => Ok("snacc_print_u8"),
        Ty::UInt16 => Ok("snacc_print_u16"),
        Ty::UInt32 => Ok("snacc_print_u32"),
        Ty::UInt64 => Ok("snacc_print_u64"),
        Ty::Bool => Ok("snacc_print_bool"),
        Ty::String => Ok("snacc_print_string_ptr"),
        Ty::Unicode => Ok("snacc_print_unicode"),
        Ty::ViewUnicode => Ok("snacc_print_unicode_view"),
        Ty::User(_) => Err(internal("a user-defined type reached 'print' lowering")),
        Ty::Nil => Err(internal("a standalone 'Nil' reached 'print' lowering")),
        Ty::Sum(_) => Err(internal("an inline sum type reached 'print' lowering")),
        Ty::Box(_) => Err(internal("a box type reached 'print' lowering")),
        Ty::ViewByte => Err(internal("a byte view reached 'print' lowering")),
        Ty::Array(_) | Ty::List(_) | Ty::View(_) | Ty::MapOf(_) | Ty::SetOf(_) => Err(
            internal("a collection reached 'print' lowering"),
        ),
    }
}

/// A union member's deterministic source-order tag.
pub fn member_tag(types: &Types, member: TypeId) -> (r: Result<u32, String>)
    requires
        member.0 < types.defs@.len(),
    ensures
        match types.defs@[member.0 as int] {
            TypeDef::UnionMember { tag, .. } => r == Ok::<u32, String>(tag),
            _ => r matches Err(e) && e@ == internal_message(
                "injection named a type that is not a union member"@,
            ),
        },
{
    match types.def(member) {
        TypeDef::UnionMember { tag, .. } => Ok(*tag),
        _ => Err(internal("injection named a type that is not a union member")),
    }
}

/// In a well-formed table a union member's tag is its position in its
/// union's member list.
pub proof fn lemma_member_tag_is_position(types: &Types, member: TypeId)
    requires
        types.wf(),
        member.0 < types.defs@.len(),
        types.defs@[member.0 as int] is UnionMember,
    ensures
        ({
            let union = types.defs@[member.0 as int]->UnionMember_union;
            let tag = types.defs@[member.0 as int]->UnionMember_tag;
            &&& types.defs@[union.0 as int] is Union
            &&& types.defs@[union.0 as int]->Union_members@[tag as int] == member
        }),
{
    assert(types.def_wf(member.0 as int));
}

/// An inline sum member's deterministic tag: its position in the sum's
/// canonical member list.
pub fn sum_member_tag(types: &Types, sum: SumId, member: Ty) -> (r: Result<u32, String>)
    requires
        sum.0 < types.sums@.len(),
    ensures
        ({
            let members = types.sums@[sum.0 as int]@;
            match r {
                Ok(tag) => exists|i: int|
                    0 <= i < members.len() && members[i] == member && tag == i as u32 && forall|
                        j: int,
                    |
                        0 <= j < i ==> members[j] != member,
                Err(e) => !members.contains(member) && e@ == internal_message(
                    "a sum type test or injection named a type that is not a member of the sum"@,
                ),
            }
        }),
{
    let members = types.sum_members(sum);
    let mut i: usize = 0;
    while i < members.len()
        invariant
            members@ == types.sums@[sum.0 as int]@,
            i <= members@.len(),
            forall|j: int| 0 <= j < i ==> members@[j] != member,
        decreases members.len() - i,
    {
        if members[i] == member {
            return Ok(i as u32);
        }
        i = i + 1;
    }
    Err(
        internal("a sum type test or injection named a type that is not a member of the sum"),
    )
}

/// In a well-formed table distinct members of one sum get distinct tags
/// (for sums of at most `u32::MAX` members).
pub proof fn lemma_sum_member_tags_distinct(types: &Types, sum: SumId, i: int, j: int)
    requires
        types.wf(),
        sum.0 < types.sums@.len(),
        0 <= i < types.sums@[sum.0 as int]@.len(),
        0 <= j < types.sums@[sum.0 as int]@.len(),
        i != j,
    ensures
        types.sums@[sum.0 as int]@[i] != types.sums@[sum.0 as int]@[j],
{
    assert(types.sum_wf(sum.0 as int));
}

/// The declared type of one field of a struct or union-member type.
pub fn field_ty(types: &Types, ty: Ty, index: usize) -> (r: Result<Ty, String>)
    requires
        types.valid_ty(ty),
    ensures
        match ty {
            Ty::User(id) => match types.defs@[id.0 as int].spec_fields() {
                Some(fields) => if index < fields.len() {
                    r == Ok::<Ty, String>(fields[index as int].1)
                } else {
                    r matches Err(e) && e@ == internal_message(
                        "a field path selected a field that does not exist"@,
                    )
                },
                None => r matches Err(e) && e@ == internal_message(
                    "a field path selected a field that does not exist"@,
                ),
            },
            _ => r matches Err(e) && e@ == internal_message("a field path reached a built-in type"@),
        },
{
    let id = match ty {
        Ty::User(id) => id,
        _ => return Err(internal("a field path reached a built-in type")),
    };
    match types.def(id).fields() {
        Some(fields) => if index < fields.len() {
            Ok(fields[index].1)
        } else {
            Err(internal("a field path selected a field that does not exist"))
        },
        None => Err(internal("a field path selected a field that does not exist")),
    }
}

} // verus!
