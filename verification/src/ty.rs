//! Checked types, the identifiers that index the type table, and the table
//! itself.
//!
//! A checked type never carries its own structure: a user-defined type, an
//! inline sum, a box, and a collection are each an index into one of the
//! tables of [`Types`]. The table's well-formedness predicate records what
//! interning guarantees about those tables (every index is in range, a
//! sum's members are distinct and already flattened, a box is interned after
//! its pointee, and a union member knows its own position in its union).
use vstd::prelude::*;
use crate::ast::TypeName;

verus! {

#[derive(Clone, Copy, Debug, PartialEq, Eq, Hash, PartialOrd, Ord, Structural)]
pub struct TypeId(pub u32);

#[derive(Clone, Copy, Debug, PartialEq, Eq, Hash, PartialOrd, Ord, Structural)]
pub struct SumId(pub u32);

#[derive(Clone, Copy, Debug, PartialEq, Eq, Hash, PartialOrd, Ord, Structural)]
pub struct BoxId(pub u32);

#[derive(Clone, Copy, Debug, PartialEq, Eq, Hash, PartialOrd, Ord, Structural)]
pub struct CollectionId(pub u32);

#[derive(Clone, Copy, Debug, PartialEq, Eq, Hash, PartialOrd, Ord, Structural)]
pub struct MethodId(pub u32);

impl TypeId {
    pub fn index(&self) -> (r: usize)
        ensures
            r == self.0,
    {
        self.0 as usize
    }
}

impl SumId {
    pub fn index(&self) -> (r: usize)
        ensures
            r == self.0,
    {
        self.0 as usize
    }
}

impl BoxId {
    pub fn index(&self) -> (r: usize)
        ensures
            r == self.0,
    {
        self.0 as usize
    }
}

impl CollectionId {
    pub fn index(&self) -> (r: usize)
        ensures
            r == self.0,
    {
        self.0 as usize
    }
}

impl MethodId {
    pub fn index(&self) -> (r: usize)
        ensures
            r == self.0,
    {
        self.0 as usize
    }
}

/// Every checked type. A user-defined type, an inline sum, a box, and a
/// collection are identified by an index into [`Types`]; their structure
/// lives there, never here.
#[derive(Clone, Copy, Debug, PartialEq, Eq, Hash, PartialOrd, Ord, Structural)]
pub enum Ty {
    Float64,
    Int64,
    Bool,
    Nil,
    String,
    Unicode,
    ViewByte,
    ViewUnicode,
    Array(CollectionId),
    List(CollectionId),
    View(CollectionId),
    MapOf(CollectionId),
    SetOf(CollectionId),
    Byte,
    UInt16,
    UInt32,
    UInt64,
    Float32,
    User(TypeId),
    Sum(SumId),
    Box(BoxId),
}

/// The checked type a built-in type name denotes.
pub open spec fn spec_ty_from_name(name: TypeName) -> Ty {
    match name {
        TypeName::Float64 => Ty::Float64,
        TypeName::Int64 => Ty::Int64,
        TypeName::Bool => Ty::Bool,
        TypeName::Nil => Ty::Nil,
        TypeName::String => Ty::String,
        TypeName::Unicode => Ty::Unicode,
        TypeName::Byte => Ty::Byte,
        TypeName::UInt16 => Ty::UInt16,
        TypeName::UInt32 => Ty::UInt32,
        TypeName::UInt64 => Ty::UInt64,
        TypeName::Float32 => Ty::Float32,
    }
}

impl From<TypeName> for Ty {
    fn from(value: TypeName) -> (r: Self) {
        match value {
            TypeName::Float64 => Ty::Float64,
            TypeName::Int64 => Ty::Int64,
            TypeName::Bool => Ty::Bool,
            TypeName::Nil => Ty::Nil,
            TypeName::String => Ty::String,
            TypeName::Unicode => Ty::Unicode,
            TypeName::Byte => Ty::Byte,
            TypeName::UInt16 => Ty::UInt16,
            TypeName::UInt32 => Ty::UInt32,
            TypeName::UInt64 => Ty::UInt64,
            TypeName::Float32 => Ty::Float32,
        }
    }
}

impl vstd::std_specs::convert::FromSpecImpl<TypeName> for Ty {
    open spec fn obeys_from_spec() -> bool {
        true
    }

    open spec fn from_spec(value: TypeName) -> Ty {
        spec_ty_from_name(value)
    }
}

/// One interned collection shape.
#[derive(Clone, Copy, Debug, PartialEq, Eq, Structural)]
pub enum CollectionDef {
    Array { elem: Ty, len: u64 },
    List { elem: Ty },
    View { elem: Ty },
    MapOf { key: Ty, value: Ty },
    SetOf { elem: Ty },
}

/// One resolved user-defined type.
#[derive(Clone, Debug)]
pub enum TypeDef {
    /// `type N is T`: one nominal layer over `target`.
    Represented { name: String, target: Ty },
    /// A struct, with its fields in declaration order.
    Struct { name: String, fields: Vec<(String, Ty)> },
    /// A named union, with its members in declaration order.
    Union { name: String, members: Vec<TypeId> },
    /// One alternative of a named union. `tag` is its declaration position
    /// in `union`'s member list; `nil` marks the special `Nil` member.
    UnionMember { name: String, union: TypeId, tag: u32, nil: bool, fields: Vec<(String, Ty)> },
}

impl TypeDef {
    pub open spec fn spec_fields(&self) -> Option<Seq<(String, Ty)>> {
        match self {
            TypeDef::Struct { fields, .. } => Some(fields@),
            TypeDef::UnionMember { fields, .. } => Some(fields@),
            _ => None,
        }
    }

    /// The declared fields of a struct or union member, `None` otherwise.
    pub fn fields(&self) -> (r: Option<&Vec<(String, Ty)>>)
        ensures
            match r {
                Some(f) => self.spec_fields() == Some(f@),
                None => self.spec_fields().is_none(),
            },
    {
        match self {
            TypeDef::Struct { fields, .. } => Some(fields),
            TypeDef::UnionMember { fields, .. } => Some(fields),
            _ => None,
        }
    }

    pub open spec fn spec_name(&self) -> String {
        match self {
            TypeDef::Represented { name, .. } => *name,
            TypeDef::Struct { name, .. } => *name,
            TypeDef::Union { name, .. } => *name,
            TypeDef::UnionMember { name, .. } => *name,
        }
    }

    pub fn name(&self) -> (r: &String)
        ensures
            *r == self.spec_name(),
    {
        match self {
            TypeDef::Represented { name, .. } => name,
            TypeDef::Struct { name, .. } => name,
            TypeDef::Union { name, .. } => name,
            TypeDef::UnionMember { name, .. } => name,
        }
    }
}

/// The type table: every user-defined type by `TypeId`, every inline sum's
/// member list by `SumId`, every box's pointee by `BoxId`, and every
/// collection shape by `CollectionId`.
pub struct Types {
    pub defs: Vec<TypeDef>,
    pub sums: Vec<Vec<Ty>>,
    pub boxes: Vec<Ty>,
    pub collections: Vec<CollectionDef>,
}

impl Types {
    /// Whether every index a type carries names an existing table entry.
    pub open spec fn valid_ty(&self, ty: Ty) -> bool {
        match ty {
            Ty::User(id) => id.0 < self.defs@.len(),
            Ty::Sum(id) => id.0 < self.sums@.len(),
            Ty::Box(id) => id.0 < self.boxes@.len(),
            Ty::Array(id) => id.0 < self.collections@.len(),
            Ty::List(id) => id.0 < self.collections@.len(),
            Ty::View(id) => id.0 < self.collections@.len(),
            Ty::MapOf(id) => id.0 < self.collections@.len(),
            Ty::SetOf(id) => id.0 < self.collections@.len(),
            _ => true,
        }
    }

    pub open spec fn sum_wf(&self, i: int) -> bool {
        let members = self.sums@[i]@;
        &&& forall|k: int| 0 <= k < members.len() ==> self.valid_ty(#[trigger] members[k])
        &&& forall|k: int| 0 <= k < members.len() ==> !(#[trigger] members[k] is Sum)
        &&& forall|k: int, l: int|
            0 <= k < members.len() && 0 <= l < members.len() && k != l ==> members[k]
                != members[l]
    }

    pub open spec fn box_wf(&self, i: int) -> bool {
        let pointee = self.boxes@[i];
        &&& self.valid_ty(pointee)
        &&& (pointee matches Ty::Box(inner) ==> inner.0 < i)
    }

    pub open spec fn collection_wf(&self, i: int) -> bool {
        match self.collections@[i] {
            CollectionDef::Array { elem, .. } => self.valid_ty(elem),
            CollectionDef::List { elem } => self.valid_ty(elem),
            CollectionDef::View { elem } => self.valid_ty(elem),
            CollectionDef::MapOf { key, value } => self.valid_ty(key) && self.valid_ty(value),
            CollectionDef::SetOf { elem } => self.valid_ty(elem),
        }
    }

    pub open spec fn def_wf(&self, i: int) -> bool {
        match self.defs@[i] {
            TypeDef::Represented { target, .. } => self.valid_ty(target),
            TypeDef::Struct { fields, .. } => forall|k: int|
                0 <= k < fields@.len() ==> self.valid_ty(#[trigger] fields@[k].1),
            TypeDef::Union { members, .. } => forall|k: int|
                0 <= k < members@.len() ==> {
                    let m = #[trigger] members@[k];
                    &&& m.0 < self.defs@.len()
                    &&& self.defs@[m.0 as int] matches TypeDef::UnionMember { union, tag, .. }
                    &&& union.0 == i
                    &&& tag == k
                },
            TypeDef::UnionMember { union, tag, fields, .. } => {
                &&& union.0 < self.defs@.len()
                &&& self.defs@[union.0 as int] matches TypeDef::Union { members, .. }
                &&& tag < members@.len()
                &&& members@[tag as int].0 == i
                &&& forall|k: int| 0 <= k < fields@.len() ==> self.valid_ty(#[trigger] fields@[k].1)
            },
        }
    }

    /// The interning invariant of the table.
    pub open spec fn wf(&self) -> bool {
        &&& forall|i: int| 0 <= i < self.sums@.len() ==> #[trigger] self.sum_wf(i)
        &&& forall|i: int| 0 <= i < self.boxes@.len() ==> #[trigger] self.box_wf(i)
        &&& forall|i: int| 0 <= i < self.collections@.len() ==> #[trigger] self.collection_wf(i)
        &&& forall|i: int| 0 <= i < self.defs@.len() ==> #[trigger] self.def_wf(i)
    }

    pub open spec fn spec_box_pointee(&self, id: BoxId) -> Ty {
        self.boxes@[id.0 as int]
    }

    /// A box's pointee type.
    pub fn box_pointee(&self, id: BoxId) -> (r: Ty)
        requires
            id.0 < self.boxes@.len(),
        ensures
            r == self.spec_box_pointee(id),
    {
        self.boxes[id.index()]
    }

    /// An inline sum's normalized member list.
    pub fn sum_members(&self, id: SumId) -> (r: &Vec<Ty>)
        requires
            id.0 < self.sums@.len(),
        ensures
            r@ == self.sums@[id.0 as int]@,
    {
        &self.sums[id.index()]
    }

    /// One interned collection shape.
    pub fn collection(&self, id: CollectionId) -> (r: &CollectionDef)
        requires
            id.0 < self.collections@.len(),
        ensures
            *r == self.collections@[id.0 as int],
    {
        &self.collections[id.index()]
    }

    /// One user-defined type.
    pub fn def(&self, id: TypeId) -> (r: &TypeDef)
        requires
            id.0 < self.defs@.len(),
        ensures
            *r == self.defs@[id.0 as int],
    {
        &self.defs[id.index()]
    }
}

} // verus!
