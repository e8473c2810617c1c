//! Which values are move-only: a box, a `String`, a list, a map, or a set
//! owns an allocation, and any aggregate that holds one by value (a struct
//! field, a union member, an inline-sum member, or an array element) is
//! move-only too.
use vstd::prelude::*;
use crate::ty::{CollectionDef, Ty, TypeDef, TypeId, Types};

verus! {

impl Types {
    /// The types a value of `ty` holds by value, where ownership looks
    /// through them: fields, union members, sum members, array elements.
    pub open spec fn held_by_value(&self, ty: Ty) -> Seq<Ty> {
        match ty {
            Ty::User(id) => if id.0 < self.defs@.len() {
                match self.defs@[id.0 as int] {
                    TypeDef::Represented { target, .. } => seq![target],
                    TypeDef::Struct { fields, .. } => fields@.map_values(|f: (String, Ty)| f.1),
                    TypeDef::UnionMember { fields, .. } => fields@.map_values(|f: (String, Ty)| f.1),
                    TypeDef::Union { members, .. } => members@.map_values(|m: TypeId| Ty::User(m)),
                }
            } else {
                Seq::empty()
            },
            Ty::Sum(id) => if id.0 < self.sums@.len() {
                self.sums@[id.0 as int]@
            } else {
                Seq::empty()
            },
            Ty::Array(id) => if id.0 < self.collections@.len() {
                match self.collections@[id.0 as int] {
                    CollectionDef::Array { elem, .. } => seq![elem],
                    _ => Seq::empty(),
                }
            } else {
                Seq::empty()
            },
            _ => Seq::empty(),
        }
    }

    /// `rank` strictly decreases from every type to what it holds by value:
    /// no type holds itself by value, however indirectly.
    pub open spec fn ranked_by(&self, rank: spec_fn(Ty) -> nat) -> bool {
        forall|ty: Ty, i: int|
            0 <= i < self.held_by_value(ty).len() ==> rank(#[trigger] self.held_by_value(ty)[i])
                < rank(ty)
    }

    /// Every value layout is finite: by-value containment is well founded.
    pub open spec fn layout_finite(&self) -> bool {
        exists|rank: spec_fn(Ty) -> nat| self.ranked_by(rank)
    }

    /// A ranking witnessing that every value layout is finite.
    pub open spec fn layout_rank(&self) -> spec_fn(Ty) -> nat {
        choose|rank: spec_fn(Ty) -> nat| self.ranked_by(rank)
    }

    /// Whether a value of `ty` is move-only: it owns an allocation itself or
    /// holds a move-only value by value.
    pub open spec fn spec_is_move_only(&self, ty: Ty) -> bool
        decreases self.layout_rank()(ty),
    {
        match ty {
            Ty::Box(_) | Ty::String | Ty::List(_) | Ty::MapOf(_) | Ty::SetOf(_) => true,
            _ => exists|i: int|
                0 <= i < self.held_by_value(ty).len() && self.layout_rank()(
                    self.held_by_value(ty)[i],
                ) < self.layout_rank()(ty) && self.spec_is_move_only(
                    #[trigger] self.held_by_value(ty)[i],
                ),
        }
    }
}

/// Whether a value of `ty` is move-only. Every value layout being finite
/// guarantees the walk through held types ends.
pub fn is_move_only(types: &Types, ty: Ty) -> (r: bool)
    requires
        types.layout_finite(),
        types.valid_ty(ty),
        types.wf(),
    ensures
        r == types.spec_is_move_only(ty),
    decreases types.layout_rank()(ty),
{
    let ghost rank = types.layout_rank();
    proof {
        assert(types.ranked_by(rank));
    }
    match ty {
        Ty::Box(_) | Ty::String | Ty::List(_) | Ty::MapOf(_) | Ty::SetOf(_) => true,
        Ty::Array(id) => match types.collection(id) {
            CollectionDef::Array { elem, .. } => {
                proof {
                    assert(types.collection_wf(id.0 as int));
                    assert(types.held_by_value(ty)[0] == *elem);
                }
                let r = is_move_only(types, *elem);
                proof {
                    if types.spec_is_move_only(ty) {
                        let i = choose|i: int|
                            0 <= i < types.held_by_value(ty).len() && rank(types.held_by_value(ty)[i])
                                < rank(ty) && types.spec_is_move_only(
                                #[trigger] types.held_by_value(ty)[i],
                            );
                        assert(i == 0);
                    }
                }
                r
            },
            _ => false,
        },
        Ty::User(id) => match types.def(id) {
            TypeDef::Represented { target, .. } => {
                proof {
                    assert(types.def_wf(id.0 as int));
                    assert(types.held_by_value(ty)[0] == *target);
                }
                let r = is_move_only(types, *target);
                proof {
                    if types.spec_is_move_only(ty) {
                        let i = choose|i: int|
                            0 <= i < types.held_by_value(ty).len() && rank(types.held_by_value(ty)[i])
                                < rank(ty) && types.spec_is_move_only(
                                #[trigger] types.held_by_value(ty)[i],
                            );
                        assert(i == 0);
                    }
                }
                r
            },
            TypeDef::Struct { fields, .. } | TypeDef::UnionMember { fields, .. } => {
                proof {
                    assert(types.def_wf(id.0 as int));
                }
                let mut k: usize = 0;
                while k < fields.len()
                    invariant
                        types.layout_finite(),
                        types.wf(),
                        rank == types.layout_rank(),
                        types.ranked_by(rank),
                        types.held_by_value(ty) == fields@.map_values(|f: (String, Ty)| f.1),
                        forall|j: int| 0 <= j < fields@.len() ==> types.valid_ty(#[trigger] fields@[j].1),
                        k <= fields@.len(),
                        forall|j: int|
                            0 <= j < k ==> !types.spec_is_move_only(#[trigger] types.held_by_value(ty)[j]),
                    decreases fields.len() - k,
                {
                    assert(types.held_by_value(ty)[k as int] == fields@[k as int].1);
                    if is_move_only(types, fields[k].1) {
                        return true;
                    }
                    k = k + 1;
                }
                false
            },
            TypeDef::Union { members, .. } => {
                proof {
                    assert(types.def_wf(id.0 as int));
                }
                let mut k: usize = 0;
                while k < members.len()
                    invariant
                        types.layout_finite(),
                        types.wf(),
                        rank == types.layout_rank(),
                        types.ranked_by(rank),
                        types.held_by_value(ty) == members@.map_values(|m: TypeId| Ty::User(m)),
                        forall|j: int| 0 <= j < members@.len() ==> (#[trigger] members@[j]).0 < types.defs@.len(),
                        k <= members@.len(),
                        forall|j: int|
                            0 <= j < k ==> !types.spec_is_move_only(#[trigger] types.held_by_value(ty)[j]),
                    decreases members.len() - k,
                {
                    assert(types.held_by_value(ty)[k as int] == Ty::User(members@[k as int]));
                    if is_move_only(types, Ty::User(members[k])) {
                        return true;
                    }
                    k = k + 1;
                }
                false
            },
        },
        Ty::Sum(id) => {
            let members = types.sum_members(id);
            proof {
                assert(types.sum_wf(id.0 as int));
            }
            let mut k: usize = 0;
            while k < members.len()
                invariant
                    types.layout_finite(),
                    types.wf(),
                    rank == types.layout_rank(),
                    types.ranked_by(rank),
                    types.held_by_value(ty) == members@,
                    forall|j: int| 0 <= j < members@.len() ==> types.valid_ty(#[trigger] members@[j]),
                    k <= members@.len(),
                    forall|j: int|
                        0 <= j < k ==> !types.spec_is_move_only(#[trigger] types.held_by_value(ty)[j]),
                decreases members.len() - k,
            {
                if is_move_only(types, members[k]) {
                    return true;
                }
                k = k + 1;
            }
            false
        },
        _ => false,
    }
}

} // verus!
