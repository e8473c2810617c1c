//! Numeric operand rules and assignability (implicit conversion, union
//! injection, and inline-sum injection).
use vstd::prelude::*;
use crate::ast::Span;
use crate::checked::{Error, TExpr};
use crate::generics::{Diagnostics, diagnostics};
use crate::names::{display_depth, mismatch, mismatch_message, spec_display};
use crate::moves::{Binding, consume_effect, consume_moves, consumed, mark_consumed};
use crate::places::{MoveState, Place, UseMode, ViewBorrow, copy_place};
use crate::ty::{CollectionDef, SumId, Ty, TypeDef, TypeId, Types};
use crate::text::str_eq;

verus! {

/// The two types the one implicit numeric conversion joins.
pub open spec fn spec_numeric(ty: Ty) -> bool {
    ty == Ty::Float64 || ty == Ty::Int64
}

/// Numeric types that combine only on an exact type match.
pub open spec fn spec_exact_match_numeric(ty: Ty) -> bool {
    ty == Ty::Byte || ty == Ty::UInt16 || ty == Ty::UInt32 || ty == Ty::UInt64 || ty == Ty::Float32
}

pub open spec fn spec_common_numeric(left: Ty, right: Ty) -> Option<Ty> {
    if !spec_numeric(left) || !spec_numeric(right) {
        None
    } else if left == Ty::Float64 || right == Ty::Float64 {
        Some(Ty::Float64)
    } else {
        Some(Ty::Int64)
    }
}

pub open spec fn spec_operand_numeric(left: Ty, right: Ty) -> Option<Ty> {
    match spec_common_numeric(left, right) {
        Some(t) => Some(t),
        None => if left == right && spec_exact_match_numeric(left) {
            Some(left)
        } else {
            None
        },
    }
}

/// The one implicit scalar conversion: `Int64` to `Float64`.
pub open spec fn spec_implicit_conversion_target(from: Ty, to: Ty) -> bool {
    from == Ty::Int64 && to == Ty::Float64
}

pub fn numeric(ty: Ty) -> (r: bool)
    ensures
        r == spec_numeric(ty),
{
    matches!(ty, Ty::Float64 | Ty::Int64)
}

pub fn exact_match_numeric(ty: Ty) -> (r: bool)
    ensures
        r == spec_exact_match_numeric(ty),
{
    matches!(ty, Ty::Byte | Ty::UInt16 | Ty::UInt32 | Ty::UInt64 | Ty::Float32)
}

/// The common type of two operands under the implicit `Int64`-to-`Float64`
/// widening, or `None` unless both are `Int64` or `Float64`.
pub fn common_numeric(left: Ty, right: Ty) -> (r: Option<Ty>)
    ensures
        r == spec_common_numeric(left, right),
{
    if !numeric(left) || !numeric(right) {
        return None;
    }
    Some(
        if left == Ty::Float64 || right == Ty::Float64 {
            Ty::Float64
        } else {
            Ty::Int64
        },
    )
}

/// The type an arithmetic or ordered-comparison operand pair shares, or
/// `None` when the operands cannot be combined at all.
pub fn operand_numeric(left: Ty, right: Ty) -> (r: Option<Ty>)
    ensures
        r == spec_operand_numeric(left, right),
{
    match common_numeric(left, right) {
        Some(t) => Some(t),
        None => if left == right && exact_match_numeric(left) {
            Some(left)
        } else {
            None
        },
    }
}

pub fn implicit_conversion_target(from: Ty, to: Ty) -> (r: bool)
    ensures
        r == spec_implicit_conversion_target(from, to),
{
    from == Ty::Int64 && to == Ty::Float64
}

/// Operand combination does not depend on operand order.
pub proof fn lemma_operand_numeric_symmetric(left: Ty, right: Ty)
    ensures
        spec_common_numeric(left, right) == spec_common_numeric(right, left),
        spec_operand_numeric(left, right) == spec_operand_numeric(right, left),
{
}

/// Two operands combine exactly when they are both `Int64`/`Float64` or are
/// the same exact-match numeric type; the shared type is always one of them.
pub proof fn lemma_operand_numeric_shape(left: Ty, right: Ty)
    ensures
        spec_operand_numeric(left, right) is Some <==> ((spec_numeric(left) && spec_numeric(right))
            || (left == right && spec_exact_match_numeric(left))),
        spec_operand_numeric(left, right) matches Some(t) ==> (t == left || t == right),
        spec_operand_numeric(left, left) matches Some(t) ==> t == left,
{
}

/// Members of an inline sum that `from` reaches through the implicit
/// conversion, in member order.
pub open spec fn conversion_candidates(from: Ty, members: Seq<Ty>) -> Seq<Ty>
    decreases members.len(),
{
    if members.len() == 0 {
        Seq::empty()
    } else {
        let rest = conversion_candidates(from, members.drop_last());
        if spec_implicit_conversion_target(from, members.last()) {
            rest.push(members.last())
        } else {
            rest
        }
    }
}

impl Types {
    /// The union that directly contains `member`, if `member` is a union
    /// member.
    pub open spec fn spec_containing_union(&self, member: TypeId) -> Option<TypeId> {
        match self.defs@[member.0 as int] {
            TypeDef::UnionMember { union, .. } => Some(union),
            _ => None,
        }
    }

    pub fn containing_union(&self, member: TypeId) -> (r: Option<TypeId>)
        requires
            member.0 < self.defs@.len(),
        ensures
            r == self.spec_containing_union(member),
    {
        match self.def(member) {
            TypeDef::UnionMember { union, .. } => Some(*union),
            _ => None,
        }
    }

    /// The members of a named union, `None` for any other type.
    pub open spec fn spec_union_members(&self, id: TypeId) -> Option<Seq<TypeId>> {
        match self.defs@[id.0 as int] {
            TypeDef::Union { members, .. } => Some(members@),
            _ => None,
        }
    }

    pub fn union_members(&self, id: TypeId) -> (r: Option<&Vec<TypeId>>)
        requires
            id.0 < self.defs@.len(),
        ensures
            match r {
                Some(m) => self.spec_union_members(id) == Some(m@),
                None => self.spec_union_members(id).is_none(),
            },
    {
        match self.def(id) {
            TypeDef::Union { members, .. } => Some(members),
            _ => None,
        }
    }

    /// Whether `member` of `union` is named `name`.
    pub open spec fn member_named(&self, member: TypeId, name: Seq<char>) -> bool {
        member.0 < self.defs@.len() && self.defs@[member.0 as int].spec_name()@ == name
    }

    /// The first member of union `union` named `name`; `None` when `union`
    /// is not a union or has no such member.
    pub open spec fn spec_member(&self, union: TypeId, name: Seq<char>) -> Option<TypeId> {
        match self.spec_union_members(union) {
            Some(members) => if exists|k: int|
                0 <= k < members.len() && self.member_named(#[trigger] members[k], name)
                    && forall|j: int| 0 <= j < k ==> !self.member_named(#[trigger] members[j], name) {
                let k = choose|k: int|
                    0 <= k < members.len() && self.member_named(#[trigger] members[k], name)
                        && forall|j: int| 0 <= j < k ==> !self.member_named(#[trigger] members[j], name);
                Some(members[k])
            } else {
                None
            },
            None => None,
        }
    }

    pub fn member(&self, union: TypeId, name: &str) -> (r: Option<TypeId>)
        requires
            self.wf(),
            union.0 < self.defs@.len(),
        ensures
            r == self.spec_member(union, name@),
    {
        let members = match self.union_members(union) {
            Some(members) => members,
            None => return None,
        };
        proof {
            assert(self.def_wf(union.0 as int));
        }
        let mut i: usize = 0;
        while i < members.len()
            invariant
                self.wf(),
                union.0 < self.defs@.len(),
                self.spec_union_members(union) == Some(members@),
                self.def_wf(union.0 as int),
                i <= members@.len(),
                forall|j: int| 0 <= j < i ==> !self.member_named(#[trigger] members@[j], name@),
            decreases members.len() - i,
        {
            let m = members[i];
            assert(m.0 < self.defs@.len());
            if str_eq(self.def(m).name().as_str(), name) {
                proof {
                    assert(self.member_named(members@[i as int], name@));
                    let k = choose|k: int|
                        0 <= k < members@.len() && self.member_named(#[trigger] members@[k], name@)
                            && forall|j: int|
                            0 <= j < k ==> !self.member_named(#[trigger] members@[j], name@);
                    if k < i {
                    } else if k > i {
                        assert(!self.member_named(members@[i as int], name@));
                    }
                }
                return Some(m);
            }
            i = i + 1;
        }
        None
    }
}

/// How a checked value of type `from` becomes a value of type `to`.
#[derive(Clone, Copy, Debug, PartialEq, Eq, Structural)]
pub enum Coercion {
    /// The types already agree.
    Same,
    /// A named `String` place is lent as a text view.
    LendStringView,
    /// A text view was requested from a `String` that has no place; rejected.
    TemporaryStringView,
    /// `Int64` widens to `Float64`.
    WidenToFloat,
    /// A direct union member is injected into its union.
    InjectMember { member: TypeId, into_union: TypeId },
    /// `nil` selects the `Nil` member of the expected union.
    InjectNil { member: TypeId, into_union: TypeId },
    /// The value's type is itself a member of the expected inline sum.
    InjectSum { sum: SumId, member: Ty },
    /// The value converts implicitly into exactly one member of the sum,
    /// which then receives it.
    ConvertIntoSum { sum: SumId, member: Ty },
    /// The value converts into more than one member of the sum; rejected.
    AmbiguousSumConversion,
    /// No rule applies; rejected as a type mismatch.
    Mismatch,
}

/// Assignability, in rule order: identity, lending a `String` place as a
/// text view, `Int64`-to-`Float64` widening, direct union-member injection,
/// the contextual `nil` of a union's `Nil` member, an exact inline-sum
/// member, and finally exactly one implicit conversion into a sum member.
pub open spec fn spec_coercion(types: &Types, from: Ty, to: Ty, from_place: bool) -> Coercion {
    if from == to {
        Coercion::Same
    } else if from == Ty::String && (to == Ty::ViewByte || to == Ty::ViewUnicode) {
        if from_place {
            Coercion::LendStringView
        } else {
            Coercion::TemporaryStringView
        }
    } else if from == Ty::Int64 && to == Ty::Float64 {
        Coercion::WidenToFloat
    } else if to is User && from is User && types.spec_containing_union(from->User_0) == Some(
        to->User_0,
    ) {
        Coercion::InjectMember { member: from->User_0, into_union: to->User_0 }
    } else if to is User && from == Ty::Nil && types.spec_member(to->User_0, seq!['N', 'i', 'l'])
        is Some {
        Coercion::InjectNil {
            member: types.spec_member(to->User_0, seq!['N', 'i', 'l'])->Some_0,
            into_union: to->User_0,
        }
    } else if to is Sum && types.sums@[to->Sum_0.0 as int]@.contains(from) {
        Coercion::InjectSum { sum: to->Sum_0, member: from }
    } else if to is Sum {
        let candidates = conversion_candidates(from, types.sums@[to->Sum_0.0 as int]@);
        if candidates.len() == 1 {
            Coercion::ConvertIntoSum { sum: to->Sum_0, member: candidates[0] }
        } else if candidates.len() == 0 {
            Coercion::Mismatch
        } else {
            Coercion::AmbiguousSumConversion
        }
    } else {
        Coercion::Mismatch
    }
}

/// Decides how a value of type `from` (a named place when `from_place`)
/// is made assignable to `to`.
#[verifier::loop_isolation(false)]
pub fn coercion(types: &Types, from: Ty, to: Ty, from_place: bool) -> (r: Coercion)
    requires
        types.wf(),
        types.valid_ty(from),
        types.valid_ty(to),
    ensures
        r == spec_coercion(types, from, to, from_place),
{
    if from == to {
        return Coercion::Same;
    }
    if from == Ty::String && (to == Ty::ViewByte || to == Ty::ViewUnicode) {
        if from_place {
            return Coercion::LendStringView;
        }
        return Coercion::TemporaryStringView;
    }
    if from == Ty::Int64 && to == Ty::Float64 {
        return Coercion::WidenToFloat;
    }
    if let Ty::User(union) = to {
        if let Ty::User(member) = from {
            if types.containing_union(member) == Some(union) {
                return Coercion::InjectMember { member, into_union: union };
            }
        }
        if from == Ty::Nil {
            let nil = types.member(union, "Nil");
            proof {
                reveal_strlit("Nil");
                assert("Nil"@ =~= seq!['N', 'i', 'l']);
            }
            if let Some(member) = nil {
                return Coercion::InjectNil { member, into_union: union };
            }
        }
    }
    if let Ty::Sum(sum) = to {
        let members = types.sum_members(sum);
        let mut i: usize = 0;
        while i < members.len()
            invariant
                sum.0 < types.sums@.len(),
                members@ == types.sums@[sum.0 as int]@,
                i <= members@.len(),
                forall|j: int| 0 <= j < i ==> members@[j] != from,
            decreases members.len() - i,
        {
            if members[i] == from {
                assert(members@[i as int] == from);
                return Coercion::InjectSum { sum, member: from };
            }
            i = i + 1;
        }
        assert(!members@.contains(from));
        let mut candidates: Vec<Ty> = Vec::new();
        let mut i: usize = 0;
        while i < members.len()
            invariant
                sum.0 < types.sums@.len(),
                members@ == types.sums@[sum.0 as int]@,
                i <= members@.len(),
                candidates@ == conversion_candidates(from, members@.take(i as int)),
            decreases members.len() - i,
        {
            proof {
                assert(members@.take(i + 1).drop_last() =~= members@.take(i as int));
            }
            if implicit_conversion_target(from, members[i]) {
                candidates.push(members[i]);
            }
            i = i + 1;
        }
        proof {
            assert(members@.take(members@.len() as int) =~= members@);
        }
        if candidates.len() == 1 {
            return Coercion::ConvertIntoSum { sum, member: candidates[0] };
        } else if candidates.len() == 0 {
            return Coercion::Mismatch;
        } else {
            return Coercion::AmbiguousSumConversion;
        }
    }
    Coercion::Mismatch
}

proof fn lemma_candidates_are_float(from: Ty, members: Seq<Ty>)
    ensures
        forall|k: int|
            0 <= k < conversion_candidates(from, members).len() ==> #[trigger] conversion_candidates(
                from,
                members,
            )[k] == Ty::Float64 && from == Ty::Int64,
        conversion_candidates(from, members).len() > 0 ==> members.contains(Ty::Float64),
    decreases members.len(),
{
    if members.len() > 0 {
        lemma_candidates_are_float(from, members.drop_last());
        if conversion_candidates(from, members.drop_last()).len() > 0 {
            let k = choose|k: int| 0 <= k < members.drop_last().len() && members.drop_last()[k] == Ty::Float64;
            assert(members[k] == Ty::Float64);
        }
        if spec_implicit_conversion_target(from, members.last()) {
            assert(members[members.len() - 1] == Ty::Float64);
        }
    }
}

proof fn lemma_candidates_of_distinct(from: Ty, members: Seq<Ty>)
    requires
        forall|k: int, l: int|
            0 <= k < members.len() && 0 <= l < members.len() && k != l ==> members[k] != members[l],
    ensures
        conversion_candidates(from, members).len() <= 1,
    decreases members.len(),
{
    if members.len() > 0 {
        let rest = members.drop_last();
        lemma_candidates_of_distinct(from, rest);
        lemma_candidates_are_float(from, rest);
        if spec_implicit_conversion_target(from, members.last()) && conversion_candidates(
            from,
            rest,
        ).len() > 0 {
            let k = choose|k: int| 0 <= k < rest.len() && rest[k] == Ty::Float64;
            assert(members[k] == members[members.len() - 1]);
        }
    }
}

/// In a well-formed table a sum's members are distinct, so a value never
/// converts into more than one of them: the ambiguity outcome is reserved
/// for tables that break the interning invariant.
pub proof fn lemma_coercion_never_ambiguous(types: &Types, from: Ty, to: Ty, from_place: bool)
    requires
        types.wf(),
        types.valid_ty(to),
    ensures
        spec_coercion(types, from, to, from_place) != Coercion::AmbiguousSumConversion,
{
    if let Ty::Sum(sum) = to {
        assert(types.sum_wf(sum.0 as int));
        lemma_candidates_of_distinct(from, types.sums@[sum.0 as int]@);
    }
}

/// A value always coerces to its own type without any conversion.
pub proof fn lemma_coercion_reflexive(types: &Types, ty: Ty, from_place: bool)
    ensures
        spec_coercion(types, ty, ty, from_place) == Coercion::Same,
{
}

/// Coercing a value to its own type changes nothing: the value comes back
/// as it was and no diagnostic is added, whatever the table holds.
pub proof fn lemma_coerce_to_same_type(types: &Types, value: TExpr, ty: Ty, span: Span, r: TExpr)
    ensures
        coerce_diagnostics(types, value is Place, ty, ty, span) == Seq::<(Span, Seq<char>)>::empty(),
        coerced(types, value, ty, ty, r) <==> r == value,
{
    lemma_coercion_reflexive(types, ty, value is Place);
}

/// The view in a `String`-to-text-view coercion must be lent from a named
/// place: a temporary `String` is always rejected, a place always lent.
pub proof fn lemma_string_view_needs_place(types: &Types, to: Ty)
    requires
        to == Ty::ViewByte || to == Ty::ViewUnicode,
    ensures
        spec_coercion(types, Ty::String, to, true) == Coercion::LendStringView,
        spec_coercion(types, Ty::String, to, false) == Coercion::TemporaryStringView,
{
}

/// Whether `aggregate` is a named union with a `Nil` member or an inline
/// sum with a `Nil` member, compared against `nil`.
pub open spec fn spec_nil_pair(types: &Types, aggregate: Ty, other: Ty) -> Option<Ty> {
    match (aggregate, other) {
        (Ty::User(id), Ty::Nil) => if types.spec_member(id, seq!['N', 'i', 'l']) is Some {
            Some(aggregate)
        } else {
            None
        },
        (Ty::Sum(id), Ty::Nil) => if types.sums@[id.0 as int]@.contains(Ty::Nil) {
            Some(aggregate)
        } else {
            None
        },
        _ => None,
    }
}

/// The aggregate a `value == nil` comparison takes when exactly one
/// operand is `nil` and the other directly contains `Nil`.
pub open spec fn spec_nil_union(types: &Types, left: Ty, right: Ty) -> Option<Ty> {
    match spec_nil_pair(types, left, right) {
        Some(t) => Some(t),
        None => spec_nil_pair(types, right, left),
    }
}

#[verifier::loop_isolation(false)]
fn nil_pair(types: &Types, aggregate: Ty, other: Ty) -> (r: Option<Ty>)
    requires
        types.wf(),
        types.valid_ty(aggregate),
    ensures
        r == spec_nil_pair(types, aggregate, other),
{
    match (aggregate, other) {
        (Ty::User(id), Ty::Nil) => {
            let nil = types.member(id, "Nil");
            proof {
                reveal_strlit("Nil");
                assert("Nil"@ =~= seq!['N', 'i', 'l']);
            }
            if nil.is_some() {
                Some(aggregate)
            } else {
                None
            }
        },
        (Ty::Sum(id), Ty::Nil) => {
            let members = types.sum_members(id);
            let mut i: usize = 0;
            while i < members.len()
                invariant
                    i <= members@.len(),
                    forall|j: int| 0 <= j < i ==> members@[j] != Ty::Nil,
                decreases members.len() - i,
            {
                if members[i] == Ty::Nil {
                    assert(members@[i as int] == Ty::Nil);
                    return Some(aggregate);
                }
                i = i + 1;
            }
            None
        },
        _ => None,
    }
}

/// The aggregate type, a named union or an inline sum, a comparison with
/// `nil` takes: the left operand when it contains `Nil` and the right is
/// `nil`, else the right operand when the roles are swapped.
pub fn nil_union(types: &Types, left: Ty, right: Ty) -> (r: Option<Ty>)
    requires
        types.wf(),
        types.valid_ty(left),
        types.valid_ty(right),
    ensures
        r == spec_nil_union(types, left, right),
{
    match nil_pair(types, left, right) {
        Some(t) => Some(t),
        None => nil_pair(types, right, left),
    }
}

/// The element type of an owning sequence (an array or a list).
pub open spec fn sequence_elem(types: &Types, ty: Ty) -> Option<Ty> {
    match ty {
        Ty::Array(id) | Ty::List(id) => match types.collections@[id.0 as int] {
            CollectionDef::Array { elem, .. } => Some(elem),
            CollectionDef::List { elem } => Some(elem),
            _ => None,
        },
        _ => None,
    }
}

/// The element type a view of type `ty` reads.
pub open spec fn view_elem(types: &Types, ty: Ty) -> Option<Ty> {
    match ty {
        Ty::View(id) => match types.collections@[id.0 as int] {
            CollectionDef::View { elem } => Some(elem),
            _ => None,
        },
        Ty::ViewByte => Some(Ty::Byte),
        Ty::ViewUnicode => Some(Ty::Unicode),
        _ => None,
    }
}

/// Whether `e` reads the place `place` without consuming it.
pub open spec fn copy_read_of(e: TExpr, place: Place) -> bool {
    e matches TExpr::Place(q, UseMode::Copy) && q@ == place@
}

/// `r` lends `place` as a view of type `to`: a text view of a `String`
/// when `string_view`, a collection view otherwise.
pub open spec fn lent_as(r: Option<(TExpr, Place)>, place: Place, to: Ty, string_view: bool) -> bool {
    match r {
        Some((e, p)) => p@ == place@ && if string_view {
            match e {
                TExpr::ViewFromString(b, t) => t == to && copy_read_of(*b, place),
                _ => false,
            }
        } else {
            match e {
                TExpr::CollectionView(b, t) => t == to && copy_read_of(*b, place),
                _ => false,
            }
        },
        None => false,
    }
}

fn sequence_elem_of(types: &Types, ty: Ty) -> (r: Option<Ty>)
    requires
        types.valid_ty(ty),
    ensures
        r == sequence_elem(types, ty),
{
    match ty {
        Ty::Array(id) | Ty::List(id) => match types.collection(id) {
            CollectionDef::Array { elem, .. } => Some(*elem),
            CollectionDef::List { elem } => Some(*elem),
            _ => None,
        },
        _ => None,
    }
}

fn view_elem_of(types: &Types, ty: Ty) -> (r: Option<Ty>)
    requires
        types.valid_ty(ty),
    ensures
        r == view_elem(types, ty),
{
    match ty {
        Ty::View(id) => match types.collection(id) {
            CollectionDef::View { elem } => Some(*elem),
            _ => None,
        },
        Ty::ViewByte => Some(Ty::Byte),
        Ty::ViewUnicode => Some(Ty::Unicode),
        _ => None,
    }
}

/// The call-boundary conversions that lend a view of a named place without
/// consuming it: a `String` as a text view, and an array or list as a
/// view of the same element type. Returns the view expression and the
/// lent place, kept for the same call's overlap checks; `None` when the
/// value is not a place or no lending conversion applies.
pub fn lend_call_view(types: &Types, value: &TExpr, from: Ty, to: Ty) -> (r: Option<(TExpr, Place)>)
    requires
        types.valid_ty(from),
        types.valid_ty(to),
    ensures
        match *value {
            TExpr::Place(place, _) => if from == Ty::String && (to == Ty::ViewByte || to
                == Ty::ViewUnicode) {
                lent_as(r, place, to, true)
            } else if sequence_elem(types, from) is Some && sequence_elem(types, from) == view_elem(
                types,
                to,
            ) {
                lent_as(r, place, to, false)
            } else {
                r is None
            },
            _ => r is None,
        },
{
    let place = match value {
        TExpr::Place(place, _) => place,
        _ => return None,
    };
    if from == Ty::String && (to == Ty::ViewByte || to == Ty::ViewUnicode) {
        let read = TExpr::Place(copy_place(place), UseMode::Copy);
        return Some((TExpr::ViewFromString(Box::new(read), to), copy_place(place)));
    }
    let source = sequence_elem_of(types, from);
    let target = view_elem_of(types, to);
    let same = match (source, target) {
        (Some(a), Some(b)) => a == b,
        _ => false,
    };
    if same {
        let read = TExpr::Place(copy_place(place), UseMode::Copy);
        Some((TExpr::CollectionView(Box::new(read), to), copy_place(place)))
    } else {
        None
    }
}

pub open spec fn temporary_view_message() -> Seq<char> {
    "a view can only be lent from a named String place; a temporary String would not live long enough"@
}

pub open spec fn ambiguous_conversion_message(types: &Types, from: Ty, to: Ty) -> Seq<char> {
    "'"@ + spec_display(types, from) + "' could convert into more than one member of '"@
        + spec_display(types, to) + "'; add an explicit conversion to pick one"@
}

/// The diagnostics of making a value of type `from` assignable to `to`.
pub open spec fn coerce_diagnostics(types: &Types, from_place: bool, from: Ty, to: Ty, span: Span) -> Diagnostics {
    match spec_coercion(types, from, to, from_place) {
        Coercion::TemporaryStringView => seq![(span, temporary_view_message())],
        Coercion::AmbiguousSumConversion => seq![(span, ambiguous_conversion_message(types, from, to))],
        Coercion::Mismatch => seq![(span, mismatch_message(types, to, from))],
        _ => Seq::empty(),
    }
}

/// `r` is `value` made assignable to `to` by the rule `spec_coercion`
/// picks; a rejected value is kept as it was (a temporary lent as a view
/// becomes `nil`).
pub open spec fn coerced(types: &Types, value: TExpr, from: Ty, to: Ty, r: TExpr) -> bool {
    match spec_coercion(types, from, to, value is Place) {
        Coercion::Same => r == value,
        Coercion::LendStringView => match value {
            TExpr::Place(p, _) => r == TExpr::ViewFromString(Box::new(TExpr::Place(p, UseMode::Copy)), to),
            _ => false,
        },
        Coercion::TemporaryStringView => r == TExpr::Nil,
        Coercion::WidenToFloat => r == TExpr::Cast(Box::new(value), Ty::Float64),
        Coercion::InjectMember { member, into_union } => r == TExpr::Inject {
            member,
            into_union,
            value: Box::new(value),
        },
        Coercion::InjectNil { member, into_union } => match r {
            TExpr::Inject { member: m, into_union: u, value: v } => m == member && u == into_union
                && match *v {
                TExpr::Construct { type_id, fields } => type_id == member && fields@.len() == 0,
                _ => false,
            },
            _ => false,
        },
        Coercion::InjectSum { sum, member } => r == TExpr::InjectSum { sum, member, value: Box::new(value) },
        Coercion::ConvertIntoSum { sum, member } => r == TExpr::InjectSum {
            sum,
            member,
            value: Box::new(TExpr::Cast(Box::new(value), Ty::Float64)),
        },
        Coercion::AmbiguousSumConversion => r == value,
        Coercion::Mismatch => r == value,
    }
}

/// Makes a checked value of type `from` assignable to `to`: identity,
/// lending a named `String` as a text view, widening `Int64` to `Float64`,
/// injecting a direct member into its union or the contextual `nil` into
/// a union's `Nil` member, injecting into an inline sum that has the
/// value's type as a member or that exactly one implicit conversion
/// reaches. Anything else is reported.
pub fn coerce(types: &Types, errors: &mut Vec<Error>, value: TExpr, from: Ty, to: Ty, span: Span) -> (r: TExpr)
    requires
        types.wf(),
        types.valid_ty(from),
        types.valid_ty(to),
        display_depth(types) <= usize::MAX,
    ensures
        coerced(types, value, from, to, r),
        from == to ==> r == value && final(errors)@ == old(errors)@,
        diagnostics(final(errors)@) == diagnostics(old(errors)@) + coerce_diagnostics(
            types,
            value is Place,
            from,
            to,
            span,
        ),
    decreases if to is Sum { 1nat } else { 0nat },
{
    let ghost start = diagnostics(errors@);
    let from_place = matches!(value, TExpr::Place(..));
    let decision = coercion(types, from, to, from_place);
    proof {
        assert(start =~= start + Seq::<(Span, Seq<char>)>::empty());
    }
    match decision {
        Coercion::Same => value,
        Coercion::LendStringView => match value {
            TExpr::Place(place, _) => TExpr::ViewFromString(Box::new(TExpr::Place(place, UseMode::Copy)), to),
            other => other,
        },
        Coercion::TemporaryStringView => {
            let ghost before = errors@;
            errors.push(
                Error {
                    span,
                    msg: String::from_str(
                        "a view can only be lent from a named String place; a temporary String would not live long enough",
                    ),
                },
            );
            proof {
                assert(diagnostics(errors@) =~= start + coerce_diagnostics(types, from_place, from, to, span));
            }
            TExpr::Nil
        },
        Coercion::WidenToFloat => TExpr::Cast(Box::new(value), Ty::Float64),
        Coercion::InjectMember { member, into_union } => TExpr::Inject {
            member,
            into_union,
            value: Box::new(value),
        },
        Coercion::InjectNil { member, into_union } => TExpr::Inject {
            member,
            into_union,
            value: Box::new(TExpr::Construct { type_id: member, fields: Vec::new() }),
        },
        Coercion::InjectSum { sum, member } => TExpr::InjectSum { sum, member, value: Box::new(value) },
        Coercion::ConvertIntoSum { sum, member } => {
            proof {
                let candidates = conversion_candidates(from, types.sums@[sum.0 as int]@);
                lemma_candidates_are_float(from, types.sums@[sum.0 as int]@);
                assert(candidates[0] == member);
                assert(member == Ty::Float64 && from == Ty::Int64);
            }
            let converted = coerce(types, errors, value, from, member, span);
            TExpr::InjectSum { sum, member, value: Box::new(converted) }
        },
        Coercion::AmbiguousSumConversion => {
            let found = types.display(from);
            let target = types.display(to);
            let mut msg = concat_message("'", found.as_str());
            msg.append("' could convert into more than one member of '");
            msg.append(target.as_str());
            msg.append("'; add an explicit conversion to pick one");
            let ghost m = msg@;
            errors.push(Error { span, msg });
            proof {
                assert(m =~= ambiguous_conversion_message(types, from, to));
                assert(diagnostics(errors@) =~= start + coerce_diagnostics(types, from_place, from, to, span));
            }
            value
        },
        Coercion::Mismatch => {
            let msg = mismatch(types, to, from);
            errors.push(Error { span, msg });
            proof {
                assert(diagnostics(errors@) =~= start + coerce_diagnostics(types, from_place, from, to, span));
            }
            value
        },
    }
}

fn concat_message(a: &str, b: &str) -> (r: String)
    ensures
        r@ == a@ + b@,
{
    let mut s = String::from_str(a);
    s.append(b);
    s
}

/// Whether every member of inline sum `source` is a member of `target`.
pub open spec fn sum_included(types: &Types, source: SumId, target: SumId) -> bool {
    forall|k: int|
        0 <= k < types.sums@[source.0 as int]@.len() ==> types.sums@[target.0 as int]@.contains(
            #[trigger] types.sums@[source.0 as int]@[k],
        )
}

/// A propagated success payload re-enters the callable's result: a sum
/// whose every member is also a member of the result sum is lifted into it
/// as is; anything else is coerced as an ordinary value.
pub fn coerce_return_success(
    types: &Types,
    errors: &mut Vec<Error>,
    value: TExpr,
    from: Ty,
    to: Ty,
    span: Span,
) -> (r: TExpr)
    requires
        types.wf(),
        types.valid_ty(from),
        types.valid_ty(to),
        display_depth(types) <= usize::MAX,
    ensures
        match (from, to) {
            (Ty::Sum(source), Ty::Sum(target)) if sum_included(types, source, target) => {
                &&& r == TExpr::LiftSum { value: Box::new(value), from: source, to: target }
                &&& final(errors)@ == old(errors)@
            },
            _ => {
                &&& coerced(types, value, from, to, r)
                &&& diagnostics(final(errors)@) == diagnostics(old(errors)@) + coerce_diagnostics(
                    types,
                    value is Place,
                    from,
                    to,
                    span,
                )
            },
        },
{
    match (from, to) {
        (Ty::Sum(source), Ty::Sum(target)) => {
            let source_members = types.sum_members(source);
            let target_members = types.sum_members(target);
            let mut included = true;
            let mut k: usize = 0;
            while k < source_members.len()
                invariant
                    k <= source_members@.len(),
                    source_members@ == types.sums@[source.0 as int]@,
                    target_members@ == types.sums@[target.0 as int]@,
                    included == forall|j: int| 0 <= j < k ==> target_members@.contains(#[trigger] source_members@[j]),
                decreases source_members.len() - k,
            {
                let m = source_members[k];
                let mut found = false;
                let mut t: usize = 0;
                while t < target_members.len()
                    invariant
                        t <= target_members@.len(),
                        found == exists|q: int| 0 <= q < t && target_members@[q] == m,
                    decreases target_members.len() - t,
                {
                    if target_members[t] == m {
                        found = true;
                    }
                    t = t + 1;
                }
                proof {
                    if found {
                        let q = choose|q: int| 0 <= q < t && target_members@[q] == m;
                        assert(target_members@.contains(m));
                    } else {
                        assert(!target_members@.contains(m));
                    }
                }
                included = included && found;
                k = k + 1;
            }
            if included {
                return TExpr::LiftSum { value: Box::new(value), from: source, to: target };
            }
            coerce(types, errors, value, from, to, span)
        },
        _ => coerce(types, errors, value, from, to, span),
    }
}

/// Argument compatibility for `extern rust` bridge calls only: a text view
/// and a collection view of the same element share one pointer/length
/// representation, so either is accepted where the other is declared;
/// anything else is coerced as an ordinary value.
pub fn coerce_bridge_view(
    types: &Types,
    errors: &mut Vec<Error>,
    value: TExpr,
    from: Ty,
    to: Ty,
    span: Span,
) -> (r: TExpr)
    requires
        types.wf(),
        types.valid_ty(from),
        types.valid_ty(to),
        display_depth(types) <= usize::MAX,
    ensures
        if from == to || (view_elem(types, from) is Some && view_elem(types, from) == view_elem(types, to)) {
            r == value && final(errors)@ == old(errors)@
        } else {
            &&& coerced(types, value, from, to, r)
            &&& diagnostics(final(errors)@) == diagnostics(old(errors)@) + coerce_diagnostics(
                types,
                value is Place,
                from,
                to,
                span,
            )
        },
{
    if from == to {
        return value;
    }
    let source = view_elem_of(types, from);
    let target = view_elem_of(types, to);
    let same = match (source, target) {
        (Some(a), Some(b)) => a == b,
        _ => false,
    };
    if same {
        return value;
    }
    coerce(types, errors, value, from, to, span)
}

/// Takes a checked value over in a consuming context (a returned value,
/// a collection element, a constructor argument) and makes it assignable
/// to `target`.
pub fn consume_into(
    types: &Types,
    moves: &mut MoveState,
    borrows: &Vec<ViewBorrow>,
    env: &Vec<Binding>,
    errors: &mut Vec<Error>,
    value: TExpr,
    ty: Ty,
    target: Ty,
    span: Span,
) -> (r: TExpr)
    requires
        types.wf(),
        types.layout_finite(),
        display_depth(types) <= usize::MAX,
        old(moves).wf(),
        types.valid_ty(ty),
        types.valid_ty(target),
        value matches TExpr::Place(p, _) ==> types.valid_ty(p.ty) && types.valid_ty(p.root_ty),
    ensures
        final(moves).wf(),
        diagnostics(final(errors)@) == diagnostics(old(errors)@) + consume_effect(
            types,
            old(moves).entries@,
            borrows@,
            env@,
            value,
            span,
        ) + coerce_diagnostics(types, value is Place, ty, target, span),
        consume_moves(types, env@, old(moves).entries@, final(moves).entries@, value, span),
        coerced(types, consumed(value), ty, target, r),
{
    let ghost start = diagnostics(errors@);
    let ghost moves0 = moves.entries@;
    let taken = mark_consumed(types, moves, borrows, env, errors, value, span);
    let r = coerce(types, errors, taken, ty, target, span);
    proof {
        assert(diagnostics(errors@) =~= start + consume_effect(types, moves0, borrows@, env@, value, span)
            + coerce_diagnostics(types, value is Place, ty, target, span));
    }
    r
}

} // verus!
