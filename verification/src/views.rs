//! Which types hold a borrowed view: a value of such a type borrows from
//! another place and may not outlive it, so it cannot be stored where an
//! owning value is required.
use vstd::prelude::*;
use crate::layout::{lemma_unvisited_mono, lemma_unvisited_set, unvisited};
use crate::ty::{BoxId, CollectionDef, CollectionId, SumId, Ty, TypeDef, TypeId, Types};

verus! {

/// A view type: a text view or a collection view.
pub open spec fn is_view_type(ty: Ty) -> bool {
    ty is ViewByte || ty is ViewUnicode || ty is View
}

/// The field types of the first `n` members of a union, in order.
pub open spec fn member_field_types(types: &Types, members: Seq<TypeId>, n: int) -> Seq<Ty>
    decreases if n > 0 { n as nat } else { 0 },
{
    if n <= 0 || n > members.len() {
        Seq::empty()
    } else {
        member_field_types(types, members, n - 1) + match types.defs@[members[n - 1].0 as int].spec_fields() {
            Some(fields) => fields.map_values(|f: (String, Ty)| f.1),
            None => Seq::empty(),
        }
    }
}

/// The types a value of `ty` holds directly: fields, union members'
/// fields, a represented target, sum members, a box's pointee, and
/// collection elements, keys, and values.
pub open spec fn held_types(types: &Types, ty: Ty) -> Seq<Ty> {
    match ty {
        Ty::Sum(id) => types.sums@[id.0 as int]@,
        Ty::User(id) => match types.defs@[id.0 as int] {
            TypeDef::Struct { fields, .. } => fields@.map_values(|f: (String, Ty)| f.1),
            TypeDef::UnionMember { fields, .. } => fields@.map_values(|f: (String, Ty)| f.1),
            TypeDef::Union { members, .. } => member_field_types(types, members@, members@.len() as int),
            TypeDef::Represented { target, .. } => seq![target],
        },
        Ty::Box(id) => seq![types.boxes@[id.0 as int]],
        Ty::Array(id) | Ty::List(id) => match types.collections@[id.0 as int] {
            CollectionDef::Array { elem, .. } => seq![elem],
            CollectionDef::List { elem } => seq![elem],
            _ => Seq::empty(),
        },
        Ty::MapOf(id) => match types.collections@[id.0 as int] {
            CollectionDef::MapOf { key, value } => seq![key, value],
            _ => Seq::empty(),
        },
        Ty::SetOf(id) => match types.collections@[id.0 as int] {
            CollectionDef::SetOf { elem } => seq![elem],
            _ => Seq::empty(),
        },
        _ => Seq::empty(),
    }
}

/// `ty` holds `next` directly.
pub open spec fn holds(types: &Types, ty: Ty, next: Ty) -> bool {
    !is_view_type(ty) && held_types(types, ty).contains(next)
}

/// `p` leads from its first type, each holding the next, to a view.
pub open spec fn view_path(types: &Types, p: Seq<Ty>) -> bool {
    &&& p.len() >= 1
    &&& is_view_type(p.last())
    &&& forall|i: int, j: int| #![trigger p[i], p[j]] 0 <= i && j == i + 1 && j < p.len() ==> holds(types, p[i], p[j])
}

/// Whether a value of `ty` holds a view, however deeply.
pub open spec fn spec_is_borrowed(types: &Types, ty: Ty) -> bool {
    exists|p: Seq<Ty>| #[trigger] view_path(types, p) && p[0] == ty
}

/// The position of a type in a fixed enumeration of every type the table
/// can name.
pub open spec fn type_code(types: &Types, ty: Ty) -> int {
    let d = types.defs@.len() as int;
    let s = types.sums@.len() as int;
    let b = types.boxes@.len() as int;
    let c = types.collections@.len() as int;
    match ty {
        Ty::Float64 => 0,
        Ty::Int64 => 1,
        Ty::Bool => 2,
        Ty::Nil => 3,
        Ty::String => 4,
        Ty::Unicode => 5,
        Ty::ViewByte => 6,
        Ty::ViewUnicode => 7,
        Ty::Byte => 8,
        Ty::UInt16 => 9,
        Ty::UInt32 => 10,
        Ty::UInt64 => 11,
        Ty::Float32 => 12,
        Ty::User(id) => 13 + id.0,
        Ty::Sum(id) => 13 + d + id.0,
        Ty::Box(id) => 13 + d + s + id.0,
        Ty::Array(id) => 13 + d + s + b + id.0,
        Ty::List(id) => 13 + d + s + b + c + id.0,
        Ty::View(id) => 13 + d + s + b + 2 * c + id.0,
        Ty::MapOf(id) => 13 + d + s + b + 3 * c + id.0,
        Ty::SetOf(id) => 13 + d + s + b + 4 * c + id.0,
    }
}

/// How many types the table can name.
pub open spec fn type_count(types: &Types) -> int {
    (13 + types.defs@.len() + types.sums@.len() + types.boxes@.len() + 5 * types.collections@.len()) as int
}

proof fn lemma_code_injective(types: &Types, a: Ty, b: Ty)
    requires
        types.valid_ty(a),
        types.valid_ty(b),
        type_code(types, a) == type_code(types, b),
    ensures
        a == b,
        0 <= type_code(types, a) < type_count(types),
{
}

fn code_of(types: &Types, ty: Ty) -> (k: usize)
    requires
        types.valid_ty(ty),
        type_count(types) <= usize::MAX,
    ensures
        k as int == type_code(types, ty),
        k < type_count(types),
{
    let d = types.defs.len();
    let s = types.sums.len();
    let b = types.boxes.len();
    let c = types.collections.len();
    match ty {
        Ty::Float64 => 0,
        Ty::Int64 => 1,
        Ty::Bool => 2,
        Ty::Nil => 3,
        Ty::String => 4,
        Ty::Unicode => 5,
        Ty::ViewByte => 6,
        Ty::ViewUnicode => 7,
        Ty::Byte => 8,
        Ty::UInt16 => 9,
        Ty::UInt32 => 10,
        Ty::UInt64 => 11,
        Ty::Float32 => 12,
        Ty::User(id) => 13 + id.index(),
        Ty::Sum(id) => 13 + d + id.index(),
        Ty::Box(id) => 13 + d + s + id.index(),
        Ty::Array(id) => 13 + d + s + b + id.index(),
        Ty::List(id) => 13 + d + s + b + c + id.index(),
        Ty::View(id) => 13 + d + s + b + 2 * c + id.index(),
        Ty::MapOf(id) => 13 + d + s + b + 3 * c + id.index(),
        Ty::SetOf(id) => 13 + d + s + b + 4 * c + id.index(),
    }
}

proof fn lemma_held_valid(types: &Types, ty: Ty, i: int)
    requires
        types.wf(),
        types.valid_ty(ty),
        0 <= i < held_types(types, ty).len(),
    ensures
        types.valid_ty(held_types(types, ty)[i]),
{
    match ty {
        Ty::Sum(id) => {
            assert(types.sum_wf(id.0 as int));
        },
        Ty::User(id) => {
            assert(types.def_wf(id.0 as int));
            match types.defs@[id.0 as int] {
                TypeDef::Union { members, .. } => {
                    lemma_member_fields_valid(types, members@, members@.len() as int, i);
                },
                _ => {},
            }
        },
        Ty::Box(id) => {
            assert(types.box_wf(id.0 as int));
        },
        Ty::Array(id) | Ty::List(id) | Ty::MapOf(id) | Ty::SetOf(id) => {
            assert(types.collection_wf(id.0 as int));
        },
        _ => {},
    }
}

proof fn lemma_member_fields_valid(types: &Types, members: Seq<TypeId>, n: int, i: int)
    requires
        types.wf(),
        forall|k: int| 0 <= k < members.len() ==> (#[trigger] members[k]).0 < types.defs@.len(),
        0 <= i < member_field_types(types, members, n).len(),
    ensures
        types.valid_ty(member_field_types(types, members, n)[i]),
    decreases if n > 0 { n as nat } else { 0 },
{
    if n > 0 && n <= members.len() {
        let before = member_field_types(types, members, n - 1);
        if i < before.len() {
            lemma_member_fields_valid(types, members, n - 1, i);
        } else {
            let m = members[n - 1];
            assert(types.def_wf(m.0 as int));
        }
    }
}

/// The types a value of `ty` holds directly, in order.
fn held_types_of(types: &Types, ty: Ty) -> (r: Vec<Ty>)
    requires
        types.wf(),
        types.valid_ty(ty),
    ensures
        r@ == held_types(types, ty),
{
    let mut r: Vec<Ty> = Vec::new();
    match ty {
        Ty::Sum(id) => {
            let members = types.sum_members(id);
            let mut k: usize = 0;
            while k < members.len()
                invariant
                    k <= members@.len(),
                    r@ == members@.take(k as int),
                decreases members.len() - k,
            {
                r.push(members[k]);
                k = k + 1;
                assert(r@ =~= members@.take(k as int));
            }
            assert(members@.take(members@.len() as int) =~= members@);
        },
        Ty::User(id) => {
            proof {
                assert(types.def_wf(id.0 as int));
            }
            match types.def(id) {
                TypeDef::Struct { fields, .. } | TypeDef::UnionMember { fields, .. } => {
                    push_field_types(&mut r, fields);
                    assert(r@ =~= fields@.map_values(|f: (String, Ty)| f.1));
                },
                TypeDef::Union { members, .. } => {
                    let mut k: usize = 0;
                    while k < members.len()
                        invariant
                            types.wf(),
                            k <= members@.len(),
                            forall|q: int| 0 <= q < members@.len() ==> (#[trigger] members@[q]).0 < types.defs@.len(),
                            r@ == member_field_types(types, members@, k as int),
                        decreases members.len() - k,
                    {
                        let ghost before = r@;
                        match types.def(members[k]).fields() {
                            Some(fields) => {
                                push_field_types(&mut r, fields);
                            },
                            None => {
                                assert(before + Seq::<Ty>::empty() =~= before);
                            },
                        }
                        k = k + 1;
                    }
                },
                TypeDef::Represented { target, .. } => {
                    r.push(*target);
                    assert(r@ =~= seq![*target]);
                },
            }
        },
        Ty::Box(id) => {
            r.push(types.box_pointee(id));
            assert(r@ =~= seq![types.boxes@[id.0 as int]]);
        },
        Ty::Array(id) | Ty::List(id) => match types.collection(id) {
            CollectionDef::Array { elem, .. } | CollectionDef::List { elem } => {
                r.push(*elem);
                assert(r@ =~= seq![*elem]);
            },
            _ => {},
        },
        Ty::MapOf(id) => match types.collection(id) {
            CollectionDef::MapOf { key, value } => {
                r.push(*key);
                r.push(*value);
                assert(r@ =~= seq![*key, *value]);
            },
            _ => {},
        },
        Ty::SetOf(id) => match types.collection(id) {
            CollectionDef::SetOf { elem } => {
                r.push(*elem);
                assert(r@ =~= seq![*elem]);
            },
            _ => {},
        },
        _ => {},
    }
    r
}

fn push_field_types(r: &mut Vec<Ty>, fields: &Vec<(String, Ty)>)
    ensures
        final(r)@ == old(r)@ + fields@.map_values(|f: (String, Ty)| f.1),
{
    let ghost start = r@;
    let mut k: usize = 0;
    while k < fields.len()
        invariant
            k <= fields@.len(),
            r@ == start + fields@.take(k as int).map_values(|f: (String, Ty)| f.1),
        decreases fields.len() - k,
    {
        r.push(fields[k].1);
        k = k + 1;
        assert(r@ =~= start + fields@.take(k as int).map_values(|f: (String, Ty)| f.1));
    }
    assert(fields@.take(fields@.len() as int) =~= fields@);
}

/// The bookkeeping of the walk: `marks[type_code(t)]` is 1 once `t` has
/// been reached. Every reached type that is no longer being explored is
/// not a view and holds only reached types.
pub open spec fn walk_closed(types: &Types, marks: Seq<u8>, stack: Seq<Ty>) -> bool {
    &&& marks.len() == type_count(types)
    &&& forall|k: int| 0 <= k < marks.len() ==> #[trigger] marks[k] <= 1
    &&& forall|t: Ty| #![trigger type_code(types, t)]
        types.valid_ty(t) && marks[type_code(types, t)] == 1 && !stack.contains(t) ==> !is_view_type(t)
            && forall|i: int|
            0 <= i < held_types(types, t).len() ==> marks[type_code(types, #[trigger] held_types(types, t)[i])]
                == 1
    &&& forall|i: int| 0 <= i < stack.len() ==> types.valid_ty(#[trigger] stack[i]) && marks[type_code(types, stack[i])] == 1
}

/// Reached types stay reached.
pub open spec fn marks_grow(a: Seq<u8>, b: Seq<u8>) -> bool {
    &&& a.len() == b.len()
    &&& forall|k: int| 0 <= k < a.len() && a[k] == 1 ==> #[trigger] b[k] == 1
    &&& forall|k: int| 0 <= k < b.len() && b[k] == 0 ==> #[trigger] a[k] == 0
}

proof fn lemma_view_path_extend(types: &Types, ty: Ty, p: Seq<Ty>)
    requires
        view_path(types, p),
        holds(types, ty, p[0]),
    ensures
        view_path(types, seq![ty] + p),
        (seq![ty] + p)[0] == ty,
{
    let q = seq![ty] + p;
    assert forall|i: int, j: int| #![trigger q[i], q[j]] 0 <= i && j == i + 1 && j < q.len() implies holds(types, q[i], q[j]) by {
        if i == 0 {
            assert(q[j] == p[0]);
        } else {
            assert(q[i] == p[i - 1] && q[j] == p[j - 1]);
        }
    }
}

/// Explores `ty` unless it was reached before; true as soon as a view is
/// found.
fn visit(
    types: &Types,
    ty: Ty,
    marks: &mut Vec<u8>,
    Ghost(stack): Ghost<Seq<Ty>>,
) -> (r: bool)
    requires
        types.wf(),
        type_count(types) <= usize::MAX,
        types.valid_ty(ty),
        walk_closed(types, old(marks)@, stack),
    ensures
        r ==> spec_is_borrowed(types, ty),
        !r ==> walk_closed(types, final(marks)@, stack) && marks_grow(old(marks)@, final(marks)@)
            && final(marks)@[type_code(types, ty)] == 1,
    decreases unvisited(old(marks)@),
{
    let k = code_of(types, ty);
    if marks[k] == 1 {
        return false;
    }
    let ghost entry = marks@;
    marks.set(k, 1);
    if matches!(ty, Ty::ViewByte | Ty::ViewUnicode | Ty::View(_)) {
        proof {
            assert(view_path(types, seq![ty]));
        }
        return true;
    }
    let ghost inner = stack.push(ty);
    let ghost after_set = marks@;
    proof {
        lemma_unvisited_set(entry, k as int, 1);
        assert forall|t: Ty|
            types.valid_ty(t) && after_set[type_code(types, t)] == 1 && !inner.contains(t) implies !is_view_type(t)
                && forall|i: int|
                0 <= i < held_types(types, t).len() ==> after_set[type_code(types, #[trigger] held_types(types, t)[i])]
                    == 1 by {
            if t != ty {
                if type_code(types, t) == k {
                    lemma_code_injective(types, t, ty);
                }
                assert(entry[type_code(types, t)] == 1);
                assert(!stack.contains(t)) by {
                    if stack.contains(t) {
                        let q = choose|q: int| 0 <= q < stack.len() && stack[q] == t;
                        assert(inner[q] == t);
                    }
                }
                assert forall|i: int| 0 <= i < held_types(types, t).len() implies after_set[type_code(types, #[trigger] held_types(types, t)[i])] == 1 by {
                    assert(entry[type_code(types, held_types(types, t)[i])] == 1);
                    lemma_held_valid(types, t, i);
                    lemma_code_injective(types, held_types(types, t)[i], held_types(types, t)[i]);
                }
            } else {
                assert(inner[inner.len() - 1] == ty);
            }
        }
        assert forall|i: int| 0 <= i < inner.len() implies types.valid_ty(#[trigger] inner[i]) && after_set[type_code(types, inner[i])] == 1 by {
            if i < stack.len() {
                assert(inner[i] == stack[i]);
                lemma_code_injective(types, stack[i], stack[i]);
            }
        }
        assert forall|q: int| 0 <= q < after_set.len() implies #[trigger] after_set[q] <= 1 by {
            if q != k {
                assert(after_set[q] == entry[q]);
            }
        }
    }
    let held = held_types_of(types, ty);
    let mut i: usize = 0;
    while i < held.len()
        invariant
            types.wf(),
            type_count(types) <= usize::MAX,
            types.valid_ty(ty),
            !is_view_type(ty),
            held@ == held_types(types, ty),
            k as int == type_code(types, ty),
            i <= held@.len(),
            entry == old(marks)@,
            unvisited(after_set) < unvisited(entry),
            marks_grow(after_set, marks@),
            walk_closed(types, marks@, inner),
            inner == stack.push(ty),
            forall|j: int| 0 <= j < i ==> marks@[type_code(types, #[trigger] held@[j])] == 1,
        decreases held.len() - i,
    {
        proof {
            lemma_held_valid(types, ty, i as int);
            lemma_unvisited_mono(after_set, marks@);
        }
        let ghost before = marks@;
        let found = visit(types, held[i], marks, Ghost(inner));
        if found {
            proof {
                let p = choose|p: Seq<Ty>| #[trigger] view_path(types, p) && p[0] == held@[i as int];
                assert(held_types(types, ty).contains(held@[i as int]));
                lemma_view_path_extend(types, ty, p);
            }
            return true;
        }
        proof {
            assert forall|j: int| 0 <= j < i + 1 implies marks@[type_code(types, #[trigger] held@[j])] == 1 by {
                if j < i {
                    lemma_held_valid(types, ty, j);
                    lemma_code_injective(types, held@[j], held@[j]);
                    assert(before[type_code(types, held@[j])] == 1);
                }
            }
            assert forall|q: int| 0 <= q < after_set.len() && after_set[q] == 1 implies #[trigger] marks@[q] == 1 by {
                assert(before[q] == 1);
            }
            assert forall|q: int| 0 <= q < marks@.len() && marks@[q] == 0 implies #[trigger] after_set[q] == 0 by {
                assert(before[q] == 0);
            }
        }
        i = i + 1;
    }
    proof {
        assert forall|t: Ty|
            types.valid_ty(t) && marks@[type_code(types, t)] == 1 && !stack.contains(t) implies !is_view_type(t)
                && forall|j: int|
                0 <= j < held_types(types, t).len() ==> marks@[type_code(types, #[trigger] held_types(types, t)[j])]
                    == 1 by {
            if t != ty {
                assert(!inner.contains(t)) by {
                    if inner.contains(t) {
                        let q = choose|q: int| 0 <= q < inner.len() && inner[q] == t;
                        if q < stack.len() {
                            assert(stack[q] == t);
                        }
                    }
                }
            } else {
                assert forall|j: int| 0 <= j < held_types(types, t).len() implies marks@[type_code(types, #[trigger] held_types(types, t)[j])] == 1 by {
                    assert(held@[j] == held_types(types, t)[j]);
                }
            }
        }
        assert forall|q: int| 0 <= q < stack.len() implies types.valid_ty(#[trigger] stack[q]) && marks@[type_code(types, stack[q])] == 1 by {
            assert(inner[q] == stack[q]);
        }
        assert forall|q: int| 0 <= q < entry.len() && entry[q] == 1 implies #[trigger] marks@[q] == 1 by {
            assert(after_set[q] == 1);
        }
        assert forall|q: int| 0 <= q < marks@.len() && marks@[q] == 0 implies #[trigger] entry[q] == 0 by {
            assert(after_set[q] == 0);
            if q == k {
            } else {
                assert(after_set[q] == entry[q]);
            }
        }
        lemma_code_injective(types, ty, ty);
    }
    false
}

/// No type reachable from a closed set of reached types is a view.
proof fn lemma_closed_no_view(types: &Types, marks: Seq<u8>, p: Seq<Ty>, i: int)
    requires
        types.wf(),
        walk_closed(types, marks, Seq::empty()),
        view_path(types, p),
        types.valid_ty(p[0]),
        marks[type_code(types, p[0])] == 1,
        0 <= i < p.len(),
    ensures
        types.valid_ty(p[i]),
        marks[type_code(types, p[i])] == 1,
    decreases i,
{
    if i > 0 {
        lemma_closed_no_view(types, marks, p, i - 1);
        let prev = p[i - 1];
        assert(holds(types, prev, p[i]));
        let k = choose|k: int| 0 <= k < held_types(types, prev).len() && held_types(types, prev)[k] == p[i];
        assert(!Seq::<Ty>::empty().contains(prev));
        assert(marks[type_code(types, held_types(types, prev)[k])] == 1);
        lemma_held_valid(types, prev, k);
    }
}

/// Whether a value of `ty` holds a view, through fields, union members,
/// sum members, boxes, or collection elements, however deeply. Each type
/// is explored at most once, so a recursive type ends the walk.
pub fn is_borrowed_type(types: &Types, ty: Ty) -> (r: bool)
    requires
        types.wf(),
        types.valid_ty(ty),
        type_count(types) <= usize::MAX,
    ensures
        r == spec_is_borrowed(types, ty),
{
    let n = 13 + types.defs.len() + types.sums.len() + types.boxes.len() + 5 * types.collections.len();
    let mut marks: Vec<u8> = Vec::new();
    while marks.len() < n
        invariant
            marks@.len() <= n,
            n == type_count(types),
            forall|k: int| 0 <= k < marks@.len() ==> #[trigger] marks@[k] == 0,
        decreases n - marks.len(),
    {
        marks.push(0);
    }
    proof {
        assert(walk_closed(types, marks@, Seq::empty()));
    }
    let found = visit(types, ty, &mut marks, Ghost(Seq::empty()));
    proof {
        if !found && spec_is_borrowed(types, ty) {
            let p = choose|p: Seq<Ty>| #[trigger] view_path(types, p) && p[0] == ty;
            lemma_closed_no_view(types, marks@, p, p.len() - 1);
            assert(!Seq::<Ty>::empty().contains(p.last()));
        }
    }
    found
}

} // verus!
