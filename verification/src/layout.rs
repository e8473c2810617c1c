//! The order in which the backend lays out aggregate types. A user-defined
//! type or an inline sum can only be given a body once everything it holds
//! by value has one, so the layouts are produced depth-first; a type that
//! holds itself by value has no finite layout and is reported.
use vstd::prelude::*;
use crate::symbols::{internal, internal_message};
use crate::text::concat_str;
use crate::ty::{SumId, Ty, TypeDef, TypeId, Types};

verus! {

/// Whether a type gets a laid-out body of its own: a user-defined type or
/// an inline sum. Every other type lowers to a scalar or a pointer.
pub open spec fn is_layout_node(ty: Ty) -> bool {
    ty is User || ty is Sum
}

impl Types {
    /// How many aggregate types the table holds.
    pub open spec fn node_count(&self) -> nat {
        self.defs@.len() + self.sums@.len()
    }

    /// The position of an aggregate type among all of them: user-defined
    /// types first, then inline sums.
    pub open spec fn node_index(&self, ty: Ty) -> int {
        match ty {
            Ty::User(id) => id.0 as int,
            Ty::Sum(id) => self.defs@.len() + id.0,
            _ => -1,
        }
    }

    /// The aggregate type at position `k`.
    pub open spec fn node_at(&self, k: int) -> Ty {
        if k < self.defs@.len() {
            Ty::User(TypeId(k as u32))
        } else {
            Ty::Sum(SumId((k - self.defs@.len()) as u32))
        }
    }

    /// Whether `dep` is laid out inside `ty`: both are aggregates of the
    /// table and `ty` holds `dep` by value.
    pub open spec fn laid_out_in(&self, dep: Ty, ty: Ty) -> bool {
        &&& is_layout_node(ty)
        &&& is_layout_node(dep)
        &&& self.valid_ty(ty)
        &&& self.valid_ty(dep)
        &&& exists|i: int|
            0 <= i < self.held_by_value(ty).len() && #[trigger] self.held_by_value(ty)[i] == dep
    }

    /// Each aggregate of `p` is laid out inside the one before it.
    pub open spec fn layout_chain(&self, p: Seq<Ty>) -> bool {
        forall|i: int, j: int|
            #![trigger p[i], p[j]]
            0 <= i && j == i + 1 && j < p.len() ==> self.laid_out_in(p[j], p[i])
    }

    /// Whether `v` holds itself by value, through a chain of aggregates.
    pub open spec fn on_layout_cycle(&self, v: Ty) -> bool {
        exists|p: Seq<Ty>|
            #![trigger self.layout_chain(p)]
            p.len() >= 1 && p[0] == v && self.layout_chain(p) && self.laid_out_in(v, p.last())
    }

    /// Whether some aggregate of the table holds itself by value.
    pub open spec fn layout_has_cycle(&self) -> bool {
        exists|v: Ty| self.valid_ty(v) && #[trigger] self.on_layout_cycle(v)
    }

    /// `order` lists every aggregate of the table exactly once, each after
    /// everything laid out inside it.
    pub open spec fn is_layout_order(&self, order: Seq<Ty>) -> bool {
        &&& forall|i: int|
            0 <= i < order.len() ==> is_layout_node(#[trigger] order[i]) && self.valid_ty(order[i])
        &&& forall|i: int, j: int| 0 <= i < j < order.len() ==> order[i] != order[j]
        &&& forall|ty: Ty| is_layout_node(ty) && self.valid_ty(ty) ==> #[trigger] order.contains(ty)
        &&& forall|i: int, d: Ty|
            0 <= i < order.len() && #[trigger] self.laid_out_in(d, order[i]) ==> exists|j: int|
                0 <= j < i && order[j] == d
    }

    /// The internal error reported for an aggregate that holds itself.
    pub open spec fn layout_cycle_message(&self, v: Ty) -> Seq<char> {
        match v {
            Ty::User(id) => internal_message(
                "'"@ + self.defs@[id.0 as int].spec_name()@ + "' contains itself by value"@,
            ),
            _ => internal_message("an inline sum contains itself by value"@),
        }
    }

    /// The bookkeeping of the depth-first walk: `marks` holds 0 for an
    /// aggregate not reached yet, 1 for one being laid out, 2 for one done;
    /// `order` lists the done ones, each after its by-value contents.
    pub open spec fn walk_good(&self, marks: Seq<u8>, order: Seq<Ty>) -> bool {
        &&& marks.len() == self.node_count()
        &&& forall|k: int| 0 <= k < marks.len() ==> #[trigger] marks[k] <= 2
        &&& forall|i: int|
            0 <= i < order.len() ==> is_layout_node(#[trigger] order[i]) && self.valid_ty(order[i])
                && marks[self.node_index(order[i])] == 2
        &&& forall|k: int|
            0 <= k < marks.len() && #[trigger] marks[k] == 2 ==> order.contains(self.node_at(k))
        &&& forall|i: int, j: int| 0 <= i < j < order.len() ==> order[i] != order[j]
        &&& forall|i: int, d: Ty|
            0 <= i < order.len() && #[trigger] self.laid_out_in(d, order[i]) ==> exists|j: int|
                0 <= j < i && order[j] == d
    }

    /// The aggregates being laid out are exactly those of `path`, each
    /// laid out inside the one before it.
    pub open spec fn path_good(&self, marks: Seq<u8>, path: Seq<Ty>) -> bool {
        &&& forall|i: int|
            0 <= i < path.len() ==> is_layout_node(#[trigger] path[i]) && self.valid_ty(path[i])
                && marks[self.node_index(path[i])] == 1
        &&& forall|k: int|
            0 <= k < marks.len() && #[trigger] marks[k] == 1 ==> path.contains(self.node_at(k))
        &&& self.layout_chain(path)
    }
}

/// Marks only move forward: a done aggregate stays done and the set of
/// aggregates being laid out is unchanged.
pub open spec fn marks_advance(a: Seq<u8>, b: Seq<u8>) -> bool {
    &&& a.len() == b.len()
    &&& forall|k: int| 0 <= k < a.len() && a[k] == 2 ==> #[trigger] b[k] == 2
    &&& forall|k: int| 0 <= k < a.len() ==> (a[k] == 1 <==> #[trigger] b[k] == 1)
}

/// How many aggregates are not reached yet.
pub open spec fn unvisited(s: Seq<u8>) -> nat
    decreases s.len(),
{
    if s.len() == 0 {
        0
    } else {
        unvisited(s.drop_last()) + if s.last() == 0 { 1nat } else { 0nat }
    }
}

pub(crate) proof fn lemma_unvisited_mono(a: Seq<u8>, b: Seq<u8>)
    requires
        a.len() == b.len(),
        forall|k: int| 0 <= k < b.len() && #[trigger] b[k] == 0 ==> a[k] == 0,
    ensures
        unvisited(b) <= unvisited(a),
    decreases a.len(),
{
    if a.len() > 0 {
        let a2 = a.drop_last();
        let b2 = b.drop_last();
        assert forall|k: int| 0 <= k < b2.len() && #[trigger] b2[k] == 0 implies a2[k] == 0 by {
            assert(b[k] == 0);
        }
        lemma_unvisited_mono(a2, b2);
    }
}

pub(crate) proof fn lemma_unvisited_set(a: Seq<u8>, k: int, v: u8)
    requires
        0 <= k < a.len(),
        a[k] == 0,
        v != 0,
    ensures
        unvisited(a.update(k, v)) + 1 == unvisited(a),
    decreases a.len(),
{
    let b = a.update(k, v);
    if k == a.len() - 1 {
        assert(b.drop_last() =~= a.drop_last());
    } else {
        assert(b.drop_last() =~= a.drop_last().update(k, v));
        lemma_unvisited_set(a.drop_last(), k, v);
    }
}

proof fn lemma_held_valid(types: &Types, ty: Ty, i: int)
    requires
        types.wf(),
        types.valid_ty(ty),
        is_layout_node(ty),
        0 <= i < types.held_by_value(ty).len(),
    ensures
        types.valid_ty(types.held_by_value(ty)[i]),
{
    match ty {
        Ty::User(id) => {
            assert(types.def_wf(id.0 as int));
            match types.defs@[id.0 as int] {
                TypeDef::Union { members, .. } => {
                    assert(members@[i].0 < types.defs@.len());
                },
                _ => {},
            }
        },
        Ty::Sum(id) => {
            assert(types.sum_wf(id.0 as int));
        },
        _ => {},
    }
}

/// What an aggregate holds by value, in layout order.
fn layout_deps(types: &Types, ty: Ty) -> (r: Vec<Ty>)
    requires
        types.valid_ty(ty),
        is_layout_node(ty),
    ensures
        r@ == types.held_by_value(ty),
{
    let mut r: Vec<Ty> = Vec::new();
    match ty {
        Ty::User(id) => match types.def(id) {
            TypeDef::Represented { target, .. } => {
                r.push(*target);
                assert(r@ =~= types.held_by_value(ty));
            },
            TypeDef::Struct { fields, .. } | TypeDef::UnionMember { fields, .. } => {
                let mut i: usize = 0;
                while i < fields.len()
                    invariant
                        i <= fields@.len(),
                        r@.len() == i,
                        forall|j: int| 0 <= j < i ==> r@[j] == (#[trigger] fields@[j]).1,
                    decreases fields.len() - i,
                {
                    r.push(fields[i].1);
                    i = i + 1;
                }
                assert(r@ =~= fields@.map_values(|f: (String, Ty)| f.1));
            },
            TypeDef::Union { members, .. } => {
                let mut i: usize = 0;
                while i < members.len()
                    invariant
                        i <= members@.len(),
                        r@.len() == i,
                        forall|j: int| 0 <= j < i ==> r@[j] == Ty::User(#[trigger] members@[j]),
                    decreases members.len() - i,
                {
                    r.push(Ty::User(members[i]));
                    i = i + 1;
                }
                assert(r@ =~= members@.map_values(|m: TypeId| Ty::User(m)));
            },
        },
        Ty::Sum(id) => {
            let members = types.sum_members(id);
            let mut i: usize = 0;
            while i < members.len()
                invariant
                    i <= members@.len(),
                    r@.len() == i,
                    forall|j: int| 0 <= j < i ==> r@[j] == #[trigger] members@[j],
                decreases members.len() - i,
            {
                r.push(members[i]);
                i = i + 1;
            }
            assert(r@ =~= members@);
        },
        _ => {},
    }
    r
}

fn layout_node_index(types: &Types, ty: Ty) -> (k: usize)
    requires
        types.valid_ty(ty),
        is_layout_node(ty),
        types.node_count() <= usize::MAX,
    ensures
        k as int == types.node_index(ty),
        k < types.node_count(),
{
    match ty {
        Ty::Sum(id) => types.defs.len() + id.index(),
        Ty::User(id) => id.index(),
        _ => 0,
    }
}

/// The internal error for an aggregate that holds itself by value.
fn layout_cycle_error(types: &Types, ty: Ty) -> (r: String)
    requires
        types.valid_ty(ty),
    ensures
        r@ == types.layout_cycle_message(ty),
{
    match ty {
        Ty::User(id) => {
            let quoted = concat_str("'", types.def(id).name().as_str());
            let message = concat_str(quoted.as_str(), "' contains itself by value");
            assert(message@ =~= "'"@ + types.defs@[id.0 as int].spec_name()@
                + "' contains itself by value"@);
            internal(message.as_str())
        },
        _ => internal("an inline sum contains itself by value"),
    }
}

/// Lays out `ty` after everything it holds by value, or reports the first
/// aggregate met again while it is still being laid out.
#[verifier::rlimit(40)]
fn visit(
    types: &Types,
    ty: Ty,
    marks: &mut Vec<u8>,
    order: &mut Vec<Ty>,
    Ghost(path): Ghost<Seq<Ty>>,
) -> (r: Result<(), String>)
    requires
        types.wf(),
        types.defs@.len() <= u32::MAX,
        types.sums@.len() <= u32::MAX,
        types.walk_good(old(marks)@, old(order)@),
        types.path_good(old(marks)@, path),
        is_layout_node(ty),
        types.valid_ty(ty),
        path.len() > 0 ==> types.laid_out_in(ty, path.last()),
    ensures
        match r {
            Ok(()) => {
                &&& types.walk_good(final(marks)@, final(order)@)
                &&& final(marks)@[types.node_index(ty)] == 2
                &&& marks_advance(old(marks)@, final(marks)@)
            },
            Err(msg) => exists|v: Ty|
                types.valid_ty(v) && #[trigger] types.on_layout_cycle(v) && msg@
                    == types.layout_cycle_message(v),
        },
    decreases unvisited(old(marks)@),
{
    let count = marks.len();
    let k = layout_node_index(types, ty);
    proof {
        assert(types.node_at(k as int) == ty);
    }
    if marks[k] == 2 {
        return Ok(());
    }
    if marks[k] == 1 {
        proof {
            assert(path.contains(ty));
            let j = choose|j: int| 0 <= j < path.len() && path[j] == ty;
            let p = path.subrange(j, path.len() as int);
            assert(p.last() == path.last());
            assert(types.layout_chain(p)) by {
                assert forall|a: int, b: int|
                    #![trigger p[a], p[b]]
                    0 <= a && b == a + 1 && b < p.len() implies types.laid_out_in(p[b], p[a]) by {
                    assert(p[a] == path[j + a] && p[b] == path[j + b]);
                }
            }
            assert(types.on_layout_cycle(ty));
        }
        return Err(layout_cycle_error(types, ty));
    }
    let ghost entry = marks@;
    marks.set(k, 1);
    let ghost after_set = marks@;
    let ghost inner = path.push(ty);
    proof {
        lemma_unvisited_set(entry, k as int, 1);
        assert(after_set == entry.update(k as int, 1));
        assert forall|kk: int| 0 <= kk < after_set.len() && #[trigger] after_set[kk] == 1 implies inner.contains(
            types.node_at(kk),
        ) by {
            if kk == k {
                assert(inner[inner.len() - 1] == ty);
            } else {
                assert(entry[kk] == 1);
                let q = choose|q: int| 0 <= q < path.len() && path[q] == types.node_at(kk);
                assert(inner[q] == path[q]);
            }
        }
        assert forall|i: int| 0 <= i < inner.len() implies is_layout_node(#[trigger] inner[i])
            && types.valid_ty(inner[i]) && after_set[types.node_index(inner[i])] == 1 by {
            if i < path.len() {
                assert(inner[i] == path[i]);
                assert(types.node_index(path[i]) != k) by {
                    assert(entry[types.node_index(path[i])] == 1);
                }
            }
        }
        assert forall|a: int, b: int|
            #![trigger inner[a], inner[b]]
            0 <= a && b == a + 1 && b < inner.len() implies types.laid_out_in(inner[b], inner[a]) by {
            if b < path.len() {
                assert(inner[a] == path[a] && inner[b] == path[b]);
            } else {
                assert(inner[a] == path.last());
            }
        }
        assert(types.path_good(after_set, inner));
        assert forall|i: int| 0 <= i < order@.len() implies is_layout_node(#[trigger] order@[i])
            && types.valid_ty(order@[i]) && after_set[types.node_index(order@[i])] == 2 by {
            assert(entry[types.node_index(order@[i])] == 2);
        }
        assert(types.walk_good(after_set, order@));
    }
    let deps = layout_deps(types, ty);
    let mut i: usize = 0;
    let mut failure: Option<String> = None;
    while i < deps.len() && failure.is_none()
        invariant
            types.wf(),
            types.defs@.len() <= u32::MAX,
            types.sums@.len() <= u32::MAX,
            deps@ == types.held_by_value(ty),
            is_layout_node(ty),
            types.valid_ty(ty),
            k as int == types.node_index(ty),
            i <= deps@.len(),
            entry == old(marks)@,
            unvisited(after_set) < unvisited(entry),
            forall|kk: int| 0 <= kk < after_set.len() ==> #[trigger] after_set[kk] <= 2,
            failure.is_none() ==> marks_advance(after_set, marks@),
            after_set[k as int] == 1,
            failure.is_none() ==> types.walk_good(marks@, order@),
            failure.is_none() ==> types.path_good(marks@, inner),
            inner.len() > 0 && inner.last() == ty,
            failure.is_none() ==> forall|j: int|
                0 <= j < i && is_layout_node(#[trigger] deps@[j]) ==> marks@[types.node_index(
                    deps@[j],
                )] == 2,
            failure matches Some(msg) ==> exists|v: Ty|
                types.valid_ty(v) && #[trigger] types.on_layout_cycle(v) && msg@
                    == types.layout_cycle_message(v),
        decreases deps.len() - i,
    {
        let d = deps[i];
        if matches!(d, Ty::User(_) | Ty::Sum(_)) {
            proof {
                lemma_held_valid(types, ty, i as int);
                assert(types.laid_out_in(d, inner.last()));
                lemma_unvisited_mono(after_set, marks@);
            }
            let ghost before = marks@;
            match visit(types, d, marks, order, Ghost(inner)) {
                Ok(()) => {
                    proof {
                        assert forall|kk: int| 0 <= kk < after_set.len() && after_set[kk] == 2 implies #[trigger] marks@[kk] == 2 by {
                            assert(before[kk] == 2);
                        }
                        assert forall|kk: int| 0 <= kk < after_set.len() implies (after_set[kk] == 1 <==> #[trigger] marks@[kk] == 1) by {
                            assert(after_set[kk] == 1 <==> before[kk] == 1);
                        }
                        assert(d == deps@[i as int]);
                        assert(marks@[types.node_index(d)] == 2);
                        assert forall|j: int|
                            0 <= j < i + 1 && is_layout_node(#[trigger] deps@[j]) implies marks@[types.node_index(
                                deps@[j],
                            )] == 2 by {
                            if j < i {
                                lemma_held_valid(types, ty, j);
                                let q = types.node_index(deps@[j]);
                                assert(before[q] == 2);
                                assert(0 <= q < before.len());
                                assert(marks@[q] == 2);
                            } else {
                                assert(deps@[j] == d);
                            }
                        }
                        assert forall|kk: int| 0 <= kk < inner.len() implies #[trigger] marks@[
                            types.node_index(inner[kk])] == 1 by {
                            assert(before[types.node_index(inner[kk])] == 1);
                        }
                    }
                },
                Err(msg) => {
                    failure = Some(msg);
                },
            }
        }
        i = i + 1;
    }
    match failure {
        Some(msg) => {
            return Err(msg);
        },
        None => {},
    }
    let ghost done_marks = marks@;
    let ghost old_order = order@;
    proof {
        assert(!old_order.contains(ty)) by {
            if old_order.contains(ty) {
                let q = choose|q: int| 0 <= q < old_order.len() && old_order[q] == ty;
                assert(done_marks[k as int] == 2);
            }
        }
        assert forall|dd: Ty| #[trigger] types.laid_out_in(dd, ty) implies old_order.contains(dd) by {
            let j = choose|j: int|
                0 <= j < types.held_by_value(ty).len() && #[trigger] types.held_by_value(ty)[j] == dd;
            assert(deps@[j] == dd);
            assert(done_marks[types.node_index(dd)] == 2);
            assert(types.node_at(types.node_index(dd)) == dd);
        }
    }
    marks.set(k, 2);
    order.push(ty);
    proof {
        let m = marks@;
        let o = order@;
        assert(m == done_marks.update(k as int, 2));
        assert(o == old_order.push(ty));
        assert forall|ii: int| 0 <= ii < o.len() implies is_layout_node(#[trigger] o[ii])
            && types.valid_ty(o[ii]) && m[types.node_index(o[ii])] == 2 by {
            if ii < old_order.len() {
                assert(o[ii] == old_order[ii]);
            }
        }
        assert forall|kk: int| 0 <= kk < m.len() && #[trigger] m[kk] == 2 implies o.contains(
            types.node_at(kk),
        ) by {
            if kk == k {
                assert(o[o.len() - 1] == ty);
            } else {
                assert(done_marks[kk] == 2);
                let q = choose|q: int| 0 <= q < old_order.len() && old_order[q] == types.node_at(kk);
                assert(o[q] == old_order[q]);
            }
        }
        assert forall|a: int, b: int| 0 <= a < b < o.len() implies o[a] != o[b] by {
            if b == o.len() - 1 {
                assert(o[a] == old_order[a]);
                assert(old_order.contains(old_order[a]));
            } else {
                assert(o[a] == old_order[a] && o[b] == old_order[b]);
            }
        }
        assert forall|ii: int, dd: Ty|
            0 <= ii < o.len() && #[trigger] types.laid_out_in(dd, o[ii]) implies exists|j: int|
                0 <= j < ii && o[j] == dd by {
            if ii < old_order.len() {
                assert(o[ii] == old_order[ii]);
                let j = choose|j: int| 0 <= j < ii && old_order[j] == dd;
                assert(o[j] == dd);
            } else {
                assert(o[ii] == ty);
                assert(old_order.contains(dd));
                let j = choose|j: int| 0 <= j < old_order.len() && old_order[j] == dd;
                assert(o[j] == dd);
            }
        }
        assert forall|kk: int| 0 <= kk < m.len() implies #[trigger] m[kk] <= 2 by {
            if kk != k {
                assert(m[kk] == done_marks[kk]);
            }
        }
        assert(types.walk_good(m, o));
        assert forall|kk: int| 0 <= kk < entry.len() && entry[kk] == 2 implies #[trigger] m[kk] == 2 by {
            assert(after_set[kk] == 2);
        }
        assert forall|kk: int| 0 <= kk < entry.len() implies (entry[kk] == 1 <==> #[trigger] m[kk] == 1) by {
            if kk != k {
                assert(after_set[kk] == entry[kk]);
                assert(done_marks[kk] == m[kk]);
            }
        }
    }
    Ok(())
}

/// Along a chain of aggregates, a ranking that drops from each aggregate to
/// what it lays out never rises from the first to the last.
proof fn lemma_rank_chain(types: &Types, rank: spec_fn(Ty) -> int, p: Seq<Ty>)
    requires
        p.len() >= 1,
        types.layout_chain(p),
        forall|d: Ty, t: Ty| #[trigger] types.laid_out_in(d, t) ==> rank(d) < rank(t),
    ensures
        rank(p.last()) <= rank(p[0]),
    decreases p.len(),
{
    if p.len() > 1 {
        let q = p.drop_last();
        assert(types.layout_chain(q)) by {
            assert forall|a: int, b: int|
                #![trigger q[a], q[b]]
                0 <= a && b == a + 1 && b < q.len() implies types.laid_out_in(q[b], q[a]) by {
                assert(q[a] == p[a] && q[b] == p[b]);
            }
        }
        lemma_rank_chain(types, rank, q);
        let a = p.len() - 2;
        let b = p.len() - 1;
        assert(types.laid_out_in(p[b], p[a]));
    }
}

/// A ranking that drops from each aggregate to what it lays out rules out
/// every cycle.
proof fn lemma_ranked_acyclic(types: &Types, rank: spec_fn(Ty) -> int)
    requires
        forall|d: Ty, t: Ty| #[trigger] types.laid_out_in(d, t) ==> rank(d) < rank(t),
    ensures
        !types.layout_has_cycle(),
{
    if types.layout_has_cycle() {
        let v = choose|v: Ty| types.valid_ty(v) && #[trigger] types.on_layout_cycle(v);
        let p = choose|p: Seq<Ty>|
            #![trigger types.layout_chain(p)]
            p.len() >= 1 && p[0] == v && types.layout_chain(p) && types.laid_out_in(v, p.last());
        lemma_rank_chain(types, rank, p);
    }
}

/// Where `t` stands in `order`.
pub open spec fn position(order: Seq<Ty>, t: Ty) -> int {
    choose|j: int| 0 <= j < order.len() && order[j] == t
}

/// A layout order leaves no aggregate holding itself.
proof fn lemma_order_acyclic(types: &Types, order: Seq<Ty>)
    requires
        types.is_layout_order(order),
    ensures
        !types.layout_has_cycle(),
{
    let rank = |t: Ty| position(order, t);
    assert forall|d: Ty, t: Ty| #[trigger] types.laid_out_in(d, t) implies rank(d) < rank(t) by {
        assert(order.contains(t));
        let i = position(order, t);
        let j = choose|j: int| 0 <= j < i && order[j] == d;
        assert(order.contains(d));
        let jd = position(order, d);
        if jd != j {
            if jd < j {
                assert(order[jd] != order[j]);
            } else {
                assert(order[j] != order[jd]);
            }
        }
    }
    lemma_ranked_acyclic(types, rank);
}

/// When every value layout is finite, no aggregate holds itself by value,
/// so the layout walk never fails.
pub proof fn lemma_finite_layouts_have_no_cycle(types: &Types)
    requires
        types.layout_finite(),
    ensures
        !types.layout_has_cycle(),
{
    let r = types.layout_rank();
    assert(types.ranked_by(r));
    let rank = |t: Ty| r(t) as int;
    assert forall|d: Ty, t: Ty| #[trigger] types.laid_out_in(d, t) implies rank(d) < rank(t) by {
        let i = choose|i: int|
            0 <= i < types.held_by_value(t).len() && #[trigger] types.held_by_value(t)[i] == d;
        assert(r(types.held_by_value(t)[i]) < r(t));
    }
    lemma_ranked_acyclic(types, rank);
}

/// The order in which the backend gives every user-defined type and inline
/// sum its body: each after everything it holds by value. Fails with an
/// internal error naming an aggregate that holds itself by value, which
/// happens exactly when some aggregate does.
pub fn layout_order(types: &Types) -> (r: Result<Vec<Ty>, String>)
    requires
        types.wf(),
        types.defs@.len() <= u32::MAX,
        types.sums@.len() <= u32::MAX,
        types.node_count() <= usize::MAX,
    ensures
        r is Ok <==> !types.layout_has_cycle(),
        r matches Ok(order) ==> types.is_layout_order(order@),
        r matches Err(msg) ==> exists|v: Ty|
            types.valid_ty(v) && #[trigger] types.on_layout_cycle(v) && msg@
                == types.layout_cycle_message(v),
{
    let defs = types.defs.len();
    let n = defs + types.sums.len();
    let mut marks: Vec<u8> = Vec::new();
    while marks.len() < n
        invariant
            marks@.len() <= n,
            forall|k: int| 0 <= k < marks@.len() ==> #[trigger] marks@[k] == 0,
        decreases n - marks.len(),
    {
        marks.push(0);
    }
    let mut order: Vec<Ty> = Vec::new();
    let mut k: usize = 0;
    let mut failure: Option<String> = None;
    proof {
        assert(types.walk_good(marks@, order@));
        assert(types.path_good(marks@, Seq::empty()));
    }
    while k < n && failure.is_none()
        invariant
            types.wf(),
            types.defs@.len() <= u32::MAX,
            types.sums@.len() <= u32::MAX,
            defs == types.defs@.len(),
            n == types.node_count(),
            k <= n,
            failure.is_none() ==> types.walk_good(marks@, order@),
            failure.is_none() ==> types.path_good(marks@, Seq::empty()),
            failure.is_none() ==> forall|j: int| 0 <= j < k ==> #[trigger] marks@[j] == 2,
            failure matches Some(msg) ==> exists|v: Ty|
                types.valid_ty(v) && #[trigger] types.on_layout_cycle(v) && msg@
                    == types.layout_cycle_message(v),
        decreases n - k,
    {
        let ty = if k < defs {
            Ty::User(TypeId(k as u32))
        } else {
            Ty::Sum(SumId((k - defs) as u32))
        };
        proof {
            assert(types.node_index(ty) == k);
        }
        let ghost before = marks@;
        match visit(types, ty, &mut marks, &mut order, Ghost(Seq::empty())) {
            Ok(()) => {
                proof {
                    assert forall|j: int| 0 <= j < k + 1 implies #[trigger] marks@[j] == 2 by {
                        if j < k {
                            assert(before[j] == 2);
                        }
                    }
                    assert forall|kk: int| 0 <= kk < marks@.len() && #[trigger] marks@[kk] == 1 implies Seq::<Ty>::empty().contains(
                        types.node_at(kk),
                    ) by {
                        assert(before[kk] == 1);
                    }
                }
            },
            Err(msg) => {
                failure = Some(msg);
            },
        }
        k = k + 1;
    }
    match failure {
        Some(msg) => {
            proof {
                let v = choose|v: Ty|
                    types.valid_ty(v) && #[trigger] types.on_layout_cycle(v) && msg@
                        == types.layout_cycle_message(v);
                assert(types.layout_has_cycle());
            }
            Err(msg)
        },
        None => {
            proof {
                assert forall|ty: Ty| is_layout_node(ty) && types.valid_ty(ty) implies #[trigger] order@.contains(ty) by {
                    let q = types.node_index(ty);
                    assert(marks@[q] == 2);
                    assert(types.node_at(q) == ty);
                }
                assert(types.is_layout_order(order@));
                lemma_order_acyclic(types, order@);
            }
            Ok(order)
        },
    }
}

} // verus!
