//! Places (a root plus a field path), place overlap, automatic box
//! dereference, and the control-flow merges of move and borrow state.
use vstd::prelude::*;
use crate::ast::Span;
use crate::ty::{Ty, Types};

verus! {

/// The root of a checked place: a named local or the method receiver.
#[derive(Clone, Debug)]
pub enum PlaceRoot {
    Local(String),
    /// The implicit method receiver.
    SelfRef,
}

/// The abstract value of a [`PlaceRoot`]: a local's name as characters.
pub enum PlaceRootView {
    Local(Seq<char>),
    SelfRef,
}

impl View for PlaceRoot {
    type V = PlaceRootView;

    open spec fn view(&self) -> PlaceRootView {
        match self {
            PlaceRoot::Local(name) => PlaceRootView::Local(name@),
            PlaceRoot::SelfRef => PlaceRootView::SelfRef,
        }
    }
}

/// Whether two roots name the same binding.
pub fn same_root(a: &PlaceRoot, b: &PlaceRoot) -> (r: bool)
    ensures
        r == (a@ == b@),
{
    match (a, b) {
        (PlaceRoot::Local(x), PlaceRoot::Local(y)) => crate::text::str_eq(x.as_str(), y.as_str()),
        (PlaceRoot::SelfRef, PlaceRoot::SelfRef) => true,
        _ => false,
    }
}

/// A new root equal to `root`.
pub fn copy_root(root: &PlaceRoot) -> (r: PlaceRoot)
    ensures
        r@ == root@,
{
    match root {
        PlaceRoot::Local(name) => PlaceRoot::Local(name.clone()),
        PlaceRoot::SelfRef => PlaceRoot::SelfRef,
    }
}

/// A resolved place: a root plus field selectors.
#[derive(Clone, Debug)]
pub struct Place {
    pub root: PlaceRoot,
    pub root_ty: Ty,
    /// Field indices in selection order; empty selects the root itself.
    pub path: Vec<usize>,
    /// The type reached after applying `path`.
    pub ty: Ty,
}

impl View for Place {
    type V = (PlaceRootView, Ty, Seq<usize>, Ty);

    open spec fn view(&self) -> (PlaceRootView, Ty, Seq<usize>, Ty) {
        (self.root@, self.root_ty, self.path@, self.ty)
    }
}

/// A new place equal to `place`.
pub fn copy_place(place: &Place) -> (r: Place)
    ensures
        r@ == place@,
{
    let mut path: Vec<usize> = Vec::new();
    let mut i: usize = 0;
    while i < place.path.len()
        invariant
            i <= place.path@.len(),
            path@ == place.path@.subrange(0, i as int),
        decreases place.path.len() - i,
    {
        path.push(place.path[i]);
        i = i + 1;
        assert(path@ =~= place.path@.subrange(0, i as int));
    }
    assert(place.path@.subrange(0, place.path@.len() as int) =~= place.path@);
    Place { root: copy_root(&place.root), root_ty: place.root_ty, path, ty: place.ty }
}

/// Whether a checked place use copies or consumes its value.
#[derive(Clone, Copy, Debug, PartialEq, Eq, Structural)]
pub enum UseMode {
    Copy,
    Consume,
}

/// Whether `a` selects the first `a.len()` fields that `b` selects.
pub open spec fn is_path_prefix(a: Seq<usize>, b: Seq<usize>) -> bool {
    a.len() <= b.len() && forall|i: int| 0 <= i < a.len() ==> a[i] == b[i]
}

/// Two field paths agree on every position both of them have.
pub open spec fn paths_agree(a: Seq<usize>, b: Seq<usize>) -> bool {
    forall|i: int| 0 <= i < a.len() && 0 <= i < b.len() ==> a[i] == b[i]
}

pub open spec fn spec_overlaps(left: &Place, right: &Place) -> bool {
    left.root@ == right.root@ && paths_agree(left.path@, right.path@)
}

/// Two places overlap when they share a root and neither path leaves the
/// other at a sibling field: one is a prefix of the other.
pub fn overlaps(left: &Place, right: &Place) -> (r: bool)
    ensures
        r == spec_overlaps(left, right),
{
    if !same_root(&left.root, &right.root) {
        return false;
    }
    let shared = if left.path.len() < right.path.len() {
        left.path.len()
    } else {
        right.path.len()
    };
    let mut i: usize = 0;
    while i < shared
        invariant
            shared <= left.path@.len(),
            shared <= right.path@.len(),
            shared == left.path@.len() || shared == right.path@.len(),
            i <= shared,
            forall|k: int| 0 <= k < i ==> left.path@[k] == right.path@[k],
        decreases shared - i,
    {
        if left.path[i] != right.path[i] {
            return false;
        }
        i = i + 1;
    }
    true
}

/// Overlap is symmetric and reflexive, and two places on one root overlap
/// exactly when one field path is a prefix of the other; paths that first
/// differ at sibling fields are disjoint.
pub proof fn lemma_overlap_laws(a: &Place, b: &Place)
    ensures
        spec_overlaps(a, b) == spec_overlaps(b, a),
        spec_overlaps(a, a),
        a.root@ == b.root@ ==> (spec_overlaps(a, b) <==> (is_path_prefix(a.path@, b.path@)
            || is_path_prefix(b.path@, a.path@))),
        forall|i: int|
            0 <= i < a.path@.len() && 0 <= i < b.path@.len() && a.path@[i] != b.path@[i]
                ==> !spec_overlaps(a, b),
{
}

/// Whether `ty` is a built-in view type.
pub open spec fn spec_is_builtin_view(ty: Ty) -> bool {
    ty is ViewByte || ty is ViewUnicode || ty is View
}

pub fn is_builtin_view(ty: Ty) -> (r: bool)
    ensures
        r == spec_is_builtin_view(ty),
{
    matches!(ty, Ty::ViewByte | Ty::ViewUnicode | Ty::View(_))
}

/// The measure that bounds automatic box dereference.
pub open spec fn box_rank(ty: Ty) -> nat {
    match ty {
        Ty::Box(id) => id.0 as nat + 1,
        _ => 0,
    }
}

/// The type reached by peeling every `Box<T>` layer from `ty`.
pub open spec fn spec_deref_box(types: &Types, ty: Ty) -> Ty
    decreases box_rank(ty),
{
    match ty {
        Ty::Box(id) => if id.0 < types.boxes@.len() && box_rank(types.boxes@[id.0 as int])
            < box_rank(ty) {
            spec_deref_box(types, types.boxes@[id.0 as int])
        } else {
            ty
        },
        _ => ty,
    }
}

proof fn lemma_deref_box_facts(types: &Types, ty: Ty)
    requires
        types.wf(),
        types.valid_ty(ty),
    ensures
        !(spec_deref_box(types, ty) is Box),
        types.valid_ty(spec_deref_box(types, ty)),
    decreases box_rank(ty),
{
    if let Ty::Box(id) = ty {
        assert(types.box_wf(id.0 as int));
        lemma_deref_box_facts(types, types.boxes@[id.0 as int]);
    }
}

/// Field access and method calls automatically dereference as many box
/// layers as member resolution requires; peeling stops at the first
/// non-box type.
pub fn deref_box(types: &Types, ty: Ty) -> (r: Ty)
    requires
        types.wf(),
        types.valid_ty(ty),
    ensures
        r == spec_deref_box(types, ty),
        !(r is Box),
        types.valid_ty(r),
{
    proof {
        lemma_deref_box_facts(types, ty);
    }
    let mut current = ty;
    loop
        invariant
            types.wf(),
            types.valid_ty(current),
            spec_deref_box(types, current) == spec_deref_box(types, ty),
        decreases box_rank(current),
    {
        match current {
            Ty::Box(id) => {
                proof {
                    assert(types.box_wf(id.0 as int));
                }
                current = types.box_pointee(id);
            },
            _ => return current,
        }
    }
}

/// Peeling boxes is idempotent, and leaves a non-box type unchanged.
pub proof fn lemma_deref_box_idempotent(types: &Types, ty: Ty)
    requires
        types.wf(),
        types.valid_ty(ty),
    ensures
        spec_deref_box(types, spec_deref_box(types, ty)) == spec_deref_box(types, ty),
        !(ty is Box) ==> spec_deref_box(types, ty) == ty,
{
    lemma_deref_box_facts(types, ty);
}

/// The moved roots at one program point, each with the span of the
/// operation that moved it.
pub struct MoveState {
    pub entries: Vec<(PlaceRoot, Span)>,
}

/// Whether `entries` records `root` as moved.
pub open spec fn moves_root(entries: Seq<(PlaceRoot, Span)>, root: PlaceRootView) -> bool {
    exists|i: int| 0 <= i < entries.len() && (#[trigger] entries[i]).0@ == root
}

/// The roots recorded in `entries` are distinct.
pub open spec fn distinct_roots(entries: Seq<(PlaceRoot, Span)>) -> bool {
    forall|i: int, j: int|
        0 <= i < entries.len() && 0 <= j < entries.len() && i != j ==> entries[i].0@
            != entries[j].0@
}

/// Whether `entries` records `root` as moved by the operation at `span`.
pub open spec fn moved_at(entries: Seq<(PlaceRoot, Span)>, root: PlaceRootView, span: Span) -> bool {
    exists|i: int| 0 <= i < entries.len() && (#[trigger] entries[i]).0@ == root && entries[i].1 == span
}

/// Whether `k` is the first of `exits` that moves `root`.
pub open spec fn first_mover(exits: Seq<MoveState>, root: PlaceRootView, k: int) -> bool {
    &&& 0 <= k < exits.len()
    &&& moves_root(exits[k].entries@, root)
    &&& forall|j: int| 0 <= j < k ==> !moves_root(#[trigger] exits[j].entries@, root)
}

/// `after` is the moves of a join of `exits`: each root once, moved when
/// some predecessor moves it, at the span the first such predecessor gives.
pub open spec fn moves_merge_of(exits: Seq<MoveState>, after: Seq<(PlaceRoot, Span)>) -> bool {
    &&& distinct_roots(after)
    &&& forall|root: PlaceRootView|
        moves_root(after, root) <==> exists|k: int| 0 <= k < exits.len() && moves_root((#[trigger] exits[k]).entries@, root)
    &&& forall|root: PlaceRootView, k: int, span: Span|
        #![trigger first_mover(exits, root, k), moved_at(after, root, span)]
        first_mover(exits, root, k) ==> (moved_at(after, root, span) <==> moved_at(exits[k].entries@, root, span))
}

impl MoveState {
    pub open spec fn wf(&self) -> bool {
        distinct_roots(self.entries@)
    }

    /// Whether `root` is currently moved.
    pub fn contains(&self, root: &PlaceRoot) -> (r: bool)
        ensures
            r == moves_root(self.entries@, root@),
    {
        let mut i: usize = 0;
        while i < self.entries.len()
            invariant
                i <= self.entries@.len(),
                forall|k: int| 0 <= k < i ==> (#[trigger] self.entries@[k]).0@ != root@,
            decreases self.entries.len() - i,
        {
            if same_root(&self.entries[i].0, root) {
                assert(self.entries@[i as int].0@ == root@);
                return true;
            }
            i = i + 1;
        }
        false
    }

    /// Makes `root` available again: its entry, if any, is dropped and
    /// every other entry kept in order.
    pub fn remove(&mut self, root: &PlaceRoot)
        requires
            old(self).wf(),
        ensures
            final(self).wf(),
            moves_root(old(self).entries@, root@) ==> exists|k: int|
                0 <= k < old(self).entries@.len() && (#[trigger] old(self).entries@[k]).0@ == root@
                    && final(self).entries@ == old(self).entries@.remove(k),
            !moves_root(old(self).entries@, root@) ==> final(self).entries@ == old(self).entries@,
            forall|r: PlaceRootView|
                moves_root(final(self).entries@, r) <==> moves_root(old(self).entries@, r) && r != root@,
    {
        let ghost orig = self.entries@;
        let mut i: usize = 0;
        while i < self.entries.len()
            invariant
                i <= self.entries@.len(),
                self.entries@ == orig,
                orig == old(self).entries@,
                distinct_roots(orig),
                forall|q: int| 0 <= q < i ==> (#[trigger] orig[q]).0@ != root@,
            decreases self.entries.len() - i,
        {
            if same_root(&self.entries[i].0, root) {
                let k = i;
                self.entries.remove(k);
                proof {
                    let after = self.entries@;
                    assert(after =~= orig.remove(k as int));
                    assert forall|a: int, b: int|
                        0 <= a < after.len() && 0 <= b < after.len() && a != b implies after[a].0@ != after[b].0@ by {
                        let oa = if a < k { a } else { a + 1 };
                        let ob = if b < k { b } else { b + 1 };
                        assert(after[a] == orig[oa] && after[b] == orig[ob]);
                    }
                    assert forall|r: PlaceRootView|
                        moves_root(after, r) <==> moves_root(orig, r) && r != root@ by {
                        if moves_root(after, r) {
                            let q = choose|q: int| 0 <= q < after.len() && (#[trigger] after[q]).0@ == r;
                            let oq = if q < k { q } else { q + 1 };
                            assert(after[q] == orig[oq]);
                            assert(oq != k);
                        }
                        if moves_root(orig, r) && r != root@ {
                            let q = choose|q: int| 0 <= q < orig.len() && (#[trigger] orig[q]).0@ == r;
                            assert(q != k);
                            let aq = if q < k { q } else { q - 1 };
                            assert(after[aq] == orig[q]);
                        }
                    }
                    assert(orig[k as int].0@ == root@);
                    assert(moves_root(orig, root@));
                }
                return;
            }
            i = i + 1;
        }
        proof {
            assert forall|r: PlaceRootView| moves_root(orig, r) implies r != root@ by {
                let q = choose|q: int| 0 <= q < orig.len() && (#[trigger] orig[q]).0@ == r;
            }
        }
    }
}

/// A root is available after a merge only when it is available on every
/// reachable predecessor, so the merged moved set is the union of every
/// predecessor's moved set. The span kept for a root is the one recorded
/// by the first predecessor that moved it.
pub fn merge_moves(exits: Vec<MoveState>) -> (r: MoveState)
    requires
        forall|k: int| 0 <= k < exits@.len() ==> (#[trigger] exits@[k]).wf(),
    ensures
        r.wf(),
        forall|root: PlaceRootView|
            moves_root(r.entries@, root) <==> exists|k: int|
                0 <= k < exits@.len() && moves_root((#[trigger] exits@[k]).entries@, root),
        forall|root: PlaceRootView, k: int, span: Span|
            #![trigger first_mover(exits@, root, k), moved_at(r.entries@, root, span)]
            first_mover(exits@, root, k) ==> (moved_at(r.entries@, root, span) <==> moved_at(
                exits@[k].entries@,
                root,
                span,
            )),
        moves_merge_of(exits@, r.entries@),
{
    let ghost all = exits@;
    let mut merged = MoveState { entries: Vec::new() };
    let mut exits = exits;
    let count = exits.len();
    let mut n: usize = 0;
    while exits.len() > 0
        invariant
            all.len() == count,
            distinct_roots(merged.entries@),
            n + exits@.len() == all.len(),
            exits@ =~= all.skip(n as int),
            forall|k: int| 0 <= k < all.len() ==> (#[trigger] all[k]).wf(),
            forall|root: PlaceRootView|
                moves_root(merged.entries@, root) <==> exists|k: int|
                    0 <= k < n && moves_root((#[trigger] all[k]).entries@, root),
            forall|root: PlaceRootView, k: int, span: Span|
                #![trigger first_mover(all, root, k), moved_at(merged.entries@, root, span)]
                first_mover(all, root, k) && k < n ==> (moved_at(merged.entries@, root, span)
                    <==> moved_at(all[k].entries@, root, span)),
        decreases exits.len(),
    {
        let exit = exits.remove(0);
        assert(exit == all[n as int]);
        let ghost before = merged.entries@;
        let ghost exit_entries = exit.entries@;
        assert(all[n as int].wf());
        let mut entries = exit.entries;
        let total = entries.len();
        let mut added: usize = 0;
        while entries.len() > 0
            invariant
                exit_entries.len() == total,
                exit_entries == all[n as int].entries@,
                n < all.len(),
                distinct_roots(merged.entries@),
                distinct_roots(exit_entries),
                added + entries@.len() == exit_entries.len(),
                entries@ =~= exit_entries.skip(added as int),
                forall|root: PlaceRootView|
                    #![trigger moves_root(merged.entries@, root)]
                    moves_root(merged.entries@, root) <==> (moves_root(before, root) || exists|i: int|
                        0 <= i < added && (#[trigger] exit_entries[i]).0@ == root),
                forall|root: PlaceRootView, span: Span|
                    moves_root(before, root) ==> (moved_at(merged.entries@, root, span)
                        <==> moved_at(before, root, span)),
                forall|root: PlaceRootView, span: Span|
                    !moves_root(before, root) ==> (moved_at(merged.entries@, root, span)
                        <==> exists|i: int|
                        0 <= i < added && (#[trigger] exit_entries[i]).0@ == root
                            && exit_entries[i].1 == span),
            decreases entries.len(),
        {
            let (root, span) = entries.remove(0);
            assert(entries@.len() >= 0);
            assert((root, span) == exit_entries[added as int]);
            let ghost prev = merged.entries@;
            let ghost e = exit_entries[added as int];
            if !merged.contains(&root) {
                merged.entries.push((root, span));
                proof {
                    let cur = merged.entries@;
                    assert(cur == prev.push(e));
                    assert forall|i: int, j: int|
                        0 <= i < cur.len() && 0 <= j < cur.len() && i != j implies cur[i].0@
                        != cur[j].0@ by {
                        if i == prev.len() {
                            assert(prev[j] == cur[j]);
                        } else if j == prev.len() {
                            assert(prev[i] == cur[i]);
                        }
                    }
                    assert forall|root2: PlaceRootView| moves_root(cur, root2) <==> (moves_root(
                        before,
                        root2,
                    ) || exists|i: int| 0 <= i < added + 1 && (#[trigger] exit_entries[i]).0@ == root2) by {
                        if moves_root(cur, root2) {
                            let i = choose|i: int| 0 <= i < cur.len() && (#[trigger] cur[i]).0@ == root2;
                            if i < prev.len() {
                                assert(prev[i] == cur[i]);
                                assert(moves_root(prev, root2));
                            } else {
                                assert(exit_entries[added as int].0@ == root2);
                            }
                        }
                        if moves_root(before, root2) {
                            assert(moves_root(prev, root2));
                            let i = choose|i: int| 0 <= i < prev.len() && (#[trigger] prev[i]).0@ == root2;
                            assert(cur[i] == prev[i]);
                        }
                        if exists|i: int| 0 <= i < added + 1 && (#[trigger] exit_entries[i]).0@ == root2 {
                            let i = choose|i: int| 0 <= i < added + 1 && (#[trigger] exit_entries[i]).0@ == root2;
                            if i < added {
                                assert(moves_root(prev, root2));
                                let i2 = choose|i2: int| 0 <= i2 < prev.len() && (#[trigger] prev[i2]).0@ == root2;
                                assert(cur[i2] == prev[i2]);
                            } else {
                                assert(cur[prev.len() as int] == e);
                            }
                        }
                    }
                    assert forall|root2: PlaceRootView, sp: Span|
                        moves_root(before, root2) implies (moved_at(cur, root2, sp) <==> moved_at(
                        before,
                        root2,
                        sp,
                    )) by {
                        assert(moves_root(prev, root2));
                        assert(root2 != e.0@);
                        if moved_at(cur, root2, sp) {
                            let i = choose|i: int| 0 <= i < cur.len() && (#[trigger] cur[i]).0@ == root2 && cur[i].1 == sp;
                            assert(i < prev.len());
                            assert(prev[i] == cur[i]);
                            assert(moved_at(prev, root2, sp));
                        }
                        if moved_at(prev, root2, sp) {
                            let i = choose|i: int| 0 <= i < prev.len() && (#[trigger] prev[i]).0@ == root2 && prev[i].1 == sp;
                            assert(cur[i] == prev[i]);
                        }
                    }
                    assert forall|root2: PlaceRootView, sp: Span|
                        !moves_root(before, root2) implies (moved_at(cur, root2, sp) <==> exists|i: int|
                        0 <= i < added + 1 && (#[trigger] exit_entries[i]).0@ == root2
                            && exit_entries[i].1 == sp) by {
                        if root2 == e.0@ {
                            assert(!moves_root(prev, root2));
                            if moved_at(cur, root2, sp) {
                                let i = choose|i: int| 0 <= i < cur.len() && (#[trigger] cur[i]).0@ == root2 && cur[i].1 == sp;
                                if i < prev.len() {
                                    assert(prev[i] == cur[i]);
                                }
                                assert(exit_entries[added as int].1 == sp);
                            }
                            if exists|i: int| 0 <= i < added + 1 && (#[trigger] exit_entries[i]).0@ == root2
                                && exit_entries[i].1 == sp {
                                let i = choose|i: int| 0 <= i < added + 1 && (#[trigger] exit_entries[i]).0@ == root2
                                    && exit_entries[i].1 == sp;
                                assert(i == added);
                                assert(cur[prev.len() as int] == e);
                            }
                        } else {
                            if moved_at(cur, root2, sp) {
                                let i = choose|i: int| 0 <= i < cur.len() && (#[trigger] cur[i]).0@ == root2 && cur[i].1 == sp;
                                assert(i < prev.len());
                                assert(prev[i] == cur[i]);
                                assert(moved_at(prev, root2, sp));
                            }
                            if exists|i: int| 0 <= i < added + 1 && (#[trigger] exit_entries[i]).0@ == root2
                                && exit_entries[i].1 == sp {
                                let i = choose|i: int| 0 <= i < added + 1 && (#[trigger] exit_entries[i]).0@ == root2
                                    && exit_entries[i].1 == sp;
                                assert(i < added);
                                assert(moved_at(prev, root2, sp));
                                let i2 = choose|i2: int| 0 <= i2 < prev.len() && (#[trigger] prev[i2]).0@ == root2 && prev[i2].1 == sp;
                                assert(cur[i2] == prev[i2]);
                            }
                        }
                    }
                }
            } else {
                proof {
                    assert(moves_root(prev, e.0@));
                    if !moves_root(before, e.0@) {
                        let i = choose|i: int| 0 <= i < added && (#[trigger] exit_entries[i]).0@ == e.0@;
                        assert(exit_entries[i].0@ == exit_entries[added as int].0@);
                    }
                    assert forall|root2: PlaceRootView| moves_root(prev, root2) <==> (moves_root(
                        before,
                        root2,
                    ) || exists|i: int| 0 <= i < added + 1 && (#[trigger] exit_entries[i]).0@ == root2) by {
                        if exists|i: int| 0 <= i < added + 1 && (#[trigger] exit_entries[i]).0@ == root2 {
                            let i = choose|i: int| 0 <= i < added + 1 && (#[trigger] exit_entries[i]).0@ == root2;
                            if i < added {
                                assert(0 <= i < added && exit_entries[i].0@ == root2);
                                assert(moves_root(prev, root2));
                            }
                        }
                    }
                    assert forall|root2: PlaceRootView, sp: Span|
                        !moves_root(before, root2) implies (moved_at(prev, root2, sp) <==> exists|i: int|
                        0 <= i < added + 1 && (#[trigger] exit_entries[i]).0@ == root2
                            && exit_entries[i].1 == sp) by {
                        if exists|i: int| 0 <= i < added + 1 && (#[trigger] exit_entries[i]).0@ == root2
                            && exit_entries[i].1 == sp {
                            let i = choose|i: int| 0 <= i < added + 1 && (#[trigger] exit_entries[i]).0@ == root2
                                && exit_entries[i].1 == sp;
                            assert(i < added);
                        }
                    }
                }
            }
            added = added + 1;
        }
        proof {
            let cur = merged.entries@;
            assert(added == exit_entries.len());
            assert forall|root: PlaceRootView| moves_root(cur, root) <==> exists|k: int|
                0 <= k < n + 1 && moves_root((#[trigger] all[k]).entries@, root) by {
                if moves_root(cur, root) {
                    if moves_root(before, root) {
                        let k = choose|k: int| 0 <= k < n && moves_root((#[trigger] all[k]).entries@, root);
                        assert(0 <= k < n + 1 && moves_root(all[k].entries@, root));
                    } else {
                        let i = choose|i: int| 0 <= i < added && (#[trigger] exit_entries[i]).0@ == root;
                        assert(moves_root(all[n as int].entries@, root));
                    }
                }
                if exists|k: int| 0 <= k < n + 1 && moves_root((#[trigger] all[k]).entries@, root) {
                    let k = choose|k: int| 0 <= k < n + 1 && moves_root((#[trigger] all[k]).entries@, root);
                    if k == n {
                        let i = choose|i: int| 0 <= i < exit_entries.len() && (#[trigger] exit_entries[i]).0@ == root;
                        assert(exit_entries[i].0@ == root);
                        assert(moves_root(cur, root));
                    } else {
                        assert(0 <= k < n && moves_root(all[k].entries@, root));
                        assert(moves_root(before, root));
                        assert(moves_root(cur, root));
                    }
                }
            }
            assert forall|root: PlaceRootView, k: int, span: Span|
                #![trigger first_mover(all, root, k), moved_at(cur, root, span)]
                first_mover(all, root, k) && k < n + 1 implies (moved_at(cur, root, span)
                    <==> moved_at(all[k].entries@, root, span)) by {
                if k < n {
                    assert(0 <= k < n && moves_root(all[k].entries@, root));
                    assert(moves_root(before, root));
                    assert(moved_at(cur, root, span) <==> moved_at(before, root, span));
                    assert(moved_at(before, root, span) <==> moved_at(all[k].entries@, root, span));
                } else {
                    assert(!moves_root(before, root)) by {
                        if moves_root(before, root) {
                            let j = choose|j: int| 0 <= j < n && moves_root((#[trigger] all[j]).entries@, root);
                            assert(!moves_root(all[j].entries@, root));
                        }
                    }
                    if moved_at(all[k].entries@, root, span) {
                        let i = choose|i: int| 0 <= i < exit_entries.len() && (#[trigger] exit_entries[i]).0@ == root && exit_entries[i].1 == span;
                        assert(exit_entries[i].0@ == root);
                        assert(moved_at(cur, root, span));
                    }
                    if moved_at(cur, root, span) {
                        let i = choose|i: int| 0 <= i < added && (#[trigger] exit_entries[i]).0@ == root && exit_entries[i].1 == span;
                        assert(all[k].entries@[i] == exit_entries[i]);
                    }
                }
            }
        }
        n = n + 1;
    }
    merged
}

/// A local immutable view borrow tracked to its source roots. `scope`
/// limits last-use pruning to borrows whose view binding is alive in the
/// block being analyzed; a `persistent` borrow (iteration) keeps its source
/// borrowed for a whole loop body.
#[derive(Debug)]
pub struct ViewBorrow {
    pub view_name: String,
    pub sources: Vec<PlaceRoot>,
    pub scope: usize,
    pub persistent: bool,
}

/// Whether `sources` holds a root equal to `root`.
pub open spec fn has_source(sources: Seq<PlaceRoot>, root: PlaceRootView) -> bool {
    exists|q: int| 0 <= q < sources.len() && (#[trigger] sources[q])@ == root
}

/// Whether some borrow in `occs` is named `name`.
pub open spec fn borrows_named(occs: Seq<ViewBorrow>, name: Seq<char>) -> bool {
    exists|p: int| 0 <= p < occs.len() && (#[trigger] occs[p]).view_name@ == name
}

/// `e` is the merge of every borrow in `occs` that carries `e`'s name: the
/// smallest scope, persistent when any is, and every source of any of them.
pub open spec fn summarizes(e: ViewBorrow, occs: Seq<ViewBorrow>) -> bool {
    let n = e.view_name@;
    &&& forall|p: int|
        0 <= p < occs.len() && (#[trigger] occs[p]).view_name@ == n ==> e.scope <= occs[p].scope
    &&& exists|p: int|
        0 <= p < occs.len() && (#[trigger] occs[p]).view_name@ == n && occs[p].scope == e.scope
    &&& (e.persistent <==> exists|p: int|
        0 <= p < occs.len() && (#[trigger] occs[p]).view_name@ == n && occs[p].persistent)
    &&& forall|root: PlaceRootView|
        has_source(e.sources@, root) <==> exists|p: int|
            0 <= p < occs.len() && (#[trigger] occs[p]).view_name@ == n && has_source(
                occs[p].sources@,
                root,
            )
}

/// The position of the first borrow named `name` in `occs`, or -1.
pub open spec fn first_borrow_at(occs: Seq<ViewBorrow>, name: Seq<char>) -> int
    decreases occs.len(),
{
    if occs.len() == 0 {
        -1
    } else {
        let f = first_borrow_at(occs.drop_last(), name);
        if f >= 0 {
            f
        } else if occs.last().view_name@ == name {
            occs.len() - 1
        } else {
            -1
        }
    }
}

/// `sources`, then each root of `add` that is not yet among them, in order.
pub open spec fn gathered(sources: Seq<PlaceRoot>, add: Seq<PlaceRoot>) -> Seq<PlaceRoot>
    decreases add.len(),
{
    if add.len() == 0 {
        sources
    } else {
        let prev = gathered(sources, add.drop_last());
        if has_source(prev, add.last()@) {
            prev
        } else {
            prev.push(add.last())
        }
    }
}

/// The sources a merge records for the view `name`: those of the first
/// borrow of that name, then each later borrow's new sources, in order.
pub open spec fn merged_sources(occs: Seq<ViewBorrow>, name: Seq<char>) -> Seq<PlaceRoot>
    decreases occs.len(),
{
    if occs.len() == 0 {
        Seq::empty()
    } else {
        let prev = occs.drop_last();
        let b = occs.last();
        if b.view_name@ != name {
            merged_sources(prev, name)
        } else if borrows_named(prev, name) {
            gathered(merged_sources(prev, name), b.sources@)
        } else {
            b.sources@
        }
    }
}

proof fn lemma_first_borrow_at(occs: Seq<ViewBorrow>, name: Seq<char>)
    ensures
        -1 <= first_borrow_at(occs, name) < occs.len(),
        first_borrow_at(occs, name) >= 0 <==> borrows_named(occs, name),
        first_borrow_at(occs, name) >= 0 ==> occs[first_borrow_at(occs, name)].view_name@ == name,
    decreases occs.len(),
{
    if occs.len() > 0 {
        let prev = occs.drop_last();
        lemma_first_borrow_at(prev, name);
        if borrows_named(prev, name) {
            let q = choose|q: int| 0 <= q < prev.len() && (#[trigger] prev[q]).view_name@ == name;
            assert(occs[q] == prev[q]);
        }
        if borrows_named(occs, name) {
            let q = choose|q: int| 0 <= q < occs.len() && (#[trigger] occs[q]).view_name@ == name;
            if q < prev.len() {
                assert(prev[q] == occs[q]);
            }
        }
        if occs.last().view_name@ == name {
            assert(occs[occs.len() - 1] == occs.last());
        }
        let f = first_borrow_at(prev, name);
        if f >= 0 {
            assert(occs[f] == prev[f]);
        }
    }
}

proof fn lemma_first_borrow_at_is(occs: Seq<ViewBorrow>, name: Seq<char>, i: int)
    requires
        0 <= i < occs.len(),
        occs[i].view_name@ == name,
        forall|j: int| 0 <= j < i ==> (#[trigger] occs[j]).view_name@ != name,
    ensures
        first_borrow_at(occs, name) == i,
    decreases occs.len(),
{
    let prev = occs.drop_last();
    if i == occs.len() - 1 {
        lemma_first_borrow_at(prev, name);
        if borrows_named(prev, name) {
            let q = choose|q: int| 0 <= q < prev.len() && (#[trigger] prev[q]).view_name@ == name;
            assert(occs[q] == prev[q]);
        }
    } else {
        assert forall|j: int| 0 <= j < i implies (#[trigger] prev[j]).view_name@ != name by {
            assert(prev[j] == occs[j]);
        }
        lemma_first_borrow_at_is(prev, name, i);
    }
}

/// Names in `bs` are pairwise distinct.
pub open spec fn distinct_names(bs: Seq<ViewBorrow>) -> bool {
    forall|j: int, l: int|
        #![trigger bs[j], bs[l]]
        0 <= j < bs.len() && 0 <= l < bs.len() && j != l ==> bs[j].view_name@ != bs[l].view_name@
}

/// `r` is what merging the borrows `occs` gives: one entry per name, in
/// first-occurrence order, each summarizing every borrow of its name, with
/// its sources gathered in order.
pub open spec fn merge_of(occs: Seq<ViewBorrow>, r: Seq<ViewBorrow>) -> bool {
    &&& distinct_names(r)
    &&& forall|name: Seq<char>| borrows_named(r, name) <==> borrows_named(occs, name)
    &&& forall|j: int| 0 <= j < r.len() ==> summarizes(#[trigger] r[j], occs)
    &&& in_first_order(occs, r)
    &&& sources_merged(occs, r)
}

/// Gathering roots that are all present already changes nothing.
proof fn lemma_gathered_present(sources: Seq<PlaceRoot>, add: Seq<PlaceRoot>)
    requires
        forall|k: int| 0 <= k < add.len() ==> has_source(sources, (#[trigger] add[k])@),
    ensures
        gathered(sources, add) == sources,
    decreases add.len(),
{
    if add.len() > 0 {
        lemma_gathered_present(sources, add.drop_last());
        assert(has_source(sources, add[add.len() - 1]@));
    }
}

/// The sources merged for a name that only the borrow at `i` carries are
/// that borrow's own.
proof fn lemma_merged_sources_once(occs: Seq<ViewBorrow>, name: Seq<char>, i: int)
    requires
        0 <= i < occs.len(),
        occs[i].view_name@ == name,
        forall|j: int| 0 <= j < occs.len() && j != i ==> (#[trigger] occs[j]).view_name@ != name,
    ensures
        merged_sources(occs, name) == occs[i].sources@,
    decreases occs.len(),
{
    let prev = occs.drop_last();
    if i == occs.len() - 1 {
        if borrows_named(prev, name) {
            let q = choose|q: int| 0 <= q < prev.len() && (#[trigger] prev[q]).view_name@ == name;
            assert(occs[q] == prev[q]);
        }
    } else {
        assert forall|j: int| 0 <= j < prev.len() && j != i implies (#[trigger] prev[j]).view_name@ != name by {
            assert(prev[j] == occs[j]);
        }
        assert(occs.last() == occs[occs.len() - 1]);
        lemma_merged_sources_once(prev, name, i);
    }
}

/// Appending borrows of which only the one at `i` carries `name` gathers
/// that borrow's sources into those merged before.
proof fn lemma_merged_sources_append(s: Seq<ViewBorrow>, t: Seq<ViewBorrow>, name: Seq<char>, i: int)
    requires
        borrows_named(s, name),
        0 <= i < t.len(),
        t[i].view_name@ == name,
        forall|j: int| 0 <= j < t.len() && j != i ==> (#[trigger] t[j]).view_name@ != name,
    ensures
        merged_sources(s + t, name) == gathered(merged_sources(s, name), t[i].sources@),
    decreases t.len(),
{
    let st = s + t;
    let q = choose|q: int| 0 <= q < s.len() && (#[trigger] s[q]).view_name@ == name;
    assert(st[q] == s[q]);
    let tp = t.drop_last();
    assert(st.drop_last() =~= s + tp);
    assert(st.last() == t[t.len() - 1]);
    if i == t.len() - 1 {
        assert forall|j: int| 0 <= j < tp.len() implies (#[trigger] tp[j]).view_name@ != name by {
            assert(tp[j] == t[j]);
        }
        lemma_merged_sources_skip(s, tp, name);
        assert((s + tp)[q] == s[q]);
    } else {
        assert forall|j: int| 0 <= j < tp.len() && j != i implies (#[trigger] tp[j]).view_name@ != name by {
            assert(tp[j] == t[j]);
        }
        lemma_merged_sources_append(s, tp, name, i);
    }
}

/// Borrows of other names leave the merged sources of `name` as they were.
proof fn lemma_merged_sources_skip(s: Seq<ViewBorrow>, t: Seq<ViewBorrow>, name: Seq<char>)
    requires
        forall|j: int| 0 <= j < t.len() ==> (#[trigger] t[j]).view_name@ != name,
    ensures
        merged_sources(s + t, name) == merged_sources(s, name),
    decreases t.len(),
{
    if t.len() == 0 {
        assert(s + t =~= s);
    } else {
        let tp = t.drop_last();
        assert((s + t).drop_last() =~= s + tp);
        assert((s + t).last() == t[t.len() - 1]);
        lemma_merged_sources_skip(s, tp, name);
    }
}

/// Merging one borrow state whose names are distinct, or that state
/// joined with itself, gives the state back entry by entry: the same names
/// in the same order, with the same sources, scope and persistence.
pub proof fn lemma_merge_of_one_state(x: Seq<ViewBorrow>, twice: bool, r: Seq<ViewBorrow>)
    requires
        distinct_names(x),
        merge_of(if twice { x + x } else { x }, r),
    ensures
        r.len() == x.len(),
        forall|j: int|
            0 <= j < x.len() ==> (#[trigger] r[j]).view_name@ == x[j].view_name@ && r[j].sources@ == x[j].sources@
                && r[j].scope == x[j].scope && r[j].persistent == x[j].persistent,
{
    let occs = if twice { x + x } else { x };
    let n = x.len();
    // Every borrow of `occs` is one of `x`, the one at its position modulo `n`.
    assert forall|p: int| 0 <= p < occs.len() implies #[trigger] occs[p] == x[if p < n { p } else { p - n }] by {
    }
    // The first borrow named like `x[i]` is at `i`.
    assert forall|i: int| 0 <= i < n implies first_borrow_at(occs, (#[trigger] x[i]).view_name@) == i by {
        assert(occs[i] == x[i]);
        assert forall|j: int| 0 <= j < i implies (#[trigger] occs[j]).view_name@ != x[i].view_name@ by {
            assert(occs[j] == x[j]);
        }
        lemma_first_borrow_at_is(occs, x[i].view_name@, i);
    }
    // Each entry of `r` names the borrow of `x` at its first position.
    assert forall|j: int| 0 <= j < r.len() implies 0 <= first_borrow_at(occs, (#[trigger] r[j]).view_name@) < n
        && x[first_borrow_at(occs, r[j].view_name@)].view_name@ == r[j].view_name@ by {
        assert(borrows_named(r, r[j].view_name@));
        assert(borrows_named(occs, r[j].view_name@));
        lemma_first_borrow_at(occs, r[j].view_name@);
        let f = first_borrow_at(occs, r[j].view_name@);
        let i = if f < n { f } else { f - n };
        assert(occs[f] == x[i]);
        assert(first_borrow_at(occs, x[i].view_name@) == i);
    }
    // Every position of `x` is some entry's first position.
    assert forall|i: int| 0 <= i < n implies borrows_named(r, (#[trigger] x[i]).view_name@) by {
        assert(occs[i] == x[i]);
        assert(borrows_named(occs, x[i].view_name@));
        assert(borrows_named(r, x[i].view_name@));
    }
    lemma_positions_are_identity(x, occs, r, 0);
    assert forall|j: int| 0 <= j < x.len() implies (#[trigger] r[j]).view_name@ == x[j].view_name@ && r[j].sources@
        == x[j].sources@ && r[j].scope == x[j].scope && r[j].persistent == x[j].persistent by {
        let name = x[j].view_name@;
        assert(first_borrow_at(occs, r[j].view_name@) == j);
        assert(r[j].view_name@ == name);
        assert(summarizes(r[j], occs));
        assert(r[j].sources@ == merged_sources(occs, name));
        if twice {
            assert forall|l: int| 0 <= l < x.len() && l != j implies (#[trigger] x[l]).view_name@ != name by {
                assert(x[l].view_name@ != x[j].view_name@);
            }
            lemma_merged_sources_once(x, name, j);
            lemma_merged_sources_append(x, x, name, j);
            assert forall|k: int| 0 <= k < x[j].sources@.len() implies has_source(
                x[j].sources@,
                (#[trigger] x[j].sources@[k])@,
            ) by {
            }
            lemma_gathered_present(x[j].sources@, x[j].sources@);
        } else {
            assert forall|l: int| 0 <= l < occs.len() && l != j implies (#[trigger] occs[l]).view_name@ != name by {
                assert(x[l].view_name@ != x[j].view_name@);
            }
            lemma_merged_sources_once(occs, name, j);
        }
        let p = choose|p: int| 0 <= p < occs.len() && (#[trigger] occs[p]).view_name@ == name && occs[p].scope == r[j].scope;
        let ip = if p < n { p } else { p - n };
        assert(occs[p] == x[ip]);
        if ip != j {
            assert(x[ip].view_name@ != x[j].view_name@);
        }
        if r[j].persistent {
            let q = choose|q: int| 0 <= q < occs.len() && (#[trigger] occs[q]).view_name@ == name && occs[q].persistent;
            let iq = if q < n { q } else { q - n };
            assert(occs[q] == x[iq]);
            if iq != j {
                assert(x[iq].view_name@ != x[j].view_name@);
            }
        }
        if x[j].persistent {
            assert(occs[j] == x[j]);
        }
    }
}

/// The positions entries of `r` take are exactly `0, 1, ...` from `k` on,
/// given they increase and cover every position of `x`.
proof fn lemma_positions_are_identity(x: Seq<ViewBorrow>, occs: Seq<ViewBorrow>, r: Seq<ViewBorrow>, k: int)
    requires
        distinct_names(x),
        in_first_order(occs, r),
        0 <= k,
        forall|i: int| 0 <= i < x.len() ==> first_borrow_at(occs, (#[trigger] x[i]).view_name@) == i,
        forall|j: int| 0 <= j < r.len() ==> 0 <= first_borrow_at(occs, (#[trigger] r[j]).view_name@) < x.len()
            && x[first_borrow_at(occs, r[j].view_name@)].view_name@ == r[j].view_name@,
        forall|i: int| 0 <= i < x.len() ==> borrows_named(r, (#[trigger] x[i]).view_name@),
        forall|j: int| 0 <= j < k && j < r.len() ==> first_borrow_at(occs, (#[trigger] r[j]).view_name@) == j,
    ensures
        r.len() == x.len(),
        forall|j: int| 0 <= j < r.len() ==> first_borrow_at(occs, (#[trigger] r[j]).view_name@) == j,
    decreases x.len() + 1 - k,
{
    if k < x.len() {
        assert(borrows_named(r, x[k].view_name@));
        let w = choose|j: int| 0 <= j < r.len() && (#[trigger] r[j]).view_name@ == x[k].view_name@;
        assert(first_borrow_at(occs, r[w].view_name@) == k);
        if w < k {
            assert(first_borrow_at(occs, r[w].view_name@) == w);
        }
        // k < r.len(): w >= k and w < r.len().
        if w > k {
            assert(first_borrow_at(occs, r[k].view_name@) < first_borrow_at(occs, r[w].view_name@));
            if k > 0 {
                assert(first_borrow_at(occs, r[k - 1].view_name@) == k - 1);
                assert(first_borrow_at(occs, r[k - 1].view_name@) < first_borrow_at(occs, r[k].view_name@));
            }
        }
        lemma_positions_are_identity(x, occs, r, k + 1);
    } else {
        if r.len() > x.len() {
            let m = x.len() as int;
            assert(first_borrow_at(occs, r[m].view_name@) < x.len());
            if m > 0 {
                assert(first_borrow_at(occs, r[m - 1].view_name@) == m - 1);
                assert(first_borrow_at(occs, r[m - 1].view_name@) < first_borrow_at(occs, r[m].view_name@));
            } else {
                assert(0 <= first_borrow_at(occs, r[m].view_name@));
            }
        }
        if r.len() < x.len() {
            let m = r.len() as int;
            assert(borrows_named(r, x[m].view_name@));
            let w = choose|j: int| 0 <= j < r.len() && (#[trigger] r[j]).view_name@ == x[m].view_name@;
            assert(first_borrow_at(occs, r[w].view_name@) == m);
            assert(first_borrow_at(occs, r[w].view_name@) == w);
        }
    }
}

/// The entries of `merged` are listed in the order their names first occur
/// in `occs`.
pub open spec fn in_first_order(occs: Seq<ViewBorrow>, merged: Seq<ViewBorrow>) -> bool {
    forall|j: int, l: int|
        #![trigger merged[j], merged[l]]
        0 <= j < l < merged.len() ==> first_borrow_at(occs, merged[j].view_name@) < first_borrow_at(occs, merged[l].view_name@)
}

/// Each entry of `merged` records the sources a merge of `occs` gives its
/// name, in order.
pub open spec fn sources_merged(occs: Seq<ViewBorrow>, merged: Seq<ViewBorrow>) -> bool {
    forall|j: int| 0 <= j < merged.len() ==> (#[trigger] merged[j]).sources@ == merged_sources(occs, merged[j].view_name@)
}

proof fn lemma_merge_update(prefix: Seq<ViewBorrow>, b: ViewBorrow, before: Seq<ViewBorrow>, cur: Seq<ViewBorrow>, k: int)
    requires
        0 <= k < before.len(),
        cur.len() == before.len(),
        forall|l: int| 0 <= l < cur.len() && l != k ==> cur[l] == before[l],
        cur[k].view_name@ == b.view_name@,
        before[k].view_name@ == b.view_name@,
        forall|j: int, l: int|
            0 <= j < before.len() && 0 <= l < before.len() && j != l ==> before[j].view_name@ != before[l].view_name@,
        forall|l: int| 0 <= l < before.len() ==> borrows_named(prefix, (#[trigger] before[l]).view_name@),
        in_first_order(prefix, before),
        sources_merged(prefix, before),
        cur[k].sources@ == gathered(merged_sources(prefix, b.view_name@), b.sources@),
    ensures
        in_first_order(prefix.push(b), cur),
        sources_merged(prefix.push(b), cur),
{
    let s = prefix.push(b);
    assert(s.drop_last() =~= prefix);
    assert(s.last() == b);
    assert forall|l: int| 0 <= l < cur.len() implies first_borrow_at(s, (#[trigger] cur[l]).view_name@) == first_borrow_at(
        prefix,
        cur[l].view_name@,
    ) by {
        if l != k {
            assert(cur[l] == before[l]);
        }
        assert(borrows_named(prefix, before[l].view_name@));
        lemma_first_borrow_at(prefix, cur[l].view_name@);
    }
    assert forall|j: int, l: int| 0 <= j < l < cur.len() implies first_borrow_at(s, (#[trigger] cur[j]).view_name@)
        < first_borrow_at(s, (#[trigger] cur[l]).view_name@) by {
        if j != k {
            assert(cur[j] == before[j]);
        }
        if l != k {
            assert(cur[l] == before[l]);
        }
        assert(first_borrow_at(prefix, before[j].view_name@) < first_borrow_at(prefix, before[l].view_name@));
    }
    assert forall|j: int| 0 <= j < cur.len() implies (#[trigger] cur[j]).sources@ == merged_sources(
        s,
        cur[j].view_name@,
    ) by {
        if j != k {
            assert(cur[j] == before[j]);
            assert(before[j].view_name@ != before[k].view_name@);
        } else {
            assert(borrows_named(prefix, before[k].view_name@));
        }
    }
}

proof fn lemma_merge_push(prefix: Seq<ViewBorrow>, b: ViewBorrow, before: Seq<ViewBorrow>)
    requires
        !borrows_named(prefix, b.view_name@),
        forall|l: int| 0 <= l < before.len() ==> borrows_named(prefix, (#[trigger] before[l]).view_name@),
        forall|l: int| 0 <= l < before.len() ==> (#[trigger] before[l]).view_name@ != b.view_name@,
        in_first_order(prefix, before),
        sources_merged(prefix, before),
    ensures
        in_first_order(prefix.push(b), before.push(b)),
        sources_merged(prefix.push(b), before.push(b)),
{
    let s = prefix.push(b);
    let cur = before.push(b);
    assert(s.drop_last() =~= prefix);
    assert(s.last() == b);
    lemma_first_borrow_at(prefix, b.view_name@);
    assert(first_borrow_at(s, b.view_name@) == prefix.len());
    assert forall|l: int| 0 <= l < before.len() implies first_borrow_at(s, (#[trigger] before[l]).view_name@)
        == first_borrow_at(prefix, before[l].view_name@) && first_borrow_at(prefix, before[l].view_name@) < prefix.len() by {
        lemma_first_borrow_at(prefix, before[l].view_name@);
    }
    assert forall|j: int, l: int| 0 <= j < l < cur.len() implies first_borrow_at(s, (#[trigger] cur[j]).view_name@)
        < first_borrow_at(s, (#[trigger] cur[l]).view_name@) by {
        assert(cur[j] == before[j]);
        if l < before.len() {
            assert(cur[l] == before[l]);
        } else {
            assert(cur[l] == b);
        }
    }
    assert forall|j: int| 0 <= j < cur.len() implies (#[trigger] cur[j]).sources@ == merged_sources(
        s,
        cur[j].view_name@,
    ) by {
        if j < before.len() {
            assert(cur[j] == before[j]);
        } else {
            assert(cur[j] == b);
        }
    }
}

/// Every borrow of every exit, in exit order.
pub open spec fn all_borrows(exits: Seq<Vec<ViewBorrow>>) -> Seq<ViewBorrow>
    decreases exits.len(),
{
    if exits.len() == 0 {
        Seq::empty()
    } else {
        all_borrows(exits.drop_last()) + exits.last()@
    }
}

proof fn lemma_summarizes_other(e: ViewBorrow, occs: Seq<ViewBorrow>, b: ViewBorrow)
    requires
        summarizes(e, occs),
        e.view_name@ != b.view_name@,
    ensures
        summarizes(e, occs.push(b)),
{
    let occs2 = occs.push(b);
    let n = e.view_name@;
    assert forall|p: int|
        0 <= p < occs2.len() && (#[trigger] occs2[p]).view_name@ == n implies e.scope
        <= occs2[p].scope by {
        assert(occs2[p] == occs[p]);
    }
    let p0 = choose|p: int|
        0 <= p < occs.len() && (#[trigger] occs[p]).view_name@ == n && occs[p].scope == e.scope;
    assert(occs2[p0] == occs[p0]);
    if e.persistent {
        let p = choose|p: int|
            0 <= p < occs.len() && (#[trigger] occs[p]).view_name@ == n && occs[p].persistent;
        assert(occs2[p] == occs[p]);
    }
    if exists|p: int| 0 <= p < occs2.len() && (#[trigger] occs2[p]).view_name@ == n && occs2[p].persistent {
        let p = choose|p: int| 0 <= p < occs2.len() && (#[trigger] occs2[p]).view_name@ == n && occs2[p].persistent;
        assert(occs2[p] == occs[p]);
    }
    assert forall|root: PlaceRootView| has_source(e.sources@, root) <==> exists|p: int|
        0 <= p < occs2.len() && (#[trigger] occs2[p]).view_name@ == n && has_source(
            occs2[p].sources@,
            root,
        ) by {
        if has_source(e.sources@, root) {
            let p = choose|p: int|
                0 <= p < occs.len() && (#[trigger] occs[p]).view_name@ == n && has_source(
                    occs[p].sources@,
                    root,
                );
            assert(occs2[p] == occs[p]);
        }
        if exists|p: int|
            0 <= p < occs2.len() && (#[trigger] occs2[p]).view_name@ == n && has_source(
                occs2[p].sources@,
                root,
            ) {
            let p = choose|p: int|
                0 <= p < occs2.len() && (#[trigger] occs2[p]).view_name@ == n && has_source(
                    occs2[p].sources@,
                    root,
                );
            assert(occs2[p] == occs[p]);
        }
    }
}

proof fn lemma_summarizes_fresh(occs: Seq<ViewBorrow>, b: ViewBorrow)
    requires
        !borrows_named(occs, b.view_name@),
    ensures
        summarizes(b, occs.push(b)),
{
    let occs2 = occs.push(b);
    let n = b.view_name@;
    assert forall|p: int| 0 <= p < occs2.len() && (#[trigger] occs2[p]).view_name@ == n implies p
        == occs.len() by {
        if p < occs.len() {
            assert(occs2[p] == occs[p]);
        }
    }
    assert(occs2[occs.len() as int] == b);
}

proof fn lemma_summarizes_join(
    old_e: ViewBorrow,
    new_e: ViewBorrow,
    occs: Seq<ViewBorrow>,
    b: ViewBorrow,
)
    requires
        summarizes(old_e, occs),
        old_e.view_name@ == b.view_name@,
        new_e.view_name@ == old_e.view_name@,
        new_e.scope == if old_e.scope <= b.scope {
            old_e.scope
        } else {
            b.scope
        },
        new_e.persistent == (old_e.persistent || b.persistent),
        forall|root: PlaceRootView|
            has_source(new_e.sources@, root) <==> (has_source(old_e.sources@, root) || has_source(
                b.sources@,
                root,
            )),
    ensures
        summarizes(new_e, occs.push(b)),
{
    let occs2 = occs.push(b);
    let n = new_e.view_name@;
    let last = occs.len() as int;
    assert(occs2[last] == b);
    assert forall|p: int|
        0 <= p < occs2.len() && (#[trigger] occs2[p]).view_name@ == n implies new_e.scope
        <= occs2[p].scope by {
        if p < last {
            assert(occs2[p] == occs[p]);
        }
    }
    if old_e.scope <= b.scope {
        let p0 = choose|p: int|
            0 <= p < occs.len() && (#[trigger] occs[p]).view_name@ == n && occs[p].scope
                == old_e.scope;
        assert(occs2[p0] == occs[p0]);
    }
    if old_e.persistent {
        let p = choose|p: int|
            0 <= p < occs.len() && (#[trigger] occs[p]).view_name@ == n && occs[p].persistent;
        assert(occs2[p] == occs[p]);
    }
    if exists|p: int| 0 <= p < occs2.len() && (#[trigger] occs2[p]).view_name@ == n && occs2[p].persistent {
        let p = choose|p: int| 0 <= p < occs2.len() && (#[trigger] occs2[p]).view_name@ == n && occs2[p].persistent;
        if p < last {
            assert(occs2[p] == occs[p]);
        }
    }
    assert forall|root: PlaceRootView| has_source(new_e.sources@, root) <==> exists|p: int|
        0 <= p < occs2.len() && (#[trigger] occs2[p]).view_name@ == n && has_source(
            occs2[p].sources@,
            root,
        ) by {
        if has_source(old_e.sources@, root) {
            let p = choose|p: int|
                0 <= p < occs.len() && (#[trigger] occs[p]).view_name@ == n && has_source(
                    occs[p].sources@,
                    root,
                );
            assert(occs2[p] == occs[p]);
        }
        if exists|p: int|
            0 <= p < occs2.len() && (#[trigger] occs2[p]).view_name@ == n && has_source(
                occs2[p].sources@,
                root,
            ) {
            let p = choose|p: int|
                0 <= p < occs2.len() && (#[trigger] occs2[p]).view_name@ == n && has_source(
                    occs2[p].sources@,
                    root,
                );
            if p < last {
                assert(occs2[p] == occs[p]);
            }
        }
    }
}

/// Whether `sources` holds `root`.
fn contains_root(sources: &Vec<PlaceRoot>, root: &PlaceRoot) -> (r: bool)
    ensures
        r == has_source(sources@, root@),
{
    let mut q: usize = 0;
    while q < sources.len()
        invariant
            q <= sources@.len(),
            forall|k: int| 0 <= k < q ==> (#[trigger] sources@[k])@ != root@,
        decreases sources.len() - q,
    {
        if same_root(&sources[q], root) {
            assert(sources@[q as int]@ == root@);
            return true;
        }
        q = q + 1;
    }
    false
}

/// Conservatively merges borrow provenance at a control-flow join: one
/// entry per view name, with the smallest scope, persistent when any
/// predecessor's is, and every source any predecessor recorded, so a view
/// that can borrow either source protects both.
pub fn merge_view_borrows(exits: Vec<Vec<ViewBorrow>>) -> (r: Vec<ViewBorrow>)
    ensures
        forall|j: int, l: int|
            0 <= j < r@.len() && 0 <= l < r@.len() && j != l ==> r@[j].view_name@
                != r@[l].view_name@,
        forall|name: Seq<char>|
            borrows_named(r@, name) <==> borrows_named(all_borrows(exits@), name),
        forall|j: int| 0 <= j < r@.len() ==> summarizes(#[trigger] r@[j], all_borrows(exits@)),
        in_first_order(all_borrows(exits@), r@),
        sources_merged(all_borrows(exits@), r@),
        merge_of(all_borrows(exits@), r@),
{
    let ghost all = exits@;
    let mut exits = exits;
    let count = exits.len();
    let mut flat: Vec<ViewBorrow> = Vec::new();
    let mut n: usize = 0;
    while exits.len() > 0
        invariant
            all.len() == count,
            n + exits@.len() == all.len(),
            exits@ =~= all.skip(n as int),
            flat@ =~= all_borrows(all.take(n as int)),
        decreases exits.len(),
    {
        let mut exit = exits.remove(0);
        proof {
            assert(exit == all[n as int]);
            assert(all.take(n + 1).drop_last() =~= all.take(n as int));
        }
        flat.append(&mut exit);
        n = n + 1;
    }
    proof {
        assert(all.take(count as int) =~= all);
    }
    let ghost occ = flat@;
    let total = flat.len();
    let mut merged: Vec<ViewBorrow> = Vec::new();
    let mut i: usize = 0;
    while flat.len() > 0
        invariant
            occ.len() == total,
            i + flat@.len() == total,
            flat@ =~= occ.skip(i as int),
            forall|j: int, l: int|
                0 <= j < merged@.len() && 0 <= l < merged@.len() && j != l ==> merged@[j].view_name@
                    != merged@[l].view_name@,
            forall|name: Seq<char>|
                #![trigger borrows_named(merged@, name)]
                borrows_named(merged@, name) <==> borrows_named(occ.take(i as int), name),
            forall|j: int| 0 <= j < merged@.len() ==> summarizes(#[trigger] merged@[j], occ.take(i as int)),
            in_first_order(occ.take(i as int), merged@),
            sources_merged(occ.take(i as int), merged@),
        decreases flat.len(),
    {
        let borrow = flat.remove(0);
        let ghost prefix = occ.take(i as int);
        proof {
            assert(borrow == occ[i as int]);
            assert(occ.take(i + 1) =~= prefix.push(borrow));
        }
        let ghost b = borrow;
        let mut found: Option<usize> = None;
        let mut j: usize = 0;
        while j < merged.len()
            invariant
                j <= merged@.len(),
                found matches Some(k) ==> k < j && merged@[k as int].view_name@ == borrow.view_name@,
                found is None ==> forall|l: int| 0 <= l < j ==> (#[trigger] merged@[l]).view_name@ != borrow.view_name@,
            decreases merged.len() - j,
        {
            if found.is_none() && merged[j].view_name == borrow.view_name {
                found = Some(j);
            }
            j = j + 1;
        }
        let ghost before = merged@;
        match found {
            Some(k) => {
                let mut existing = merged.remove(k);
                let ghost old_e = before[k as int];
                assert(existing == old_e);
                let ViewBorrow { view_name: _, sources: mut incoming, scope, persistent } = borrow;
                let ghost b_sources = incoming@;
                let ghost start = existing.sources@;
                let mut taken: usize = 0;
                let incoming_len = incoming.len();
                while incoming.len() > 0
                    invariant
                        b_sources.len() == incoming_len,
                        taken + incoming@.len() == b_sources.len(),
                        incoming@ =~= b_sources.skip(taken as int),
                        existing.view_name == old_e.view_name,
                        existing.scope == old_e.scope,
                        existing.persistent == old_e.persistent,
                        forall|root: PlaceRootView|
                            has_source(existing.sources@, root) <==> (has_source(start, root)
                                || has_source(b_sources.take(taken as int), root)),
                        existing.sources@ == gathered(start, b_sources.take(taken as int)),
                    decreases incoming.len(),
                {
                    let source = incoming.remove(0);
                    assert(source == b_sources[taken as int]);
                    let ghost prev_sources = existing.sources@;
                    let present = contains_root(&existing.sources, &source);
                    if !present {
                        existing.sources.push(source);
                    }
                    proof {
                        let bt = b_sources[taken as int];
                        assert forall|root: PlaceRootView|
                            has_source(existing.sources@, root) <==> (has_source(prev_sources, root)
                                || root == bt@) by {
                            if present {
                                assert(existing.sources@ == prev_sources);
                            } else {
                                assert(existing.sources@ == prev_sources.push(bt));
                                if has_source(prev_sources, root) {
                                    let q = choose|q: int| 0 <= q < prev_sources.len() && (#[trigger] prev_sources[q])@ == root;
                                    assert(existing.sources@[q] == prev_sources[q]);
                                }
                                if root == bt@ {
                                    assert(existing.sources@[prev_sources.len() as int] == bt);
                                }
                                if has_source(existing.sources@, root) {
                                    let q = choose|q: int| 0 <= q < existing.sources@.len() && (#[trigger] existing.sources@[q])@ == root;
                                    if q < prev_sources.len() {
                                        assert(existing.sources@[q] == prev_sources[q]);
                                    }
                                }
                            }
                        }
                        let pre = b_sources.take(taken as int);
                        let post = b_sources.take(taken + 1);
                        assert(post =~= pre.push(bt));
                        assert(post.drop_last() =~= pre);
                        assert forall|root: PlaceRootView|
                            has_source(existing.sources@, root) <==> (has_source(start, root)
                                || has_source(post, root)) by {
                            assert(has_source(prev_sources, root) <==> (has_source(start, root)
                                || has_source(pre, root)));
                            if has_source(post, root) {
                                let q = choose|q: int| 0 <= q < post.len() && (#[trigger] post[q])@ == root;
                                if q < pre.len() {
                                    assert(pre[q] == post[q]);
                                }
                            }
                            if has_source(pre, root) {
                                let q = choose|q: int| 0 <= q < pre.len() && (#[trigger] pre[q])@ == root;
                                assert(pre[q] == post[q]);
                            }
                            if root == bt@ {
                                assert(post[taken as int] == bt);
                            }
                        }
                    }
                    taken = taken + 1;
                }
                if scope < existing.scope {
                    existing.scope = scope;
                }
                existing.persistent = existing.persistent || persistent;
                proof {
                    assert forall|root: PlaceRootView|
                        has_source(existing.sources@, root) <==> (has_source(old_e.sources@, root)
                            || has_source(b.sources@, root)) by {
                        assert(taken == b_sources.len());
                        assert(b_sources == b.sources@);
                        assert(b_sources.take(taken as int) =~= b_sources);
                    }
                    assert(summarizes(old_e, prefix));
                    lemma_summarizes_join(old_e, existing, prefix, b);
                }
                proof {
                    assert(b_sources.take(taken as int) =~= b_sources);
                    assert(existing.sources@ == gathered(merged_sources(prefix, b.view_name@), b.sources@));
                }
                merged.insert(k, existing);
                proof {
                    assert forall|l: int| 0 <= l < before.len() implies borrows_named(prefix, (#[trigger] before[l]).view_name@) by {
                        assert(borrows_named(before, before[l].view_name@));
                    }
                    lemma_merge_update(prefix, b, before, merged@, k as int);
                }
                proof {
                    let cur = merged@;
                    assert forall|l: int| 0 <= l < cur.len() implies summarizes(#[trigger] cur[l], prefix.push(b)) by {
                        if l != k {
                            assert(cur[l] == before[l]);
                            assert(summarizes(before[l], prefix));
                            lemma_summarizes_other(before[l], prefix, b);
                        }
                    }
                    assert forall|x: int, y: int|
                        0 <= x < cur.len() && 0 <= y < cur.len() && x != y implies cur[x].view_name@
                        != cur[y].view_name@ by {
                        assert(x != k ==> cur[x] == before[x]);
                        assert(y != k ==> cur[y] == before[y]);
                    }
                    assert forall|name: Seq<char>|
                        borrows_named(cur, name) <==> borrows_named(prefix.push(b), name) by {
                        if borrows_named(cur, name) {
                            let p = choose|p: int| 0 <= p < cur.len() && (#[trigger] cur[p]).view_name@ == name;
                            if p != k {
                                assert(cur[p] == before[p]);
                            }
                            assert(borrows_named(before, name));
                            let q = choose|q: int| 0 <= q < prefix.len() && (#[trigger] prefix[q]).view_name@ == name;
                            assert(prefix.push(b)[q] == prefix[q]);
                        }
                        if borrows_named(prefix.push(b), name) {
                            let q = choose|q: int| 0 <= q < prefix.len() + 1 && (#[trigger] prefix.push(b)[q]).view_name@ == name;
                            if q < prefix.len() {
                                assert(prefix.push(b)[q] == prefix[q]);
                                assert(borrows_named(prefix, name));
                                assert(borrows_named(before, name));
                                let p = choose|p: int| 0 <= p < before.len() && (#[trigger] before[p]).view_name@ == name;
                                if p != k {
                                    assert(cur[p] == before[p]);
                                } else {
                                    assert(cur[k as int].view_name@ == name);
                                }
                            } else {
                                assert(cur[k as int].view_name@ == name);
                            }
                        }
                    }
                }
            },
            None => {
                proof {
                    assert(!borrows_named(before, b.view_name@));
                    assert(!borrows_named(prefix, b.view_name@));
                    lemma_summarizes_fresh(prefix, b);
                }
                merged.push(borrow);
                proof {
                    assert forall|l: int| 0 <= l < before.len() implies borrows_named(prefix, (#[trigger] before[l]).view_name@) by {
                        assert(borrows_named(before, before[l].view_name@));
                    }
                    assert forall|l: int| 0 <= l < before.len() implies (#[trigger] before[l]).view_name@ != b.view_name@ by {
                        assert(borrows_named(before, before[l].view_name@));
                    }
                    lemma_merge_push(prefix, b, before);
                    assert(merged@ == before.push(b));
                }
                proof {
                    let cur = merged@;
                    assert forall|l: int| 0 <= l < cur.len() implies summarizes(#[trigger] cur[l], prefix.push(b)) by {
                        if l < before.len() {
                            assert(cur[l] == before[l]);
                            assert(summarizes(before[l], prefix));
                            assert(before[l].view_name@ != b.view_name@);
                            lemma_summarizes_other(before[l], prefix, b);
                        }
                    }
                    assert forall|x: int, y: int|
                        0 <= x < cur.len() && 0 <= y < cur.len() && x != y implies cur[x].view_name@
                        != cur[y].view_name@ by {
                        if x < before.len() {
                            assert(cur[x] == before[x]);
                        }
                        if y < before.len() {
                            assert(cur[y] == before[y]);
                        }
                    }
                    assert forall|name: Seq<char>|
                        borrows_named(cur, name) <==> borrows_named(prefix.push(b), name) by {
                        if borrows_named(cur, name) {
                            let p = choose|p: int| 0 <= p < cur.len() && (#[trigger] cur[p]).view_name@ == name;
                            if p < before.len() {
                                assert(cur[p] == before[p]);
                                assert(borrows_named(before, name));
                                let q = choose|q: int| 0 <= q < prefix.len() && (#[trigger] prefix[q]).view_name@ == name;
                                assert(prefix.push(b)[q] == prefix[q]);
                            } else {
                                assert(prefix.push(b)[prefix.len() as int] == b);
                            }
                        }
                        if borrows_named(prefix.push(b), name) {
                            let q = choose|q: int| 0 <= q < prefix.len() + 1 && (#[trigger] prefix.push(b)[q]).view_name@ == name;
                            if q < prefix.len() {
                                assert(prefix.push(b)[q] == prefix[q]);
                                assert(borrows_named(prefix, name));
                                assert(borrows_named(before, name));
                                let p = choose|p: int| 0 <= p < before.len() && (#[trigger] before[p]).view_name@ == name;
                                assert(cur[p] == before[p]);
                            } else {
                                assert(cur[before.len() as int] == b);
                            }
                        }
                    }
                }
            },
        }
        i = i + 1;
    }
    proof {
        assert(occ.take(total as int) =~= occ);
    }
    merged
}

} // verus!
