//! Ownership state while a body is checked: which move-only roots are
//! moved, which roots a live view still borrows, the diagnostics for a use
//! after a move or a move out of a borrowed source, and the cleanup plans
//! run when a scope is left.
use vstd::prelude::*;
use crate::ast::{BlockElement, Span, Spanned};
use std::rc::Rc;
use crate::checked::{Error, TBlock, TCleanup, TCondition, TDeferred, TExpr};
use crate::generics::{Diagnostics, diagnostics};
use crate::lowering::root_name;
use crate::mentions::{element_mentions_local, spec_element_mentions_local};
use crate::ownership::is_move_only;
use crate::places::{
    MoveState, Place, PlaceRoot, PlaceRootView, UseMode, ViewBorrow, copy_place, copy_root,
    deref_box, has_source, moves_root, overlaps, same_root, spec_deref_box, spec_overlaps,
};
use crate::text::{concat_str, str_eq};
use crate::ty::{Ty, TypeId, Types};

verus! {

/// How a root is written in diagnostics.
pub open spec fn root_text(root: PlaceRootView) -> Seq<char> {
    match root {
        PlaceRootView::Local(name) => name,
        PlaceRootView::SelfRef => "self"@,
    }
}

/// The written field selectors of `path` starting from a value of type
/// `current`, each as `.name`; box layers are looked through, and the text
/// stops at the first selector that does not name a field.
pub open spec fn place_path_text(types: &Types, current: Ty, path: Seq<usize>) -> Seq<char>
    decreases path.len(),
{
    if path.len() == 0 {
        Seq::empty()
    } else {
        match spec_deref_box(types, current) {
            Ty::User(id) => if id.0 < types.defs@.len() {
                match types.defs@[id.0 as int].spec_fields() {
                    Some(fields) => if path[0] < fields.len() {
                        "."@ + fields[path[0] as int].0@ + place_path_text(
                            types,
                            fields[path[0] as int].1,
                            path.drop_first(),
                        )
                    } else {
                        Seq::empty()
                    },
                    None => Seq::empty(),
                }
            } else {
                Seq::empty()
            },
            _ => Seq::empty(),
        }
    }
}

/// A place as it was written: its root, then its field selectors.
pub open spec fn spec_place_name(types: &Types, place: Place) -> Seq<char> {
    root_text(place.root@) + place_path_text(types, place.root_ty, place.path@)
}

/// Renders a resolved place the way it was written, so a diagnostic can
/// name it.
pub fn place_name(types: &Types, place: &Place) -> (r: String)
    requires
        types.wf(),
        types.valid_ty(place.root_ty),
    ensures
        r@ == spec_place_name(types, *place),
{
    let ghost full = spec_place_name(types, *place);
    let mut text = String::from_str(root_name(&place.root));
    let mut current = place.root_ty;
    let mut i: usize = 0;
    let mut done = false;
    proof {
        assert(place.path@.skip(0) =~= place.path@);
    }
    while i < place.path.len() && !done
        invariant
            types.wf(),
            types.valid_ty(current),
            i <= place.path@.len(),
            !done ==> text@ + place_path_text(types, current, place.path@.skip(i as int)) == full,
            done ==> text@ == full,
        decreases place.path.len() - i,
    {
        let ghost rest = place.path@.skip(i as int);
        proof {
            assert(rest[0] == place.path@[i as int]);
            assert(rest.drop_first() =~= place.path@.skip(i + 1));
        }
        let index = place.path[i];
        let peeled = deref_box(types, current);
        match peeled {
            Ty::User(id) => match types.def(id).fields() {
                Some(fields) => {
                    if index < fields.len() {
                        proof {
                            assert(types.def_wf(id.0 as int));
                        }
                        let ghost before = text@;
                        text.append(".");
                        text.append(fields[index].0.as_str());
                        current = fields[index].1;
                        proof {
                            assert(before + ("."@ + fields@[index as int].0@ + place_path_text(
                                types,
                                current,
                                place.path@.skip(i + 1),
                            )) =~= text@ + place_path_text(types, current, place.path@.skip(i + 1)));
                        }
                    } else {
                        done = true;
                        proof {
                            assert(text@ + Seq::<char>::empty() =~= text@);
                        }
                    }
                },
                None => {
                    done = true;
                    proof {
                        assert(text@ + Seq::<char>::empty() =~= text@);
                    }
                },
            },
            _ => {
                done = true;
                proof {
                    assert(text@ + Seq::<char>::empty() =~= text@);
                }
            },
        }
        i = i + 1;
    }
    proof {
        if !done {
            assert(place.path@.skip(i as int).len() == 0);
            assert(text@ + Seq::<char>::empty() =~= text@);
        }
    }
    text
}

/// One binding in scope while a body is checked.
pub struct Binding<'src> {
    pub name: &'src str,
    pub ty: Ty,
    pub mutable: bool,
    /// How many lexical blocks enclose the binding.
    pub scope: usize,
    /// Set only for a union- or sum-test binding: an alias to the tested
    /// place's active payload, never an independent owning root.
    pub type_test_alias: bool,
}

/// Whether `root` currently names a type-test binding: the innermost
/// binding of that name is one.
pub open spec fn spec_is_type_test_alias(env: Seq<Binding>, root: PlaceRootView) -> bool {
    match root {
        PlaceRootView::Local(name) => exists|i: int|
            0 <= i < env.len() && (#[trigger] env[i]).name@ == name && env[i].type_test_alias
                && forall|j: int| i < j < env.len() ==> (#[trigger] env[j]).name@ != name,
        PlaceRootView::SelfRef => false,
    }
}

/// Whether `root` currently names a union- or sum-test binding rather than
/// an ordinary local, parameter, or `self`.
pub fn is_type_test_alias(env: &Vec<Binding>, root: &PlaceRoot) -> (r: bool)
    ensures
        r == spec_is_type_test_alias(env@, root@),
{
    let name = match root {
        PlaceRoot::Local(name) => name.as_str(),
        PlaceRoot::SelfRef => return false,
    };
    let mut i = env.len();
    while i > 0
        invariant
            i <= env@.len(),
            root@ == PlaceRootView::Local(name@),
            forall|j: int| i <= j < env@.len() ==> (#[trigger] env@[j]).name@ != name@,
        decreases i,
    {
        i = i - 1;
        if str_eq(env[i].name, name) {
            let alias = env[i].type_test_alias;
            proof {
                assert(root@ == PlaceRootView::Local(name@));
                assert(env@[i as int].name@ == name@);
                assert forall|j: int| i < j < env@.len() implies (#[trigger] env@[j]).name@ != name@ by {}
                if alias {
                    assert(spec_is_type_test_alias(env@, root@));
                } else {
                    if spec_is_type_test_alias(env@, root@) {
                        let k = choose|k: int|
                            0 <= k < env@.len() && (#[trigger] env@[k]).name@ == name@
                                && env@[k].type_test_alias && forall|j: int|
                                k < j < env@.len() ==> (#[trigger] env@[j]).name@ != name@;
                        if k < i {
                            assert(env@[i as int].name@ != name@);
                        } else if k > i {
                            assert(env@[k].name@ != name@);
                        }
                    }
                }
            }
            return alias;
        }
    }
    false
}

/// The first view borrow whose sources include `root`.
pub open spec fn first_borrower(borrows: Seq<ViewBorrow>, root: PlaceRootView) -> Option<int> {
    if exists|i: int|
        0 <= i < borrows.len() && has_source((#[trigger] borrows[i]).sources@, root) && forall|j: int|
            0 <= j < i ==> !has_source((#[trigger] borrows[j]).sources@, root) {
        Some(
            choose|i: int|
                0 <= i < borrows.len() && has_source((#[trigger] borrows[i]).sources@, root)
                    && forall|j: int|
                    0 <= j < i ==> !has_source((#[trigger] borrows[j]).sources@, root),
        )
    } else {
        None
    }
}

pub open spec fn live_view_message(root: PlaceRootView, view: Seq<char>) -> Seq<char> {
    "cannot move or replace '"@ + root_text(root) + "': view '"@ + view + "' still borrows it"@
}

/// The diagnostic, if any, for moving or replacing `root` while a view
/// borrows it: one, naming the first such view.
pub open spec fn live_view_diagnostics(
    borrows: Seq<ViewBorrow>,
    root: PlaceRootView,
    span: Span,
) -> Diagnostics {
    match first_borrower(borrows, root) {
        Some(i) => seq![(span, live_view_message(root, borrows[i].view_name@))],
        None => Seq::empty(),
    }
}

fn sources_contain(sources: &Vec<PlaceRoot>, root: &PlaceRoot) -> (r: bool)
    ensures
        r == has_source(sources@, root@),
{
    let mut i: usize = 0;
    while i < sources.len()
        invariant
            i <= sources@.len(),
            forall|q: int| 0 <= q < i ==> (#[trigger] sources@[q])@ != root@,
        decreases sources.len() - i,
    {
        if same_root(&sources[i], root) {
            return true;
        }
        i = i + 1;
    }
    false
}

/// Reports moving or replacing `root` while a live view still borrows it.
pub fn reject_live_view_source(
    borrows: &Vec<ViewBorrow>,
    root: &PlaceRoot,
    span: Span,
    errors: &mut Vec<Error>,
)
    ensures
        diagnostics(final(errors)@) == diagnostics(old(errors)@) + live_view_diagnostics(
            borrows@,
            root@,
            span,
        ),
{
    let ghost start = diagnostics(errors@);
    let mut i: usize = 0;
    let mut found = false;
    while i < borrows.len() && !found
        invariant
            i <= borrows@.len(),
            !found ==> forall|j: int| 0 <= j < i ==> !has_source((#[trigger] borrows@[j]).sources@, root@),
            !found ==> diagnostics(errors@) == start,
            found ==> diagnostics(errors@) == start + live_view_diagnostics(borrows@, root@, span),
        decreases borrows.len() - i,
    {
        if sources_contain(&borrows[i].sources, root) {
            let mut msg = concat_str("cannot move or replace '", root_name(root));
            msg.append("': view '");
            msg.append(borrows[i].view_name.as_str());
            msg.append("' still borrows it");
            let ghost before = errors@;
            errors.push(Error { span, msg });
            proof {
                let k = choose|k: int|
                    0 <= k < borrows@.len() && has_source((#[trigger] borrows@[k]).sources@, root@)
                        && forall|j: int|
                        0 <= j < k ==> !has_source((#[trigger] borrows@[j]).sources@, root@);
                if k < i {
                } else if k > i {
                    assert(has_source(borrows@[i as int].sources@, root@));
                }
                assert(msg@ =~= live_view_message(root@, borrows@[i as int].view_name@));
                assert(diagnostics(errors@) =~= start + live_view_diagnostics(borrows@, root@, span));
            }
            found = true;
        }
        i = i + 1;
    }
    proof {
        if !found {
            assert(start =~= start + live_view_diagnostics(borrows@, root@, span));
        }
    }
}

pub open spec fn already_moved_message(root: PlaceRootView) -> Seq<char> {
    "'"@ + root_text(root) + "' is already moved, so this use is invalid"@
}

/// The diagnostics of one consuming use of the whole root of `place`.
pub open spec fn move_diagnostics(
    types: &Types,
    moves: Seq<(PlaceRoot, Span)>,
    borrows: Seq<ViewBorrow>,
    place: Place,
    span: Span,
) -> Diagnostics {
    if !types.spec_is_move_only(place.ty) {
        Seq::empty()
    } else {
        live_view_diagnostics(borrows, place.root@, span) + if moves_root(moves, place.root@) {
            seq![(span, already_moved_message(place.root@))]
        } else {
            Seq::empty()
        }
    }
}

/// A consuming use of a move-only root requires it to be available:
/// reports a use after a move, or else records the root as moved from this
/// point on. A copyable value stays an ordinary copy however often it is
/// used.
pub fn check_move(
    types: &Types,
    moves: &mut MoveState,
    borrows: &Vec<ViewBorrow>,
    errors: &mut Vec<Error>,
    place: &Place,
    span: Span,
)
    requires
        types.wf(),
        types.layout_finite(),
        types.valid_ty(place.ty),
        old(moves).wf(),
    ensures
        final(moves).wf(),
        diagnostics(final(errors)@) == diagnostics(old(errors)@) + move_diagnostics(
            types,
            old(moves).entries@,
            borrows@,
            *place,
            span,
        ),
        !types.spec_is_move_only(place.ty) ==> final(moves).entries@ == old(moves).entries@,
        types.spec_is_move_only(place.ty) && moves_root(old(moves).entries@, place.root@)
            ==> final(moves).entries@ == old(moves).entries@,
        types.spec_is_move_only(place.ty) && !moves_root(old(moves).entries@, place.root@)
            ==> final(moves).entries@.len() == old(moves).entries@.len() + 1
            && final(moves).entries@.drop_last() == old(moves).entries@
            && final(moves).entries@.last().0@ == place.root@
            && final(moves).entries@.last().1 == span,
        types.spec_is_move_only(place.ty) ==> moves_root(final(moves).entries@, place.root@),
{
    let ghost start = diagnostics(errors@);
    if !is_move_only(types, place.ty) {
        proof {
            assert(start =~= start + Seq::<(Span, Seq<char>)>::empty());
        }
        return;
    }
    reject_live_view_source(borrows, &place.root, span, errors);
    let ghost mid = diagnostics(errors@);
    if moves.contains(&place.root) {
        let mut msg = concat_str("'", root_name(&place.root));
        msg.append("' is already moved, so this use is invalid");
        let ghost before = errors@;
        proof {
            assert(msg@ =~= already_moved_message(place.root@));
        }
        errors.push(Error { span, msg });
        proof {
            assert(diagnostics(errors@) =~= diagnostics(before).push((span, already_moved_message(place.root@))));
            assert(diagnostics(errors@) =~= start + move_diagnostics(
                types,
                moves.entries@,
                borrows@,
                *place,
                span,
            ));
        }
        return;
    }
    let ghost old_entries = moves.entries@;
    moves.entries.push((copy_root(&place.root), span));
    proof {
        assert(moves.entries@.drop_last() =~= old_entries);
        assert(moves.entries@[moves.entries@.len() - 1].0@ == place.root@);
        assert forall|i: int, j: int|
            0 <= i < moves.entries@.len() && 0 <= j < moves.entries@.len() && i != j implies moves.entries@[i].0@
            != moves.entries@[j].0@ by {
            if i < old_entries.len() && j < old_entries.len() {
                assert(moves.entries@[i] == old_entries[i] && moves.entries@[j] == old_entries[j]);
            } else if i < old_entries.len() {
                assert(moves.entries@[i] == old_entries[i]);
            } else {
                assert(moves.entries@[j] == old_entries[j]);
            }
        }
        assert(mid =~= start + move_diagnostics(types, old_entries, borrows@, *place, span));
    }
}

/// `new` is `old` with one more entry recording `root` as moved at `span`.
pub open spec fn records_move(
    old: Seq<(PlaceRoot, Span)>,
    new: Seq<(PlaceRoot, Span)>,
    root: PlaceRootView,
    span: Span,
) -> bool {
    &&& new.len() == old.len() + 1
    &&& new.drop_last() == old
    &&& new.last().0@ == root
    &&& new.last().1 == span
}

pub open spec fn partial_move_message(name: Seq<char>) -> Seq<char> {
    "'"@ + name + "' cannot be moved out of; only a complete owning root can be moved"@
}

/// Whether a consuming use of `place` moves a whole owning root: its path
/// is empty and its root is not a type-test alias.
pub open spec fn moves_whole_root(env: Seq<Binding>, place: Place) -> bool {
    place.path@.len() == 0 && !spec_is_type_test_alias(env, place.root@)
}

/// The diagnostics of one consuming use of `place`.
pub open spec fn consume_diagnostics(
    types: &Types,
    moves: Seq<(PlaceRoot, Span)>,
    borrows: Seq<ViewBorrow>,
    env: Seq<Binding>,
    place: Place,
    span: Span,
) -> Diagnostics {
    if moves_whole_root(env, place) {
        move_diagnostics(types, moves, borrows, place, span)
    } else if types.spec_is_move_only(place.ty) {
        seq![(span, partial_move_message(spec_place_name(types, place)))]
    } else {
        Seq::empty()
    }
}

/// Marks a checked expression as sitting in a consuming context. A place
/// read becomes a consuming read: a whole owning root is moved (or its
/// use after a move reported), and moving a move-only value out of a
/// field, a box's contents, or a type-test alias is rejected. Any other
/// expression is unchanged.
pub fn mark_consumed(
    types: &Types,
    moves: &mut MoveState,
    borrows: &Vec<ViewBorrow>,
    env: &Vec<Binding>,
    errors: &mut Vec<Error>,
    expr: TExpr,
    span: Span,
) -> (r: TExpr)
    requires
        types.wf(),
        types.layout_finite(),
        old(moves).wf(),
        expr matches TExpr::Place(place, _) ==> types.valid_ty(place.ty) && types.valid_ty(
            place.root_ty,
        ),
    ensures
        final(moves).wf(),
        match expr {
            TExpr::Place(place, _) => {
                &&& r == TExpr::Place(place, UseMode::Consume)
                &&& diagnostics(final(errors)@) == diagnostics(old(errors)@) + consume_diagnostics(
                    types,
                    old(moves).entries@,
                    borrows@,
                    env@,
                    place,
                    span,
                )
                &&& if moves_whole_root(env@, place) && types.spec_is_move_only(place.ty) && !moves_root(
                    old(moves).entries@,
                    place.root@,
                ) {
                    records_move(old(moves).entries@, final(moves).entries@, place.root@, span)
                } else {
                    final(moves).entries@ == old(moves).entries@
                }
            },
            _ => {
                &&& r == expr
                &&& final(errors)@ == old(errors)@
                &&& final(moves).entries@ == old(moves).entries@
            },
        },
{
    match expr {
        TExpr::Place(place, mode) => {
            let ghost start = diagnostics(errors@);
            let whole_root = place.path.len() == 0 && !is_type_test_alias(env, &place.root);
            if whole_root {
                check_move(types, moves, borrows, errors, &place, span);
            } else if is_move_only(types, place.ty) {
                let name = place_name(types, &place);
                let mut msg = concat_str("'", name.as_str());
                msg.append("' cannot be moved out of; only a complete owning root can be moved");
                let ghost before = errors@;
                errors.push(Error { span, msg });
                proof {
                    assert(diagnostics(errors@) =~= diagnostics(before).push(
                        (span, partial_move_message(spec_place_name(types, place))),
                    ));
                    assert(diagnostics(errors@) =~= start + consume_diagnostics(
                        types,
                        moves.entries@,
                        borrows@,
                        env@,
                        place,
                        span,
                    ));
                }
            } else {
                proof {
                    assert(start =~= start + Seq::<(Span, Seq<char>)>::empty());
                }
            }
            TExpr::Place(place, UseMode::Consume)
        },
        other => other,
    }
}

/// A place read in a consuming context; any other expression as it is.
pub open spec fn consumed(value: TExpr) -> TExpr {
    match value {
        TExpr::Place(p, _) => TExpr::Place(p, UseMode::Consume),
        other => other,
    }
}

/// The diagnostics of using `value` in a consuming context.
pub open spec fn consume_effect(
    types: &Types,
    moves: Seq<(PlaceRoot, Span)>,
    borrows: Seq<ViewBorrow>,
    env: Seq<Binding>,
    value: TExpr,
    span: Span,
) -> Diagnostics {
    match value {
        TExpr::Place(p, _) => consume_diagnostics(types, moves, borrows, env, p, span),
        _ => Seq::empty(),
    }
}

/// How using `value` in a consuming context changes the moved roots: a
/// whole move-only root not moved before becomes moved.
pub open spec fn consume_moves(
    types: &Types,
    env: Seq<Binding>,
    before: Seq<(PlaceRoot, Span)>,
    after: Seq<(PlaceRoot, Span)>,
    value: TExpr,
    span: Span,
) -> bool {
    match value {
        TExpr::Place(p, _) => if moves_whole_root(env, p) && types.spec_is_move_only(p.ty) && !moves_root(
            before,
            p.root@,
        ) {
            records_move(before, after, p.root@, span)
        } else {
            after == before
        },
        _ => after == before,
    }
}

/// Whether a binding still owns a move-only value that must be destroyed
/// when its scope ends.
pub open spec fn keeps_drop(types: &Types, moves: Seq<(PlaceRoot, Span)>, b: Binding) -> bool {
    &&& !b.type_test_alias
    &&& types.spec_is_move_only(b.ty)
    &&& !moves_root(moves, PlaceRootView::Local(b.name@))
}

/// The bindings of `env` from position `lo` on that still own a
/// move-only value, the last bound first.
pub open spec fn drop_bindings<'a>(
    types: &Types,
    moves: Seq<(PlaceRoot, Span)>,
    env: Seq<Binding<'a>>,
    lo: int,
) -> Seq<Binding<'a>>
    decreases env.len() - lo,
{
    if lo < 0 || lo >= env.len() {
        Seq::empty()
    } else {
        drop_bindings(types, moves, env, lo + 1) + if keeps_drop(types, moves, env[lo]) {
            seq![env[lo]]
        } else {
            Seq::empty()
        }
    }
}

/// The whole-root place of a binding.
pub open spec fn binding_place(b: Binding) -> (PlaceRootView, Ty, Seq<usize>, Ty) {
    (PlaceRootView::Local(b.name@), b.ty, Seq::empty(), b.ty)
}

/// The cleanup plan of a scope's own bindings: every binding from
/// position `scope` on that is move-only, not a type-test alias, and not
/// moved at this point, in reverse declaration order so the last one
/// bound is the first destroyed.
pub fn compute_drops(types: &Types, moves: &MoveState, env: &Vec<Binding>, scope: usize) -> (r: Vec<Place>)
    requires
        types.wf(),
        types.layout_finite(),
        scope <= env@.len(),
        forall|i: int| 0 <= i < env@.len() ==> types.valid_ty(#[trigger] env@[i].ty),
    ensures
        r@.map_values(|p: Place| p@) == drop_bindings(types, moves.entries@, env@, scope as int).map_values(
            |b: Binding| binding_place(b),
        ),
{
    let mut drops: Vec<Place> = Vec::new();
    let mut i = env.len();
    proof {
        assert(drops@.map_values(|p: Place| p@) =~= drop_bindings(types, moves.entries@, env@, i as int).map_values(
            |b: Binding| binding_place(b),
        ));
    }
    while i > scope
        invariant
            types.wf(),
            types.layout_finite(),
            scope <= i <= env@.len(),
            forall|k: int| 0 <= k < env@.len() ==> types.valid_ty(#[trigger] env@[k].ty),
            drops@.map_values(|p: Place| p@) == drop_bindings(types, moves.entries@, env@, i as int).map_values(
                |b: Binding| binding_place(b),
            ),
        decreases i,
    {
        i = i - 1;
        let b = &env[i];
        let ghost before = drops@;
        let ghost db_next = drop_bindings(types, moves.entries@, env@, i as int + 1);
        proof {
            assert(before.map_values(|p: Place| p@) == db_next.map_values(|b: Binding| binding_place(b)));
        }
        let keep = !b.type_test_alias && is_move_only(types, b.ty)
            && !moves.contains(&PlaceRoot::Local(String::from_str(b.name)));
        if keep {
            drops.push(
                Place {
                    root: PlaceRoot::Local(String::from_str(b.name)),
                    root_ty: b.ty,
                    path: Vec::new(),
                    ty: b.ty,
                },
            );
        }
        proof {
            assert(keep == keeps_drop(types, moves.entries@, env@[i as int]));
            assert(drop_bindings(types, moves.entries@, env@, i as int) == db_next + if keep {
                seq![env@[i as int]]
            } else {
                Seq::empty()
            });
            if keep {
                let e = env@[i as int];
                assert(drops@[drops@.len() - 1]@ == binding_place(e));
                assert(drops@ =~= before.push(drops@[drops@.len() - 1]));
                assert(db_next + seq![e] =~= db_next.push(e));
                assert(drops@.map_values(|p: Place| p@) =~= before.map_values(|p: Place| p@).push(
                    binding_place(e),
                ));
                assert(db_next.push(e).map_values(|b: Binding| binding_place(b)) =~= db_next.map_values(
                    |b: Binding| binding_place(b),
                ).push(binding_place(e)));
            } else {
                assert(drops@ == before);
                assert(db_next + Seq::<Binding>::empty() =~= db_next);
            }
            assert(drops@.map_values(|p: Place| p@) =~= drop_bindings(types, moves.entries@, env@, i as int).map_values(
                |b: Binding| binding_place(b),
            ));
        }
    }
    drops
}

/// Whether `c` destroys the place `v`.
pub open spec fn is_drop_of(c: TCleanup, v: (PlaceRootView, Ty, Seq<usize>, Ty)) -> bool {
    c matches TCleanup::Drop(p) && p@ == v
}

/// Registers the parameters' drops at the end of a body's cleanup plan,
/// after every body-local action.
pub fn append_parameter_drops(types: &Types, moves: &MoveState, env: &Vec<Binding>, body: &mut TBlock)
    requires
        types.wf(),
        types.layout_finite(),
        forall|i: int| 0 <= i < env@.len() ==> types.valid_ty(#[trigger] env@[i].ty),
    ensures
        final(body).statements == old(body).statements,
        final(body).result == old(body).result,
        final(body).result_ty == old(body).result_ty,
        final(body).cleanup@.len() == old(body).cleanup@.len() + drop_bindings(
            types,
            moves.entries@,
            env@,
            0,
        ).len(),
        forall|k: int|
            0 <= k < old(body).cleanup@.len() ==> final(body).cleanup@[k] == old(body).cleanup@[k],
        forall|k: int|
            0 <= k < drop_bindings(types, moves.entries@, env@, 0).len() ==> is_drop_of(
                #[trigger] final(body).cleanup@[old(body).cleanup@.len() + k],
                binding_place(drop_bindings(types, moves.entries@, env@, 0)[k]),
            ),
{
    let mut drops = compute_drops(types, moves, env, 0);
    let ghost views = drops@.map_values(|p: Place| p@);
    let ghost start = body.cleanup@;
    let mut rest: Vec<TCleanup> = Vec::new();
    while drops.len() > 0
        invariant
            drops@.len() + rest@.len() == views.len(),
            forall|k: int| 0 <= k < drops@.len() ==> (#[trigger] drops@[k])@ == views[k],
            forall|k: int|
                0 <= k < rest@.len() ==> is_drop_of(#[trigger] rest@[k], views[views.len() - 1 - k]),
        decreases drops.len(),
    {
        let p = drops.pop().unwrap();
        rest.push(TCleanup::Drop(p));
    }
    let n = rest.len();
    let mut k: usize = 0;
    proof {
        assert(drops@.len() == 0);
    }
    while k < n
        invariant
            n == views.len(),
            k <= n,
            body.cleanup@.len() == start.len() + k,
            body.statements == old(body).statements,
            body.result == old(body).result,
            body.result_ty == old(body).result_ty,
            forall|j: int| 0 <= j < start.len() ==> body.cleanup@[j] == start[j],
            forall|j: int|
                0 <= j < rest@.len() ==> is_drop_of(#[trigger] rest@[j], views[views.len() - 1 - j]),
            forall|j: int| 0 <= j < k ==> is_drop_of(#[trigger] body.cleanup@[start.len() + j], views[j]),
            rest@.len() == n - k,
        decreases n - k,
    {
        let entry = rest.pop().unwrap();
        body.cleanup.push(entry);
        k = k + 1;
    }
    proof {
        let db = drop_bindings(types, moves.entries@, env@, 0);
        assert(views.len() == db.len());
        assert forall|j: int| 0 <= j < db.len() implies views[j] == binding_place(db[j]) by {
            assert(views[j] == db.map_values(|b: Binding| binding_place(b))[j]);
        }
    }
}

/// The abstract value of a cleanup action: the destroyed place, or the
/// deferred call itself.
pub enum CleanupView {
    Drop((PlaceRootView, Ty, Seq<usize>, Ty)),
    Deferred(TDeferred),
}

impl View for TCleanup {
    type V = CleanupView;

    open spec fn view(&self) -> CleanupView {
        match self {
            TCleanup::Drop(p) => CleanupView::Drop(p@),
            TCleanup::Deferred(d) => CleanupView::Deferred(**d),
        }
    }
}

/// The abstract values of a cleanup plan.
pub open spec fn cleanup_views(plan: Seq<TCleanup>) -> Seq<CleanupView> {
    plan.map_values(|c: TCleanup| c@)
}

/// `Rc::clone`: another pointer to the same deferred call, which std
/// documents as sharing the allocation.
#[verifier::external_body]
fn share_deferred(deferred: &Rc<TDeferred>) -> (r: Rc<TDeferred>)
    ensures
        r == *deferred,
{
    Rc::clone(deferred)
}

/// The roots that a sequence of roots names.
pub open spec fn root_set(roots: Seq<PlaceRoot>) -> Set<PlaceRootView> {
    Set::new(|r: PlaceRootView| has_source(roots, r))
}

/// The roots moved in `moves`.
pub open spec fn moved_set(moves: Seq<(PlaceRoot, Span)>) -> Set<PlaceRootView> {
    Set::new(|r: PlaceRootView| moves_root(moves, r))
}

pub open spec fn unavailable_dependency_message(root: PlaceRootView) -> Seq<char> {
    "deferred call cannot use '"@ + root_text(root)
        + "' at scope exit because its current value is unavailable"@
}

/// One diagnostic for each of the first `k` dependencies of a deferred
/// call that is unavailable.
pub open spec fn unavailable_uses(
    deps: Seq<PlaceRoot>,
    k: int,
    unavailable: Set<PlaceRootView>,
    span: Span,
) -> Diagnostics
    decreases if k > 0 { k as nat } else { 0 },
{
    if k <= 0 || k > deps.len() {
        Seq::empty()
    } else {
        unavailable_uses(deps, k - 1, unavailable, span) + if unavailable.contains(deps[k - 1]@) {
            seq![(span, unavailable_dependency_message(deps[k - 1]@))]
        } else {
            Seq::empty()
        }
    }
}

/// Walks the first `n` actions of an exit plan in the order they run: a
/// deferred call that runs on this exit must not depend on a root that is
/// moved or that an earlier deferred call consumed. Error-only calls do not
/// run on an exit known to succeed. Returns the diagnostics and the roots
/// unavailable afterwards.
pub open spec fn dependency_check(
    moves: Seq<(PlaceRoot, Span)>,
    plan: Seq<CleanupView>,
    n: int,
    error_exit: Option<bool>,
) -> (Diagnostics, Set<PlaceRootView>)
    decreases if n > 0 { n as nat } else { 0 },
{
    if n <= 0 || n > plan.len() {
        (Seq::empty(), moved_set(moves))
    } else {
        let before = dependency_check(moves, plan, n - 1, error_exit);
        match plan[n - 1] {
            CleanupView::Drop(_) => before,
            CleanupView::Deferred(d) => if d.on_error && error_exit == Some(false) {
                before
            } else {
                (
                    before.0 + unavailable_uses(
                        d.dependencies@,
                        d.dependencies@.len() as int,
                        before.1,
                        d.span,
                    ),
                    before.1.union(root_set(d.consumes@)),
                )
            },
        }
    }
}

/// Reports every deferred call of an exit plan that would read a value
/// no longer available when it runs.
pub fn validate_cleanup_dependencies(
    moves: &MoveState,
    entries: &Vec<TCleanup>,
    error_exit: Option<bool>,
    errors: &mut Vec<Error>,
)
    ensures
        diagnostics(final(errors)@) == diagnostics(old(errors)@) + dependency_check(
            moves.entries@,
            cleanup_views(entries@),
            entries@.len() as int,
            error_exit,
        ).0,
{
    let ghost start = diagnostics(errors@);
    let ghost plan = cleanup_views(entries@);
    let mut unavailable: Vec<PlaceRoot> = Vec::new();
    let mut m: usize = 0;
    while m < moves.entries.len()
        invariant
            m <= moves.entries@.len(),
            forall|r: PlaceRootView|
                #[trigger] has_source(unavailable@, r) <==> exists|q: int|
                    0 <= q < m && (#[trigger] moves.entries@[q]).0@ == r,
        decreases moves.entries.len() - m,
    {
        let ghost before = unavailable@;
        unavailable.push(copy_root(&moves.entries[m].0));
        proof {
            assert forall|r: PlaceRootView|
                #[trigger] has_source(unavailable@, r) <==> exists|q: int|
                    0 <= q < m + 1 && (#[trigger] moves.entries@[q]).0@ == r by {
                if has_source(unavailable@, r) {
                    let q = choose|q: int| 0 <= q < unavailable@.len() && (#[trigger] unavailable@[q])@ == r;
                    if q < before.len() {
                        assert(has_source(before, r));
                    } else {
                        assert(moves.entries@[m as int].0@ == r);
                    }
                }
                if exists|q: int| 0 <= q < m + 1 && (#[trigger] moves.entries@[q]).0@ == r {
                    let q = choose|q: int| 0 <= q < m + 1 && (#[trigger] moves.entries@[q]).0@ == r;
                    if q < m {
                        assert(has_source(before, r));
                        let x = choose|x: int| 0 <= x < before.len() && (#[trigger] before[x])@ == r;
                        assert(unavailable@[x] == before[x]);
                    } else {
                        assert(unavailable@[before.len() as int]@ == r);
                    }
                }
            }
        }
        m = m + 1;
    }
    let mut i: usize = 0;
    proof {
        assert(start =~= start + dependency_check(moves.entries@, plan, 0, error_exit).0);
    }
    while i < entries.len()
        invariant
            i <= entries@.len(),
            plan == cleanup_views(entries@),
            diagnostics(errors@) == start + dependency_check(moves.entries@, plan, i as int, error_exit).0,
            forall|r: PlaceRootView|
                #[trigger] has_source(unavailable@, r) <==> dependency_check(
                    moves.entries@,
                    plan,
                    i as int,
                    error_exit,
                ).1.contains(r),
        decreases entries.len() - i,
    {
        let ghost state = dependency_check(moves.entries@, plan, i as int, error_exit);
        proof {
            assert(plan[i as int] == entries@[i as int]@);
        }
        match &entries[i] {
            TCleanup::Drop(_) => {},
            TCleanup::Deferred(deferred) => {
                let skipped = deferred.on_error && matches!(error_exit, Some(false));
                if !skipped {
                    let deps = &deferred.dependencies;
                    let ghost base = diagnostics(errors@);
                    let mut k: usize = 0;
                    while k < deps.len()
                        invariant
                            k <= deps@.len(),
                            forall|r: PlaceRootView|
                                #[trigger] has_source(unavailable@, r) <==> state.1.contains(r),
                            diagnostics(errors@) == base + unavailable_uses(deps@, k as int, state.1, deferred.span),
                        decreases deps.len() - k,
                    {
                        let ghost before = diagnostics(errors@);
                        if sources_contain(&unavailable, &deps[k]) {
                            let mut msg = concat_str("deferred call cannot use '", root_name(&deps[k]));
                            msg.append("' at scope exit because its current value is unavailable");
                            errors.push(Error { span: deferred.span, msg });
                            proof {
                                assert(diagnostics(errors@) =~= before.push(
                                    (deferred.span, unavailable_dependency_message(deps@[k as int]@)),
                                ));
                            }
                        }
                        proof {
                            assert(diagnostics(errors@) =~= base + unavailable_uses(
                                deps@,
                                k + 1,
                                state.1,
                                deferred.span,
                            ));
                        }
                        k = k + 1;
                    }
                    let consumes = &deferred.consumes;
                    let mut c: usize = 0;
                    while c < consumes.len()
                        invariant
                            c <= consumes@.len(),
                            forall|r: PlaceRootView|
                                #[trigger] has_source(unavailable@, r) <==> (state.1.contains(r)
                                    || exists|q: int| 0 <= q < c && (#[trigger] consumes@[q])@ == r),
                        decreases consumes.len() - c,
                    {
                        let ghost before = unavailable@;
                        unavailable.push(copy_root(&consumes[c]));
                        proof {
                            assert forall|r: PlaceRootView|
                                #[trigger] has_source(unavailable@, r) <==> (state.1.contains(r)
                                    || exists|q: int| 0 <= q < c + 1 && (#[trigger] consumes@[q])@ == r) by {
                                if has_source(unavailable@, r) {
                                    let q = choose|q: int|
                                        0 <= q < unavailable@.len() && (#[trigger] unavailable@[q])@ == r;
                                    if q < before.len() {
                                        assert(has_source(before, r));
                                    } else {
                                        assert(consumes@[c as int]@ == r);
                                    }
                                }
                                if state.1.contains(r) || exists|q: int|
                                    0 <= q < c + 1 && (#[trigger] consumes@[q])@ == r {
                                    if state.1.contains(r) || exists|q: int|
                                        0 <= q < c && (#[trigger] consumes@[q])@ == r {
                                        assert(has_source(before, r));
                                        let x = choose|x: int|
                                            0 <= x < before.len() && (#[trigger] before[x])@ == r;
                                        assert(unavailable@[x] == before[x]);
                                    } else {
                                        assert(unavailable@[before.len() as int]@ == r);
                                    }
                                }
                            }
                        }
                        c = c + 1;
                    }
                    proof {
                        assert forall|r: PlaceRootView|
                            #[trigger] has_source(unavailable@, r) <==> dependency_check(
                                moves.entries@,
                                plan,
                                i + 1,
                                error_exit,
                            ).1.contains(r) by {
                            assert(root_set(consumes@).contains(r) <==> has_source(consumes@, r));
                        }
                    }
                }
            },
        }
        proof {
            assert(diagnostics(errors@) =~= start + dependency_check(
                moves.entries@,
                plan,
                i + 1,
                error_exit,
            ).0);
        }
        i = i + 1;
    }
}

/// Whether an action destroys a root that is moved at this point, and so
/// has nothing left to destroy.
pub open spec fn disarmed(moves: Seq<(PlaceRoot, Span)>, c: CleanupView) -> bool {
    c matches CleanupView::Drop(p) && moves_root(moves, p.0)
}

/// The actions of `es` that are still armed, in order.
pub open spec fn armed(moves: Seq<(PlaceRoot, Span)>, es: Seq<CleanupView>) -> Seq<CleanupView>
    decreases es.len(),
{
    if es.len() == 0 {
        Seq::empty()
    } else {
        armed(moves, es.drop_last()) + if disarmed(moves, es.last()) {
            Seq::empty()
        } else {
            seq![es.last()]
        }
    }
}

/// Builds an exit plan from a scope's registered actions: actions that
/// destroy an already-moved root are dropped, and the rest run in reverse
/// registration order. Deferred calls whose dependencies are unavailable
/// by the time they run are reported.
pub fn cleanup_for_exit_from_entries(
    moves: &MoveState,
    entries: Vec<TCleanup>,
    error_exit: Option<bool>,
    errors: &mut Vec<Error>,
) -> (r: Vec<TCleanup>)
    ensures
        cleanup_views(r@) == armed(moves.entries@, cleanup_views(entries@)).reverse(),
        diagnostics(final(errors)@) == diagnostics(old(errors)@) + dependency_check(
            moves.entries@,
            cleanup_views(r@),
            r@.len() as int,
            error_exit,
        ).0,
{
    let ghost all = cleanup_views(entries@);
    let mut entries = entries;
    let mut out: Vec<TCleanup> = Vec::new();
    while entries.len() > 0
        invariant
            entries@.len() <= all.len(),
            cleanup_views(entries@) == all.take(entries@.len() as int),
            cleanup_views(out@) == armed(moves.entries@, all).reverse().take(out@.len() as int),
            armed(moves.entries@, all).reverse() == cleanup_views(out@) + armed(
                moves.entries@,
                cleanup_views(entries@),
            ).reverse(),
        decreases entries.len(),
    {
        let ghost rest = cleanup_views(entries@);
        let entry = entries.pop().unwrap();
        proof {
            assert(rest.drop_last() =~= cleanup_views(entries@));
            assert(rest.last() == entry@);
            assert(cleanup_views(entries@) =~= all.take(entries@.len() as int));
        }
        let keep = match &entry {
            TCleanup::Drop(place) => !moves.contains(&place.root),
            TCleanup::Deferred(_) => true,
        };
        let ghost before = cleanup_views(out@);
        if keep {
            out.push(entry);
            proof {
                assert(cleanup_views(out@) =~= before.push(rest.last()));
                assert(armed(moves.entries@, rest) == armed(moves.entries@, rest.drop_last()) + seq![
                    rest.last(),
                ]);
                assert((armed(moves.entries@, rest.drop_last()) + seq![rest.last()]).reverse()
                    =~= seq![rest.last()] + armed(moves.entries@, rest.drop_last()).reverse());
                assert(before + armed(moves.entries@, rest).reverse() =~= cleanup_views(out@)
                    + armed(moves.entries@, cleanup_views(entries@)).reverse());
            }
        } else {
            proof {
                assert(armed(moves.entries@, rest) =~= armed(moves.entries@, rest.drop_last()));
            }
        }
        proof {
            let full = armed(moves.entries@, all).reverse();
            assert(cleanup_views(out@) =~= full.take(out@.len() as int));
        }
    }
    proof {
        assert(cleanup_views(entries@) =~= Seq::<CleanupView>::empty());
        assert(armed(moves.entries@, Seq::<CleanupView>::empty()).reverse() =~= Seq::<CleanupView>::empty());
        assert(cleanup_views(out@) =~= armed(moves.entries@, all).reverse());
    }
    validate_cleanup_dependencies(moves, &out, error_exit, errors);
    out
}

/// The actions registered by scopes `lo` up to `hi`, in registration order.
pub open spec fn scope_actions(scopes: Seq<Vec<TCleanup>>, lo: int, hi: int) -> Seq<CleanupView>
    decreases hi - lo,
{
    if hi <= lo {
        Seq::empty()
    } else {
        scope_actions(scopes, lo, hi - 1) + cleanup_views(scopes[hi - 1]@)
    }
}

/// Whether the action `c` destroys `root`.
pub open spec fn destroys(c: CleanupView, root: PlaceRootView) -> bool {
    c matches CleanupView::Drop(p) && p.0 == root
}

/// Whether some action of `es` destroys `root`.
pub open spec fn drops_root(es: Seq<CleanupView>, root: PlaceRootView) -> bool {
    exists|i: int| 0 <= i < es.len() && destroys(#[trigger] es[i], root)
}

/// The drops of the bindings `bs` whose root no action of `es` destroys,
/// in order.
pub open spec fn missing_drops(es: Seq<CleanupView>, bs: Seq<Binding>) -> Seq<CleanupView>
    decreases bs.len(),
{
    if bs.len() == 0 {
        Seq::empty()
    } else {
        missing_drops(es, bs.drop_last()) + if drops_root(es, PlaceRootView::Local(bs.last().name@)) {
            Seq::empty()
        } else {
            seq![CleanupView::Drop(binding_place(bs.last()))]
        }
    }
}

/// The plan run when control leaves every scope from `scope_start` on: the
/// armed actions those scopes registered, then a drop for each parameter
/// or local that still owns a move-only value and that no registered
/// action destroys, all in reverse so the last registered runs first.
pub open spec fn exit_plan(
    types: &Types,
    scopes: Seq<Vec<TCleanup>>,
    moves: Seq<(PlaceRoot, Span)>,
    env: Seq<Binding>,
    scope_start: int,
) -> Seq<CleanupView> {
    let registered = scope_actions(scopes, scope_start, scopes.len() as int);
    (armed(moves, registered) + missing_drops(
        registered,
        drop_bindings(types, moves, env, 0).reverse(),
    )).reverse()
}

proof fn lemma_drops_root_push(es: Seq<CleanupView>, c: CleanupView, root: PlaceRootView)
    ensures
        drops_root(es.push(c), root) <==> (drops_root(es, root) || destroys(c, root)),
{
    let t = es.push(c);
    if drops_root(t, root) {
        let i = choose|i: int| 0 <= i < t.len() && destroys(#[trigger] t[i], root);
        if i < es.len() {
            assert(t[i] == es[i]);
        }
    }
    if drops_root(es, root) {
        let i = choose|i: int| 0 <= i < es.len() && destroys(#[trigger] es[i], root);
        assert(t[i] == es[i]);
    }
    if destroys(c, root) {
        assert(t[es.len() as int] == c);
    }
}

/// Builds the cleanup plan for leaving every open scope from `scope_start`
/// on (a `return` leaves them all; a `break` keeps the scopes outside its
/// loop), and reports deferred calls that could not run on it.
pub fn cleanup_for_exit(
    cleanup_scopes: &Vec<Vec<TCleanup>>,
    types: &Types,
    moves: &MoveState,
    env: &Vec<Binding>,
    scope_start: usize,
    error_exit: Option<bool>,
    errors: &mut Vec<Error>,
) -> (r: Vec<TCleanup>)
    requires
        types.wf(),
        types.layout_finite(),
        forall|i: int| 0 <= i < env@.len() ==> types.valid_ty(#[trigger] env@[i].ty),
    ensures
        cleanup_views(r@) == exit_plan(types, cleanup_scopes@, moves.entries@, env@, scope_start as int),
        diagnostics(final(errors)@) == diagnostics(old(errors)@) + dependency_check(
            moves.entries@,
            cleanup_views(r@),
            r@.len() as int,
            error_exit,
        ).0,
{
    let ghost scopes = cleanup_scopes@;
    let mut entries: Vec<TCleanup> = Vec::new();
    let mut known: Vec<PlaceRoot> = Vec::new();
    let mut s = scope_start;
    proof {
        assert(cleanup_views(entries@) =~= armed(moves.entries@, scope_actions(scopes, scope_start as int, s as int)));
    }
    while s < cleanup_scopes.len()
        invariant
            scopes == cleanup_scopes@,
            scope_start <= s,
            s == scope_start || s <= scopes.len(),
            cleanup_views(entries@) == armed(
                moves.entries@,
                scope_actions(scopes, scope_start as int, s as int),
            ),
            forall|r: PlaceRootView|
                #[trigger] has_source(known@, r) <==> drops_root(
                    scope_actions(scopes, scope_start as int, s as int),
                    r,
                ),
        decreases cleanup_scopes.len() - s,
    {
        let scope = &cleanup_scopes[s];
        let ghost done = scope_actions(scopes, scope_start as int, s as int);
        let mut j: usize = 0;
        proof {
            assert(done + cleanup_views(scope@).take(0) =~= done);
        }
        while j < scope.len()
            invariant
                j <= scope@.len(),
                cleanup_views(entries@) == armed(
                    moves.entries@,
                    done + cleanup_views(scope@).take(j as int),
                ),
                forall|r: PlaceRootView|
                    #[trigger] has_source(known@, r) <==> drops_root(
                        done + cleanup_views(scope@).take(j as int),
                        r,
                    ),
            decreases scope.len() - j,
        {
            let ghost prefix = done + cleanup_views(scope@).take(j as int);
            let ghost next = done + cleanup_views(scope@).take(j + 1);
            proof {
                assert(next =~= prefix.push(scope@[j as int]@));
                assert(next.drop_last() =~= prefix);
                assert(next.last() == scope@[j as int]@);
                lemma_drops_root_push(prefix, scope@[j as int]@, PlaceRootView::SelfRef);
            }
            let ghost before = cleanup_views(entries@);
            let ghost known_before = known@;
            match &scope[j] {
                TCleanup::Drop(place) => {
                    known.push(copy_root(&place.root));
                    if !moves.contains(&place.root) {
                        entries.push(TCleanup::Drop(copy_place(place)));
                        proof {
                            assert(cleanup_views(entries@) =~= before.push(scope@[j as int]@));
                        }
                    } else {
                        proof {
                            assert(cleanup_views(entries@) =~= before);
                        }
                    }
                    proof {
                        assert forall|r: PlaceRootView|
                            #[trigger] has_source(known@, r) <==> drops_root(next, r) by {
                            lemma_drops_root_push(prefix, scope@[j as int]@, r);
                            if has_source(known@, r) {
                                let q = choose|q: int| 0 <= q < known@.len() && (#[trigger] known@[q])@ == r;
                                if q < known_before.len() {
                                    assert(known@[q] == known_before[q]);
                                    assert(has_source(known_before, r));
                                }
                            }
                            if has_source(known_before, r) {
                                let q = choose|q: int|
                                    0 <= q < known_before.len() && (#[trigger] known_before[q])@ == r;
                                assert(known@[q] == known_before[q]);
                            }
                            assert(known@[known_before.len() as int]@ == place.root@);
                        }
                    }
                },
                TCleanup::Deferred(deferred) => {
                    entries.push(TCleanup::Deferred(share_deferred(deferred)));
                    proof {
                        assert(cleanup_views(entries@) =~= before.push(scope@[j as int]@));
                        assert forall|r: PlaceRootView|
                            #[trigger] has_source(known@, r) <==> drops_root(next, r) by {
                            lemma_drops_root_push(prefix, scope@[j as int]@, r);
                        }
                    }
                },
            }
            j = j + 1;
        }
        proof {
            assert(cleanup_views(scope@).take(scope@.len() as int) =~= cleanup_views(scope@));
            assert(scope_actions(scopes, scope_start as int, s + 1) == done + cleanup_views(scope@));
        }
        s = s + 1;
    }
    let ghost registered = scope_actions(scopes, scope_start as int, scopes.len() as int);
    proof {
        if scope_start >= scopes.len() {
            assert(s == scope_start);
            assert(registered =~= Seq::<CleanupView>::empty());
            assert(scope_actions(scopes, scope_start as int, s as int) =~= Seq::<CleanupView>::empty());
        } else {
            assert(s == scopes.len());
        }
        assert(registered == scope_actions(scopes, scope_start as int, s as int));
    }
    let ghost db = drop_bindings(types, moves.entries@, env@, 0);
    let ghost bs = db.reverse();
    let mut drops = compute_drops(types, moves, env, 0);
    proof {
        assert(drops@.len() == db.len()) by {
            assert(drops@.map_values(|p: Place| p@).len() == db.map_values(|b: Binding| binding_place(b)).len());
        }
        assert forall|k: int| 0 <= k < drops@.len() implies (#[trigger] drops@[k])@ == binding_place(db[k]) by {
            assert(drops@.map_values(|p: Place| p@)[k] == db.map_values(|b: Binding| binding_place(b))[k]);
        }
        assert(bs.take(0) =~= Seq::<Binding>::empty());
        assert(cleanup_views(entries@) =~= armed(moves.entries@, registered) + missing_drops(
            registered,
            bs.take(0),
        ));
    }
    while drops.len() > 0
        invariant
            drops@.len() <= db.len(),
            bs == db.reverse(),
            forall|k: int| 0 <= k < drops@.len() ==> (#[trigger] drops@[k])@ == binding_place(db[k]),
            forall|r: PlaceRootView| #[trigger] has_source(known@, r) <==> drops_root(registered, r),
            cleanup_views(entries@) == armed(moves.entries@, registered) + missing_drops(
                registered,
                bs.take(db.len() - drops@.len()),
            ),
        decreases drops.len(),
    {
        let ghost m: int = db.len() - drops@.len();
        let place = drops.pop().unwrap();
        let ghost before = cleanup_views(entries@);
        proof {
            assert(place@ == binding_place(db[db.len() - 1 - m]));
            assert(bs[m] == db[db.len() - 1 - m]);
            assert(bs.take(m + 1).drop_last() =~= bs.take(m));
            assert(bs.take(m + 1).last() == bs[m]);
        }
        if !sources_contain(&known, &place.root) {
            entries.push(TCleanup::Drop(place));
            proof {
                assert(cleanup_views(entries@) =~= before.push(CleanupView::Drop(binding_place(bs[m]))));
            }
        }
        proof {
            assert(cleanup_views(entries@) =~= armed(moves.entries@, registered) + missing_drops(
                registered,
                bs.take(m + 1),
            ));
        }
    }
    let ghost total = cleanup_views(entries@);
    proof {
        assert(bs.take(db.len() as int) =~= bs);
        assert(total == exit_plan(types, scopes, moves.entries@, env@, scope_start as int).reverse()) by {
            assert(exit_plan(types, scopes, moves.entries@, env@, scope_start as int).reverse() =~= (armed(
                moves.entries@,
                registered,
            ) + missing_drops(registered, bs)).reverse().reverse());
        }
    }
    let mut out: Vec<TCleanup> = Vec::new();
    while entries.len() > 0
        invariant
            entries@.len() <= total.len(),
            cleanup_views(entries@) == total.take(entries@.len() as int),
            cleanup_views(out@) == total.reverse().take(out@.len() as int),
            out@.len() + entries@.len() == total.len(),
        decreases entries.len(),
    {
        let ghost before = cleanup_views(out@);
        let ghost rest = cleanup_views(entries@);
        let entry = entries.pop().unwrap();
        proof {
            assert(rest.last() == entry@);
            assert(cleanup_views(entries@) =~= total.take(entries@.len() as int));
        }
        out.push(entry);
        proof {
            assert(cleanup_views(out@) =~= total.reverse().take(out@.len() as int));
        }
    }
    proof {
        assert(cleanup_views(out@) =~= total.reverse());
    }
    validate_cleanup_dependencies(moves, &out, error_exit, errors);
    out
}

/// Whether `c` is a deferred call that depends on `root`.
pub open spec fn reads_root(c: TCleanup, root: PlaceRootView) -> bool {
    c matches TCleanup::Deferred(d) && has_source(d.dependencies@, root)
}

/// Whether a deferred call registered in `scopes` depends on `root`.
pub open spec fn deferred_depends(scopes: Seq<Vec<TCleanup>>, root: PlaceRootView) -> bool {
    exists|k: int, m: int|
        0 <= k < scopes.len() && 0 <= m < scopes[k]@.len() && reads_root(#[trigger] scopes[k]@[m], root)
}

/// Whether a view borrow must still be tracked after the current element:
/// its view outlives this block, it is an iteration borrow, a registered
/// deferred call reads the view, or a later element of the block does.
pub open spec fn borrow_still_live(
    b: ViewBorrow,
    scopes: Seq<Vec<TCleanup>>,
    remaining: Seq<Spanned<BlockElement>>,
    scope: usize,
) -> bool {
    ||| b.scope < scope
    ||| b.persistent
    ||| deferred_depends(scopes, PlaceRootView::Local(b.view_name@))
    ||| exists|i: int|
        0 <= i < remaining.len() && spec_element_mentions_local(#[trigger] remaining[i], b.view_name@)
}

/// The borrows of `bs` that stay live, in order.
pub open spec fn live_borrows(
    bs: Seq<ViewBorrow>,
    scopes: Seq<Vec<TCleanup>>,
    remaining: Seq<Spanned<BlockElement>>,
    scope: usize,
) -> Seq<ViewBorrow>
    decreases bs.len(),
{
    if bs.len() == 0 {
        Seq::empty()
    } else {
        live_borrows(bs.drop_last(), scopes, remaining, scope) + if borrow_still_live(
            bs.last(),
            scopes,
            remaining,
            scope,
        ) {
            seq![bs.last()]
        } else {
            Seq::empty()
        }
    }
}

fn deferred_reads(scopes: &Vec<Vec<TCleanup>>, view: &str) -> (r: bool)
    ensures
        r == deferred_depends(scopes@, PlaceRootView::Local(view@)),
{
    let root = PlaceRoot::Local(String::from_str(view));
    let mut k: usize = 0;
    while k < scopes.len()
        invariant
            k <= scopes@.len(),
            root@ == PlaceRootView::Local(view@),
            forall|a: int, m: int|
                0 <= a < k && 0 <= m < scopes@[a]@.len() ==> !reads_root(#[trigger] scopes@[a]@[m], root@),
        decreases scopes.len() - k,
    {
        let scope = &scopes[k];
        let mut m: usize = 0;
        while m < scope.len()
            invariant
                m <= scope@.len(),
                k < scopes@.len(),
                root@ == PlaceRootView::Local(view@),
                scope == scopes@[k as int],
                forall|a: int, b: int|
                    0 <= a < k && 0 <= b < scopes@[a]@.len() ==> !reads_root(#[trigger] scopes@[a]@[b], root@),
                forall|b: int| 0 <= b < m ==> !reads_root(#[trigger] scope@[b], root@),
            decreases scope.len() - m,
        {
            match &scope[m] {
                TCleanup::Deferred(d) => {
                    if sources_contain(&d.dependencies, &root) {
                        proof {
                            assert(scopes@[k as int]@[m as int] == scope@[m as int]);
                            assert(reads_root(scopes@[k as int]@[m as int], root@));
                        }
                        return true;
                    }
                },
                TCleanup::Drop(_) => {},
            }
            m = m + 1;
        }
        k = k + 1;
    }
    false
}

fn mentioned_later(remaining: &[Spanned<BlockElement>], view: &str) -> (r: bool)
    ensures
        r == exists|i: int|
            0 <= i < remaining@.len() && spec_element_mentions_local(#[trigger] remaining@[i], view@),
{
    let mut i: usize = 0;
    while i < remaining.len()
        invariant
            i <= remaining@.len(),
            forall|j: int| 0 <= j < i ==> !spec_element_mentions_local(#[trigger] remaining@[j], view@),
        decreases remaining.len() - i,
    {
        if element_mentions_local(&remaining[i], view) {
            return true;
        }
        i = i + 1;
    }
    false
}

/// Last-use pruning: after an element of a block, stops tracking every
/// view borrow of this block that nothing can still read, so its sources
/// may be moved or replaced again.
pub fn prune_view_borrows(
    borrows: &mut Vec<ViewBorrow>,
    cleanup_scopes: &Vec<Vec<TCleanup>>,
    remaining: &[Spanned<BlockElement>],
    scope: usize,
)
    ensures
        final(borrows)@ == live_borrows(old(borrows)@, cleanup_scopes@, remaining@, scope),
{
    let ghost orig = borrows@;
    let ghost mut j: int = 0;
    let mut i: usize = 0;
    proof {
        assert(orig.take(0) =~= Seq::<ViewBorrow>::empty());
        assert(borrows@ =~= live_borrows(orig.take(0), cleanup_scopes@, remaining@, scope) + orig.skip(0));
    }
    while i < borrows.len()
        invariant
            0 <= j <= orig.len(),
            borrows@ == live_borrows(orig.take(j), cleanup_scopes@, remaining@, scope) + orig.skip(j),
            i == live_borrows(orig.take(j), cleanup_scopes@, remaining@, scope).len(),
        decreases borrows.len() - i,
    {
        let ghost kept = live_borrows(orig.take(j), cleanup_scopes@, remaining@, scope);
        proof {
            assert(borrows@[i as int] == orig[j]);
            assert(orig.take(j + 1).drop_last() =~= orig.take(j));
            assert(orig.take(j + 1).last() == orig[j]);
        }
        let b = &borrows[i];
        let live = b.scope < scope || b.persistent || deferred_reads(cleanup_scopes, b.view_name.as_str())
            || mentioned_later(remaining, b.view_name.as_str());
        if live {
            proof {
                assert(borrows@ =~= (kept + seq![orig[j]]) + orig.skip(j + 1));
            }
            i = i + 1;
        } else {
            borrows.remove(i);
            proof {
                assert(borrows@ =~= kept + orig.skip(j + 1));
                assert(kept + Seq::<ViewBorrow>::empty() =~= kept);
            }
        }
        proof {
            j = j + 1;
        }
    }
    proof {
        assert(j == orig.len()) by {
            if j < orig.len() {
                assert(borrows@.len() == i + orig.skip(j).len());
            }
        }
        assert(orig.take(j) =~= orig);
        assert(borrows@ =~= live_borrows(orig, cleanup_scopes@, remaining@, scope));
    }
}

/// A named argument place: the parameter's name, the place, and the
/// argument's span.
pub type ArgPlace = (String, Place, Span);

pub open spec fn receiver_overlap_message(argument: Seq<char>, name: Seq<char>, subject: Seq<char>) -> Seq<char> {
    "reference argument '"@ + argument + "' for parameter '"@ + name + "' overlaps the receiver '"@
        + subject + "', which the method may access through 'self'"@
}

pub open spec fn reference_overlap_message(
    left: Seq<char>,
    right: Seq<char>,
    name: Seq<char>,
    other: Seq<char>,
) -> Seq<char> {
    "reference arguments '"@ + left + "' and '"@ + right + "' overlap, so parameters '"@ + name
        + "' and '"@ + other + "' cannot both have exclusive access"@
}

pub open spec fn moved_overlap_message(
    argument: Seq<char>,
    name: Seq<char>,
    moved: Seq<char>,
    moved_name: Seq<char>,
) -> Seq<char> {
    "reference argument '"@ + argument + "' for parameter '"@ + name
        + "' overlaps the moved argument '"@ + moved + "' for parameter '"@ + moved_name
        + "', so it cannot be borrowed in the same call that moves it"@
}

/// The diagnostics of reference argument `i` against the first `n` of
/// `others`, each reported with `message`.
pub open spec fn overlap_reports(
    types: &Types,
    refs: Seq<ArgPlace>,
    i: int,
    others: Seq<ArgPlace>,
    lo: int,
    n: int,
    moved: bool,
) -> Diagnostics
    decreases n - lo,
{
    if n <= lo {
        Seq::empty()
    } else {
        let a = refs[i];
        let o = others[n - 1];
        overlap_reports(types, refs, i, others, lo, n - 1, moved) + if spec_overlaps(&a.1, &o.1) {
            seq![(
                a.2,
                if moved {
                    moved_overlap_message(
                        spec_place_name(types, a.1),
                        a.0@,
                        spec_place_name(types, o.1),
                        o.0@,
                    )
                } else {
                    reference_overlap_message(
                        spec_place_name(types, a.1),
                        spec_place_name(types, o.1),
                        a.0@,
                        o.0@,
                    )
                },
            )]
        } else {
            Seq::empty()
        }
    }
}

/// The diagnostics of reference argument `i`: against the receiver, then
/// every later reference argument, then every moved argument.
pub open spec fn argument_overlaps(
    types: &Types,
    refs: Seq<ArgPlace>,
    moves: Seq<ArgPlace>,
    receiver: Option<Place>,
    i: int,
) -> Diagnostics {
    let a = refs[i];
    (match receiver {
        Some(r) => if spec_overlaps(&a.1, &r) {
            seq![(a.2, receiver_overlap_message(spec_place_name(types, a.1), a.0@, spec_place_name(types, r)))]
        } else {
            Seq::empty()
        },
        None => Seq::empty(),
    }) + overlap_reports(types, refs, i, refs, i + 1, refs.len() as int, false) + overlap_reports(
        types,
        refs,
        i,
        moves,
        0,
        moves.len() as int,
        true,
    )
}

/// The overlap diagnostics of the first `n` reference arguments.
pub open spec fn overlap_diagnostics(
    types: &Types,
    refs: Seq<ArgPlace>,
    moves: Seq<ArgPlace>,
    receiver: Option<Place>,
    n: int,
) -> Diagnostics
    decreases if n > 0 { n as nat } else { 0 },
{
    if n <= 0 || n > refs.len() {
        Seq::empty()
    } else {
        overlap_diagnostics(types, refs, moves, receiver, n - 1) + argument_overlaps(
            types,
            refs,
            moves,
            receiver,
            n - 1,
        )
    }
}

fn report_pair(
    types: &Types,
    a: &ArgPlace,
    o: &ArgPlace,
    moved: bool,
    errors: &mut Vec<Error>,
)
    requires
        types.wf(),
        types.valid_ty(a.1.root_ty),
        types.valid_ty(o.1.root_ty),
    ensures
        diagnostics(final(errors)@) == diagnostics(old(errors)@) + if spec_overlaps(&a.1, &o.1) {
            seq![(
                a.2,
                if moved {
                    moved_overlap_message(
                        spec_place_name(types, a.1),
                        a.0@,
                        spec_place_name(types, o.1),
                        o.0@,
                    )
                } else {
                    reference_overlap_message(
                        spec_place_name(types, a.1),
                        spec_place_name(types, o.1),
                        a.0@,
                        o.0@,
                    )
                },
            )]
        } else {
            Seq::empty()
        },
{
    let ghost start = diagnostics(errors@);
    if overlaps(&a.1, &o.1) {
        let left = place_name(types, &a.1);
        let right = place_name(types, &o.1);
        let mut msg: String;
        if moved {
            msg = concat_str("reference argument '", left.as_str());
            msg.append("' for parameter '");
            msg.append(a.0.as_str());
            msg.append("' overlaps the moved argument '");
            msg.append(right.as_str());
            msg.append("' for parameter '");
            msg.append(o.0.as_str());
            msg.append("', so it cannot be borrowed in the same call that moves it");
        } else {
            msg = concat_str("reference arguments '", left.as_str());
            msg.append("' and '");
            msg.append(right.as_str());
            msg.append("' overlap, so parameters '");
            msg.append(a.0.as_str());
            msg.append("' and '");
            msg.append(o.0.as_str());
            msg.append("' cannot both have exclusive access");
        }
        let ghost m = msg@;
        errors.push(Error { span: a.2, msg });
        proof {
            assert(diagnostics(errors@) =~= start.push((a.2, m)));
            if moved {
                assert(m =~= moved_overlap_message(
                    spec_place_name(types, a.1),
                    a.0@,
                    spec_place_name(types, o.1),
                    o.0@,
                ));
            } else {
                assert(m =~= reference_overlap_message(
                    spec_place_name(types, a.1),
                    spec_place_name(types, o.1),
                    a.0@,
                    o.0@,
                ));
            }
        }
    } else {
        proof {
            assert(start =~= start + Seq::<(Span, Seq<char>)>::empty());
        }
    }
}

/// Rejects overlapping argument places in one call: a reference argument
/// against the addressable method receiver, every pair of reference
/// arguments, and each reference argument against every whole move-only
/// argument the same call moves. A temporary receiver has storage of its
/// own and overlaps nothing.
pub fn reject_overlap(
    types: &Types,
    references: &Vec<ArgPlace>,
    moves: &Vec<ArgPlace>,
    receiver: Option<&Place>,
    errors: &mut Vec<Error>,
)
    requires
        types.wf(),
        forall|i: int| 0 <= i < references@.len() ==> types.valid_ty((#[trigger] references@[i]).1.root_ty),
        forall|i: int| 0 <= i < moves@.len() ==> types.valid_ty((#[trigger] moves@[i]).1.root_ty),
        receiver matches Some(r) ==> types.valid_ty(r.root_ty),
    ensures
        diagnostics(final(errors)@) == diagnostics(old(errors)@) + overlap_diagnostics(
            types,
            references@,
            moves@,
            match receiver {
                Some(r) => Some(*r),
                None => None,
            },
            references@.len() as int,
        ),
{
    let ghost start = diagnostics(errors@);
    let ghost recv = match receiver {
        Some(r) => Some(*r),
        None => None,
    };
    let mut i: usize = 0;
    proof {
        assert(start =~= start + overlap_diagnostics(types, references@, moves@, recv, 0));
    }
    while i < references.len()
        invariant
            types.wf(),
            forall|k: int| 0 <= k < references@.len() ==> types.valid_ty((#[trigger] references@[k]).1.root_ty),
            forall|k: int| 0 <= k < moves@.len() ==> types.valid_ty((#[trigger] moves@[k]).1.root_ty),
            receiver matches Some(r) ==> types.valid_ty(r.root_ty),
            recv == match receiver {
                Some(r) => Some(*r),
                None => None,
            },
            i <= references@.len(),
            diagnostics(errors@) == start + overlap_diagnostics(types, references@, moves@, recv, i as int),
        decreases references.len() - i,
    {
        let a = &references[i];
        let ghost base = diagnostics(errors@);
        match receiver {
            Some(r) => {
                if overlaps(&a.1, r) {
                    let argument = place_name(types, &a.1);
                    let subject = place_name(types, r);
                    let mut msg = concat_str("reference argument '", argument.as_str());
                    msg.append("' for parameter '");
                    msg.append(a.0.as_str());
                    msg.append("' overlaps the receiver '");
                    msg.append(subject.as_str());
                    msg.append("', which the method may access through 'self'");
                    let ghost m = msg@;
                    errors.push(Error { span: a.2, msg });
                    proof {
                        assert(m =~= receiver_overlap_message(
                            spec_place_name(types, a.1),
                            a.0@,
                            spec_place_name(types, *r),
                        ));
                        assert(diagnostics(errors@) =~= base.push((a.2, m)));
                    }
                }
            },
            None => {},
        }
        let ghost head = diagnostics(errors@);
        let mut j = i + 1;
        proof {
            assert(head =~= head + overlap_reports(types, references@, i as int, references@, i + 1, i + 1, false));
        }
        while j < references.len()
            invariant
                types.wf(),
                forall|k: int| 0 <= k < references@.len() ==> types.valid_ty((#[trigger] references@[k]).1.root_ty),
                i < j <= references@.len(),
                a == references@[i as int],
                diagnostics(errors@) == head + overlap_reports(
                    types,
                    references@,
                    i as int,
                    references@,
                    i + 1,
                    j as int,
                    false,
                ),
            decreases references.len() - j,
        {
            let ghost before = overlap_reports(types, references@, i as int, references@, i + 1, j as int, false);
            report_pair(types, a, &references[j], false, errors);
            proof {
                assert(diagnostics(errors@) =~= head + overlap_reports(
                    types,
                    references@,
                    i as int,
                    references@,
                    i + 1,
                    j + 1,
                    false,
                ));
            }
            j = j + 1;
        }
        let ghost mid = diagnostics(errors@);
        let mut k: usize = 0;
        proof {
            assert(mid =~= mid + overlap_reports(types, references@, i as int, moves@, 0, 0, true));
        }
        while k < moves.len()
            invariant
                types.wf(),
                forall|q: int| 0 <= q < moves@.len() ==> types.valid_ty((#[trigger] moves@[q]).1.root_ty),
                types.valid_ty(a.1.root_ty),
                k <= moves@.len(),
                a == references@[i as int],
                diagnostics(errors@) == mid + overlap_reports(types, references@, i as int, moves@, 0, k as int, true),
            decreases moves.len() - k,
        {
            report_pair(types, a, &moves[k], true, errors);
            proof {
                assert(diagnostics(errors@) =~= mid + overlap_reports(
                    types,
                    references@,
                    i as int,
                    moves@,
                    0,
                    k + 1,
                    true,
                ));
            }
            k = k + 1;
        }
        proof {
            assert(diagnostics(errors@) =~= start + overlap_diagnostics(
                types,
                references@,
                moves@,
                recv,
                i + 1,
            ));
        }
        i = i + 1;
    }
}

/// Whether `ty` is the user-defined type named `Error`.
pub open spec fn spec_is_error_type(types: &Types, ty: Ty) -> bool {
    ty matches Ty::User(id) && id.0 < types.defs@.len() && types.defs@[id.0 as int].spec_name()@
        == "Error"@
}

fn is_error_def(types: &Types, id: TypeId) -> (r: bool)
    ensures
        r == (id.0 < types.defs@.len() && types.defs@[id.0 as int].spec_name()@ == "Error"@),
{
    if id.index() < types.defs.len() {
        str_eq(types.def(id).name().as_str(), "Error")
    } else {
        false
    }
}

/// Whether `ty` is the user-defined type named `Error`.
pub fn is_error_type(types: &Types, ty: Ty) -> (r: bool)
    ensures
        r == spec_is_error_type(types, ty),
{
    match ty {
        Ty::User(id) => is_error_def(types, id),
        _ => false,
    }
}

/// The single fact every one of `facts` agrees on; `None` when they
/// disagree or there are none.
pub open spec fn agreed_fact(facts: Seq<Option<bool>>) -> Option<bool> {
    if facts.len() > 0 && forall|i: int| 0 <= i < facts.len() ==> #[trigger] facts[i] == facts[0] {
        facts[0]
    } else {
        None
    }
}

/// Whether an exit with this value is statically an error exit (`Some`
/// of the answer), or depends on the value at run time (`None`).
pub open spec fn spec_error_exit(types: &Types, value: TExpr) -> Option<bool>
    decreases value,
{
    match value {
        TExpr::Place(place, _) => if spec_is_error_type(types, place.ty) {
            Some(true)
        } else if place.ty is Sum {
            None
        } else {
            Some(false)
        },
        TExpr::Construct { type_id, .. } => Some(
            type_id.0 < types.defs@.len() && types.defs@[type_id.0 as int].spec_name()@ == "Error"@,
        ),
        TExpr::InjectSum { member, .. } => Some(spec_is_error_type(types, member)),
        TExpr::LiftSum { value, .. } => spec_error_exit(types, *value),
        TExpr::Represent { value, .. } => spec_error_exit(types, *value),
        TExpr::If(form) => agreed_fact(
            arm_facts(types, form.arms@, form.arms@.len() as int) + else_facts(types, form.else_branch),
        ),
        TExpr::Call(_, _) => None,
        TExpr::MethodCall(_) => None,
        _ => Some(false),
    }
}

/// The exit fact of an `else` block's result, if it has one.
pub open spec fn else_facts(types: &Types, else_branch: Option<TBlock>) -> Seq<Option<bool>>
    decreases else_branch,
{
    match else_branch {
        Some(b) => match b.result {
            Some(v) => seq![spec_error_exit(types, v)],
            None => Seq::empty(),
        },
        None => Seq::empty(),
    }
}

/// The exit facts of the first `n` arms that produce a value.
pub open spec fn arm_facts(
    types: &Types,
    arms: Seq<(TCondition, TBlock)>,
    n: int,
) -> Seq<Option<bool>>
    decreases arms, if n > 0 { n as nat } else { 0 },
{
    if n <= 0 || n > arms.len() {
        Seq::empty()
    } else {
        arm_facts(types, arms, n - 1) + match arms[n - 1].1.result {
            Some(v) => seq![spec_error_exit(types, v)],
            None => Seq::empty(),
        }
    }
}

fn arm_error_facts(types: &Types, arms: &Vec<(TCondition, TBlock)>) -> (r: Vec<Option<bool>>)
    ensures
        r@ == arm_facts(types, arms@, arms@.len() as int),
    decreases arms@, arms@.len() + 1,
{
    let mut facts: Vec<Option<bool>> = Vec::new();
    let mut i: usize = 0;
    while i < arms.len()
        invariant
            i <= arms@.len(),
            facts@ == arm_facts(types, arms@, i as int),
        decreases arms.len() - i,
    {
        match &arms[i].1.result {
            Some(v) => {
                let fact = expression_error_exit(types, v);
                facts.push(fact);
            },
            None => {},
        }
        proof {
            assert(facts@ =~= arm_facts(types, arms@, i + 1));
        }
        i = i + 1;
    }
    facts
}

/// Classifies an exit result when its active member is statically
/// visible: an `Error` value is an error exit, a non-sum non-`Error` value
/// a success exit; a sum-typed place or a call result is known only at
/// run time, and an `if` is known only when all its results agree.
#[verifier::loop_isolation(false)]
pub fn expression_error_exit(types: &Types, value: &TExpr) -> (r: Option<bool>)
    ensures
        r == spec_error_exit(types, *value),
    decreases *value, 0nat,
{
    match value {
        TExpr::Place(place, _) => {
            if is_error_type(types, place.ty) {
                Some(true)
            } else if matches!(place.ty, Ty::Sum(_)) {
                None
            } else {
                Some(false)
            }
        },
        TExpr::Construct { type_id, .. } => Some(is_error_def(types, *type_id)),
        TExpr::InjectSum { member, .. } => Some(is_error_type(types, *member)),
        TExpr::LiftSum { value, .. } => expression_error_exit(types, value),
        TExpr::Represent { value, .. } => expression_error_exit(types, value),
        TExpr::If(form) => {
            let mut facts = arm_error_facts(types, &form.arms);
            let ghost arms_part = facts@;
            match &form.else_branch {
                Some(b) => match &b.result {
                    Some(v) => {
                        let fact = expression_error_exit(types, v);
                        facts.push(fact);
                    },
                    None => {},
                },
                None => {},
            }
            proof {
                assert(facts@ =~= arms_part + else_facts(types, form.else_branch));
            }
            if facts.len() == 0 {
                return None;
            }
            let first = facts[0];
            let mut k: usize = 0;
            while k < facts.len()
                invariant
                    k <= facts@.len(),
                    facts@.len() > 0,
                    first == facts@[0],
                    forall|j: int| 0 <= j < k ==> #[trigger] facts@[j] == first,
                decreases facts.len() - k,
            {
                if facts[k] != first {
                    proof {
                        assert(facts@[k as int] != facts@[0]);
                    }
                    return None;
                }
                k = k + 1;
            }
            first
        },
        TExpr::Call(_, _) => None,
        TExpr::MethodCall(_) => None,
        _ => Some(false),
    }
}

/// The roots a value may borrow from when it is a view: a named view
/// reaches the sources its tracked borrow records, any other local or
/// `self` is its own source, and a constructed, projected, injected, or
/// conditional value reaches the sources of every part it was built from.
pub open spec fn spec_view_sources(borrows: Seq<ViewBorrow>, value: TExpr) -> Set<PlaceRootView>
    decreases value,
{
    match value {
        TExpr::ViewFromString(v, _) => spec_view_sources(borrows, *v),
        TExpr::CollectionView(v, _) => spec_view_sources(borrows, *v),
        TExpr::CollectionSlice { value, .. } => spec_view_sources(borrows, *value),
        TExpr::ViewSlice { value, .. } => spec_view_sources(borrows, *value),
        TExpr::Place(place, _) => match place.root {
            PlaceRoot::Local(name) => match first_named(borrows, name@) {
                Some(i) => root_set(borrows[i].sources@),
                None => set![place.root@],
            },
            PlaceRoot::SelfRef => set![PlaceRootView::SelfRef],
        },
        TExpr::Construct { fields, .. } => field_sources(borrows, fields@, fields@.len() as int),
        TExpr::FieldRead { base, .. } => spec_view_sources(borrows, *base),
        TExpr::Represent { value, .. } => spec_view_sources(borrows, *value),
        TExpr::Inject { value, .. } => spec_view_sources(borrows, *value),
        TExpr::InjectSum { value, .. } => spec_view_sources(borrows, *value),
        TExpr::LiftSum { value, .. } => spec_view_sources(borrows, *value),
        TExpr::If(form) => arm_sources(borrows, form.arms@, form.arms@.len() as int).union(
            match form.else_branch {
                Some(b) => match b.result {
                    Some(v) => spec_view_sources(borrows, v),
                    None => Set::empty(),
                },
                None => Set::empty(),
            },
        ),
        TExpr::Print(v, ty) => if ty is ViewByte || ty is ViewUnicode || ty is View {
            spec_view_sources(borrows, *v)
        } else {
            Set::empty()
        },
        _ => Set::empty(),
    }
}

/// The roots as they are named.
pub open spec fn roots_view(roots: Seq<PlaceRoot>) -> Seq<PlaceRootView> {
    roots.map_values(|p: PlaceRoot| p@)
}

/// `acc`, then each root of `add` that is not yet among them, in order.
pub open spec fn joined_roots(acc: Seq<PlaceRootView>, add: Seq<PlaceRootView>) -> Seq<PlaceRootView>
    decreases add.len(),
{
    if add.len() == 0 {
        acc
    } else {
        let prev = joined_roots(acc, add.drop_last());
        if prev.contains(add.last()) {
            prev
        } else {
            prev.push(add.last())
        }
    }
}

/// The roots a value may borrow from, in the order a join first meets
/// them: a tracked view's own recorded sources, and for a construction or
/// an `if` those of each part in turn, each root once.
pub open spec fn view_source_list(borrows: Seq<ViewBorrow>, value: TExpr) -> Seq<PlaceRootView>
    decreases value,
{
    match value {
        TExpr::ViewFromString(v, _) => view_source_list(borrows, *v),
        TExpr::CollectionView(v, _) => view_source_list(borrows, *v),
        TExpr::CollectionSlice { value, .. } => view_source_list(borrows, *value),
        TExpr::ViewSlice { value, .. } => view_source_list(borrows, *value),
        TExpr::Place(place, _) => match place.root {
            PlaceRoot::Local(name) => match first_named(borrows, name@) {
                Some(i) => roots_view(borrows[i].sources@),
                None => seq![place.root@],
            },
            PlaceRoot::SelfRef => seq![PlaceRootView::SelfRef],
        },
        TExpr::Construct { fields, .. } => field_source_list(borrows, fields@, fields@.len() as int),
        TExpr::FieldRead { base, .. } => view_source_list(borrows, *base),
        TExpr::Represent { value, .. } => view_source_list(borrows, *value),
        TExpr::Inject { value, .. } => view_source_list(borrows, *value),
        TExpr::InjectSum { value, .. } => view_source_list(borrows, *value),
        TExpr::LiftSum { value, .. } => view_source_list(borrows, *value),
        TExpr::If(form) => joined_roots(
            arm_source_list(borrows, form.arms@, form.arms@.len() as int),
            match form.else_branch {
                Some(b) => match b.result {
                    Some(v) => view_source_list(borrows, v),
                    None => Seq::empty(),
                },
                None => Seq::empty(),
            },
        ),
        TExpr::Print(v, ty) => if ty is ViewByte || ty is ViewUnicode || ty is View {
            view_source_list(borrows, *v)
        } else {
            Seq::empty()
        },
        _ => Seq::empty(),
    }
}

/// The sources of the first `n` constructor fields, in order.
pub open spec fn field_source_list(borrows: Seq<ViewBorrow>, fields: Seq<(usize, TExpr)>, n: int) -> Seq<
    PlaceRootView,
>
    decreases fields, if n > 0 { n as nat } else { 0 },
{
    if n <= 0 || n > fields.len() {
        Seq::empty()
    } else {
        joined_roots(field_source_list(borrows, fields, n - 1), view_source_list(borrows, fields[n - 1].1))
    }
}

/// The sources of the results of the first `n` arms, in order.
pub open spec fn arm_source_list(borrows: Seq<ViewBorrow>, arms: Seq<(TCondition, TBlock)>, n: int) -> Seq<
    PlaceRootView,
>
    decreases arms, if n > 0 { n as nat } else { 0 },
{
    if n <= 0 || n > arms.len() {
        Seq::empty()
    } else {
        joined_roots(
            arm_source_list(borrows, arms, n - 1),
            match arms[n - 1].1.result {
                Some(v) => view_source_list(borrows, v),
                None => Seq::empty(),
            },
        )
    }
}

/// The sources of the first `n` constructor fields.
pub open spec fn field_sources(borrows: Seq<ViewBorrow>, fields: Seq<(usize, TExpr)>, n: int) -> Set<
    PlaceRootView,
>
    decreases fields, if n > 0 { n as nat } else { 0 },
{
    if n <= 0 || n > fields.len() {
        Set::empty()
    } else {
        field_sources(borrows, fields, n - 1).union(spec_view_sources(borrows, fields[n - 1].1))
    }
}

/// The sources of the results of the first `n` arms.
pub open spec fn arm_sources(borrows: Seq<ViewBorrow>, arms: Seq<(TCondition, TBlock)>, n: int) -> Set<
    PlaceRootView,
>
    decreases arms, if n > 0 { n as nat } else { 0 },
{
    if n <= 0 || n > arms.len() {
        Set::empty()
    } else {
        arm_sources(borrows, arms, n - 1).union(
            match arms[n - 1].1.result {
                Some(v) => spec_view_sources(borrows, v),
                None => Set::empty(),
            },
        )
    }
}

/// The first tracked borrow whose view is named `name`.
pub open spec fn first_named(borrows: Seq<ViewBorrow>, name: Seq<char>) -> Option<int> {
    if exists|i: int|
        0 <= i < borrows.len() && (#[trigger] borrows[i]).view_name@ == name && forall|j: int|
            0 <= j < i ==> (#[trigger] borrows[j]).view_name@ != name {
        Some(
            choose|i: int|
                0 <= i < borrows.len() && (#[trigger] borrows[i]).view_name@ == name && forall|j: int|
                    0 <= j < i ==> (#[trigger] borrows[j]).view_name@ != name,
        )
    } else {
        None
    }
}

/// Adds every root of `more` not already in `into`.
fn merge_sources(into: &mut Vec<PlaceRoot>, more: Vec<PlaceRoot>)
    ensures
        forall|r: PlaceRootView|
            #[trigger] has_source(final(into)@, r) <==> (has_source(old(into)@, r) || has_source(more@, r)),
        roots_view(final(into)@) == joined_roots(roots_view(old(into)@), roots_view(more@)),
{
    let mut k: usize = 0;
    while k < more.len()
        invariant
            k <= more@.len(),
            roots_view(into@) == joined_roots(roots_view(old(into)@), roots_view(more@).take(k as int)),
            forall|r: PlaceRootView|
                #[trigger] has_source(into@, r) <==> (has_source(old(into)@, r) || exists|q: int|
                    0 <= q < k && (#[trigger] more@[q])@ == r),
        decreases more.len() - k,
    {
        let ghost prev = into@;
        proof {
            let t = roots_view(more@).take(k + 1);
            assert(t.drop_last() =~= roots_view(more@).take(k as int));
            assert(t.last() == more@[k as int]@);
            assert(has_source(prev, more@[k as int]@) <==> roots_view(prev).contains(more@[k as int]@)) by {
                if has_source(prev, more@[k as int]@) {
                    let q = choose|q: int| 0 <= q < prev.len() && (#[trigger] prev[q])@ == more@[k as int]@;
                    assert(roots_view(prev)[q] == prev[q]@);
                }
                if roots_view(prev).contains(more@[k as int]@) {
                    let q = choose|q: int| 0 <= q < roots_view(prev).len() && roots_view(prev)[q] == more@[k as int]@;
                    assert(prev[q]@ == roots_view(prev)[q]);
                }
            }
        }
        if !sources_contain(into, &more[k]) {
            let ghost before = into@;
            into.push(copy_root(&more[k]));
            proof {
                assert(roots_view(into@) =~= roots_view(before).push(more@[k as int]@));
            }
            proof {
                assert forall|r: PlaceRootView|
                    #[trigger] has_source(into@, r) <==> (has_source(old(into)@, r) || exists|q: int|
                        0 <= q < k + 1 && (#[trigger] more@[q])@ == r) by {
                    if has_source(into@, r) {
                        let q = choose|q: int| 0 <= q < into@.len() && (#[trigger] into@[q])@ == r;
                        if q < before.len() {
                            assert(has_source(before, r));
                        }
                    }
                    if has_source(before, r) {
                        let q = choose|q: int| 0 <= q < before.len() && (#[trigger] before[q])@ == r;
                        assert(into@[q] == before[q]);
                    }
                    if exists|q: int| 0 <= q < k + 1 && (#[trigger] more@[q])@ == r {
                        let q = choose|q: int| 0 <= q < k + 1 && (#[trigger] more@[q])@ == r;
                        if q == k {
                            assert(into@[before.len() as int]@ == r);
                        } else {
                            assert(has_source(before, r));
                        }
                    }
                }
            }
        } else {
            proof {
                assert forall|r: PlaceRootView|
                    #[trigger] has_source(into@, r) <==> (has_source(old(into)@, r) || exists|q: int|
                        0 <= q < k + 1 && (#[trigger] more@[q])@ == r) by {
                    if exists|q: int| 0 <= q < k + 1 && (#[trigger] more@[q])@ == r {
                        let q = choose|q: int| 0 <= q < k + 1 && (#[trigger] more@[q])@ == r;
                        if q == k {
                            assert(has_source(into@, r));
                        }
                    }
                }
            }
        }
        k = k + 1;
    }
    proof {
        assert(roots_view(more@).take(more@.len() as int) =~= roots_view(more@));
    }
}

fn copy_roots(roots: &Vec<PlaceRoot>) -> (r: Vec<PlaceRoot>)
    ensures
        forall|x: PlaceRootView| #[trigger] has_source(r@, x) <==> has_source(roots@, x),
        roots_view(r@) == roots_view(roots@),
{
    let mut out: Vec<PlaceRoot> = Vec::new();
    let mut k: usize = 0;
    while k < roots.len()
        invariant
            k <= roots@.len(),
            out@.len() == k,
            forall|q: int| 0 <= q < k ==> (#[trigger] out@[q])@ == roots@[q]@,
        decreases roots.len() - k,
    {
        out.push(copy_root(&roots[k]));
        k = k + 1;
    }
    proof {
        assert forall|x: PlaceRootView| #[trigger] has_source(out@, x) <==> has_source(roots@, x) by {
            if has_source(out@, x) {
                let q = choose|q: int| 0 <= q < out@.len() && (#[trigger] out@[q])@ == x;
                assert(roots@[q]@ == x);
            }
            if has_source(roots@, x) {
                let q = choose|q: int| 0 <= q < roots@.len() && (#[trigger] roots@[q])@ == x;
                assert(out@[q]@ == x);
            }
        }
        assert(roots_view(out@) =~= roots_view(roots@));
    }
    out
}

fn construct_sources(borrows: &Vec<ViewBorrow>, fields: &Vec<(usize, TExpr)>) -> (r: Vec<PlaceRoot>)
    ensures
        forall|x: PlaceRootView|
            #[trigger] has_source(r@, x) <==> field_sources(borrows@, fields@, fields@.len() as int).contains(x),
        roots_view(r@) == field_source_list(borrows@, fields@, fields@.len() as int),
    decreases fields@, fields@.len() + 1,
{
    let mut out: Vec<PlaceRoot> = Vec::new();
    let mut i: usize = 0;
    while i < fields.len()
        invariant
            i <= fields@.len(),
            forall|x: PlaceRootView|
                #[trigger] has_source(out@, x) <==> field_sources(borrows@, fields@, i as int).contains(x),
            roots_view(out@) == field_source_list(borrows@, fields@, i as int),
        decreases fields.len() - i,
    {
        let more = view_sources(borrows, &fields[i].1);
        merge_sources(&mut out, more);
        i = i + 1;
    }
    out
}

fn arm_view_sources(borrows: &Vec<ViewBorrow>, arms: &Vec<(TCondition, TBlock)>) -> (r: Vec<PlaceRoot>)
    ensures
        forall|x: PlaceRootView|
            #[trigger] has_source(r@, x) <==> arm_sources(borrows@, arms@, arms@.len() as int).contains(x),
        roots_view(r@) == arm_source_list(borrows@, arms@, arms@.len() as int),
    decreases arms@, arms@.len() + 1,
{
    let mut out: Vec<PlaceRoot> = Vec::new();
    let mut i: usize = 0;
    while i < arms.len()
        invariant
            i <= arms@.len(),
            forall|x: PlaceRootView|
                #[trigger] has_source(out@, x) <==> arm_sources(borrows@, arms@, i as int).contains(x),
            roots_view(out@) == arm_source_list(borrows@, arms@, i as int),
        decreases arms.len() - i,
    {
        match &arms[i].1.result {
            Some(v) => {
                let more = view_sources(borrows, v);
                merge_sources(&mut out, more);
            },
            None => {},
        }
        i = i + 1;
    }
    out
}

/// The roots a value may borrow from when it is a view, each once.
#[verifier::loop_isolation(false)]
pub fn view_sources(borrows: &Vec<ViewBorrow>, value: &TExpr) -> (r: Vec<PlaceRoot>)
    ensures
        forall|x: PlaceRootView|
            #[trigger] has_source(r@, x) <==> spec_view_sources(borrows@, *value).contains(x),
        roots_view(r@) == view_source_list(borrows@, *value),
    decreases *value, 0nat,
{
    match value {
        TExpr::ViewFromString(v, _) => view_sources(borrows, v),
        TExpr::CollectionView(v, _) => view_sources(borrows, v),
        TExpr::CollectionSlice { value, .. } => view_sources(borrows, value),
        TExpr::ViewSlice { value, .. } => view_sources(borrows, value),
        TExpr::Place(place, _) => match &place.root {
            PlaceRoot::Local(name) => {
                let mut i: usize = 0;
                while i < borrows.len()
                    invariant
                        i <= borrows@.len(),
                        forall|j: int| 0 <= j < i ==> (#[trigger] borrows@[j]).view_name@ != name@,
                    decreases borrows.len() - i,
                {
                    if str_eq(borrows[i].view_name.as_str(), name.as_str()) {
                        proof {
                            let k = choose|k: int|
                                0 <= k < borrows@.len() && (#[trigger] borrows@[k]).view_name@ == name@
                                    && forall|j: int| 0 <= j < k ==> (#[trigger] borrows@[j]).view_name@ != name@;
                            if k < i {
                            } else if k > i {
                                assert(borrows@[i as int].view_name@ == name@);
                            }
                            assert(first_named(borrows@, name@) == Some(i as int));
                        }
                        let out = copy_roots(&borrows[i].sources);
                        proof {
                            assert forall|x: PlaceRootView|
                                #[trigger] has_source(out@, x) <==> spec_view_sources(borrows@, *value).contains(x) by {
                                assert(root_set(borrows@[i as int].sources@).contains(x) <==> has_source(
                                    borrows@[i as int].sources@,
                                    x,
                                ));
                            }
                        }
                        return out;
                    }
                    i = i + 1;
                }
                let mut out: Vec<PlaceRoot> = Vec::new();
                out.push(copy_root(&place.root));
                proof {
                    assert(roots_view(out@) =~= seq![place.root@]);
                    assert(first_named(borrows@, name@) is None);
                    assert forall|x: PlaceRootView|
                        #[trigger] has_source(out@, x) <==> spec_view_sources(borrows@, *value).contains(x) by {
                        if has_source(out@, x) {
                            let q = choose|q: int| 0 <= q < out@.len() && (#[trigger] out@[q])@ == x;
                            assert(q == 0);
                        }
                        if x == place.root@ {
                            assert(out@[0]@ == x);
                        }
                    }
                }
                out
            },
            PlaceRoot::SelfRef => {
                let mut out: Vec<PlaceRoot> = Vec::new();
                out.push(PlaceRoot::SelfRef);
                proof {
                    assert(roots_view(out@) =~= seq![PlaceRootView::SelfRef]);
                    assert forall|x: PlaceRootView|
                        #[trigger] has_source(out@, x) <==> spec_view_sources(borrows@, *value).contains(x) by {
                        if has_source(out@, x) {
                            let q = choose|q: int| 0 <= q < out@.len() && (#[trigger] out@[q])@ == x;
                            assert(q == 0);
                        }
                        if x == PlaceRootView::SelfRef {
                            assert(out@[0]@ == x);
                        }
                    }
                }
                out
            },
        },
        TExpr::Construct { fields, .. } => construct_sources(borrows, fields),
        TExpr::FieldRead { base, .. } => view_sources(borrows, base),
        TExpr::Represent { value, .. } => view_sources(borrows, value),
        TExpr::Inject { value, .. } => view_sources(borrows, value),
        TExpr::InjectSum { value, .. } => view_sources(borrows, value),
        TExpr::LiftSum { value, .. } => view_sources(borrows, value),
        TExpr::If(form) => {
            let mut out = arm_view_sources(borrows, &form.arms);
            match &form.else_branch {
                Some(b) => match &b.result {
                    Some(v) => {
                        let more = view_sources(borrows, v);
                        merge_sources(&mut out, more);
                    },
                    None => {},
                },
                None => {},
            }
            out
        },
        TExpr::Print(v, ty) => {
            if matches!(ty, Ty::ViewByte | Ty::ViewUnicode | Ty::View(_)) {
                view_sources(borrows, v)
            } else {
                Vec::new()
            }
        },
        _ => Vec::new(),
    }
}

} // verus!
