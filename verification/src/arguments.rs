//! Call arguments. A by-value argument lends a view of its place where the
//! parameter is a view of it, and is otherwise taken over; either way it is
//! made assignable to the parameter. A reference argument must be a mutable
//! place of exactly the parameter's type. The places one call borrows,
//! lends, and moves must not overlap.
use vstd::prelude::*;
use crate::ast::Span;
use crate::checked::{Error, TExpr, TParam};
use crate::convert::{
    coerce, coerce_bridge_view, coerce_diagnostics, coerced, lemma_coercion_reflexive, lend_call_view,
    lent_as, sequence_elem, view_elem,
};
use crate::generics::{Diagnostics, diagnostics};
use crate::lowering::root_name;
use crate::moves::{
    ArgPlace, Binding, consume_effect, consume_moves, consumed, mark_consumed, overlap_diagnostics,
    place_name, reject_overlap, root_text, spec_place_name,
};
use crate::names::{display_depth, spec_display};
use crate::ownership::is_move_only;
use crate::places::{
    MoveState, Place, PlaceRoot, PlaceRootView, ViewBorrow, copy_place, overlaps, spec_overlaps,
};
use crate::resolve::Resolved;
use crate::text::concat_str;
use crate::ty::{MethodId, Ty, Types};

verus! {

/// `new` is `old` with one more argument place: the parameter's name, a
/// place equal to `place`, and the argument's span.
pub open spec fn pushed_arg(old: Seq<ArgPlace>, new: Seq<ArgPlace>, name: String, place: Place, span: Span) -> bool {
    &&& new.len() == old.len() + 1
    &&& new.drop_last() == old
    &&& new.last().0 == name
    &&& new.last().1@ == place@
    &&& new.last().2 == span
}

/// Whether a by-value argument lends a view of its place: a named
/// `String` passed as a text view, or a named array or list passed as a
/// view of its element type.
pub open spec fn lends_view(types: &Types, value: TExpr, from: Ty, to: Ty) -> bool {
    &&& value is Place
    &&& (from == Ty::String && (to == Ty::ViewByte || to == Ty::ViewUnicode)) || (sequence_elem(types, from) is Some
        && sequence_elem(types, from) == view_elem(types, to))
}

/// A bridge call accepts a value of its parameter's type, and either view
/// of the same element where the other is declared, as it is.
pub open spec fn bridge_accepts(types: &Types, from: Ty, to: Ty) -> bool {
    from == to || (view_elem(types, from) is Some && view_elem(types, from) == view_elem(types, to))
}

/// The diagnostics of making `value` assignable to its parameter.
pub open spec fn assignable_diagnostics(
    types: &Types,
    bridge: bool,
    value: TExpr,
    from: Ty,
    to: Ty,
    span: Span,
) -> Diagnostics {
    if bridge && bridge_accepts(types, from, to) {
        Seq::empty()
    } else {
        coerce_diagnostics(types, value is Place, from, to, span)
    }
}

/// `r` is `value` made assignable to its parameter.
pub open spec fn made_assignable(types: &Types, bridge: bool, value: TExpr, from: Ty, to: Ty, r: TExpr) -> bool {
    if bridge && bridge_accepts(types, from, to) {
        r == value
    } else {
        coerced(types, value, from, to, r)
    }
}

/// Whether a taken-over argument moves a whole move-only root, which the
/// call's overlap checks must then see.
pub open spec fn moves_whole_argument(types: &Types, value: TExpr) -> bool {
    value matches TExpr::Place(p, _) && p.path@.len() == 0 && types.spec_is_move_only(p.ty)
}

/// Handles one checked by-value argument of a call: lends a view of its
/// place where the parameter is such a view (recording the lent place), or
/// takes it over (recording a whole move-only root it moves), then makes
/// it assignable to the parameter, with a bridge call's view leniency.
pub fn value_argument(
    types: &Types,
    moves: &mut MoveState,
    borrows: &Vec<ViewBorrow>,
    env: &Vec<Binding>,
    errors: &mut Vec<Error>,
    moved: &mut Vec<ArgPlace>,
    lends: &mut Vec<ArgPlace>,
    value: TExpr,
    ty: Ty,
    param: &TParam,
    span: Span,
    bridge: bool,
) -> (r: TExpr)
    requires
        types.wf(),
        types.layout_finite(),
        display_depth(types) <= usize::MAX,
        old(moves).wf(),
        types.valid_ty(ty),
        types.valid_ty(param.ty),
        value matches TExpr::Place(p, _) ==> types.valid_ty(p.ty) && types.valid_ty(p.root_ty),
    ensures
        final(moves).wf(),
        if lends_view(types, value, ty, param.ty) {
            &&& diagnostics(final(errors)@) == diagnostics(old(errors)@)
            &&& final(moves).entries@ == old(moves).entries@
            &&& final(moved)@ == old(moved)@
            &&& final(lends)@.len() == old(lends)@.len() + 1
            &&& final(lends)@.drop_last() == old(lends)@
            &&& final(lends)@.last().0 == param.name
            &&& final(lends)@.last().2 == span
            &&& match value {
                TExpr::Place(p, _) => lent_as(Some((r, final(lends)@.last().1)), p, param.ty, ty == Ty::String),
                _ => false,
            }
        } else {
            &&& final(lends)@ == old(lends)@
            &&& diagnostics(final(errors)@) == diagnostics(old(errors)@) + consume_effect(
                types,
                old(moves).entries@,
                borrows@,
                env@,
                value,
                span,
            ) + assignable_diagnostics(types, bridge, consumed(value), ty, param.ty, span)
            &&& consume_moves(types, env@, old(moves).entries@, final(moves).entries@, value, span)
            &&& made_assignable(types, bridge, consumed(value), ty, param.ty, r)
            &&& match value {
                TExpr::Place(p, _) => if moves_whole_argument(types, value) {
                    pushed_arg(old(moved)@, final(moved)@, param.name, p, span)
                } else {
                    final(moved)@ == old(moved)@
                },
                _ => final(moved)@ == old(moved)@,
            }
        },
{
    let ghost start = diagnostics(errors@);
    let ghost moved0 = moved@;
    match lend_call_view(types, &value, ty, param.ty) {
        Some((lent, place)) => {
            let ghost lends0 = lends@;
            lends.push((param.name.clone(), place, span));
            proof {
                assert(lends@.drop_last() =~= lends0);
            }
            proof {
                lemma_coercion_reflexive(types, param.ty, false);
            }
            if bridge {
                coerce_bridge_view(types, errors, lent, param.ty, param.ty, span)
            } else {
                coerce(types, errors, lent, param.ty, param.ty, span)
            }
        },
        None => {
            let taken = mark_consumed(types, moves, borrows, env, errors, value, span);
            let ghost after_consume = diagnostics(errors@);
            match &taken {
                TExpr::Place(place, _) => {
                    if place.path.len() == 0 && is_move_only(types, place.ty) {
                        moved.push((param.name.clone(), copy_place(place), span));
                        proof {
                            assert(moved@.drop_last() =~= moved0);
                        }
                    }
                },
                _ => {},
            }
            let r = if bridge {
                coerce_bridge_view(types, errors, taken, ty, param.ty, span)
            } else {
                coerce(types, errors, taken, ty, param.ty, span)
            };
            proof {
                assert(diagnostics(errors@) =~= start + consume_effect(
                    types,
                    old(moves).entries@,
                    borrows@,
                    env@,
                    value,
                    span,
                ) + assignable_diagnostics(types, bridge, consumed(value), ty, param.ty, span));
            }
            r
        },
    }
}

pub open spec fn not_mutable_message(root: Seq<char>, name: Seq<char>, callee: Seq<char>) -> Seq<char> {
    "'"@ + root + "' is not declared 'mut', so it cannot be passed to the reference parameter '"@ + name
        + "' of '"@ + callee + "'"@
}

pub open spec fn exact_type_message(
    types: &Types,
    name: Seq<char>,
    callee: Seq<char>,
    expected: Ty,
    found: Ty,
) -> Seq<char> {
    "reference parameter '"@ + name + "' of '"@ + callee + "' requires a place of exactly type '"@
        + spec_display(types, expected) + "', found '"@ + spec_display(types, found) + "'"@
}

/// A `Box<T>` place lends its pointee to a `Ref<T>` parameter.
pub open spec fn lends_pointee(types: &Types, ty: Ty, target: Ty) -> bool {
    ty matches Ty::Box(id) && types.boxes@[id.0 as int] == target
}

/// The diagnostics of passing a resolved place to a reference parameter:
/// its root must be mutable, and its type exactly the parameter's.
pub open spec fn reference_diagnostics(
    types: &Types,
    resolved: Resolved,
    param: TParam,
    callee: Seq<char>,
    span: Span,
) -> Diagnostics {
    let p = resolved.place;
    (if !resolved.mutable {
        seq![(span, not_mutable_message(root_text(p.root@), param.name@, callee))]
    } else {
        Seq::empty()
    }) + (if p.ty != param.ty && !lends_pointee(types, p.ty, param.ty) {
        seq![(span, exact_type_message(types, param.name@, callee, param.ty, p.ty))]
    } else {
        Seq::empty()
    })
}

/// The place a reference parameter receives: the argument's place, seen
/// through a box whose pointee the parameter names.
pub open spec fn referenced_place(types: &Types, place: Place, target: Ty) -> (PlaceRootView, Ty, Seq<usize>, Ty) {
    (
        place.root@,
        place.root_ty,
        place.path@,
        if place.ty != target && lends_pointee(types, place.ty, target) {
            target
        } else {
            place.ty
        },
    )
}

/// Passes a resolved place to a reference parameter: reports an immutable
/// root and a place whose type is not exactly the parameter's (a box
/// lending its pointee aside), records the place for the call's overlap
/// checks, and, for a `self`-rooted place inside a method, records that the
/// method writes its receiver.
pub fn reference_argument(
    types: &Types,
    errors: &mut Vec<Error>,
    direct_writes: &mut Vec<bool>,
    current_method: Option<MethodId>,
    references: &mut Vec<ArgPlace>,
    resolved: Resolved,
    param: &TParam,
    callee: &str,
    span: Span,
) -> (r: Place)
    requires
        types.wf(),
        display_depth(types) <= usize::MAX,
        types.valid_ty(resolved.place.ty),
        types.valid_ty(param.ty),
        current_method matches Some(m) ==> m.0 < old(direct_writes)@.len(),
    ensures
        diagnostics(final(errors)@) == diagnostics(old(errors)@) + reference_diagnostics(
            types,
            resolved,
            *param,
            callee@,
            span,
        ),
        r@ == referenced_place(types, resolved.place, param.ty),
        pushed_arg(old(references)@, final(references)@, param.name, r, span),
        match current_method {
            Some(m) => if resolved.place.root@ == PlaceRootView::SelfRef {
                final(direct_writes)@ == old(direct_writes)@.update(m.0 as int, true)
            } else {
                final(direct_writes)@ == old(direct_writes)@
            },
            None => final(direct_writes)@ == old(direct_writes)@,
        },
{
    let ghost start = diagnostics(errors@);
    let ghost original = resolved.place;
    if !resolved.mutable {
        let mut msg = concat_str("'", root_name(&resolved.place.root));
        msg.append("' is not declared 'mut', so it cannot be passed to the reference parameter '");
        msg.append(param.name.as_str());
        msg.append("' of '");
        msg.append(callee);
        msg.append("'");
        let ghost before = diagnostics(errors@);
        errors.push(Error { span, msg });
        proof {
            assert(diagnostics(errors@) =~= before.push(
                (span, not_mutable_message(root_text(original.root@), param.name@, callee@)),
            ));
        }
    }
    let ghost after_mutable = diagnostics(errors@);
    let mut place = resolved.place;
    let through_box = match place.ty {
        Ty::Box(id) => place.ty != param.ty && types.box_pointee(id) == param.ty,
        _ => false,
    };
    if through_box {
        place.ty = param.ty;
    } else if place.ty != param.ty {
        let mut msg = concat_str("reference parameter '", param.name.as_str());
        msg.append("' of '");
        msg.append(callee);
        msg.append("' requires a place of exactly type '");
        let expected = types.display(param.ty);
        msg.append(expected.as_str());
        msg.append("', found '");
        let found = types.display(place.ty);
        msg.append(found.as_str());
        msg.append("'");
        let ghost before = diagnostics(errors@);
        errors.push(Error { span, msg });
        proof {
            assert(diagnostics(errors@) =~= before.push(
                (span, exact_type_message(types, param.name@, callee@, param.ty, original.ty)),
            ));
        }
    }
    proof {
        assert(diagnostics(errors@) =~= start + reference_diagnostics(types, resolved, *param, callee@, span));
    }
    let self_rooted = match &place.root {
        PlaceRoot::SelfRef => true,
        PlaceRoot::Local(_) => false,
    };
    if self_rooted {
        match current_method {
            Some(method) => {
                direct_writes.set(method.index(), true);
            },
            None => {},
        }
    }
    let ghost refs0 = references@;
    references.push((param.name.clone(), copy_place(&place), span));
    proof {
        assert(references@.drop_last() =~= refs0);
    }
    place
}

pub open spec fn value_reference_message(types: &Types, name: Seq<char>, callee: Seq<char>, expected: Ty) -> Seq<char> {
    "reference parameter '"@ + name + "' of '"@ + callee + "' requires an initialized mutable place of type '"@
        + spec_display(types, expected) + "', but this argument is a value with no storage"@
}

/// A value with no storage passed to a reference parameter: reported only
/// when checking the value reported nothing of its own, that is when
/// `errors` still holds `before` diagnostics.
pub fn reference_to_value(
    types: &Types,
    errors: &mut Vec<Error>,
    before: usize,
    param: &TParam,
    callee: &str,
    span: Span,
)
    requires
        types.wf(),
        display_depth(types) <= usize::MAX,
        types.valid_ty(param.ty),
    ensures
        if old(errors)@.len() == before {
            diagnostics(final(errors)@) == diagnostics(old(errors)@).push(
                (span, value_reference_message(types, param.name@, callee@, param.ty)),
            )
        } else {
            final(errors)@ == old(errors)@
        },
{
    if errors.len() == before {
        let mut msg = concat_str("reference parameter '", param.name.as_str());
        msg.append("' of '");
        msg.append(callee);
        msg.append("' requires an initialized mutable place of type '");
        let expected = types.display(param.ty);
        msg.append(expected.as_str());
        msg.append("', but this argument is a value with no storage");
        let ghost old_diags = diagnostics(errors@);
        errors.push(Error { span, msg });
        proof {
            assert(diagnostics(errors@) =~= old_diags.push(
                (span, value_reference_message(types, param.name@, callee@, param.ty)),
            ));
        }
    }
}

pub open spec fn lend_overlap_message(
    lent: Seq<char>,
    name: Seq<char>,
    moved: Seq<char>,
    moved_name: Seq<char>,
) -> Seq<char> {
    "view argument '"@ + lent + "' for parameter '"@ + name + "' overlaps the moved argument '"@ + moved
        + "' for parameter '"@ + moved_name + "'"@
}

/// The diagnostics of one lent place against the first `k` moved places.
pub open spec fn lend_against(types: &Types, lent: ArgPlace, moved: Seq<ArgPlace>, k: int) -> Diagnostics
    decreases if k > 0 { k as nat } else { 0 },
{
    if k <= 0 || k > moved.len() {
        Seq::empty()
    } else {
        lend_against(types, lent, moved, k - 1) + if spec_overlaps(&lent.1, &moved[k - 1].1) {
            seq![(
                lent.2,
                lend_overlap_message(
                    spec_place_name(types, lent.1),
                    lent.0@,
                    spec_place_name(types, moved[k - 1].1),
                    moved[k - 1].0@,
                ),
            )]
        } else {
            Seq::empty()
        }
    }
}

/// The diagnostics of the first `n` lent places against every moved one.
pub open spec fn lend_diagnostics(types: &Types, lends: Seq<ArgPlace>, moved: Seq<ArgPlace>, n: int) -> Diagnostics
    decreases if n > 0 { n as nat } else { 0 },
{
    if n <= 0 || n > lends.len() {
        Seq::empty()
    } else {
        lend_diagnostics(types, lends, moved, n - 1) + lend_against(types, lends[n - 1], moved, moved.len() as int)
    }
}

/// Checks the places one call's arguments use against each other: the
/// reference arguments against the receiver, one another, and the moved
/// arguments; then every lent view against every moved argument.
pub fn finish_arguments(
    types: &Types,
    errors: &mut Vec<Error>,
    references: &Vec<ArgPlace>,
    moved: &Vec<ArgPlace>,
    lends: &Vec<ArgPlace>,
    receiver: Option<&Place>,
)
    requires
        types.wf(),
        forall|i: int| 0 <= i < references@.len() ==> types.valid_ty((#[trigger] references@[i]).1.root_ty),
        forall|i: int| 0 <= i < moved@.len() ==> types.valid_ty((#[trigger] moved@[i]).1.root_ty),
        forall|i: int| 0 <= i < lends@.len() ==> types.valid_ty((#[trigger] lends@[i]).1.root_ty),
        receiver matches Some(r) ==> types.valid_ty(r.root_ty),
    ensures
        diagnostics(final(errors)@) == diagnostics(old(errors)@) + overlap_diagnostics(
            types,
            references@,
            moved@,
            match receiver {
                Some(r) => Some(*r),
                None => None,
            },
            references@.len() as int,
        ) + lend_diagnostics(types, lends@, moved@, lends@.len() as int),
{
    reject_overlap(types, references, moved, receiver, errors);
    let ghost mid = diagnostics(errors@);
    let mut i: usize = 0;
    while i < lends.len()
        invariant
            types.wf(),
            forall|q: int| 0 <= q < moved@.len() ==> types.valid_ty((#[trigger] moved@[q]).1.root_ty),
            forall|q: int| 0 <= q < lends@.len() ==> types.valid_ty((#[trigger] lends@[q]).1.root_ty),
            i <= lends@.len(),
            diagnostics(errors@) == mid + lend_diagnostics(types, lends@, moved@, i as int),
        decreases lends.len() - i,
    {
        let ghost row = diagnostics(errors@);
        let lent = &lends[i];
        let mut k: usize = 0;
        while k < moved.len()
            invariant
                types.wf(),
                forall|q: int| 0 <= q < moved@.len() ==> types.valid_ty((#[trigger] moved@[q]).1.root_ty),
                types.valid_ty(lent.1.root_ty),
                k <= moved@.len(),
                diagnostics(errors@) == row + lend_against(types, *lent, moved@, k as int),
            decreases moved.len() - k,
        {
            let other = &moved[k];
            let ghost before = diagnostics(errors@);
            if overlaps(&lent.1, &other.1) {
                let mut msg = concat_str("view argument '", place_name(types, &lent.1).as_str());
                msg.append("' for parameter '");
                msg.append(lent.0.as_str());
                msg.append("' overlaps the moved argument '");
                msg.append(place_name(types, &other.1).as_str());
                msg.append("' for parameter '");
                msg.append(other.0.as_str());
                msg.append("'");
                let ghost m = msg@;
                errors.push(Error { span: lent.2, msg });
                proof {
                    assert(m =~= lend_overlap_message(
                        spec_place_name(types, lent.1),
                        lent.0@,
                        spec_place_name(types, other.1),
                        other.0@,
                    ));
                    assert(diagnostics(errors@) =~= before.push((lent.2, m)));
                }
            }
            k = k + 1;
            proof {
                assert(diagnostics(errors@) =~= row + lend_against(types, *lent, moved@, k as int));
            }
        }
        i = i + 1;
        proof {
            assert(diagnostics(errors@) =~= mid + lend_diagnostics(types, lends@, moved@, i as int));
        }
    }
}

} // verus!
