//! Statement checking around the checking of the expressions a statement
//! holds: calls used as statements, loop bodies and their moves, `break`,
//! `for` iteration types, `let` and assignment.
use vstd::prelude::*;
use crate::ast::{Expr, Span, Spanned};
use crate::checked::{Error, TCleanup, TExpr, TStmt};
use crate::generics::{Diagnostics, diagnostics};
use crate::methods::{CheckedCall, supported_key};
use crate::generics::names_contain;
use crate::moves::{
    Binding, cleanup_for_exit, cleanup_views, dependency_check, exit_plan, live_view_diagnostics, place_name,
    reject_live_view_source, root_text, spec_place_name, spec_view_sources, view_sources,
};
use crate::narrowing::{already_exists_message, declare};
use crate::views::{is_borrowed_type, spec_is_borrowed, type_count};
use crate::lowering::root_name;
use crate::names::{display_depth, mismatch, mismatch_message, spec_display};
use crate::convert::{coerce, coerce_diagnostics, coerced, sequence_elem};
use crate::expressions::indexed_element;
use crate::methods::{Shape, spec_shape};
use crate::ownership::is_move_only;
use crate::resolve::{Resolved, find_binding, innermost};
use crate::places::{
    MoveState, Place, PlaceRoot, PlaceRootView, UseMode, ViewBorrow, all_borrows, borrows_named, has_source,
    merge_moves, merge_of, merge_view_borrows, moves_merge_of, moves_root, overlaps, spec_overlaps,
};
use crate::text::{concat_str, str_eq};
use crate::ty::{CollectionDef, MethodId, Ty, Types};

verus! {

/// The statement a checked call stands for: a call without a result is a
/// call statement, one with a result an expression whose value is
/// discarded.
pub open spec fn spec_call_statement(checked: Option<CheckedCall>) -> TStmt {
    match checked {
        Some(CheckedCall::Function { name, args, result }) => if result is None {
            TStmt::Call(name, args)
        } else {
            TStmt::Expr(TExpr::Call(name, args))
        },
        Some(CheckedCall::Method { call, result }) => if result is None {
            TStmt::MethodCall(call)
        } else {
            TStmt::Expr(TExpr::MethodCall(Box::new(call)))
        },
        Some(CheckedCall::Statement(statement)) => statement,
        Some(CheckedCall::Value(value, _)) => TStmt::Expr(value),
        None => TStmt::Expr(TExpr::Nil),
    }
}

/// Turns a checked call written as a statement into that statement.
pub fn call_statement(checked: Option<CheckedCall>) -> (r: TStmt)
    ensures
        r == spec_call_statement(checked),
{
    match checked {
        Some(CheckedCall::Function { name, args, result }) => if result.is_none() {
            TStmt::Call(name, args)
        } else {
            TStmt::Expr(TExpr::Call(name, args))
        },
        Some(CheckedCall::Method { call, result }) => if result.is_none() {
            TStmt::MethodCall(call)
        } else {
            TStmt::Expr(TExpr::MethodCall(Box::new(call)))
        },
        Some(CheckedCall::Statement(statement)) => statement,
        Some(CheckedCall::Value(value, _)) => TStmt::Expr(value),
        None => TStmt::Expr(TExpr::Nil),
    }
}

pub open spec fn loop_move_message(root: Seq<char>, kind: Seq<char>) -> Seq<char> {
    "'"@ + root + "' is moved here, but this is inside a '"@ + kind
        + "' body, so a later iteration would find '"@ + root + "' already moved"@
}

/// One diagnostic for each of the first `n` roots the body moved that were
/// available before it, at the span that moved it.
pub open spec fn loop_move_diagnostics(
    post: Seq<(PlaceRoot, Span)>,
    pre: Seq<(PlaceRoot, Span)>,
    kind: Seq<char>,
    n: int,
) -> Diagnostics
    decreases if n > 0 { n as nat } else { 0 },
{
    if n <= 0 || n > post.len() {
        Seq::empty()
    } else {
        loop_move_diagnostics(post, pre, kind, n - 1) + if moves_root(pre, post[n - 1].0@) {
            Seq::empty()
        } else {
            seq![(post[n - 1].1, loop_move_message(root_text(post[n - 1].0@), kind))]
        }
    }
}

/// Completes a loop once its body is checked, `moves` and `borrows` being
/// the state after the body and `pre` and `pre_views` the state before it.
/// Every root the body moves that was available before it is reported,
/// since a later iteration would find it moved. The state after the loop
/// holds on the edge that skips the body and, unless the body always
/// returns, on the edge through it: a root is moved after the loop when
/// either edge moves it, and a view borrow is kept when either edge keeps
/// it.
pub fn finish_loop(
    errors: &mut Vec<Error>,
    moves: &mut MoveState,
    borrows: &mut Vec<ViewBorrow>,
    pre: MoveState,
    pre_views: Vec<ViewBorrow>,
    body_returns: bool,
    kind: &str,
)
    requires
        pre.wf(),
        old(moves).wf(),
    ensures
        final(moves).wf(),
        diagnostics(final(errors)@) == diagnostics(old(errors)@) + loop_move_diagnostics(
            old(moves).entries@,
            pre.entries@,
            kind@,
            old(moves).entries@.len() as int,
        ),
        body_returns ==> final(moves).entries@ == pre.entries@ && final(borrows)@ == pre_views@,
        !body_returns ==> forall|root: PlaceRootView|
            moves_root(final(moves).entries@, root) <==> moves_root(pre.entries@, root) || moves_root(
                old(moves).entries@,
                root,
            ),
        !body_returns ==> moves_merge_of(seq![pre, *old(moves)], final(moves).entries@),
        !body_returns ==> forall|name: Seq<char>|
            borrows_named(final(borrows)@, name) <==> borrows_named(pre_views@, name) || borrows_named(
                old(borrows)@,
                name,
            ),
        !body_returns ==> merge_of(pre_views@ + old(borrows)@, final(borrows)@),
{
    let ghost start = diagnostics(errors@);
    let mut i: usize = 0;
    while i < moves.entries.len()
        invariant
            i <= moves.entries@.len(),
            diagnostics(errors@) == start + loop_move_diagnostics(moves.entries@, pre.entries@, kind@, i as int),
        decreases moves.entries.len() - i,
    {
        let ghost before = diagnostics(errors@);
        if !pre.contains(&moves.entries[i].0) {
            let root = root_name(&moves.entries[i].0);
            let mut msg = concat_str("'", root);
            msg.append("' is moved here, but this is inside a '");
            msg.append(kind);
            msg.append("' body, so a later iteration would find '");
            msg.append(root);
            msg.append("' already moved");
            let ghost text = msg@;
            errors.push(Error { span: moves.entries[i].1, msg });
            proof {
                assert(text =~= loop_move_message(root_text(moves.entries@[i as int].0@), kind@));
                assert(diagnostics(errors@) =~= before.push(
                    (moves.entries@[i as int].1, loop_move_message(root_text(moves.entries@[i as int].0@), kind@)),
                ));
            }
        }
        i = i + 1;
        proof {
            assert(diagnostics(errors@) =~= start + loop_move_diagnostics(
                moves.entries@,
                pre.entries@,
                kind@,
                i as int,
            ));
        }
    }
    if body_returns {
        *moves = pre;
        *borrows = pre_views;
    } else {
        let mut post = MoveState { entries: Vec::new() };
        std::mem::swap(&mut post, moves);
        let ghost pre_e = pre.entries@;
        let ghost post_e = post.entries@;
        let exits = vec![pre, post];
        let ghost ex = exits@;
        proof {
            assert(ex[0].entries@ == pre_e && ex[1].entries@ == post_e);
        }
        let merged = merge_moves(exits);
        proof {
            assert forall|root: PlaceRootView|
                moves_root(merged.entries@, root) <==> moves_root(pre_e, root) || moves_root(post_e, root) by {
                if moves_root(pre_e, root) {
                    assert(moves_root(ex[0].entries@, root));
                }
                if moves_root(post_e, root) {
                    assert(moves_root(ex[1].entries@, root));
                }
            }
        }
        *moves = merged;
        let mut post_views: Vec<ViewBorrow> = Vec::new();
        std::mem::swap(&mut post_views, borrows);
        let ghost pv = pre_views@;
        let ghost qv = post_views@;
        let views = vec![pre_views, post_views];
        let ghost vs = views@;
        proof {
            assert(vs[0]@ == pv && vs[1]@ == qv);
            assert(all_borrows(vs) =~= pv + qv) by {
                let first = vs.drop_last();
                assert(first.drop_last() =~= Seq::<Vec<ViewBorrow>>::empty());
                assert(all_borrows(first.drop_last()) == Seq::<ViewBorrow>::empty());
                assert(first.last() == vs[0]);
                assert(all_borrows(first) == all_borrows(first.drop_last()) + first.last()@);
                assert(all_borrows(first) =~= pv);
                assert(vs.last() == vs[1]);
            }
        }
        let merged_views = merge_view_borrows(views);
        proof {
            assert forall|name: Seq<char>|
                borrows_named(merged_views@, name) <==> borrows_named(pv, name) || borrows_named(qv, name) by {
                lemma_concat_named(pv, qv, name);
            }
        }
        *borrows = merged_views;
    }
}

proof fn lemma_concat_named(a: Seq<ViewBorrow>, b: Seq<ViewBorrow>, name: Seq<char>)
    ensures
        borrows_named(a + b, name) <==> borrows_named(a, name) || borrows_named(b, name),
{
    if borrows_named(a + b, name) {
        let p = choose|p: int| 0 <= p < (a + b).len() && (#[trigger] (a + b)[p]).view_name@ == name;
        if p < a.len() {
            assert(a[p] == (a + b)[p]);
        } else {
            assert(b[p - a.len()] == (a + b)[p]);
        }
    }
    if borrows_named(a, name) {
        let p = choose|p: int| 0 <= p < a.len() && (#[trigger] a[p]).view_name@ == name;
        assert((a + b)[p] == a[p]);
    }
    if borrows_named(b, name) {
        let p = choose|p: int| 0 <= p < b.len() && (#[trigger] b[p]).view_name@ == name;
        assert((a + b)[a.len() + p] == b[p]);
    }
}

pub open spec fn break_outside_message() -> Seq<char> {
    "'break' is only valid inside a 'while' body or a 'for' body"@
}

/// A `break` in the innermost loop, whose body's cleanup scopes start at
/// `loop_start`: it runs the cleanup registered since then, arming only the
/// deferred calls for a normal exit. Outside any loop it is reported and
/// runs nothing.
pub fn break_statement(
    cleanup_scopes: &Vec<Vec<TCleanup>>,
    types: &Types,
    moves: &MoveState,
    env: &Vec<Binding>,
    errors: &mut Vec<Error>,
    loop_start: Option<usize>,
    span: Span,
) -> (r: TStmt)
    requires
        types.wf(),
        types.layout_finite(),
        forall|i: int| 0 <= i < env@.len() ==> types.valid_ty(#[trigger] env@[i].ty),
    ensures
        match loop_start {
            None => r matches TStmt::Break { cleanup } && cleanup@.len() == 0 && diagnostics(final(errors)@)
                == diagnostics(old(errors)@).push((span, break_outside_message())),
            Some(start) => match r {
                TStmt::Break { cleanup } => {
                    &&& cleanup_views(cleanup@) == exit_plan(
                        types,
                        cleanup_scopes@,
                        moves.entries@,
                        env@,
                        start as int,
                    )
                    &&& diagnostics(final(errors)@) == diagnostics(old(errors)@) + dependency_check(
                        moves.entries@,
                        cleanup_views(cleanup@),
                        cleanup@.len() as int,
                        Some(false),
                    ).0
                },
                _ => false,
            },
        },
{
    match loop_start {
        None => {
            let ghost before = diagnostics(errors@);
            errors.push(
                Error { span, msg: String::from_str("'break' is only valid inside a 'while' body or a 'for' body") },
            );
            proof {
                assert(diagnostics(errors@) =~= before.push((span, break_outside_message())));
            }
            TStmt::Break { cleanup: Vec::new() }
        },
        Some(start) => {
            let cleanup = cleanup_for_exit(cleanup_scopes, types, moves, env, start, Some(false), errors);
            TStmt::Break { cleanup }
        },
    }
}

/// What a `for` loop over a value of type `ty` binds: the value type, and
/// the key type of a map.
pub open spec fn spec_iteration(types: &Types, ty: Ty) -> Option<(Ty, Option<Ty>)> {
    match ty {
        Ty::Array(id) | Ty::List(id) | Ty::View(id) => match types.collections@[id.0 as int] {
            CollectionDef::Array { elem, .. } => Some((elem, None)),
            CollectionDef::List { elem } => Some((elem, None)),
            CollectionDef::View { elem } => Some((elem, None)),
            _ => None,
        },
        Ty::ViewByte => Some((Ty::Byte, None)),
        Ty::ViewUnicode => Some((Ty::Unicode, None)),
        Ty::MapOf(id) => match types.collections@[id.0 as int] {
            CollectionDef::MapOf { key, value } => Some((value, Some(key))),
            _ => None,
        },
        Ty::SetOf(id) => match types.collections@[id.0 as int] {
            CollectionDef::SetOf { elem } => Some((elem, None)),
            _ => None,
        },
        _ => None,
    }
}

/// The interned collection of an iterable type matches its kind.
pub open spec fn iterable_consistent(types: &Types, ty: Ty) -> bool {
    match ty {
        Ty::Array(id) | Ty::List(id) | Ty::View(id) => !(types.collections@[id.0 as int] is MapOf)
            && !(types.collections@[id.0 as int] is SetOf),
        Ty::MapOf(id) => types.collections@[id.0 as int] is MapOf,
        Ty::SetOf(id) => types.collections@[id.0 as int] is SetOf,
        _ => true,
    }
}

pub open spec fn not_iterable_message(types: &Types, ty: Ty) -> Seq<char> {
    "'"@ + spec_display(types, ty) + "' is not iterable"@
}

pub open spec fn binding_count_message(map: bool) -> Seq<char> {
    "this iterable requires "@ + if map {
        "a key and value binding"@
    } else {
        "one value binding"@
    }
}

/// The diagnostics of a `for` loop over a value of type `ty`, with a key
/// binding written when `keyed`, in order: a type that is not iterable, a
/// binding count that does not match, a map key or set element that is
/// not a supported scalar or `String`.
pub open spec fn iteration_diagnostics(types: &Types, ty: Ty, keyed: bool, span: Span) -> Diagnostics {
    let (value_ty, key_ty) = match spec_iteration(types, ty) {
        Some(v) => v,
        None => (Ty::Nil, None),
    };
    (if spec_iteration(types, ty) is None {
        seq![(span, not_iterable_message(types, ty))]
    } else {
        Seq::empty()
    }) + (if keyed != key_ty is Some {
        seq![(span, binding_count_message(key_ty is Some))]
    } else {
        Seq::empty()
    }) + match key_ty {
        Some(key) => if !supported_key(key) {
            seq![(span, "map iteration requires a supported scalar or String key"@)]
        } else {
            Seq::empty()
        },
        None => if ty is SetOf && !supported_key(value_ty) {
            seq![(span, "set iteration currently supports scalar elements"@)]
        } else {
            Seq::empty()
        },
    }
}

fn push_error(errors: &mut Vec<Error>, span: Span, msg: &str)
    ensures
        diagnostics(final(errors)@) == diagnostics(old(errors)@).push((span, msg@)),
{
    let ghost before = diagnostics(errors@);
    errors.push(Error { span, msg: String::from_str(msg) });
    proof {
        assert(diagnostics(errors@) =~= before.push((span, msg@)));
    }
}

fn is_supported_key(ty: Ty) -> (r: bool)
    ensures
        r == supported_key(ty),
{
    matches!(ty, Ty::Byte | Ty::UInt16 | Ty::UInt32 | Ty::UInt64 | Ty::Int64 | Ty::Bool | Ty::Unicode | Ty::String)
}

/// The types a `for` loop over a value of type `ty` binds: each value, and
/// each key of a map. A type that is not iterable binds `Nil`; it, a
/// binding count that does not match the iterable (`keyed` when a key
/// binding is written), and a map key or set element that is not a
/// supported scalar or `String` are reported.
pub fn iteration_types(types: &Types, errors: &mut Vec<Error>, ty: Ty, keyed: bool, span: Span) -> (r: (
    Ty,
    Option<Ty>,
))
    requires
        types.wf(),
        types.valid_ty(ty),
        iterable_consistent(types, ty),
        display_depth(types) <= usize::MAX,
    ensures
        r == match spec_iteration(types, ty) {
            Some(v) => v,
            None => (Ty::Nil, None),
        },
        diagnostics(final(errors)@) == diagnostics(old(errors)@) + iteration_diagnostics(types, ty, keyed, span),
{
    let ghost start = diagnostics(errors@);
    let found: Option<(Ty, Option<Ty>)> = match ty {
        Ty::Array(id) | Ty::List(id) | Ty::View(id) => match types.collection(id) {
            CollectionDef::Array { elem, .. } => Some((*elem, None)),
            CollectionDef::List { elem } => Some((*elem, None)),
            CollectionDef::View { elem } => Some((*elem, None)),
            _ => None,
        },
        Ty::ViewByte => Some((Ty::Byte, None)),
        Ty::ViewUnicode => Some((Ty::Unicode, None)),
        Ty::MapOf(id) => match types.collection(id) {
            CollectionDef::MapOf { key, value } => Some((*value, Some(*key))),
            _ => None,
        },
        Ty::SetOf(id) => match types.collection(id) {
            CollectionDef::SetOf { elem } => Some((*elem, None)),
            _ => None,
        },
        _ => None,
    };
    let (value_ty, key_ty) = match found {
        Some(v) => v,
        None => {
            let mut msg = concat_str("'", types.display(ty).as_str());
            msg.append("' is not iterable");
            let ghost text = msg@;
            errors.push(Error { span, msg });
            proof {
                assert(diagnostics(errors@) =~= start.push((span, not_iterable_message(types, ty))));
            }
            (Ty::Nil, None)
        },
    };
    let ghost first = diagnostics(errors@);
    if keyed != key_ty.is_some() {
        if key_ty.is_some() {
            push_error(errors, span, "this iterable requires a key and value binding");
        } else {
            push_error(errors, span, "this iterable requires one value binding");
        }
        proof {
            reveal_strlit("this iterable requires a key and value binding");
            reveal_strlit("this iterable requires one value binding");
            reveal_strlit("this iterable requires ");
            reveal_strlit("a key and value binding");
            reveal_strlit("one value binding");
            assert("this iterable requires a key and value binding"@ =~= binding_count_message(true));
            assert("this iterable requires one value binding"@ =~= binding_count_message(false));
        }
    }
    let ghost second = diagnostics(errors@);
    match key_ty {
        Some(key) => {
            if !is_supported_key(key) {
                push_error(errors, span, "map iteration requires a supported scalar or String key");
            }
        },
        None => {
            if matches!(ty, Ty::SetOf(_)) && !is_supported_key(value_ty) {
                push_error(errors, span, "set iteration currently supports scalar elements");
            }
        },
    }
    proof {
        assert(diagnostics(errors@) =~= start + iteration_diagnostics(types, ty, keyed, span));
    }
    (value_ty, key_ty)
}

pub open spec fn stored_view_message() -> Seq<char> {
    "a stored view requires a named owning source; this temporary would not live long enough"@
}

/// `sources` holds exactly the roots of `set`.
pub open spec fn sources_are(sources: Seq<PlaceRoot>, set: Set<PlaceRootView>) -> bool {
    forall|x: PlaceRootView| #[trigger] has_source(sources, x) <==> set.contains(x)
}

/// Records that `name` borrows `sources`, the places its new value's views
/// come from; a value whose views come from no named place is reported,
/// since the temporary would not outlive the view.
fn record_view(
    borrows: &mut Vec<ViewBorrow>,
    errors: &mut Vec<Error>,
    name: String,
    sources: Vec<PlaceRoot>,
    scope: usize,
    span: Span,
)
    ensures
        sources@.len() == 0 ==> final(borrows)@ == old(borrows)@ && diagnostics(final(errors)@) == diagnostics(
            old(errors)@,
        ).push((span, stored_view_message())),
        sources@.len() != 0 ==> final(errors)@ == old(errors)@ && final(borrows)@ == old(borrows)@.push(
            ViewBorrow { view_name: name, sources, scope, persistent: false },
        ),
{
    if sources.len() == 0 {
        let ghost d = diagnostics(errors@);
        errors.push(
            Error {
                span,
                msg: String::from_str(
                    "a stored view requires a named owning source; this temporary would not live long enough",
                ),
            },
        );
        proof {
            assert(diagnostics(errors@) =~= d.push((span, stored_view_message())));
        }
    } else {
        borrows.push(ViewBorrow { view_name: name, sources, scope, persistent: false });
    }
}

/// A sequence of roots is empty exactly when the set it holds is.
proof fn lemma_sources_empty(sources: Seq<PlaceRoot>, set: Set<PlaceRootView>)
    requires
        sources_are(sources, set),
    ensures
        (sources.len() == 0) == (set == Set::<PlaceRootView>::empty()),
{
    if sources.len() == 0 {
        assert(set =~= Set::<PlaceRootView>::empty()) by {
            assert forall|x: PlaceRootView| !set.contains(x) by {
                if set.contains(x) {
                    assert(has_source(sources, x));
                }
            }
        }
    } else {
        assert(has_source(sources, sources[0]@));
        assert(set.contains(sources[0]@));
    }
}

/// Completes `let name: ty = value` once the value is checked, taken
/// over, and made assignable: the name is declared in the function (a
/// second declaration is reported) and bound in scope, and a value of a
/// borrowed type records the places its views borrow.
pub fn finish_let<'src>(
    types: &Types,
    declared: &mut Vec<&'src str>,
    errors: &mut Vec<Error>,
    env: &mut Vec<Binding<'src>>,
    borrows: &mut Vec<ViewBorrow>,
    name: &'src str,
    name_span: Span,
    mutable: bool,
    ty: Ty,
    value: TExpr,
    value_span: Span,
    scope: usize,
) -> (r: TStmt)
    requires
        types.wf(),
        types.valid_ty(ty),
        type_count(types) <= usize::MAX,
    ensures
        names_contain(old(declared)@, name@) ==> final(declared)@ == old(declared)@,
        !names_contain(old(declared)@, name@) ==> final(declared)@ == old(declared)@.push(name),
        final(env)@ == old(env)@.push(Binding { name, ty, mutable, scope, type_test_alias: false }),
        ({
            let declared_diags: Diagnostics = if names_contain(old(declared)@, name@) {
                seq![(name_span, already_exists_message("Variable"@, name@))]
            } else {
                Seq::empty()
            };
            let sources = spec_view_sources(old(borrows)@, value);
            if spec_is_borrowed(types, ty) && sources == Set::<PlaceRootView>::empty() {
                &&& diagnostics(final(errors)@) == diagnostics(old(errors)@) + declared_diags.push(
                    (value_span, stored_view_message()),
                )
                &&& final(borrows)@ == old(borrows)@
            } else {
                &&& diagnostics(final(errors)@) == diagnostics(old(errors)@) + declared_diags
                &&& if spec_is_borrowed(types, ty) {
                    &&& final(borrows)@.drop_last() == old(borrows)@
                    &&& final(borrows)@.len() == old(borrows)@.len() + 1
                    &&& final(borrows)@.last().view_name@ == name@
                    &&& sources_are(final(borrows)@.last().sources@, sources)
                    &&& final(borrows)@.last().scope == scope
                    &&& !final(borrows)@.last().persistent
                } else {
                    final(borrows)@ == old(borrows)@
                }
            }
        }),
        r matches TStmt::Let { mutable: m, name: n, ty: t, value: v } && m == mutable && n@ == name@ && t == ty
            && v == value,
{
    let ghost start = diagnostics(errors@);
    declare(declared, errors, name, name_span, "Variable");
    proof {
        reveal_strlit("Variable");
    }
    let ghost after_declare = diagnostics(errors@);
    env.push(Binding { name, ty, mutable, scope, type_test_alias: false });
    if is_borrowed_type(types, ty) {
        let sources = view_sources(borrows, &value);
        proof {
            lemma_sources_empty(sources@, spec_view_sources(borrows@, value));
        }
        record_view(borrows, errors, String::from_str(name), sources, scope, value_span);
    }
    proof {
        let declared_diags: Diagnostics = if names_contain(old(declared)@, name@) {
            seq![(name_span, already_exists_message("Variable"@, name@))]
        } else {
            Seq::empty()
        };
        assert(after_declare =~= start + declared_diags);
        if !spec_is_borrowed(types, ty) || spec_view_sources(old(borrows)@, value) != Set::<PlaceRootView>::empty() {
            assert(diagnostics(errors@) =~= start + declared_diags);
        } else {
            assert(diagnostics(errors@) =~= start + declared_diags.push((value_span, stored_view_message())));
        }
    }
    TStmt::Let { mutable, name: String::from_str(name), ty, value }
}

/// The first `n` view borrows not named `name`, in order.
pub open spec fn without_view(borrows: Seq<ViewBorrow>, name: Seq<char>, n: int) -> Seq<ViewBorrow>
    decreases if n > 0 { n as nat } else { 0 },
{
    if n <= 0 || n > borrows.len() {
        Seq::empty()
    } else {
        without_view(borrows, name, n - 1) + if borrows[n - 1].view_name@ == name {
            Seq::empty()
        } else {
            seq![borrows[n - 1]]
        }
    }
}

/// Drops every view borrow named `name`, keeping the others in order.
fn forget_view(borrows: &mut Vec<ViewBorrow>, name: &str)
    ensures
        final(borrows)@ == without_view(old(borrows)@, name@, old(borrows)@.len() as int),
{
    let ghost orig = borrows@;
    let mut rest: Vec<ViewBorrow> = Vec::new();
    std::mem::swap(&mut rest, borrows);
    let ghost mut j: int = 0;
    while rest.len() > 0
        invariant
            0 <= j <= orig.len(),
            rest@ == orig.skip(j),
            borrows@ == without_view(orig, name@, j),
        decreases rest.len(),
    {
        let b = rest.remove(0);
        proof {
            assert(b == orig[j]);
        }
        if !str_eq(b.view_name.as_str(), name) {
            borrows.push(b);
        }
        proof {
            j = j + 1;
            assert(rest@ =~= orig.skip(j));
            assert(borrows@ =~= without_view(orig, name@, j));
        }
    }
    proof {
        assert(j == orig.len()) by {
            if j < orig.len() {
                assert(orig.skip(j).len() > 0);
            }
        }
    }
}

pub open spec fn not_assignable_message(root: Seq<char>) -> Seq<char> {
    "'"@ + root + "' is not declared 'mut' and cannot be assigned"@
}

pub open spec fn self_overlap_message(source: Seq<char>, dest: Seq<char>) -> Seq<char> {
    "'"@ + source + "' and '"@ + dest + "' overlap, so this assignment cannot destroy '"@ + dest + "' before '"@
        + source + "' finishes moving into it"@
}

/// A move-only whole-root source moved into a place it overlaps.
pub open spec fn moves_into_itself(types: &Types, dest: Place, value: TExpr) -> bool {
    &&& types.spec_is_move_only(dest.ty)
    &&& value matches TExpr::Place(source, UseMode::Consume)
    &&& source.path@.len() == 0
    &&& spec_overlaps(&dest, &source)
}

/// The diagnostic for a move into an overlapping destination.
pub open spec fn self_overlap_diagnostics(types: &Types, dest: Place, value: TExpr, span: Span) -> Diagnostics {
    match value {
        TExpr::Place(source, _) => if moves_into_itself(types, dest, value) {
            seq![(span, self_overlap_message(spec_place_name(types, source), spec_place_name(types, dest)))]
        } else {
            Seq::empty()
        },
        _ => Seq::empty(),
    }
}

/// The scope a view stored in root `name` lives in: the scope of the
/// innermost binding of that name, else `default`.
pub open spec fn binding_scope(env: Seq<Binding>, name: Seq<char>, default: usize) -> usize {
    match innermost(env, name) {
        Some(i) => env[i].scope,
        None => default,
    }
}

/// Completes an assignment to a resolved place once its value is checked
/// and taken over: an immutable root is reported (at `root_span`), and so
/// is a move-only whole root moved into a place it overlaps; the value is
/// made assignable to the place. A whole root of a borrowed type forgets
/// its old view borrow and records the new one. A `self`-rooted place
/// inside a method records that the method writes its receiver. The old
/// value is destroyed first unless the place is copyable or a whole root
/// currently moved, and a whole root becomes available again.
pub fn finish_assign(
    types: &Types,
    moves: &mut MoveState,
    borrows: &mut Vec<ViewBorrow>,
    env: &Vec<Binding>,
    errors: &mut Vec<Error>,
    direct_writes: &mut Vec<bool>,
    current_method: Option<MethodId>,
    resolved: Resolved,
    root_span: Span,
    value: TExpr,
    value_ty: Ty,
    value_span: Span,
    default_scope: usize,
) -> (r: TStmt)
    requires
        types.wf(),
        types.layout_finite(),
        display_depth(types) <= usize::MAX,
        type_count(types) <= usize::MAX,
        old(moves).wf(),
        types.valid_ty(resolved.place.ty),
        types.valid_ty(resolved.place.root_ty),
        types.valid_ty(value_ty),
        value matches TExpr::Place(p, _) ==> types.valid_ty(p.root_ty),
        current_method matches Some(m) ==> m.0 < old(direct_writes)@.len(),
    ensures
        final(moves).wf(),
        ({
            let place = resolved.place;
            let root = root_text(place.root@);
            let whole = place.path@.len() == 0;
            let front: Diagnostics = (if !resolved.mutable {
                seq![(root_span, not_assignable_message(root))]
            } else {
                Seq::empty()
            }) + self_overlap_diagnostics(types, place, value, value_span) + coerce_diagnostics(
                types,
                value is Place,
                value_ty,
                place.ty,
                value_span,
            );
            let stores_view = whole && spec_is_borrowed(types, place.ty);
            let kept = without_view(old(borrows)@, root, old(borrows)@.len() as int);
            match r {
                TStmt::Assign { place: p, value: v, drop_before } => {
                    &&& p == place
                    &&& coerced(types, value, value_ty, place.ty, v)
                    &&& drop_before == (types.spec_is_move_only(place.ty) && !(whole && moves_root(
                        old(moves).entries@,
                        place.root@,
                    )))
                    &&& (whole ==> forall|x: PlaceRootView|
                        moves_root(final(moves).entries@, x) <==> moves_root(old(moves).entries@, x) && x
                            != place.root@)
                    &&& (!whole ==> final(moves).entries@ == old(moves).entries@)
                    &&& if !stores_view {
                        &&& diagnostics(final(errors)@) == diagnostics(old(errors)@) + front
                        &&& final(borrows)@ == old(borrows)@
                    } else if spec_view_sources(old(borrows)@, v) == Set::<PlaceRootView>::empty() {
                        &&& diagnostics(final(errors)@) == diagnostics(old(errors)@) + front.push(
                            (value_span, stored_view_message()),
                        )
                        &&& final(borrows)@ == kept
                    } else {
                        &&& diagnostics(final(errors)@) == diagnostics(old(errors)@) + front
                        &&& final(borrows)@.drop_last() == kept
                        &&& final(borrows)@.len() == kept.len() + 1
                        &&& final(borrows)@.last().view_name@ == root
                        &&& sources_are(final(borrows)@.last().sources@, spec_view_sources(old(borrows)@, v))
                        &&& final(borrows)@.last().scope == binding_scope(env@, root, default_scope)
                        &&& !final(borrows)@.last().persistent
                    }
                    &&& match current_method {
                        Some(m) => if place.root@ == PlaceRootView::SelfRef {
                            final(direct_writes)@ == old(direct_writes)@.update(m.0 as int, true)
                        } else {
                            final(direct_writes)@ == old(direct_writes)@
                        },
                        None => final(direct_writes)@ == old(direct_writes)@,
                    }
                },
                _ => false,
            }
        }),
{
    let ghost start = diagnostics(errors@);
    let place = resolved.place;
    let root = root_name(&place.root);
    if !resolved.mutable {
        let mut msg = concat_str("'", root);
        msg.append("' is not declared 'mut' and cannot be assigned");
        let ghost d = diagnostics(errors@);
        errors.push(Error { span: root_span, msg });
        proof {
            assert(diagnostics(errors@) =~= d.push((root_span, not_assignable_message(root_text(place.root@)))));
        }
    }
    let ghost after_mutable = diagnostics(errors@);
    let move_only = is_move_only(types, place.ty);
    match &value {
        TExpr::Place(source, UseMode::Consume) => {
            if move_only && source.path.len() == 0 && overlaps(&place, source) {
                let dest = place_name(types, &place);
                let source_name = place_name(types, source);
                let mut msg = concat_str("'", source_name.as_str());
                msg.append("' and '");
                msg.append(dest.as_str());
                msg.append("' overlap, so this assignment cannot destroy '");
                msg.append(dest.as_str());
                msg.append("' before '");
                msg.append(source_name.as_str());
                msg.append("' finishes moving into it");
                let ghost text = msg@;
                let ghost d = diagnostics(errors@);
                errors.push(Error { span: value_span, msg });
                proof {
                    assert(text =~= self_overlap_message(spec_place_name(types, *source), spec_place_name(types, place)));
                    assert(diagnostics(errors@) =~= d.push((value_span, text)));
                }
            }
        },
        _ => {},
    }
    let ghost after_overlap = diagnostics(errors@);
    proof {
        assert(after_overlap =~= after_mutable + self_overlap_diagnostics(types, place, value, value_span));
    }
    let checked = coerce(types, errors, value, value_ty, place.ty, value_span);
    let ghost front = diagnostics(errors@);
    proof {
        assert(front =~= start + ((if !resolved.mutable {
            seq![(root_span, not_assignable_message(root_text(place.root@)))]
        } else {
            Seq::empty()
        }) + self_overlap_diagnostics(types, place, value, value_span) + coerce_diagnostics(
            types,
            value is Place,
            value_ty,
            place.ty,
            value_span,
        )));
    }
    let whole = place.path.len() == 0;
    if whole && is_borrowed_type(types, place.ty) {
        let scope = match find_binding(env, root) {
            Some(i) => env[i].scope,
            None => default_scope,
        };
        let sources = view_sources(borrows, &checked);
        proof {
            lemma_sources_empty(sources@, spec_view_sources(borrows@, checked));
        }
        forget_view(borrows, root);
        record_view(borrows, errors, String::from_str(root), sources, scope, value_span);
    }
    match &place.root {
        PlaceRoot::SelfRef => match current_method {
            Some(method) => {
                direct_writes.set(method.index(), true);
            },
            None => {},
        },
        PlaceRoot::Local(_) => {},
    }
    let drop_before = move_only && !(whole && moves.contains(&place.root));
    if whole {
        moves.remove(&place.root);
    }
    TStmt::Assign { place, value: checked, drop_before }
}

pub open spec fn index_target_message() -> Seq<char> {
    "only a map index can be an indexed assignment target"@
}

/// The collection and the index of an indexed assignment's target, which
/// must be an index expression; anything else is reported.
pub fn indexed_parts<'a, 'src>(errors: &mut Vec<Error>, target: &'a Spanned<Expr<'src>>) -> (r: Option<
    (&'a Spanned<Expr<'src>>, &'a Spanned<Expr<'src>>),
>)
    ensures
        match target.0 {
            Expr::Index(base, index) => r matches Some((b, i)) && *b == *base && *i == *index && final(errors)@
                == old(errors)@,
            _ => r is None && diagnostics(final(errors)@) == diagnostics(old(errors)@).push(
                (target.1, index_target_message()),
            ),
        },
{
    match &target.0 {
        Expr::Index(base, index) => Some((&**base, &**index)),
        _ => {
            push_error(errors, target.1, "only a map index can be an indexed assignment target");
            None
        },
    }
}

/// What an indexed assignment writes into.
#[derive(Clone, Copy, Debug, PartialEq, Eq, Structural)]
pub enum IndexTarget {
    /// An element of an array or a list.
    Element { elem: Ty },
    /// The value at an existing map key.
    Entry { key: Ty, value: Ty },
}

pub open spec fn spec_index_target(types: &Types, ty: Ty) -> Option<IndexTarget> {
    match ty {
        Ty::Array(id) | Ty::List(id) => match types.collections@[id.0 as int] {
            CollectionDef::Array { elem, .. } => Some(IndexTarget::Element { elem }),
            CollectionDef::List { elem } => Some(IndexTarget::Element { elem }),
            _ => None,
        },
        Ty::MapOf(id) => match types.collections@[id.0 as int] {
            CollectionDef::MapOf { key, value } => Some(IndexTarget::Entry { key, value }),
            _ => None,
        },
        _ => None,
    }
}

/// The interned collection of an indexed collection's type matches it.
pub open spec fn index_target_consistent(types: &Types, ty: Ty) -> bool {
    match ty {
        Ty::Array(id) | Ty::List(id) => types.collections@[id.0 as int] is Array || types.collections@[id.0 as int] is List,
        Ty::MapOf(id) => types.collections@[id.0 as int] is MapOf,
        _ => true,
    }
}

pub open spec fn not_index_assignable_message(name: Seq<char>) -> Seq<char> {
    "'"@ + name + "' is not declared 'mut' and cannot be indexed-assigned"@
}

pub open spec fn not_a_map_message(types: &Types, ty: Ty) -> Seq<char> {
    "'"@ + spec_display(types, ty) + "' is not a map, so it cannot be indexed-assigned"@
}

/// Checks the collection place an indexed assignment writes into: an
/// immutable root is reported, and so is writing into a collection a live
/// view borrows. An array or a list takes an element; a map takes the
/// value at an existing key; anything else is reported.
pub fn indexed_target(
    types: &Types,
    borrows: &Vec<ViewBorrow>,
    errors: &mut Vec<Error>,
    resolved: &Resolved,
    base_span: Span,
    target_span: Span,
) -> (r: Option<IndexTarget>)
    requires
        types.wf(),
        types.valid_ty(resolved.place.ty),
        types.valid_ty(resolved.place.root_ty),
        index_target_consistent(types, resolved.place.ty),
        display_depth(types) <= usize::MAX,
    ensures
        r == spec_index_target(types, resolved.place.ty),
        diagnostics(final(errors)@) == diagnostics(old(errors)@) + (if !resolved.mutable {
            seq![(base_span, not_index_assignable_message(spec_place_name(types, resolved.place)))]
        } else {
            Seq::empty()
        }) + live_view_diagnostics(borrows@, resolved.place.root@, target_span) + if spec_index_target(
            types,
            resolved.place.ty,
        ) is None {
            seq![(base_span, not_a_map_message(types, resolved.place.ty))]
        } else {
            Seq::empty()
        },
{
    let ghost start = diagnostics(errors@);
    if !resolved.mutable {
        let mut msg = concat_str("'", place_name(types, &resolved.place).as_str());
        msg.append("' is not declared 'mut' and cannot be indexed-assigned");
        let ghost d = diagnostics(errors@);
        let ghost text = msg@;
        errors.push(Error { span: base_span, msg });
        proof {
            assert(diagnostics(errors@) =~= d.push((base_span, text)));
        }
    }
    let ghost after_mutable = diagnostics(errors@);
    reject_live_view_source(borrows, &resolved.place.root, target_span, errors);
    let ghost after_live = diagnostics(errors@);
    let ty = resolved.place.ty;
    let found = match ty {
        Ty::Array(id) | Ty::List(id) => match types.collection(id) {
            CollectionDef::Array { elem, .. } => Some(IndexTarget::Element { elem: *elem }),
            CollectionDef::List { elem } => Some(IndexTarget::Element { elem: *elem }),
            _ => None,
        },
        Ty::MapOf(id) => match types.collection(id) {
            CollectionDef::MapOf { key, value } => Some(IndexTarget::Entry { key: *key, value: *value }),
            _ => None,
        },
        _ => None,
    };
    if found.is_none() {
        let mut msg = concat_str("'", types.display(ty).as_str());
        msg.append("' is not a map, so it cannot be indexed-assigned");
        let ghost text = msg@;
        errors.push(Error { span: base_span, msg });
        proof {
            assert(text =~= not_a_map_message(types, ty));
            assert(diagnostics(errors@) =~= after_live.push((base_span, text)));
        }
    }
    proof {
        assert(diagnostics(errors@) =~= start + ((if !resolved.mutable {
            seq![(base_span, not_index_assignable_message(spec_place_name(types, resolved.place)))]
        } else {
            Seq::empty()
        }) + live_view_diagnostics(borrows@, resolved.place.root@, target_span) + if found is None {
            seq![(base_span, not_a_map_message(types, ty))]
        } else {
            Seq::empty()
        }));
    }
    found
}

/// The key an indexed assignment writes at, with the type it is checked
/// as: an element index must be an `Int64`; a `String` map key is lent as
/// a text view; any other map key must have the key type.
pub open spec fn index_key_diagnostics(types: &Types, target: IndexTarget, index: TExpr, ty: Ty, span: Span) -> Diagnostics {
    match target {
        IndexTarget::Element { .. } => if ty != Ty::Int64 {
            seq![(span, mismatch_message(types, Ty::Int64, ty))]
        } else {
            Seq::empty()
        },
        IndexTarget::Entry { key, .. } => if key == Ty::String {
            coerce_diagnostics(types, index is Place, ty, Ty::ViewByte, span)
        } else if ty != key {
            seq![(span, mismatch_message(types, key, ty))]
        } else {
            Seq::empty()
        },
    }
}

/// Handles the checked index of an indexed assignment into `target`.
pub fn index_key(types: &Types, errors: &mut Vec<Error>, target: IndexTarget, index: TExpr, ty: Ty, span: Span) -> (r: (
    TExpr,
    Ty,
))
    requires
        types.wf(),
        types.valid_ty(ty),
        match target {
            IndexTarget::Element { .. } => true,
            IndexTarget::Entry { key, .. } => types.valid_ty(key),
        },
        display_depth(types) <= usize::MAX,
    ensures
        diagnostics(final(errors)@) == diagnostics(old(errors)@) + index_key_diagnostics(types, target, index, ty, span),
        match target {
            IndexTarget::Entry { key, .. } => if key == Ty::String {
                coerced(types, index, ty, Ty::ViewByte, r.0) && r.1 == Ty::ViewByte
            } else {
                r == (index, ty)
            },
            _ => r == (index, ty),
        },
{
    let ghost start = diagnostics(errors@);
    let expected = match target {
        IndexTarget::Element { .. } => Ty::Int64,
        IndexTarget::Entry { key, .. } => key,
    };
    if expected == Ty::String && matches!(target, IndexTarget::Entry { .. }) {
        let key = coerce(types, errors, index, ty, Ty::ViewByte, span);
        return (key, Ty::ViewByte);
    }
    if ty != expected {
        let msg = mismatch(types, expected, ty);
        errors.push(Error { span, msg });
        proof {
            assert(diagnostics(errors@) =~= start.push((span, mismatch_message(types, expected, ty))));
        }
    } else {
        proof {
            assert(start =~= start + Seq::<(Span, Seq<char>)>::empty());
        }
    }
    (index, ty)
}

/// Builds an indexed assignment from its handled key and value: an
/// element store, or an insert that requires the map key to exist.
pub fn finish_indexed_assign(receiver: Place, target: IndexTarget, key: TExpr, key_ty: Ty, value: TExpr) -> (r: TStmt)
    ensures
        r == match target {
            IndexTarget::Element { elem } => TStmt::SequenceIndexAssign { receiver, index: key, value, elem },
            IndexTarget::Entry { value: value_ty, .. } => TStmt::Expr(
                TExpr::MapInsert {
                    receiver,
                    key: Box::new(key),
                    value: Box::new(value),
                    key_ty,
                    value_ty,
                    require_existing: true,
                },
            ),
        },
{
    match target {
        IndexTarget::Element { elem } => TStmt::SequenceIndexAssign { receiver, index: key, value, elem },
        IndexTarget::Entry { value: value_ty, .. } => TStmt::Expr(
            TExpr::MapInsert {
                receiver,
                key: Box::new(key),
                value: Box::new(value),
                key_ty,
                value_ty,
                require_existing: true,
            },
        ),
    }
}

/// The function-wide names after declaring `name`.
pub open spec fn after_declaring<'a>(declared: Seq<&'a str>, name: &'a str) -> Seq<&'a str> {
    if names_contain(declared, name@) {
        declared
    } else {
        declared.push(name)
    }
}

/// The diagnostic, if any, for declaring `name` again.
pub open spec fn redeclared(declared: Seq<&str>, name: &str, span: Span) -> Diagnostics {
    if names_contain(declared, name@) {
        seq![(span, already_exists_message("Loop variable"@, name@))]
    } else {
        Seq::empty()
    }
}

/// Starts a `for` loop body once the iterable is checked and its
/// iteration types are known: the loop variables are declared in the
/// function and bound in scope as aliases of the iterated storage, and
/// iterating a value whose views borrow named places keeps those places
/// borrowed for the whole loop. Gives the key variable's name.
pub fn begin_for<'src>(
    declared: &mut Vec<&'src str>,
    errors: &mut Vec<Error>,
    env: &mut Vec<Binding<'src>>,
    borrows: &mut Vec<ViewBorrow>,
    value: Spanned<&'src str>,
    key: Option<Spanned<&'src str>>,
    value_ty: Ty,
    key_ty: Option<Ty>,
    iterable: &TExpr,
    scope: usize,
) -> (r: Option<String>)
    ensures
        ({
            let d0 = old(declared)@;
            let d1 = after_declaring(d0, value.0);
            let diags = redeclared(d0, value.0, value.1) + match key {
                Some((name, span)) => redeclared(d1, name, span),
                None => Seq::empty(),
            };
            &&& final(declared)@ == match key {
                Some((name, _)) => after_declaring(d1, name),
                None => d1,
            }
            &&& diagnostics(final(errors)@) == diagnostics(old(errors)@) + diags
        }),
        final(env)@ == old(env)@.push(Binding { name: value.0, ty: value_ty, mutable: false, scope, type_test_alias: true })
            + match key {
            Some((name, _)) => seq![
                Binding {
                    name,
                    ty: match key_ty {
                        Some(t) => t,
                        None => Ty::Nil,
                    },
                    mutable: false,
                    scope,
                    type_test_alias: true,
                },
            ],
            None => Seq::empty(),
        },
        match key {
            Some((name, _)) => r matches Some(n) && n@ == name@,
            None => r is None,
        },
        spec_view_sources(old(borrows)@, *iterable) == Set::<PlaceRootView>::empty() ==> final(borrows)@ == old(
            borrows,
        )@,
        spec_view_sources(old(borrows)@, *iterable) != Set::<PlaceRootView>::empty() ==> {
            &&& final(borrows)@.len() == old(borrows)@.len() + 1
            &&& final(borrows)@.drop_last() == old(borrows)@
            &&& final(borrows)@.last().view_name@ == "for "@ + value.0@
            &&& sources_are(final(borrows)@.last().sources@, spec_view_sources(old(borrows)@, *iterable))
            &&& final(borrows)@.last().scope == scope
            &&& final(borrows)@.last().persistent
        },
{
    let ghost start = diagnostics(errors@);
    let ghost env0 = env@;
    declare(declared, errors, value.0, value.1, "Loop variable");
    proof {
        reveal_strlit("Loop variable");
    }
    let ghost mid = diagnostics(errors@);
    let key_name = match key {
        Some((name, name_span)) => {
            declare(declared, errors, name, name_span, "Loop variable");
            Some(String::from_str(name))
        },
        None => None,
    };
    proof {
        let d0 = old(declared)@;
        let d1 = after_declaring(d0, value.0);
        assert(mid =~= start + redeclared(d0, value.0, value.1));
        match key {
            Some((name, span)) => {
                assert(diagnostics(errors@) =~= mid + redeclared(d1, name, span));
            },
            None => {
                assert(diagnostics(errors@) =~= mid + Seq::<(Span, Seq<char>)>::empty());
            },
        }
    }
    env.push(Binding { name: value.0, ty: value_ty, mutable: false, scope, type_test_alias: true });
    match key {
        Some((name, _)) => {
            let ty = match key_ty {
                Some(t) => t,
                None => Ty::Nil,
            };
            env.push(Binding { name, ty, mutable: false, scope, type_test_alias: true });
        },
        None => {},
    }
    proof {
        match key {
            Some((name, _)) => {
                assert(env@ =~= env0.push(
                    Binding { name: value.0, ty: value_ty, mutable: false, scope, type_test_alias: true },
                ) + seq![
                    Binding {
                        name,
                        ty: match key_ty {
                            Some(t) => t,
                            None => Ty::Nil,
                        },
                        mutable: false,
                        scope,
                        type_test_alias: true,
                    },
                ]);
            },
            None => {
                assert(env@ =~= env0.push(
                    Binding { name: value.0, ty: value_ty, mutable: false, scope, type_test_alias: true },
                ) + Seq::<Binding>::empty());
            },
        }
    }
    let ghost b0 = borrows@;
    let sources = view_sources(borrows, iterable);
    proof {
        lemma_sources_empty(sources@, spec_view_sources(b0, *iterable));
    }
    if sources.len() > 0 {
        let view_name = concat_str("for ", value.0);
        borrows.push(ViewBorrow { view_name, sources, scope, persistent: true });
        proof {
            assert(borrows@.drop_last() =~= b0);
        }
    }
    key_name
}


/// Indexed assignment writes what indexed reading reads: an array or a list
/// takes an element of its element type, exactly the type `a[i]` reads, and
/// a map takes an entry of its key and value types; nothing else is a
/// target.
pub proof fn lemma_index_target_matches_reads(types: &Types, ty: Ty)
    ensures
        sequence_elem(types, ty) matches Some(e) ==> spec_index_target(types, ty) == Some(IndexTarget::Element { elem: e }),
        sequence_elem(types, ty) matches Some(e) ==> indexed_element(types, ty) == Some(e),
        spec_index_target(types, ty) matches Some(IndexTarget::Element { elem }) ==> sequence_elem(types, ty) == Some(elem),
        spec_shape(types, ty) matches Some(Shape::MapOf { key, value }) ==> spec_index_target(types, ty) == Some(
            IndexTarget::Entry { key, value },
        ),
        spec_index_target(types, ty) is Some ==> (ty is Array || ty is List || ty is MapOf),
{
}

} // verus!
