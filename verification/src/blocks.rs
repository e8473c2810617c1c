//! The flow of a block: the part each element plays, given where it stands
//! and whether an earlier element always returned; the drop a move-only
//! binding registers; and the completion of the block once every element is
//! checked.
use vstd::prelude::*;
use crate::ast::Span;
use crate::checked::{Error, TBlock, TCleanup, TExpr, TStmt};
use crate::generics::{Diagnostics, diagnostics};
use crate::moves::{armed, cleanup_for_exit_from_entries, cleanup_views, dependency_check, expression_error_exit, spec_error_exit};
use crate::names::{display_depth, spec_display};
use crate::ownership::is_move_only;
use crate::places::{MoveState, Place, PlaceRoot, ViewBorrow};
use crate::ty::{Ty, Types};

verus! {

/// The kind of a block element, as far as its place in the block matters.
#[derive(Clone, Copy, Debug, PartialEq, Eq, Structural)]
pub enum ElementKind {
    Let,
    Defer,
    Return,
    If,
    Expr,
    /// Any other statement.
    Other,
}

/// The part an element plays in its block.
#[derive(Clone, Copy, Debug, PartialEq, Eq, Structural)]
pub enum ElementRole {
    /// A `let` whose binding registers its own drop.
    Binding,
    /// A deferred call, registered with the block's cleanup.
    Deferral,
    /// A `return`; every path past it has returned.
    Return,
    /// An `if`, supplying the block's value of type `slot` when it has one.
    Branch { slot: Option<Ty> },
    /// The expression that supplies the block's value, of type `ty`.
    TrailingValue { ty: Ty },
    /// A statement.
    Statement,
}

/// Where each element's flow stands: whether an earlier element always
/// returned, and whether dead code was already reported.
#[derive(Clone, Copy, Debug, PartialEq, Eq, Structural)]
pub struct BlockFlow {
    pub returned: bool,
    pub reported_unreachable: bool,
}

pub open spec fn unreachable_message() -> Seq<char> {
    "this code is unreachable: every path that reaches it has already returned from this function or method"@
}

pub open spec fn ends_in_deferral_message(types: &Types, ty: Ty) -> Seq<char> {
    "this block must end in an expression of type '"@ + spec_display(types, ty) + "', but it ends in a deferred call"@
}

pub open spec fn ends_in_statement_message(types: &Types, ty: Ty) -> Seq<char> {
    "this block must end in an expression of type '"@ + spec_display(types, ty) + "', but it ends in a statement"@
}

pub open spec fn empty_block_message(types: &Types, ty: Ty) -> Seq<char> {
    "this block must end in an expression of type '"@ + spec_display(types, ty) + "', but it is empty"@
}

/// The element stands where the block's value is required: it is the last
/// one, no earlier element always returned, and a value is expected.
pub open spec fn at_value(last: bool, returned: bool, expected: Option<Ty>) -> bool {
    last && !returned && expected is Some
}

/// The part an element of `kind` plays; `last` tells whether it ends its
/// block and `returned` whether an earlier element always returned.
pub open spec fn spec_element_role(kind: ElementKind, last: bool, returned: bool, expected: Option<Ty>) -> ElementRole {
    let value = at_value(last, returned, expected);
    match kind {
        ElementKind::Let => if value {
            ElementRole::Statement
        } else {
            ElementRole::Binding
        },
        ElementKind::Defer => ElementRole::Deferral,
        ElementKind::Return => ElementRole::Return,
        ElementKind::If => ElementRole::Branch { slot: if last && !returned { expected } else { None } },
        ElementKind::Expr => if value {
            ElementRole::TrailingValue { ty: expected.unwrap() }
        } else {
            ElementRole::Statement
        },
        ElementKind::Other => ElementRole::Statement,
    }
}

/// What is reported of an element before it is checked: the first element
/// past a return is unreachable, and a deferred call or a statement where
/// the block's value is required is misplaced.
pub open spec fn element_diagnostics(
    types: &Types,
    flow: BlockFlow,
    kind: ElementKind,
    last: bool,
    expected: Option<Ty>,
    span: Span,
) -> Diagnostics {
    let dead: Diagnostics = if flow.returned && !flow.reported_unreachable {
        seq![(span, unreachable_message())]
    } else {
        Seq::empty()
    };
    let misplaced: Diagnostics = if at_value(last, flow.returned, expected) {
        match kind {
            ElementKind::Defer => seq![(span, ends_in_deferral_message(types, expected.unwrap()))],
            ElementKind::Let | ElementKind::Other => seq![(span, ends_in_statement_message(types, expected.unwrap()))],
            _ => Seq::empty(),
        }
    } else {
        Seq::empty()
    };
    dead + misplaced
}

fn report_expected(types: &Types, errors: &mut Vec<Error>, ty: Ty, tail: &str, span: Span)
    requires
        types.wf(),
        types.valid_ty(ty),
        display_depth(types) <= usize::MAX,
    ensures
        diagnostics(final(errors)@) == diagnostics(old(errors)@).push(
            (span, "this block must end in an expression of type '"@ + spec_display(types, ty) + tail@),
        ),
{
    let ghost start = diagnostics(errors@);
    let mut msg = String::from_str("this block must end in an expression of type '");
    let name = types.display(ty);
    msg.append(name.as_str());
    msg.append(tail);
    let ghost text = msg@;
    errors.push(Error { span, msg });
    proof {
        assert(diagnostics(errors@) =~= start.push((span, text)));
    }
}

/// Decides the part the element at `index` of `count` plays in its block,
/// reporting what must be reported of it before it is checked (see
/// `element_diagnostics`). Dead code is reported once, at its first element;
/// it is still checked. The caller records afterwards whether the element
/// always returned.
pub fn block_element(
    types: &Types,
    errors: &mut Vec<Error>,
    flow: &mut BlockFlow,
    index: usize,
    count: usize,
    kind: ElementKind,
    expected: Option<Ty>,
    span: Span,
) -> (r: ElementRole)
    requires
        index < count,
        types.wf(),
        expected matches Some(ty) ==> types.valid_ty(ty),
        display_depth(types) <= usize::MAX,
    ensures
        final(flow).returned == old(flow).returned,
        final(flow).reported_unreachable == (old(flow).reported_unreachable || old(flow).returned),
        r == spec_element_role(kind, index + 1 == count, old(flow).returned, expected),
        diagnostics(final(errors)@) == diagnostics(old(errors)@) + element_diagnostics(
            types,
            *old(flow),
            kind,
            index + 1 == count,
            expected,
            span,
        ),
{
    let ghost start = diagnostics(errors@);
    let ghost before = *flow;
    let returned = flow.returned;
    if returned && !flow.reported_unreachable {
        errors.push(
            Error {
                span,
                msg: String::from_str(
                    "this code is unreachable: every path that reaches it has already returned from this function or method",
                ),
            },
        );
        flow.reported_unreachable = true;
    }
    let ghost after_dead = diagnostics(errors@);
    proof {
        assert(after_dead =~= start + (if before.returned && !before.reported_unreachable {
            seq![(span, unreachable_message())]
        } else {
            Seq::<(Span, Seq<char>)>::empty()
        }));
    }
    let last = index + 1 == count;
    let value = last && !returned && expected.is_some();
    let role = match kind {
        ElementKind::Let => {
            if value {
                report_expected(types, errors, expected.unwrap(), "', but it ends in a statement", span);
                ElementRole::Statement
            } else {
                ElementRole::Binding
            }
        },
        ElementKind::Defer => {
            if value {
                report_expected(types, errors, expected.unwrap(), "', but it ends in a deferred call", span);
            }
            ElementRole::Deferral
        },
        ElementKind::Return => ElementRole::Return,
        ElementKind::If => ElementRole::Branch { slot: if last && !returned { expected } else { None } },
        ElementKind::Expr => {
            if value {
                ElementRole::TrailingValue { ty: expected.unwrap() }
            } else {
                ElementRole::Statement
            }
        },
        ElementKind::Other => {
            if value {
                report_expected(types, errors, expected.unwrap(), "', but it ends in a statement", span);
            }
            ElementRole::Statement
        },
    };
    proof {
        reveal_strlit("', but it ends in a statement");
        reveal_strlit("', but it ends in a deferred call");
        assert(diagnostics(errors@) =~= start + element_diagnostics(
            types,
            before,
            kind,
            last,
            expected,
            span,
        ));
    }
    role
}

/// The flow at the next element: an element that always returned makes
/// the rest dead, and dead code reported at this element stays reported.
pub open spec fn next_flow(flow: BlockFlow, returned: bool) -> BlockFlow {
    BlockFlow {
        returned: flow.returned || returned,
        reported_unreachable: flow.reported_unreachable || flow.returned,
    }
}

/// How many of the elements whose always-return outcomes are `rets` are
/// reported as unreachable, starting from `flow`.
pub open spec fn dead_reports(flow: BlockFlow, rets: Seq<bool>) -> nat
    decreases rets.len(),
{
    if rets.len() == 0 {
        0
    } else {
        (if flow.returned && !flow.reported_unreachable {
            1nat
        } else {
            0nat
        }) + dead_reports(next_flow(flow, rets[0]), rets.drop_first())
    }
}

/// Some element before the last always returns.
pub open spec fn returns_early(rets: Seq<bool>) -> bool {
    exists|i: int| 0 <= i < rets.len() - 1 && rets[i]
}

proof fn lemma_dead_reports(flow: BlockFlow, rets: Seq<bool>)
    requires
        flow.reported_unreachable ==> flow.returned,
    ensures
        dead_reports(flow, rets) == if flow.reported_unreachable || rets.len() == 0 {
            0nat
        } else if flow.returned || returns_early(rets) {
            1nat
        } else {
            0nat
        },
    decreases rets.len(),
{
    if rets.len() > 0 {
        let rest = rets.drop_first();
        lemma_dead_reports(next_flow(flow, rets[0]), rest);
        if returns_early(rets) && !rets[0] {
            let i = choose|i: int| 0 <= i < rets.len() - 1 && rets[i];
            assert(rest[i - 1] == rets[i]);
        }
        if returns_early(rest) {
            let i = choose|i: int| 0 <= i < rest.len() - 1 && rest[i];
            assert(rets[i + 1] == rest[i]);
        }
        if rets[0] && rets.len() > 1 {
            assert(returns_early(rets)) by {
                assert(0 < rets.len() - 1 && rets[0]);
            }
        }
    }
}

/// Dead code is reported exactly once in a block where some element before
/// the last always returns, at the first element after it, and never in
/// any other block.
pub proof fn lemma_dead_code_reported_once(rets: Seq<bool>)
    ensures
        dead_reports(BlockFlow { returned: false, reported_unreachable: false }, rets) == if returns_early(rets) {
            1nat
        } else {
            0nat
        },
{
    lemma_dead_reports(BlockFlow { returned: false, reported_unreachable: false }, rets);
}

/// The binding whose drop a checked `let` registers: a binding of a
/// move-only value is destroyed at scope exit.
pub open spec fn binding_drop(types: &Types, statement: TStmt) -> Option<(String, Ty)> {
    match statement {
        TStmt::Let { name, ty, .. } => if types.spec_is_move_only(ty) {
            Some((name, ty))
        } else {
            None
        },
        _ => None,
    }
}

/// Registers with the block's cleanup `scope` the drop of a checked `let`
/// that binds a move-only value: the whole local is destroyed.
pub fn register_binding(types: &Types, scope: &mut Vec<TCleanup>, statement: &TStmt)
    requires
        types.layout_finite(),
        types.wf(),
        *statement matches TStmt::Let { ty, .. } ==> types.valid_ty(ty),
    ensures
        match binding_drop(types, *statement) {
            Some((name, ty)) => final(scope)@.len() == old(scope)@.len() + 1 && final(scope)@.take(
                old(scope)@.len() as int,
            ) == old(scope)@ && (final(scope)@.last() matches TCleanup::Drop(p) && p.root == PlaceRoot::Local(
                name,
            ) && p.root_ty == ty && p.path@.len() == 0 && p.ty == ty),
            None => final(scope)@ == old(scope)@,
        },
{
    if let TStmt::Let { name, ty, .. } = statement {
        if is_move_only(types, *ty) {
            let place = Place { root: PlaceRoot::Local(name.clone()), root_ty: *ty, path: Vec::new(), ty: *ty };
            let ghost before = scope@;
            scope.push(TCleanup::Drop(place));
            proof {
                assert(scope@.take(before.len() as int) =~= before);
            }
        }
    }
}

/// The view borrows of `borrows` made before the block at depth `scope`.
pub open spec fn outer_borrows(borrows: Seq<ViewBorrow>, scope: nat) -> Seq<ViewBorrow>
    decreases borrows.len(),
{
    if borrows.len() == 0 {
        Seq::empty()
    } else {
        outer_borrows(borrows.drop_last(), scope) + if borrows.last().scope < scope {
            seq![borrows.last()]
        } else {
            Seq::empty()
        }
    }
}

/// Completes a block once every element is checked. A block with no element
/// that must produce a value is reported. A block that always returns
/// already ran its cleanup on each return, so it has no exit plan; otherwise
/// the actions registered in `entries` that are still armed under `moves`
/// run in reverse order, a result known to be an error making it an error
/// exit. The block's view borrows end with it.
pub fn finish_block(
    types: &Types,
    errors: &mut Vec<Error>,
    moves: &MoveState,
    borrows: &mut Vec<ViewBorrow>,
    statements: Vec<TStmt>,
    result: Option<TExpr>,
    expected: Option<Ty>,
    entries: Vec<TCleanup>,
    always_returns: bool,
    element_count: usize,
    borrow_scope: usize,
    span: Span,
) -> (r: TBlock)
    requires
        types.wf(),
        expected matches Some(ty) ==> types.valid_ty(ty),
        display_depth(types) <= usize::MAX,
    ensures
        r.statements == statements,
        r.result == result,
        r.result_ty == expected,
        always_returns ==> r.cleanup@.len() == 0,
        !always_returns ==> cleanup_views(r.cleanup@) == armed(moves.entries@, cleanup_views(entries@)).reverse(),
        ({
            let empty: Diagnostics = if !always_returns && result is None && element_count == 0 && expected is Some {
                seq![(span, empty_block_message(types, expected.unwrap()))]
            } else {
                Seq::empty()
            };
            let exit = match result {
                Some(value) => spec_error_exit(types, value),
                None => None,
            };
            let plan: Diagnostics = if always_returns {
                Seq::empty()
            } else {
                dependency_check(moves.entries@, cleanup_views(r.cleanup@), r.cleanup@.len() as int, exit).0
            };
            diagnostics(final(errors)@) == diagnostics(old(errors)@) + empty + plan
        }),
        final(borrows)@ == outer_borrows(old(borrows)@, borrow_scope as nat),
{
    let ghost start = diagnostics(errors@);
    if !always_returns && result.is_none() && element_count == 0 && expected.is_some() {
        report_expected(types, errors, expected.unwrap(), "', but it is empty", span);
        proof {
            reveal_strlit("', but it is empty");
        }
    }
    let ghost after_empty = diagnostics(errors@);
    let cleanup = if always_returns {
        Vec::new()
    } else {
        let exit = match &result {
            Some(value) => expression_error_exit(types, value),
            None => None,
        };
        cleanup_for_exit_from_entries(moves, entries, exit, errors)
    };
    let ghost old_borrows = borrows@;
    let total = borrows.len();
    let mut kept: Vec<ViewBorrow> = Vec::new();
    let mut all: Vec<ViewBorrow> = Vec::new();
    std::mem::swap(&mut all, borrows);
    let mut i: usize = 0;
    while all.len() > 0
        invariant
            i + all@.len() == old_borrows.len(),
            old_borrows.len() == total,
            all@ == old_borrows.skip(i as int),
            kept@ == outer_borrows(old_borrows.take(i as int), borrow_scope as nat),
        decreases all.len(),
    {
        let b = all.remove(0);
        proof {
            let next = old_borrows.take(i + 1);
            assert(next.drop_last() =~= old_borrows.take(i as int));
            assert(next.last() == b);
        }
        if b.scope < borrow_scope {
            kept.push(b);
        }
        i = i + 1;
        proof {
            assert(all@ =~= old_borrows.skip(i as int));
        }
    }
    proof {
        assert(old_borrows.take(i as int) =~= old_borrows);
    }
    *borrows = kept;
    proof {
        assert(diagnostics(errors@) =~= start + (if !always_returns && result is None && element_count == 0
            && expected is Some {
            seq![(span, empty_block_message(types, expected.unwrap()))]
        } else {
            Seq::<(Span, Seq<char>)>::empty()
        }) + (if always_returns {
            Seq::<(Span, Seq<char>)>::empty()
        } else {
            dependency_check(
                moves.entries@,
                cleanup_views(cleanup@),
                cleanup@.len() as int,
                match result {
                    Some(value) => spec_error_exit(types, value),
                    None => None,
                },
            ).0
        }));
    }
    TBlock { statements, result, result_ty: expected, cleanup }
}

} // verus!
