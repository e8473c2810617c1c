//! Completing an `if` once its branches are checked: what is said about its
//! `else` branch, whether every path through it returns, the move and view
//! state after it, and whether it stands as a value or as a statement.
use vstd::prelude::*;
use crate::ast::Span;
use crate::checked::{Error, TBlock, TCondition, TExpr, TStmtIf, TValueIf};
use crate::generics::{Diagnostics, diagnostics};
use crate::names::{display_depth, spec_display};
use crate::places::{MoveState, PlaceRoot, ViewBorrow, all_borrows, merge_moves, merge_of, merge_view_borrows, moves_merge_of};
use crate::resolve::ChainFact;
use crate::text::{append_joined, joined_with};
use crate::ty::{Ty, Types};

verus! {

pub open spec fn unreachable_else_message() -> Seq<char> {
    "this type-test chain already covers every direct member, so the 'else' branch is unreachable"@
}

pub open spec fn missing_else_message(types: &Types, ty: Ty) -> Seq<char> {
    "an 'if' that produces a value of type '"@ + spec_display(types, ty) + "' requires an 'else' branch"@
}

pub open spec fn unhandled_members_message(types: &Types, ty: Ty, missing: Seq<Seq<char>>) -> Seq<char> {
    "this type-test chain produces a value of type '"@ + spec_display(types, ty)
        + "' without an 'else' branch, but does not handle "@ + joined_with(missing, ", "@)
}

/// The names of the members a chain leaves unhandled.
pub open spec fn missing_view(fact: &ChainFact) -> Seq<Seq<char>> {
    fact.missing@.map_values(|s: String| s@)
}

/// What is said of an `if`'s `else` branch: one after a chain that covers
/// every member is unreachable; one missing from an `if` that must produce
/// a value of type `ty` is required, and the members a type-test chain
/// leaves unhandled are named.
pub open spec fn else_branch_diagnostics(
    types: &Types,
    fact: &ChainFact,
    has_else: bool,
    expected: Option<Ty>,
    span: Span,
) -> Diagnostics {
    if has_else {
        if fact.exhaustive {
            seq![(span, unreachable_else_message())]
        } else {
            Seq::empty()
        }
    } else if fact.exhaustive {
        Seq::empty()
    } else {
        match expected {
            Some(ty) => seq![(span, if missing_view(fact).len() == 0 {
                missing_else_message(types, ty)
            } else {
                unhandled_members_message(types, ty, missing_view(fact))
            })],
            None => Seq::empty(),
        }
    }
}

/// Reports what must be said of an `if`'s `else` branch (see
/// `else_branch_diagnostics`), before the `else` itself is checked.
pub fn check_else_branch(
    types: &Types,
    errors: &mut Vec<Error>,
    fact: &ChainFact,
    has_else: bool,
    expected: Option<Ty>,
    span: Span,
)
    requires
        types.wf(),
        expected matches Some(ty) ==> types.valid_ty(ty),
        display_depth(types) <= usize::MAX,
    ensures
        diagnostics(final(errors)@) == diagnostics(old(errors)@) + else_branch_diagnostics(
            types,
            fact,
            has_else,
            expected,
            span,
        ),
{
    let ghost start = diagnostics(errors@);
    let ghost spec = else_branch_diagnostics(types, fact, has_else, expected, span);
    if has_else {
        if fact.exhaustive {
            let msg = String::from_str(
                "this type-test chain already covers every direct member, so the 'else' branch is unreachable",
            );
            errors.push(Error { span, msg });
        }
    } else if !fact.exhaustive {
        if let Some(ty) = expected {
            let name = types.display(ty);
            let msg = if fact.missing.len() == 0 {
                let mut m = String::from_str("an 'if' that produces a value of type '");
                m.append(name.as_str());
                m.append("' requires an 'else' branch");
                m
            } else {
                let mut m = String::from_str("this type-test chain produces a value of type '");
                m.append(name.as_str());
                m.append("' without an 'else' branch, but does not handle ");
                append_joined(&mut m, &fact.missing, ", ");
                m
            };
            let ghost text = msg@;
            errors.push(Error { span, msg });
            proof {
                assert(text == spec[0].1);
            }
        }
    }
    proof {
        assert(diagnostics(errors@) =~= start + spec);
    }
}

/// How a checked `if` stands in its block.
#[derive(Debug)]
pub enum FlowIf {
    /// It produces the value its block needs.
    Value(TExpr),
    /// It is a statement.
    Stmt(TStmtIf),
}

/// Whether every path through an `if` enters one of its branches.
pub open spec fn covers_every_path(has_else: bool, exhaustive: bool) -> bool {
    has_else || exhaustive
}

/// The moves after a join: the entry's when no branch state reaches it,
/// else the merge of the reaching states (see `moves_merge_of`).
pub open spec fn merged_from(after: Seq<(PlaceRoot, Span)>, entry: MoveState, reaching: Seq<MoveState>) -> bool {
    if reaching.len() == 0 {
        after == entry.entries@
    } else {
        moves_merge_of(reaching, after)
    }
}

/// Completes an `if` whose arms and `else` are checked, each from the entry
/// state `entry` and `entry_views`. `exits` and `view_exits` hold the state
/// after each branch that does not always return; `arm_returns` tells for
/// each arm whether it always returns, and `else_returns` the same of the
/// `else` (true when there is none). When some path enters no branch, the
/// entry state reaches the point after the `if` too. The state after the
/// `if` merges every state that reaches it, or is the entry state when none
/// does. The `if` always returns when every path enters a branch and every
/// branch always returns. It stands as a value of the expected type unless
/// no value is expected or it always returns.
pub fn finish_if(
    moves: &mut MoveState,
    borrows: &mut Vec<ViewBorrow>,
    entry: MoveState,
    entry_views: Vec<ViewBorrow>,
    exits: Vec<MoveState>,
    view_exits: Vec<Vec<ViewBorrow>>,
    arms: Vec<(TCondition, TBlock)>,
    arm_returns: &[bool],
    else_branch: Option<TBlock>,
    else_returns: bool,
    exhaustive: bool,
    expected: Option<Ty>,
) -> (r: (FlowIf, bool))
    requires
        entry.wf(),
        forall|k: int| 0 <= k < exits@.len() ==> (#[trigger] exits@[k]).wf(),
        else_branch is None ==> else_returns,
    ensures
        final(moves).wf(),
        r.1 == (covers_every_path(else_branch is Some, exhaustive) && (forall|i: int|
            0 <= i < arm_returns@.len() ==> #[trigger] arm_returns@[i]) && else_returns),
        merged_from(
            final(moves).entries@,
            entry,
            if covers_every_path(else_branch is Some, exhaustive) {
                exits@
            } else {
                exits@.push(entry)
            },
        ),
        ({
            let reaching = if covers_every_path(else_branch is Some, exhaustive) {
                view_exits@
            } else {
                view_exits@.push(entry_views)
            };
            if reaching.len() == 0 {
                final(borrows)@ == entry_views@
            } else {
                merge_of(all_borrows(reaching), final(borrows)@)
            }
        }),
        match expected {
            Some(ty) if !r.1 => r.0 matches FlowIf::Value(TExpr::If(b)) && b.arms == arms && b.else_branch
                == else_branch && b.exhaustive == exhaustive && b.ty == ty,
            _ => r.0 matches FlowIf::Stmt(s) && s.arms == arms && s.else_branch == else_branch && s.exhaustive
                == exhaustive,
        },
{
    let covers = else_branch.is_some() || exhaustive;
    let mut all_return = true;
    let mut i: usize = 0;
    while i < arm_returns.len()
        invariant
            i <= arm_returns@.len(),
            all_return == forall|k: int| 0 <= k < i ==> #[trigger] arm_returns@[k],
        decreases arm_returns.len() - i,
    {
        all_return = all_return && arm_returns[i];
        i = i + 1;
    }
    let if_returns = covers && all_return && else_returns;
    let ghost reaching = if covers { exits@ } else { exits@.push(entry) };
    let mut exits = exits;
    let mut view_exits = view_exits;
    if !covers {
        exits.push(entry);
        view_exits.push(entry_views);
        proof {
            assert(exits@ == reaching);
        }
        let merged = merge_moves(exits);
        *moves = merged;
        *borrows = merge_view_borrows(view_exits);
    } else {
        if exits.len() == 0 {
            *moves = entry;
        } else {
            proof {
                assert(exits@ == reaching);
            }
            let merged = merge_moves(exits);
            *moves = merged;
        }
        if view_exits.len() == 0 {
            *borrows = entry_views;
        } else {
            *borrows = merge_view_borrows(view_exits);
        }
    }
    let flow = match expected {
        Some(ty) if !if_returns => FlowIf::Value(
            TExpr::If(Box::new(TValueIf { arms, else_branch, exhaustive, ty })),
        ),
        _ => FlowIf::Stmt(TStmtIf { arms, else_branch, exhaustive }),
    };
    proof {
        assert(merged_from(moves.entries@, entry, reaching));
    }
    (flow, if_returns)
}

} // verus!
