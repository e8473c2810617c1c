use snacc_compiler::ast::{Expr, NumLiteral, Span};
use snacc_compiler::checked::{Error, TArg, TCleanup, TExpr, TStmt};
use snacc_compiler::methods::CheckedCall;
use snacc_compiler::moves::Binding;
use snacc_compiler::places::{MoveState, Place, PlaceRoot, UseMode, ViewBorrow};
use snacc_compiler::resolve::Resolved;
use snacc_compiler::statements::{
    begin_for, break_statement, call_statement, finish_assign, finish_indexed_assign, finish_let,
    finish_loop, index_key, indexed_parts, indexed_target, iteration_types, IndexTarget,
};
use snacc_compiler::ty::{CollectionDef, CollectionId, MethodId, Ty, TypeDef, TypeId, Types};

fn span(start: usize) -> Span {
    Span { start, end: start + 1 }
}

fn messages(errors: &[Error]) -> Vec<String> {
    errors.iter().map(|e| e.msg.clone()).collect()
}

fn local(name: &str) -> PlaceRoot {
    PlaceRoot::Local(name.to_string())
}

fn whole(name: &str, ty: Ty) -> Place {
    Place { root: local(name), root_ty: ty, path: vec![], ty }
}

fn root_of(root: &PlaceRoot) -> String {
    match root {
        PlaceRoot::Local(name) => name.clone(),
        PlaceRoot::SelfRef => "self".to_string(),
    }
}

/// Pair { left: String, right: String }; List<Int64>; Map<String, Int64>;
/// Set<List<Int64>>; View<Byte>.
fn fixture() -> Types {
    Types {
        defs: vec![TypeDef::Struct {
            name: "Pair".to_string(),
            fields: vec![("left".to_string(), Ty::String), ("right".to_string(), Ty::String)],
        }],
        sums: vec![],
        boxes: vec![],
        collections: vec![
            CollectionDef::List { elem: Ty::Int64 },
            CollectionDef::MapOf { key: Ty::String, value: Ty::Int64 },
            CollectionDef::SetOf { elem: Ty::List(CollectionId(0)) },
            CollectionDef::View { elem: Ty::Byte },
        ],
    }
}

#[test]
fn calls_as_statements() {
    let call = CheckedCall::Function { name: "f".to_string(), args: vec![TArg::Value(TExpr::Nil)], result: None };
    assert!(matches!(call_statement(Some(call)), TStmt::Call(ref n, _) if n == "f"));
    let call = CheckedCall::Function { name: "g".to_string(), args: vec![], result: Some(Ty::Int64) };
    assert!(matches!(call_statement(Some(call)), TStmt::Expr(TExpr::Call(ref n, _)) if n == "g"));
    assert!(matches!(call_statement(Some(CheckedCall::Value(TExpr::Bool(true), Ty::Bool))), TStmt::Expr(TExpr::Bool(true))));
    assert!(matches!(call_statement(None), TStmt::Expr(TExpr::Nil)));
}

#[test]
fn a_move_inside_a_loop_body_is_reported() {
    let mut errors = Vec::new();
    let pre = MoveState { entries: vec![(local("a"), span(1))] };
    let mut moves = MoveState { entries: vec![(local("a"), span(1)), (local("b"), span(5))] };
    let mut borrows: Vec<ViewBorrow> = vec![];
    finish_loop(&mut errors, &mut moves, &mut borrows, pre, vec![], false, "while");
    assert_eq!(
        messages(&errors),
        vec!["'b' is moved here, but this is inside a 'while' body, so a later iteration would find 'b' already moved"
            .to_string()]
    );
    assert_eq!(errors[0].span, span(5));
    let mut roots: Vec<String> = moves.entries.iter().map(|(r, _)| root_of(r)).collect();
    roots.sort();
    assert_eq!(roots, vec!["a".to_string(), "b".to_string()]);
}

#[test]
fn a_loop_body_that_always_returns_keeps_the_state_before_it() {
    let mut errors = Vec::new();
    let pre = MoveState { entries: vec![] };
    let mut moves = MoveState { entries: vec![(local("b"), span(5))] };
    let views = vec![ViewBorrow { view_name: "v".to_string(), sources: vec![local("s")], scope: 0, persistent: false }];
    let mut borrows: Vec<ViewBorrow> = vec![];
    finish_loop(&mut errors, &mut moves, &mut borrows, pre, views, true, "for");
    assert_eq!(errors.len(), 1);
    assert!(moves.entries.is_empty());
    assert_eq!(borrows.len(), 1);
}

#[test]
fn break_outside_a_loop_is_reported() {
    let types = fixture();
    let scopes: Vec<Vec<TCleanup>> = vec![];
    let moves = MoveState { entries: vec![] };
    let env: Vec<Binding> = vec![];
    let mut errors = Vec::new();
    let stmt = break_statement(&scopes, &types, &moves, &env, &mut errors, None, span(3));
    assert!(matches!(stmt, TStmt::Break { ref cleanup } if cleanup.is_empty()));
    assert_eq!(
        messages(&errors),
        vec!["'break' is only valid inside a 'while' body or a 'for' body".to_string()]
    );
    let mut errors = Vec::new();
    let stmt = break_statement(&scopes, &types, &moves, &env, &mut errors, Some(0), span(3));
    assert!(matches!(stmt, TStmt::Break { .. }));
    assert!(errors.is_empty());
}

#[test]
fn iteration_binds_element_and_key_types() {
    let types = fixture();
    let mut errors = Vec::new();
    assert_eq!(iteration_types(&types, &mut errors, Ty::List(CollectionId(0)), false, span(0)), (Ty::Int64, None));
    assert_eq!(
        iteration_types(&types, &mut errors, Ty::MapOf(CollectionId(1)), true, span(0)),
        (Ty::Int64, Some(Ty::String))
    );
    assert_eq!(iteration_types(&types, &mut errors, Ty::ViewByte, false, span(0)), (Ty::Byte, None));
    assert!(errors.is_empty());
    assert_eq!(iteration_types(&types, &mut errors, Ty::Int64, false, span(1)), (Ty::Nil, None));
    assert_eq!(iteration_types(&types, &mut errors, Ty::MapOf(CollectionId(1)), false, span(2)), (Ty::Int64, Some(Ty::String)));
    assert_eq!(
        iteration_types(&types, &mut errors, Ty::SetOf(CollectionId(2)), false, span(3)),
        (Ty::List(CollectionId(0)), None)
    );
    assert_eq!(
        messages(&errors),
        vec![
            "'Int64' is not iterable".to_string(),
            "this iterable requires a key and value binding".to_string(),
            "set iteration currently supports scalar elements".to_string(),
        ]
    );
}

#[test]
fn let_declares_binds_and_records_views() {
    let types = fixture();
    let mut declared: Vec<&str> = vec![];
    let mut errors = Vec::new();
    let mut env: Vec<Binding> = vec![];
    let mut borrows: Vec<ViewBorrow> = vec![];
    let read = TExpr::ViewFromString(Box::new(TExpr::Place(whole("s", Ty::String), UseMode::Copy)), Ty::ViewByte);
    let stmt = finish_let(
        &types, &mut declared, &mut errors, &mut env, &mut borrows, "v", span(1), false, Ty::ViewByte, read,
        span(3), 0,
    );
    assert!(matches!(stmt, TStmt::Let { ref name, ty: Ty::ViewByte, .. } if name == "v"));
    assert!(errors.is_empty());
    assert_eq!(declared, vec!["v"]);
    assert_eq!(env.len(), 1);
    assert_eq!(borrows.len(), 1);
    assert_eq!(borrows[0].view_name, "v");
    assert_eq!(borrows[0].sources.len(), 1);
    assert_eq!(root_of(&borrows[0].sources[0]), "s");

    let stmt = finish_let(
        &types, &mut declared, &mut errors, &mut env, &mut borrows, "v", span(7), true, Ty::ViewByte,
        TExpr::Nil, span(9), 0,
    );
    assert!(matches!(stmt, TStmt::Let { mutable: true, .. }));
    assert_eq!(
        messages(&errors),
        vec![
            "Variable 'v' already exists".to_string(),
            "a stored view requires a named owning source; this temporary would not live long enough".to_string(),
        ]
    );
    assert_eq!(env.len(), 2);
}

#[test]
fn assignment_to_an_immutable_root_is_reported() {
    let types = fixture();
    let mut moves = MoveState { entries: vec![] };
    let mut borrows: Vec<ViewBorrow> = vec![];
    let env: Vec<Binding> = vec![];
    let mut errors = Vec::new();
    let mut writes = vec![false];
    let resolved = Resolved { place: whole("n", Ty::Int64), mutable: false };
    let stmt = finish_assign(
        &types, &mut moves, &mut borrows, &env, &mut errors, &mut writes, None, resolved, span(0),
        TExpr::Num(NumLiteral::Int(1)), Ty::Int64, span(4), 0,
    );
    assert!(matches!(stmt, TStmt::Assign { drop_before: false, .. }));
    assert_eq!(messages(&errors), vec!["'n' is not declared 'mut' and cannot be assigned".to_string()]);
}

#[test]
fn assigning_a_whole_root_into_its_own_field_is_reported() {
    let types = fixture();
    let pair = Ty::User(TypeId(0));
    let mut moves = MoveState { entries: vec![] };
    let mut borrows: Vec<ViewBorrow> = vec![];
    let env: Vec<Binding> = vec![];
    let mut errors = Vec::new();
    let mut writes = vec![false];
    let dest = Place { root: local("p"), root_ty: pair, path: vec![0], ty: Ty::String };
    let source = TExpr::Place(whole("p", pair), UseMode::Consume);
    finish_assign(
        &types, &mut moves, &mut borrows, &env, &mut errors, &mut writes, None,
        Resolved { place: dest, mutable: true }, span(0), source, pair, span(4), 0,
    );
    assert_eq!(
        messages(&errors),
        vec![
            "'p' and 'p.left' overlap, so this assignment cannot destroy 'p.left' before 'p' finishes moving into it"
                .to_string(),
            "expected 'String', found 'Pair'".to_string(),
        ]
    );
}

#[test]
fn reassigning_a_moved_root_makes_it_available_without_a_drop() {
    let types = fixture();
    let mut moves = MoveState { entries: vec![(local("s"), span(2)), (local("t"), span(3))] };
    let mut borrows: Vec<ViewBorrow> = vec![];
    let env: Vec<Binding> = vec![];
    let mut errors = Vec::new();
    let mut writes = vec![false];
    let stmt = finish_assign(
        &types, &mut moves, &mut borrows, &env, &mut errors, &mut writes, None,
        Resolved { place: whole("s", Ty::String), mutable: true }, span(0),
        TExpr::StringLiteral("x".to_string()), Ty::String, span(4), 0,
    );
    assert!(matches!(stmt, TStmt::Assign { drop_before: false, .. }));
    assert_eq!(moves.entries.len(), 1);
    assert_eq!(root_of(&moves.entries[0].0), "t");
    let stmt = finish_assign(
        &types, &mut moves, &mut borrows, &env, &mut errors, &mut writes, None,
        Resolved { place: whole("s", Ty::String), mutable: true }, span(0),
        TExpr::StringLiteral("y".to_string()), Ty::String, span(4), 0,
    );
    assert!(matches!(stmt, TStmt::Assign { drop_before: true, .. }));
    assert!(errors.is_empty());
}

#[test]
fn assigning_through_self_records_a_receiver_write() {
    let types = fixture();
    let mut moves = MoveState { entries: vec![] };
    let mut borrows: Vec<ViewBorrow> = vec![];
    let env: Vec<Binding> = vec![];
    let mut errors = Vec::new();
    let mut writes = vec![false, false];
    let pair = Ty::User(TypeId(0));
    let place = Place { root: PlaceRoot::SelfRef, root_ty: pair, path: vec![1], ty: Ty::String };
    finish_assign(
        &types, &mut moves, &mut borrows, &env, &mut errors, &mut writes, Some(MethodId(1)),
        Resolved { place, mutable: true }, span(0), TExpr::StringLiteral("r".to_string()), Ty::String, span(4), 0,
    );
    assert_eq!(writes, vec![false, true]);
}

#[test]
fn reassigning_a_view_replaces_its_borrow() {
    let types = fixture();
    let mut moves = MoveState { entries: vec![] };
    let mut borrows =
        vec![ViewBorrow { view_name: "v".to_string(), sources: vec![local("old")], scope: 0, persistent: false }];
    let env = vec![Binding { name: "v", ty: Ty::ViewByte, mutable: true, scope: 2, type_test_alias: false }];
    let mut errors = Vec::new();
    let mut writes = vec![false];
    let read = TExpr::ViewFromString(Box::new(TExpr::Place(whole("s", Ty::String), UseMode::Copy)), Ty::ViewByte);
    finish_assign(
        &types, &mut moves, &mut borrows, &env, &mut errors, &mut writes, None,
        Resolved { place: whole("v", Ty::ViewByte), mutable: true }, span(0), read, Ty::ViewByte, span(4), 0,
    );
    assert!(errors.is_empty());
    assert_eq!(borrows.len(), 1);
    assert_eq!(borrows[0].scope, 2);
    assert_eq!(root_of(&borrows[0].sources[0]), "s");
}

#[test]
fn move_states_forget_a_root() {
    let mut moves = MoveState { entries: vec![(local("a"), span(1)), (local("b"), span(2)), (local("c"), span(3))] };
    moves.remove(&local("b"));
    let roots: Vec<String> = moves.entries.iter().map(|(r, _)| root_of(r)).collect();
    assert_eq!(roots, vec!["a".to_string(), "c".to_string()]);
    moves.remove(&local("z"));
    assert_eq!(moves.entries.len(), 2);
}

#[test]
fn indexed_assignment_targets_are_index_expressions() {
    let mut errors = Vec::new();
    let target = (Expr::Index(Box::new((Expr::Local("m"), span(0))), Box::new((Expr::Local("k"), span(2)))), span(0));
    assert!(indexed_parts(&mut errors, &target).is_some());
    let bad = (Expr::Local("m"), span(5));
    assert!(indexed_parts(&mut errors, &bad).is_none());
    assert_eq!(messages(&errors), vec!["only a map index can be an indexed assignment target".to_string()]);
}

#[test]
fn indexed_assignments_write_elements_or_existing_entries() {
    let types = fixture();
    let borrows: Vec<ViewBorrow> = vec![];
    let mut errors = Vec::new();
    let list = Resolved { place: whole("xs", Ty::List(CollectionId(0))), mutable: true };
    assert_eq!(
        indexed_target(&types, &borrows, &mut errors, &list, span(0), span(1)),
        Some(IndexTarget::Element { elem: Ty::Int64 })
    );
    let map = Resolved { place: whole("m", Ty::MapOf(CollectionId(1))), mutable: false };
    let target = indexed_target(&types, &borrows, &mut errors, &map, span(2), span(3));
    assert_eq!(target, Some(IndexTarget::Entry { key: Ty::String, value: Ty::Int64 }));
    let scalar = Resolved { place: whole("n", Ty::Int64), mutable: true };
    assert_eq!(indexed_target(&types, &borrows, &mut errors, &scalar, span(4), span(5)), None);
    assert_eq!(
        messages(&errors),
        vec![
            "'m' is not declared 'mut' and cannot be indexed-assigned".to_string(),
            "'Int64' is not a map, so it cannot be indexed-assigned".to_string(),
        ]
    );

    let mut errors = Vec::new();
    let (key, key_ty) = index_key(
        &types,
        &mut errors,
        IndexTarget::Entry { key: Ty::String, value: Ty::Int64 },
        TExpr::Place(whole("k", Ty::String), UseMode::Copy),
        Ty::String,
        span(6),
    );
    assert!(matches!(key, TExpr::ViewFromString(_, Ty::ViewByte)));
    assert_eq!(key_ty, Ty::ViewByte);
    let (_, index_ty) =
        index_key(&types, &mut errors, IndexTarget::Element { elem: Ty::Int64 }, TExpr::Bool(true), Ty::Bool, span(7));
    assert_eq!(index_ty, Ty::Bool);
    assert_eq!(messages(&errors), vec!["expected 'Int64', found 'Bool'".to_string()]);

    let stmt = finish_indexed_assign(
        whole("m", Ty::MapOf(CollectionId(1))),
        IndexTarget::Entry { key: Ty::String, value: Ty::Int64 },
        TExpr::Nil,
        Ty::ViewByte,
        TExpr::Num(NumLiteral::Int(3)),
    );
    assert!(matches!(stmt, TStmt::Expr(TExpr::MapInsert { require_existing: true, key_ty: Ty::ViewByte, .. })));
    let stmt = finish_indexed_assign(
        whole("xs", Ty::List(CollectionId(0))),
        IndexTarget::Element { elem: Ty::Int64 },
        TExpr::Num(NumLiteral::Int(0)),
        Ty::Int64,
        TExpr::Num(NumLiteral::Int(3)),
    );
    assert!(matches!(stmt, TStmt::SequenceIndexAssign { elem: Ty::Int64, .. }));
}

#[test]
fn for_loops_bind_their_variables_as_aliases() {
    let mut declared: Vec<&str> = vec!["k"];
    let mut errors = Vec::new();
    let mut env: Vec<Binding> = vec![];
    let mut borrows: Vec<ViewBorrow> = vec![];
    let iterable = TExpr::Place(whole("m", Ty::MapOf(CollectionId(1))), UseMode::Copy);
    let key = begin_for(
        &mut declared,
        &mut errors,
        &mut env,
        &mut borrows,
        ("v", span(1)),
        Some(("k", span(2))),
        Ty::Int64,
        Some(Ty::String),
        &iterable,
        3,
    );
    assert_eq!(key, Some("k".to_string()));
    assert_eq!(declared, vec!["k", "v"]);
    assert_eq!(messages(&errors), vec!["Loop variable 'k' already exists".to_string()]);
    assert_eq!(env.len(), 2);
    assert!(env[0].type_test_alias && env[1].type_test_alias);
    assert_eq!(env[1].ty, Ty::String);
    assert_eq!(borrows.len(), 1);
    assert_eq!(borrows[0].view_name, "for v");
    assert_eq!(root_of(&borrows[0].sources[0]), "m");
    assert_eq!(borrows[0].scope, 3);
    assert!(borrows[0].persistent);

    let view = TExpr::ViewFromString(Box::new(TExpr::Place(whole("s", Ty::String), UseMode::Copy)), Ty::ViewByte);
    begin_for(&mut declared, &mut errors, &mut env, &mut borrows, ("c", span(4)), None, Ty::Byte, None, &view, 1);
    assert_eq!(borrows.len(), 2);
    assert_eq!(borrows[1].view_name, "for c");
    assert_eq!(root_of(&borrows[1].sources[0]), "s");

    begin_for(&mut declared, &mut errors, &mut env, &mut borrows, ("t", span(6)), None, Ty::Int64, None, &TExpr::Nil, 1);
    assert_eq!(borrows.len(), 2);
}
