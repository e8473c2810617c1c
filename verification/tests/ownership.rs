use std::rc::Rc;

use snacc_compiler::ast::{BlockElement, Expr, Span};
use snacc_compiler::checked::{
    Error, TBlock, TCleanup, TCondition, TDeferred, TExpr, TStmt, TValueIf,
};
use snacc_compiler::moves::{
    append_parameter_drops, check_move, cleanup_for_exit, cleanup_for_exit_from_entries,
    compute_drops, expression_error_exit, is_error_type, is_type_test_alias, mark_consumed,
    place_name, prune_view_borrows, reject_live_view_source, reject_overlap,
    validate_cleanup_dependencies, view_sources, Binding,
};
use snacc_compiler::ownership::is_move_only;
use snacc_compiler::places::{same_root, MoveState, Place, PlaceRoot, UseMode, ViewBorrow};
use snacc_compiler::ty::{BoxId, CollectionDef, CollectionId, SumId, Ty, TypeDef, TypeId, Types};

fn span(start: usize) -> Span {
    Span { start, end: start + 1 }
}

fn local(name: &str) -> PlaceRoot {
    PlaceRoot::Local(name.to_string())
}

/// Point { x: Int64, y: Int64 }, Holder { name: String, next: Box<Point> },
/// Error { code: Int64 }; a list of Int64; a box of Point; the sum Nil | Int64.
fn fixture() -> Types {
    Types {
        defs: vec![
            TypeDef::Struct {
                name: "Point".to_string(),
                fields: vec![("x".to_string(), Ty::Int64), ("y".to_string(), Ty::Int64)],
            },
            TypeDef::Struct {
                name: "Holder".to_string(),
                fields: vec![
                    ("name".to_string(), Ty::String),
                    ("next".to_string(), Ty::Box(BoxId(0))),
                ],
            },
            TypeDef::Struct { name: "Error".to_string(), fields: vec![("code".to_string(), Ty::Int64)] },
        ],
        sums: vec![vec![Ty::Nil, Ty::Int64]],
        boxes: vec![Ty::User(TypeId(0))],
        collections: vec![CollectionDef::List { elem: Ty::Int64 }],
    }
}

fn whole(name: &str, ty: Ty) -> Place {
    Place { root: local(name), root_ty: ty, path: vec![], ty }
}

fn messages(errors: &[Error]) -> Vec<String> {
    errors.iter().map(|e| e.msg.clone()).collect()
}

fn binding<'a>(name: &'a str, ty: Ty, alias: bool) -> Binding<'a> {
    Binding { name, ty, mutable: false, scope: 0, type_test_alias: alias }
}

fn deferred(on_error: bool, at: usize, dependencies: &[&str], consumes: &[&str]) -> TCleanup {
    TCleanup::Deferred(Rc::new(TDeferred {
        on_error,
        call: TStmt::Expr(TExpr::Nil),
        span: span(at),
        dependencies: dependencies.iter().map(|d| local(d)).collect(),
        consumes: consumes.iter().map(|d| local(d)).collect(),
    }))
}

fn drop_root(entry: &TCleanup) -> Option<String> {
    match entry {
        TCleanup::Drop(place) => match &place.root {
            PlaceRoot::Local(name) => Some(name.clone()),
            PlaceRoot::SelfRef => Some("self".to_string()),
        },
        TCleanup::Deferred(_) => None,
    }
}

#[test]
fn move_only_types() {
    let types = fixture();
    assert!(is_move_only(&types, Ty::String));
    assert!(is_move_only(&types, Ty::List(CollectionId(0))));
    assert!(is_move_only(&types, Ty::Box(BoxId(0))));
    assert!(is_move_only(&types, Ty::User(TypeId(1))));
    assert!(!is_move_only(&types, Ty::User(TypeId(0))));
    assert!(!is_move_only(&types, Ty::Sum(SumId(0))));
    assert!(!is_move_only(&types, Ty::Int64));
}

#[test]
fn place_names_render_field_selectors_through_boxes() {
    let types = fixture();
    let p = Place { root: local("h"), root_ty: Ty::User(TypeId(1)), path: vec![1, 0], ty: Ty::Int64 };
    assert_eq!(place_name(&types, &p), "h.next.x");
    let s = Place { root: PlaceRoot::SelfRef, root_ty: Ty::User(TypeId(0)), path: vec![1], ty: Ty::Int64 };
    assert_eq!(place_name(&types, &s), "self.y");
    let bad = Place { root: local("n"), root_ty: Ty::Int64, path: vec![0], ty: Ty::Int64 };
    assert_eq!(place_name(&types, &bad), "n");
}

#[test]
fn type_test_aliases_follow_the_innermost_binding() {
    let env = vec![binding("a", Ty::Int64, true), binding("b", Ty::Int64, false), binding("a", Ty::Int64, false)];
    assert!(!is_type_test_alias(&env, &local("a")));
    assert!(!is_type_test_alias(&env, &local("b")));
    assert!(!is_type_test_alias(&env, &PlaceRoot::SelfRef));
    let env = vec![binding("a", Ty::Int64, false), binding("a", Ty::Int64, true)];
    assert!(is_type_test_alias(&env, &local("a")));
    assert!(!is_type_test_alias(&env, &local("missing")));
}

#[test]
fn moving_a_borrowed_source_names_the_first_view() {
    let borrows = vec![
        ViewBorrow { view_name: "v".to_string(), sources: vec![local("t")], scope: 0, persistent: false },
        ViewBorrow { view_name: "w".to_string(), sources: vec![local("s")], scope: 0, persistent: false },
        ViewBorrow { view_name: "z".to_string(), sources: vec![local("s")], scope: 0, persistent: false },
    ];
    let mut errors = Vec::new();
    reject_live_view_source(&borrows, &local("s"), span(4), &mut errors);
    assert_eq!(messages(&errors), vec!["cannot move or replace 's': view 'w' still borrows it"]);
    assert_eq!(errors[0].span, span(4));
    reject_live_view_source(&borrows, &local("q"), span(5), &mut errors);
    assert_eq!(errors.len(), 1);
}

#[test]
fn a_second_consuming_use_is_a_use_after_move() {
    let types = fixture();
    let mut moves = MoveState { entries: vec![] };
    let mut errors = Vec::new();
    let s = whole("s", Ty::String);
    check_move(&types, &mut moves, &vec![], &mut errors, &s, span(1));
    assert!(errors.is_empty());
    assert!(moves.contains(&local("s")));
    check_move(&types, &mut moves, &vec![], &mut errors, &s, span(2));
    assert_eq!(messages(&errors), vec!["'s' is already moved, so this use is invalid"]);
    assert_eq!(moves.entries.len(), 1);
    let n = whole("n", Ty::Int64);
    check_move(&types, &mut moves, &vec![], &mut errors, &n, span(3));
    check_move(&types, &mut moves, &vec![], &mut errors, &n, span(4));
    assert_eq!(errors.len(), 1);
    assert!(!moves.contains(&local("n")));
}

#[test]
fn consuming_reads_move_roots_and_reject_partial_moves() {
    let types = fixture();
    let mut moves = MoveState { entries: vec![] };
    let mut errors = Vec::new();
    let env = vec![binding("h", Ty::User(TypeId(1)), false), binding("m", Ty::String, true)];
    let field = Place { root: local("h"), root_ty: Ty::User(TypeId(1)), path: vec![0], ty: Ty::String };
    let out = mark_consumed(&types, &mut moves, &vec![], &env, &mut errors, TExpr::Place(field, UseMode::Copy), span(1));
    assert!(matches!(out, TExpr::Place(_, UseMode::Consume)));
    assert_eq!(
        messages(&errors),
        vec!["'h.name' cannot be moved out of; only a complete owning root can be moved"]
    );
    let alias = whole("m", Ty::String);
    mark_consumed(&types, &mut moves, &vec![], &env, &mut errors, TExpr::Place(alias, UseMode::Copy), span(2));
    assert_eq!(errors.len(), 2);
    assert_eq!(errors[1].msg, "'m' cannot be moved out of; only a complete owning root can be moved");
    let root = whole("h", Ty::User(TypeId(1)));
    mark_consumed(&types, &mut moves, &vec![], &env, &mut errors, TExpr::Place(root, UseMode::Copy), span(3));
    assert_eq!(errors.len(), 2);
    assert!(moves.contains(&local("h")));
    let other = mark_consumed(&types, &mut moves, &vec![], &env, &mut errors, TExpr::Bool(true), span(4));
    assert!(matches!(other, TExpr::Bool(true)));
    assert_eq!(errors.len(), 2);
}

#[test]
fn drops_run_in_reverse_declaration_order() {
    let types = fixture();
    let moves = MoveState { entries: vec![(local("b"), span(0))] };
    let env = vec![
        binding("a", Ty::String, false),
        binding("n", Ty::Int64, false),
        binding("b", Ty::String, false),
        binding("c", Ty::List(CollectionId(0)), false),
        binding("t", Ty::String, true),
    ];
    let drops = compute_drops(&types, &moves, &env, 0);
    let names: Vec<String> = drops
        .iter()
        .map(|p| match &p.root {
            PlaceRoot::Local(n) => n.clone(),
            PlaceRoot::SelfRef => "self".to_string(),
        })
        .collect();
    assert_eq!(names, vec!["c", "a"]);
    assert!(drops.iter().all(|p| p.path.is_empty()));
    assert_eq!(compute_drops(&types, &moves, &env, 2).len(), 1);
    let mut body = TBlock { statements: vec![], result: None, result_ty: None, cleanup: vec![deferred(false, 9, &[], &[])] };
    append_parameter_drops(&types, &moves, &env, &mut body);
    assert_eq!(body.cleanup.len(), 3);
    assert_eq!(drop_root(&body.cleanup[1]), Some("c".to_string()));
    assert_eq!(drop_root(&body.cleanup[2]), Some("a".to_string()));
}

#[test]
fn deferred_calls_may_not_read_unavailable_roots() {
    let moves = MoveState { entries: vec![(local("gone"), span(0))] };
    let entries = vec![
        deferred(false, 1, &["gone", "ok"], &["ok"]),
        deferred(false, 2, &["ok"], &[]),
        deferred(true, 3, &["gone"], &[]),
    ];
    let mut errors = Vec::new();
    validate_cleanup_dependencies(&moves, &entries, Some(false), &mut errors);
    assert_eq!(
        messages(&errors),
        vec![
            "deferred call cannot use 'gone' at scope exit because its current value is unavailable",
            "deferred call cannot use 'ok' at scope exit because its current value is unavailable",
        ]
    );
    assert_eq!(errors[0].span, span(1));
    assert_eq!(errors[1].span, span(2));
    let mut errors = Vec::new();
    validate_cleanup_dependencies(&moves, &entries, None, &mut errors);
    assert_eq!(errors.len(), 3);
}

#[test]
fn exit_plans_drop_moved_roots_and_run_in_reverse() {
    let moves = MoveState { entries: vec![(local("b"), span(0))] };
    let entries = vec![
        TCleanup::Drop(whole("a", Ty::String)),
        TCleanup::Drop(whole("b", Ty::String)),
        deferred(false, 7, &[], &[]),
    ];
    let mut errors = Vec::new();
    let plan = cleanup_for_exit_from_entries(&moves, entries, None, &mut errors);
    assert_eq!(plan.len(), 2);
    assert!(matches!(plan[0], TCleanup::Deferred(_)));
    assert_eq!(drop_root(&plan[1]), Some("a".to_string()));
    assert!(errors.is_empty());
}

#[test]
fn leaving_scopes_adds_unregistered_parameter_drops() {
    let types = fixture();
    let moves = MoveState { entries: vec![(local("gone"), span(0))] };
    let env = vec![binding("p", Ty::String, false), binding("q", Ty::String, false), binding("gone", Ty::String, false)];
    let shared = Rc::new(TDeferred {
        on_error: false,
        call: TStmt::Expr(TExpr::Nil),
        span: span(8),
        dependencies: vec![local("gone")],
        consumes: vec![],
    });
    let scopes = vec![
        vec![TCleanup::Drop(whole("q", Ty::String))],
        vec![TCleanup::Deferred(shared.clone()), TCleanup::Drop(whole("gone", Ty::String))],
    ];
    let mut errors = Vec::new();
    let plan = cleanup_for_exit(&scopes, &types, &moves, &env, 0, None, &mut errors);
    let roots: Vec<Option<String>> = plan.iter().map(drop_root).collect();
    assert_eq!(roots, vec![Some("p".to_string()), None, Some("q".to_string())]);
    match &plan[1] {
        TCleanup::Deferred(d) => assert!(Rc::ptr_eq(d, &shared)),
        _ => panic!("expected the shared deferred call"),
    }
    assert_eq!(
        messages(&errors),
        vec!["deferred call cannot use 'gone' at scope exit because its current value is unavailable"]
    );
    let mut errors = Vec::new();
    let outer_only = cleanup_for_exit(&scopes, &types, &moves, &env, 1, Some(false), &mut errors);
    let roots: Vec<Option<String>> = outer_only.iter().map(drop_root).collect();
    assert_eq!(roots, vec![Some("q".to_string()), Some("p".to_string()), None]);
    assert_eq!(errors.len(), 1);
    let beyond = cleanup_for_exit(&scopes, &types, &moves, &env, 5, None, &mut Vec::new());
    let roots: Vec<Option<String>> = beyond.iter().map(drop_root).collect();
    assert_eq!(roots, vec![Some("q".to_string()), Some("p".to_string())]);
}

#[test]
fn view_borrows_are_pruned_after_their_last_use() {
    let later: Vec<(BlockElement<'static>, Span)> =
        vec![(BlockElement::Expr((Expr::Local("kept"), span(0))), span(0))];
    let scopes = vec![vec![deferred(false, 1, &["deferred_view"], &[])]];
    let mut borrows = vec![
        ViewBorrow { view_name: "dead".to_string(), sources: vec![local("s")], scope: 2, persistent: false },
        ViewBorrow { view_name: "outer".to_string(), sources: vec![local("s")], scope: 1, persistent: false },
        ViewBorrow { view_name: "loop".to_string(), sources: vec![local("s")], scope: 2, persistent: true },
        ViewBorrow { view_name: "deferred_view".to_string(), sources: vec![local("s")], scope: 2, persistent: false },
        ViewBorrow { view_name: "kept".to_string(), sources: vec![local("s")], scope: 2, persistent: false },
        ViewBorrow { view_name: "dead2".to_string(), sources: vec![local("t")], scope: 3, persistent: false },
    ];
    prune_view_borrows(&mut borrows, &scopes, &later, 2);
    let names: Vec<&str> = borrows.iter().map(|b| b.view_name.as_str()).collect();
    assert_eq!(names, vec!["outer", "loop", "deferred_view", "kept"]);
}

#[test]
fn overlapping_arguments_are_reported() {
    let types = fixture();
    let receiver = Place { root: local("h"), root_ty: Ty::User(TypeId(1)), path: vec![], ty: Ty::User(TypeId(1)) };
    let references = vec![
        (
            "first".to_string(),
            Place { root: local("h"), root_ty: Ty::User(TypeId(1)), path: vec![0], ty: Ty::String },
            span(1),
        ),
        (
            "second".to_string(),
            Place { root: local("h"), root_ty: Ty::User(TypeId(1)), path: vec![0], ty: Ty::String },
            span(2),
        ),
    ];
    let moved = vec![("third".to_string(), whole("h", Ty::User(TypeId(1))), span(3))];
    let mut errors = Vec::new();
    reject_overlap(&types, &references, &moved, Some(&receiver), &mut errors);
    assert_eq!(
        messages(&errors),
        vec![
            "reference argument 'h.name' for parameter 'first' overlaps the receiver 'h', which the method may access through 'self'",
            "reference arguments 'h.name' and 'h.name' overlap, so parameters 'first' and 'second' cannot both have exclusive access",
            "reference argument 'h.name' for parameter 'first' overlaps the moved argument 'h' for parameter 'third', so it cannot be borrowed in the same call that moves it",
            "reference argument 'h.name' for parameter 'second' overlaps the receiver 'h', which the method may access through 'self'",
            "reference argument 'h.name' for parameter 'second' overlaps the moved argument 'h' for parameter 'third', so it cannot be borrowed in the same call that moves it",
        ]
    );
    let mut errors = Vec::new();
    let disjoint = vec![
        ("a".to_string(), Place { root: local("h"), root_ty: Ty::User(TypeId(1)), path: vec![0], ty: Ty::String }, span(1)),
        ("b".to_string(), Place { root: local("h"), root_ty: Ty::User(TypeId(1)), path: vec![1], ty: Ty::Box(BoxId(0)) }, span(2)),
    ];
    reject_overlap(&types, &disjoint, &vec![], None, &mut errors);
    assert!(errors.is_empty());
}

#[test]
fn error_exits_are_classified_statically_when_visible() {
    let types = fixture();
    assert!(is_error_type(&types, Ty::User(TypeId(2))));
    assert!(!is_error_type(&types, Ty::User(TypeId(0))));
    let error_place = TExpr::Place(whole("e", Ty::User(TypeId(2))), UseMode::Copy);
    assert_eq!(expression_error_exit(&types, &error_place), Some(true));
    let sum_place = TExpr::Place(whole("r", Ty::Sum(SumId(0))), UseMode::Copy);
    assert_eq!(expression_error_exit(&types, &sum_place), None);
    assert_eq!(expression_error_exit(&types, &TExpr::Bool(true)), Some(false));
    let construct = TExpr::Construct { type_id: TypeId(2), fields: vec![] };
    assert_eq!(expression_error_exit(&types, &construct), Some(true));
    let inject = TExpr::InjectSum { sum: SumId(0), member: Ty::Int64, value: Box::new(TExpr::Nil) };
    assert_eq!(expression_error_exit(&types, &inject), Some(false));
    assert_eq!(expression_error_exit(&types, &TExpr::Call("f".to_string(), vec![])), None);
    let arm = |value: TExpr| {
        (TCondition::Expr(TExpr::Bool(true)), TBlock { statements: vec![], result: Some(value), result_ty: None, cleanup: vec![] })
    };
    let agreeing = TExpr::If(Box::new(TValueIf {
        arms: vec![arm(TExpr::Construct { type_id: TypeId(2), fields: vec![] })],
        else_branch: Some(TBlock {
            statements: vec![],
            result: Some(TExpr::Place(whole("e", Ty::User(TypeId(2))), UseMode::Copy)),
            result_ty: None,
            cleanup: vec![],
        }),
        exhaustive: false,
        ty: Ty::User(TypeId(2)),
    }));
    assert_eq!(expression_error_exit(&types, &agreeing), Some(true));
    let disagreeing = TExpr::If(Box::new(TValueIf {
        arms: vec![arm(TExpr::Bool(true)), arm(TExpr::Construct { type_id: TypeId(2), fields: vec![] })],
        else_branch: None,
        exhaustive: true,
        ty: Ty::Bool,
    }));
    assert_eq!(expression_error_exit(&types, &disagreeing), None);
}

#[test]
fn view_sources_follow_tracked_borrows() {
    let borrows = vec![
        ViewBorrow { view_name: "v".to_string(), sources: vec![local("s"), local("t")], scope: 0, persistent: false },
    ];
    let through_view = TExpr::Place(whole("v", Ty::ViewByte), UseMode::Copy);
    let sources = view_sources(&borrows, &through_view);
    assert_eq!(sources.len(), 2);
    let direct = TExpr::ViewFromString(Box::new(TExpr::Place(whole("s", Ty::String), UseMode::Copy)), Ty::ViewByte);
    let sources = view_sources(&borrows, &direct);
    assert_eq!(sources.len(), 1);
    assert!(same_root(&sources[0], &local("s")));
    let built = TExpr::Construct {
        type_id: TypeId(0),
        fields: vec![
            (0, TExpr::Place(whole("v", Ty::ViewByte), UseMode::Copy)),
            (1, TExpr::Place(whole("u", Ty::ViewByte), UseMode::Copy)),
            (2, TExpr::Place(whole("s", Ty::ViewByte), UseMode::Copy)),
        ],
    };
    let sources = view_sources(&borrows, &built);
    assert_eq!(sources.len(), 3);
    assert!(sources.iter().any(|r| same_root(r, &local("u"))));
    assert!(view_sources(&borrows, &TExpr::Num(snacc_compiler::ast::NumLiteral::Int(1))).is_empty());
    let printed = TExpr::Print(Box::new(TExpr::Place(whole("w", Ty::ViewUnicode), UseMode::Copy)), Ty::ViewUnicode);
    assert_eq!(view_sources(&borrows, &printed).len(), 1);
    let self_view = TExpr::Place(
        Place { root: PlaceRoot::SelfRef, root_ty: Ty::ViewByte, path: vec![], ty: Ty::ViewByte },
        UseMode::Copy,
    );
    assert!(same_root(&view_sources(&borrows, &self_view)[0], &PlaceRoot::SelfRef));
}

#[test]
fn view_sources_keep_the_order_a_join_meets_them() {
    let borrows = vec![
        ViewBorrow { view_name: "v".to_string(), sources: vec![local("t"), local("s")], scope: 0, persistent: false },
    ];
    let built = TExpr::Construct {
        type_id: TypeId(0),
        fields: vec![
            (0, TExpr::Place(whole("u", Ty::ViewByte), UseMode::Copy)),
            (1, TExpr::Place(whole("v", Ty::ViewByte), UseMode::Copy)),
            (2, TExpr::Place(whole("s", Ty::ViewByte), UseMode::Copy)),
            (3, TExpr::Place(whole("u", Ty::ViewByte), UseMode::Copy)),
        ],
    };
    let names: Vec<String> = view_sources(&borrows, &built)
        .iter()
        .map(|r| match r {
            PlaceRoot::Local(name) => name.clone(),
            PlaceRoot::SelfRef => "self".to_string(),
        })
        .collect();
    assert_eq!(names, vec!["u".to_string(), "t".to_string(), "s".to_string()]);
}
