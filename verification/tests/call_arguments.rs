use snacc_compiler::arguments::{
    finish_arguments, reference_argument, reference_to_value, value_argument,
};
use snacc_compiler::ast::{NumLiteral, ParamMode, Span};
use snacc_compiler::checked::{Error, TExpr, TParam};
use snacc_compiler::moves::Binding;
use snacc_compiler::places::{MoveState, Place, PlaceRoot, UseMode, ViewBorrow};
use snacc_compiler::resolve::Resolved;
use snacc_compiler::ty::{BoxId, CollectionDef, CollectionId, MethodId, Ty, TypeDef, TypeId, Types};

fn span(start: usize) -> Span {
    Span { start, end: start + 1 }
}

fn messages(errors: &[Error]) -> Vec<String> {
    errors.iter().map(|e| e.msg.clone()).collect()
}

/// Point { x: Int64, y: Int64 }; Box<Point>; List<Byte>; View<Byte>.
fn fixture() -> Types {
    Types {
        defs: vec![TypeDef::Struct {
            name: "Point".to_string(),
            fields: vec![("x".to_string(), Ty::Int64), ("y".to_string(), Ty::Int64)],
        }],
        sums: vec![],
        boxes: vec![Ty::User(TypeId(0))],
        collections: vec![CollectionDef::List { elem: Ty::Byte }, CollectionDef::View { elem: Ty::Byte }],
    }
}

fn whole(name: &str, ty: Ty) -> Place {
    Place { root: PlaceRoot::Local(name.to_string()), root_ty: ty, path: vec![], ty }
}

fn param(name: &str, ty: Ty, mode: ParamMode) -> TParam {
    TParam { name: name.to_string(), ty, mode }
}

fn binding<'a>(name: &'a str, ty: Ty) -> Binding<'a> {
    Binding { name, ty, mutable: true, scope: 0, type_test_alias: false }
}

#[test]
fn a_string_passed_as_a_view_is_lent_not_moved() {
    let types = fixture();
    let env = vec![binding("s", Ty::String)];
    let borrows: Vec<ViewBorrow> = vec![];
    let mut moves = MoveState { entries: vec![] };
    let mut errors = Vec::new();
    let mut moved = Vec::new();
    let mut lends = Vec::new();
    let r = value_argument(
        &types,
        &mut moves,
        &borrows,
        &env,
        &mut errors,
        &mut moved,
        &mut lends,
        TExpr::Place(whole("s", Ty::String), UseMode::Copy),
        Ty::String,
        &param("text", Ty::ViewByte, ParamMode::Value),
        span(3),
        false,
    );
    assert!(matches!(r, TExpr::ViewFromString(_, Ty::ViewByte)));
    assert!(errors.is_empty());
    assert!(moves.entries.is_empty());
    assert!(moved.is_empty());
    assert_eq!(lends.len(), 1);
    assert_eq!(lends[0].0, "text");
    assert_eq!(lends[0].2, span(3));
}

#[test]
fn an_owned_string_argument_is_moved_and_recorded() {
    let types = fixture();
    let env = vec![binding("s", Ty::String)];
    let borrows: Vec<ViewBorrow> = vec![];
    let mut moves = MoveState { entries: vec![] };
    let mut errors = Vec::new();
    let mut moved = Vec::new();
    let mut lends = Vec::new();
    let r = value_argument(
        &types,
        &mut moves,
        &borrows,
        &env,
        &mut errors,
        &mut moved,
        &mut lends,
        TExpr::Place(whole("s", Ty::String), UseMode::Copy),
        Ty::String,
        &param("owned", Ty::String, ParamMode::Value),
        span(3),
        false,
    );
    assert!(matches!(r, TExpr::Place(_, UseMode::Consume)));
    assert!(errors.is_empty());
    assert_eq!(moves.entries.len(), 1);
    assert_eq!(moved.len(), 1);
    assert_eq!(moved[0].0, "owned");
    assert!(lends.is_empty());
}

#[test]
fn value_arguments_are_widened_or_reported() {
    let types = fixture();
    let env: Vec<Binding> = vec![];
    let borrows: Vec<ViewBorrow> = vec![];
    let mut moves = MoveState { entries: vec![] };
    let mut errors = Vec::new();
    let mut moved = Vec::new();
    let mut lends = Vec::new();
    let r = value_argument(
        &types,
        &mut moves,
        &borrows,
        &env,
        &mut errors,
        &mut moved,
        &mut lends,
        TExpr::Num(NumLiteral::Int(4)),
        Ty::Int64,
        &param("x", Ty::Float64, ParamMode::Value),
        span(3),
        false,
    );
    assert!(matches!(r, TExpr::Cast(_, Ty::Float64)));
    let r = value_argument(
        &types,
        &mut moves,
        &borrows,
        &env,
        &mut errors,
        &mut moved,
        &mut lends,
        TExpr::Bool(true),
        Ty::Bool,
        &param("x", Ty::Int64, ParamMode::Value),
        span(5),
        false,
    );
    assert!(matches!(r, TExpr::Bool(true)));
    assert_eq!(messages(&errors), vec!["expected 'Int64', found 'Bool'".to_string()]);
}

#[test]
fn bridge_arguments_accept_either_byte_view() {
    let types = fixture();
    let env: Vec<Binding> = vec![];
    let borrows: Vec<ViewBorrow> = vec![];
    let mut moves = MoveState { entries: vec![] };
    let mut errors = Vec::new();
    let mut moved = Vec::new();
    let mut lends = Vec::new();
    let r = value_argument(
        &types,
        &mut moves,
        &borrows,
        &env,
        &mut errors,
        &mut moved,
        &mut lends,
        TExpr::Nil,
        Ty::View(CollectionId(1)),
        &param("bytes", Ty::ViewByte, ParamMode::Value),
        span(3),
        true,
    );
    assert!(matches!(r, TExpr::Nil));
    assert!(errors.is_empty());
}

#[test]
fn reference_arguments_need_a_mutable_exact_place() {
    let types = fixture();
    let mut errors = Vec::new();
    let mut writes = vec![false];
    let mut references = Vec::new();
    let resolved = Resolved { place: whole("p", Ty::Int64), mutable: false };
    let place = reference_argument(
        &types,
        &mut errors,
        &mut writes,
        None,
        &mut references,
        resolved,
        &param("target", Ty::Float64, ParamMode::Reference),
        "update",
        span(7),
    );
    assert_eq!(
        messages(&errors),
        vec![
            "'p' is not declared 'mut', so it cannot be passed to the reference parameter 'target' of 'update'"
                .to_string(),
            "reference parameter 'target' of 'update' requires a place of exactly type 'Float64', found 'Int64'"
                .to_string(),
        ]
    );
    assert_eq!(place.ty, Ty::Int64);
    assert_eq!(references.len(), 1);
    assert_eq!(writes, vec![false]);
}

#[test]
fn a_box_lends_its_pointee_to_a_reference_parameter() {
    let types = fixture();
    let mut errors = Vec::new();
    let mut writes = vec![false, false];
    let mut references = Vec::new();
    let place = Place { root: PlaceRoot::SelfRef, root_ty: Ty::Box(BoxId(0)), path: vec![], ty: Ty::Box(BoxId(0)) };
    let resolved = Resolved { place, mutable: true };
    let lent = reference_argument(
        &types,
        &mut errors,
        &mut writes,
        Some(MethodId(1)),
        &mut references,
        resolved,
        &param("point", Ty::User(TypeId(0)), ParamMode::Reference),
        "move_point",
        span(2),
    );
    assert!(errors.is_empty());
    assert_eq!(lent.ty, Ty::User(TypeId(0)));
    assert_eq!(lent.root_ty, Ty::Box(BoxId(0)));
    assert_eq!(writes, vec![false, true]);
    assert_eq!(references[0].0, "point");
}

#[test]
fn values_passed_by_reference_are_reported_once() {
    let types = fixture();
    let p = param("target", Ty::Int64, ParamMode::Reference);
    let mut errors = Vec::new();
    reference_to_value(&types, &mut errors, 0, &p, "update", span(4));
    assert_eq!(
        messages(&errors),
        vec![
            "reference parameter 'target' of 'update' requires an initialized mutable place of type 'Int64', but this argument is a value with no storage"
                .to_string()
        ]
    );
    reference_to_value(&types, &mut errors, 0, &p, "update", span(4));
    assert_eq!(errors.len(), 1);
}

#[test]
fn lent_views_may_not_overlap_moved_arguments() {
    let types = fixture();
    let mut errors = Vec::new();
    let list = Ty::List(CollectionId(0));
    let moved = vec![("owned".to_string(), whole("xs", list), span(6))];
    let lends = vec![("view".to_string(), whole("xs", list), span(2))];
    let references = vec![];
    finish_arguments(&types, &mut errors, &references, &moved, &lends, None);
    assert_eq!(
        messages(&errors),
        vec!["view argument 'xs' for parameter 'view' overlaps the moved argument 'xs' for parameter 'owned'".to_string()]
    );
    assert_eq!(errors[0].span, span(2));
}

#[test]
fn reference_arguments_may_not_overlap_each_other() {
    let types = fixture();
    let mut errors = Vec::new();
    let point = Ty::User(TypeId(0));
    let inner = Place { root: PlaceRoot::Local("p".to_string()), root_ty: point, path: vec![0], ty: Ty::Int64 };
    let references = vec![("a".to_string(), whole("p", point), span(1)), ("b".to_string(), inner, span(3))];
    finish_arguments(&types, &mut errors, &references, &vec![], &vec![], None);
    assert_eq!(
        messages(&errors),
        vec!["reference arguments 'p' and 'p.x' overlap, so parameters 'a' and 'b' cannot both have exclusive access".to_string()]
    );
}
