use snacc_compiler::ast::{Expr, PlacePath, PlaceRootName, Span, TypeTest};
use snacc_compiler::checked::{Error, TBlock, TCondition, TExpr, TSumTypeTest, TTypeTest};
use snacc_compiler::moves::Binding;
use snacc_compiler::ast::TypeName;
use snacc_compiler::names::{generic_name, mismatch, operands};
use snacc_compiler::narrowing::{
    bind_type_test, check_sum_type_test, check_type_test, declare, type_test_condition,
};
use snacc_compiler::places::{Place, PlaceRoot};
use snacc_compiler::resolve::{
    analyze_chain, as_place, resolve_place, same_place, static_receiver_type, walk_fields,
    PlaceOutcome, Resolved,
};
use snacc_compiler::ty::{BoxId, CollectionDef, CollectionId, SumId, Ty, TypeDef, TypeId, Types};
use snacc_compiler::views::is_borrowed_type;

fn span(start: usize) -> Span {
    Span { start, end: start + 1 }
}

fn messages(errors: &[Error]) -> Vec<String> {
    errors.iter().map(|e| e.msg.clone()).collect()
}

/// Point { x: Int64, y: Int64 }; union Shape { Circle { r: Float64 }, Nil };
/// Holder { text: View<Byte> } ; Meters is Float64; Node { next: Box<Node> };
/// Wrapper { items: List<View<Byte>> }.
fn fixture() -> Types {
    Types {
        defs: vec![
            TypeDef::Struct {
                name: "Point".to_string(),
                fields: vec![("x".to_string(), Ty::Int64), ("y".to_string(), Ty::Int64)],
            },
            TypeDef::Union { name: "Shape".to_string(), members: vec![TypeId(2), TypeId(3)] },
            TypeDef::UnionMember {
                name: "Circle".to_string(),
                union: TypeId(1),
                tag: 0,
                nil: false,
                fields: vec![("r".to_string(), Ty::Float64)],
            },
            TypeDef::UnionMember {
                name: "Nil".to_string(),
                union: TypeId(1),
                tag: 1,
                nil: true,
                fields: vec![],
            },
            TypeDef::Struct {
                name: "Holder".to_string(),
                fields: vec![("text".to_string(), Ty::ViewByte)],
            },
            TypeDef::Represented { name: "Meters".to_string(), target: Ty::Float64 },
            TypeDef::Struct {
                name: "Node".to_string(),
                fields: vec![("next".to_string(), Ty::Box(BoxId(1)))],
            },
            TypeDef::Struct {
                name: "Wrapper".to_string(),
                fields: vec![("items".to_string(), Ty::List(CollectionId(4)))],
            },
        ],
        sums: vec![vec![Ty::Nil, Ty::Int64], vec![Ty::Int64, Ty::String]],
        boxes: vec![Ty::User(TypeId(0)), Ty::User(TypeId(6))],
        collections: vec![
            CollectionDef::List { elem: Ty::Int64 },
            CollectionDef::MapOf { key: Ty::String, value: Ty::User(TypeId(0)) },
            CollectionDef::SetOf { elem: Ty::String },
            CollectionDef::Array { elem: Ty::Int64, len: 3 },
            CollectionDef::List { elem: Ty::ViewByte },
            CollectionDef::View { elem: Ty::Int64 },
        ],
    }
}

fn whole(name: &str, ty: Ty) -> Place {
    Place { root: PlaceRoot::Local(name.to_string()), root_ty: ty, path: vec![], ty }
}

fn binding<'a>(name: &'a str, ty: Ty, mutable: bool) -> Binding<'a> {
    Binding { name, ty, mutable, scope: 0, type_test_alias: false }
}

fn test_of<'a>(place: &'a str, member: Vec<&'a str>, bind: Option<&'a str>) -> TypeTest<'a> {
    TypeTest {
        place: PlacePath {
            root: PlaceRootName::Name(place),
            root_span: span(0),
            fields: vec![],
            span: span(0),
        },
        member: member.into_iter().enumerate().map(|(i, m)| (m, span(10 + i))).collect(),
        member_span: span(9),
        binding: bind.map(|b| (b, span(20))),
        span: span(0),
    }
}

#[test]
fn display_spells_types_as_written() {
    let types = fixture();
    assert_eq!(types.display(Ty::Int64), "Int64");
    assert_eq!(types.display(Ty::ViewByte), "View<Byte>");
    assert_eq!(types.display(Ty::User(TypeId(0))), "Point");
    assert_eq!(types.display(Ty::User(TypeId(2))), "Shape.Circle");
    assert_eq!(types.display(Ty::Sum(SumId(0))), "Nil | Int64");
    assert_eq!(types.display(Ty::Box(BoxId(0))), "Box<Point>");
    assert_eq!(types.display(Ty::List(CollectionId(0))), "List<Int64>");
    assert_eq!(types.display(Ty::MapOf(CollectionId(1))), "Map<String, Point>");
    assert_eq!(types.display(Ty::SetOf(CollectionId(2))), "Set<String>");
    assert_eq!(types.display(Ty::Array(CollectionId(3))), "Array<Int64, 3>");
    assert_eq!(types.display(Ty::View(CollectionId(5))), "View<Int64>");
}

#[test]
fn mismatch_names_expected_then_found() {
    let types = fixture();
    assert_eq!(mismatch(&types, Ty::Int64, Ty::String), "expected 'Int64', found 'String'");
    assert_eq!(
        mismatch(&types, Ty::Sum(SumId(0)), Ty::User(TypeId(0))),
        "expected 'Nil | Int64', found 'Point'"
    );
}

#[test]
fn walk_fields_follows_struct_fields_through_boxes() {
    let types = fixture();
    let methods: Vec<(TypeId, String)> = vec![(TypeId(0), "norm".to_string())];
    let mut errors = Vec::new();
    let r = walk_fields(&types, &methods, &mut errors, Ty::Box(BoxId(0)), &[("y", span(3))]);
    assert_eq!(r, Some((vec![1], Ty::Int64)));
    assert!(errors.is_empty());
}

#[test]
fn walk_fields_reports_the_first_failing_selector() {
    let types = fixture();
    let methods: Vec<(TypeId, String)> = vec![(TypeId(0), "norm".to_string())];
    let mut errors = Vec::new();
    let r = walk_fields(&types, &methods, &mut errors, Ty::User(TypeId(0)), &[("z", span(3))]);
    assert_eq!(r, None);
    assert_eq!(messages(&errors), vec!["'Point' has no field 'z'".to_string()]);
    assert_eq!(errors[0].span, span(3));

    let mut errors = Vec::new();
    let r = walk_fields(&types, &methods, &mut errors, Ty::User(TypeId(0)), &[("norm", span(4))]);
    assert_eq!(r, None);
    assert_eq!(
        messages(&errors),
        vec!["'Point.norm' is a method; a method requires a receiver call".to_string()]
    );

    let mut errors = Vec::new();
    let r = walk_fields(&types, &methods, &mut errors, Ty::Int64, &[("x", span(5))]);
    assert_eq!(r, None);
    assert_eq!(messages(&errors), vec!["'Int64' is not a struct, so it has no field 'x'".to_string()]);

    let mut errors = Vec::new();
    let r = walk_fields(&types, &methods, &mut errors, Ty::User(TypeId(1)), &[("r", span(6))]);
    assert_eq!(r, None);
    assert_eq!(messages(&errors), vec!["'Shape' is not a struct, so it has no field 'r'".to_string()]);
}

#[test]
fn resolve_place_reports_unknown_roots() {
    let types = fixture();
    let methods: Vec<(TypeId, String)> = vec![];
    let env = vec![binding("p", Ty::User(TypeId(0)), true)];
    let path = PlacePath {
        root: PlaceRootName::Name("q"),
        root_span: span(1),
        fields: vec![],
        span: span(1),
    };
    let mut errors = Vec::new();
    assert!(resolve_place(&types, &methods, &env, None, &mut errors, &path).is_none());
    assert_eq!(messages(&errors), vec!["No such variable 'q' in scope".to_string()]);

    let path = PlacePath { root: PlaceRootName::SelfRef, root_span: span(2), fields: vec![], span: span(2) };
    let mut errors = Vec::new();
    assert!(resolve_place(&types, &methods, &env, None, &mut errors, &path).is_none());
    assert_eq!(messages(&errors), vec!["'self' is only valid inside a method body".to_string()]);
}

#[test]
fn resolve_place_selects_fields_of_a_binding() {
    let types = fixture();
    let methods: Vec<(TypeId, String)> = vec![];
    let env = vec![binding("p", Ty::User(TypeId(0)), true)];
    let path = PlacePath {
        root: PlaceRootName::Name("p"),
        root_span: span(1),
        fields: vec![("x", span(3))],
        span: span(1),
    };
    let mut errors = Vec::new();
    let resolved = resolve_place(&types, &methods, &env, None, &mut errors, &path).unwrap();
    assert!(errors.is_empty());
    assert!(resolved.mutable);
    assert_eq!(resolved.place.path, vec![0]);
    assert_eq!(resolved.place.ty, Ty::Int64);
    assert_eq!(resolved.place.root_ty, Ty::User(TypeId(0)));
}

#[test]
fn as_place_flattens_member_chains() {
    let types = fixture();
    let methods: Vec<(TypeId, String)> = vec![];
    let env = vec![binding("p", Ty::User(TypeId(0)), false)];
    let expr = (
        Expr::Member(Box::new((Expr::Local("p"), span(0))), ("y", span(2))),
        span(0),
    );
    let mut errors = Vec::new();
    match as_place(&types, &methods, &env, None, &mut errors, &expr) {
        PlaceOutcome::Resolved(r) => {
            assert!(!r.mutable);
            assert_eq!(r.place.path, vec![1]);
            assert_eq!(r.place.ty, Ty::Int64);
        }
        other => panic!("expected a place, found {:?}", other),
    }
    let literal = (Expr::Local("missing"), span(0));
    assert!(matches!(
        as_place(&types, &methods, &env, None, &mut errors, &literal),
        PlaceOutcome::NotAPlace
    ));
    assert!(errors.is_empty());
}

#[test]
fn same_place_compares_roots_paths_and_types() {
    let a = whole("p", Ty::Int64);
    let b = whole("p", Ty::Int64);
    let c = whole("q", Ty::Int64);
    assert!(same_place(&a, &b));
    assert!(!same_place(&a, &c));
}

#[test]
fn declare_rejects_a_second_binding_of_a_name() {
    let mut declared: Vec<&str> = vec!["a"];
    let mut errors = Vec::new();
    declare(&mut declared, &mut errors, "b", span(1), "Binding");
    assert_eq!(declared, vec!["a", "b"]);
    assert!(errors.is_empty());
    declare(&mut declared, &mut errors, "a", span(2), "Binding");
    assert_eq!(declared, vec!["a", "b"]);
    assert_eq!(messages(&errors), vec!["Binding 'a' already exists".to_string()]);
}

#[test]
fn union_type_test_binds_a_payload() {
    let types = fixture();
    let mut declared: Vec<&str> = vec![];
    let mut errors = Vec::new();
    let test = test_of("s", vec!["Circle"], Some("c"));
    let checked: TTypeTest = check_type_test(
        &types,
        &mut declared,
        &mut errors,
        &test,
        whole("s", Ty::User(TypeId(1))),
        TypeId(1),
    )
    .unwrap();
    assert!(errors.is_empty());
    assert_eq!(checked.member, TypeId(2));
    assert_eq!(checked.tag, 0);
    assert_eq!(checked.binding, Some(("c".to_string(), Ty::User(TypeId(2)))));
    assert_eq!(declared, vec!["c"]);
}

#[test]
fn union_type_test_diagnostics() {
    let types = fixture();
    let union = Ty::User(TypeId(1));

    let mut declared: Vec<&str> = vec![];
    let mut errors = Vec::new();
    let test = test_of("s", vec!["Nil"], Some("n"));
    let checked = check_type_test(&types, &mut declared, &mut errors, &test, whole("s", union), TypeId(1));
    assert_eq!(checked.unwrap().binding, None);
    assert_eq!(
        messages(&errors),
        vec!["'Nil' carries no value, so it cannot be bound by a type test".to_string()]
    );

    let mut errors = Vec::new();
    let test = test_of("s", vec!["Shape"], None);
    assert!(check_type_test(&types, &mut declared, &mut errors, &test, whole("s", union), TypeId(1)).is_none());
    assert_eq!(
        messages(&errors),
        vec!["'s' already has type 'Shape', so this test is always true".to_string()]
    );

    let mut errors = Vec::new();
    let test = test_of("s", vec!["Point"], None);
    assert!(check_type_test(&types, &mut declared, &mut errors, &test, whole("s", union), TypeId(1)).is_none());
    assert_eq!(messages(&errors), vec!["'Point' is not a direct member of 'Shape'".to_string()]);

    let mut errors = Vec::new();
    let test = test_of("s", vec!["Shape", "Square"], None);
    assert!(check_type_test(&types, &mut declared, &mut errors, &test, whole("s", union), TypeId(1)).is_none());
    assert_eq!(messages(&errors), vec!["'Shape' has no member type 'Square'".to_string()]);

    let mut errors = Vec::new();
    let test = test_of("s", vec!["Shape", "Circle"], None);
    let checked = check_type_test(&types, &mut declared, &mut errors, &test, whole("s", union), TypeId(1));
    assert_eq!(checked.unwrap().member, TypeId(2));
    assert!(errors.is_empty());

    let mut errors = Vec::new();
    let test = test_of("s", vec!["A", "B", "C"], None);
    assert!(check_type_test(&types, &mut declared, &mut errors, &test, whole("s", union), TypeId(1)).is_none());
    assert_eq!(
        messages(&errors),
        vec!["a tested member name has at most two components".to_string()]
    );
}

#[test]
fn sum_type_test_resolves_builtin_members() {
    let types = fixture();
    let sum = Ty::Sum(SumId(0));
    let mut declared: Vec<&str> = vec![];
    let mut errors = Vec::new();
    let test = test_of("v", vec!["Int64"], Some("n"));
    let checked: TSumTypeTest =
        check_sum_type_test(&types, &mut declared, &mut errors, &test, whole("v", sum), SumId(0)).unwrap();
    assert!(errors.is_empty());
    assert_eq!(checked.member, Ty::Int64);
    assert_eq!(checked.binding, Some(("n".to_string(), Ty::Int64)));

    let mut errors = Vec::new();
    let test = test_of("v", vec!["String"], None);
    assert!(check_sum_type_test(&types, &mut declared, &mut errors, &test, whole("v", sum), SumId(0)).is_none());
    assert_eq!(messages(&errors), vec!["'String' is not a direct member of 'Nil | Int64'".to_string()]);

    let mut errors = Vec::new();
    let test = test_of("v", vec!["Nil"], Some("z"));
    let checked =
        check_sum_type_test(&types, &mut declared, &mut errors, &test, whole("v", sum), SumId(0)).unwrap();
    assert_eq!(checked.member, Ty::Nil);
    assert_eq!(checked.binding, None);
    assert_eq!(
        messages(&errors),
        vec!["'Nil' carries no value, so it cannot be bound by a type test".to_string()]
    );
}

fn arm(test: TCondition) -> (TCondition, TBlock) {
    (test, TBlock { statements: vec![], result: None, result_ty: None, cleanup: vec![] })
}

fn sum_test(member: Ty) -> TCondition {
    TCondition::SumTest(TSumTypeTest { place: whole("v", Ty::Sum(SumId(0))), sum: SumId(0), member, binding: None })
}

#[test]
fn chain_over_every_member_is_exhaustive() {
    let types = fixture();
    let mut errors = Vec::new();
    let arms = vec![arm(sum_test(Ty::Nil)), arm(sum_test(Ty::Int64))];
    let fact = analyze_chain(&types, &mut errors, &arms, &[span(1), span(2)]);
    assert!(fact.exhaustive);
    assert!(fact.missing.is_empty());
    assert!(errors.is_empty());
}

#[test]
fn chain_reports_duplicates_and_missing_members() {
    let types = fixture();
    let mut errors = Vec::new();
    let arms = vec![arm(sum_test(Ty::Int64)), arm(sum_test(Ty::Int64))];
    let fact = analyze_chain(&types, &mut errors, &arms, &[span(1), span(2)]);
    assert!(!fact.exhaustive);
    assert_eq!(fact.missing, vec!["Nil".to_string()]);
    assert_eq!(
        messages(&errors),
        vec!["'Int64' is already handled by an earlier branch, so this branch is unreachable".to_string()]
    );
    assert_eq!(errors[0].span, span(2));
}

#[test]
fn borrowed_types_hold_a_view_however_deeply() {
    let types = fixture();
    assert!(is_borrowed_type(&types, Ty::ViewByte));
    assert!(is_borrowed_type(&types, Ty::View(CollectionId(5))));
    assert!(is_borrowed_type(&types, Ty::User(TypeId(4))));
    assert!(is_borrowed_type(&types, Ty::User(TypeId(7))));
    assert!(is_borrowed_type(&types, Ty::List(CollectionId(4))));
    assert!(!is_borrowed_type(&types, Ty::User(TypeId(0))));
    assert!(!is_borrowed_type(&types, Ty::Box(BoxId(0))));
    assert!(!is_borrowed_type(&types, Ty::MapOf(CollectionId(1))));
    assert!(!is_borrowed_type(&types, Ty::User(TypeId(1))));
    assert!(!is_borrowed_type(&types, Ty::User(TypeId(5))));
    assert!(!is_borrowed_type(&types, Ty::Sum(SumId(1))));
}

#[test]
fn borrowed_type_walk_ends_on_recursive_types() {
    let types = fixture();
    assert!(!is_borrowed_type(&types, Ty::User(TypeId(6))));
    assert!(!is_borrowed_type(&types, Ty::Box(BoxId(1))));
}

#[test]
fn operand_pairs_name_both_types() {
    let types = fixture();
    assert_eq!(
        operands(&types, "arithmetic", Ty::Int64, Ty::Float64),
        "arithmetic operands must be two numbers of the same type, found 'Int64' and 'Float64'"
    );
}

#[test]
fn generic_names_encode_argument_names_in_hex() {
    let types = fixture();
    assert_eq!(generic_name(&types, "identity", &[Ty::Int64]), "$snacc$generic$identity$496e743634");
    assert_eq!(
        generic_name(&types, "pair", &[Ty::Bool, Ty::User(TypeId(0))]),
        "$snacc$generic$pair$426f6f6c$506f696e74"
    );
    assert_eq!(generic_name(&types, "empty", &[]), "$snacc$generic$empty$");
}

#[test]
fn generic_names_differ_when_arguments_display_differently() {
    let types = fixture();
    let pairs = [
        (vec![Ty::Int64, Ty::Bool], vec![Ty::Bool, Ty::Int64]),
        (vec![Ty::Int64], vec![Ty::String]),
        (vec![Ty::User(TypeId(0)), Ty::Int64], vec![Ty::User(TypeId(1)), Ty::Int64]),
    ];
    for (left, right) in pairs.iter() {
        assert_ne!(generic_name(&types, "pair", left), generic_name(&types, "pair", right));
    }
    assert_eq!(
        generic_name(&types, "pair", &[Ty::Int64, Ty::Bool]),
        generic_name(&types, "pair", &[Ty::Int64, Ty::Bool])
    );
}

#[test]
fn static_receivers_are_types_not_shadowed_by_bindings() {
    let types = fixture();
    let env = vec![binding("Point", Ty::Int64, false)];
    let builtin = (Expr::BuiltinType(TypeName::String), span(0));
    assert_eq!(static_receiver_type(&types, &env, &builtin), Some(Ty::String));
    let shape = (Expr::Local("Shape"), span(0));
    assert_eq!(static_receiver_type(&types, &env, &shape), Some(Ty::User(TypeId(1))));
    let shadowed = (Expr::Local("Point"), span(0));
    assert_eq!(static_receiver_type(&types, &env, &shadowed), None);
    let member = (Expr::Member(Box::new((Expr::Local("Shape"), span(0))), ("Circle", span(6))), span(0));
    assert_eq!(static_receiver_type(&types, &env, &member), Some(Ty::User(TypeId(2))));
    let unknown = (Expr::Member(Box::new((Expr::Local("Shape"), span(0))), ("Square", span(6))), span(0));
    assert_eq!(static_receiver_type(&types, &env, &unknown), None);
}

#[test]
fn type_test_bindings_alias_the_tested_payload() {
    let mut env: Vec<Binding> = vec![];
    bind_type_test(&mut env, Some(("c", span(1))), &Some(("c".to_string(), Ty::User(TypeId(2)))), true, 2);
    assert_eq!(env.len(), 1);
    assert_eq!(env[0].name, "c");
    assert_eq!(env[0].ty, Ty::User(TypeId(2)));
    assert!(env[0].mutable);
    assert_eq!(env[0].scope, 2);
    assert!(env[0].type_test_alias);
    bind_type_test(&mut env, None, &Some(("c".to_string(), Ty::Int64)), true, 2);
    bind_type_test(&mut env, Some(("n", span(1))), &None, true, 2);
    assert_eq!(env.len(), 1);
}

#[test]
fn type_test_conditions_bind_through_boxes() {
    let mut types = fixture();
    types.boxes.push(Ty::User(TypeId(1)));
    let boxed = Ty::Box(BoxId(2));
    let mut declared: Vec<&str> = vec![];
    let mut errors = Vec::new();
    let mut env: Vec<Binding> = vec![];
    let test = test_of("s", vec!["Circle"], Some("c"));
    let resolved = Resolved { place: whole("s", boxed), mutable: true };
    let condition = type_test_condition(&types, &mut declared, &mut errors, &mut env, &test, resolved, 4);
    match condition {
        TCondition::Test(t) => {
            assert_eq!(t.member, TypeId(2));
            assert_eq!(t.place.ty, Ty::User(TypeId(1)));
            assert_eq!(t.place.root_ty, boxed);
        }
        other => panic!("unexpected {:?}", other),
    }
    assert!(errors.is_empty());
    assert_eq!(env.len(), 1);
    assert!(env[0].mutable && env[0].type_test_alias);
    assert_eq!(env[0].scope, 4);

    let test = test_of("n", vec!["Int64"], None);
    let resolved = Resolved { place: whole("n", Ty::Int64), mutable: false };
    let condition = type_test_condition(&types, &mut declared, &mut errors, &mut env, &test, resolved, 4);
    assert!(matches!(condition, TCondition::Expr(TExpr::Bool(false))));
    assert_eq!(
        messages(&errors),
        vec!["the left side of 'is' must have a union type or an inline sum type, but 'n' has type 'Int64'".to_string()]
    );
}

#[test]
fn bare_type_text_spells_builtins_and_indexes_the_rest() {
    assert_eq!(Ty::Int64.text(), "Int64");
    assert_eq!(Ty::ViewByte.text(), "View<Byte>");
    assert_eq!(Ty::List(CollectionId(3)).text(), "List<...>");
    assert_eq!(Ty::MapOf(CollectionId(0)).text(), "Map<...>");
    assert_eq!(Ty::User(TypeId(7)).text(), "<user type #7>");
    assert_eq!(Ty::Sum(SumId(12)).text(), "<sum #12>");
    assert_eq!(Ty::Box(BoxId(0)).text(), "<box #0>");
}
