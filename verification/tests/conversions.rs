use snacc_compiler::ast::TypeName;
use snacc_compiler::checked::{Error, TExpr};
use snacc_compiler::ast::{NumLiteral, Span};
use snacc_compiler::convert::{
    coerce, coerce_bridge_view, coerce_return_success, coercion, common_numeric,
    exact_match_numeric, implicit_conversion_target, lend_call_view, nil_union, numeric,
    operand_numeric, Coercion,
};
use snacc_compiler::places::{Place, PlaceRoot, UseMode};
use snacc_compiler::ty::{CollectionDef, CollectionId, SumId, Ty, TypeDef, TypeId, Types};

fn fixture() -> Types {
    Types {
        defs: vec![
            TypeDef::Struct {
                name: "Point".to_string(),
                fields: vec![("x".to_string(), Ty::Int64), ("y".to_string(), Ty::Int64)],
            },
            TypeDef::Union { name: "Shape".to_string(), members: vec![TypeId(2), TypeId(3)] },
            TypeDef::UnionMember {
                name: "Circle".to_string(),
                union: TypeId(1),
                tag: 0,
                nil: false,
                fields: vec![("r".to_string(), Ty::Float64)],
            },
            TypeDef::UnionMember {
                name: "Nil".to_string(),
                union: TypeId(1),
                tag: 1,
                nil: true,
                fields: vec![],
            },
        ],
        sums: vec![vec![Ty::Nil, Ty::Int64], vec![Ty::Float64, Ty::Bool]],
        boxes: vec![Ty::User(TypeId(0))],
        collections: vec![
            CollectionDef::List { elem: Ty::Byte },
            CollectionDef::View { elem: Ty::Byte },
            CollectionDef::Array { elem: Ty::Byte, len: 4 },
        ],
    }
}

fn local_place(name: &str, ty: Ty) -> Place {
    Place { root: PlaceRoot::Local(name.to_string()), root_ty: ty, path: vec![], ty }
}

#[test]
fn numeric_pairs_follow_the_single_widening_rule() {
    assert!(numeric(Ty::Int64));
    assert!(numeric(Ty::Float64));
    assert!(!numeric(Ty::Byte));
    assert!(exact_match_numeric(Ty::UInt32));
    assert!(!exact_match_numeric(Ty::Int64));
    assert_eq!(common_numeric(Ty::Int64, Ty::Int64), Some(Ty::Int64));
    assert_eq!(common_numeric(Ty::Int64, Ty::Float64), Some(Ty::Float64));
    assert_eq!(common_numeric(Ty::Byte, Ty::Int64), None);
    assert_eq!(operand_numeric(Ty::Byte, Ty::Byte), Some(Ty::Byte));
    assert_eq!(operand_numeric(Ty::Byte, Ty::UInt16), None);
    assert_eq!(operand_numeric(Ty::Bool, Ty::Bool), None);
}

#[test]
fn operand_numeric_is_symmetric_on_examples() {
    let tys = [Ty::Int64, Ty::Float64, Ty::Byte, Ty::UInt16, Ty::Float32, Ty::Bool];
    for a in tys {
        for b in tys {
            assert_eq!(operand_numeric(a, b), operand_numeric(b, a));
        }
    }
}

#[test]
fn only_int64_widens_implicitly() {
    assert!(implicit_conversion_target(Ty::Int64, Ty::Float64));
    assert!(!implicit_conversion_target(Ty::Float64, Ty::Int64));
    assert!(!implicit_conversion_target(Ty::Byte, Ty::Int64));
}

#[test]
fn coercion_rules_in_order() {
    let types = fixture();
    assert_eq!(coercion(&types, Ty::Int64, Ty::Int64, false), Coercion::Same);
    assert_eq!(coercion(&types, Ty::String, Ty::ViewByte, true), Coercion::LendStringView);
    assert_eq!(coercion(&types, Ty::String, Ty::ViewUnicode, false), Coercion::TemporaryStringView);
    assert_eq!(coercion(&types, Ty::Int64, Ty::Float64, false), Coercion::WidenToFloat);
    assert_eq!(
        coercion(&types, Ty::User(TypeId(2)), Ty::User(TypeId(1)), false),
        Coercion::InjectMember { member: TypeId(2), into_union: TypeId(1) }
    );
    assert_eq!(
        coercion(&types, Ty::Nil, Ty::User(TypeId(1)), false),
        Coercion::InjectNil { member: TypeId(3), into_union: TypeId(1) }
    );
    assert_eq!(
        coercion(&types, Ty::Int64, Ty::Sum(SumId(0)), false),
        Coercion::InjectSum { sum: SumId(0), member: Ty::Int64 }
    );
    assert_eq!(
        coercion(&types, Ty::Int64, Ty::Sum(SumId(1)), false),
        Coercion::ConvertIntoSum { sum: SumId(1), member: Ty::Float64 }
    );
    assert_eq!(coercion(&types, Ty::Bool, Ty::Int64, false), Coercion::Mismatch);
    assert_eq!(coercion(&types, Ty::String, Ty::Sum(SumId(0)), true), Coercion::Mismatch);
    assert_eq!(coercion(&types, Ty::Nil, Ty::User(TypeId(0)), false), Coercion::Mismatch);
}

#[test]
fn coercion_is_reflexive_for_every_kind() {
    let types = fixture();
    for ty in [Ty::Bool, Ty::User(TypeId(1)), Ty::Sum(SumId(0)), Ty::List(CollectionId(0))] {
        assert_eq!(coercion(&types, ty, ty, false), Coercion::Same);
        assert_eq!(coercion(&types, ty, ty, true), Coercion::Same);
    }
}

#[test]
fn builtin_type_names_map_to_their_types() {
    assert_eq!(Ty::from(TypeName::UInt16), Ty::UInt16);
    assert_eq!(Ty::from(TypeName::Nil), Ty::Nil);
    assert_eq!(TypeName::Float32.name(), "Float32");
}

#[test]
fn nil_comparisons_take_the_aggregate_holding_nil() {
    let types = fixture();
    assert_eq!(nil_union(&types, Ty::User(TypeId(1)), Ty::Nil), Some(Ty::User(TypeId(1))));
    assert_eq!(nil_union(&types, Ty::Nil, Ty::Sum(SumId(0))), Some(Ty::Sum(SumId(0))));
    assert_eq!(nil_union(&types, Ty::Sum(SumId(1)), Ty::Nil), None);
    assert_eq!(nil_union(&types, Ty::User(TypeId(0)), Ty::Nil), None);
    assert_eq!(nil_union(&types, Ty::Int64, Ty::Int64), None);
}

#[test]
fn call_views_are_lent_from_places_only() {
    let types = fixture();
    let text = TExpr::Place(local_place("s", Ty::String), UseMode::Copy);
    match lend_call_view(&types, &text, Ty::String, Ty::ViewByte) {
        Some((TExpr::ViewFromString(inner, ty), place)) => {
            assert_eq!(ty, Ty::ViewByte);
            assert!(matches!(*inner, TExpr::Place(_, UseMode::Copy)));
            assert!(matches!(place.root, PlaceRoot::Local(ref n) if n == "s"));
        }
        other => panic!("unexpected lending: {:?}", other),
    }
    let list = TExpr::Place(local_place("xs", Ty::List(CollectionId(0))), UseMode::Consume);
    assert!(matches!(
        lend_call_view(&types, &list, Ty::List(CollectionId(0)), Ty::View(CollectionId(1))),
        Some((TExpr::CollectionView(_, Ty::View(CollectionId(1))), _))
    ));
    assert!(matches!(
        lend_call_view(&types, &list, Ty::List(CollectionId(0)), Ty::ViewByte),
        Some((TExpr::CollectionView(_, Ty::ViewByte), _))
    ));
    let array = TExpr::Place(local_place("a", Ty::Array(CollectionId(2))), UseMode::Copy);
    assert!(lend_call_view(&types, &array, Ty::Array(CollectionId(2)), Ty::ViewUnicode).is_none());
    let temporary = TExpr::StringLiteral("x".to_string());
    assert!(lend_call_view(&types, &temporary, Ty::String, Ty::ViewByte).is_none());
}

fn at(start: usize) -> Span {
    Span { start, end: start + 2 }
}

fn texts(errors: &[Error]) -> Vec<String> {
    errors.iter().map(|e| e.msg.clone()).collect()
}

#[test]
fn coerce_widens_lends_injects_and_reports() {
    let types = fixture();
    let mut errors = Vec::new();
    let widened = coerce(&types, &mut errors, TExpr::Num(NumLiteral::Int(3)), Ty::Int64, Ty::Float64, at(0));
    assert!(matches!(widened, TExpr::Cast(_, Ty::Float64)));

    let lent = coerce(
        &types,
        &mut errors,
        TExpr::Place(local_place("s", Ty::String), UseMode::Consume),
        Ty::String,
        Ty::ViewByte,
        at(2),
    );
    match lent {
        TExpr::ViewFromString(inner, Ty::ViewByte) => {
            assert!(matches!(*inner, TExpr::Place(_, UseMode::Copy)))
        }
        other => panic!("unexpected {:?}", other),
    }

    let injected = coerce(&types, &mut errors, TExpr::Nil, Ty::Nil, Ty::User(TypeId(1)), at(4));
    match injected {
        TExpr::Inject { member, into_union, value } => {
            assert_eq!(member, TypeId(3));
            assert_eq!(into_union, TypeId(1));
            assert!(matches!(*value, TExpr::Construct { type_id: TypeId(3), .. }));
        }
        other => panic!("unexpected {:?}", other),
    }

    let into_sum = coerce(&types, &mut errors, TExpr::Num(NumLiteral::Int(1)), Ty::Int64, Ty::Sum(SumId(0)), at(6));
    assert!(matches!(into_sum, TExpr::InjectSum { sum: SumId(0), member: Ty::Int64, .. }));
    assert!(errors.is_empty());

    let kept = coerce(&types, &mut errors, TExpr::Bool(true), Ty::Bool, Ty::Int64, at(8));
    assert!(matches!(kept, TExpr::Bool(true)));
    assert_eq!(texts(&errors), vec!["expected 'Int64', found 'Bool'".to_string()]);
    assert_eq!(errors[0].span, at(8));
}

#[test]
fn coerce_converts_an_integer_into_a_float_sum() {
    let types = fixture();
    let mut errors = Vec::new();
    let r = coerce(&types, &mut errors, TExpr::Num(NumLiteral::Int(1)), Ty::Int64, Ty::Sum(SumId(1)), at(0));
    match r {
        TExpr::InjectSum { sum, member, value } => {
            assert_eq!(sum, SumId(1));
            assert_eq!(member, Ty::Float64);
            assert!(matches!(*value, TExpr::Cast(_, Ty::Float64)));
        }
        other => panic!("unexpected {:?}", other),
    }
    assert!(errors.is_empty());
}

#[test]
fn coerce_rejects_temporary_string_views() {
    let types = fixture();
    let mut errors = Vec::new();
    let r = coerce(&types, &mut errors, TExpr::StringLiteral("t".to_string()), Ty::String, Ty::ViewByte, at(0));
    assert!(matches!(r, TExpr::Nil));
    assert_eq!(
        texts(&errors),
        vec!["a view can only be lent from a named String place; a temporary String would not live long enough".to_string()]
    );
}

#[test]
fn returned_success_sums_are_lifted_when_included() {
    let mut types = fixture();
    types.sums.push(vec![Ty::Nil, Ty::Int64, Ty::Bool]);
    let mut errors = Vec::new();
    let r = coerce_return_success(&types, &mut errors, TExpr::Nil, Ty::Sum(SumId(0)), Ty::Sum(SumId(2)), at(0));
    assert!(matches!(r, TExpr::LiftSum { from: SumId(0), to: SumId(2), .. }));
    assert!(errors.is_empty());

    let r = coerce_return_success(&types, &mut errors, TExpr::Nil, Ty::Sum(SumId(2)), Ty::Sum(SumId(0)), at(3));
    assert!(matches!(r, TExpr::Nil));
    assert_eq!(texts(&errors), vec!["expected 'Nil | Int64', found 'Nil | Int64 | Bool'".to_string()]);
}

#[test]
fn bridge_views_accept_either_spelling_of_a_byte_view() {
    let types = fixture();
    let mut errors = Vec::new();
    let r = coerce_bridge_view(&types, &mut errors, TExpr::Bool(false), Ty::View(CollectionId(1)), Ty::ViewByte, at(0));
    assert!(matches!(r, TExpr::Bool(false)));
    let r = coerce_bridge_view(&types, &mut errors, TExpr::Bool(false), Ty::ViewByte, Ty::View(CollectionId(1)), at(0));
    assert!(matches!(r, TExpr::Bool(false)));
    assert!(errors.is_empty());
    coerce_bridge_view(&types, &mut errors, TExpr::Bool(false), Ty::ViewUnicode, Ty::ViewByte, at(5));
    assert_eq!(texts(&errors), vec!["expected 'View<Byte>', found 'View<Unicode>'".to_string()]);
}
