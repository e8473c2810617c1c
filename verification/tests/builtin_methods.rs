use snacc_compiler::ast::{Arg, Expr, Span};
use snacc_compiler::builtins::{
    argument_free_call, builtin_method, concat_call, finish_string_static, invalid_string_call,
    slice_call, string_static, string_static_form, view_at_call, BuiltinMethod, StringStatic,
};
use snacc_compiler::checked::{Error, TExpr, TStringPart};
use snacc_compiler::methods::CheckedCall;
use snacc_compiler::ty::{CollectionDef, CollectionId, SumId, Ty, Types};

fn span(start: usize) -> Span {
    Span { start, end: start + 1 }
}

fn messages(errors: &[Error]) -> Vec<String> {
    errors.iter().map(|e| e.msg.clone()).collect()
}

/// Array<Int64, 3>, List<String>, View<Int64>, Map<String, Int64>, Set<Int64>.
fn fixture() -> Types {
    Types {
        defs: vec![],
        sums: vec![vec![Ty::Nil, Ty::Byte], vec![Ty::Nil, Ty::String]],
        boxes: vec![],
        collections: vec![
            CollectionDef::Array { elem: Ty::Int64, len: 3 },
            CollectionDef::List { elem: Ty::String },
            CollectionDef::View { elem: Ty::Int64 },
            CollectionDef::MapOf { key: Ty::String, value: Ty::Int64 },
            CollectionDef::SetOf { elem: Ty::Int64 },
        ],
    }
}

fn positional<'a>(at: usize) -> Arg<'a> {
    Arg { name: None, value: (Expr::Local("x"), span(at)) }
}

fn named<'a>(name: &'a str, at: usize) -> Arg<'a> {
    Arg { name: Some((name, span(at))), value: (Expr::Local("x"), span(at + 1)) }
}

fn receiver() -> TExpr {
    TExpr::Bool(true)
}

#[test]
fn text_receivers_offer_views_and_lengths() {
    let types = fixture();
    assert_eq!(builtin_method(&types, Ty::String, "bytes", &[]), Some(BuiltinMethod::Bytes));
    assert_eq!(builtin_method(&types, Ty::String, "unicode", &[]), Some(BuiltinMethod::Unicode));
    assert_eq!(builtin_method(&types, Ty::ViewByte, "length", &[]), Some(BuiltinMethod::ViewLength));
    assert_eq!(builtin_method(&types, Ty::ViewUnicode, "length", &[]), Some(BuiltinMethod::ViewLength));
    assert_eq!(builtin_method(&types, Ty::String, "length", &[]), None);
    assert_eq!(builtin_method(&types, Ty::ViewByte, "bytes", &[]), None);
    assert_eq!(builtin_method(&types, Ty::String, "bytes", &[positional(1)]), None);
}

#[test]
fn collections_offer_length_emptiness_capacity_and_views() {
    let types = fixture();
    let array = Ty::Array(CollectionId(0));
    let list = Ty::List(CollectionId(1));
    let view = Ty::View(CollectionId(2));
    let map = Ty::MapOf(CollectionId(3));
    let set = Ty::SetOf(CollectionId(4));
    for ty in [array, list, view, map, set] {
        assert_eq!(builtin_method(&types, ty, "length", &[]), Some(BuiltinMethod::CollectionLength));
        assert_eq!(builtin_method(&types, ty, "is_empty", &[]), Some(BuiltinMethod::IsEmpty));
    }
    assert_eq!(builtin_method(&types, list, "capacity", &[]), Some(BuiltinMethod::Capacity));
    assert_eq!(builtin_method(&types, array, "capacity", &[]), None);
    assert_eq!(
        builtin_method(&types, array, "view", &[]),
        Some(BuiltinMethod::SequenceView { elem: Ty::Int64 })
    );
    assert_eq!(
        builtin_method(&types, list, "view", &[]),
        Some(BuiltinMethod::SequenceView { elem: Ty::String })
    );
    assert_eq!(builtin_method(&types, view, "view", &[]), None);
    assert_eq!(builtin_method(&types, map, "view", &[]), None);
}

#[test]
fn at_and_slices_need_positional_arguments() {
    let types = fixture();
    assert_eq!(builtin_method(&types, Ty::ViewByte, "at", &[positional(1)]), Some(BuiltinMethod::At));
    assert_eq!(
        builtin_method(&types, Ty::ViewUnicode, "scalar_at", &[positional(1)]),
        Some(BuiltinMethod::At)
    );
    assert_eq!(builtin_method(&types, Ty::ViewUnicode, "at", &[positional(1)]), None);
    assert_eq!(builtin_method(&types, Ty::ViewByte, "at", &[named("i", 1)]), None);
    assert_eq!(
        builtin_method(&types, Ty::ViewByte, "slice", &[positional(1), positional(3)]),
        Some(BuiltinMethod::ViewSlice)
    );
    assert_eq!(
        builtin_method(&types, Ty::View(CollectionId(2)), "slice", &[positional(1), positional(3)]),
        Some(BuiltinMethod::CollectionSlice { elem: Ty::Int64 })
    );
    assert_eq!(
        builtin_method(&types, Ty::List(CollectionId(1)), "slice", &[positional(1), positional(3)]),
        Some(BuiltinMethod::CollectionSlice { elem: Ty::String })
    );
    assert_eq!(
        builtin_method(&types, Ty::List(CollectionId(1)), "slice", &[positional(1), named("end", 3)]),
        None
    );
    assert_eq!(builtin_method(&types, Ty::MapOf(CollectionId(3)), "slice", &[positional(1), positional(3)]), None);
}

#[test]
fn clone_and_concat_in_other_forms_are_invalid_string_calls() {
    let types = fixture();
    assert_eq!(builtin_method(&types, Ty::String, "clone", &[]), Some(BuiltinMethod::StringClone));
    assert_eq!(
        builtin_method(&types, Ty::String, "concat", &[positional(1)]),
        Some(BuiltinMethod::StringConcat)
    );
    assert_eq!(
        builtin_method(&types, Ty::String, "clone", &[positional(1)]),
        Some(BuiltinMethod::InvalidStringCall)
    );
    assert_eq!(
        builtin_method(&types, Ty::String, "concat", &[named("part", 1)]),
        Some(BuiltinMethod::InvalidStringCall)
    );
    assert_eq!(
        builtin_method(&types, Ty::List(CollectionId(1)), "clone", &[]),
        Some(BuiltinMethod::InvalidStringCall)
    );
    assert_eq!(builtin_method(&types, Ty::Int64, "clone", &[]), None);
    assert_eq!(builtin_method(&types, Ty::String, "reverse", &[]), None);
}

#[test]
fn argument_free_builtins_build_their_nodes() {
    let call = argument_free_call(BuiltinMethod::Bytes, receiver(), Ty::String, None);
    assert!(matches!(call, CheckedCall::Value(TExpr::ViewFromString(_, Ty::ViewByte), Ty::ViewByte)));
    let call = argument_free_call(BuiltinMethod::ViewLength, receiver(), Ty::ViewUnicode, None);
    assert!(matches!(call, CheckedCall::Value(TExpr::ViewLength(_, Ty::ViewUnicode), Ty::Int64)));
    let call = argument_free_call(BuiltinMethod::IsEmpty, receiver(), Ty::SetOf(CollectionId(4)), None);
    assert!(matches!(call, CheckedCall::Value(TExpr::CollectionIsEmpty(_), Ty::Bool)));
    let call = argument_free_call(BuiltinMethod::Capacity, receiver(), Ty::List(CollectionId(1)), None);
    assert!(matches!(call, CheckedCall::Value(TExpr::CollectionCapacity(_), Ty::Int64)));
    let call = argument_free_call(
        BuiltinMethod::SequenceView { elem: Ty::Int64 },
        receiver(),
        Ty::Array(CollectionId(0)),
        Some(CollectionId(2)),
    );
    assert!(matches!(
        call,
        CheckedCall::Value(TExpr::CollectionView(_, Ty::View(CollectionId(2))), Ty::View(CollectionId(2)))
    ));
    let call = argument_free_call(BuiltinMethod::StringClone, receiver(), Ty::String, None);
    assert!(matches!(call, CheckedCall::Value(TExpr::StringClone(_), Ty::String)));
}

#[test]
fn view_at_requires_an_int64_index() {
    let types = fixture();
    let mut errors = Vec::new();
    let call = view_at_call(&types, &mut errors, receiver(), Ty::ViewByte, TExpr::Bool(false), Ty::Bool, span(4), SumId(0));
    assert_eq!(messages(&errors), vec!["expected 'Int64', found 'Bool'".to_string()]);
    assert_eq!(errors[0].span, span(4));
    assert!(matches!(call, CheckedCall::Value(TExpr::ViewAt(_, _, Ty::ViewByte, SumId(0)), Ty::Sum(SumId(0)))));
    let mut errors = Vec::new();
    view_at_call(&types, &mut errors, receiver(), Ty::ViewByte, TExpr::Bool(false), Ty::Int64, span(4), SumId(0));
    assert!(errors.is_empty());
}

#[test]
fn slices_report_the_start_before_the_end() {
    let types = fixture();
    let mut errors = Vec::new();
    let call = slice_call(
        &types,
        &mut errors,
        BuiltinMethod::CollectionSlice { elem: Ty::Int64 },
        receiver(),
        Ty::Array(CollectionId(0)),
        Ty::View(CollectionId(2)),
        (TExpr::Nil, Ty::String, span(3)),
        (TExpr::Nil, Ty::Bool, span(6)),
        SumId(1),
    );
    assert_eq!(
        messages(&errors),
        vec!["expected 'Int64', found 'String'".to_string(), "expected 'Int64', found 'Bool'".to_string()]
    );
    assert_eq!(errors[0].span, span(3));
    assert_eq!(errors[1].span, span(6));
    assert!(matches!(
        call,
        CheckedCall::Value(
            TExpr::CollectionSlice { view_ty: Ty::View(CollectionId(2)), sum: SumId(1), elem: Ty::Int64, .. },
            Ty::Sum(SumId(1))
        )
    ));
    let mut errors = Vec::new();
    let call = slice_call(
        &types,
        &mut errors,
        BuiltinMethod::ViewSlice,
        receiver(),
        Ty::ViewUnicode,
        Ty::ViewUnicode,
        (TExpr::Nil, Ty::Int64, span(3)),
        (TExpr::Nil, Ty::Int64, span(6)),
        SumId(0),
    );
    assert!(errors.is_empty());
    assert!(matches!(call, CheckedCall::Value(TExpr::ViewSlice { view_ty: Ty::ViewUnicode, .. }, Ty::Sum(SumId(0)))));
}

#[test]
fn concat_extends_an_existing_concatenation() {
    let types = fixture();
    let mut errors = Vec::new();
    let first = concat_call(&types, &mut errors, receiver(), TExpr::Nil, Ty::Int64, span(2));
    assert!(errors.is_empty());
    let CheckedCall::Value(chain, Ty::String) = first else { panic!("concat gives a String") };
    match &chain {
        TExpr::StringConcat(parts) => {
            assert_eq!(parts.len(), 2);
            assert_eq!(parts[0].ty, Ty::String);
            assert!(matches!(parts[0].value, TExpr::Bool(true)));
            assert_eq!(parts[1].ty, Ty::Int64);
        }
        _ => panic!("concat gives a concatenation"),
    }
    let second = concat_call(&types, &mut errors, chain, TExpr::Nil, Ty::ViewUnicode, span(5));
    match second {
        CheckedCall::Value(TExpr::StringConcat(parts), Ty::String) => {
            let tys: Vec<Ty> = parts.iter().map(|p: &TStringPart| p.ty).collect();
            assert_eq!(tys, vec![Ty::String, Ty::Int64, Ty::ViewUnicode]);
        }
        _ => panic!("concat gives a concatenation"),
    }
    assert!(errors.is_empty());
}

#[test]
fn concat_rejects_parts_that_are_not_text_or_scalars() {
    let types = fixture();
    let mut errors = Vec::new();
    concat_call(&types, &mut errors, receiver(), TExpr::Nil, Ty::ViewByte, span(7));
    assert_eq!(
        messages(&errors),
        vec!["String.concat does not accept 'View<Byte>'; expected a text or scalar part".to_string()]
    );
    assert_eq!(errors[0].span, span(7));
}

#[test]
fn invalid_string_calls_are_reported_and_stand_for_strings() {
    let mut errors = Vec::new();
    let call = invalid_string_call(&mut errors, "clone", span(9));
    assert_eq!(messages(&errors), vec!["String.clone called with invalid arguments".to_string()]);
    assert!(matches!(call, CheckedCall::Value(TExpr::Nil, Ty::String)));
}

#[test]
fn string_statics_take_one_positional_view() {
    let mut errors = Vec::new();
    assert!(string_static_form(&mut errors, "from_utf8", &[positional(1)], span(0)).is_none());
    assert!(errors.is_empty());
    let call = string_static_form(&mut errors, "from_utf8", &[positional(1), positional(2)], span(0));
    assert!(matches!(call, Some(CheckedCall::Value(TExpr::Nil, Ty::String))));
    assert_eq!(messages(&errors), vec!["String.from_utf8 expects one positional view argument".to_string()]);
    let mut errors = Vec::new();
    string_static_form(&mut errors, "from_unicode", &[named("view", 1)], span(0));
    assert_eq!(messages(&errors), vec!["String.from_unicode expects one positional view argument".to_string()]);
}

#[test]
fn string_statics_convert_matching_views() {
    let types = fixture();
    assert_eq!(string_static("from_unicode", Ty::ViewUnicode), StringStatic::FromUnicode);
    assert_eq!(string_static("from_utf8", Ty::ViewByte), StringStatic::FromUtf8);
    assert_eq!(string_static("from_utf8", Ty::ViewUnicode), StringStatic::Unsupported);
    let mut errors = Vec::new();
    let call = finish_string_static(&types, &mut errors, "from_utf8", TExpr::Nil, Ty::ViewByte, span(1), Some(SumId(1)));
    assert!(matches!(call, CheckedCall::Value(TExpr::StringFromUtf8(_, SumId(1)), Ty::Sum(SumId(1)))));
    let call = finish_string_static(&types, &mut errors, "from_unicode", TExpr::Nil, Ty::ViewUnicode, span(1), None);
    assert!(matches!(call, CheckedCall::Value(TExpr::StringFromUnicode(_), Ty::String)));
    assert!(errors.is_empty());
    let call = finish_string_static(&types, &mut errors, "from_unicode", TExpr::Nil, Ty::ViewByte, span(1), None);
    assert!(matches!(call, CheckedCall::Value(TExpr::Nil, Ty::String)));
    assert_eq!(
        messages(&errors),
        vec!["String.from_unicode received unsupported argument type 'View<Byte>', expected a matching view"
            .to_string()]
    );
}
