use std::collections::HashMap;

use snacc_compiler::ast::{Param, ParamMode, Span, TypeName, TypeRef};
use snacc_compiler::moves::Binding;
use snacc_compiler::program::begin_region;
use snacc_compiler::checked::{Error, Failure, Program, TBlock, TMethod, TParam};
use snacc_compiler::completion::{
    attribute_to_specialization, check_borrowed_result, check_outcome, settle_receiver_effects,
    ReceiverCall,
};
use snacc_compiler::ty::{CollectionDef, CollectionId, MethodId, Ty, TypeDef, TypeId, Types};

fn span(start: usize) -> Span {
    Span { start, end: start + 1 }
}

fn messages(errors: &[Error]) -> Vec<String> {
    errors.iter().map(|e| e.msg.clone()).collect()
}

/// Holder { text: View<Byte> }; View<Int64>.
fn fixture() -> Types {
    Types {
        defs: vec![TypeDef::Struct {
            name: "Holder".to_string(),
            fields: vec![("text".to_string(), Ty::ViewByte)],
        }],
        sums: vec![],
        boxes: vec![],
        collections: vec![CollectionDef::View { elem: Ty::Int64 }],
    }
}

fn block() -> TBlock {
    TBlock { statements: vec![], result: None, result_ty: None, cleanup: vec![] }
}

fn method(name: &str) -> TMethod {
    TMethod {
        receiver: TypeId(0),
        name: name.to_string(),
        params: vec![],
        result: None,
        writes_receiver: false,
        body: block(),
    }
}

fn program() -> Program {
    Program {
        funcs: HashMap::new(),
        externs: HashMap::new(),
        types: vec![],
        methods: vec![],
        sums: vec![],
        boxes: vec![],
        collections: vec![],
        body: block(),
    }
}

fn error(at: usize, msg: &str) -> Error {
    Error { span: span(at), msg: msg.to_string() }
}

#[test]
fn borrowed_results_are_rejected_where_written() {
    let types = fixture();
    let mut errors = Vec::new();
    check_borrowed_result(&types, &mut errors, Some(Ty::ViewByte), Some(span(8)), span(1), "a function");
    check_borrowed_result(&types, &mut errors, Some(Ty::User(TypeId(0))), None, span(2), "a method");
    check_borrowed_result(
        &types,
        &mut errors,
        Some(Ty::View(CollectionId(0))),
        Some(span(9)),
        span(3),
        "an associated function",
    );
    check_borrowed_result(&types, &mut errors, Some(Ty::String), Some(span(4)), span(4), "a function");
    check_borrowed_result(&types, &mut errors, None, None, span(5), "a function");
    assert_eq!(
        messages(&errors),
        vec![
            "'View<Byte>' is borrowed and cannot be returned from a function".to_string(),
            "'Holder' is borrowed and cannot be returned from a method".to_string(),
            "'View<Int64>' is borrowed and cannot be returned from an associated function".to_string(),
        ]
    );
    assert_eq!(errors[0].span, span(8));
    assert_eq!(errors[1].span, span(2));
    assert_eq!(errors[2].span, span(9));
}

#[test]
fn diagnostics_inside_a_specialization_name_it() {
    let types = fixture();
    let mut errors = vec![error(1, "before"), error(2, "first"), error(3, "second")];
    let chain = vec!["main".to_string(), "wrap<Int64>".to_string()];
    attribute_to_specialization(
        &types,
        &mut errors,
        1,
        "pair",
        &vec![Ty::Int64, Ty::String],
        Span { start: 10, end: 40 },
        Span { start: 55, end: 60 },
        &chain,
    );
    assert_eq!(
        messages(&errors),
        vec![
            "before".to_string(),
            "first (while specializing pair<Int64, String> declared at 10..40; requested at 55..60; instantiation chain: main -> wrap<Int64>)".to_string(),
            "second (while specializing pair<Int64, String> declared at 10..40; requested at 55..60; instantiation chain: main -> wrap<Int64>)".to_string(),
        ]
    );
    assert_eq!(errors[2].span, span(3));
}

#[test]
fn receiver_effects_settle_methods_and_waiting_calls() {
    let mut errors = Vec::new();
    let mut methods = vec![method("grow"), method("peek")];
    let writes = vec![true, false];
    let names = vec!["Counter.grow".to_string(), "Counter.peek".to_string()];
    let calls = vec![
        ReceiverCall { method: MethodId(0), mutable_root: false, receiver: "c".to_string(), span: span(4) },
        ReceiverCall { method: MethodId(0), mutable_root: true, receiver: "d".to_string(), span: span(5) },
        ReceiverCall { method: MethodId(1), mutable_root: false, receiver: "e".to_string(), span: span(6) },
    ];
    settle_receiver_effects(&mut errors, &mut methods, &writes, calls, &names);
    assert!(methods[0].writes_receiver);
    assert!(!methods[1].writes_receiver);
    assert_eq!(methods[1].name, "peek");
    assert_eq!(
        messages(&errors),
        vec!["'Counter.grow' may assign through 'self', so its receiver requires a mutable root, but 'c' is not mutable"
            .to_string()]
    );
    assert_eq!(errors[0].span, span(4));
}

#[test]
fn the_outcome_is_the_program_only_without_diagnostics() {
    assert!(matches!(check_outcome(None, vec![], program()), Ok(_)));
    match check_outcome(None, vec![error(1, "bad")], program()) {
        Err(Failure::Source(errors)) => assert_eq!(messages(&errors), vec!["bad".to_string()]),
        _ => panic!("diagnostics fail the check"),
    }
    assert!(matches!(
        check_outcome(Some("float literal"), vec![], program()),
        Err(Failure::Unknown("float literal"))
    ));
}

fn param<'a>(name: &'a str, mode: ParamMode, at: usize) -> Param<'a> {
    Param { name, mode, ty: (TypeRef::Builtin(TypeName::Int64), span(at)), span: span(at) }
}

fn tparam(name: &str, ty: Ty, mode: ParamMode) -> TParam {
    TParam { name: name.to_string(), ty, mode }
}

#[test]
fn a_region_binds_its_parameters_and_rejects_repeats() {
    let mut errors = Vec::new();
    let mut declared = vec!["stale"];
    let mut env: Vec<Binding> = Vec::new();
    let args = [
        param("a", ParamMode::Value, 1),
        param("b", ParamMode::Reference, 2),
        param("a", ParamMode::Value, 3),
    ];
    let params = [
        tparam("a", Ty::Int64, ParamMode::Value),
        tparam("b", Ty::String, ParamMode::Reference),
        tparam("a", Ty::Bool, ParamMode::Value),
    ];
    begin_region(&mut errors, &mut declared, &mut env, &args, &params);
    assert_eq!(declared, vec!["a", "b"]);
    assert_eq!(messages(&errors), vec!["Parameter 'a' already exists".to_string()]);
    assert_eq!(errors[0].span, span(3));
    assert_eq!(env.len(), 3);
    assert!(!env[0].mutable && env[0].ty == Ty::Int64);
    assert!(env[1].mutable && env[1].ty == Ty::String && env[1].name == "b");
    assert_eq!(env[2].ty, Ty::Bool);
    assert!(env.iter().all(|b| b.scope == 0 && !b.type_test_alias));
}
