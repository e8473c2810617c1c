//! The capability pass over generic function bodies: an unconstrained type
//! parameter supports no operation, so every operation applied to a value
//! whose type mentions one is reported.
use vstd::prelude::*;
use crate::ast::{
    Arg, BinaryOp, Block, BlockElement, Condition, Expr, Func, Param, PlaceRootName, Span, Spanned,
    StringPart, TypeName, TypeRef,
};
use crate::checked::Error;
use crate::text::{concat_str, decimal, decimal_string, str_eq};
use crate::ty::{TypeDef, TypeId, Types};

verus! {

/// Whether `names` holds `name`.
pub open spec fn names_contain(names: Seq<&str>, name: Seq<char>) -> bool {
    exists|i: int| 0 <= i < names.len() && (#[trigger] names[i])@ == name
}

fn contains_name(names: &Vec<&str>, name: &str) -> (r: bool)
    ensures
        r == names_contain(names@, name@),
{
    let mut i: usize = 0;
    while i < names.len()
        invariant
            i <= names@.len(),
            forall|j: int| 0 <= j < i ==> (#[trigger] names@[j])@ != name@,
        decreases names.len() - i,
    {
        if str_eq(names[i], name) {
            assert(names@[i as int]@ == name@);
            return true;
        }
        i = i + 1;
    }
    false
}

/// Whether a written type is exactly one of the type parameters.
pub open spec fn spec_type_ref_is_param(ty: TypeRef, params: Seq<&str>) -> bool {
    match ty {
        TypeRef::Named(segments) => segments@.len() == 1 && names_contain(params, segments@[0].0@),
        _ => false,
    }
}

pub fn type_ref_is_param(ty: &TypeRef, params: &Vec<&str>) -> (r: bool)
    ensures
        r == spec_type_ref_is_param(*ty, params@),
{
    match ty {
        TypeRef::Named(segments) => segments.len() == 1 && contains_name(params, segments[0].0),
        _ => false,
    }
}

/// Whether a written type mentions a type parameter anywhere.
pub open spec fn spec_type_ref_mentions_param(ty: TypeRef, params: Seq<&str>) -> bool
    decreases ty,
{
    match ty {
        TypeRef::Named(segments) => segments@.len() == 1 && names_contain(params, segments@[0].0@),
        TypeRef::Apply { args, .. } => exists|i: int|
            0 <= i < args@.len() && spec_type_ref_mentions_param(args@[i].0, params),
        TypeRef::Sum(args) => exists|i: int|
            0 <= i < args@.len() && spec_type_ref_mentions_param(args@[i].0, params),
        TypeRef::Box(inner) => spec_type_ref_mentions_param(inner.0, params),
        TypeRef::View(inner) => spec_type_ref_mentions_param(inner.0, params),
        TypeRef::Array(inner, _) => spec_type_ref_mentions_param(inner.0, params),
        TypeRef::List(inner) => spec_type_ref_mentions_param(inner.0, params),
        TypeRef::SetOf(inner) => spec_type_ref_mentions_param(inner.0, params),
        TypeRef::MapOf(key, value) => spec_type_ref_mentions_param(key.0, params)
            || spec_type_ref_mentions_param(value.0, params),
        TypeRef::Builtin(_) => false,
    }
}

fn any_type_ref_mentions_param(args: &Vec<Spanned<TypeRef>>, params: &Vec<&str>) -> (r: bool)
    ensures
        r == exists|i: int|
            0 <= i < args@.len() && spec_type_ref_mentions_param(args@[i].0, params@),
    decreases args@,
{
    let mut i: usize = 0;
    while i < args.len()
        invariant
            i <= args@.len(),
            forall|j: int|
                0 <= j < i ==> !spec_type_ref_mentions_param(#[trigger] args@[j].0, params@),
        decreases args.len() - i,
    {
        if type_ref_mentions_param(&args[i].0, params) {
            return true;
        }
        i = i + 1;
    }
    false
}

/// Whether a written type mentions a type parameter anywhere.
pub fn type_ref_mentions_param(ty: &TypeRef, params: &Vec<&str>) -> (r: bool)
    ensures
        r == spec_type_ref_mentions_param(*ty, params@),
    decreases ty,
{
    match ty {
        TypeRef::Named(segments) => segments.len() == 1 && contains_name(params, segments[0].0),
        TypeRef::Apply { args, .. } => any_type_ref_mentions_param(args, params),
        TypeRef::Sum(args) => any_type_ref_mentions_param(args, params),
        TypeRef::Box(inner) => type_ref_mentions_param(&inner.0, params),
        TypeRef::View(inner) => type_ref_mentions_param(&inner.0, params),
        TypeRef::Array(inner, _) => type_ref_mentions_param(&inner.0, params),
        TypeRef::List(inner) => type_ref_mentions_param(&inner.0, params),
        TypeRef::SetOf(inner) => type_ref_mentions_param(&inner.0, params),
        TypeRef::MapOf(key, value) => type_ref_mentions_param(&key.0, params)
            || type_ref_mentions_param(&value.0, params),
        TypeRef::Builtin(_) => false,
    }
}

/// A type that is one of the parameters also mentions one.
pub proof fn lemma_param_mentions_param(ty: TypeRef, params: Seq<&str>)
    requires
        spec_type_ref_is_param(ty, params),
    ensures
        spec_type_ref_mentions_param(ty, params),
{
}

/// Whether an expression is a literal value.
pub fn expr_is_literal(expression: &Spanned<Expr>) -> (r: bool)
    ensures
        r == (expression.0 is Value),
{
    matches!(expression.0, Expr::Value(_))
}


/// The diagnostic reported when an operation is applied to a value of an
/// unconstrained generic type.
pub open spec fn generic_operation_message(operation: Seq<char>) -> Seq<char> {
    "cannot use an unconstrained generic type parameter with "@ + operation
        + "; add a concrete type or a future capability bound"@
}

/// The diagnostics a list of errors carries, as (span, message) pairs.
pub open spec fn diagnostics(errors: Seq<Error>) -> Diagnostics {
    errors.map_values(|e: Error| e@)
}

/// Records that `operation` was applied to an unconstrained generic value.
pub fn generic_operation(errors: &mut Vec<Error>, span: Span, operation: &str)
    ensures
        diagnostics(final(errors)@) == diagnostics(old(errors)@).push(
            (span, generic_operation_message(operation@)),
        ),
{
    let mut msg = String::from_str("cannot use an unconstrained generic type parameter with ");
    msg.append(operation);
    msg.append("; add a concrete type or a future capability bound");
    let ghost before = errors@;
    errors.push(Error { span, msg });
    proof {
        assert(diagnostics(errors@) =~= diagnostics(before).push(
            (span, generic_operation_message(operation@)),
        ));
    }
}

/// The diagnostics of a capability check, as (span, message) pairs.
pub type Diagnostics = Seq<(Span, Seq<char>)>;

/// The operation name a binary operator is reported under.
pub open spec fn binary_operation_name(op: BinaryOp) -> Seq<char> {
    match op {
        BinaryOp::Add | BinaryOp::Sub | BinaryOp::Mul | BinaryOp::Div => "arithmetic"@,
        BinaryOp::Eq | BinaryOp::NotEq => "equality"@,
        BinaryOp::Less | BinaryOp::LessEq | BinaryOp::Greater | BinaryOp::GreaterEq => "comparison"@,
        BinaryOp::And | BinaryOp::Or => "logical operations"@,
    }
}

/// Appends the operation diagnostic when `uses` holds.
pub open spec fn report_if(uses: bool, found: Diagnostics, span: Span, operation: Seq<char>) -> Diagnostics {
    if uses {
        found.push((span, generic_operation_message(operation)))
    } else {
        found
    }
}

/// Whether `e` is a local whose declared type is exactly a type parameter.
pub open spec fn is_opaque_local(e: Expr, opaque_vars: Seq<&str>) -> bool {
    match e {
        Expr::Local(name) => names_contain(opaque_vars, name@),
        _ => false,
    }
}

/// The capability check of one expression: whether its value depends on a
/// generic-typed local, and the diagnostics reported along the way. Operands
/// are visited left to right and a visit stops at the first operand that
/// already depends on one.
pub open spec fn spec_generic_expr(
    e: Spanned<Expr>,
    vars: Seq<&str>,
    opaque: Seq<&str>,
) -> (bool, Diagnostics)
    decreases e, 0nat,
{
    match e.0 {
        Expr::Local(name) => (names_contain(vars, name@), Seq::empty()),
        Expr::Binary(left, op, right) => {
            let l = spec_generic_expr(*left, vars, opaque);
            let both = if l.0 {
                l
            } else {
                let r = spec_generic_expr(*right, vars, opaque);
                (r.0, l.1 + r.1)
            };
            (both.0, report_if(both.0, both.1, e.1, binary_operation_name(op)))
        },
        Expr::Unary(_, value) => {
            let v = spec_generic_expr(*value, vars, opaque);
            (v.0, report_if(v.0, v.1, e.1, "unary operations"@))
        },
        Expr::Print(value) => {
            let v = spec_generic_expr(*value, vars, opaque);
            (v.0, report_if(v.0, v.1, e.1, "printing"@))
        },
        Expr::Member(base, _) => {
            let b = spec_generic_expr(*base, vars, opaque);
            (b.0, report_if(is_opaque_local(base.0, opaque), b.1, e.1, "field or method access"@))
        },
        Expr::Index(base, index) => {
            let b = spec_generic_expr(*base, vars, opaque);
            let both = if b.0 {
                b
            } else {
                let i = spec_generic_expr(*index, vars, opaque);
                (i.0, b.1 + i.1)
            };
            (both.0, report_if(is_opaque_local(base.0, opaque), both.1, e.1, "indexing"@))
        },
        Expr::Call(callee, args) => {
            let c = spec_generic_expr(*callee, vars, opaque);
            if c.0 {
                c
            } else {
                let a = spec_generic_args(args.0@, args.0@.len() as int, vars, opaque);
                (a.0, c.1 + a.1)
            }
        },
        Expr::GenericCall(callee, _, args) => {
            let c = spec_generic_expr(*callee, vars, opaque);
            if c.0 {
                c
            } else {
                let a = spec_generic_args(args.0@, args.0@.len() as int, vars, opaque);
                (a.0, c.1 + a.1)
            }
        },
        Expr::Interpolated(parts) => {
            let p = spec_generic_parts(parts@, parts@.len() as int, vars, opaque);
            (p.0, report_if(p.0, p.1, e.1, "string interpolation"@))
        },
        Expr::List(items) => spec_generic_items(items@, items@.len() as int, vars, opaque),
        Expr::ReturnOnError(value) => {
            let v = spec_generic_expr(*value, vars, opaque);
            (v.0, report_if(v.0, v.1, e.1, "error propagation"@))
        },
        Expr::Box(value) => spec_generic_expr(*value, vars, opaque),
        _ => (false, Seq::empty()),
    }
}

/// The capability check of the first `n` list items, stopping at the first
/// item that depends on a generic-typed local.
pub open spec fn spec_generic_items(
    items: Seq<Spanned<Expr>>,
    n: int,
    vars: Seq<&str>,
    opaque: Seq<&str>,
) -> (bool, Diagnostics)
    decreases items, if n > 0 { n as nat } else { 0 },
{
    if n <= 0 || n > items.len() {
        (false, Seq::empty())
    } else {
        let before = spec_generic_items(items, n - 1, vars, opaque);
        if before.0 {
            before
        } else {
            let last = spec_generic_expr(items[n - 1], vars, opaque);
            (last.0, before.1 + last.1)
        }
    }
}

/// The capability check of the first `n` call arguments.
pub open spec fn spec_generic_args(
    args: Seq<Arg>,
    n: int,
    vars: Seq<&str>,
    opaque: Seq<&str>,
) -> (bool, Diagnostics)
    decreases args, if n > 0 { n as nat } else { 0 },
{
    if n <= 0 || n > args.len() {
        (false, Seq::empty())
    } else {
        let before = spec_generic_args(args, n - 1, vars, opaque);
        if before.0 {
            before
        } else {
            let last = spec_generic_expr(args[n - 1].value, vars, opaque);
            (last.0, before.1 + last.1)
        }
    }
}

/// The capability check of the first `n` parts of an interpolated string.
pub open spec fn spec_generic_parts(
    parts: Seq<StringPart>,
    n: int,
    vars: Seq<&str>,
    opaque: Seq<&str>,
) -> (bool, Diagnostics)
    decreases parts, if n > 0 { n as nat } else { 0 },
{
    if n <= 0 || n > parts.len() {
        (false, Seq::empty())
    } else {
        let before = spec_generic_parts(parts, n - 1, vars, opaque);
        if before.0 {
            before
        } else {
            match parts[n - 1] {
                StringPart::Literal(_) => (false, before.1),
                StringPart::Expression(inner) => {
                    let last = spec_generic_expr(inner, vars, opaque);
                    (last.0, before.1 + last.1)
                },
            }
        }
    }
}

fn binary_operation_text(op: BinaryOp) -> (r: &'static str)
    ensures
        r@ == binary_operation_name(op),
{
    match op {
        BinaryOp::Add | BinaryOp::Sub | BinaryOp::Mul | BinaryOp::Div => "arithmetic",
        BinaryOp::Eq | BinaryOp::NotEq => "equality",
        BinaryOp::Less | BinaryOp::LessEq | BinaryOp::Greater | BinaryOp::GreaterEq => "comparison",
        BinaryOp::And | BinaryOp::Or => "logical operations",
    }
}

fn opaque_local(e: &Expr, opaque_vars: &Vec<&str>) -> (r: bool)
    ensures
        r == is_opaque_local(*e, opaque_vars@),
{
    match e {
        Expr::Local(name) => contains_name(opaque_vars, name),
        _ => false,
    }
}

/// Checks one expression of a generic function body: returns whether its
/// value depends on a generic-typed local and reports every operation
/// applied to such a value.
#[verifier::loop_isolation(false)]
pub fn validate_generic_expr(
    expression: &Spanned<Expr>,
    generic_vars: &Vec<&str>,
    opaque_vars: &Vec<&str>,
    errors: &mut Vec<Error>,
) -> (r: bool)
    ensures
        r == spec_generic_expr(*expression, generic_vars@, opaque_vars@).0,
        diagnostics(final(errors)@) == diagnostics(old(errors)@) + spec_generic_expr(
            *expression,
            generic_vars@,
            opaque_vars@,
        ).1,
    decreases expression, 0nat,
{
    let ghost start = diagnostics(errors@);
    let ghost spec = spec_generic_expr(*expression, generic_vars@, opaque_vars@);
    match &expression.0 {
        Expr::Local(name) => {
            proof {
                assert(start + Seq::<(Span, Seq<char>)>::empty() =~= start);
            }
            contains_name(generic_vars, name)
        },
        Expr::Binary(left, op, right) => {
            let uses = validate_generic_expr(left, generic_vars, opaque_vars, errors)
                || validate_generic_expr(right, generic_vars, opaque_vars, errors);
            proof {
                let l = spec_generic_expr(**left, generic_vars@, opaque_vars@);
                if !l.0 {
                    let rr = spec_generic_expr(**right, generic_vars@, opaque_vars@);
                    assert(start + l.1 + rr.1 =~= start + (l.1 + rr.1));
                }
            }
            if uses {
                let ghost mid = diagnostics(errors@);
                generic_operation(errors, expression.1, binary_operation_text(*op));
                proof {
                    let both = if spec_generic_expr(**left, generic_vars@, opaque_vars@).0 {
                        spec_generic_expr(**left, generic_vars@, opaque_vars@)
                    } else {
                        let l = spec_generic_expr(**left, generic_vars@, opaque_vars@);
                        let rr = spec_generic_expr(**right, generic_vars@, opaque_vars@);
                        (rr.0, l.1 + rr.1)
                    };
                    assert(mid == start + both.1);
                    assert(diagnostics(errors@) =~= start + both.1.push(
                        (expression.1, generic_operation_message(binary_operation_name(*op))),
                    ));
                }
            }
            uses
        },
        Expr::Unary(_, value) => {
            let uses = validate_generic_expr(value, generic_vars, opaque_vars, errors);
            if uses {
                let ghost mid = diagnostics(errors@);
                generic_operation(errors, expression.1, "unary operations");
                proof {
                    assert(diagnostics(errors@) =~= start + spec.1);
                }
            }
            uses
        },
        Expr::Print(value) => {
            let uses = validate_generic_expr(value, generic_vars, opaque_vars, errors);
            if uses {
                generic_operation(errors, expression.1, "printing");
                proof {
                    assert(diagnostics(errors@) =~= start + spec.1);
                }
            }
            uses
        },
        Expr::Member(base, _) => {
            let uses = validate_generic_expr(base, generic_vars, opaque_vars, errors);
            if opaque_local(&base.0, opaque_vars) {
                generic_operation(errors, expression.1, "field or method access");
                proof {
                    assert(diagnostics(errors@) =~= start + spec.1);
                }
            }
            uses
        },
        Expr::Index(base, index) => {
            let uses = validate_generic_expr(base, generic_vars, opaque_vars, errors)
                || validate_generic_expr(index, generic_vars, opaque_vars, errors);
            proof {
                let b = spec_generic_expr(**base, generic_vars@, opaque_vars@);
                if !b.0 {
                    let ii = spec_generic_expr(**index, generic_vars@, opaque_vars@);
                    assert(start + b.1 + ii.1 =~= start + (b.1 + ii.1));
                }
            }
            if opaque_local(&base.0, opaque_vars) {
                generic_operation(errors, expression.1, "indexing");
                proof {
                    assert(diagnostics(errors@) =~= start + spec.1);
                }
            }
            uses
        },
        Expr::Call(callee, arguments) => {
            if validate_generic_expr(callee, generic_vars, opaque_vars, errors) {
                return true;
            }
            let ghost after_callee = diagnostics(errors@);
            let found = validate_generic_args(&arguments.0, generic_vars, opaque_vars, errors);
            proof {
                let c = spec_generic_expr(**callee, generic_vars@, opaque_vars@);
                let a = spec_generic_args(arguments.0@, arguments.0@.len() as int, generic_vars@, opaque_vars@);
                assert(start + c.1 + a.1 =~= start + (c.1 + a.1));
            }
            found
        },
        Expr::GenericCall(callee, _, arguments) => {
            if validate_generic_expr(callee, generic_vars, opaque_vars, errors) {
                return true;
            }
            let found = validate_generic_args(&arguments.0, generic_vars, opaque_vars, errors);
            proof {
                let c = spec_generic_expr(**callee, generic_vars@, opaque_vars@);
                let a = spec_generic_args(arguments.0@, arguments.0@.len() as int, generic_vars@, opaque_vars@);
                assert(start + c.1 + a.1 =~= start + (c.1 + a.1));
            }
            found
        },
        Expr::Interpolated(parts) => {
            let uses = validate_generic_parts(parts, generic_vars, opaque_vars, errors);
            if uses {
                generic_operation(errors, expression.1, "string interpolation");
                proof {
                    assert(diagnostics(errors@) =~= start + spec.1);
                }
            }
            uses
        },
        Expr::List(items) => validate_generic_items(items, generic_vars, opaque_vars, errors),
        Expr::ReturnOnError(value) => {
            let uses = validate_generic_expr(value, generic_vars, opaque_vars, errors);
            if uses {
                generic_operation(errors, expression.1, "error propagation");
                proof {
                    assert(diagnostics(errors@) =~= start + spec.1);
                }
            }
            uses
        },
        Expr::Box(value) => validate_generic_expr(value, generic_vars, opaque_vars, errors),
        Expr::Error | Expr::Value(_) | Expr::SelfRef | Expr::BuiltinType(_) | Expr::MapNew(_, _)
        | Expr::SetNew(_) => {
            proof {
                assert(start + Seq::<(Span, Seq<char>)>::empty() =~= start);
            }
            false
        },
    }
}

fn validate_generic_items(
    items: &Vec<Spanned<Expr>>,
    generic_vars: &Vec<&str>,
    opaque_vars: &Vec<&str>,
    errors: &mut Vec<Error>,
) -> (r: bool)
    ensures
        r == spec_generic_items(items@, items@.len() as int, generic_vars@, opaque_vars@).0,
        diagnostics(final(errors)@) == diagnostics(old(errors)@) + spec_generic_items(
            items@,
            items@.len() as int,
            generic_vars@,
            opaque_vars@,
        ).1,
    decreases items@, items@.len() + 1,
{
    let ghost start = diagnostics(errors@);
    let mut i: usize = 0;
    proof {
        assert(start + Seq::<(Span, Seq<char>)>::empty() =~= start);
    }
    let mut found = false;
    while i < items.len() && !found
        invariant
            i <= items@.len(),
            found == spec_generic_items(items@, i as int, generic_vars@, opaque_vars@).0,
            found ==> spec_generic_items(items@, items@.len() as int, generic_vars@, opaque_vars@)
                == spec_generic_items(items@, i as int, generic_vars@, opaque_vars@),
            diagnostics(errors@) == start + spec_generic_items(items@, i as int, generic_vars@, opaque_vars@).1,
        decreases items.len() - i,
    {
        let ghost before = spec_generic_items(items@, i as int, generic_vars@, opaque_vars@);
        let uses = validate_generic_expr(&items[i], generic_vars, opaque_vars, errors);
        proof {
            let last = spec_generic_expr(items@[i as int], generic_vars@, opaque_vars@);
            assert(start + before.1 + last.1 =~= start + (before.1 + last.1));
            assert(spec_generic_items(items@, i + 1, generic_vars@, opaque_vars@) == (last.0, before.1 + last.1));
        }
        i = i + 1;
        if uses {
            proof {
                lemma_generic_items_stop(items@, i as int, items@.len() as int, generic_vars@, opaque_vars@);
            }
            found = true;
        }
    }
    found
}

proof fn lemma_generic_items_stop(items: Seq<Spanned<Expr>>, i: int, n: int, vars: Seq<&str>, opaque: Seq<&str>)
    requires
        0 < i <= n <= items.len(),
        spec_generic_items(items, i, vars, opaque).0,
    ensures
        spec_generic_items(items, n, vars, opaque) == spec_generic_items(items, i, vars, opaque),
    decreases n - i,
{
    if n > i {
        lemma_generic_items_stop(items, i, n - 1, vars, opaque);
    }
}

fn validate_generic_args(
    args: &Vec<Arg>,
    generic_vars: &Vec<&str>,
    opaque_vars: &Vec<&str>,
    errors: &mut Vec<Error>,
) -> (r: bool)
    ensures
        r == spec_generic_args(args@, args@.len() as int, generic_vars@, opaque_vars@).0,
        diagnostics(final(errors)@) == diagnostics(old(errors)@) + spec_generic_args(
            args@,
            args@.len() as int,
            generic_vars@,
            opaque_vars@,
        ).1,
    decreases args@, args@.len() + 1,
{
    let ghost start = diagnostics(errors@);
    let mut i: usize = 0;
    proof {
        assert(start + Seq::<(Span, Seq<char>)>::empty() =~= start);
    }
    let mut found = false;
    while i < args.len() && !found
        invariant
            i <= args@.len(),
            found == spec_generic_args(args@, i as int, generic_vars@, opaque_vars@).0,
            found ==> spec_generic_args(args@, args@.len() as int, generic_vars@, opaque_vars@)
                == spec_generic_args(args@, i as int, generic_vars@, opaque_vars@),
            diagnostics(errors@) == start + spec_generic_args(args@, i as int, generic_vars@, opaque_vars@).1,
        decreases args.len() - i,
    {
        let ghost before = spec_generic_args(args@, i as int, generic_vars@, opaque_vars@);
        let uses = validate_generic_expr(&args[i].value, generic_vars, opaque_vars, errors);
        proof {
            let last = spec_generic_expr(args@[i as int].value, generic_vars@, opaque_vars@);
            assert(start + before.1 + last.1 =~= start + (before.1 + last.1));
            assert(spec_generic_args(args@, i + 1, generic_vars@, opaque_vars@) == (last.0, before.1 + last.1));
        }
        i = i + 1;
        if uses {
            proof {
                lemma_generic_args_stop(args@, i as int, args@.len() as int, generic_vars@, opaque_vars@);
            }
            found = true;
        }
    }
    found
}

proof fn lemma_generic_args_stop(args: Seq<Arg>, i: int, n: int, vars: Seq<&str>, opaque: Seq<&str>)
    requires
        0 < i <= n <= args.len(),
        spec_generic_args(args, i, vars, opaque).0,
    ensures
        spec_generic_args(args, n, vars, opaque) == spec_generic_args(args, i, vars, opaque),
    decreases n - i,
{
    if n > i {
        lemma_generic_args_stop(args, i, n - 1, vars, opaque);
    }
}

fn validate_generic_parts(
    parts: &Vec<StringPart>,
    generic_vars: &Vec<&str>,
    opaque_vars: &Vec<&str>,
    errors: &mut Vec<Error>,
) -> (r: bool)
    ensures
        r == spec_generic_parts(parts@, parts@.len() as int, generic_vars@, opaque_vars@).0,
        diagnostics(final(errors)@) == diagnostics(old(errors)@) + spec_generic_parts(
            parts@,
            parts@.len() as int,
            generic_vars@,
            opaque_vars@,
        ).1,
    decreases parts@, parts@.len() + 1,
{
    let ghost start = diagnostics(errors@);
    let mut i: usize = 0;
    proof {
        assert(start + Seq::<(Span, Seq<char>)>::empty() =~= start);
    }
    let mut found = false;
    while i < parts.len() && !found
        invariant
            i <= parts@.len(),
            found == spec_generic_parts(parts@, i as int, generic_vars@, opaque_vars@).0,
            found ==> spec_generic_parts(parts@, parts@.len() as int, generic_vars@, opaque_vars@)
                == spec_generic_parts(parts@, i as int, generic_vars@, opaque_vars@),
            diagnostics(errors@) == start + spec_generic_parts(parts@, i as int, generic_vars@, opaque_vars@).1,
        decreases parts.len() - i,
    {
        let ghost before = spec_generic_parts(parts@, i as int, generic_vars@, opaque_vars@);
        let uses = match &parts[i] {
            StringPart::Literal(_) => false,
            StringPart::Expression(inner) => {
                let u = validate_generic_expr(inner, generic_vars, opaque_vars, errors);
                proof {
                    let last = spec_generic_expr(*inner, generic_vars@, opaque_vars@);
                    assert(start + before.1 + last.1 =~= start + (before.1 + last.1));
                    assert(spec_generic_parts(parts@, i + 1, generic_vars@, opaque_vars@) == (last.0, before.1 + last.1));
                }
                u
            },
        };

        i = i + 1;
        if uses {
            proof {
                lemma_generic_parts_stop(parts@, i as int, parts@.len() as int, generic_vars@, opaque_vars@);
            }
            found = true;
        }
    }
    found
}

proof fn lemma_generic_parts_stop(parts: Seq<StringPart>, i: int, n: int, vars: Seq<&str>, opaque: Seq<&str>)
    requires
        0 < i <= n <= parts.len(),
        spec_generic_parts(parts, i, vars, opaque).0,
    ensures
        spec_generic_parts(parts, n, vars, opaque) == spec_generic_parts(parts, i, vars, opaque),
    decreases n - i,
{
    if n > i {
        lemma_generic_parts_stop(parts, i, n - 1, vars, opaque);
    }
}

/// The diagnostic for `Nil` written anywhere but as a member of a sum.
pub const STANDALONE_NIL: &'static str = "'Nil' has no value of its own; write it as a member of a sum type";

impl Types {
    /// Whether definition `k` is a top-level type named `name`: anything
    /// but a union member, which is reached through its union.
    pub open spec fn declares_top_level(&self, k: int, name: Seq<char>) -> bool {
        &&& 0 <= k < self.defs@.len()
        &&& !(self.defs@[k] is UnionMember)
        &&& self.defs@[k].spec_name()@ == name
    }

    /// The first top-level type named `name`.
    pub open spec fn spec_top_level(&self, name: Seq<char>) -> Option<TypeId> {
        if exists|k: int|
            #[trigger] self.declares_top_level(k, name) && forall|j: int|
                0 <= j < k ==> !#[trigger] self.declares_top_level(j, name) {
            let k = choose|k: int|
                #[trigger] self.declares_top_level(k, name) && forall|j: int|
                    0 <= j < k ==> !#[trigger] self.declares_top_level(j, name);
            Some(TypeId(k as u32))
        } else {
            None
        }
    }

    /// The top-level type named `name`, if one is declared.
    pub fn top_level(&self, name: &str) -> (r: Option<TypeId>)
        requires
            self.defs@.len() <= u32::MAX,
        ensures
            r == self.spec_top_level(name@),
            r matches Some(id) ==> id.0 < self.defs@.len(),
    {
        let mut i: usize = 0;
        while i < self.defs.len()
            invariant
                i <= self.defs@.len(),
                self.defs@.len() <= u32::MAX,
                forall|j: int| 0 <= j < i ==> !#[trigger] self.declares_top_level(j, name@),
            decreases self.defs.len() - i,
        {
            let def = &self.defs[i];
            let is_member = match def {
                TypeDef::UnionMember { .. } => true,
                _ => false,
            };
            if !is_member && str_eq(def.name().as_str(), name) {
                proof {
                    assert(self.declares_top_level(i as int, name@));
                    let k = choose|k: int|
                        #[trigger] self.declares_top_level(k, name@) && forall|j: int|
                            0 <= j < k ==> !#[trigger] self.declares_top_level(j, name@);
                    if k < i {
                    } else if k > i {
                        assert(!self.declares_top_level(i as int, name@));
                    }
                }
                return Some(TypeId(i as u32));
            }
            i = i + 1;
        }
        None
    }
}

/// How many type parameters the first generic type declaration named
/// `name` takes.
pub open spec fn spec_generic_arity(generic_types: Seq<(&str, usize)>, name: Seq<char>) -> Option<usize> {
    if exists|k: int|
        0 <= k < generic_types.len() && (#[trigger] generic_types[k]).0@ == name && forall|j: int|
            0 <= j < k ==> (#[trigger] generic_types[j]).0@ != name {
        let k = choose|k: int|
            0 <= k < generic_types.len() && (#[trigger] generic_types[k]).0@ == name && forall|j: int|
                0 <= j < k ==> (#[trigger] generic_types[j]).0@ != name;
        Some(generic_types[k].1)
    } else {
        None
    }
}

fn generic_arity(generic_types: &Vec<(&str, usize)>, name: &str) -> (r: Option<usize>)
    ensures
        r == spec_generic_arity(generic_types@, name@),
{
    let mut i: usize = 0;
    while i < generic_types.len()
        invariant
            i <= generic_types@.len(),
            forall|j: int| 0 <= j < i ==> (#[trigger] generic_types@[j]).0@ != name@,
        decreases generic_types.len() - i,
    {
        if str_eq(generic_types[i].0, name) {
            proof {
                let k = choose|k: int|
                    0 <= k < generic_types@.len() && (#[trigger] generic_types@[k]).0@ == name@
                        && forall|j: int| 0 <= j < k ==> (#[trigger] generic_types@[j]).0@ != name@;
                if k < i {
                } else if k > i {
                    assert(generic_types@[i as int].0@ == name@);
                }
            }
            return Some(generic_types[i].1);
        }
        i = i + 1;
    }
    None
}

/// Every named type path in `ty` has at least one component.
pub open spec fn spec_paths_nonempty(ty: TypeRef) -> bool
    decreases ty,
{
    match ty {
        TypeRef::Named(path) => path@.len() >= 1,
        TypeRef::Apply { args, .. } => forall|i: int|
            0 <= i < args@.len() ==> spec_paths_nonempty(#[trigger] args@[i].0),
        TypeRef::Sum(args) => forall|i: int|
            0 <= i < args@.len() ==> spec_paths_nonempty(#[trigger] args@[i].0),
        TypeRef::Box(inner) => spec_paths_nonempty(inner.0),
        TypeRef::View(inner) => spec_paths_nonempty(inner.0),
        TypeRef::Array(inner, _) => spec_paths_nonempty(inner.0),
        TypeRef::List(inner) => spec_paths_nonempty(inner.0),
        TypeRef::SetOf(inner) => spec_paths_nonempty(inner.0),
        TypeRef::MapOf(key, value) => spec_paths_nonempty(key.0) && spec_paths_nonempty(value.0),
        TypeRef::Builtin(_) => true,
    }
}

pub open spec fn unknown_type_message(name: Seq<char>) -> Seq<char> {
    "Unknown type '"@ + name + "'"@
}

pub open spec fn unknown_member_type_message(root: Seq<char>, member: Seq<char>) -> Seq<char> {
    "Unknown type '"@ + root + "."@ + member + "'"@
}

pub open spec fn generic_arity_message(name: Seq<char>, expected: nat, found: nat) -> Seq<char> {
    "generic type '"@ + name + "' expects "@ + decimal(expected) + " type arguments, found "@
        + decimal(found)
}

pub open spec fn unknown_generic_type_message(name: Seq<char>) -> Seq<char> {
    "Unknown generic type '"@ + name + "'"@
}

/// The diagnostics of resolving a written type name.
pub open spec fn spec_named_type(
    path: Seq<Spanned<&str>>,
    span: Span,
    params: Seq<&str>,
    types: &Types,
) -> Diagnostics {
    if path.len() == 1 && names_contain(params, path[0].0@) {
        Seq::empty()
    } else {
        match types.spec_top_level(path[0].0@) {
            None => seq![(path[0].1, unknown_type_message(path[0].0@))],
            Some(root) => if path.len() == 2 {
                if types.spec_member(root, path[1].0@) is None {
                    seq![(path[1].1, unknown_member_type_message(path[0].0@, path[1].0@))]
                } else {
                    Seq::empty()
                }
            } else if path.len() > 2 {
                seq![(span, "a qualified type name has at most two components"@)]
            } else {
                Seq::empty()
            },
        }
    }
}

/// The diagnostics of the head of a generic type application with
/// `found` type arguments.
pub open spec fn spec_apply_head(
    path: Seq<Spanned<&str>>,
    found: nat,
    span: Span,
    generic_types: Seq<(&str, usize)>,
) -> Diagnostics {
    if path.len() != 1 {
        seq![(span, "generic type applications must name a top-level type"@)]
    } else {
        match spec_generic_arity(generic_types, path[0].0@) {
            Some(arity) => if arity != found {
                seq![(span, generic_arity_message(path[0].0@, arity as nat, found))]
            } else {
                Seq::empty()
            },
            None => seq![(path[0].1, unknown_generic_type_message(path[0].0@))],
        }
    }
}

fn validate_named_type(
    path: &Vec<Spanned<&str>>,
    span: Span,
    params: &Vec<&str>,
    types: &Types,
    errors: &mut Vec<Error>,
)
    requires
        types.wf(),
        types.defs@.len() <= u32::MAX,
        path@.len() >= 1,
    ensures
        diagnostics(final(errors)@) == diagnostics(old(errors)@) + spec_named_type(
            path@,
            span,
            params@,
            types,
        ),
{
    let ghost start = diagnostics(errors@);
    let ghost spec = spec_named_type(path@, span, params@, types);
    if path.len() == 1 && contains_name(params, path[0].0) {
        proof {
            assert(start =~= start + spec);
        }
        return;
    }
    let root = match types.top_level(path[0].0) {
        Some(root) => root,
        None => {
            report(errors, path[0].1, quoted_message("Unknown type '", path[0].0));
            proof {
                assert(start.push((path@[0].1, unknown_type_message(path@[0].0@))) =~= start + spec);
            }
            return;
        },
    };
    if path.len() == 2 {
        if types.member(root, path[1].0).is_none() {
            let mut msg = concat_str("Unknown type '", path[0].0);
            msg.append(".");
            msg.append(path[1].0);
            msg.append("'");
            report(errors, path[1].1, msg);
            proof {
                assert(start.push(
                    (path@[1].1, unknown_member_type_message(path@[0].0@, path@[1].0@)),
                ) =~= start + spec);
            }
        } else {
            proof {
                assert(start =~= start + spec);
            }
        }
    } else if path.len() > 2 {
        report(errors, span, String::from_str("a qualified type name has at most two components"));
        proof {
            assert(start.push((span, "a qualified type name has at most two components"@)) =~= start
                + spec);
        }
    } else {
        proof {
            assert(start =~= start + spec);
        }
    }
}

fn validate_apply_head(
    path: &Vec<Spanned<&str>>,
    found: usize,
    span: Span,
    generic_types: &Vec<(&str, usize)>,
    errors: &mut Vec<Error>,
)
    ensures
        diagnostics(final(errors)@) == diagnostics(old(errors)@) + spec_apply_head(
            path@,
            found as nat,
            span,
            generic_types@,
        ),
{
    let ghost start = diagnostics(errors@);
    let ghost spec = spec_apply_head(path@, found as nat, span, generic_types@);
    if path.len() != 1 {
        report(errors, span, String::from_str("generic type applications must name a top-level type"));
    } else {
        match generic_arity(generic_types, path[0].0) {
            Some(arity) => {
                if arity != found {
                    let mut msg = concat_str("generic type '", path[0].0);
                    msg.append("' expects ");
                    let expected = decimal_string(arity);
                    msg.append(expected.as_str());
                    msg.append(" type arguments, found ");
                    let count = decimal_string(found);
                    msg.append(count.as_str());
                    report(errors, span, msg);
                }
            },
            None => {
                report(errors, path[0].1, quoted_message("Unknown generic type '", path[0].0));
            },
        }
    }
    proof {
        assert(diagnostics(errors@) =~= start + spec);
    }
}

/// The diagnostics of checking one written signature type of a generic
/// function: names resolve to a type parameter, a top-level type, or a
/// member of a top-level union; a generic application names a generic
/// type and supplies its arity; `Nil` stands only inside a sum.
pub open spec fn spec_signature_type(
    ty: Spanned<TypeRef>,
    params: Seq<&str>,
    types: &Types,
    generic_types: Seq<(&str, usize)>,
    nil_member: bool,
) -> Diagnostics
    decreases ty.0, 0nat,
{
    match ty.0 {
        TypeRef::Builtin(name) => if name == TypeName::Nil && !nil_member {
            seq![(ty.1, STANDALONE_NIL@)]
        } else {
            Seq::empty()
        },
        TypeRef::Named(path) => spec_named_type(path@, ty.1, params, types),
        TypeRef::Apply { path, args } => {
            let head = spec_apply_head(path@, args@.len(), ty.1, generic_types);
            head + spec_signature_types(args@, args@.len() as int, params, types, generic_types, false)
        },
        TypeRef::Sum(members) => spec_signature_types(
            members@,
            members@.len() as int,
            params,
            types,
            generic_types,
            true,
        ),
        TypeRef::Box(inner) => spec_signature_type(*inner, params, types, generic_types, false),
        TypeRef::View(inner) => spec_signature_type(*inner, params, types, generic_types, false),
        TypeRef::Array(inner, _) => spec_signature_type(*inner, params, types, generic_types, false),
        TypeRef::List(inner) => spec_signature_type(*inner, params, types, generic_types, false),
        TypeRef::SetOf(inner) => spec_signature_type(*inner, params, types, generic_types, false),
        TypeRef::MapOf(key, value) => spec_signature_type(*key, params, types, generic_types, false)
            + spec_signature_type(*value, params, types, generic_types, false),
    }
}

/// The diagnostics of checking the first `n` of `tys` in order.
pub open spec fn spec_signature_types(
    tys: Seq<Spanned<TypeRef>>,
    n: int,
    params: Seq<&str>,
    types: &Types,
    generic_types: Seq<(&str, usize)>,
    nil_member: bool,
) -> Diagnostics
    decreases tys, if n > 0 { n as nat } else { 0 },
{
    if n <= 0 || n > tys.len() {
        Seq::empty()
    } else {
        spec_signature_types(tys, n - 1, params, types, generic_types, nil_member)
            + spec_signature_type(tys[n - 1], params, types, generic_types, nil_member)
    }
}

/// Records one diagnostic.
fn report(errors: &mut Vec<Error>, span: Span, msg: String)
    ensures
        diagnostics(final(errors)@) == diagnostics(old(errors)@).push((span, msg@)),
{
    let ghost before = errors@;
    errors.push(Error { span, msg });
    proof {
        assert(diagnostics(errors@) =~= diagnostics(before).push((span, msg@)));
    }
}

fn quoted_message(prefix: &str, name: &str) -> (r: String)
    ensures
        r@ == prefix@ + name@ + "'"@,
{
    let mut s = concat_str(prefix, name);
    s.append("'");
    s
}

/// Checks one written signature type of a generic function and reports
/// every name that resolves to nothing and every misuse of `Nil`.
pub fn validate_generic_signature_type(
    ty: &Spanned<TypeRef>,
    params: &Vec<&str>,
    types: &Types,
    generic_types: &Vec<(&str, usize)>,
    nil_member: bool,
    errors: &mut Vec<Error>,
)
    requires
        types.wf(),
        types.defs@.len() <= u32::MAX,
        spec_paths_nonempty(ty.0),
    ensures
        diagnostics(final(errors)@) == diagnostics(old(errors)@) + spec_signature_type(
            *ty,
            params@,
            types,
            generic_types@,
            nil_member,
        ),
    decreases ty.0, 0nat,
{
    let ghost start = diagnostics(errors@);
    let ghost spec = spec_signature_type(*ty, params@, types, generic_types@, nil_member);
    match &ty.0 {
        TypeRef::Builtin(name) => {
            if matches!(name, TypeName::Nil) && !nil_member {
                report(errors, ty.1, String::from_str(STANDALONE_NIL));
                proof {
                    assert(start.push((ty.1, STANDALONE_NIL@)) =~= start + spec);
                }
            } else {
                proof {
                    assert(start =~= start + spec);
                }
            }
        },
        TypeRef::Named(path) => {
            validate_named_type(path, ty.1, params, types, errors);
        },
        TypeRef::Apply { path, args } => {
            validate_apply_head(path, args.len(), ty.1, generic_types, errors);
            let ghost mid = diagnostics(errors@);
            validate_generic_signature_types(args, params, types, generic_types, false, errors);
            proof {
                assert(diagnostics(errors@) =~= start + spec);
            }
        },
        TypeRef::Sum(members) => {
            validate_generic_signature_types(members, params, types, generic_types, true, errors);
        },
        TypeRef::Box(inner) => {
            validate_generic_signature_type(inner, params, types, generic_types, false, errors);
        },
        TypeRef::View(inner) => {
            validate_generic_signature_type(inner, params, types, generic_types, false, errors);
        },
        TypeRef::Array(inner, _) => {
            validate_generic_signature_type(inner, params, types, generic_types, false, errors);
        },
        TypeRef::List(inner) => {
            validate_generic_signature_type(inner, params, types, generic_types, false, errors);
        },
        TypeRef::SetOf(inner) => {
            validate_generic_signature_type(inner, params, types, generic_types, false, errors);
        },
        TypeRef::MapOf(key, value) => {
            validate_generic_signature_type(key, params, types, generic_types, false, errors);
            validate_generic_signature_type(value, params, types, generic_types, false, errors);
            proof {
                assert(diagnostics(errors@) =~= start + spec);
            }
        },
    }
}

fn validate_generic_signature_types(
    tys: &Vec<Spanned<TypeRef>>,
    params: &Vec<&str>,
    types: &Types,
    generic_types: &Vec<(&str, usize)>,
    nil_member: bool,
    errors: &mut Vec<Error>,
)
    requires
        types.wf(),
        types.defs@.len() <= u32::MAX,
        forall|i: int| 0 <= i < tys@.len() ==> spec_paths_nonempty(#[trigger] tys@[i].0),
    ensures
        diagnostics(final(errors)@) == diagnostics(old(errors)@) + spec_signature_types(
            tys@,
            tys@.len() as int,
            params@,
            types,
            generic_types@,
            nil_member,
        ),
    decreases tys@, tys@.len() + 1,
{
    let ghost start = diagnostics(errors@);
    let mut i: usize = 0;
    proof {
        assert(start =~= start + spec_signature_types(tys@, 0, params@, types, generic_types@, nil_member));
    }
    while i < tys.len()
        invariant
            types.wf(),
            types.defs@.len() <= u32::MAX,
            forall|j: int| 0 <= j < tys@.len() ==> spec_paths_nonempty(#[trigger] tys@[j].0),
            i <= tys@.len(),
            diagnostics(errors@) == start + spec_signature_types(
                tys@,
                i as int,
                params@,
                types,
                generic_types@,
                nil_member,
            ),
        decreases tys.len() - i,
    {
        let ghost before = spec_signature_types(tys@, i as int, params@, types, generic_types@, nil_member);
        validate_generic_signature_type(&tys[i], params, types, generic_types, nil_member, errors);
        proof {
            let last = spec_signature_type(tys@[i as int], params@, types, generic_types@, nil_member);
            assert(start + before + last =~= start + (before + last));
        }
        i = i + 1;
    }
}

/// Every type written in a `let` of the block has nonempty name paths.
pub open spec fn spec_element_types_named(el: BlockElement) -> bool
    decreases el, 0nat,
{
    match el {
        BlockElement::Let { ty, .. } => spec_paths_nonempty(ty.0),
        BlockElement::While { body, .. } => spec_elements_types_named(body.elements@),
        BlockElement::For { body, .. } => spec_elements_types_named(body.elements@),
        BlockElement::If(form) => {
            &&& forall|i: int|
                0 <= i < form.arms@.len() ==> spec_elements_types_named(
                    #[trigger] form.arms@[i].1.elements@,
                )
            &&& match form.else_branch {
                Some(b) => spec_elements_types_named(b.elements@),
                None => true,
            }
        },
        _ => true,
    }
}

pub open spec fn spec_elements_types_named(els: Seq<Spanned<BlockElement>>) -> bool
    decreases els, 0nat,
{
    forall|i: int| 0 <= i < els.len() ==> spec_element_types_named(#[trigger] els[i].0)
}

/// The diagnostics of one condition of an `if` chain.
pub open spec fn spec_generic_condition(c: Condition, vars: Seq<&str>, opaque: Seq<&str>) -> Diagnostics {
    match c {
        Condition::Expr(value) => {
            let r = spec_generic_expr(value, vars, opaque);
            report_if(r.0, r.1, value.1, "truthiness"@)
        },
        Condition::TypeTest(test) => if (test.place.root matches PlaceRootName::Name(name)
            && names_contain(vars, name@)) {
            seq![(test.span, generic_operation_message("type tests"@))]
        } else {
            Seq::empty()
        },
    }
}

/// The capability check of one block element: the diagnostics it reports,
/// then the generic-typed and parameter-typed locals in scope after it. A
/// `let` whose type mentions a type parameter adds its name to the first;
/// one whose type is a type parameter adds it to the second. Nested blocks
/// see the enclosing scope but their own bindings do not leak out.
pub open spec fn spec_generic_element<'a>(
    el: BlockElement<'a>,
    params: Seq<&'a str>,
    types: &Types,
    generic_types: Seq<(&str, usize)>,
    vars: Seq<&'a str>,
    opaque: Seq<&'a str>,
) -> (Diagnostics, Seq<&'a str>, Seq<&'a str>)
    decreases el, 0nat,
{
    match el {
        BlockElement::Let { name, ty, value, .. } => {
            let literal = if value.0 is Value && spec_type_ref_is_param(ty.0, params) {
                seq![(value.1, generic_operation_message("a generic-parameter literal or value"@))]
            } else {
                Seq::empty()
            };
            (
                spec_signature_type(ty, params, types, generic_types, false) + spec_generic_expr(
                    value,
                    vars,
                    opaque,
                ).1 + literal,
                if spec_type_ref_mentions_param(ty.0, params) {
                    vars.push(name)
                } else {
                    vars
                },
                if spec_type_ref_is_param(ty.0, params) {
                    opaque.push(name)
                } else {
                    opaque
                },
            )
        },
        BlockElement::Assign { value, .. } => (spec_generic_expr(value, vars, opaque).1, vars, opaque),
        BlockElement::IndexedAssign { value, .. } => (
            spec_generic_expr(value, vars, opaque).1,
            vars,
            opaque,
        ),
        BlockElement::While { condition, body, .. } => {
            let c = spec_generic_expr(condition, vars, opaque);
            (
                report_if(c.0, c.1, condition.1, "truthiness"@) + spec_generic_elements(
                    body.elements@,
                    body.elements@.len() as int,
                    params,
                    types,
                    generic_types,
                    vars,
                    opaque,
                ).0,
                vars,
                opaque,
            )
        },
        BlockElement::For { iterable, body, .. } => {
            let c = spec_generic_expr(iterable, vars, opaque);
            (
                report_if(c.0, c.1, iterable.1, "iteration"@) + spec_generic_elements(
                    body.elements@,
                    body.elements@.len() as int,
                    params,
                    types,
                    generic_types,
                    vars,
                    opaque,
                ).0,
                vars,
                opaque,
            )
        },
        BlockElement::Return(value, _) => match value {
            Some(v) => (spec_generic_expr(v, vars, opaque).1, vars, opaque),
            None => (Seq::empty(), vars, opaque),
        },
        BlockElement::Defer { call, .. } => (spec_generic_expr(call, vars, opaque).1, vars, opaque),
        BlockElement::If(form) => (
            spec_generic_arms(
                form.arms@,
                form.arms@.len() as int,
                params,
                types,
                generic_types,
                vars,
                opaque,
            ) + match form.else_branch {
                Some(b) => spec_generic_elements(
                    b.elements@,
                    b.elements@.len() as int,
                    params,
                    types,
                    generic_types,
                    vars,
                    opaque,
                ).0,
                None => Seq::empty(),
            },
            vars,
            opaque,
        ),
        BlockElement::Expr(value) => (spec_generic_expr(value, vars, opaque).1, vars, opaque),
        BlockElement::Break(_) => (Seq::empty(), vars, opaque),
    }
}

/// The capability check of the first `n` elements of a block, in order.
pub open spec fn spec_generic_elements<'a>(
    els: Seq<Spanned<BlockElement<'a>>>,
    n: int,
    params: Seq<&'a str>,
    types: &Types,
    generic_types: Seq<(&str, usize)>,
    vars: Seq<&'a str>,
    opaque: Seq<&'a str>,
) -> (Diagnostics, Seq<&'a str>, Seq<&'a str>)
    decreases els, if n > 0 { n as nat } else { 0 },
{
    if n <= 0 || n > els.len() {
        (Seq::empty(), vars, opaque)
    } else {
        let before = spec_generic_elements(els, n - 1, params, types, generic_types, vars, opaque);
        let last = spec_generic_element(els[n - 1].0, params, types, generic_types, before.1, before.2);
        (before.0 + last.0, last.1, last.2)
    }
}

/// The capability check of the first `n` arms of an `if` chain: each
/// condition, then its block.
pub open spec fn spec_generic_arms<'a>(
    arms: Seq<(Condition<'a>, Block<'a>)>,
    n: int,
    params: Seq<&'a str>,
    types: &Types,
    generic_types: Seq<(&str, usize)>,
    vars: Seq<&'a str>,
    opaque: Seq<&'a str>,
) -> Diagnostics
    decreases arms, if n > 0 { n as nat } else { 0 },
{
    if n <= 0 || n > arms.len() {
        Seq::empty()
    } else {
        spec_generic_arms(arms, n - 1, params, types, generic_types, vars, opaque)
            + spec_generic_condition(arms[n - 1].0, vars, opaque) + spec_generic_elements(
            arms[n - 1].1.elements@,
            arms[n - 1].1.elements@.len() as int,
            params,
            types,
            generic_types,
            vars,
            opaque,
        ).0
    }
}

fn copy_names<'src>(names: &Vec<&'src str>) -> (r: Vec<&'src str>)
    ensures
        r@ == names@,
{
    let mut r: Vec<&'src str> = Vec::new();
    let mut i: usize = 0;
    while i < names.len()
        invariant
            i <= names@.len(),
            r@ == names@.subrange(0, i as int),
        decreases names.len() - i,
    {
        r.push(names[i]);
        i = i + 1;
        assert(r@ =~= names@.subrange(0, i as int));
    }
    assert(names@.subrange(0, names@.len() as int) =~= names@);
    r
}

fn validate_generic_condition(
    condition: &Condition,
    generic_vars: &Vec<&str>,
    opaque_vars: &Vec<&str>,
    errors: &mut Vec<Error>,
)
    ensures
        diagnostics(final(errors)@) == diagnostics(old(errors)@) + spec_generic_condition(
            *condition,
            generic_vars@,
            opaque_vars@,
        ),
{
    let ghost start = diagnostics(errors@);
    match condition {
        Condition::Expr(value) => {
            if validate_generic_expr(value, generic_vars, opaque_vars, errors) {
                generic_operation(errors, value.1, "truthiness");
            }
        },
        Condition::TypeTest(test) => {
            let generic_root = match test.place.root {
                PlaceRootName::Name(name) => contains_name(generic_vars, name),
                PlaceRootName::SelfRef => false,
            };
            if generic_root {
                generic_operation(errors, test.span, "type tests");
            }
        },
    }
    proof {
        assert(diagnostics(errors@) =~= start + spec_generic_condition(
            *condition,
            generic_vars@,
            opaque_vars@,
        ));
    }
}

/// Checks one element of a generic function body, reporting operations on
/// generic-typed values and recording the locals it binds.
fn validate_generic_element<'src>(
    element: &BlockElement<'src>,
    generic_params: &Vec<&'src str>,
    types: &Types,
    generic_types: &Vec<(&str, usize)>,
    generic_vars: &mut Vec<&'src str>,
    opaque_vars: &mut Vec<&'src str>,
    errors: &mut Vec<Error>,
)
    requires
        types.wf(),
        types.defs@.len() <= u32::MAX,
        spec_element_types_named(*element),
    ensures
        diagnostics(final(errors)@) == diagnostics(old(errors)@) + spec_generic_element(
            *element,
            generic_params@,
            types,
            generic_types@,
            old(generic_vars)@,
            old(opaque_vars)@,
        ).0,
        final(generic_vars)@ == spec_generic_element(
            *element,
            generic_params@,
            types,
            generic_types@,
            old(generic_vars)@,
            old(opaque_vars)@,
        ).1,
        final(opaque_vars)@ == spec_generic_element(
            *element,
            generic_params@,
            types,
            generic_types@,
            old(generic_vars)@,
            old(opaque_vars)@,
        ).2,
    decreases element, 0nat,
{
    let ghost start = diagnostics(errors@);
    let ghost spec = spec_generic_element(
        *element,
        generic_params@,
        types,
        generic_types@,
        generic_vars@,
        opaque_vars@,
    );
    match element {
        BlockElement::Let { name, ty, value, .. } => {
            validate_generic_signature_type(ty, generic_params, types, generic_types, false, errors);
            validate_generic_expr(value, generic_vars, opaque_vars, errors);
            if expr_is_literal(value) && type_ref_is_param(&ty.0, generic_params) {
                generic_operation(errors, value.1, "a generic-parameter literal or value");
            }
            proof {
                assert(diagnostics(errors@) =~= start + spec.0);
            }
            if type_ref_mentions_param(&ty.0, generic_params) {
                generic_vars.push(*name);
            }
            if type_ref_is_param(&ty.0, generic_params) {
                opaque_vars.push(*name);
            }
        },
        BlockElement::Assign { value, .. } => {
            validate_generic_expr(value, generic_vars, opaque_vars, errors);
        },
        BlockElement::IndexedAssign { value, .. } => {
            validate_generic_expr(value, generic_vars, opaque_vars, errors);
        },
        BlockElement::While { condition, body, .. } => {
            if validate_generic_expr(condition, generic_vars, opaque_vars, errors) {
                generic_operation(errors, condition.1, "truthiness");
            }
            let ghost mid = diagnostics(errors@);
            let mut nested = copy_names(generic_vars);
            let mut nested_opaque = copy_names(opaque_vars);
            validate_generic_block(
                body,
                generic_params,
                types,
                generic_types,
                &mut nested,
                &mut nested_opaque,
                errors,
            );
            proof {
                assert(diagnostics(errors@) =~= start + spec.0);
            }
        },
        BlockElement::For { iterable, body, .. } => {
            if validate_generic_expr(iterable, generic_vars, opaque_vars, errors) {
                generic_operation(errors, iterable.1, "iteration");
            }
            let mut nested = copy_names(generic_vars);
            let mut nested_opaque = copy_names(opaque_vars);
            validate_generic_block(
                body,
                generic_params,
                types,
                generic_types,
                &mut nested,
                &mut nested_opaque,
                errors,
            );
            proof {
                assert(diagnostics(errors@) =~= start + spec.0);
            }
        },
        BlockElement::Return(value, _) => {
            match value {
                Some(value) => {
                    validate_generic_expr(value, generic_vars, opaque_vars, errors);
                },
                None => {
                    proof {
                        assert(start =~= start + spec.0);
                    }
                },
            }
        },
        BlockElement::Defer { call, .. } => {
            validate_generic_expr(call, generic_vars, opaque_vars, errors);
        },
        BlockElement::If(form) => {
            validate_generic_arms(
                &form.arms,
                generic_params,
                types,
                generic_types,
                generic_vars,
                opaque_vars,
                errors,
            );
            let ghost mid = diagnostics(errors@);
            match &form.else_branch {
                Some(body) => {
                    let mut nested = copy_names(generic_vars);
                    let mut nested_opaque = copy_names(opaque_vars);
                    validate_generic_block(
                        body,
                        generic_params,
                        types,
                        generic_types,
                        &mut nested,
                        &mut nested_opaque,
                        errors,
                    );
                },
                None => {},
            }
            proof {
                assert(diagnostics(errors@) =~= start + spec.0);
            }
        },
        BlockElement::Expr(value) => {
            validate_generic_expr(value, generic_vars, opaque_vars, errors);
        },
        BlockElement::Break(_) => {
            proof {
                assert(start =~= start + spec.0);
            }
        },
    }
}

fn validate_generic_arms<'src>(
    arms: &Vec<(Condition<'src>, Block<'src>)>,
    generic_params: &Vec<&'src str>,
    types: &Types,
    generic_types: &Vec<(&str, usize)>,
    generic_vars: &Vec<&'src str>,
    opaque_vars: &Vec<&'src str>,
    errors: &mut Vec<Error>,
)
    requires
        types.wf(),
        types.defs@.len() <= u32::MAX,
        forall|i: int|
            0 <= i < arms@.len() ==> spec_elements_types_named(#[trigger] arms@[i].1.elements@),
    ensures
        diagnostics(final(errors)@) == diagnostics(old(errors)@) + spec_generic_arms(
            arms@,
            arms@.len() as int,
            generic_params@,
            types,
            generic_types@,
            generic_vars@,
            opaque_vars@,
        ),
    decreases arms@, arms@.len() + 1,
{
    let ghost start = diagnostics(errors@);
    let mut i: usize = 0;
    proof {
        assert(start =~= start + spec_generic_arms(
            arms@,
            0,
            generic_params@,
            types,
            generic_types@,
            generic_vars@,
            opaque_vars@,
        ));
    }
    while i < arms.len()
        invariant
            types.wf(),
            types.defs@.len() <= u32::MAX,
            forall|j: int|
                0 <= j < arms@.len() ==> spec_elements_types_named(#[trigger] arms@[j].1.elements@),
            i <= arms@.len(),
            diagnostics(errors@) == start + spec_generic_arms(
                arms@,
                i as int,
                generic_params@,
                types,
                generic_types@,
                generic_vars@,
                opaque_vars@,
            ),
        decreases arms.len() - i,
    {
        let ghost before = diagnostics(errors@);
        validate_generic_condition(&arms[i].0, generic_vars, opaque_vars, errors);
        let mut nested = copy_names(generic_vars);
        let mut nested_opaque = copy_names(opaque_vars);
        validate_generic_block(
            &arms[i].1,
            generic_params,
            types,
            generic_types,
            &mut nested,
            &mut nested_opaque,
            errors,
        );
        proof {
            assert(diagnostics(errors@) =~= start + spec_generic_arms(
                arms@,
                i + 1,
                generic_params@,
                types,
                generic_types@,
                generic_vars@,
                opaque_vars@,
            ));
        }
        i = i + 1;
    }
}

/// Checks a block of a generic function body in order: every operation
/// applied to a generic-typed value is reported, every `let` type is
/// resolved, and the locals each `let` binds join the scope of the
/// elements after it.
pub fn validate_generic_block<'src>(
    block: &Block<'src>,
    generic_params: &Vec<&'src str>,
    types: &Types,
    generic_types: &Vec<(&str, usize)>,
    generic_vars: &mut Vec<&'src str>,
    opaque_vars: &mut Vec<&'src str>,
    errors: &mut Vec<Error>,
)
    requires
        types.wf(),
        types.defs@.len() <= u32::MAX,
        spec_elements_types_named(block.elements@),
    ensures
        diagnostics(final(errors)@) == diagnostics(old(errors)@) + spec_generic_elements(
            block.elements@,
            block.elements@.len() as int,
            generic_params@,
            types,
            generic_types@,
            old(generic_vars)@,
            old(opaque_vars)@,
        ).0,
        final(generic_vars)@ == spec_generic_elements(
            block.elements@,
            block.elements@.len() as int,
            generic_params@,
            types,
            generic_types@,
            old(generic_vars)@,
            old(opaque_vars)@,
        ).1,
        final(opaque_vars)@ == spec_generic_elements(
            block.elements@,
            block.elements@.len() as int,
            generic_params@,
            types,
            generic_types@,
            old(generic_vars)@,
            old(opaque_vars)@,
        ).2,
    decreases block.elements@, block.elements@.len() + 1,
{
    let ghost start = diagnostics(errors@);
    let ghost vars0 = generic_vars@;
    let ghost opaque0 = opaque_vars@;
    let mut i: usize = 0;
    proof {
        assert(start =~= start + Seq::<(Span, Seq<char>)>::empty());
    }
    while i < block.elements.len()
        invariant
            types.wf(),
            types.defs@.len() <= u32::MAX,
            spec_elements_types_named(block.elements@),
            i <= block.elements@.len(),
            diagnostics(errors@) == start + spec_generic_elements(
                block.elements@,
                i as int,
                generic_params@,
                types,
                generic_types@,
                vars0,
                opaque0,
            ).0,
            generic_vars@ == spec_generic_elements(
                block.elements@,
                i as int,
                generic_params@,
                types,
                generic_types@,
                vars0,
                opaque0,
            ).1,
            opaque_vars@ == spec_generic_elements(
                block.elements@,
                i as int,
                generic_params@,
                types,
                generic_types@,
                vars0,
                opaque0,
            ).2,
        decreases block.elements.len() - i,
    {
        let ghost before = spec_generic_elements(
            block.elements@,
            i as int,
            generic_params@,
            types,
            generic_types@,
            vars0,
            opaque0,
        );
        validate_generic_element(
            &block.elements[i].0,
            generic_params,
            types,
            generic_types,
            generic_vars,
            opaque_vars,
            errors,
        );
        proof {
            let last = spec_generic_element(
                block.elements@[i as int].0,
                generic_params@,
                types,
                generic_types@,
                before.1,
                before.2,
            );
            assert(start + before.0 + last.0 =~= start + (before.0 + last.0));
        }
        i = i + 1;
    }
}

pub open spec fn duplicate_generic_param_message(name: Seq<char>) -> Seq<char> {
    "Generic parameter '"@ + name + "' already exists"@
}

pub open spec fn duplicate_value_param_message(name: Seq<char>) -> Seq<char> {
    "Parameter '"@ + name + "' already exists"@
}

/// The first `n` type parameters of a generic function, each name kept
/// once, with a diagnostic for every repeat.
pub open spec fn spec_generic_param_names<'a>(gps: Seq<Spanned<&'a str>>, n: int) -> (
    Seq<&'a str>,
    Diagnostics,
)
    decreases if n > 0 { n as nat } else { 0 },
{
    if n <= 0 || n > gps.len() {
        (Seq::empty(), Seq::empty())
    } else {
        let before = spec_generic_param_names(gps, n - 1);
        let name = gps[n - 1].0;
        if names_contain(before.0, name@) {
            (before.0, before.1.push((gps[n - 1].1, duplicate_generic_param_message(name@))))
        } else {
            (before.0.push(name), before.1)
        }
    }
}

/// The check of the first `n` value parameters of a generic function: the
/// diagnostics, the parameter names seen, and the parameters whose type
/// mentions, or is, a type parameter.
pub open spec fn spec_generic_signature<'a>(
    args: Seq<Param<'a>>,
    n: int,
    params: Seq<&'a str>,
    types: &Types,
    generic_types: Seq<(&str, usize)>,
) -> (Diagnostics, Seq<&'a str>, Seq<&'a str>, Seq<&'a str>)
    decreases if n > 0 { n as nat } else { 0 },
{
    if n <= 0 || n > args.len() {
        (Seq::empty(), Seq::empty(), Seq::empty(), Seq::empty())
    } else {
        let before = spec_generic_signature(args, n - 1, params, types, generic_types);
        let p = args[n - 1];
        let repeated = names_contain(before.1, p.name@);
        let dup = if repeated {
            seq![(p.span, duplicate_value_param_message(p.name@))]
        } else {
            Seq::empty()
        };
        (
            before.0 + dup + spec_signature_type(p.ty, params, types, generic_types, false),
            if repeated {
                before.1
            } else {
                before.1.push(p.name)
            },
            if spec_type_ref_mentions_param(p.ty.0, params) {
                before.2.push(p.name)
            } else {
                before.2
            },
            if spec_type_ref_is_param(p.ty.0, params) {
                before.3.push(p.name)
            } else {
                before.3
            },
        )
    }
}

/// The diagnostics of a function's written result type, if it has one.
pub open spec fn spec_return_type<'a>(
    ret: Option<Spanned<TypeRef<'a>>>,
    params: Seq<&'a str>,
    types: &Types,
    generic_types: Seq<(&str, usize)>,
) -> Diagnostics {
    match ret {
        Some(t) => spec_signature_type(t, params, types, generic_types, false),
        None => Seq::empty(),
    }
}

fn surround(prefix: &str, name: &str, suffix: &str) -> (r: String)
    ensures
        r@ == prefix@ + name@ + suffix@,
{
    let mut s = concat_str(prefix, name);
    s.append(suffix);
    s
}

/// The whole capability check of a generic function: its type parameters,
/// its signature, and its body, in that order.
pub open spec fn spec_generic_function(
    function: Func,
    types: &Types,
    generic_types: Seq<(&str, usize)>,
) -> Diagnostics {
    let g = spec_generic_param_names(function.generic_params@, function.generic_params@.len() as int);
    let sig = spec_generic_signature(
        function.args@,
        function.args@.len() as int,
        g.0,
        types,
        generic_types,
    );
    g.1 + sig.0 + spec_return_type(function.ret, g.0, types, generic_types) + spec_generic_elements(
        function.body.elements@,
        function.body.elements@.len() as int,
        g.0,
        types,
        generic_types,
        sig.2,
        sig.3,
    ).0
}

/// Whether every type written in a function's signature and body has
/// nonempty name paths.
pub open spec fn spec_function_types_named(function: Func) -> bool {
    &&& forall|i: int|
        0 <= i < function.args@.len() ==> spec_paths_nonempty(#[trigger] function.args@[i].ty.0)
    &&& (function.ret matches Some(t) ==> spec_paths_nonempty(t.0))
    &&& spec_elements_types_named(function.body.elements@)
}

/// The capability pass over one generic function: repeated type or value
/// parameter names, unresolvable signature types, and every operation the
/// body applies to a value of an unconstrained type parameter.
pub fn validate_generic_function<'src>(
    function: &Func<'src>,
    types: &Types,
    generic_types: &Vec<(&str, usize)>,
    errors: &mut Vec<Error>,
)
    requires
        types.wf(),
        types.defs@.len() <= u32::MAX,
        spec_function_types_named(*function),
    ensures
        diagnostics(final(errors)@) == diagnostics(old(errors)@) + spec_generic_function(
            *function,
            types,
            generic_types@,
        ),
{
    let ghost start = diagnostics(errors@);
    let mut generic_params: Vec<&'src str> = Vec::new();
    let mut k: usize = 0;
    while k < function.generic_params.len()
        invariant
            k <= function.generic_params@.len(),
            generic_params@ == spec_generic_param_names(function.generic_params@, k as int).0,
            diagnostics(errors@) == start + spec_generic_param_names(
                function.generic_params@,
                k as int,
            ).1,
        decreases function.generic_params.len() - k,
    {
        let (name, span) = function.generic_params[k];
        if contains_name(&generic_params, name) {
            let ghost before = diagnostics(errors@);
            report(errors, span, surround("Generic parameter '", name, "' already exists"));
            let ghost after = diagnostics(errors@);
            proof {
                assert(after =~= start + spec_generic_param_names(function.generic_params@, k + 1).1);
            }
        } else {
            generic_params.push(name);
        }
        k = k + 1;
    }
    let ghost g = spec_generic_param_names(
        function.generic_params@,
        function.generic_params@.len() as int,
    );
    let mut generic_vars: Vec<&'src str> = Vec::new();
    let mut opaque_vars: Vec<&'src str> = Vec::new();
    let mut value_params: Vec<&'src str> = Vec::new();
    let mut k: usize = 0;
    proof {
        assert(start + g.1 =~= start + g.1 + Seq::<(Span, Seq<char>)>::empty());
    }
    while k < function.args.len()
        invariant
            types.wf(),
            types.defs@.len() <= u32::MAX,
            spec_function_types_named(*function),
            generic_params@ == g.0,
            k <= function.args@.len(),
            diagnostics(errors@) == start + g.1 + spec_generic_signature(
                function.args@,
                k as int,
                g.0,
                types,
                generic_types@,
            ).0,
            value_params@ == spec_generic_signature(
                function.args@,
                k as int,
                g.0,
                types,
                generic_types@,
            ).1,
            generic_vars@ == spec_generic_signature(
                function.args@,
                k as int,
                g.0,
                types,
                generic_types@,
            ).2,
            opaque_vars@ == spec_generic_signature(
                function.args@,
                k as int,
                g.0,
                types,
                generic_types@,
            ).3,
        decreases function.args.len() - k,
    {
        let param = &function.args[k];
        let ghost before = spec_generic_signature(function.args@, k as int, g.0, types, generic_types@);
        let ghost mid0 = diagnostics(errors@);
        if contains_name(&value_params, param.name) {
            report(errors, param.span, surround("Parameter '", param.name, "' already exists"));
        } else {
            value_params.push(param.name);
        }
        let ghost mid1 = diagnostics(errors@);
        validate_generic_signature_type(&param.ty, &generic_params, types, generic_types, false, errors);
        if type_ref_mentions_param(&param.ty.0, &generic_params) {
            generic_vars.push(param.name);
        }
        if type_ref_is_param(&param.ty.0, &generic_params) {
            opaque_vars.push(param.name);
        }
        proof {
            let dup = if names_contain(before.1, param.name@) {
                seq![(param.span, duplicate_value_param_message(param.name@))]
            } else {
                Seq::<(Span, Seq<char>)>::empty()
            };
            assert(mid1 =~= mid0 + dup);
            assert(diagnostics(errors@) =~= start + g.1 + spec_generic_signature(
                function.args@,
                k + 1,
                g.0,
                types,
                generic_types@,
            ).0);
        }
        k = k + 1;
    }
    let ghost sig = spec_generic_signature(
        function.args@,
        function.args@.len() as int,
        g.0,
        types,
        generic_types@,
    );
    let ghost before_ret = diagnostics(errors@);
    match &function.ret {
        Some(result) => {
            validate_generic_signature_type(result, &generic_params, types, generic_types, false, errors);
        },
        None => {
            proof {
                assert(before_ret =~= before_ret + Seq::<(Span, Seq<char>)>::empty());
            }
        },
    }
    let ghost before_body = diagnostics(errors@);
    validate_generic_block(
        &function.body,
        &generic_params,
        types,
        generic_types,
        &mut generic_vars,
        &mut opaque_vars,
        errors,
    );
    proof {
        let ret = spec_return_type(function.ret, g.0, types, generic_types@);
        assert(before_body =~= start + g.1 + sig.0 + ret);
        assert(diagnostics(errors@) =~= start + spec_generic_function(*function, types, generic_types@));
    }
}

/// Whether some diagnostic of `errors` is reported at `span`.
pub open spec fn reported_at(errors: Seq<Error>, span: Span) -> bool {
    exists|i: int| 0 <= i < errors.len() && (#[trigger] errors[i]).span == span
}

/// The diagnostics of `body`, in order, at spans no diagnostic of `earlier`
/// is reported at.
pub open spec fn fresh_diagnostics(earlier: Seq<Error>, body: Seq<Error>) -> Seq<Error>
    decreases body.len(),
{
    if body.len() == 0 {
        Seq::empty()
    } else {
        fresh_diagnostics(earlier, body.drop_last()) + if reported_at(earlier, body.last().span) {
            Seq::empty()
        } else {
            seq![body.last()]
        }
    }
}

fn reported_at_span(errors: &Vec<Error>, span: Span) -> (r: bool)
    ensures
        r == reported_at(errors@, span),
{
    let mut i: usize = 0;
    while i < errors.len()
        invariant
            i <= errors@.len(),
            forall|k: int| 0 <= k < i ==> (#[trigger] errors@[k]).span != span,
        decreases errors.len() - i,
    {
        if errors[i].span == span {
            return true;
        }
        i = i + 1;
    }
    false
}

/// Adds the diagnostics of checking a generic body with its parameters
/// left abstract, except those at a span where a capability diagnostic of
/// the same function is already reported, so one misuse is reported once.
pub fn merge_body_diagnostics(errors: &mut Vec<Error>, body: Vec<Error>)
    ensures
        final(errors)@ == old(errors)@ + fresh_diagnostics(old(errors)@, body@),
{
    let ghost earlier = errors@;
    let ghost all = body@;
    let total = body.len();
    let mut fresh: Vec<Error> = Vec::new();
    let mut rest = body;
    let mut n: usize = 0;
    while rest.len() > 0
        invariant
            n + rest@.len() == all.len(),
            all.len() == total,
            rest@ == all.skip(n as int),
            errors@ == earlier,
            fresh@ == fresh_diagnostics(earlier, all.take(n as int)),
        decreases rest.len(),
    {
        let e = rest.remove(0);
        proof {
            let next = all.take(n + 1);
            assert(next.drop_last() =~= all.take(n as int));
            assert(next.last() == e);
        }
        if !reported_at_span(errors, e.span) {
            fresh.push(e);
        }
        n = n + 1;
        proof {
            assert(rest@ =~= all.skip(n as int));
        }
    }
    proof {
        assert(all.take(n as int) =~= all);
    }
    errors.append(&mut fresh);
}


/// Mention is structural: a written type mentions a parameter exactly when
/// one of its component types does, and a type keyword mentions none.
pub proof fn lemma_mention_is_structural<'src>(
    inner: Box<Spanned<TypeRef<'src>>>,
    other: Box<Spanned<TypeRef<'src>>>,
    len: u64,
    name: TypeName,
    params: Seq<&str>,
)
    ensures
        spec_type_ref_mentions_param(TypeRef::Box(inner), params) == spec_type_ref_mentions_param(inner.0, params),
        spec_type_ref_mentions_param(TypeRef::View(inner), params) == spec_type_ref_mentions_param(inner.0, params),
        spec_type_ref_mentions_param(TypeRef::Array(inner, len), params) == spec_type_ref_mentions_param(
            inner.0,
            params,
        ),
        spec_type_ref_mentions_param(TypeRef::List(inner), params) == spec_type_ref_mentions_param(inner.0, params),
        spec_type_ref_mentions_param(TypeRef::SetOf(inner), params) == spec_type_ref_mentions_param(inner.0, params),
        spec_type_ref_mentions_param(TypeRef::MapOf(inner, other), params) == (spec_type_ref_mentions_param(
            inner.0,
            params,
        ) || spec_type_ref_mentions_param(other.0, params)),
        !spec_type_ref_mentions_param(TypeRef::Builtin(name), params),
{
}

/// A type that is itself a parameter, wrapped in any number of boxes,
/// views, arrays, lists, or sets, mentions that parameter.
pub proof fn lemma_wrapped_param_mentions<'src>(ty: TypeRef<'src>, params: Seq<&str>)
    requires
        spec_type_ref_is_param(ty, params),
    ensures
        forall|s: Span| #![auto] spec_type_ref_mentions_param(TypeRef::SetOf(Box::new((ty, s))), params),
        forall|s: Span| #![auto] spec_type_ref_mentions_param(TypeRef::List(Box::new((ty, s))), params),
        forall|s: Span| #![auto] spec_type_ref_mentions_param(TypeRef::Box(Box::new((ty, s))), params),
        forall|s: Span| #![auto] spec_type_ref_mentions_param(TypeRef::View(Box::new((ty, s))), params),
        forall|s: Span, n: u64| #![auto] spec_type_ref_mentions_param(TypeRef::Array(Box::new((ty, s)), n), params),
{
    lemma_param_mentions_param(ty, params);
}

} // verus!
