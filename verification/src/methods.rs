//! The closed method surface of lists, maps, and sets. A call is checked in
//! three steps around the checking of its argument expressions: `plan_collection_call`
//! reports what can be told from the receiver, the method name, and the
//! argument count; `collection_argument` handles each checked argument in
//! order; `finish_collection_call` builds the checked call.
use vstd::prelude::*;
use crate::ast::{Arg, NumLiteral, Span};
use crate::checked::{Error, TArg, TExpr, TMethodCall, TStmt};
use crate::convert::{coerce, coerce_diagnostics, coerced, consume_into};
use crate::generics::{Diagnostics, diagnostics};
use crate::moves::{
    Binding, consume_effect, consume_moves, consumed, live_view_diagnostics, mark_consumed,
    reject_live_view_source,
};
use crate::names::{display_depth, mismatch, mismatch_message};
use crate::places::{MoveState, Place, PlaceRoot, UseMode, ViewBorrow};
use crate::text::{concat_str, decimal, decimal_string, str_eq};
use crate::ty::{CollectionDef, Ty, Types};

verus! {

/// What a checked call turned out to be.
#[derive(Debug)]
pub enum CheckedCall {
    Function { name: String, args: Vec<TArg>, result: Option<Ty> },
    Method { call: TMethodCall, result: Option<Ty> },
    Statement(TStmt),
    /// A constructor, wrap, or unwrap, or a built-in operation that
    /// produces a value.
    Value(TExpr, Ty),
}

pub open spec fn named_argument_message(name: Seq<char>, what: Seq<char>) -> Seq<char> {
    "named argument '"@ + name + "' is not valid for "@ + what
        + "; named arguments are only used to construct a struct"@
}

/// One diagnostic for each named argument among the first `n`, in order.
pub open spec fn named_argument_diagnostics(what: Seq<char>, args: Seq<Arg>, n: int) -> Diagnostics
    decreases if n > 0 { n as nat } else { 0 },
{
    if n <= 0 || n > args.len() {
        Seq::empty()
    } else {
        named_argument_diagnostics(what, args, n - 1) + match args[n - 1].name {
            Some((name, span)) => seq![(span, named_argument_message(name@, what))],
            None => Seq::empty(),
        }
    }
}

/// Rejects the named-argument form outside struct construction.
pub fn reject_named_args(errors: &mut Vec<Error>, what: &str, args: &[Arg])
    ensures
        diagnostics(final(errors)@) == diagnostics(old(errors)@) + named_argument_diagnostics(
            what@,
            args@,
            args@.len() as int,
        ),
{
    let ghost start = diagnostics(errors@);
    let mut i: usize = 0;
    while i < args.len()
        invariant
            i <= args@.len(),
            diagnostics(errors@) == start + named_argument_diagnostics(what@, args@, i as int),
        decreases args.len() - i,
    {
        let ghost before = diagnostics(errors@);
        match &args[i].name {
            Some((name, span)) => {
                let mut msg = concat_str("named argument '", name);
                msg.append("' is not valid for ");
                msg.append(what);
                msg.append("; named arguments are only used to construct a struct");
                errors.push(Error { span: *span, msg });
                proof {
                    assert(diagnostics(errors@) =~= before.push((*span, named_argument_message(name@, what@))));
                }
            },
            None => {},
        }
        i = i + 1;
        proof {
            assert(diagnostics(errors@) =~= start + named_argument_diagnostics(what@, args@, i as int));
        }
    }
}

/// The collection a receiver of the closed surface holds.
#[derive(Clone, Copy, Debug, PartialEq, Eq, Structural)]
pub enum Shape {
    List { elem: Ty },
    MapOf { key: Ty, value: Ty },
    SetOf { elem: Ty },
}

/// The interned collection of `ty` matches the kind its type names.
pub open spec fn shape_consistent(types: &Types, ty: Ty) -> bool {
    match ty {
        Ty::List(id) => types.collections@[id.0 as int] is List,
        Ty::MapOf(id) => types.collections@[id.0 as int] is MapOf,
        Ty::SetOf(id) => types.collections@[id.0 as int] is SetOf,
        _ => true,
    }
}

pub open spec fn spec_shape(types: &Types, ty: Ty) -> Option<Shape> {
    match ty {
        Ty::List(id) => match types.collections@[id.0 as int] {
            CollectionDef::List { elem } => Some(Shape::List { elem }),
            _ => None,
        },
        Ty::MapOf(id) => match types.collections@[id.0 as int] {
            CollectionDef::MapOf { key, value } => Some(Shape::MapOf { key, value }),
            _ => None,
        },
        Ty::SetOf(id) => match types.collections@[id.0 as int] {
            CollectionDef::SetOf { elem } => Some(Shape::SetOf { elem }),
            _ => None,
        },
        _ => None,
    }
}

/// The collection held by a value of type `ty`, if it is a list, a map,
/// or a set.
pub fn shape(types: &Types, ty: Ty) -> (r: Option<Shape>)
    requires
        types.valid_ty(ty),
    ensures
        r == spec_shape(types, ty),
{
    match ty {
        Ty::List(id) => match types.collection(id) {
            CollectionDef::List { elem } => Some(Shape::List { elem: *elem }),
            _ => None,
        },
        Ty::MapOf(id) => match types.collection(id) {
            CollectionDef::MapOf { key, value } => Some(Shape::MapOf { key: *key, value: *value }),
            _ => None,
        },
        Ty::SetOf(id) => match types.collection(id) {
            CollectionDef::SetOf { elem } => Some(Shape::SetOf { elem: *elem }),
            _ => None,
        },
        _ => None,
    }
}

/// One method of the closed collection surface.
#[derive(Clone, Copy, Debug, PartialEq, Eq, Structural)]
pub enum CollectionOp {
    ListPush,
    ListPop,
    ListRemove,
    ListInsert,
    ListReserve,
    ListClear,
    MapInsert,
    MapContains,
    MapDelete,
    MapTake,
    MapClear,
    MapReserve,
    SetInsert,
    SetDelete,
    SetContains,
    SetClear,
    SetReserve,
}

/// The method a name selects on a collection of the given shape.
pub open spec fn spec_collection_op(shape: Shape, name: Seq<char>) -> Option<CollectionOp> {
    match shape {
        Shape::List { .. } => if name == "push"@ {
            Some(CollectionOp::ListPush)
        } else if name == "pop"@ {
            Some(CollectionOp::ListPop)
        } else if name == "remove"@ {
            Some(CollectionOp::ListRemove)
        } else if name == "insert"@ {
            Some(CollectionOp::ListInsert)
        } else if name == "reserve"@ {
            Some(CollectionOp::ListReserve)
        } else if name == "clear"@ {
            Some(CollectionOp::ListClear)
        } else {
            None
        },
        Shape::MapOf { .. } => if name == "insert"@ {
            Some(CollectionOp::MapInsert)
        } else if name == "contains"@ {
            Some(CollectionOp::MapContains)
        } else if name == "delete"@ {
            Some(CollectionOp::MapDelete)
        } else if name == "take"@ {
            Some(CollectionOp::MapTake)
        } else if name == "clear"@ {
            Some(CollectionOp::MapClear)
        } else if name == "reserve"@ {
            Some(CollectionOp::MapReserve)
        } else {
            None
        },
        Shape::SetOf { .. } => if name == "insert"@ {
            Some(CollectionOp::SetInsert)
        } else if name == "delete"@ {
            Some(CollectionOp::SetDelete)
        } else if name == "contains"@ {
            Some(CollectionOp::SetContains)
        } else if name == "clear"@ {
            Some(CollectionOp::SetClear)
        } else if name == "reserve"@ {
            Some(CollectionOp::SetReserve)
        } else {
            None
        },
    }
}

fn collection_op(shape: Shape, name: &str) -> (r: Option<CollectionOp>)
    ensures
        r == spec_collection_op(shape, name@),
{
    match shape {
        Shape::List { .. } => if str_eq(name, "push") {
            Some(CollectionOp::ListPush)
        } else if str_eq(name, "pop") {
            Some(CollectionOp::ListPop)
        } else if str_eq(name, "remove") {
            Some(CollectionOp::ListRemove)
        } else if str_eq(name, "insert") {
            Some(CollectionOp::ListInsert)
        } else if str_eq(name, "reserve") {
            Some(CollectionOp::ListReserve)
        } else if str_eq(name, "clear") {
            Some(CollectionOp::ListClear)
        } else {
            None
        },
        Shape::MapOf { .. } => if str_eq(name, "insert") {
            Some(CollectionOp::MapInsert)
        } else if str_eq(name, "contains") {
            Some(CollectionOp::MapContains)
        } else if str_eq(name, "delete") {
            Some(CollectionOp::MapDelete)
        } else if str_eq(name, "take") {
            Some(CollectionOp::MapTake)
        } else if str_eq(name, "clear") {
            Some(CollectionOp::MapClear)
        } else if str_eq(name, "reserve") {
            Some(CollectionOp::MapReserve)
        } else {
            None
        },
        Shape::SetOf { .. } => if str_eq(name, "insert") {
            Some(CollectionOp::SetInsert)
        } else if str_eq(name, "delete") {
            Some(CollectionOp::SetDelete)
        } else if str_eq(name, "contains") {
            Some(CollectionOp::SetContains)
        } else if str_eq(name, "clear") {
            Some(CollectionOp::SetClear)
        } else if str_eq(name, "reserve") {
            Some(CollectionOp::SetReserve)
        } else {
            None
        },
    }
}

/// The method's name as written.
pub open spec fn spec_op_name(op: CollectionOp) -> Seq<char> {
    match op {
        CollectionOp::ListPush => "push"@,
        CollectionOp::ListPop => "pop"@,
        CollectionOp::ListRemove => "remove"@,
        CollectionOp::ListInsert | CollectionOp::MapInsert | CollectionOp::SetInsert => "insert"@,
        CollectionOp::ListReserve | CollectionOp::MapReserve | CollectionOp::SetReserve => "reserve"@,
        CollectionOp::ListClear | CollectionOp::MapClear | CollectionOp::SetClear => "clear"@,
        CollectionOp::MapContains | CollectionOp::SetContains => "contains"@,
        CollectionOp::MapDelete | CollectionOp::SetDelete => "delete"@,
        CollectionOp::MapTake => "take"@,
    }
}

fn op_name(op: CollectionOp) -> (r: &'static str)
    ensures
        r@ == spec_op_name(op),
{
    match op {
        CollectionOp::ListPush => "push",
        CollectionOp::ListPop => "pop",
        CollectionOp::ListRemove => "remove",
        CollectionOp::ListInsert | CollectionOp::MapInsert | CollectionOp::SetInsert => "insert",
        CollectionOp::ListReserve | CollectionOp::MapReserve | CollectionOp::SetReserve => "reserve",
        CollectionOp::ListClear | CollectionOp::MapClear | CollectionOp::SetClear => "clear",
        CollectionOp::MapContains | CollectionOp::SetContains => "contains",
        CollectionOp::MapDelete | CollectionOp::SetDelete => "delete",
        CollectionOp::MapTake => "take",
    }
}

pub open spec fn is_list_op(op: CollectionOp) -> bool {
    op is ListPush || op is ListPop || op is ListRemove || op is ListInsert || op is ListReserve
        || op is ListClear
}

pub open spec fn is_map_op(op: CollectionOp) -> bool {
    op is MapInsert || op is MapContains || op is MapDelete || op is MapTake || op is MapClear
        || op is MapReserve
}

/// `List.push`, `Map.insert`, and so on.
pub open spec fn spec_qualified_name(op: CollectionOp) -> Seq<char> {
    (if is_list_op(op) {
        "List."@
    } else if is_map_op(op) {
        "Map."@
    } else {
        "Set."@
    }) + spec_op_name(op)
}

fn qualified_name(op: CollectionOp) -> (r: String)
    ensures
        r@ == spec_qualified_name(op),
{
    let kind = match op {
        CollectionOp::ListPush | CollectionOp::ListPop | CollectionOp::ListRemove | CollectionOp::ListInsert
        | CollectionOp::ListReserve | CollectionOp::ListClear => "List.",
        CollectionOp::MapInsert | CollectionOp::MapContains | CollectionOp::MapDelete | CollectionOp::MapTake
        | CollectionOp::MapClear | CollectionOp::MapReserve => "Map.",
        _ => "Set.",
    };
    concat_str(kind, op_name(op))
}

/// How many arguments the method takes.
pub open spec fn op_arity(op: CollectionOp) -> nat {
    match op {
        CollectionOp::ListPop | CollectionOp::ListClear | CollectionOp::MapClear | CollectionOp::SetClear => 0,
        CollectionOp::ListInsert | CollectionOp::MapInsert => 2,
        _ => 1,
    }
}

/// The subject named in the diagnostic for a named argument.
pub open spec fn spec_named_subject(op: CollectionOp) -> Seq<char> {
    if is_list_op(op) {
        "a "@ + spec_qualified_name(op) + " call"@
    } else if op is MapContains || op is MapDelete || op is MapTake {
        "a map operation"@
    } else if op is SetInsert || op is SetDelete || op is SetContains {
        "a set operation"@
    } else {
        spec_qualified_name(op)
    }
}

fn named_subject(op: CollectionOp) -> (r: String)
    ensures
        r@ == spec_named_subject(op),
{
    match op {
        CollectionOp::MapContains | CollectionOp::MapDelete | CollectionOp::MapTake => String::from_str(
            "a map operation",
        ),
        CollectionOp::SetInsert | CollectionOp::SetDelete | CollectionOp::SetContains => String::from_str(
            "a set operation",
        ),
        CollectionOp::ListPush | CollectionOp::ListPop | CollectionOp::ListRemove | CollectionOp::ListInsert
        | CollectionOp::ListReserve | CollectionOp::ListClear => {
            let mut s = concat_str("a ", qualified_name(op).as_str());
            s.append(" call");
            s
        },
        _ => qualified_name(op),
    }
}

/// Whether the receiver's mutability is checked before the arguments.
pub open spec fn early_mutability(op: CollectionOp) -> bool {
    is_list_op(op) || op is MapInsert || op is MapClear || op is MapReserve || op is SetClear
        || op is SetReserve
}

pub open spec fn mutability_message(op: CollectionOp) -> Seq<char> {
    spec_qualified_name(op) + " requires a mutable "@ + (if is_list_op(op) {
        "list"@
    } else if is_map_op(op) {
        "map"@
    } else {
        "set"@
    }) + " receiver"@
}

fn mutability_error(errors: &mut Vec<Error>, span: Span, op: CollectionOp)
    ensures
        diagnostics(final(errors)@) == diagnostics(old(errors)@).push((span, mutability_message(op))),
{
    let mut msg = qualified_name(op);
    msg.append(" requires a mutable ");
    let kind = match op {
        CollectionOp::ListPush | CollectionOp::ListPop | CollectionOp::ListRemove | CollectionOp::ListInsert
        | CollectionOp::ListReserve | CollectionOp::ListClear => "list",
        CollectionOp::MapInsert | CollectionOp::MapContains | CollectionOp::MapDelete | CollectionOp::MapTake
        | CollectionOp::MapClear | CollectionOp::MapReserve => "map",
        _ => "set",
    };
    msg.append(kind);
    msg.append(" receiver");
    let ghost before = diagnostics(errors@);
    errors.push(Error { span, msg });
    proof {
        assert(diagnostics(errors@) =~= before.push((span, mutability_message(op))));
    }
}

pub open spec fn arity_message(op: CollectionOp, found: nat) -> Seq<char> {
    spec_qualified_name(op) + " expects "@ + (if op_arity(op) == 0 {
        "no arguments"@
    } else if op_arity(op) == 1 {
        "1 argument"@
    } else {
        "2 arguments"@
    }) + ", found "@ + decimal(found)
}

fn arity_error(errors: &mut Vec<Error>, span: Span, op: CollectionOp, found: usize)
    ensures
        diagnostics(final(errors)@) == diagnostics(old(errors)@).push((span, arity_message(op, found as nat))),
{
    let mut msg = qualified_name(op);
    msg.append(" expects ");
    let expected = match op {
        CollectionOp::ListPop | CollectionOp::ListClear | CollectionOp::MapClear | CollectionOp::SetClear => "no arguments",
        CollectionOp::ListInsert | CollectionOp::MapInsert => "2 arguments",
        _ => "1 argument",
    };
    msg.append(expected);
    msg.append(", found ");
    msg.append(decimal_string(found).as_str());
    let ghost before = diagnostics(errors@);
    errors.push(Error { span, msg });
    proof {
        assert(diagnostics(errors@) =~= before.push((span, arity_message(op, found as nat))));
    }
}

/// What the checker does next with a call on a collection receiver.
#[derive(Debug)]
pub enum CallPlan {
    /// Not a method of the closed collection surface.
    Unhandled,
    /// The call is checked; its arguments are not looked at.
    Done(CheckedCall),
    /// Each argument is checked for its own diagnostics only; then the
    /// call is this.
    CheckOnly(CheckedCall),
    /// Each argument is checked in order and handed to
    /// `collection_argument`; `finish_collection_call` then builds the
    /// call on this receiver.
    Arguments(CollectionOp, Place),
}

/// The key (or element) type of a collection.
pub open spec fn shape_key(shape: Shape) -> Ty {
    match shape {
        Shape::List { elem } => elem,
        Shape::MapOf { key, .. } => key,
        Shape::SetOf { elem } => elem,
    }
}

/// The value type of a map.
pub open spec fn shape_value(shape: Shape) -> Ty {
    match shape {
        Shape::MapOf { value, .. } => value,
        _ => Ty::Nil,
    }
}

/// Every type the shape names is valid.
pub open spec fn shape_valid(types: &Types, shape: Shape) -> bool {
    match shape {
        Shape::List { elem } => types.valid_ty(elem),
        Shape::MapOf { key, value } => types.valid_ty(key) && types.valid_ty(value),
        Shape::SetOf { elem } => types.valid_ty(elem),
    }
}

/// The method belongs to the surface of the shape.
pub open spec fn op_fits(shape: Shape, op: CollectionOp) -> bool {
    match shape {
        Shape::List { .. } => is_list_op(op),
        Shape::MapOf { .. } => is_map_op(op),
        Shape::SetOf { .. } => !is_list_op(op) && !is_map_op(op),
    }
}

/// Map keys and set elements are scalars or `String`.
pub open spec fn supported_key(ty: Ty) -> bool {
    ty is Byte || ty is UInt16 || ty is UInt32 || ty is UInt64 || ty is Int64 || ty is Bool
        || ty is Unicode || ty is String
}

pub open spec fn unsupported_key(shape: Shape) -> bool {
    !(shape is List) && !supported_key(shape_key(shape))
}

pub open spec fn unsupported_key_message(shape: Shape) -> Seq<char> {
    if shape is MapOf {
        "Map operations require a supported scalar or String key"@
    } else {
        "Set operations require a supported scalar or String element"@
    }
}

/// Whether a live view of the receiver is rejected before the method is
/// looked at: every list method, and the map and set names that may
/// change the collection.
pub open spec fn live_view_checked(shape: Shape, name: Seq<char>) -> bool {
    if shape is List {
        spec_collection_op(shape, name) is Some
    } else {
        name == "insert"@ || name == "delete"@ || name == "take"@ || name == "clear"@ || name
            == "reserve"@
    }
}

/// The diagnostics told from the receiver, the method name, and the
/// argument count, in order.
pub open spec fn plan_diagnostics(
    borrows: Seq<ViewBorrow>,
    receiver: Place,
    shape: Shape,
    mutable: bool,
    name: Seq<char>,
    args: Seq<Arg>,
    span: Span,
) -> Diagnostics {
    if unsupported_key(shape) {
        seq![(span, unsupported_key_message(shape))]
    } else {
        (if live_view_checked(shape, name) {
            live_view_diagnostics(borrows, receiver.root@, span)
        } else {
            Seq::empty()
        }) + match spec_collection_op(shape, name) {
            None => Seq::empty(),
            Some(op) => named_argument_diagnostics(spec_named_subject(op), args, args.len() as int) + (if early_mutability(op)
                && !mutable {
                seq![(span, mutability_message(op))]
            } else {
                Seq::empty()
            }) + (if args.len() != op_arity(op) {
                seq![(span, arity_message(op, args.len()))]
            } else {
                Seq::empty()
            }),
        }
    }
}

/// The call a method stands for when its arguments are not used: the
/// methods without arguments, and any call with the wrong count.
pub open spec fn fallback_call(shape: Shape, op: CollectionOp, receiver: Place) -> CheckedCall {
    let key = shape_key(shape);
    let value_ty = shape_value(shape);
    match op {
        CollectionOp::ListPush => CheckedCall::Statement(TStmt::ListPush { receiver, value: TExpr::Nil, elem: key }),
        CollectionOp::ListPop => CheckedCall::Value(TExpr::ListPop { receiver, elem: key }, key),
        CollectionOp::ListRemove => CheckedCall::Value(
            TExpr::ListRemove { receiver, index: Box::new(TExpr::Num(NumLiteral::Int(0))), elem: key },
            key,
        ),
        CollectionOp::ListInsert => CheckedCall::Statement(
            TStmt::ListInsert { receiver, index: TExpr::Num(NumLiteral::Int(0)), value: TExpr::Nil, elem: key },
        ),
        CollectionOp::ListReserve => CheckedCall::Statement(
            TStmt::ListReserve { receiver, minimum: TExpr::Num(NumLiteral::Int(0)), elem: key },
        ),
        CollectionOp::ListClear => CheckedCall::Statement(TStmt::ListClear { receiver, elem: key }),
        CollectionOp::MapClear => CheckedCall::Statement(TStmt::MapClear { receiver, key_ty: key, value_ty }),
        CollectionOp::MapReserve => CheckedCall::Statement(
            TStmt::MapReserve { receiver, minimum: TExpr::Num(NumLiteral::Int(0)), key_ty: key, value_ty },
        ),
        CollectionOp::SetClear => CheckedCall::Statement(TStmt::SetClear { receiver, elem: key }),
        CollectionOp::SetReserve => CheckedCall::Statement(
            TStmt::SetReserve { receiver, minimum: TExpr::Num(NumLiteral::Int(0)), elem: key },
        ),
        _ => CheckedCall::Value(TExpr::Bool(false), Ty::Bool),
    }
}

/// What the checker does next, told from the receiver, the method name,
/// and the argument count.
pub open spec fn spec_plan(shape: Shape, receiver: Place, name: Seq<char>, argc: nat) -> CallPlan {
    if unsupported_key(shape) {
        CallPlan::Done(CheckedCall::Value(TExpr::Nil, Ty::Nil))
    } else {
        match spec_collection_op(shape, name) {
            None => CallPlan::Unhandled,
            Some(op) => if op is MapClear {
                CallPlan::Done(fallback_call(shape, op, receiver))
            } else if op_arity(op) == 0 || argc != op_arity(op) {
                CallPlan::CheckOnly(fallback_call(shape, op, receiver))
            } else {
                CallPlan::Arguments(op, receiver)
            },
        }
    }
}

fn arity(op: CollectionOp) -> (r: usize)
    ensures
        r == op_arity(op),
{
    match op {
        CollectionOp::ListPop | CollectionOp::ListClear | CollectionOp::MapClear | CollectionOp::SetClear => 0,
        CollectionOp::ListInsert | CollectionOp::MapInsert => 2,
        _ => 1,
    }
}

fn build_fallback(shape: Shape, op: CollectionOp, receiver: Place) -> (r: CheckedCall)
    ensures
        r == fallback_call(shape, op, receiver),
{
    let key = match shape {
        Shape::List { elem } => elem,
        Shape::MapOf { key, .. } => key,
        Shape::SetOf { elem } => elem,
    };
    let value_ty = match shape {
        Shape::MapOf { value, .. } => value,
        _ => Ty::Nil,
    };
    match op {
        CollectionOp::ListPush => CheckedCall::Statement(TStmt::ListPush { receiver, value: TExpr::Nil, elem: key }),
        CollectionOp::ListPop => CheckedCall::Value(TExpr::ListPop { receiver, elem: key }, key),
        CollectionOp::ListRemove => CheckedCall::Value(
            TExpr::ListRemove { receiver, index: Box::new(TExpr::Num(NumLiteral::Int(0))), elem: key },
            key,
        ),
        CollectionOp::ListInsert => CheckedCall::Statement(
            TStmt::ListInsert { receiver, index: TExpr::Num(NumLiteral::Int(0)), value: TExpr::Nil, elem: key },
        ),
        CollectionOp::ListReserve => CheckedCall::Statement(
            TStmt::ListReserve { receiver, minimum: TExpr::Num(NumLiteral::Int(0)), elem: key },
        ),
        CollectionOp::ListClear => CheckedCall::Statement(TStmt::ListClear { receiver, elem: key }),
        CollectionOp::MapClear => CheckedCall::Statement(TStmt::MapClear { receiver, key_ty: key, value_ty }),
        CollectionOp::MapReserve => CheckedCall::Statement(
            TStmt::MapReserve { receiver, minimum: TExpr::Num(NumLiteral::Int(0)), key_ty: key, value_ty },
        ),
        CollectionOp::SetClear => CheckedCall::Statement(TStmt::SetClear { receiver, elem: key }),
        CollectionOp::SetReserve => CheckedCall::Statement(
            TStmt::SetReserve { receiver, minimum: TExpr::Num(NumLiteral::Int(0)), elem: key },
        ),
        _ => CheckedCall::Value(TExpr::Bool(false), Ty::Bool),
    }
}

fn is_supported_key(ty: Ty) -> (r: bool)
    ensures
        r == supported_key(ty),
{
    matches!(ty, Ty::Byte | Ty::UInt16 | Ty::UInt32 | Ty::UInt64 | Ty::Int64 | Ty::Bool | Ty::Unicode | Ty::String)
}

/// Checks what a call on a list, map, or set receiver allows before its
/// arguments are looked at: that a map key or set element type is
/// supported, that a method which may change the collection does not
/// replace a collection a live view borrows, that no argument is named,
/// that the receiver is mutable where the method changes it, and that the
/// argument count is right. Says what the checker does next.
pub fn plan_collection_call(
    types: &Types,
    borrows: &Vec<ViewBorrow>,
    errors: &mut Vec<Error>,
    span: Span,
    receiver: Place,
    mutable: bool,
    name: &str,
    args: &[Arg],
) -> (r: CallPlan)
    requires
        types.valid_ty(receiver.ty),
        shape_consistent(types, receiver.ty),
    ensures
        match spec_shape(types, receiver.ty) {
            None => r is Unhandled && final(errors)@ == old(errors)@,
            Some(shape) => {
                &&& diagnostics(final(errors)@) == diagnostics(old(errors)@) + plan_diagnostics(
                    borrows@,
                    receiver,
                    shape,
                    mutable,
                    name@,
                    args@,
                    span,
                )
                &&& r == spec_plan(shape, receiver, name@, args@.len())
            },
        },
{
    let shape = match shape(types, receiver.ty) {
        Some(shape) => shape,
        None => {
            return CallPlan::Unhandled;
        },
    };
    let ghost start = diagnostics(errors@);
    let is_list = matches!(shape, Shape::List { .. });
    if !is_list {
        let key = match shape {
            Shape::MapOf { key, .. } => key,
            Shape::SetOf { elem } => elem,
            Shape::List { elem } => elem,
        };
        if !is_supported_key(key) {
            let msg = if matches!(shape, Shape::MapOf { .. }) {
                String::from_str("Map operations require a supported scalar or String key")
            } else {
                String::from_str("Set operations require a supported scalar or String element")
            };
            errors.push(Error { span, msg });
            proof {
                assert(diagnostics(errors@) =~= start + plan_diagnostics(
                    borrows@,
                    receiver,
                    shape,
                    mutable,
                    name@,
                    args@,
                    span,
                ));
            }
            return CallPlan::Done(CheckedCall::Value(TExpr::Nil, Ty::Nil));
        }
    }
    let op = collection_op(shape, name);
    let live = if is_list {
        op.is_some()
    } else {
        str_eq(name, "insert") || str_eq(name, "delete") || str_eq(name, "take") || str_eq(name, "clear")
            || str_eq(name, "reserve")
    };
    if live {
        reject_live_view_source(borrows, &receiver.root, span, errors);
    }
    let ghost after_live = diagnostics(errors@);
    proof {
        assert(after_live == start + (if live_view_checked(shape, name@) {
            live_view_diagnostics(borrows@, receiver.root@, span)
        } else {
            Seq::empty()
        })) by {
            if !live {
                assert(start =~= start + Seq::<(Span, Seq<char>)>::empty());
            }
        }
    }
    let op = match op {
        Some(op) => op,
        None => {
            proof {
                assert(diagnostics(errors@) =~= start + plan_diagnostics(
                    borrows@,
                    receiver,
                    shape,
                    mutable,
                    name@,
                    args@,
                    span,
                ));
            }
            return CallPlan::Unhandled;
        },
    };
    let subject = named_subject(op);
    reject_named_args(errors, subject.as_str(), args);
    let ghost after_named = diagnostics(errors@);
    let early = match op {
        CollectionOp::MapContains | CollectionOp::MapDelete | CollectionOp::MapTake | CollectionOp::SetInsert
        | CollectionOp::SetDelete | CollectionOp::SetContains => false,
        _ => true,
    };
    if early && !mutable {
        mutability_error(errors, span, op);
    }
    let ghost after_mutable = diagnostics(errors@);
    let expected = arity(op);
    if args.len() != expected {
        arity_error(errors, span, op, args.len());
    }
    proof {
        let m: Diagnostics = if early_mutability(op) && !mutable {
            seq![(span, mutability_message(op))]
        } else {
            Seq::empty()
        };
        let a: Diagnostics = if args@.len() != op_arity(op) {
            seq![(span, arity_message(op, args@.len()))]
        } else {
            Seq::empty()
        };
        assert(after_mutable =~= after_named + m);
        assert(diagnostics(errors@) =~= after_mutable + a);
        assert(diagnostics(errors@) =~= start + plan_diagnostics(
            borrows@,
            receiver,
            shape,
            mutable,
            name@,
            args@,
            span,
        ));
    }
    if matches!(op, CollectionOp::MapClear) {
        CallPlan::Done(build_fallback(shape, op, receiver))
    } else if expected == 0 || args.len() != expected {
        CallPlan::CheckOnly(build_fallback(shape, op, receiver))
    } else {
        CallPlan::Arguments(op, receiver)
    }
}

/// The argument at `position` is stored into the collection: a list
/// element or a map value.
pub open spec fn is_stored_value(op: CollectionOp, position: int) -> bool {
    (op is ListPush && position == 0) || (op is ListInsert && position == 1) || (op is MapInsert && position
        == 1)
}

/// The argument at `position` must be an `Int64`: an index or a minimum
/// capacity.
pub open spec fn is_integer_argument(op: CollectionOp, position: int) -> bool {
    op is ListRemove || op is ListReserve || op is MapReserve || op is SetReserve || (op is ListInsert
        && position == 0)
}

/// The argument at `position` is taken over by the collection.
pub open spec fn consumes_argument(shape: Shape, op: CollectionOp, position: int) -> bool {
    is_stored_value(op, position) || (op is MapInsert && position == 0) || (op is SetInsert
        && shape_key(shape) == Ty::String)
}

/// The type a stored argument is made assignable to.
pub open spec fn stored_target(shape: Shape) -> Ty {
    match shape {
        Shape::MapOf { value, .. } => value,
        _ => shape_key(shape),
    }
}

/// The diagnostic, if any, for a value of type `found` where `expected`
/// is required.
pub open spec fn type_check(types: &Types, expected: Ty, found: Ty, span: Span) -> Diagnostics {
    if found != expected {
        seq![(span, mismatch_message(types, expected, found))]
    } else {
        Seq::empty()
    }
}

/// The diagnostics of handling the checked argument at `position`.
pub open spec fn argument_diagnostics(
    types: &Types,
    moves: Seq<(PlaceRoot, Span)>,
    borrows: Seq<ViewBorrow>,
    env: Seq<Binding>,
    shape: Shape,
    op: CollectionOp,
    position: int,
    value: TExpr,
    found: Ty,
    span: Span,
) -> Diagnostics {
    let key = shape_key(shape);
    if is_stored_value(op, position) {
        consume_effect(types, moves, borrows, env, value, span) + coerce_diagnostics(
            types,
            value is Place,
            found,
            stored_target(shape),
            span,
        )
    } else if is_integer_argument(op, position) {
        type_check(types, Ty::Int64, found, span)
    } else if op is MapInsert {
        type_check(types, key, found, span) + consume_effect(types, moves, borrows, env, value, span)
    } else if op is MapContains || op is MapDelete || op is MapTake {
        if key == Ty::String {
            coerce_diagnostics(types, value is Place, found, Ty::ViewByte, span)
        } else {
            type_check(types, key, found, span)
        }
    } else if op is SetInsert && key == Ty::String {
        type_check(types, key, found, span) + consume_effect(types, moves, borrows, env, value, span)
    } else {
        type_check(types, key, found, span)
    }
}

/// `r` is the checked argument at `position` after its handling.
pub open spec fn argument_result(
    types: &Types,
    shape: Shape,
    op: CollectionOp,
    position: int,
    value: TExpr,
    found: Ty,
    r: TExpr,
) -> bool {
    let key = shape_key(shape);
    if is_stored_value(op, position) {
        coerced(types, consumed(value), found, stored_target(shape), r)
    } else if is_integer_argument(op, position) {
        r == value
    } else if op is MapInsert {
        r == consumed(value)
    } else if (op is MapContains || op is MapDelete || op is MapTake) && key == Ty::String {
        coerced(types, value, found, Ty::ViewByte, r)
    } else if op is SetInsert && key == Ty::String {
        r == consumed(value)
    } else {
        r == value
    }
}

fn check_type(types: &Types, errors: &mut Vec<Error>, expected: Ty, found: Ty, span: Span)
    requires
        types.wf(),
        types.valid_ty(expected),
        types.valid_ty(found),
        display_depth(types) <= usize::MAX,
    ensures
        diagnostics(final(errors)@) == diagnostics(old(errors)@) + type_check(types, expected, found, span),
{
    let ghost start = diagnostics(errors@);
    if found != expected {
        let msg = mismatch(types, expected, found);
        errors.push(Error { span, msg });
        proof {
            assert(diagnostics(errors@) =~= start + type_check(types, expected, found, span));
        }
    } else {
        proof {
            assert(start =~= start + type_check(types, expected, found, span));
        }
    }
}

/// Handles the checked argument at `position` of a call planned as
/// `op`: a stored value is taken over and made assignable to the element
/// or value type; an index or minimum capacity must be an `Int64`; a map
/// key must have the key type and is taken over by `insert`; a `String`
/// key used to look up, delete, or take is lent as a text view; a set
/// element must have the element type, and a `String` one is taken over
/// by `insert`.
pub fn collection_argument(
    types: &Types,
    moves: &mut MoveState,
    borrows: &Vec<ViewBorrow>,
    env: &Vec<Binding>,
    errors: &mut Vec<Error>,
    shape: Shape,
    op: CollectionOp,
    position: usize,
    value: TExpr,
    found: Ty,
    span: Span,
) -> (r: TExpr)
    requires
        types.wf(),
        types.layout_finite(),
        display_depth(types) <= usize::MAX,
        old(moves).wf(),
        shape_valid(types, shape),
        op_fits(shape, op),
        position < op_arity(op),
        types.valid_ty(found),
        value matches TExpr::Place(p, _) ==> types.valid_ty(p.ty) && types.valid_ty(p.root_ty),
    ensures
        final(moves).wf(),
        diagnostics(final(errors)@) == diagnostics(old(errors)@) + argument_diagnostics(
            types,
            old(moves).entries@,
            borrows@,
            env@,
            shape,
            op,
            position as int,
            value,
            found,
            span,
        ),
        argument_result(types, shape, op, position as int, value, found, r),
        if consumes_argument(shape, op, position as int) {
            consume_moves(types, env@, old(moves).entries@, final(moves).entries@, value, span)
        } else {
            final(moves).entries@ == old(moves).entries@
        },
{
    let ghost start = diagnostics(errors@);
    let ghost moves0 = moves.entries@;
    let key = match shape {
        Shape::List { elem } => elem,
        Shape::MapOf { key, .. } => key,
        Shape::SetOf { elem } => elem,
    };
    let stored = match op {
        CollectionOp::ListPush => position == 0,
        CollectionOp::ListInsert | CollectionOp::MapInsert => position == 1,
        _ => false,
    };
    let integer = match op {
        CollectionOp::ListRemove | CollectionOp::ListReserve | CollectionOp::MapReserve
        | CollectionOp::SetReserve => true,
        CollectionOp::ListInsert => position == 0,
        _ => false,
    };
    if stored {
        let target = match shape {
            Shape::MapOf { value, .. } => value,
            _ => key,
        };
        consume_into(types, moves, borrows, env, errors, value, found, target, span)
    } else if integer {
        check_type(types, errors, Ty::Int64, found, span);
        value
    } else if matches!(op, CollectionOp::MapInsert) {
        check_type(types, errors, key, found, span);
        let ghost mid = diagnostics(errors@);
        let r = mark_consumed(types, moves, borrows, env, errors, value, span);
        proof {
            assert(diagnostics(errors@) =~= start + argument_diagnostics(
                types,
                moves0,
                borrows@,
                env@,
                shape,
                op,
                position as int,
                value,
                found,
                span,
            ));
        }
        r
    } else if matches!(op, CollectionOp::MapContains | CollectionOp::MapDelete | CollectionOp::MapTake) {
        if key == Ty::String {
            coerce(types, errors, value, found, Ty::ViewByte, span)
        } else {
            check_type(types, errors, key, found, span);
            value
        }
    } else if matches!(op, CollectionOp::SetInsert) && key == Ty::String {
        check_type(types, errors, key, found, span);
        let ghost mid = diagnostics(errors@);
        let r = mark_consumed(types, moves, borrows, env, errors, value, span);
        proof {
            assert(diagnostics(errors@) =~= start + argument_diagnostics(
                types,
                moves0,
                borrows@,
                env@,
                shape,
                op,
                position as int,
                value,
                found,
                span,
            ));
        }
        r
    } else {
        check_type(types, errors, key, found, span);
        value
    }
}

/// The key type a map lookup, deletion, or take is checked with: a text
/// view for a `String` key, else the argument's own type.
pub open spec fn query_type(shape: Shape, found: Ty) -> Ty {
    if shape_key(shape) == Ty::String {
        Ty::ViewByte
    } else {
        found
    }
}

/// Whether the receiver's mutability is checked after the arguments.
pub open spec fn late_mutability(op: CollectionOp) -> bool {
    op is MapDelete || op is MapTake || op is SetInsert || op is SetDelete
}

/// The diagnostics of building the call once its arguments are handled:
/// the receiver's mutability where it is checked last, then the lending
/// of a `String` set element as a text view.
pub open spec fn finish_diagnostics(
    types: &Types,
    shape: Shape,
    op: CollectionOp,
    mutable: bool,
    args: Seq<(TExpr, Ty, Span)>,
    span: Span,
) -> Diagnostics {
    (if late_mutability(op) && !mutable {
        seq![(span, mutability_message(op))]
    } else {
        Seq::empty()
    }) + (if (op is SetDelete || op is SetContains) && shape_key(shape) == Ty::String {
        coerce_diagnostics(types, args[0].0 is Place, args[0].1, Ty::ViewByte, args[0].2)
    } else {
        Seq::empty()
    })
}

/// The set element a deletion or membership test looks up.
pub open spec fn set_query(types: &Types, shape: Shape, arg: (TExpr, Ty, Span), q: TExpr) -> bool {
    if shape_key(shape) == Ty::String {
        coerced(types, arg.0, arg.1, Ty::ViewByte, q)
    } else {
        q == arg.0
    }
}

/// `r` is the call `op` on `receiver` with the handled arguments `args`.
pub open spec fn finished_call(
    types: &Types,
    shape: Shape,
    op: CollectionOp,
    receiver: Place,
    args: Seq<(TExpr, Ty, Span)>,
    r: CheckedCall,
) -> bool {
    let key = shape_key(shape);
    let value_ty = shape_value(shape);
    match op {
        CollectionOp::ListPush => r == CheckedCall::Statement(TStmt::ListPush { receiver, value: args[0].0, elem: key }),
        CollectionOp::ListRemove => r == CheckedCall::Value(
            TExpr::ListRemove { receiver, index: Box::new(args[0].0), elem: key },
            key,
        ),
        CollectionOp::ListInsert => r == CheckedCall::Statement(
            TStmt::ListInsert { receiver, index: args[0].0, value: args[1].0, elem: key },
        ),
        CollectionOp::ListReserve => r == CheckedCall::Statement(
            TStmt::ListReserve { receiver, minimum: args[0].0, elem: key },
        ),
        CollectionOp::MapInsert => r == CheckedCall::Value(
            TExpr::MapInsert {
                receiver,
                key: Box::new(args[0].0),
                value: Box::new(args[1].0),
                key_ty: key,
                value_ty,
                require_existing: false,
            },
            Ty::Bool,
        ),
        CollectionOp::MapContains => r == CheckedCall::Value(
            TExpr::MapContains {
                receiver: Box::new(TExpr::Place(receiver, UseMode::Copy)),
                key: Box::new(args[0].0),
                key_ty: query_type(shape, args[0].1),
                value_ty,
            },
            Ty::Bool,
        ),
        CollectionOp::MapDelete => r == CheckedCall::Value(
            TExpr::MapDelete {
                receiver,
                key: Box::new(args[0].0),
                key_ty: query_type(shape, args[0].1),
                value_ty,
            },
            Ty::Bool,
        ),
        CollectionOp::MapTake => r == CheckedCall::Value(
            TExpr::MapTake {
                receiver,
                key: Box::new(args[0].0),
                key_ty: query_type(shape, args[0].1),
                value_ty,
            },
            value_ty,
        ),
        CollectionOp::MapReserve => r == CheckedCall::Statement(
            TStmt::MapReserve { receiver, minimum: args[0].0, key_ty: key, value_ty },
        ),
        CollectionOp::SetInsert => r == CheckedCall::Value(
            TExpr::SetInsert { receiver, value: Box::new(args[0].0), elem: key },
            Ty::Bool,
        ),
        CollectionOp::SetDelete => match r {
            CheckedCall::Value(TExpr::SetDelete { receiver: rr, value: q, elem }, t) => rr == receiver && elem
                == key && t == Ty::Bool && set_query(types, shape, args[0], *q),
            _ => false,
        },
        CollectionOp::SetContains => match r {
            CheckedCall::Value(TExpr::SetContains { receiver: rr, value: q, elem }, t) => *rr == TExpr::Place(
                receiver,
                UseMode::Copy,
            ) && elem == key && t == Ty::Bool && set_query(types, shape, args[0], *q),
            _ => false,
        },
        CollectionOp::SetReserve => r == CheckedCall::Statement(
            TStmt::SetReserve { receiver, minimum: args[0].0, elem: key },
        ),
        _ => false,
    }
}

/// Builds a call planned as `op` from its handled arguments, each with
/// the type it was checked at and its source range, in order. A map or
/// set method that changes the collection and checks its receiver's
/// mutability last reports an immutable one here; a `String` set element
/// is lent as a text view to look it up or delete it.
pub fn finish_collection_call(
    types: &Types,
    errors: &mut Vec<Error>,
    span: Span,
    receiver: Place,
    mutable: bool,
    shape: Shape,
    op: CollectionOp,
    args: Vec<(TExpr, Ty, Span)>,
) -> (r: CheckedCall)
    requires
        types.wf(),
        display_depth(types) <= usize::MAX,
        shape_valid(types, shape),
        op_fits(shape, op),
        op_arity(op) >= 1,
        args@.len() == op_arity(op),
        forall|i: int| 0 <= i < args@.len() ==> types.valid_ty(#[trigger] args@[i].1),
    ensures
        diagnostics(final(errors)@) == diagnostics(old(errors)@) + finish_diagnostics(
            types,
            shape,
            op,
            mutable,
            args@,
            span,
        ),
        finished_call(types, shape, op, receiver, args@, r),
{
    let ghost start = diagnostics(errors@);
    let ghost all = args@;
    let key = match shape {
        Shape::List { elem } => elem,
        Shape::MapOf { key, .. } => key,
        Shape::SetOf { elem } => elem,
    };
    let value_ty = match shape {
        Shape::MapOf { value, .. } => value,
        _ => Ty::Nil,
    };
    let late = matches!(
        op,
        CollectionOp::MapDelete | CollectionOp::MapTake | CollectionOp::SetInsert | CollectionOp::SetDelete
    );
    if late && !mutable {
        mutability_error(errors, span, op);
    }
    let ghost after_mutable = diagnostics(errors@);
    proof {
        assert(after_mutable =~= start + (if late_mutability(op) && !mutable {
            seq![(span, mutability_message(op))]
        } else {
            Seq::empty()
        }));
    }
    let mut args = args;
    let (first, first_ty, first_span) = args.remove(0);
    let second = if args.len() > 0 {
        let (v, _, _) = args.remove(0);
        v
    } else {
        TExpr::Nil
    };
    proof {
        assert(first == all[0].0 && first_ty == all[0].1 && first_span == all[0].2);
        if all.len() > 1 {
            assert(second == all[1].0);
        }
        assert(types.valid_ty(all[0].1));
    }
    let query_ty = if key == Ty::String {
        Ty::ViewByte
    } else {
        first_ty
    };
    let r = match op {
        CollectionOp::ListPush => CheckedCall::Statement(TStmt::ListPush { receiver, value: first, elem: key }),
        CollectionOp::ListRemove => CheckedCall::Value(
            TExpr::ListRemove { receiver, index: Box::new(first), elem: key },
            key,
        ),
        CollectionOp::ListInsert => CheckedCall::Statement(
            TStmt::ListInsert { receiver, index: first, value: second, elem: key },
        ),
        CollectionOp::ListReserve => CheckedCall::Statement(
            TStmt::ListReserve { receiver, minimum: first, elem: key },
        ),
        CollectionOp::MapInsert => CheckedCall::Value(
            TExpr::MapInsert {
                receiver,
                key: Box::new(first),
                value: Box::new(second),
                key_ty: key,
                value_ty,
                require_existing: false,
            },
            Ty::Bool,
        ),
        CollectionOp::MapContains => CheckedCall::Value(
            TExpr::MapContains {
                receiver: Box::new(TExpr::Place(receiver, UseMode::Copy)),
                key: Box::new(first),
                key_ty: query_ty,
                value_ty,
            },
            Ty::Bool,
        ),
        CollectionOp::MapDelete => CheckedCall::Value(
            TExpr::MapDelete { receiver, key: Box::new(first), key_ty: query_ty, value_ty },
            Ty::Bool,
        ),
        CollectionOp::MapTake => CheckedCall::Value(
            TExpr::MapTake { receiver, key: Box::new(first), key_ty: query_ty, value_ty },
            value_ty,
        ),
        CollectionOp::MapReserve => CheckedCall::Statement(
            TStmt::MapReserve { receiver, minimum: first, key_ty: key, value_ty },
        ),
        CollectionOp::SetInsert => CheckedCall::Value(
            TExpr::SetInsert { receiver, value: Box::new(first), elem: key },
            Ty::Bool,
        ),
        CollectionOp::SetDelete => {
            let query = if key == Ty::String {
                coerce(types, errors, first, first_ty, Ty::ViewByte, first_span)
            } else {
                first
            };
            CheckedCall::Value(TExpr::SetDelete { receiver, value: Box::new(query), elem: key }, Ty::Bool)
        },
        CollectionOp::SetContains => {
            let query = if key == Ty::String {
                coerce(types, errors, first, first_ty, Ty::ViewByte, first_span)
            } else {
                first
            };
            CheckedCall::Value(
                TExpr::SetContains {
                    receiver: Box::new(TExpr::Place(receiver, UseMode::Copy)),
                    value: Box::new(query),
                    elem: key,
                },
                Ty::Bool,
            )
        },
        _ => CheckedCall::Statement(TStmt::SetReserve { receiver, minimum: first, elem: key }),
    };
    proof {
        assert(diagnostics(errors@) =~= start + finish_diagnostics(types, shape, op, mutable, all, span));
    }
    r
}


/// Selecting a collection method is faithful to what was written: the
/// selected method has the written name and belongs to the receiver's kind
/// of collection, and every method of that kind is reachable by its name.
pub proof fn lemma_collection_op_selects_written_name(shape: Shape, name: Seq<char>, op: CollectionOp)
    ensures
        spec_collection_op(shape, name) == Some(op) ==> spec_op_name(op) == name && match shape {
            Shape::List { .. } => is_list_op(op),
            Shape::MapOf { .. } => is_map_op(op),
            Shape::SetOf { .. } => !is_list_op(op) && !is_map_op(op),
        },
        (match shape {
            Shape::List { .. } => is_list_op(op),
            Shape::MapOf { .. } => is_map_op(op),
            Shape::SetOf { .. } => !is_list_op(op) && !is_map_op(op),
        }) ==> spec_collection_op(shape, spec_op_name(op)) == Some(op),
{
    reveal_strlit("push");
    reveal_strlit("pop");
    reveal_strlit("remove");
    reveal_strlit("insert");
    reveal_strlit("reserve");
    reveal_strlit("clear");
    reveal_strlit("contains");
    reveal_strlit("delete");
    reveal_strlit("take");
        assert("push"@ != "pop"@) by { assert("push"@.len() != "pop"@.len()); }
        assert("push"@ != "remove"@) by { assert("push"@.len() != "remove"@.len()); }
        assert("push"@ != "insert"@) by { assert("push"@.len() != "insert"@.len()); }
        assert("push"@ != "reserve"@) by { assert("push"@.len() != "reserve"@.len()); }
        assert("push"@ != "clear"@) by { assert("push"@.len() != "clear"@.len()); }
        assert("push"@ != "contains"@) by { assert("push"@.len() != "contains"@.len()); }
        assert("push"@ != "delete"@) by { assert("push"@.len() != "delete"@.len()); }
        assert("push"@ != "take"@) by { assert("push"@[0] != "take"@[0]); }
        assert("pop"@ != "remove"@) by { assert("pop"@.len() != "remove"@.len()); }
        assert("pop"@ != "insert"@) by { assert("pop"@.len() != "insert"@.len()); }
        assert("pop"@ != "reserve"@) by { assert("pop"@.len() != "reserve"@.len()); }
        assert("pop"@ != "clear"@) by { assert("pop"@.len() != "clear"@.len()); }
        assert("pop"@ != "contains"@) by { assert("pop"@.len() != "contains"@.len()); }
        assert("pop"@ != "delete"@) by { assert("pop"@.len() != "delete"@.len()); }
        assert("pop"@ != "take"@) by { assert("pop"@.len() != "take"@.len()); }
        assert("remove"@ != "insert"@) by { assert("remove"@[0] != "insert"@[0]); }
        assert("remove"@ != "reserve"@) by { assert("remove"@.len() != "reserve"@.len()); }
        assert("remove"@ != "clear"@) by { assert("remove"@.len() != "clear"@.len()); }
        assert("remove"@ != "contains"@) by { assert("remove"@.len() != "contains"@.len()); }
        assert("remove"@ != "delete"@) by { assert("remove"@[0] != "delete"@[0]); }
        assert("remove"@ != "take"@) by { assert("remove"@.len() != "take"@.len()); }
        assert("insert"@ != "reserve"@) by { assert("insert"@.len() != "reserve"@.len()); }
        assert("insert"@ != "clear"@) by { assert("insert"@.len() != "clear"@.len()); }
        assert("insert"@ != "contains"@) by { assert("insert"@.len() != "contains"@.len()); }
        assert("insert"@ != "delete"@) by { assert("insert"@[0] != "delete"@[0]); }
        assert("insert"@ != "take"@) by { assert("insert"@.len() != "take"@.len()); }
        assert("reserve"@ != "clear"@) by { assert("reserve"@.len() != "clear"@.len()); }
        assert("reserve"@ != "contains"@) by { assert("reserve"@.len() != "contains"@.len()); }
        assert("reserve"@ != "delete"@) by { assert("reserve"@.len() != "delete"@.len()); }
        assert("reserve"@ != "take"@) by { assert("reserve"@.len() != "take"@.len()); }
        assert("clear"@ != "contains"@) by { assert("clear"@.len() != "contains"@.len()); }
        assert("clear"@ != "delete"@) by { assert("clear"@.len() != "delete"@.len()); }
        assert("clear"@ != "take"@) by { assert("clear"@.len() != "take"@.len()); }
        assert("contains"@ != "delete"@) by { assert("contains"@.len() != "delete"@.len()); }
        assert("contains"@ != "take"@) by { assert("contains"@.len() != "take"@.len()); }
        assert("delete"@ != "take"@) by { assert("delete"@.len() != "take"@.len()); }
}

} // verus!
