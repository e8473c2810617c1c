//! Expression checking once an expression's operands are checked:
//! literals, reads of locals and `self`, interpolation parts, `!`, the
//! logical, arithmetic, and ordered-comparison operators, field reads of
//! computed values, indexed reads, and calls used as values.
use vstd::prelude::*;
use crate::ast::{NumLiteral, Span, TypeName, Value, spec_type_name_text};
use crate::checked::{ArithOp, CmpOp, Error, LogicalOp, TExpr, TStringPart};
use crate::convert::{coerce, coerce_diagnostics, coerced, operand_numeric, spec_operand_numeric};
use crate::generics::{Diagnostics, diagnostics};
use crate::methods::CheckedCall;
use crate::moves::{Binding, already_moved_message};
use crate::names::{display_depth, mismatch, mismatch_message, operands, operands_message, spec_display};
use crate::ownership::is_move_only;
use crate::places::{MoveState, Place, PlaceRoot, PlaceRootView, UseMode, deref_box, moves_root, spec_deref_box};
use crate::resolve::{
    find_binding, innermost, missing_field_message, missing_field_text, not_a_struct_message, spec_field,
};
use crate::text::{concat_str, str_eq};
use crate::ty::{CollectionDef, MethodId, Ty, TypeId, Types};

verus! {

/// The type of a numeric literal's form.
pub open spec fn spec_literal_type(literal: NumLiteral) -> Ty {
    match literal {
        NumLiteral::Int(_) => Ty::Int64,
        NumLiteral::F64(_) => Ty::Float64,
        NumLiteral::U8(_) => Ty::Byte,
        NumLiteral::U16(_) => Ty::UInt16,
        NumLiteral::U32(_) => Ty::UInt32,
        NumLiteral::U64(_) => Ty::UInt64,
        NumLiteral::F32(_) => Ty::Float32,
    }
}

/// A literal value, checked: each literal form has its own type.
pub fn value_expr(value: &Value) -> (r: (TExpr, Ty))
    ensures
        match *value {
            Value::Num(literal) => r == (TExpr::Num(literal), spec_literal_type(literal)),
            Value::Bool(b) => r == (TExpr::Bool(b), Ty::Bool),
            Value::Nil => r == (TExpr::Nil, Ty::Nil),
            Value::Str(text) => r.1 == Ty::String && (r.0 matches TExpr::StringLiteral(t) && t == text),
            Value::Unicode(c) => r == (TExpr::Unicode(c), Ty::Unicode),
        },
{
    match value {
        Value::Num(literal) => {
            let ty = match literal {
                NumLiteral::Int(_) => Ty::Int64,
                NumLiteral::F64(_) => Ty::Float64,
                NumLiteral::U8(_) => Ty::Byte,
                NumLiteral::U16(_) => Ty::UInt16,
                NumLiteral::U32(_) => Ty::UInt32,
                NumLiteral::U64(_) => Ty::UInt64,
                NumLiteral::F32(_) => Ty::Float32,
            };
            (TExpr::Num(*literal), ty)
        },
        Value::Bool(b) => (TExpr::Bool(*b), Ty::Bool),
        Value::Nil => (TExpr::Nil, Ty::Nil),
        Value::Str(text) => (TExpr::StringLiteral(text.clone()), Ty::String),
        Value::Unicode(c) => (TExpr::Unicode(*c), Ty::Unicode),
    }
}

/// The types text can be built from: text, and scalars.
pub open spec fn text_part(ty: Ty) -> bool {
    ty is String || ty is ViewUnicode || ty is Unicode || ty is Byte || ty is UInt16 || ty is UInt32
        || ty is UInt64 || ty is Int64 || ty is Float32 || ty is Float64 || ty is Bool
}

pub open spec fn interpolation_message(types: &Types, ty: Ty) -> Seq<char> {
    "string interpolation does not accept '"@ + spec_display(types, ty) + "'; expected a text or scalar part"@
}

/// One checked part of an interpolated string; a part that is neither
/// text nor a scalar is reported at the whole string.
pub fn interpolation_part(types: &Types, errors: &mut Vec<Error>, value: TExpr, ty: Ty, span: Span) -> (r: TStringPart)
    requires
        types.wf(),
        types.valid_ty(ty),
        display_depth(types) <= usize::MAX,
    ensures
        r == (TStringPart { value, ty }),
        diagnostics(final(errors)@) == diagnostics(old(errors)@) + if text_part(ty) {
            Seq::empty()
        } else {
            seq![(span, interpolation_message(types, ty))]
        },
{
    let ghost start = diagnostics(errors@);
    let accepted = matches!(
        ty,
        Ty::String | Ty::ViewUnicode | Ty::Unicode | Ty::Byte | Ty::UInt16 | Ty::UInt32 | Ty::UInt64 | Ty::Int64
            | Ty::Float32 | Ty::Float64 | Ty::Bool
    );
    if !accepted {
        let mut msg = concat_str("string interpolation does not accept '", types.display(ty).as_str());
        msg.append("'; expected a text or scalar part");
        let ghost text = msg@;
        errors.push(Error { span, msg });
        proof {
            assert(diagnostics(errors@) =~= start.push((span, text)));
        }
    } else {
        proof {
            assert(start =~= start + Seq::<(Span, Seq<char>)>::empty());
        }
    }
    TStringPart { value, ty }
}

pub open spec fn function_value_message(name: Seq<char>) -> Seq<char> {
    "'"@ + name + "' is a function; functions cannot be used as values"@
}

pub open spec fn type_value_message(name: Seq<char>) -> Seq<char> {
    "'"@ + name + "' is a type name; a type name alone is never a value"@
}

pub open spec fn unknown_local_message(name: Seq<char>) -> Seq<char> {
    "No such variable '"@ + name + "' in scope"@
}

/// Whether `functions` holds a callable named `name`.
pub open spec fn names_function(functions: Seq<String>, name: Seq<char>) -> bool {
    exists|i: int| 0 <= i < functions.len() && (#[trigger] functions[i])@ == name
}

/// The diagnostic for a name that no binding in scope carries.
pub open spec fn unbound_name_message(types: &Types, functions: Seq<String>, name: Seq<char>) -> Seq<char> {
    if names_function(functions, name) {
        function_value_message(name)
    } else if types.spec_top_level(name) is Some {
        type_value_message(name)
    } else {
        unknown_local_message(name)
    }
}

fn has_function(functions: &Vec<String>, name: &str) -> (r: bool)
    ensures
        r == names_function(functions@, name@),
{
    let mut i: usize = 0;
    while i < functions.len()
        invariant
            i <= functions@.len(),
            forall|j: int| 0 <= j < i ==> (#[trigger] functions@[j])@ != name@,
        decreases functions.len() - i,
    {
        if str_eq(functions[i].as_str(), name) {
            return true;
        }
        i = i + 1;
    }
    false
}

/// Reads the innermost binding named `name`: a copy of its whole value, a
/// use after a move being reported. A name no binding carries is reported
/// as a function, a type name, or unknown, and reads `nil`. `functions`
/// holds the program's callables by name.
pub fn read_local(
    types: &Types,
    env: &Vec<Binding>,
    moves: &MoveState,
    functions: &Vec<String>,
    errors: &mut Vec<Error>,
    name: &str,
    span: Span,
) -> (r: (TExpr, Ty))
    requires
        types.defs@.len() <= u32::MAX,
    ensures
        match innermost(env@, name@) {
            Some(i) => {
                &&& r.1 == env@[i].ty
                &&& r.0 matches TExpr::Place(p, UseMode::Copy) && p@ == (
                    PlaceRootView::Local(name@),
                    env@[i].ty,
                    Seq::<usize>::empty(),
                    env@[i].ty,
                )
                &&& diagnostics(final(errors)@) == diagnostics(old(errors)@) + if moves_root(
                    moves.entries@,
                    PlaceRootView::Local(name@),
                ) {
                    seq![(span, already_moved_message(PlaceRootView::Local(name@)))]
                } else {
                    Seq::empty()
                }
            },
            None => r == (TExpr::Nil, Ty::Nil) && diagnostics(final(errors)@) == diagnostics(old(errors)@).push(
                (span, unbound_name_message(types, functions@, name@)),
            ),
        },
{
    let ghost start = diagnostics(errors@);
    match find_binding(env, name) {
        Some(i) => {
            let root = PlaceRoot::Local(String::from_str(name));
            if moves.contains(&root) {
                let mut msg = concat_str("'", name);
                msg.append("' is already moved, so this use is invalid");
                let ghost text = msg@;
                errors.push(Error { span, msg });
                proof {
                    assert(text =~= already_moved_message(PlaceRootView::Local(name@)));
                    assert(diagnostics(errors@) =~= start.push((span, text)));
                }
            } else {
                proof {
                    assert(start =~= start + Seq::<(Span, Seq<char>)>::empty());
                }
            }
            let ty = env[i].ty;
            (TExpr::Place(Place { root, root_ty: ty, path: Vec::new(), ty }, UseMode::Copy), ty)
        },
        None => {
            let msg = if has_function(functions, name) {
                let mut m = concat_str("'", name);
                m.append("' is a function; functions cannot be used as values");
                m
            } else if types.top_level(name).is_some() {
                let mut m = concat_str("'", name);
                m.append("' is a type name; a type name alone is never a value");
                m
            } else {
                let mut m = concat_str("No such variable '", name);
                m.append("' in scope");
                m
            };
            let ghost text = msg@;
            errors.push(Error { span, msg });
            proof {
                assert(text =~= unbound_name_message(types, functions@, name@));
                assert(diagnostics(errors@) =~= start.push((span, text)));
            }
            (TExpr::Nil, Ty::Nil)
        },
    }
}

pub open spec fn self_outside_message() -> Seq<char> {
    "'self' is only valid inside a method body"@
}

/// Reads `self`: the whole receiver inside a method; elsewhere reported,
/// reading `nil`.
pub fn read_self(errors: &mut Vec<Error>, self_ty: Option<Ty>, span: Span) -> (r: (TExpr, Ty))
    ensures
        match self_ty {
            Some(ty) => {
                &&& r.1 == ty
                &&& r.0 matches TExpr::Place(p, UseMode::Copy) && p@ == (
                    PlaceRootView::SelfRef,
                    ty,
                    Seq::<usize>::empty(),
                    ty,
                )
                &&& final(errors)@ == old(errors)@
            },
            None => r == (TExpr::Nil, Ty::Nil) && diagnostics(final(errors)@) == diagnostics(old(errors)@).push(
                (span, self_outside_message()),
            ),
        },
{
    match self_ty {
        Some(ty) => (TExpr::Place(Place { root: PlaceRoot::SelfRef, root_ty: ty, path: Vec::new(), ty }, UseMode::Copy), ty),
        None => {
            let ghost start = diagnostics(errors@);
            errors.push(Error { span, msg: String::from_str("'self' is only valid inside a method body") });
            proof {
                assert(diagnostics(errors@) =~= start.push((span, self_outside_message())));
            }
            (TExpr::Nil, Ty::Nil)
        },
    }
}

/// A built-in type name used as a value: reported, reading `nil`.
pub fn type_name_value(errors: &mut Vec<Error>, name: TypeName, span: Span) -> (r: (TExpr, Ty))
    ensures
        r == (TExpr::Nil, Ty::Nil),
        diagnostics(final(errors)@) == diagnostics(old(errors)@).push((span, type_value_message(spec_type_name_text(name)))),
{
    let ghost start = diagnostics(errors@);
    let mut msg = concat_str("'", name.name());
    msg.append("' is a type name; a type name alone is never a value");
    let ghost text = msg@;
    errors.push(Error { span, msg });
    proof {
        assert(diagnostics(errors@) =~= start.push((span, text)));
    }
    (TExpr::Nil, Ty::Nil)
}

pub open spec fn not_message(types: &Types, ty: Ty) -> Seq<char> {
    "'!' requires a Bool operand, found '"@ + spec_display(types, ty) + "'"@
}

/// `!value`: the operand must be a `Bool`; the result is one.
pub fn not_expr(types: &Types, errors: &mut Vec<Error>, value: TExpr, ty: Ty, span: Span) -> (r: (TExpr, Ty))
    requires
        types.wf(),
        types.valid_ty(ty),
        display_depth(types) <= usize::MAX,
    ensures
        r == (TExpr::Not(Box::new(value)), Ty::Bool),
        diagnostics(final(errors)@) == diagnostics(old(errors)@) + if ty != Ty::Bool {
            seq![(span, not_message(types, ty))]
        } else {
            Seq::empty()
        },
{
    let ghost start = diagnostics(errors@);
    if ty != Ty::Bool {
        let mut msg = concat_str("'!' requires a Bool operand, found '", types.display(ty).as_str());
        msg.append("'");
        let ghost text = msg@;
        errors.push(Error { span, msg });
        proof {
            assert(diagnostics(errors@) =~= start.push((span, text)));
        }
    } else {
        proof {
            assert(start =~= start + Seq::<(Span, Seq<char>)>::empty());
        }
    }
    (TExpr::Not(Box::new(value)), Ty::Bool)
}

pub open spec fn logical_message(types: &Types, op: LogicalOp, left: Ty, right: Ty) -> Seq<char> {
    "'"@ + (if op is And {
        "and"@
    } else {
        "or"@
    }) + "' requires Bool operands, found '"@ + spec_display(types, left) + "' and '"@ + spec_display(types, right)
        + "'"@
}

/// `left and right`, `left or right`: both operands must be `Bool`s, one
/// diagnostic naming both types otherwise; the result is a `Bool`.
pub fn logical_expr(
    types: &Types,
    errors: &mut Vec<Error>,
    op: LogicalOp,
    left: TExpr,
    left_ty: Ty,
    right: TExpr,
    right_ty: Ty,
    span: Span,
) -> (r: (TExpr, Ty))
    requires
        types.wf(),
        types.valid_ty(left_ty),
        types.valid_ty(right_ty),
        display_depth(types) <= usize::MAX,
    ensures
        r == (TExpr::Logical(Box::new(left), op, Box::new(right)), Ty::Bool),
        diagnostics(final(errors)@) == diagnostics(old(errors)@) + if left_ty != Ty::Bool || right_ty != Ty::Bool {
            seq![(span, logical_message(types, op, left_ty, right_ty))]
        } else {
            Seq::empty()
        },
{
    let ghost start = diagnostics(errors@);
    if left_ty != Ty::Bool || right_ty != Ty::Bool {
        let word = match op {
            LogicalOp::And => "and",
            LogicalOp::Or => "or",
        };
        let mut msg = concat_str("'", word);
        msg.append("' requires Bool operands, found '");
        msg.append(types.display(left_ty).as_str());
        msg.append("' and '");
        msg.append(types.display(right_ty).as_str());
        msg.append("'");
        let ghost text = msg@;
        errors.push(Error { span, msg });
        proof {
            assert(text =~= logical_message(types, op, left_ty, right_ty));
            assert(diagnostics(errors@) =~= start.push((span, text)));
        }
    } else {
        proof {
            assert(start =~= start + Seq::<(Span, Seq<char>)>::empty());
        }
    }
    (TExpr::Logical(Box::new(left), op, Box::new(right)), Ty::Bool)
}

/// `left op right` for an arithmetic operator: both operands are made the
/// type they share (an `Int64` widening to a `Float64` partner), and the
/// result has it. A pair that is not two numbers of one type is reported
/// once and keeps its own operand types.
pub fn arith_expr(
    types: &Types,
    errors: &mut Vec<Error>,
    op: ArithOp,
    left: TExpr,
    left_ty: Ty,
    right: TExpr,
    right_ty: Ty,
    span: Span,
) -> (r: (TExpr, Ty))
    requires
        types.wf(),
        types.valid_ty(left_ty),
        types.valid_ty(right_ty),
        display_depth(types) <= usize::MAX,
    ensures
        match spec_operand_numeric(left_ty, right_ty) {
            None => r == (TExpr::Arith(Box::new(left), op, Box::new(right), left_ty), left_ty) && diagnostics(
                final(errors)@,
            ) == diagnostics(old(errors)@).push((span, operands_message(types, "arithmetic"@, left_ty, right_ty))),
            Some(ty) => r.1 == ty && diagnostics(final(errors)@) == diagnostics(old(errors)@) + coerce_diagnostics(
                types,
                left is Place,
                left_ty,
                ty,
                span,
            ) + coerce_diagnostics(types, right is Place, right_ty, ty, span) && match r.0 {
                TExpr::Arith(l, o, rr, t) => o == op && t == ty && coerced(types, left, left_ty, ty, *l) && coerced(
                    types,
                    right,
                    right_ty,
                    ty,
                    *rr,
                ),
                _ => false,
            },
        },
{
    let ghost start = diagnostics(errors@);
    match operand_numeric(left_ty, right_ty) {
        None => {
            let msg = operands(types, "arithmetic", left_ty, right_ty);
            errors.push(Error { span, msg });
            proof {
                reveal_strlit("arithmetic");
                assert(diagnostics(errors@) =~= start.push((span, operands_message(types, "arithmetic"@, left_ty, right_ty))));
            }
            (TExpr::Arith(Box::new(left), op, Box::new(right), left_ty), left_ty)
        },
        Some(ty) => {
            let l = coerce(types, errors, left, left_ty, ty, span);
            let r = coerce(types, errors, right, right_ty, ty, span);
            proof {
                assert(diagnostics(errors@) =~= start + coerce_diagnostics(types, left is Place, left_ty, ty, span)
                    + coerce_diagnostics(types, right is Place, right_ty, ty, span));
            }
            (TExpr::Arith(Box::new(l), op, Box::new(r), ty), ty)
        },
    }
}

/// `left op right` for an ordered comparison: both operands are made the
/// numeric type they share and compared there; the result is a `Bool`. A
/// pair that is not two numbers of one type is reported once.
pub fn ordered_expr(
    types: &Types,
    errors: &mut Vec<Error>,
    op: CmpOp,
    left: TExpr,
    left_ty: Ty,
    right: TExpr,
    right_ty: Ty,
    span: Span,
) -> (r: (TExpr, Ty))
    requires
        types.wf(),
        types.valid_ty(left_ty),
        types.valid_ty(right_ty),
        display_depth(types) <= usize::MAX,
    ensures
        r.1 == Ty::Bool,
        match spec_operand_numeric(left_ty, right_ty) {
            None => r.0 == TExpr::Cmp(Box::new(left), op, Box::new(right), left_ty) && diagnostics(final(errors)@)
                == diagnostics(old(errors)@).push(
                (span, operands_message(types, "ordered comparison"@, left_ty, right_ty)),
            ),
            Some(ty) => diagnostics(final(errors)@) == diagnostics(old(errors)@) + coerce_diagnostics(
                types,
                left is Place,
                left_ty,
                ty,
                span,
            ) + coerce_diagnostics(types, right is Place, right_ty, ty, span) && match r.0 {
                TExpr::Cmp(l, o, rr, t) => o == op && t == ty && coerced(types, left, left_ty, ty, *l) && coerced(
                    types,
                    right,
                    right_ty,
                    ty,
                    *rr,
                ),
                _ => false,
            },
        },
{
    let ghost start = diagnostics(errors@);
    match operand_numeric(left_ty, right_ty) {
        None => {
            let msg = operands(types, "ordered comparison", left_ty, right_ty);
            errors.push(Error { span, msg });
            proof {
                assert(diagnostics(errors@) =~= start.push(
                    (span, operands_message(types, "ordered comparison"@, left_ty, right_ty)),
                ));
            }
            (TExpr::Cmp(Box::new(left), op, Box::new(right), left_ty), Ty::Bool)
        },
        Some(ty) => {
            let l = coerce(types, errors, left, left_ty, ty, span);
            let r = coerce(types, errors, right, right_ty, ty, span);
            proof {
                assert(diagnostics(errors@) =~= start + coerce_diagnostics(types, left is Place, left_ty, ty, span)
                    + coerce_diagnostics(types, right is Place, right_ty, ty, span));
            }
            (TExpr::Cmp(Box::new(l), op, Box::new(r), ty), Ty::Bool)
        },
    }
}

/// Reads field `field` of a computed value of type `raw_ty`, seen through
/// any boxes: the value must be a struct or union member with that field.
/// A failed selection is reported at the field name and reads `nil`.
pub fn field_read(
    types: &Types,
    methods: &Vec<(TypeId, String)>,
    errors: &mut Vec<Error>,
    value: TExpr,
    raw_ty: Ty,
    field: &str,
    field_span: Span,
) -> (r: (TExpr, Ty))
    requires
        types.wf(),
        types.valid_ty(raw_ty),
        display_depth(types) <= usize::MAX,
    ensures
        match spec_deref_box(types, raw_ty) {
            Ty::User(id) => match spec_field(types, id, field@) {
                Some((index, ty)) => r == (TExpr::FieldRead { base: Box::new(value), base_ty: raw_ty, index, ty }, ty)
                    && final(errors)@ == old(errors)@,
                None => r == (TExpr::Nil, Ty::Nil) && diagnostics(final(errors)@) == diagnostics(old(errors)@).push(
                    (field_span, missing_field_message(types, methods@, id, field@)),
                ),
            },
            other => r == (TExpr::Nil, Ty::Nil) && diagnostics(final(errors)@) == diagnostics(old(errors)@).push(
                (field_span, not_a_struct_message(spec_display(types, other), field@)),
            ),
        },
{
    let ghost start = diagnostics(errors@);
    let base_ty = deref_box(types, raw_ty);
    match base_ty {
        Ty::User(id) => match types.field(id, field) {
            Some((index, ty)) => (TExpr::FieldRead { base: Box::new(value), base_ty: raw_ty, index, ty }, ty),
            None => {
                let msg = missing_field_text(types, methods, id, field);
                let ghost text = msg@;
                errors.push(Error { span: field_span, msg });
                proof {
                    assert(diagnostics(errors@) =~= start.push((field_span, text)));
                }
                (TExpr::Nil, Ty::Nil)
            },
        },
        _ => {
            let mut msg = concat_str("'", types.display(base_ty).as_str());
            msg.append("' is not a struct, so it has no field '");
            msg.append(field);
            msg.append("'");
            let ghost text = msg@;
            errors.push(Error { span: field_span, msg });
            proof {
                assert(text =~= not_a_struct_message(spec_display(types, base_ty), field@));
                assert(diagnostics(errors@) =~= start.push((field_span, text)));
            }
            (TExpr::Nil, Ty::Nil)
        },
    }
}

pub open spec fn map_move_message() -> Seq<char> {
    "an indexed map read cannot move a move-only value out of its map; use take()"@
}

pub open spec fn element_move_message() -> Seq<char> {
    "an indexed read cannot move a move-only element out of its collection"@
}

pub open spec fn not_indexable_message(types: &Types, ty: Ty) -> Seq<char> {
    "'"@ + spec_display(types, ty) + "' is not an indexable collection"@
}

/// The element type an indexed read of a value of type `ty` reads.
pub open spec fn indexed_element(types: &Types, ty: Ty) -> Option<Ty> {
    match ty {
        Ty::Array(id) | Ty::List(id) | Ty::View(id) => match types.collections@[id.0 as int] {
            CollectionDef::Array { elem, .. } => Some(elem),
            CollectionDef::List { elem } => Some(elem),
            CollectionDef::View { elem } => Some(elem),
            _ => None,
        },
        Ty::ViewByte => Some(Ty::Byte),
        _ => None,
    }
}

/// The interned collection of a map type is a map.
pub open spec fn map_consistent(types: &Types, ty: Ty) -> bool {
    ty matches Ty::MapOf(id) ==> types.collections@[id.0 as int] is MapOf
}

/// `collection[index]` once both are checked. A map read copies the value
/// at a key (a `String` key lent as a text view; any other must have the
/// key type), and cannot move a move-only value out. Any other read needs
/// an `Int64` index into an array, a list, a view, or a byte view; reading
/// a move-only element out is reported.
pub fn index_read(
    types: &Types,
    errors: &mut Vec<Error>,
    collection: TExpr,
    collection_ty: Ty,
    index: TExpr,
    index_ty: Ty,
    index_span: Span,
    base_span: Span,
    span: Span,
) -> (r: (TExpr, Ty))
    requires
        types.wf(),
        types.layout_finite(),
        types.valid_ty(collection_ty),
        types.valid_ty(index_ty),
        map_consistent(types, collection_ty),
        display_depth(types) <= usize::MAX,
    ensures
        match collection_ty {
            Ty::MapOf(id) => match types.collections@[id.0 as int] {
                CollectionDef::MapOf { key, value } => if types.spec_is_move_only(value) {
                    r == (TExpr::Nil, Ty::Nil) && diagnostics(final(errors)@) == diagnostics(old(errors)@).push(
                        (span, map_move_message()),
                    )
                } else if key == Ty::String {
                    &&& r.1 == value
                    &&& diagnostics(final(errors)@) == diagnostics(old(errors)@) + coerce_diagnostics(
                        types,
                        index is Place,
                        index_ty,
                        Ty::ViewByte,
                        index_span,
                    )
                    &&& match r.0 {
                        TExpr::MapIndex { receiver, key: k, key_ty, value_ty } => *receiver == collection
                            && coerced(types, index, index_ty, Ty::ViewByte, *k) && key_ty == Ty::ViewByte
                            && value_ty == value,
                        _ => false,
                    }
                } else {
                    &&& r == (
                        TExpr::MapIndex {
                            receiver: Box::new(collection),
                            key: Box::new(index),
                            key_ty: index_ty,
                            value_ty: value,
                        },
                        value,
                    )
                    &&& diagnostics(final(errors)@) == diagnostics(old(errors)@) + if index_ty != key {
                        seq![(index_span, mismatch_message(types, key, index_ty))]
                    } else {
                        Seq::empty()
                    }
                },
                _ => false,
            },
            _ => {
                let index_diags: Diagnostics = if index_ty != Ty::Int64 {
                    seq![(index_span, mismatch_message(types, Ty::Int64, index_ty))]
                } else {
                    Seq::empty()
                };
                match indexed_element(types, collection_ty) {
                    None => r == (TExpr::Nil, Ty::Nil) && diagnostics(final(errors)@) == diagnostics(old(errors)@)
                        + index_diags.push((base_span, not_indexable_message(types, collection_ty))),
                    Some(elem) => {
                        &&& r == (
                            TExpr::CollectionIndex {
                                collection: Box::new(collection),
                                index: Box::new(index),
                                collection_ty,
                                elem,
                            },
                            elem,
                        )
                        &&& diagnostics(final(errors)@) == diagnostics(old(errors)@) + index_diags + if types.spec_is_move_only(
                            elem,
                        ) {
                            seq![(span, element_move_message())]
                        } else {
                            Seq::empty()
                        }
                    },
                }
            },
        },
{
    let ghost start = diagnostics(errors@);
    match collection_ty {
        Ty::MapOf(id) => {
            let (key, value) = match types.collection(id) {
                CollectionDef::MapOf { key, value } => (*key, *value),
                _ => (Ty::Nil, Ty::Nil),
            };
            proof {
                assert(types.collection_wf(id.0 as int));
            }
            if is_move_only(types, value) {
                let ghost d = diagnostics(errors@);
                errors.push(
                    Error {
                        span,
                        msg: String::from_str(
                            "an indexed map read cannot move a move-only value out of its map; use take()",
                        ),
                    },
                );
                proof {
                    assert(diagnostics(errors@) =~= d.push((span, map_move_message())));
                }
                return (TExpr::Nil, Ty::Nil);
            }
            if key == Ty::String {
                let k = coerce(types, errors, index, index_ty, Ty::ViewByte, index_span);
                return (
                    TExpr::MapIndex { receiver: Box::new(collection), key: Box::new(k), key_ty: Ty::ViewByte, value_ty: value },
                    value,
                );
            }
            if index_ty != key {
                let msg = mismatch(types, key, index_ty);
                errors.push(Error { span: index_span, msg });
                proof {
                    assert(diagnostics(errors@) =~= start.push((index_span, mismatch_message(types, key, index_ty))));
                }
            } else {
                proof {
                    assert(start =~= start + Seq::<(Span, Seq<char>)>::empty());
                }
            }
            return (
                TExpr::MapIndex { receiver: Box::new(collection), key: Box::new(index), key_ty: index_ty, value_ty: value },
                value,
            );
        },
        _ => {},
    }
    if index_ty != Ty::Int64 {
        let msg = mismatch(types, Ty::Int64, index_ty);
        errors.push(Error { span: index_span, msg });
        proof {
            assert(diagnostics(errors@) =~= start.push((index_span, mismatch_message(types, Ty::Int64, index_ty))));
        }
    } else {
        proof {
            assert(start =~= start + Seq::<(Span, Seq<char>)>::empty());
        }
    }
    let ghost after_index = diagnostics(errors@);
    let elem = match collection_ty {
        Ty::Array(id) | Ty::List(id) | Ty::View(id) => match types.collection(id) {
            CollectionDef::Array { elem, .. } => Some(*elem),
            CollectionDef::List { elem } => Some(*elem),
            CollectionDef::View { elem } => Some(*elem),
            _ => None,
        },
        Ty::ViewByte => Some(Ty::Byte),
        _ => None,
    };
    let elem = match elem {
        Some(elem) => elem,
        None => {
            let mut msg = concat_str("'", types.display(collection_ty).as_str());
            msg.append("' is not an indexable collection");
            let ghost text = msg@;
            errors.push(Error { span: base_span, msg });
            proof {
                assert(diagnostics(errors@) =~= after_index.push((base_span, text)));
            }
            return (TExpr::Nil, Ty::Nil);
        },
    };
    proof {
        match collection_ty {
            Ty::Array(id) | Ty::List(id) | Ty::View(id) => {
                assert(types.collection_wf(id.0 as int));
            },
            _ => {},
        }
    }
    if is_move_only(types, elem) {
        let ghost d = diagnostics(errors@);
        errors.push(
            Error {
                span,
                msg: String::from_str("an indexed read cannot move a move-only element out of its collection"),
            },
        );
        proof {
            assert(diagnostics(errors@) =~= d.push((span, element_move_message())));
        }
    } else {
        proof {
            assert(after_index =~= after_index + Seq::<(Span, Seq<char>)>::empty());
        }
    }
    (TExpr::CollectionIndex { collection: Box::new(collection), index: Box::new(index), collection_ty, elem }, elem)
}

pub open spec fn no_result_message(name: Seq<char>) -> Seq<char> {
    "'"@ + name + "' declares no result, so its call cannot be used as a value"@
}

pub open spec fn mutation_value_message() -> Seq<char> {
    "a list mutation does not produce a value"@
}

/// The value a checked call used as an expression produces: a function
/// or method call with a result, or a built-in value. A call without a
/// result, or a collection mutation, is reported and produces `nil`.
/// `method_names` holds each method's qualified name by id.
pub open spec fn spec_call_value(checked: Option<CheckedCall>, method_names: Seq<String>) -> ((TExpr, Ty), Option<Seq<char>>) {
    match checked {
        None => ((TExpr::Nil, Ty::Nil), None),
        Some(CheckedCall::Value(value, ty)) => ((value, ty), None),
        Some(CheckedCall::Function { name, args, result }) => match result {
            Some(ty) => ((TExpr::Call(name, args), ty), None),
            None => ((TExpr::Nil, Ty::Nil), Some(no_result_message(name@))),
        },
        Some(CheckedCall::Method { call, result }) => match result {
            Some(ty) => ((TExpr::MethodCall(Box::new(call)), ty), None),
            None => ((TExpr::Nil, Ty::Nil), Some(no_result_message(method_names[call.method.0 as int]@))),
        },
        Some(CheckedCall::Statement(_)) => ((TExpr::Nil, Ty::Nil), Some(mutation_value_message())),
    }
}

/// Uses a checked call as a value (`checked` is `None` when the call
/// failed and was reported).
pub fn call_value(errors: &mut Vec<Error>, checked: Option<CheckedCall>, method_names: &Vec<String>, span: Span) -> (r: (
    TExpr,
    Ty,
))
    requires
        checked matches Some(CheckedCall::Method { call, .. }) ==> call.method.0 < method_names@.len(),
    ensures
        r == spec_call_value(checked, method_names@).0,
        match spec_call_value(checked, method_names@).1 {
            Some(msg) => diagnostics(final(errors)@) == diagnostics(old(errors)@).push((span, msg)),
            None => final(errors)@ == old(errors)@,
        },
{
    let ghost start = diagnostics(errors@);
    match checked {
        None => (TExpr::Nil, Ty::Nil),
        Some(CheckedCall::Value(value, ty)) => (value, ty),
        Some(CheckedCall::Function { name, args, result }) => match result {
            Some(ty) => (TExpr::Call(name, args), ty),
            None => {
                let mut msg = concat_str("'", name.as_str());
                msg.append("' declares no result, so its call cannot be used as a value");
                let ghost text = msg@;
                errors.push(Error { span, msg });
                proof {
                    assert(diagnostics(errors@) =~= start.push((span, text)));
                }
                (TExpr::Nil, Ty::Nil)
            },
        },
        Some(CheckedCall::Method { call, result }) => match result {
            Some(ty) => (TExpr::MethodCall(Box::new(call)), ty),
            None => {
                let mut msg = concat_str("'", method_names[call.method.index()].as_str());
                msg.append("' declares no result, so its call cannot be used as a value");
                let ghost text = msg@;
                errors.push(Error { span, msg });
                proof {
                    assert(diagnostics(errors@) =~= start.push((span, text)));
                }
                (TExpr::Nil, Ty::Nil)
            },
        },
        Some(CheckedCall::Statement(_)) => {
            errors.push(Error { span, msg: String::from_str("a list mutation does not produce a value") });
            proof {
                assert(diagnostics(errors@) =~= start.push((span, mutation_value_message())));
            }
            (TExpr::Nil, Ty::Nil)
        },
    }
}


/// Whether `ty` is one of the language's number types.
pub open spec fn is_number_type(ty: Ty) -> bool {
    ||| ty == Ty::Int64
    ||| ty == Ty::Float64
    ||| ty == Ty::Byte
    ||| ty == Ty::UInt16
    ||| ty == Ty::UInt32
    ||| ty == Ty::UInt64
    ||| ty == Ty::Float32
}

/// Every number type combines with itself into itself, so arithmetic and
/// ordering on two values of one number type are accepted at that type;
/// `Int64` and `Float64` meet at `Float64`, and no other mix combines;
/// in particular the type of every numeric literal does. Two values of one
/// type that is no number never combine.
pub proof fn lemma_number_types_combine_with_themselves(ty: Ty, literal: NumLiteral)
    ensures
        is_number_type(ty) ==> spec_operand_numeric(ty, ty) == Some(ty),
        !is_number_type(ty) ==> spec_operand_numeric(ty, ty) is None,
        is_number_type(spec_literal_type(literal)),
        spec_operand_numeric(spec_literal_type(literal), spec_literal_type(literal)) == Some(spec_literal_type(literal)),
        spec_operand_numeric(Ty::Int64, Ty::Float64) == Some(Ty::Float64),
        spec_operand_numeric(Ty::Float64, Ty::Int64) == Some(Ty::Float64),
        is_number_type(ty) && ty != Ty::Int64 && ty != Ty::Float64 ==> spec_operand_numeric(ty, Ty::Int64) is None
            && spec_operand_numeric(Ty::Int64, ty) is None,
{
}

} // verus!
