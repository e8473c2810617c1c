//! The built-in methods of text, views, and collections, and the static
//! conversions of `String`. Which operation a call names is decided from the
//! receiver type, the method name, and the argument form before any argument
//! is checked; the operation is then finished from its checked arguments and,
//! where its result may be absent, from the sum type interned for it.
use vstd::prelude::*;
use crate::ast::{Arg, Span};
use crate::checked::{Error, TExpr, TStringPart};
use crate::convert::sequence_elem;
use crate::expressions::indexed_element;
use crate::generics::{Diagnostics, diagnostics};
use crate::methods::CheckedCall;
use crate::names::{display_depth, mismatch, mismatch_message, spec_display};
use crate::text::{concat_str, str_eq};
use crate::ty::{CollectionDef, CollectionId, SumId, Ty, Types};

verus! {

/// A built-in method a call names.
#[derive(Clone, Copy, Debug, PartialEq, Eq, Structural)]
pub enum BuiltinMethod {
    /// `bytes()` of a `String`: its byte view.
    Bytes,
    /// `unicode()` of a `String`: its scalar view.
    Unicode,
    /// `length()` of a text view.
    ViewLength,
    /// `length()` of a collection.
    CollectionLength,
    /// `is_empty()` of a collection.
    IsEmpty,
    /// `capacity()` of a list.
    Capacity,
    /// `view()` of an array or a list whose elements have type `elem`.
    SequenceView { elem: Ty },
    /// `at(index)` of a byte view or `scalar_at(index)` of a scalar view.
    At,
    /// `slice(start, end)` of a text view.
    ViewSlice,
    /// `slice(start, end)` of an array, a list, or a view whose elements
    /// have type `elem`.
    CollectionSlice { elem: Ty },
    /// `clone()` of a `String`.
    StringClone,
    /// `concat(part)` of a `String`.
    StringConcat,
    /// `clone` or `concat` called in any other form.
    InvalidStringCall,
}

/// A collection receiver of the built-in surface.
pub open spec fn collection_receiver(ty: Ty) -> bool {
    ty is Array || ty is List || ty is View || ty is MapOf || ty is SetOf
}

/// A receiver type that has built-in methods at all.
pub open spec fn builtin_receiver(ty: Ty) -> bool {
    ty is String || ty is ViewByte || ty is ViewUnicode || collection_receiver(ty)
}

/// Exactly `n` arguments, none of them named.
pub open spec fn positional(args: Seq<Arg>, n: nat) -> bool {
    args.len() == n && forall|i: int| 0 <= i < n ==> (#[trigger] args[i]).name is None
}

/// The built-in method `name` on a receiver of type `ty` with `args`, if the
/// call is one.
pub open spec fn spec_builtin_method(types: &Types, ty: Ty, name: Seq<char>, args: Seq<Arg>) -> Option<BuiltinMethod> {
    let none = args.len() == 0;
    if !builtin_receiver(ty) {
        None
    } else if name == "bytes"@ && ty == Ty::String && none {
        Some(BuiltinMethod::Bytes)
    } else if name == "unicode"@ && ty == Ty::String && none {
        Some(BuiltinMethod::Unicode)
    } else if name == "length"@ && (ty is ViewByte || ty is ViewUnicode) && none {
        Some(BuiltinMethod::ViewLength)
    } else if name == "length"@ && collection_receiver(ty) && none {
        Some(BuiltinMethod::CollectionLength)
    } else if name == "is_empty"@ && collection_receiver(ty) && none {
        Some(BuiltinMethod::IsEmpty)
    } else if name == "capacity"@ && ty is List && none {
        Some(BuiltinMethod::Capacity)
    } else if name == "view"@ && (ty is Array || ty is List) && none {
        Some(BuiltinMethod::SequenceView { elem: sequence_elem(types, ty).unwrap() })
    } else if name == "at"@ && ty == Ty::ViewByte && positional(args, 1) {
        Some(BuiltinMethod::At)
    } else if name == "scalar_at"@ && ty == Ty::ViewUnicode && positional(args, 1) {
        Some(BuiltinMethod::At)
    } else if name == "slice"@ && (ty is ViewByte || ty is ViewUnicode) && positional(args, 2) {
        Some(BuiltinMethod::ViewSlice)
    } else if name == "slice"@ && (ty is Array || ty is List || ty is View) && positional(args, 2) {
        Some(BuiltinMethod::CollectionSlice { elem: indexed_element(types, ty).unwrap() })
    } else if name == "clone"@ && ty == Ty::String && none {
        Some(BuiltinMethod::StringClone)
    } else if name == "concat"@ && ty == Ty::String && positional(args, 1) {
        Some(BuiltinMethod::StringConcat)
    } else if name == "clone"@ || name == "concat"@ {
        Some(BuiltinMethod::InvalidStringCall)
    } else {
        None
    }
}

/// The interned shape behind a sequence receiver is a sequence wherever a
/// `view` or a `slice` reads its element type.
pub open spec fn builtin_metadata(types: &Types, ty: Ty, name: Seq<char>, args: Seq<Arg>) -> bool {
    &&& (name == "view"@ && (ty is Array || ty is List) && args.len() == 0) ==> sequence_elem(types, ty) is Some
    &&& (name == "slice"@ && (ty is Array || ty is List || ty is View) && positional(args, 2))
        ==> indexed_element(types, ty) is Some
}

fn positional_args(args: &[Arg], n: usize) -> (r: bool)
    ensures
        r == positional(args@, n as nat),
{
    if args.len() != n {
        return false;
    }
    let mut i: usize = 0;
    while i < args.len()
        invariant
            i <= args@.len(),
            args@.len() == n,
            forall|k: int| 0 <= k < i ==> (#[trigger] args@[k]).name is None,
        decreases args.len() - i,
    {
        match &args[i].name {
            Some(_) => return false,
            None => {},
        }
        i = i + 1;
    }
    true
}

fn is_collection_receiver(ty: Ty) -> (r: bool)
    ensures
        r == collection_receiver(ty),
{
    match ty {
        Ty::Array(_) | Ty::List(_) | Ty::View(_) | Ty::MapOf(_) | Ty::SetOf(_) => true,
        _ => false,
    }
}

fn element_of(types: &Types, ty: Ty) -> (r: Option<Ty>)
    requires
        types.valid_ty(ty),
    ensures
        r == indexed_element(types, ty),
{
    match ty {
        Ty::Array(id) | Ty::List(id) | Ty::View(id) => match types.collection(id) {
            CollectionDef::Array { elem, .. } => Some(*elem),
            CollectionDef::List { elem } => Some(*elem),
            CollectionDef::View { elem } => Some(*elem),
            _ => None,
        },
        Ty::ViewByte => Some(Ty::Byte),
        _ => None,
    }
}

fn sequence_elem_of(types: &Types, ty: Ty) -> (r: Option<Ty>)
    requires
        types.valid_ty(ty),
    ensures
        r == sequence_elem(types, ty),
{
    match ty {
        Ty::Array(id) | Ty::List(id) => match types.collection(id) {
            CollectionDef::Array { elem, .. } => Some(*elem),
            CollectionDef::List { elem } => Some(*elem),
            _ => None,
        },
        _ => None,
    }
}

/// Decides which built-in method, if any, the call `receiver.name(args)`
/// names on a receiver of type `ty`. Only the receiver type, the name, and
/// the argument form decide; the arguments are checked afterwards.
pub fn builtin_method(types: &Types, ty: Ty, name: &str, args: &[Arg]) -> (r: Option<BuiltinMethod>)
    requires
        types.valid_ty(ty),
        builtin_metadata(types, ty, name@, args@),
    ensures
        r == spec_builtin_method(types, ty, name@, args@),
{
    let collection = is_collection_receiver(ty);
    let text_view = match ty {
        Ty::ViewByte | Ty::ViewUnicode => true,
        _ => false,
    };
    let sequence = match ty {
        Ty::Array(_) | Ty::List(_) => true,
        _ => false,
    };
    let none = args.len() == 0;
    if !(ty == Ty::String || text_view || collection) {
        None
    } else if str_eq(name, "bytes") && ty == Ty::String && none {
        Some(BuiltinMethod::Bytes)
    } else if str_eq(name, "unicode") && ty == Ty::String && none {
        Some(BuiltinMethod::Unicode)
    } else if str_eq(name, "length") && text_view && none {
        Some(BuiltinMethod::ViewLength)
    } else if str_eq(name, "length") && collection && none {
        Some(BuiltinMethod::CollectionLength)
    } else if str_eq(name, "is_empty") && collection && none {
        Some(BuiltinMethod::IsEmpty)
    } else if str_eq(name, "capacity") && (ty matches Ty::List(_)) && none {
        Some(BuiltinMethod::Capacity)
    } else if str_eq(name, "view") && sequence && none {
        match sequence_elem_of(types, ty) {
            Some(elem) => Some(BuiltinMethod::SequenceView { elem }),
            None => None,
        }
    } else if str_eq(name, "at") && ty == Ty::ViewByte && positional_args(args, 1) {
        Some(BuiltinMethod::At)
    } else if str_eq(name, "scalar_at") && ty == Ty::ViewUnicode && positional_args(args, 1) {
        Some(BuiltinMethod::At)
    } else if str_eq(name, "slice") && text_view && positional_args(args, 2) {
        Some(BuiltinMethod::ViewSlice)
    } else if str_eq(name, "slice") && (sequence || (ty matches Ty::View(_))) && positional_args(args, 2) {
        match element_of(types, ty) {
            Some(elem) => Some(BuiltinMethod::CollectionSlice { elem }),
            None => None,
        }
    } else if str_eq(name, "clone") && ty == Ty::String && none {
        Some(BuiltinMethod::StringClone)
    } else if str_eq(name, "concat") && ty == Ty::String && positional_args(args, 1) {
        Some(BuiltinMethod::StringConcat)
    } else if str_eq(name, "clone") || str_eq(name, "concat") {
        Some(BuiltinMethod::InvalidStringCall)
    } else {
        None
    }
}

/// A built-in that reads its receiver and takes no argument.
pub open spec fn argument_free(m: BuiltinMethod) -> bool {
    ||| m is Bytes
    ||| m is Unicode
    ||| m is ViewLength
    ||| m is CollectionLength
    ||| m is IsEmpty
    ||| m is Capacity
    ||| m is SequenceView
    ||| m is StringClone
}

/// The call an argument-free built-in `m` makes of `receiver`; a `view()`
/// gives a view of the collection `view` interned for its element type.
pub open spec fn spec_argument_free_call(m: BuiltinMethod, receiver: TExpr, receiver_ty: Ty, view: Option<CollectionId>) -> CheckedCall {
    match m {
        BuiltinMethod::Bytes => CheckedCall::Value(
            TExpr::ViewFromString(Box::new(receiver), Ty::ViewByte),
            Ty::ViewByte,
        ),
        BuiltinMethod::Unicode => CheckedCall::Value(
            TExpr::ViewFromString(Box::new(receiver), Ty::ViewUnicode),
            Ty::ViewUnicode,
        ),
        BuiltinMethod::ViewLength => CheckedCall::Value(TExpr::ViewLength(Box::new(receiver), receiver_ty), Ty::Int64),
        BuiltinMethod::CollectionLength => CheckedCall::Value(TExpr::CollectionLength(Box::new(receiver)), Ty::Int64),
        BuiltinMethod::IsEmpty => CheckedCall::Value(TExpr::CollectionIsEmpty(Box::new(receiver)), Ty::Bool),
        BuiltinMethod::Capacity => CheckedCall::Value(TExpr::CollectionCapacity(Box::new(receiver)), Ty::Int64),
        BuiltinMethod::SequenceView { .. } => CheckedCall::Value(
            TExpr::CollectionView(Box::new(receiver), Ty::View(view.unwrap())),
            Ty::View(view.unwrap()),
        ),
        _ => CheckedCall::Value(TExpr::StringClone(Box::new(receiver)), Ty::String),
    }
}

/// Finishes an argument-free built-in `m` on `receiver` of type
/// `receiver_ty`. For a `view()`, `view` is the view collection interned for
/// the receiver's element type.
pub fn argument_free_call(m: BuiltinMethod, receiver: TExpr, receiver_ty: Ty, view: Option<CollectionId>) -> (r: CheckedCall)
    requires
        argument_free(m),
        m is SequenceView ==> view is Some,
    ensures
        r == spec_argument_free_call(m, receiver, receiver_ty, view),
{
    match m {
        BuiltinMethod::Bytes => CheckedCall::Value(
            TExpr::ViewFromString(Box::new(receiver), Ty::ViewByte),
            Ty::ViewByte,
        ),
        BuiltinMethod::Unicode => CheckedCall::Value(
            TExpr::ViewFromString(Box::new(receiver), Ty::ViewUnicode),
            Ty::ViewUnicode,
        ),
        BuiltinMethod::ViewLength => CheckedCall::Value(TExpr::ViewLength(Box::new(receiver), receiver_ty), Ty::Int64),
        BuiltinMethod::CollectionLength => CheckedCall::Value(TExpr::CollectionLength(Box::new(receiver)), Ty::Int64),
        BuiltinMethod::IsEmpty => CheckedCall::Value(TExpr::CollectionIsEmpty(Box::new(receiver)), Ty::Bool),
        BuiltinMethod::Capacity => CheckedCall::Value(TExpr::CollectionCapacity(Box::new(receiver)), Ty::Int64),
        BuiltinMethod::SequenceView { .. } => {
            let id = view.unwrap();
            CheckedCall::Value(TExpr::CollectionView(Box::new(receiver), Ty::View(id)), Ty::View(id))
        },
        _ => CheckedCall::Value(TExpr::StringClone(Box::new(receiver)), Ty::String),
    }
}

/// An `Int64` operand is accepted silently; any other is a mismatch.
pub open spec fn int_operand_diagnostics(types: &Types, ty: Ty, span: Span) -> Diagnostics {
    if ty == Ty::Int64 {
        Seq::empty()
    } else {
        seq![(span, mismatch_message(types, Ty::Int64, ty))]
    }
}

fn int_operand(types: &Types, errors: &mut Vec<Error>, ty: Ty, span: Span)
    requires
        types.wf(),
        types.valid_ty(ty),
        display_depth(types) <= usize::MAX,
    ensures
        diagnostics(final(errors)@) == diagnostics(old(errors)@) + int_operand_diagnostics(types, ty, span),
{
    let ghost start = diagnostics(errors@);
    if ty != Ty::Int64 {
        let msg = mismatch(types, Ty::Int64, ty);
        let ghost text = msg@;
        errors.push(Error { span, msg });
        proof {
            assert(diagnostics(errors@) =~= start + seq![(span, text)]);
        }
    } else {
        assert(start + int_operand_diagnostics(types, ty, span) =~= start);
    }
}

/// Finishes `at(index)` of a byte view or `scalar_at(index)` of a scalar
/// view of type `view_ty`, once the index is checked: the index must be an
/// `Int64`, and the result is the sum `sum` interned for `Nil` and the
/// view's element.
pub fn view_at_call(
    types: &Types,
    errors: &mut Vec<Error>,
    receiver: TExpr,
    view_ty: Ty,
    index: TExpr,
    index_ty: Ty,
    index_span: Span,
    sum: SumId,
) -> (r: CheckedCall)
    requires
        types.wf(),
        types.valid_ty(index_ty),
        display_depth(types) <= usize::MAX,
    ensures
        diagnostics(final(errors)@) == diagnostics(old(errors)@) + int_operand_diagnostics(types, index_ty, index_span),
        r == CheckedCall::Value(TExpr::ViewAt(Box::new(receiver), Box::new(index), view_ty, sum), Ty::Sum(sum)),
{
    int_operand(types, errors, index_ty, index_span);
    CheckedCall::Value(TExpr::ViewAt(Box::new(receiver), Box::new(index), view_ty, sum), Ty::Sum(sum))
}

/// The call a `slice(start, end)` makes once its bounds are checked.
pub open spec fn spec_slice_call(m: BuiltinMethod, receiver: TExpr, view_ty: Ty, start: TExpr, end: TExpr, sum: SumId) -> CheckedCall {
    match m {
        BuiltinMethod::CollectionSlice { elem } => CheckedCall::Value(
            TExpr::CollectionSlice {
                value: Box::new(receiver),
                start: Box::new(start),
                end: Box::new(end),
                view_ty,
                sum,
                elem,
            },
            Ty::Sum(sum),
        ),
        _ => CheckedCall::Value(
            TExpr::ViewSlice { value: Box::new(receiver), start: Box::new(start), end: Box::new(end), view_ty, sum },
            Ty::Sum(sum),
        ),
    }
}

/// Finishes `slice(start, end)` of a text view or a collection once both
/// bounds are checked: each bound must be an `Int64`, the start's mismatch
/// reported before the end's. The slice reads as `view_ty` (the receiver's
/// own type for a text view or a view; the view interned for the element
/// type otherwise) and the result is the sum `sum` interned for `Nil` and
/// `view_ty`.
pub fn slice_call(
    types: &Types,
    errors: &mut Vec<Error>,
    m: BuiltinMethod,
    receiver: TExpr,
    receiver_ty: Ty,
    view_ty: Ty,
    start: (TExpr, Ty, Span),
    end: (TExpr, Ty, Span),
    sum: SumId,
) -> (r: CheckedCall)
    requires
        m is ViewSlice || m is CollectionSlice,
        (m is ViewSlice || receiver_ty is View) ==> view_ty == receiver_ty,
        types.wf(),
        types.valid_ty(start.1),
        types.valid_ty(end.1),
        display_depth(types) <= usize::MAX,
    ensures
        diagnostics(final(errors)@) == diagnostics(old(errors)@) + int_operand_diagnostics(types, start.1, start.2)
            + int_operand_diagnostics(types, end.1, end.2),
        r == spec_slice_call(m, receiver, view_ty, start.0, end.0, sum),
{
    let ghost before = diagnostics(errors@);
    int_operand(types, errors, start.1, start.2);
    int_operand(types, errors, end.1, end.2);
    proof {
        assert(diagnostics(errors@) =~= before + int_operand_diagnostics(types, start.1, start.2)
            + int_operand_diagnostics(types, end.1, end.2));
    }
    match m {
        BuiltinMethod::CollectionSlice { elem } => CheckedCall::Value(
            TExpr::CollectionSlice {
                value: Box::new(receiver),
                start: Box::new(start.0),
                end: Box::new(end.0),
                view_ty,
                sum,
                elem,
            },
            Ty::Sum(sum),
        ),
        _ => CheckedCall::Value(
            TExpr::ViewSlice { value: Box::new(receiver), start: Box::new(start.0), end: Box::new(end.0), view_ty, sum },
            Ty::Sum(sum),
        ),
    }
}

/// A part `String.concat` accepts: text, a scalar view, or a scalar.
pub open spec fn concat_accepts(ty: Ty) -> bool {
    ||| ty is String
    ||| ty is ViewUnicode
    ||| ty is Unicode
    ||| ty is Byte
    ||| ty is UInt16
    ||| ty is UInt32
    ||| ty is UInt64
    ||| ty is Int64
    ||| ty is Float32
    ||| ty is Float64
    ||| ty is Bool
}

pub open spec fn concat_part_message(types: &Types, ty: Ty) -> Seq<char> {
    "String.concat does not accept '"@ + spec_display(types, ty) + "'; expected a text or scalar part"@
}

/// The parts a concatenation continues: those of a receiver that is itself a
/// concatenation, else the receiver as one text part.
pub open spec fn concat_parts(receiver: TExpr) -> Seq<TStringPart> {
    match receiver {
        TExpr::StringConcat(parts) => parts@,
        value => seq![TStringPart { value, ty: Ty::String }],
    }
}

/// Finishes `concat(part)` of a `String` once the part is checked: a part
/// that is neither text nor a scalar is reported, and the part is appended to
/// the receiver's concatenation (or to the receiver as its first part).
pub fn concat_call(
    types: &Types,
    errors: &mut Vec<Error>,
    receiver: TExpr,
    part: TExpr,
    part_ty: Ty,
    part_span: Span,
) -> (r: CheckedCall)
    requires
        types.wf(),
        types.valid_ty(part_ty),
        display_depth(types) <= usize::MAX,
    ensures
        concat_accepts(part_ty) ==> final(errors)@ == old(errors)@,
        !concat_accepts(part_ty) ==> diagnostics(final(errors)@) == diagnostics(old(errors)@).push(
            (part_span, concat_part_message(types, part_ty)),
        ),
        r matches CheckedCall::Value(TExpr::StringConcat(parts), Ty::String) && parts@ == concat_parts(
            receiver,
        ).push(TStringPart { value: part, ty: part_ty }),
{
    let accepted = match part_ty {
        Ty::String | Ty::ViewUnicode | Ty::Unicode | Ty::Byte | Ty::UInt16 | Ty::UInt32 | Ty::UInt64
        | Ty::Int64 | Ty::Float32 | Ty::Float64 | Ty::Bool => true,
        _ => false,
    };
    if !accepted {
        let ghost start = diagnostics(errors@);
        let mut msg = String::from_str("String.concat does not accept '");
        let shown = types.display(part_ty);
        msg.append(shown.as_str());
        msg.append("'; expected a text or scalar part");
        let ghost text = msg@;
        errors.push(Error { span: part_span, msg });
        proof {
            assert(text =~= concat_part_message(types, part_ty));
            assert(diagnostics(errors@) =~= start.push((part_span, text)));
        }
    }
    let mut parts = match receiver {
        TExpr::StringConcat(parts) => parts,
        value => vec![TStringPart { value, ty: Ty::String }],
    };
    parts.push(TStringPart { value: part, ty: part_ty });
    CheckedCall::Value(TExpr::StringConcat(parts), Ty::String)
}

pub open spec fn invalid_string_call_message(name: Seq<char>) -> Seq<char> {
    "String."@ + name + " called with invalid arguments"@
}

/// `clone` or `concat` called in a form that is not the built-in one is
/// reported at the call; the call then stands for a `String`.
pub fn invalid_string_call(errors: &mut Vec<Error>, name: &str, span: Span) -> (r: CheckedCall)
    ensures
        diagnostics(final(errors)@) == diagnostics(old(errors)@).push((span, invalid_string_call_message(name@))),
        r == CheckedCall::Value(TExpr::Nil, Ty::String),
{
    let ghost start = diagnostics(errors@);
    let mut msg = concat_str("String.", name);
    msg.append(" called with invalid arguments");
    let ghost text = msg@;
    errors.push(Error { span, msg });
    proof {
        assert(diagnostics(errors@) =~= start.push((span, text)));
    }
    CheckedCall::Value(TExpr::Nil, Ty::String)
}

pub open spec fn static_form_message(name: Seq<char>) -> Seq<char> {
    "String."@ + name + " expects one positional view argument"@
}

/// Checks the form of a static `String.name(args)` conversion before its
/// argument is checked: anything but one positional argument is reported at
/// the member and the call stands for a `String`; otherwise the argument is
/// checked next (`None`).
pub fn string_static_form(errors: &mut Vec<Error>, name: &str, args: &[Arg], member_span: Span) -> (r: Option<CheckedCall>)
    ensures
        positional(args@, 1) ==> r is None && final(errors)@ == old(errors)@,
        !positional(args@, 1) ==> r == Some(CheckedCall::Value(TExpr::Nil, Ty::String)) && diagnostics(
            final(errors)@,
        ) == diagnostics(old(errors)@).push((member_span, static_form_message(name@))),
{
    if positional_args(args, 1) {
        None
    } else {
        let ghost start = diagnostics(errors@);
        let mut msg = concat_str("String.", name);
        msg.append(" expects one positional view argument");
        let ghost text = msg@;
        errors.push(Error { span: member_span, msg });
        proof {
            assert(diagnostics(errors@) =~= start.push((member_span, text)));
        }
        Some(CheckedCall::Value(TExpr::Nil, Ty::String))
    }
}

/// Which static `String` conversion a checked argument selects.
#[derive(Clone, Copy, Debug, PartialEq, Eq, Structural)]
pub enum StringStatic {
    /// `String.from_unicode` of a scalar view.
    FromUnicode,
    /// `String.from_utf8` of a byte view: the result may be absent.
    FromUtf8,
    /// Any other name or argument type.
    Unsupported,
}

pub open spec fn spec_string_static(name: Seq<char>, ty: Ty) -> StringStatic {
    if name == "from_unicode"@ && ty == Ty::ViewUnicode {
        StringStatic::FromUnicode
    } else if name == "from_utf8"@ && ty == Ty::ViewByte {
        StringStatic::FromUtf8
    } else {
        StringStatic::Unsupported
    }
}

/// The conversion `String.name` performs on an argument of type `ty`.
pub fn string_static(name: &str, ty: Ty) -> (r: StringStatic)
    ensures
        r == spec_string_static(name@, ty),
{
    if str_eq(name, "from_unicode") && ty == Ty::ViewUnicode {
        StringStatic::FromUnicode
    } else if str_eq(name, "from_utf8") && ty == Ty::ViewByte {
        StringStatic::FromUtf8
    } else {
        StringStatic::Unsupported
    }
}

pub open spec fn unsupported_static_message(types: &Types, name: Seq<char>, ty: Ty) -> Seq<char> {
    "String."@ + name + " received unsupported argument type '"@ + spec_display(types, ty)
        + "', expected a matching view"@
}

/// Finishes the static conversion `String.name(value)` once its argument is
/// checked to have type `ty`. A decoding from UTF-8 gives the sum
/// `utf8_sum` interned for `Nil` and `String`; an argument of any other
/// type is reported at the call, which then stands for a `String`.
pub fn finish_string_static(
    types: &Types,
    errors: &mut Vec<Error>,
    name: &str,
    value: TExpr,
    ty: Ty,
    span: Span,
    utf8_sum: Option<SumId>,
) -> (r: CheckedCall)
    requires
        types.wf(),
        types.valid_ty(ty),
        display_depth(types) <= usize::MAX,
        spec_string_static(name@, ty) is FromUtf8 ==> utf8_sum is Some,
    ensures
        match spec_string_static(name@, ty) {
            StringStatic::FromUnicode => r == CheckedCall::Value(TExpr::StringFromUnicode(Box::new(value)), Ty::String)
                && final(errors)@ == old(errors)@,
            StringStatic::FromUtf8 => r == CheckedCall::Value(
                TExpr::StringFromUtf8(Box::new(value), utf8_sum.unwrap()),
                Ty::Sum(utf8_sum.unwrap()),
            ) && final(errors)@ == old(errors)@,
            StringStatic::Unsupported => r == CheckedCall::Value(TExpr::Nil, Ty::String) && diagnostics(final(errors)@)
                == diagnostics(old(errors)@).push((span, unsupported_static_message(types, name@, ty))),
        },
{
    match string_static(name, ty) {
        StringStatic::FromUnicode => CheckedCall::Value(TExpr::StringFromUnicode(Box::new(value)), Ty::String),
        StringStatic::FromUtf8 => {
            let sum = utf8_sum.unwrap();
            CheckedCall::Value(TExpr::StringFromUtf8(Box::new(value), sum), Ty::Sum(sum))
        },
        StringStatic::Unsupported => {
            let ghost start = diagnostics(errors@);
            let mut msg = concat_str("String.", name);
            msg.append(" received unsupported argument type '");
            let shown = types.display(ty);
            msg.append(shown.as_str());
            msg.append("', expected a matching view");
            let ghost text = msg@;
            errors.push(Error { span, msg });
            proof {
                assert(text =~= unsupported_static_message(types, name@, ty));
                assert(diagnostics(errors@) =~= start.push((span, text)));
            }
            CheckedCall::Value(TExpr::Nil, Ty::String)
        },
    }
}

} // verus!
