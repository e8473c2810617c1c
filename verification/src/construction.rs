//! Calls whose head names a user-defined type: a represented type converts
//! exactly one value across its single layer, a struct or union member is
//! constructed from named fields, and a union itself cannot be
//! constructed. Each is checked in steps around the checking of its
//! argument expressions.
use vstd::prelude::*;
use crate::ast::{Arg, Span};
use crate::checked::{Error, TExpr};
use crate::convert::{coerce_diagnostics, coerced, consume_into};
use crate::generics::{Diagnostics, diagnostics};
use crate::methods::{CheckedCall, named_argument_diagnostics, reject_named_args};
use crate::moves::{Binding, consume_effect, consume_moves, consumed};
use crate::names::{display_depth, spec_display};
use crate::places::{MoveState, ViewBorrow};
use crate::resolve::spec_field;
use crate::text::{concat_str, decimal, decimal_string, decimal_string_u64};
use crate::ty::{CollectionDef, Ty, TypeDef, TypeId, Types};

verus! {

/// The type a represented type wraps.
pub open spec fn spec_represented_target(types: &Types, id: TypeId) -> Option<Ty> {
    match types.defs@[id.0 as int] {
        TypeDef::Represented { target, .. } => Some(target),
        _ => None,
    }
}

impl Types {
    /// The type a represented type wraps, `None` for any other definition.
    pub fn represented_target(&self, id: TypeId) -> (r: Option<Ty>)
        requires
            id.0 < self.defs@.len(),
        ensures
            r == spec_represented_target(self, id),
    {
        match self.def(id) {
            TypeDef::Represented { target, .. } => Some(*target),
            _ => None,
        }
    }
}

/// How a call whose head names a user-defined type is checked.
#[derive(Debug)]
pub enum TypeCall {
    /// A represented type: a conversion across its layer.
    Convert,
    /// A struct or union member: a construction from named fields.
    Construct,
    /// A union: reported; every argument is checked for its own
    /// diagnostics only, and the call is this.
    Rejected(CheckedCall),
}

pub open spec fn union_construction_message(name: Seq<char>) -> Seq<char> {
    "'"@ + name + "' is a union; construction names one member type, not the union itself"@
}

/// Decides how a call whose head names type `id` is checked; a union is
/// reported at the head.
pub fn type_call(types: &Types, errors: &mut Vec<Error>, id: TypeId, head_span: Span) -> (r: TypeCall)
    requires
        id.0 < types.defs@.len(),
    ensures
        match types.defs@[id.0 as int] {
            TypeDef::Represented { .. } => r is Convert && final(errors)@ == old(errors)@,
            TypeDef::Union { name, .. } => r matches TypeCall::Rejected(CheckedCall::Value(TExpr::Nil, Ty::Nil))
                && diagnostics(final(errors)@) == diagnostics(old(errors)@).push(
                (head_span, union_construction_message(name@)),
            ),
            _ => r is Construct && final(errors)@ == old(errors)@,
        },
{
    match types.def(id) {
        TypeDef::Represented { .. } => TypeCall::Convert,
        TypeDef::Union { name, .. } => {
            let mut msg = concat_str("'", name.as_str());
            msg.append("' is a union; construction names one member type, not the union itself");
            let ghost before = diagnostics(errors@);
            errors.push(Error { span: head_span, msg });
            proof {
                assert(diagnostics(errors@) =~= before.push((head_span, union_construction_message(name@))));
            }
            TypeCall::Rejected(CheckedCall::Value(TExpr::Nil, Ty::Nil))
        },
        _ => TypeCall::Construct,
    }
}

pub open spec fn conversion_arity_message(types: &Types, to: Ty, supplied: nat) -> Seq<char> {
    "'"@ + spec_display(types, to) + "' converts exactly one positional value, but "@ + decimal(supplied)
        + " were supplied"@
}

/// Checks what a conversion to `to` allows before its argument is looked
/// at: no argument is named, and there is exactly one. Where the count is
/// wrong, gives the call's result; every argument is then checked for its
/// own diagnostics only.
pub fn plan_conversion(types: &Types, errors: &mut Vec<Error>, to: Ty, args: &[Arg], span: Span) -> (r: Option<
    CheckedCall,
>)
    requires
        types.wf(),
        types.valid_ty(to),
        display_depth(types) <= usize::MAX,
    ensures
        diagnostics(final(errors)@) == diagnostics(old(errors)@) + named_argument_diagnostics(
            "a represented-type conversion"@,
            args@,
            args@.len() as int,
        ) + if args@.len() == 1 {
            Seq::empty()
        } else {
            seq![(span, conversion_arity_message(types, to, args@.len()))]
        },
        args@.len() == 1 <==> r is None,
        r matches Some(call) ==> call == CheckedCall::Value(TExpr::Nil, to),
{
    let ghost start = diagnostics(errors@);
    reject_named_args(errors, "a represented-type conversion", args);
    let ghost named = diagnostics(errors@);
    if args.len() == 1 {
        proof {
            assert(named =~= named + Seq::<(Span, Seq<char>)>::empty());
        }
        return None;
    }
    let mut msg = concat_str("'", types.display(to).as_str());
    msg.append("' converts exactly one positional value, but ");
    msg.append(decimal_string(args.len()).as_str());
    msg.append(" were supplied");
    errors.push(Error { span, msg });
    proof {
        assert(diagnostics(errors@) =~= named.push((span, conversion_arity_message(types, to, args@.len()))));
    }
    Some(CheckedCall::Value(TExpr::Nil, to))
}

/// A conversion crosses exactly one represented layer, in either direction.
pub open spec fn crosses_one_layer(types: &Types, from: Ty, to: Ty) -> bool {
    (to matches Ty::User(id) && spec_represented_target(types, id) == Some(from)) || (from matches Ty::User(
        id,
    ) && spec_represented_target(types, id) == Some(to))
}

/// The diagnostic for a conversion to `to` of a value of type `from` that
/// crosses no single layer.
pub open spec fn conversion_message(types: &Types, from: Ty, to: Ty) -> Seq<char> {
    let target = spec_display(types, to);
    let found = spec_display(types, from);
    match to {
        Ty::User(id) => {
            let immediate = match spec_represented_target(types, id) {
                Some(t) => spec_display(types, t),
                None => target,
            };
            "'"@ + target + "' wraps exactly its immediate representation '"@ + immediate + "', found '"@ + found
                + "'"@
        },
        _ => "'"@ + target + "' unwraps exactly one value of a type represented by '"@ + target + "', found '"@
            + found + "'"@,
    }
}

/// Converts the checked argument of a conversion to `to`: wrapping a value
/// of exactly the represented type, or unwrapping one layer of it.
/// Anything else is reported at the argument.
pub fn finish_conversion(types: &Types, errors: &mut Vec<Error>, to: Ty, value: TExpr, from: Ty, span: Span) -> (r:
    CheckedCall)
    requires
        types.wf(),
        types.valid_ty(to),
        types.valid_ty(from),
        display_depth(types) <= usize::MAX,
    ensures
        diagnostics(final(errors)@) == diagnostics(old(errors)@) + if crosses_one_layer(types, from, to) {
            Seq::empty()
        } else {
            seq![(span, conversion_message(types, from, to))]
        },
        r == CheckedCall::Value(TExpr::Represent { value: Box::new(value), ty: to }, to),
{
    let ghost start = diagnostics(errors@);
    let wraps = match to {
        Ty::User(id) => types.represented_target(id) == Some(from),
        _ => false,
    };
    let unwraps = match from {
        Ty::User(id) => types.represented_target(id) == Some(to),
        _ => false,
    };
    if !wraps && !unwraps {
        let target = types.display(to);
        let found = types.display(from);
        let msg = match to {
            Ty::User(id) => {
                let immediate = match types.represented_target(id) {
                    Some(t) => {
                        proof {
                            assert(types.def_wf(id.0 as int));
                        }
                        types.display(t)
                    },
                    None => target.clone(),
                };
                let mut m = concat_str("'", target.as_str());
                m.append("' wraps exactly its immediate representation '");
                m.append(immediate.as_str());
                m.append("', found '");
                m.append(found.as_str());
                m.append("'");
                m
            },
            _ => {
                let mut m = concat_str("'", target.as_str());
                m.append("' unwraps exactly one value of a type represented by '");
                m.append(target.as_str());
                m.append("', found '");
                m.append(found.as_str());
                m.append("'");
                m
            },
        };
        let ghost text = msg@;
        errors.push(Error { span, msg });
        proof {
            assert(text =~= conversion_message(types, from, to));
            assert(diagnostics(errors@) =~= start.push((span, conversion_message(types, from, to))));
        }
    } else {
        proof {
            assert(start =~= start + Seq::<(Span, Seq<char>)>::empty());
        }
    }
    CheckedCall::Value(TExpr::Represent { value: Box::new(value), ty: to }, to)
}

/// A construction in progress: which fields have been supplied, and the
/// supplied values in written order, each with its field's position.
#[derive(Debug)]
pub struct Construction {
    pub type_id: TypeId,
    pub filled: Vec<bool>,
    pub fields: Vec<(usize, TExpr)>,
}

/// The declared fields of a constructed type.
pub open spec fn declared_fields(types: &Types, id: TypeId) -> Seq<(String, Ty)> {
    match types.defs@[id.0 as int].spec_fields() {
        Some(fields) => fields,
        None => Seq::empty(),
    }
}

/// The constructed type is a struct or a union member.
pub open spec fn constructible(types: &Types, id: TypeId) -> bool {
    id.0 < types.defs@.len() && types.defs@[id.0 as int].spec_fields() is Some
}

/// The construction tracks one flag per declared field.
pub open spec fn construction_wf(types: &Types, c: Construction) -> bool {
    constructible(types, c.type_id) && c.filled@.len() == declared_fields(types, c.type_id).len()
}

/// How a construction starts.
#[derive(Debug)]
pub enum ConstructionStart {
    /// A type without fields: the construction is complete, and its
    /// arguments are not looked at.
    Done(CheckedCall),
    /// Each argument is handed to `construction_slot`, checked, and handed
    /// to `construction_value`; `finish_construction` then builds it.
    Fields(Construction),
}

pub open spec fn no_fields_message(name: Seq<char>) -> Seq<char> {
    "'"@ + name + "' has no fields, so it is constructed with '()'"@
}

/// Starts constructing type `id` from `argc` arguments: a type without
/// fields takes none.
pub fn begin_construction(types: &Types, errors: &mut Vec<Error>, id: TypeId, argc: usize, span: Span) -> (r:
    ConstructionStart)
    requires
        constructible(types, id),
    ensures
        if declared_fields(types, id).len() == 0 {
            &&& r matches ConstructionStart::Done(CheckedCall::Value(TExpr::Construct { type_id, fields }, t))
                && type_id == id && fields@.len() == 0 && t == Ty::User(id)
            &&& diagnostics(final(errors)@) == diagnostics(old(errors)@) + if argc != 0 {
                seq![(span, no_fields_message(types.defs@[id.0 as int].spec_name()@))]
            } else {
                Seq::empty()
            }
        } else {
            &&& r matches ConstructionStart::Fields(c) && c.type_id == id && c.fields@.len() == 0
                && c.filled@ == Seq::new(declared_fields(types, id).len(), |i: int| false)
            &&& final(errors)@ == old(errors)@
        },
{
    let ghost start = diagnostics(errors@);
    let fields = match types.def(id).fields() {
        Some(fields) => fields,
        None => {
            return ConstructionStart::Done(
                CheckedCall::Value(TExpr::Construct { type_id: id, fields: Vec::new() }, Ty::User(id)),
            );
        },
    };
    if fields.len() == 0 {
        if argc != 0 {
            let name = types.def(id).name();
            let mut msg = concat_str("'", name.as_str());
            msg.append("' has no fields, so it is constructed with '()'");
            errors.push(Error { span, msg });
            proof {
                assert(diagnostics(errors@) =~= start.push(
                    (span, no_fields_message(types.defs@[id.0 as int].spec_name()@)),
                ));
            }
        } else {
            proof {
                assert(start =~= start + Seq::<(Span, Seq<char>)>::empty());
            }
        }
        return ConstructionStart::Done(
            CheckedCall::Value(TExpr::Construct { type_id: id, fields: Vec::new() }, Ty::User(id)),
        );
    }
    let mut filled: Vec<bool> = Vec::new();
    let mut k: usize = 0;
    while k < fields.len()
        invariant
            k <= fields@.len(),
            filled@ == Seq::new(k as nat, |i: int| false),
        decreases fields.len() - k,
    {
        filled.push(false);
        k = k + 1;
        proof {
            assert(filled@ =~= Seq::new(k as nat, |i: int| false));
        }
    }
    ConstructionStart::Fields(Construction { type_id: id, filled, fields: Vec::new() })
}

pub open spec fn positional_field_message(name: Seq<char>) -> Seq<char> {
    "'"@ + name + "' requires named fields; positional construction of a non-empty struct is invalid"@
}

pub open spec fn unknown_field_message(owner: Seq<char>, name: Seq<char>) -> Seq<char> {
    "'"@ + owner + "' has no field '"@ + name + "'"@
}

/// The field a construction argument names, or the diagnostic for an
/// argument that names none.
pub open spec fn spec_construction_slot(types: &Types, id: TypeId, arg: Arg) -> Result<(usize, Ty), (Span, Seq<char>)> {
    let owner = types.defs@[id.0 as int].spec_name()@;
    match arg.name {
        None => Err((arg.value.1, positional_field_message(owner))),
        Some((name, name_span)) => match spec_field(types, id, name@) {
            Some(slot) => Ok(slot),
            None => Err((name_span, unknown_field_message(owner, name@))),
        },
    }
}

/// Finds the field a construction argument names, before its value is
/// checked. An argument without a name, or naming no field, is reported;
/// its value is then checked for its own diagnostics only.
pub fn construction_slot(types: &Types, errors: &mut Vec<Error>, id: TypeId, arg: &Arg) -> (r: Option<(usize, Ty)>)
    requires
        constructible(types, id),
    ensures
        match spec_construction_slot(types, id, *arg) {
            Ok(slot) => r == Some(slot) && final(errors)@ == old(errors)@,
            Err(e) => r is None && diagnostics(final(errors)@) == diagnostics(old(errors)@).push(e),
        },
{
    let ghost start = diagnostics(errors@);
    match arg.name {
        None => {
            let mut msg = concat_str("'", types.def(id).name().as_str());
            msg.append("' requires named fields; positional construction of a non-empty struct is invalid");
            errors.push(Error { span: arg.value.1, msg });
            proof {
                assert(diagnostics(errors@) =~= start.push(
                    (arg.value.1, positional_field_message(types.defs@[id.0 as int].spec_name()@)),
                ));
            }
            None
        },
        Some((name, name_span)) => match types.field(id, name) {
            Some(slot) => Some(slot),
            None => {
                let mut msg = concat_str("'", types.def(id).name().as_str());
                msg.append("' has no field '");
                msg.append(name);
                msg.append("'");
                errors.push(Error { span: name_span, msg });
                proof {
                    assert(diagnostics(errors@) =~= start.push(
                        (name_span, unknown_field_message(types.defs@[id.0 as int].spec_name()@, name@)),
                    ));
                }
                None
            },
        },
    }
}

pub open spec fn duplicate_field_message(owner: Seq<char>, name: Seq<char>) -> Seq<char> {
    "Field '"@ + owner + "."@ + name + "' is supplied more than once"@
}

/// Takes the checked value of the argument that names field `index`
/// (written `name` at `name_span`): a field supplied before is reported and
/// the value dropped; otherwise the value is taken over, made assignable to
/// the field's type, and recorded in written order.
pub fn construction_value(
    types: &Types,
    moves: &mut MoveState,
    borrows: &Vec<ViewBorrow>,
    env: &Vec<Binding>,
    errors: &mut Vec<Error>,
    construction: &mut Construction,
    index: usize,
    name: &str,
    name_span: Span,
    value: TExpr,
    ty: Ty,
    span: Span,
)
    requires
        types.wf(),
        types.layout_finite(),
        display_depth(types) <= usize::MAX,
        old(moves).wf(),
        construction_wf(types, *old(construction)),
        index < old(construction).filled@.len(),
        types.valid_ty(ty),
        value matches TExpr::Place(p, _) ==> types.valid_ty(p.ty) && types.valid_ty(p.root_ty),
    ensures
        final(moves).wf(),
        final(construction).type_id == old(construction).type_id,
        ({
            let c = *old(construction);
            let expected = declared_fields(types, c.type_id)[index as int].1;
            if c.filled@[index as int] {
                &&& diagnostics(final(errors)@) == diagnostics(old(errors)@).push(
                    (name_span, duplicate_field_message(types.defs@[c.type_id.0 as int].spec_name()@, name@)),
                )
                &&& final(construction).filled@ == c.filled@
                &&& final(construction).fields@ == c.fields@
                &&& final(moves).entries@ == old(moves).entries@
            } else {
                &&& diagnostics(final(errors)@) == diagnostics(old(errors)@) + consume_effect(
                    types,
                    old(moves).entries@,
                    borrows@,
                    env@,
                    value,
                    span,
                ) + coerce_diagnostics(types, value is Place, ty, expected, span)
                &&& consume_moves(types, env@, old(moves).entries@, final(moves).entries@, value, span)
                &&& final(construction).filled@ == c.filled@.update(index as int, true)
                &&& final(construction).fields@.len() == c.fields@.len() + 1
                &&& final(construction).fields@.drop_last() == c.fields@
                &&& final(construction).fields@.last().0 == index
                &&& coerced(types, consumed(value), ty, expected, final(construction).fields@.last().1)
            }
        }),
{
    let ghost start = diagnostics(errors@);
    let ghost c0 = *construction;
    let id = construction.type_id;
    if construction.filled[index] {
        let mut msg = concat_str("Field '", types.def(id).name().as_str());
        msg.append(".");
        msg.append(name);
        msg.append("' is supplied more than once");
        errors.push(Error { span: name_span, msg });
        proof {
            assert(diagnostics(errors@) =~= start.push(
                (name_span, duplicate_field_message(types.defs@[id.0 as int].spec_name()@, name@)),
            ));
        }
        return;
    }
    construction.filled.set(index, true);
    let fields = match types.def(id).fields() {
        Some(fields) => fields,
        None => {
            return;
        },
    };
    let expected = fields[index].1;
    proof {
        assert(types.def_wf(id.0 as int));
        assert(types.valid_ty(expected));
    }
    let assigned = consume_into(types, moves, borrows, env, errors, value, ty, expected, span);
    construction.fields.push((index, assigned));
    proof {
        assert(construction.fields@.drop_last() =~= c0.fields@);
    }
}

/// The names of the first `n` declared fields not supplied, in order.
pub open spec fn missing_fields(fields: Seq<(String, Ty)>, filled: Seq<bool>, n: int) -> Seq<Seq<char>>
    decreases if n > 0 { n as nat } else { 0 },
{
    if n <= 0 || n > fields.len() || n > filled.len() {
        Seq::empty()
    } else {
        missing_fields(fields, filled, n - 1) + if filled[n - 1] {
            Seq::empty()
        } else {
            seq![fields[n - 1].0@]
        }
    }
}

/// The first `n` names, each quoted, joined by `, `.
pub open spec fn quoted_list(names: Seq<Seq<char>>, n: int) -> Seq<char>
    decreases if n > 0 { n as nat } else { 0 },
{
    if n <= 0 || n > names.len() {
        Seq::empty()
    } else if n == 1 {
        "'"@ + names[0] + "'"@
    } else {
        quoted_list(names, n - 1) + ", '"@ + names[n - 1] + "'"@
    }
}

pub open spec fn missing_fields_message(owner: Seq<char>, names: Seq<Seq<char>>) -> Seq<char> {
    "'"@ + owner + "' is missing field "@ + quoted_list(names, names.len() as int)
}

/// Completes a construction: every field not supplied is reported at
/// once, and the construction keeps the supplied values in written order.
pub fn finish_construction(types: &Types, errors: &mut Vec<Error>, construction: Construction, span: Span) -> (r:
    CheckedCall)
    requires
        construction_wf(types, construction),
    ensures
        ({
            let c = construction;
            let missing = missing_fields(declared_fields(types, c.type_id), c.filled@, c.filled@.len() as int);
            diagnostics(final(errors)@) == diagnostics(old(errors)@) + if missing.len() == 0 {
                Seq::empty()
            } else {
                seq![(span, missing_fields_message(types.defs@[c.type_id.0 as int].spec_name()@, missing))]
            }
        }),
        r == CheckedCall::Value(
            TExpr::Construct { type_id: construction.type_id, fields: construction.fields },
            Ty::User(construction.type_id),
        ),
{
    let ghost start = diagnostics(errors@);
    let id = construction.type_id;
    let fields = match types.def(id).fields() {
        Some(fields) => fields,
        None => {
            return CheckedCall::Value(
                TExpr::Construct { type_id: id, fields: construction.fields },
                Ty::User(id),
            );
        },
    };
    let ghost all = fields@;
    let ghost flags = construction.filled@;
    let mut listed = String::new();
    let mut count: usize = 0;
    let ghost mut names: Seq<Seq<char>> = Seq::empty();
    let mut k: usize = 0;
    while k < construction.filled.len()
        invariant
            k <= flags.len(),
            flags == construction.filled@,
            flags.len() == all.len(),
            all == fields@,
            names == missing_fields(all, flags, k as int),
            count == names.len(),
            count <= k,
            listed@ == quoted_list(names, names.len() as int),
        decreases construction.filled.len() - k,
    {
        if !construction.filled[k] {
            if count > 0 {
                listed.append(", '");
            } else {
                listed.append("'");
            }
            listed.append(fields[k].0.as_str());
            listed.append("'");
            proof {
                let old_names = names;
                names = names.push(fields@[k as int].0@);
                assert(names.drop_last() =~= old_names);
                assert(quoted_list(names, names.len() - 1) == quoted_list(old_names, old_names.len() as int)) by {
                    lemma_quoted_list_prefix(old_names, names, old_names.len() as int);
                }
                assert(listed@ =~= quoted_list(names, names.len() as int));
            }
            count = count + 1;
        }
        k = k + 1;
        proof {
            assert(missing_fields(all, flags, k as int) =~= names);
        }
    }
    if count > 0 {
        let mut msg = concat_str("'", types.def(id).name().as_str());
        msg.append("' is missing field ");
        msg.append(listed.as_str());
        errors.push(Error { span, msg });
        proof {
            assert(diagnostics(errors@) =~= start.push(
                (span, missing_fields_message(types.defs@[id.0 as int].spec_name()@, names)),
            ));
        }
    } else {
        proof {
            assert(start =~= start + Seq::<(Span, Seq<char>)>::empty());
        }
    }
    CheckedCall::Value(TExpr::Construct { type_id: id, fields: construction.fields }, Ty::User(id))
}

proof fn lemma_quoted_list_prefix(a: Seq<Seq<char>>, b: Seq<Seq<char>>, n: int)
    requires
        0 <= n <= a.len(),
        n <= b.len(),
        forall|i: int| 0 <= i < n ==> a[i] == b[i],
    ensures
        quoted_list(a, n) == quoted_list(b, n),
    decreases n,
{
    if n > 1 {
        lemma_quoted_list_prefix(a, b, n - 1);
    }
}

/// The element type, length, and kind a collection literal is checked
/// against: an expected array or list.
pub open spec fn literal_target(types: &Types, expected: Ty) -> Option<(Ty, u64, bool)> {
    match expected {
        Ty::Array(id) => match types.collections@[id.0 as int] {
            CollectionDef::Array { elem, len } => Some((elem, len, true)),
            _ => None,
        },
        Ty::List(id) => match types.collections@[id.0 as int] {
            CollectionDef::List { elem } => Some((elem, 0, false)),
            _ => None,
        },
        _ => None,
    }
}

/// The interned collection of an expected array or list type matches it.
pub open spec fn literal_target_consistent(types: &Types, expected: Ty) -> bool {
    match expected {
        Ty::Array(id) => types.collections@[id.0 as int] is Array,
        Ty::List(id) => types.collections@[id.0 as int] is List,
        _ => true,
    }
}

pub open spec fn literal_without_target_message() -> Seq<char> {
    "a collection literal requires an expected Array<T, N> or List<T> type"@
}

pub open spec fn array_length_message(items: nat, len: nat) -> Seq<char> {
    "array literal has "@ + decimal(items) + " elements, but the expected array length is "@ + decimal(len)
}

/// Checks a collection literal of `items` elements against its expected
/// type before the elements are looked at: the expected type must be an
/// array or a list, and an array literal has exactly the array's length.
/// Gives the element type each element is then taken over as
/// (`consume_into`); without one, every element is checked for its own
/// diagnostics only and the literal is `nil`.
pub fn plan_collection_literal(types: &Types, errors: &mut Vec<Error>, expected: Ty, items: usize, span: Span) -> (r:
    Option<Ty>)
    requires
        types.valid_ty(expected),
        literal_target_consistent(types, expected),
    ensures
        match literal_target(types, expected) {
            None => r is None && diagnostics(final(errors)@) == diagnostics(old(errors)@).push(
                (span, literal_without_target_message()),
            ),
            Some((elem, len, is_array)) => r == Some(elem) && diagnostics(final(errors)@) == diagnostics(
                old(errors)@,
            ) + if is_array && items != len {
                seq![(span, array_length_message(items as nat, len as nat))]
            } else {
                Seq::empty()
            },
        },
{
    let ghost start = diagnostics(errors@);
    let (elem, len, is_array) = match expected {
        Ty::Array(id) => match types.collection(id) {
            CollectionDef::Array { elem, len } => (*elem, *len, true),
            _ => (Ty::Nil, 0, false),
        },
        Ty::List(id) => match types.collection(id) {
            CollectionDef::List { elem } => (*elem, 0, false),
            _ => (Ty::Nil, 0, false),
        },
        _ => {
            errors.push(
                Error {
                    span,
                    msg: String::from_str("a collection literal requires an expected Array<T, N> or List<T> type"),
                },
            );
            proof {
                assert(diagnostics(errors@) =~= start.push((span, literal_without_target_message())));
            }
            return None;
        },
    };
    if is_array && items as u64 != len {
        let mut msg = concat_str("array literal has ", decimal_string(items).as_str());
        msg.append(" elements, but the expected array length is ");
        msg.append(decimal_string_u64(len).as_str());
        errors.push(Error { span, msg });
        proof {
            assert(diagnostics(errors@) =~= start.push((span, array_length_message(items as nat, len as nat))));
        }
    } else {
        proof {
            assert(start =~= start + Seq::<(Span, Seq<char>)>::empty());
        }
    }
    Some(elem)
}

} // verus!
