//! The checks that complete a program once every callable is checked: no
//! callable returns a borrowed value, each diagnostic raised inside a generic
//! specialization names the specialization, every deferred receiver check is
//! settled against the solved receiver effects, and the outcome is the
//! checked program or the failure.
use vstd::prelude::*;
use crate::ast::Span;
use crate::checked::{Error, Failure, Program, TMethod};
use crate::generics::{Diagnostics, diagnostics};
use crate::names::{display_depth, spec_display};
use crate::text::{append_joined, concat_str, decimal, decimal_string, joined_with};
use crate::ty::{MethodId, Ty, Types};
use crate::views::{is_borrowed_type, spec_is_borrowed, type_count};

verus! {

pub open spec fn borrowed_result_message(types: &Types, ty: Ty, owner: Seq<char>) -> Seq<char> {
    "'"@ + spec_display(types, ty) + "' is borrowed and cannot be returned from "@ + owner
}

/// A callable whose result type holds a view is reported at its written
/// result type, or at the callable when none is written.
pub open spec fn borrowed_result_diagnostics(
    types: &Types,
    result: Option<Ty>,
    ret_span: Option<Span>,
    span: Span,
    owner: Seq<char>,
) -> Diagnostics {
    match result {
        Some(ty) => if spec_is_borrowed(types, ty) {
            seq![(
                match ret_span {
                    Some(at) => at,
                    None => span,
                },
                borrowed_result_message(types, ty, owner),
            )]
        } else {
            Seq::empty()
        },
        None => Seq::empty(),
    }
}

/// Rejects a borrowed result type of a callable (`owner` is "a function",
/// "an associated function", or "a method"): a view cannot outlive the call
/// that made it.
pub fn check_borrowed_result(
    types: &Types,
    errors: &mut Vec<Error>,
    result: Option<Ty>,
    ret_span: Option<Span>,
    span: Span,
    owner: &str,
)
    requires
        types.wf(),
        result matches Some(ty) ==> types.valid_ty(ty),
        type_count(types) <= usize::MAX,
        display_depth(types) <= usize::MAX,
    ensures
        diagnostics(final(errors)@) == diagnostics(old(errors)@) + borrowed_result_diagnostics(
            types,
            result,
            ret_span,
            span,
            owner@,
        ),
{
    let ghost start = diagnostics(errors@);
    if let Some(ty) = result {
        if is_borrowed_type(types, ty) {
            let at = match ret_span {
                Some(at) => at,
                None => span,
            };
            let mut msg = String::from_str("'");
            let name = types.display(ty);
            msg.append(name.as_str());
            msg.append("' is borrowed and cannot be returned from ");
            msg.append(owner);
            let ghost text = msg@;
            errors.push(Error { span: at, msg });
            proof {
                assert(diagnostics(errors@) =~= start.push((at, text)));
            }
            return;
        }
    }
    assert(diagnostics(errors@) =~= start + borrowed_result_diagnostics(types, result, ret_span, span, owner@));
}

/// The type arguments of a specialization as their diagnostic names.
pub open spec fn displayed(types: &Types, args: Seq<Ty>) -> Seq<Seq<char>> {
    args.map_values(|ty: Ty| spec_display(types, ty))
}

/// What a diagnostic raised inside a specialization gains: the generic and
/// its type arguments, where the generic is declared and where the
/// specialization was requested, and the chain of specializations that led
/// to it.
pub open spec fn specialization_note(
    request: Seq<char>,
    concrete: Seq<Seq<char>>,
    declared: Span,
    requested: Span,
    chain: Seq<Seq<char>>,
) -> Seq<char> {
    " (while specializing "@ + request + "<"@ + joined_with(concrete, ", "@) + "> declared at "@ + decimal(
        declared.start as nat,
    ) + ".."@ + decimal(declared.end as nat) + "; requested at "@ + decimal(requested.start as nat) + ".."@
        + decimal(requested.end as nat) + "; instantiation chain: "@ + joined_with(chain, " -> "@) + ")"@
}

fn append_range(text: &mut String, span: Span)
    ensures
        final(text)@ == old(text)@ + decimal(span.start as nat) + ".."@ + decimal(span.end as nat),
{
    let a = decimal_string(span.start);
    text.append(a.as_str());
    text.append("..");
    let b = decimal_string(span.end);
    text.append(b.as_str());
}

/// Attributes every diagnostic from index `from` on, raised while checking
/// the specialization of `request` at `args`, to that specialization.
pub fn attribute_to_specialization(
    types: &Types,
    errors: &mut Vec<Error>,
    from: usize,
    request: &str,
    args: &Vec<Ty>,
    declared: Span,
    requested: Span,
    chain: &Vec<String>,
)
    requires
        types.wf(),
        forall|i: int| 0 <= i < args@.len() ==> types.valid_ty(#[trigger] args@[i]),
        display_depth(types) <= usize::MAX,
    ensures
        final(errors)@.len() == old(errors)@.len(),
        forall|i: int| 0 <= i < old(errors)@.len() ==> (#[trigger] final(errors)@[i]).span == old(errors)@[i].span,
        forall|i: int|
            0 <= i < old(errors)@.len() && i < from ==> (#[trigger] final(errors)@[i]).msg@ == old(errors)@[i].msg@,
        forall|i: int|
            from <= i < old(errors)@.len() ==> (#[trigger] final(errors)@[i]).msg@ == old(errors)@[i].msg@
                + specialization_note(
                request@,
                displayed(types, args@),
                declared,
                requested,
                chain@.map_values(|s: String| s@),
            ),
{
    let mut names: Vec<String> = Vec::new();
    let mut k: usize = 0;
    while k < args.len()
        invariant
            types.wf(),
            forall|i: int| 0 <= i < args@.len() ==> types.valid_ty(#[trigger] args@[i]),
            display_depth(types) <= usize::MAX,
            k <= args@.len(),
            names@.len() == k,
            forall|j: int| 0 <= j < k ==> (#[trigger] names@[j])@ == spec_display(types, args@[j]),
        decreases args.len() - k,
    {
        let shown = types.display(args[k]);
        names.push(shown);
        k = k + 1;
    }
    proof {
        assert(names@.map_values(|s: String| s@) =~= displayed(types, args@));
    }
    let mut note = concat_str(" (while specializing ", request);
    note.append("<");
    append_joined(&mut note, &names, ", ");
    note.append("> declared at ");
    append_range(&mut note, declared);
    note.append("; requested at ");
    append_range(&mut note, requested);
    note.append("; instantiation chain: ");
    append_joined(&mut note, chain, " -> ");
    note.append(")");
    let ghost suffix = note@;
    proof {
        assert(suffix =~= specialization_note(
            request@,
            displayed(types, args@),
            declared,
            requested,
            chain@.map_values(|s: String| s@),
        ));
    }
    let ghost before = errors@;
    let total = errors.len();
    let mut rest: Vec<Error> = Vec::new();
    std::mem::swap(&mut rest, errors);
    let mut i: usize = 0;
    while rest.len() > 0
        invariant
            i + rest@.len() == before.len(),
            before.len() == total,
            note@ == suffix,
            rest@ == before.skip(i as int),
            errors@.len() == i,
            forall|j: int| 0 <= j < i ==> (#[trigger] errors@[j]).span == before[j].span,
            forall|j: int| 0 <= j < i && j < from ==> (#[trigger] errors@[j]).msg@ == before[j].msg@,
            forall|j: int| from <= j < i ==> (#[trigger] errors@[j]).msg@ == before[j].msg@ + suffix,
        decreases rest.len(),
    {
        let mut e = rest.remove(0);
        proof {
            assert(e == before[i as int]);
        }
        let ghost original = e;
        if i >= from {
            e.msg.append(note.as_str());
        }
        errors.push(e);
        proof {
            assert(errors@[i as int].span == before[i as int].span);
            if i >= from {
                assert(errors@[i as int].msg@ == original.msg@ + suffix);
            }
        }
        i = i + 1;
        proof {
            assert(rest@ =~= before.skip(i as int));
        }
    }
}

/// A receiver-writing call whose check waits for the solved effects.
#[derive(Debug)]
pub struct ReceiverCall {
    pub method: MethodId,
    /// Whether the receiver is a place with a mutable root.
    pub mutable_root: bool,
    /// The receiver as written.
    pub receiver: String,
    pub span: Span,
}

pub open spec fn immutable_receiver_message(method: Seq<char>, receiver: Seq<char>) -> Seq<char> {
    "'"@ + method + "' may assign through 'self', so its receiver requires a mutable root, but '"@ + receiver
        + "' is not mutable"@
}

/// One diagnostic for each of the first `n` calls, in order, whose method
/// may write its receiver while the receiver's root is not mutable.
pub open spec fn receiver_call_diagnostics(
    writes: Seq<bool>,
    calls: Seq<ReceiverCall>,
    names: Seq<String>,
    n: int,
) -> Diagnostics
    decreases if n > 0 { n as nat } else { 0 },
{
    if n <= 0 || n > calls.len() {
        Seq::empty()
    } else {
        let call = calls[n - 1];
        receiver_call_diagnostics(writes, calls, names, n - 1) + if writes[call.method.0 as int]
            && !call.mutable_root {
            seq![(call.span, immutable_receiver_message(names[call.method.0 as int]@, call.receiver@))]
        } else {
            Seq::empty()
        }
    }
}

/// Settles the receiver effects once they are solved: each checked method
/// records whether it may write its receiver (`writes`, by method), and
/// each waiting call of a method that may write through an immutable root
/// is reported, in the order the calls were checked. `method_names` holds
/// each method's qualified name.
pub fn settle_receiver_effects(
    errors: &mut Vec<Error>,
    methods: &mut Vec<TMethod>,
    writes: &Vec<bool>,
    calls: Vec<ReceiverCall>,
    method_names: &Vec<String>,
)
    requires
        old(methods)@.len() <= writes@.len(),
        forall|k: int|
            0 <= k < calls@.len() ==> (#[trigger] calls@[k]).method.0 < writes@.len()
                && calls@[k].method.0 < method_names@.len(),
    ensures
        final(methods)@.len() == old(methods)@.len(),
        forall|i: int|
            0 <= i < old(methods)@.len() ==> (#[trigger] final(methods)@[i]).writes_receiver == writes@[i]
                && final(methods)@[i].receiver == old(methods)@[i].receiver && final(methods)@[i].name
                == old(methods)@[i].name && final(methods)@[i].params == old(methods)@[i].params
                && final(methods)@[i].result == old(methods)@[i].result && final(methods)@[i].body
                == old(methods)@[i].body,
        diagnostics(final(errors)@) == diagnostics(old(errors)@) + receiver_call_diagnostics(
            writes@,
            calls@,
            method_names@,
            calls@.len() as int,
        ),
{
    let ghost before = methods@;
    let total = methods.len();
    let mut rest: Vec<TMethod> = Vec::new();
    std::mem::swap(&mut rest, methods);
    let mut i: usize = 0;
    while rest.len() > 0
        invariant
            i + rest@.len() == before.len(),
            before.len() == total,
            before.len() <= writes@.len(),
            rest@ == before.skip(i as int),
            methods@.len() == i,
            forall|j: int|
                0 <= j < i ==> (#[trigger] methods@[j]).writes_receiver == writes@[j] && methods@[j].receiver
                    == before[j].receiver && methods@[j].name == before[j].name && methods@[j].params
                    == before[j].params && methods@[j].result == before[j].result && methods@[j].body
                    == before[j].body,
        decreases rest.len(),
    {
        let mut m = rest.remove(0);
        proof {
            assert(m == before[i as int]);
        }
        m.writes_receiver = writes[i];
        methods.push(m);
        i = i + 1;
        proof {
            assert(rest@ =~= before.skip(i as int));
        }
    }
    let ghost start = diagnostics(errors@);
    let ghost all = calls@;
    let count = calls.len();
    let mut pending = calls;
    let mut n: usize = 0;
    while pending.len() > 0
        invariant
            n + pending@.len() == all.len(),
            all.len() == count,
            pending@ == all.skip(n as int),
            forall|k: int|
                0 <= k < all.len() ==> (#[trigger] all[k]).method.0 < writes@.len() && all[k].method.0
                    < method_names@.len(),
            diagnostics(errors@) == start + receiver_call_diagnostics(writes@, all, method_names@, n as int),
        decreases pending.len(),
    {
        let call = pending.remove(0);
        proof {
            assert(call == all[n as int]);
        }
        let ghost prior = diagnostics(errors@);
        let index = call.method.index();
        if writes[index] && !call.mutable_root {
            let mut msg = concat_str("'", method_names[index].as_str());
            msg.append("' may assign through 'self', so its receiver requires a mutable root, but '");
            msg.append(call.receiver.as_str());
            msg.append("' is not mutable");
            let ghost text = msg@;
            errors.push(Error { span: call.span, msg });
            proof {
                assert(diagnostics(errors@) =~= prior.push((call.span, text)));
            }
        }
        n = n + 1;
        proof {
            assert(pending@ =~= all.skip(n as int));
            assert(diagnostics(errors@) =~= start + receiver_call_diagnostics(
                writes@,
                all,
                method_names@,
                n as int,
            ));
        }
    }
}

/// The outcome of checking a program: a construct the checker does not
/// know fails the whole check; otherwise any diagnostic fails it with every
/// diagnostic, and a program without one is the checked `program`.
pub fn check_outcome(unknown: Option<&'static str>, errors: Vec<Error>, program: Program) -> (r: Result<Program, Failure>)
    ensures
        unknown matches Some(detail) ==> (r matches Err(Failure::Unknown(d)) && d == detail),
        unknown is None && errors@.len() == 0 ==> (r matches Ok(p) && p == program),
        unknown is None && errors@.len() > 0 ==> (r matches Err(Failure::Source(e)) && e == errors),
{
    match unknown {
        Some(detail) => Err(Failure::Unknown(detail)),
        None => if errors.len() == 0 {
            Ok(program)
        } else {
            Err(Failure::Source(errors))
        },
    }
}

} // verus!
