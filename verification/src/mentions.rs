//! Syntax queries the checker asks before it resolves anything: whether an
//! expression, element, or block reads a local name, and how a member chain
//! `a.b.c` splits into its innermost atom and field names.
use vstd::prelude::*;
use crate::ast::{
    Block, BlockElement, Condition, Expr, PlaceRootName, Span, Spanned, StringPart, TypeRef,
};
use crate::text::str_eq;

verus! {

/// Whether `e` reads the local `name` anywhere.
pub open spec fn spec_expr_mentions_local(e: Expr, name: Seq<char>) -> bool
    decreases e,
{
    match e {
        Expr::Local(local) => local@ == name,
        Expr::List(items) => exists|i: int|
            0 <= i < items@.len() && spec_expr_mentions_local(items@[i].0, name),
        Expr::Member(base, _) => spec_expr_mentions_local(base.0, name),
        Expr::Index(base, index) => spec_expr_mentions_local(base.0, name)
            || spec_expr_mentions_local(index.0, name),
        Expr::Binary(left, _, right) => spec_expr_mentions_local(left.0, name)
            || spec_expr_mentions_local(right.0, name),
        Expr::Unary(_, value) => spec_expr_mentions_local(value.0, name),
        Expr::ReturnOnError(value) => spec_expr_mentions_local(value.0, name),
        Expr::Print(value) => spec_expr_mentions_local(value.0, name),
        Expr::Box(value) => spec_expr_mentions_local(value.0, name),
        Expr::Call(callee, args) => spec_expr_mentions_local(callee.0, name) || exists|i: int|
            0 <= i < args.0@.len() && spec_expr_mentions_local(args.0@[i].value.0, name),
        Expr::GenericCall(callee, _, args) => spec_expr_mentions_local(callee.0, name) || exists|
            i: int,
        |
            0 <= i < args.0@.len() && spec_expr_mentions_local(args.0@[i].value.0, name),
        Expr::Interpolated(parts) => exists|i: int|
            0 <= i < parts@.len() && match #[trigger] parts@[i] {
                StringPart::Literal(_) => false,
                StringPart::Expression(inner) => spec_expr_mentions_local(inner.0, name),
            },
        _ => false,
    }
}

/// Whether the expression reads the local `name` anywhere.
#[verifier::loop_isolation(false)]
pub fn expr_mentions_local(expression: &Expr, name: &str) -> (r: bool)
    ensures
        r == spec_expr_mentions_local(*expression, name@),
    decreases expression,
{
    match expression {
        Expr::Local(local) => str_eq(local, name),
        Expr::List(items) => {
            let mut i: usize = 0;
            while i < items.len()
                invariant
                    i <= items@.len(),
                    forall|j: int|
                        0 <= j < i ==> !spec_expr_mentions_local(#[trigger] items@[j].0, name@),
                decreases items.len() - i,
            {
                if expr_mentions_local(&items[i].0, name) {
                    return true;
                }
                i = i + 1;
            }
            false
        },
        Expr::Member(base, _) => expr_mentions_local(&base.0, name),
        Expr::Index(base, index) => expr_mentions_local(&base.0, name) || expr_mentions_local(
            &index.0,
            name,
        ),
        Expr::Binary(left, _, right) => expr_mentions_local(&left.0, name) || expr_mentions_local(
            &right.0,
            name,
        ),
        Expr::Unary(_, value) => expr_mentions_local(&value.0, name),
        Expr::ReturnOnError(value) => expr_mentions_local(&value.0, name),
        Expr::Print(value) => expr_mentions_local(&value.0, name),
        Expr::Box(value) => expr_mentions_local(&value.0, name),
        Expr::Call(callee, arguments) => {
            if expr_mentions_local(&callee.0, name) {
                return true;
            }
            let args = &arguments.0;
            let mut i: usize = 0;
            while i < args.len()
                invariant
                    i <= args@.len(),
                    forall|j: int|
                        0 <= j < i ==> !spec_expr_mentions_local(#[trigger] args@[j].value.0, name@),
                decreases args.len() - i,
            {
                if expr_mentions_local(&args[i].value.0, name) {
                    return true;
                }
                i = i + 1;
            }
            false
        },
        Expr::GenericCall(callee, _, arguments) => {
            if expr_mentions_local(&callee.0, name) {
                return true;
            }
            let args = &arguments.0;
            let mut i: usize = 0;
            while i < args.len()
                invariant
                    i <= args@.len(),
                    forall|j: int|
                        0 <= j < i ==> !spec_expr_mentions_local(#[trigger] args@[j].value.0, name@),
                decreases args.len() - i,
            {
                if expr_mentions_local(&args[i].value.0, name) {
                    return true;
                }
                i = i + 1;
            }
            false
        },
        Expr::Interpolated(parts) => {
            let mut i: usize = 0;
            while i < parts.len()
                invariant
                    i <= parts@.len(),
                    forall|j: int|
                        0 <= j < i ==> !(match #[trigger] parts@[j] {
                            StringPart::Literal(_) => false,
                            StringPart::Expression(inner) => spec_expr_mentions_local(inner.0, name@),
                        }),
                decreases parts.len() - i,
            {
                match &parts[i] {
                    StringPart::Literal(_) => {},
                    StringPart::Expression(inner) => {
                        if expr_mentions_local(&inner.0, name) {
                            return true;
                        }
                    },
                }
                i = i + 1;
            }
            false
        },
        Expr::Error | Expr::Value(_) | Expr::MapNew(_, _) | Expr::SetNew(_) | Expr::SelfRef
        | Expr::BuiltinType(_) => false,
    }
}


/// Whether an `if`/`elseif` condition reads the local `name`; a type test
/// reads the root of its tested place.
pub open spec fn spec_condition_mentions_local(c: Condition, name: Seq<char>) -> bool {
    match c {
        Condition::Expr(expression) => spec_expr_mentions_local(expression.0, name),
        Condition::TypeTest(test) => match test.place.root {
            PlaceRootName::Name(root) => root@ == name,
            PlaceRootName::SelfRef => false,
        },
    }
}

/// Whether any element of `block` reads the local `name`.
pub open spec fn spec_block_mentions_local(block: Block, name: Seq<char>) -> bool
    decreases block,
{
    exists|i: int|
        0 <= i < block.elements@.len() && spec_element_mentions_local(
            #[trigger] block.elements@[i],
            name,
        )
}

/// Whether one block element reads the local `name`, in any nested block.
pub open spec fn spec_element_mentions_local(element: Spanned<BlockElement>, name: Seq<char>) -> bool
    decreases element,
{
    match element.0 {
        BlockElement::Let { value, .. } => spec_expr_mentions_local(value.0, name),
        BlockElement::Assign { value, .. } => spec_expr_mentions_local(value.0, name),
        BlockElement::IndexedAssign { target, value } => spec_expr_mentions_local(target.0, name)
            || spec_expr_mentions_local(value.0, name),
        BlockElement::While { condition, body, .. } => spec_expr_mentions_local(condition.0, name)
            || spec_block_mentions_local(body, name),
        BlockElement::For { iterable, body, .. } => spec_expr_mentions_local(iterable.0, name)
            || spec_block_mentions_local(body, name),
        BlockElement::Return(value, _) => match value {
            Some(v) => spec_expr_mentions_local(v.0, name),
            None => false,
        },
        BlockElement::Defer { call, .. } => spec_expr_mentions_local(call.0, name),
        BlockElement::Expr(call) => spec_expr_mentions_local(call.0, name),
        BlockElement::If(form) => (exists|i: int|
            0 <= i < form.arms@.len() && (spec_condition_mentions_local(
                (#[trigger] form.arms@[i]).0,
                name,
            ) || spec_block_mentions_local(form.arms@[i].1, name))) || match form.else_branch {
            Some(body) => spec_block_mentions_local(body, name),
            None => false,
        },
        BlockElement::Break(_) => false,
    }
}

fn condition_mentions_local(condition: &Condition, name: &str) -> (r: bool)
    ensures
        r == spec_condition_mentions_local(*condition, name@),
{
    match condition {
        Condition::Expr(expression) => expr_mentions_local(&expression.0, name),
        Condition::TypeTest(test) => match test.place.root {
            PlaceRootName::Name(root) => str_eq(root, name),
            PlaceRootName::SelfRef => false,
        },
    }
}

/// Whether any element of the block reads the local `name`.
pub fn block_mentions_local(block: &Block, name: &str) -> (r: bool)
    ensures
        r == spec_block_mentions_local(*block, name@),
    decreases block,
{
    let mut i: usize = 0;
    while i < block.elements.len()
        invariant
            i <= block.elements@.len(),
            forall|j: int|
                0 <= j < i ==> !spec_element_mentions_local(#[trigger] block.elements@[j], name@),
        decreases block.elements.len() - i,
    {
        if element_mentions_local(&block.elements[i], name) {
            return true;
        }
        i = i + 1;
    }
    false
}

/// Whether one block element reads the local `name`, including inside
/// nested blocks and `if` conditions.
#[verifier::loop_isolation(false)]
pub fn element_mentions_local(element: &Spanned<BlockElement>, name: &str) -> (r: bool)
    ensures
        r == spec_element_mentions_local(*element, name@),
    decreases element,
{
    match &element.0 {
        BlockElement::Let { value, .. } => expr_mentions_local(&value.0, name),
        BlockElement::Assign { value, .. } => expr_mentions_local(&value.0, name),
        BlockElement::IndexedAssign { target, value } => expr_mentions_local(&target.0, name)
            || expr_mentions_local(&value.0, name),
        BlockElement::While { condition, body, .. } => expr_mentions_local(&condition.0, name)
            || block_mentions_local(body, name),
        BlockElement::For { iterable, body, .. } => expr_mentions_local(&iterable.0, name)
            || block_mentions_local(body, name),
        BlockElement::Return(value, _) => match value {
            Some(v) => expr_mentions_local(&v.0, name),
            None => false,
        },
        BlockElement::Defer { call, .. } => expr_mentions_local(&call.0, name),
        BlockElement::Expr(call) => expr_mentions_local(&call.0, name),
        BlockElement::If(form) => {
            let mut i: usize = 0;
            while i < form.arms.len()
                invariant
                    i <= form.arms@.len(),
                    forall|j: int|
                        0 <= j < i ==> !(spec_condition_mentions_local(
                            (#[trigger] form.arms@[j]).0,
                            name@,
                        ) || spec_block_mentions_local(form.arms@[j].1, name@)),
                decreases form.arms.len() - i,
            {
                let arm = &form.arms[i];
                if condition_mentions_local(&arm.0, name) || block_mentions_local(&arm.1, name) {
                    return true;
                }
                i = i + 1;
            }
            match &form.else_branch {
                Some(body) => block_mentions_local(body, name),
                None => false,
            }
        },
        BlockElement::Break(_) => false,
    }
}


/// The innermost atom of a member chain and the field names selected from
/// it, outermost atom first.
pub open spec fn spec_flatten<'src>(e: Spanned<Expr<'src>>) -> (Spanned<Expr<'src>>, Seq<Spanned<&'src str>>)
    decreases e,
{
    match e.0 {
        Expr::Member(base, name) => {
            let inner = spec_flatten(*base);
            (inner.0, inner.1.push(name))
        },
        _ => (e, Seq::empty()),
    }
}

/// Splits `a.b.c` into its innermost atom and the field names selected from
/// it.
pub fn flatten<'a, 'src>(expr: &'a Spanned<Expr<'src>>) -> (r: (&'a Spanned<Expr<'src>>, Vec<Spanned<&'src str>>))
    ensures
        *r.0 == spec_flatten(*expr).0,
        r.1@ == spec_flatten(*expr).1,
{
    let mut reversed: Vec<Spanned<&'src str>> = Vec::new();
    let mut current = expr;
    loop
        invariant
            spec_flatten(*expr).0 == spec_flatten(*current).0,
            spec_flatten(*expr).1 == spec_flatten(*current).1 + reversed@.reverse(),
        ensures
            spec_flatten(*expr).0 == spec_flatten(*current).0,
            spec_flatten(*expr).1 == spec_flatten(*current).1 + reversed@.reverse(),
            !(current.0 is Member),
        decreases *current,
    {
        match &current.0 {
            Expr::Member(base, name) => {
                let ghost before = reversed@;
                reversed.push(*name);
                proof {
                    let inner = spec_flatten(**base);
                    assert(reversed@.reverse() =~= seq![*name] + before.reverse());
                    assert(inner.1.push(*name) + before.reverse() =~= inner.1 + reversed@.reverse());
                }
                current = &**base;
            },
            _ => break,
        }
    }
    let mut fields: Vec<Spanned<&'src str>> = Vec::new();
    let mut i = reversed.len();
    while i > 0
        invariant
            i <= reversed@.len(),
            fields@ =~= reversed@.skip(i as int).reverse(),
        decreases i,
    {
        i = i - 1;
        fields.push(reversed[i]);
        proof {
            assert(reversed@.skip(i as int) =~= seq![reversed@[i as int]] + reversed@.skip(i + 1));
        }
    }
    proof {
        assert(reversed@.skip(0) =~= reversed@);
        assert(spec_flatten(*current).1 =~= Seq::<Spanned<&'src str>>::empty());
    }
    (current, fields)
}

} // verus!
