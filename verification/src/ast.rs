//! Syntax-level vocabulary: built-in type names, operators, parameter
//! passing modes, and source spans.
use vstd::prelude::*;
use std::collections::HashMap;
use crate::text::{decimal, decimal_string_u64};

verus! {

/// A half-open byte range `[start, end)` into the source text.
#[derive(Clone, Copy, Debug, PartialEq, Eq, Structural)]
pub struct Span {
    pub start: usize,
    pub end: usize,
}

#[derive(Clone, Copy, Debug, PartialEq, Eq, Structural)]
pub enum TypeName {
    Float64,
    Int64,
    Bool,
    Nil,
    String,
    Unicode,
    Byte,
    UInt16,
    UInt32,
    UInt64,
    Float32,
}

/// The source spelling of a built-in type name.
pub open spec fn spec_type_name_text(name: TypeName) -> Seq<char> {
    match name {
        TypeName::Float64 => "Float64"@,
        TypeName::Int64 => "Int64"@,
        TypeName::Bool => "Bool"@,
        TypeName::Nil => "Nil"@,
        TypeName::String => "String"@,
        TypeName::Unicode => "Unicode"@,
        TypeName::Byte => "Byte"@,
        TypeName::UInt16 => "UInt16"@,
        TypeName::UInt32 => "UInt32"@,
        TypeName::UInt64 => "UInt64"@,
        TypeName::Float32 => "Float32"@,
    }
}

impl TypeName {
    /// The name as written in source, used wherever the name is displayed.
    pub fn name(&self) -> (r: &'static str)
        ensures
            r@ == spec_type_name_text(*self),
    {
        match self {
            TypeName::Float64 => "Float64",
            TypeName::Int64 => "Int64",
            TypeName::Bool => "Bool",
            TypeName::Nil => "Nil",
            TypeName::String => "String",
            TypeName::Unicode => "Unicode",
            TypeName::Byte => "Byte",
            TypeName::UInt16 => "UInt16",
            TypeName::UInt32 => "UInt32",
            TypeName::UInt64 => "UInt64",
            TypeName::Float32 => "Float32",
        }
    }
}

#[derive(Clone, Copy, Debug, PartialEq, Eq, Structural)]
pub enum BinaryOp {
    Add,
    Sub,
    Mul,
    Div,
    Eq,
    NotEq,
    Less,
    LessEq,
    Greater,
    GreaterEq,
    And,
    Or,
}

#[derive(Clone, Copy, Debug, PartialEq, Eq, Structural)]
pub enum UnaryOp {
    Not,
}

/// How one parameter is passed: by value, or as `Ref<T>` (the referent
/// type is recorded beside the mode, never as a type of its own).
#[derive(Clone, Copy, Debug, PartialEq, Eq, Structural)]
pub enum ParamMode {
    Value,
    Reference,
}

/// The syntactic root of a place: a named binding or `self`.
#[derive(Clone, Copy, Debug)]
pub enum PlaceRootName<'src> {
    Name(&'src str),
    SelfRef,
}


/// A value together with the source range it was written at.
pub type Spanned<T> = (T, Span);

/// A written type: a built-in name, a qualified path naming a user-defined
/// type, an explicit generic application, an inline sum of two or more
/// members (flattening and member-set rules are resolution's job), or one of
/// the built-in parameterized types.
#[derive(Debug)]
pub enum TypeRef<'src> {
    Builtin(TypeName),
    Named(Vec<Spanned<&'src str>>),
    /// An explicitly applied generic type such as `Pair<Int64, Bool>`.
    Apply { path: Vec<Spanned<&'src str>>, args: Vec<Spanned<TypeRef<'src>>> },
    Sum(Vec<Spanned<TypeRef<'src>>>),
    Box(Box<Spanned<TypeRef<'src>>>),
    View(Box<Spanned<TypeRef<'src>>>),
    Array(Box<Spanned<TypeRef<'src>>>, u64),
    List(Box<Spanned<TypeRef<'src>>>),
    MapOf(Box<Spanned<TypeRef<'src>>>, Box<Spanned<TypeRef<'src>>>),
    SetOf(Box<Spanned<TypeRef<'src>>>),
}

/// A numeric literal's exact value, one variant per literal form so no
/// magnitude is narrowed on its way to the backend. A floating literal is
/// held as its IEEE 754 bit pattern.
#[derive(Clone, Copy, Debug, PartialEq, Eq, Structural)]
pub enum NumLiteral {
    Int(i64),
    F64(u64),
    U8(u8),
    U16(u16),
    U32(u32),
    U64(u64),
    F32(u32),
}

/// A literal value as written.
#[derive(Debug)]
pub enum Value {
    Nil,
    Bool(bool),
    Num(NumLiteral),
    /// An interpreted UTF-8 string after escape decoding.
    Str(String),
    Unicode(u32),
}

/// One ordered part of an interpreted string.
#[derive(Debug)]
pub enum StringPart<'src> {
    Literal(String),
    Expression(Spanned<Expr<'src>>),
}

/// One call argument; `name` is present for the `identifier : expression`
/// form.
#[derive(Debug)]
pub struct Arg<'src> {
    pub name: Option<Spanned<&'src str>>,
    pub value: Spanned<Expr<'src>>,
}

/// A value-producing syntax node.
#[derive(Debug)]
pub enum Expr<'src> {
    Error,
    Value(Value),
    Interpolated(Vec<StringPart<'src>>),
    List(Vec<Spanned<Expr<'src>>>),
    MapNew(Spanned<TypeRef<'src>>, Spanned<TypeRef<'src>>),
    SetNew(Spanned<TypeRef<'src>>),
    Local(&'src str),
    /// The implicit method receiver.
    SelfRef,
    /// A built-in type name in expression position (only valid as a call
    /// head).
    BuiltinType(TypeName),
    /// `base . name`.
    Member(Box<Spanned<Expr<'src>>>, Spanned<&'src str>),
    Index(Box<Spanned<Expr<'src>>>, Box<Spanned<Expr<'src>>>),
    Binary(Box<Spanned<Expr<'src>>>, BinaryOp, Box<Spanned<Expr<'src>>>),
    Unary(UnaryOp, Box<Spanned<Expr<'src>>>),
    /// `return_on_error expression`.
    ReturnOnError(Box<Spanned<Expr<'src>>>),
    Call(Box<Spanned<Expr<'src>>>, Spanned<Vec<Arg<'src>>>),
    /// An explicitly monomorphized call such as `identity<Int64>(42)`.
    GenericCall(
        Box<Spanned<Expr<'src>>>,
        Spanned<Vec<Spanned<TypeRef<'src>>>>,
        Spanned<Vec<Arg<'src>>>,
    ),
    Print(Box<Spanned<Expr<'src>>>),
    /// `box(expression)`.
    Box(Box<Spanned<Expr<'src>>>),
}

/// `place = ( identifier | "self" ), { ".", identifier }`.
#[derive(Debug)]
pub struct PlacePath<'src> {
    pub root: PlaceRootName<'src>,
    pub root_span: Span,
    pub fields: Vec<Spanned<&'src str>>,
    pub span: Span,
}

/// `place is Member` or `place is Member(binding)`.
#[derive(Debug)]
pub struct TypeTest<'src> {
    pub place: PlacePath<'src>,
    /// The tested member's written path. `Nil` appears as one segment.
    pub member: Vec<Spanned<&'src str>>,
    pub member_span: Span,
    pub binding: Option<Spanned<&'src str>>,
    pub span: Span,
}

/// An `if`/`elseif` condition: an ordinary expression or a type test.
#[derive(Debug)]
pub enum Condition<'src> {
    Expr(Spanned<Expr<'src>>),
    TypeTest(TypeTest<'src>),
}

impl<'src> Condition<'src> {
    pub open spec fn spec_span(&self) -> Span {
        match self {
            Condition::Expr(e) => e.1,
            Condition::TypeTest(test) => test.span,
        }
    }

    /// The source range of the whole condition.
    pub fn span(&self) -> (r: Span)
        ensures
            r == self.spec_span(),
    {
        match self {
            Condition::Expr((_, span)) => *span,
            Condition::TypeTest(test) => test.span,
        }
    }
}

/// An ordered list of block elements.
#[derive(Debug)]
pub struct Block<'src> {
    pub elements: Vec<Spanned<BlockElement<'src>>>,
    pub span: Span,
}

#[derive(Debug)]
pub enum BlockElement<'src> {
    Let {
        mutable: bool,
        name: &'src str,
        name_span: Span,
        ty: Spanned<TypeRef<'src>>,
        value: Spanned<Expr<'src>>,
    },
    Assign { place: PlacePath<'src>, value: Spanned<Expr<'src>> },
    /// An indexed assignment target, kept as an expression until checking.
    IndexedAssign { target: Spanned<Expr<'src>>, value: Spanned<Expr<'src>> },
    While { condition: Spanned<Expr<'src>>, body: Block<'src>, span: Span },
    For {
        value: Spanned<&'src str>,
        key: Option<Spanned<&'src str>>,
        iterable: Spanned<Expr<'src>>,
        body: Block<'src>,
        span: Span,
    },
    Break(Span),
    /// `return [expression]`; `None` is a bare return.
    Return(Option<Spanned<Expr<'src>>>, Span),
    /// A deferred direct call, executed when the containing block exits.
    Defer { on_error: bool, call: Spanned<Expr<'src>>, span: Span },
    If(IfForm<'src>),
    Expr(Spanned<Expr<'src>>),
}

/// One `if` syntax form: the `if` arm, then `elseif` arms in order.
#[derive(Debug)]
pub struct IfForm<'src> {
    pub arms: Vec<(Condition<'src>, Block<'src>)>,
    pub else_branch: Option<Block<'src>>,
    pub span: Span,
}

#[derive(Debug)]
pub struct Param<'src> {
    pub name: &'src str,
    pub mode: ParamMode,
    /// The written value type; for a `Ref<T>` parameter the referent `T`.
    pub ty: Spanned<TypeRef<'src>>,
    pub span: Span,
}

#[derive(Debug)]
pub struct Func<'src> {
    /// Explicit type parameters declared between the name and `(`.
    pub generic_params: Vec<Spanned<&'src str>>,
    pub args: Vec<Param<'src>>,
    /// `None` declares a function without a result.
    pub ret: Option<Spanned<TypeRef<'src>>>,
    pub span: Span,
    pub body: Block<'src>,
}

/// `static Type.name(...) do ... end`: an associated function.
#[derive(Debug)]
pub struct StaticDecl<'src> {
    pub receiver: Spanned<TypeRef<'src>>,
    pub name: Spanned<&'src str>,
    pub args: Vec<Param<'src>>,
    pub ret: Option<Spanned<TypeRef<'src>>>,
    pub span: Span,
    pub body: Block<'src>,
}

#[derive(Debug)]
pub struct ExternFunc<'src> {
    pub symbol: &'src str,
    pub args: Vec<Param<'src>>,
    /// `None` declares a bridge without a result.
    pub ret: Option<Spanned<TypeRef<'src>>>,
    pub span: Span,
}

/// `type N is ...`.
#[derive(Debug)]
pub struct TypeDecl<'src> {
    pub name: &'src str,
    pub name_span: Span,
    pub generic_params: Vec<Spanned<&'src str>>,
    pub body: TypeBody<'src>,
    pub span: Span,
}

#[derive(Debug)]
pub enum TypeBody<'src> {
    Represented(Spanned<TypeRef<'src>>),
    Struct(Vec<FieldDecl<'src>>),
    Union(Vec<UnionMemberDecl<'src>>),
}

#[derive(Debug)]
pub struct FieldDecl<'src> {
    pub name: &'src str,
    pub name_span: Span,
    pub ty: Spanned<TypeRef<'src>>,
}

/// One union alternative; a bare alternative is an empty inline struct.
#[derive(Debug)]
pub struct UnionMemberDecl<'src> {
    /// `Nil` for the special member; otherwise the declared identifier.
    pub name: &'src str,
    pub name_span: Span,
    pub nil: bool,
    pub fields: Vec<FieldDecl<'src>>,
}

/// `method Receiver.name(...) do ... end`: `path` holds every written
/// component; the last is the method name.
#[derive(Debug)]
pub struct MethodDecl<'src> {
    pub path: Vec<Spanned<&'src str>>,
    pub args: Vec<Param<'src>>,
    pub ret: Option<Spanned<TypeRef<'src>>>,
    pub span: Span,
    pub body: Block<'src>,
}

impl<'src> MethodDecl<'src> {
    /// The receiver path and the method name, or `None` when fewer than two
    /// components were written.
    pub fn split(&self) -> (r: Option<(&[Spanned<&'src str>], Spanned<&'src str>)>)
        ensures
            match r {
                Some((receiver, name)) => self.path@.len() >= 2 && receiver@ == self.path@.drop_last()
                    && name == self.path@.last(),
                None => self.path@.len() < 2,
            },
    {
        let n = self.path.len();
        if n < 2 {
            return None;
        }
        let (receiver, rest) = self.path.as_slice().split_at(n - 1);
        assert(rest@.len() == 1);
        let name = rest[0];
        proof {
            assert(receiver@ =~= self.path@.drop_last());
        }
        Some((receiver, name))
    }
}

/// A dotted path as written: its segments joined by `.`.
pub open spec fn spec_path_text(path: Seq<Spanned<&str>>) -> Seq<char>
    decreases path.len(),
{
    if path.len() == 0 {
        Seq::empty()
    } else if path.len() == 1 {
        path[0].0@
    } else {
        spec_path_text(path.drop_last()) + "."@ + path.last().0@
    }
}

/// A written type as it reads in source.
pub open spec fn spec_type_ref_text(ty: TypeRef) -> Seq<char>
    decreases ty, 0nat,
{
    match ty {
        TypeRef::Builtin(name) => spec_type_name_text(name),
        TypeRef::Named(segments) => spec_path_text(segments@),
        TypeRef::Apply { path, args } => spec_path_text(path@) + "<"@ + spec_type_refs_text(
            args@,
            args@.len() as int,
            ", "@,
        ) + ">"@,
        TypeRef::Sum(members) => spec_type_refs_text(members@, members@.len() as int, " | "@),
        TypeRef::Box(inner) => "Box<"@ + spec_type_ref_text(inner.0) + ">"@,
        TypeRef::View(inner) => "View<"@ + spec_type_ref_text(inner.0) + ">"@,
        TypeRef::Array(inner, length) => "Array<"@ + spec_type_ref_text(inner.0) + ", "@ + decimal(
            length as nat,
        ) + ">"@,
        TypeRef::List(inner) => "List<"@ + spec_type_ref_text(inner.0) + ">"@,
        TypeRef::MapOf(key, value) => "Map<"@ + spec_type_ref_text(key.0) + ", "@ + spec_type_ref_text(
            value.0,
        ) + ">"@,
        TypeRef::SetOf(inner) => "Set<"@ + spec_type_ref_text(inner.0) + ">"@,
    }
}

/// The first `n` written types joined by `sep`.
pub open spec fn spec_type_refs_text(tys: Seq<Spanned<TypeRef>>, n: int, sep: Seq<char>) -> Seq<char>
    decreases tys, if n > 0 { n as nat } else { 0 },
{
    if n <= 0 || n > tys.len() {
        Seq::empty()
    } else if n == 1 {
        spec_type_ref_text(tys[0].0)
    } else {
        spec_type_refs_text(tys, n - 1, sep) + sep + spec_type_ref_text(tys[n - 1].0)
    }
}

fn path_text(path: &Vec<Spanned<&str>>) -> (r: String)
    ensures
        r@ == spec_path_text(path@),
{
    let mut text = String::new();
    let mut i: usize = 0;
    while i < path.len()
        invariant
            i <= path@.len(),
            text@ == spec_path_text(path@.take(i as int)),
        decreases path.len() - i,
    {
        proof {
            assert(path@.take(i + 1).drop_last() =~= path@.take(i as int));
            assert(path@.take(i + 1).last() == path@[i as int]);
        }
        if i > 0 {
            text.append(".");
        }
        text.append(path[i].0);
        proof {
            if i == 0 {
                assert(text@ =~= path@.take(1)[0].0@);
            }
        }
        i = i + 1;
    }
    proof {
        assert(path@.take(path@.len() as int) =~= path@);
    }
    text
}

fn type_refs_text(tys: &Vec<Spanned<TypeRef>>, sep: &str) -> (r: String)
    ensures
        r@ == spec_type_refs_text(tys@, tys@.len() as int, sep@),
    decreases tys@, tys@.len() + 1,
{
    let mut text = String::new();
    let mut i: usize = 0;
    while i < tys.len()
        invariant
            i <= tys@.len(),
            text@ == spec_type_refs_text(tys@, i as int, sep@),
        decreases tys.len() - i,
    {
        if i > 0 {
            text.append(sep);
        }
        let part = tys[i].0.text();
        text.append(part.as_str());
        i = i + 1;
    }
    text
}

impl<'src> TypeRef<'src> {
    /// The type as written in source, for diagnostics.
    pub fn text(&self) -> (r: String)
        ensures
            r@ == spec_type_ref_text(*self),
        decreases *self, 0nat,
    {
        match self {
            TypeRef::Builtin(name) => String::from_str(name.name()),
            TypeRef::Named(segments) => path_text(segments),
            TypeRef::Apply { path, args } => {
                let mut text = path_text(path);
                text.append("<");
                let inner = type_refs_text(args, ", ");
                text.append(inner.as_str());
                text.append(">");
                text
            },
            TypeRef::Sum(members) => type_refs_text(members, " | "),
            TypeRef::Box(inner) => wrap_text("Box<", &inner.0),
            TypeRef::View(inner) => wrap_text("View<", &inner.0),
            TypeRef::Array(inner, length) => {
                let mut text = String::from_str("Array<");
                let element = inner.0.text();
                text.append(element.as_str());
                text.append(", ");
                let count = decimal_string_u64(*length);
                text.append(count.as_str());
                text.append(">");
                text
            },
            TypeRef::List(inner) => wrap_text("List<", &inner.0),
            TypeRef::MapOf(key, value) => {
                let mut text = String::from_str("Map<");
                let k = key.0.text();
                text.append(k.as_str());
                text.append(", ");
                let v = value.0.text();
                text.append(v.as_str());
                text.append(">");
                text
            },
            TypeRef::SetOf(inner) => wrap_text("Set<", &inner.0),
        }
    }
}

fn wrap_text(open: &str, inner: &TypeRef) -> (r: String)
    ensures
        r@ == open@ + spec_type_ref_text(*inner) + ">"@,
    decreases *inner, 1nat,
{
    let mut text = String::from_str(open);
    let body = inner.text();
    text.append(body.as_str());
    text.append(">");
    text
}

impl<'src> PlaceRootName<'src> {
    pub open spec fn spec_text(&self) -> Seq<char> {
        match self {
            PlaceRootName::Name(name) => name@,
            PlaceRootName::SelfRef => "self"@,
        }
    }

    /// The root as written: the name, or `self`.
    pub fn text(&self) -> (r: &'src str)
        ensures
            r@ == self.spec_text(),
    {
        match self {
            PlaceRootName::Name(name) => name,
            PlaceRootName::SelfRef => "self",
        }
    }
}

/// The written field selectors, each as `.name`.
pub open spec fn spec_fields_text(fields: Seq<Spanned<&str>>) -> Seq<char>
    decreases fields.len(),
{
    if fields.len() == 0 {
        Seq::empty()
    } else {
        spec_fields_text(fields.drop_last()) + "."@ + fields.last().0@
    }
}

impl<'src> PlacePath<'src> {
    pub open spec fn spec_text(&self) -> Seq<char> {
        self.root.spec_text() + spec_fields_text(self.fields@)
    }

    /// The place as written: its root, then `.field` for each selector.
    pub fn text(&self) -> (r: String)
        ensures
            r@ == self.spec_text(),
    {
        let mut text = String::from_str(self.root.text());
        let mut i: usize = 0;
        proof {
            assert(self.fields@.take(0) =~= Seq::<Spanned<&str>>::empty());
            assert(text@ =~= self.root.spec_text() + spec_fields_text(self.fields@.take(0)));
        }
        while i < self.fields.len()
            invariant
                i <= self.fields@.len(),
                text@ == self.root.spec_text() + spec_fields_text(self.fields@.take(i as int)),
            decreases self.fields.len() - i,
        {
            proof {
                assert(self.fields@.take(i + 1).drop_last() =~= self.fields@.take(i as int));
                assert(self.fields@.take(i + 1).last() == self.fields@[i as int]);
            }
            text.append(".");
            text.append(self.fields[i].0);
            i = i + 1;
        }
        proof {
            assert(self.fields@.take(self.fields@.len() as int) =~= self.fields@);
        }
        text
    }
}

/// A parsed program. Type and method declarations keep source order,
/// which fixes their ids; the top-level block is never absent.
pub struct Program<'src> {
    pub funcs: HashMap<&'src str, Func<'src>>,
    pub externs: HashMap<&'src str, ExternFunc<'src>>,
    pub types: Vec<TypeDecl<'src>>,
    pub methods: Vec<MethodDecl<'src>>,
    pub statics: Vec<StaticDecl<'src>>,
    pub body: Block<'src>,
}

} // verus!
