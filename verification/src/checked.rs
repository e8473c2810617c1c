//! The checked program's node vocabulary shared by the checker and the
//! backend: expressions, statements, blocks, cleanup plans, operators,
//! parameters, type tests, and bridge declarations.
use vstd::prelude::*;
use std::collections::HashMap;
use std::rc::Rc;
use crate::ast::{NumLiteral, ParamMode, Span};
use crate::places::{Place, PlaceRoot, UseMode};
use crate::ty::{CollectionDef, MethodId, SumId, Ty, TypeDef, TypeId};

verus! {

/// One diagnostic: the source range it concerns and its message.
#[derive(Clone, Debug)]
pub struct Error {
    pub span: Span,
    pub msg: String,
}

impl View for Error {
    type V = (Span, Seq<char>);

    open spec fn view(&self) -> (Span, Seq<char>) {
        (self.span, self.msg@)
    }
}

/// Why checking a program failed: its diagnostics, or a construct the
/// checker does not yet handle.
#[derive(Debug)]
pub enum Failure {
    Source(Vec<Error>),
    Unknown(&'static str),
}

#[derive(Clone, Copy, Debug, PartialEq, Eq, Structural)]
pub enum ArithOp {
    Add,
    Sub,
    Mul,
    Div,
}

#[derive(Clone, Copy, Debug, PartialEq, Eq, Structural)]
pub enum CmpOp {
    Eq,
    NotEq,
    Less,
    LessEq,
    Greater,
    GreaterEq,
}

#[derive(Clone, Copy, Debug, PartialEq, Eq, Structural)]
pub enum LogicalOp {
    And,
    Or,
}

/// One resolved parameter. A `Ref<T>` parameter's `ty` is the referent
/// type `T`; the passing mode travels beside it.
#[derive(Clone, Debug)]
pub struct TParam {
    pub name: String,
    pub ty: Ty,
    pub mode: ParamMode,
}

/// A proven type test against a named union. `tag` is the member's
/// deterministic union tag.
#[derive(Debug)]
pub struct TTypeTest {
    pub place: Place,
    pub member: TypeId,
    pub tag: u32,
    /// The name and exact member type bound on the successful edge.
    pub binding: Option<(String, Ty)>,
}

/// A proven type test against one direct member of an inline sum. The
/// member's tag is assigned by lowering, not recorded here.
#[derive(Debug)]
pub struct TSumTypeTest {
    pub place: Place,
    pub sum: SumId,
    pub member: Ty,
    /// The name and exact member type bound on the successful edge.
    pub binding: Option<(String, Ty)>,
}

/// A checked `extern rust` bridge declaration.
pub struct TExtern {
    pub symbol: String,
    pub params: Vec<TParam>,
    /// `None` is a bridge without a result; its C ABI result is `void`.
    pub result: Option<Ty>,
    pub span: std::ops::Range<usize>,
}

/// One checked call argument: a value, or a reference argument's referent
/// place, resolved once so lowering passes its address and never a copy.
#[derive(Debug)]
pub enum TArg {
    Value(TExpr),
    Reference(Place),
}

/// How a method call reaches its receiver: an addressable place, or a
/// temporary value with its own un-dereferenced checked type.
#[derive(Debug)]
pub enum TReceiver {
    Place(Place),
    Value(TExpr, Ty),
}

/// A resolved method call.
#[derive(Debug)]
pub struct TMethodCall {
    pub receiver: TReceiver,
    pub method: MethodId,
    pub args: Vec<TArg>,
}

/// One part of a concatenation plan with its checked type.
#[derive(Debug)]
pub struct TStringPart {
    pub value: TExpr,
    pub ty: Ty,
}

/// Value-producing checked nodes.
#[derive(Debug)]
pub enum TExpr {
    Num(NumLiteral),
    Bool(bool),
    Nil,
    StringLiteral(String),
    Unicode(u32),
    StringClone(Box<TExpr>),
    StringConcat(Vec<TStringPart>),
    StringFromUnicode(Box<TExpr>),
    StringFromUtf8(Box<TExpr>, SumId),
    ViewFromString(Box<TExpr>, Ty),
    ViewLength(Box<TExpr>, Ty),
    ViewAt(Box<TExpr>, Box<TExpr>, Ty, SumId),
    ViewSlice {
        value: Box<TExpr>,
        start: Box<TExpr>,
        end: Box<TExpr>,
        view_ty: Ty,
        sum: SumId,
    },
    CollectionLiteral {
        ty: Ty,
        items: Vec<TExpr>,
    },
    CollectionNew(Ty),
    CollectionLength(Box<TExpr>),
    CollectionIsEmpty(Box<TExpr>),
    CollectionCapacity(Box<TExpr>),
    CollectionView(Box<TExpr>, Ty),
    CollectionSlice {
        value: Box<TExpr>,
        start: Box<TExpr>,
        end: Box<TExpr>,
        view_ty: Ty,
        sum: SumId,
        elem: Ty,
    },
    CollectionIndex {
        collection: Box<TExpr>,
        index: Box<TExpr>,
        collection_ty: Ty,
        elem: Ty,
    },
    ListPop {
        receiver: Place,
        elem: Ty,
    },
    ListRemove {
        receiver: Place,
        index: Box<TExpr>,
        elem: Ty,
    },
    MapContains {
        receiver: Box<TExpr>,
        key: Box<TExpr>,
        key_ty: Ty,
        value_ty: Ty,
    },
    MapInsert {
        receiver: Place,
        key: Box<TExpr>,
        value: Box<TExpr>,
        key_ty: Ty,
        value_ty: Ty,
        require_existing: bool,
    },
    MapDelete {
        receiver: Place,
        key: Box<TExpr>,
        key_ty: Ty,
        value_ty: Ty,
    },
    MapIndex {
        receiver: Box<TExpr>,
        key: Box<TExpr>,
        key_ty: Ty,
        value_ty: Ty,
    },
    MapTake {
        receiver: Place,
        key: Box<TExpr>,
        key_ty: Ty,
        value_ty: Ty,
    },
    SetContains {
        receiver: Box<TExpr>,
        value: Box<TExpr>,
        elem: Ty,
    },
    SetInsert {
        receiver: Place,
        value: Box<TExpr>,
        elem: Ty,
    },
    SetDelete {
        receiver: Place,
        value: Box<TExpr>,
        elem: Ty,
    },
    Place(Place, UseMode),
    FieldRead {
        base: Box<TExpr>,
        base_ty: Ty,
        index: usize,
        ty: Ty,
    },
    Construct {
        type_id: TypeId,
        fields: Vec<(usize, TExpr)>,
    },
    Represent {
        value: Box<TExpr>,
        ty: Ty,
    },
    Inject {
        member: TypeId,
        into_union: TypeId,
        value: Box<TExpr>,
    },
    InjectSum {
        sum: SumId,
        member: Ty,
        value: Box<TExpr>,
    },
    LiftSum {
        value: Box<TExpr>,
        from: SumId,
        to: SumId,
    },
    Arith(Box<TExpr>, ArithOp, Box<TExpr>, Ty),
    Cmp(Box<TExpr>, CmpOp, Box<TExpr>, Ty),
    Not(Box<TExpr>),
    Logical(Box<TExpr>, LogicalOp, Box<TExpr>),
    Truthiness(Box<TExpr>, Ty),
    ReturnOnError {
        value: Box<TExpr>,
        sum: SumId,
        success: Ty,
        result: Ty,
        cleanup: Vec<TCleanup>,
    },
    Call(String, Vec<TArg>),
    MethodCall(Box<TMethodCall>),
    If(Box<TValueIf>),
    Print(Box<TExpr>, Ty),
    Cast(Box<TExpr>, Ty),
    Box(Box<TExpr>, Ty),
}

/// An `if`/`elseif` condition: a value, or a type test against a named
/// union or an inline sum.
#[derive(Debug)]
pub enum TCondition {
    Expr(TExpr),
    Test(TTypeTest),
    SumTest(TSumTypeTest),
}

/// A value-form `if`: every path produces a value, through an `else` or
/// through a proven-exhaustive type-test chain.
#[derive(Debug)]
pub struct TValueIf {
    pub arms: Vec<(TCondition, TBlock)>,
    pub else_branch: Option<TBlock>,
    pub exhaustive: bool,
    pub ty: Ty,
}

/// Checked statements: control flow and effects, producing no value.
#[derive(Debug)]
pub enum TStmt {
    Let {
        mutable: bool,
        name: String,
        ty: Ty,
        value: TExpr,
    },
    Assign {
        place: Place,
        value: TExpr,
        drop_before: bool,
    },
    SequenceIndexAssign {
        receiver: Place,
        index: TExpr,
        value: TExpr,
        elem: Ty,
    },
    While {
        condition: TExpr,
        body: TBlock,
    },
    For {
        value_name: String,
        value_ty: Ty,
        key_name: Option<String>,
        key_ty: Option<Ty>,
        iterable: TExpr,
        collection_ty: Ty,
        body: TBlock,
    },
    Break {
        cleanup: Vec<TCleanup>,
    },
    Return {
        value: Option<TExpr>,
        result: Option<Ty>,
        cleanup: Vec<TCleanup>,
    },
    ReturnOnError {
        value: TExpr,
        sum: SumId,
        result: Ty,
        cleanup: Vec<TCleanup>,
    },
    If(TStmtIf),
    Call(String, Vec<TArg>),
    MethodCall(TMethodCall),
    ListPush {
        receiver: Place,
        value: TExpr,
        elem: Ty,
    },
    ListClear {
        receiver: Place,
        elem: Ty,
    },
    ListInsert {
        receiver: Place,
        index: TExpr,
        value: TExpr,
        elem: Ty,
    },
    ListReserve {
        receiver: Place,
        minimum: TExpr,
        elem: Ty,
    },
    MapClear {
        receiver: Place,
        key_ty: Ty,
        value_ty: Ty,
    },
    MapReserve {
        receiver: Place,
        minimum: TExpr,
        key_ty: Ty,
        value_ty: Ty,
    },
    SetClear {
        receiver: Place,
        elem: Ty,
    },
    SetReserve {
        receiver: Place,
        minimum: TExpr,
        elem: Ty,
    },
    Expr(TExpr),
}

/// A statement-form `if`: every branch is a no-result block.
#[derive(Debug)]
pub struct TStmtIf {
    pub arms: Vec<(TCondition, TBlock)>,
    pub else_branch: Option<TBlock>,
    pub exhaustive: bool,
}

/// A block's ordered checked statements, its optional resulting value,
/// and its reverse-registration cleanup plan.
#[derive(Debug)]
pub struct TBlock {
    pub statements: Vec<TStmt>,
    pub result: Option<TExpr>,
    pub result_ty: Option<Ty>,
    pub cleanup: Vec<TCleanup>,
}

/// One cleanup action run at scope exit: destroying a still-owned local, or
/// a deferred call.
#[derive(Debug)]
pub enum TCleanup {
    Drop(Place),
    Deferred(Rc<TDeferred>),
}

/// A deferred call with the roots it reads and the whole roots it consumes
/// when it runs at scope exit.
#[derive(Debug)]
pub struct TDeferred {
    pub on_error: bool,
    pub call: TStmt,
    pub span: Span,
    pub dependencies: Vec<PlaceRoot>,
    pub consumes: Vec<PlaceRoot>,
}

/// A checked function.
#[derive(Debug)]
pub struct TFunc {
    pub params: Vec<TParam>,
    pub result: Option<Ty>,
    pub body: TBlock,
}

/// A checked method; `writes_receiver` is the solved receiver-write effect.
#[derive(Debug)]
pub struct TMethod {
    pub receiver: TypeId,
    pub name: String,
    pub params: Vec<TParam>,
    pub result: Option<Ty>,
    pub writes_receiver: bool,
    pub body: TBlock,
}

/// A checked program: every callable, type, and interned shape, and the
/// top-level block. The type tables are indexed by the ids that name them.
pub struct Program {
    pub funcs: HashMap<String, TFunc>,
    pub externs: HashMap<String, TExtern>,
    pub types: Vec<TypeDef>,
    pub methods: Vec<TMethod>,
    pub sums: Vec<Vec<Ty>>,
    pub boxes: Vec<Ty>,
    pub collections: Vec<CollectionDef>,
    pub body: TBlock,
}

} // verus!
