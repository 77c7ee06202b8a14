//! The syntax of a module as it was parsed, before any types are known.
use crate::ast::{AssignmentKind, BinOp, ModuleKind, Pattern, Span};
use vstd::prelude::*;

verus! {

/// The unary operators.
#[derive(Debug, Clone, Copy, PartialEq, Eq, Structural)]
pub enum UnOp {
    Not,
    Negate,
}

/// What a trace stands for.
#[derive(Debug, Clone, Copy, PartialEq, Eq, Structural)]
pub enum TraceKind {
    Trace,
    Todo,
    Error,
}

/// How a chain of conditions is joined.
#[derive(Debug, Clone, Copy, PartialEq, Eq, Structural)]
pub enum LogicalOpChainKind {
    And,
    Or,
}

/// The name of a parameter. A discarded one cannot be used in the body.
pub enum ArgName {
    Named { name: String },
    Discarded { name: String },
}

/// A type, as it is written.
pub struct Annotation {
    pub location: Span,
    pub node: AnnotationNode,
}

/// The forms of a written type.
pub enum AnnotationNode {
    Constructor { name: String, arguments: Vec<Annotation>, module: Option<String> },
    Fn { arguments: Vec<Annotation>, ret: Box<Annotation> },
    Var { name: String },
    Hole { name: String },
    Tuple { elems: Vec<Annotation> },
}

/// An expression, as it is written.
pub struct UntypedExpr {
    pub location: Span,
    pub node: UntypedNode,
}

/// The forms of a written expression.
#[allow(inconsistent_fields)]
pub enum UntypedNode {
    UInt { value: String },
    Text { value: String },
    Var { name: String },
    Call { fun: Box<UntypedExpr>, arguments: Vec<UntypedExpr> },
    If { branches: Vec<UntypedBranch>, final_else: Box<UntypedExpr> },
    BinOp { op: BinOp, left: Box<UntypedExpr>, right: Box<UntypedExpr> },
    Assignment { kind: AssignmentKind, pattern: Pattern, value: Box<UntypedExpr> },
    List { elements: Vec<UntypedExpr>, tail: Option<Box<UntypedExpr>> },
    Tuple { elems: Vec<UntypedExpr> },
    FieldAccess { label: String, container: Box<UntypedExpr> },
    Sequence { expressions: Vec<UntypedExpr> },
    When { subject: Box<UntypedExpr>, clauses: Vec<UntypedClause> },
    Fn { arguments: Vec<ArgName>, body: Box<UntypedExpr> },
    ByteArray { bytes: Vec<u8> },
    TraceIfFalse { value: Box<UntypedExpr> },
    Trace { kind: TraceKind, text: Box<UntypedExpr>, continuation: Box<UntypedExpr> },
    UnOp { op: UnOp, value: Box<UntypedExpr> },
    TupleIndex { index: usize, tuple: Box<UntypedExpr> },
    ErrorTerm,
    /// A pipeline. It has at least one expression. The places of the first and of the last are
    /// those where their results arise, which can be smaller than the whole expression.
    PipeLine {
        first: Box<UntypedExpr>,
        rest: Vec<UntypedExpr>,
        first_location: Span,
        last_location: Span,
        one_liner: bool,
    },
    RecordUpdate {
        constructor: Box<UntypedExpr>,
        spread: Box<UntypedExpr>,
        spread_location: Span,
        arguments: Vec<UntypedUpdateArg>,
    },
    LogicalOpChain { kind: LogicalOpChainKind, expressions: Vec<UntypedExpr> },
    /// Any other expression, with its `Debug` representation.
    Other { debug: String },
}

/// A condition of an `if` and what follows when it holds.
pub struct UntypedBranch {
    pub condition: UntypedExpr,
    pub body: UntypedExpr,
}

/// A clause of a `when`.
pub struct UntypedClause {
    pub location: Span,
    /// The `Debug` representation of the clause's patterns.
    pub patterns: String,
    pub body: UntypedExpr,
}

/// A field that a record update sets.
pub struct UntypedUpdateArg {
    pub label: String,
    pub location: Span,
    pub value: UntypedExpr,
}

/// A parameter of a function.
pub struct UntypedArg {
    pub arg_name: ArgName,
    pub annotation: Option<Annotation>,
}

/// A function, a test, or the code of a validator.
pub struct UntypedFunction {
    pub location: Span,
    pub name: String,
    pub arguments: Vec<UntypedArg>,
    pub body: UntypedExpr,
    pub doc: Option<String>,
}

/// A constructor of a data type.
pub struct RecordConstructor {
    pub name: String,
    pub arguments: Vec<RecordField>,
}

/// A field of a constructor.
pub struct RecordField {
    pub label: Option<String>,
    pub annotation: Annotation,
}

/// A name that is imported on its own.
pub struct UnqualifiedImport {
    pub location: Span,
    pub name: String,
    pub as_name: Option<String>,
}

/// A definition of a module.
#[allow(inconsistent_fields)]
pub enum UntypedDefinition {
    Fn(UntypedFunction),
    Test(UntypedFunction),
    Validator { location: Span, fun: UntypedFunction },
    DataType {
        location: Span,
        name: String,
        constructors: Vec<RecordConstructor>,
        doc: Option<String>,
    },
    TypeAlias {
        location: Span,
        alias: String,
        parameters: Vec<String>,
        annotation: Annotation,
        doc: Option<String>,
    },
    ModuleConstant {
        location: Span,
        name: String,
        annotation: Option<Annotation>,
        value: UntypedExpr,
        doc: Option<String>,
    },
    Use {
        location: Span,
        module: Vec<String>,
        as_name: Option<String>,
        unqualified: Vec<UnqualifiedImport>,
    },
}

/// A parsed module.
pub struct UntypedModule {
    pub name: String,
    pub kind: ModuleKind,
    pub docs: Vec<String>,
    pub definitions: Vec<UntypedDefinition>,
}

} // verus!
