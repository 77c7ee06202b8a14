//! The syntax that the analysis and the export work on.
//!
//! Types, argument names and the rarer patterns are held as the text that their `Debug`
//! representation gives: that text is all that is read of them.
use std::rc::Rc;
use vstd::prelude::*;

verus! {

/// A range of positions in a source file.
#[derive(Debug, Clone, Copy, PartialEq, Eq, Structural)]
pub struct Span {
    pub start: usize,
    pub end: usize,
}

/// Whether a module is a library module or holds validators.
#[derive(Debug, Clone, Copy, PartialEq, Eq, Structural)]
pub enum ModuleKind {
    Lib,
    Validator,
}

/// The binary operators.
#[derive(Debug, Clone, Copy, PartialEq, Eq, Structural)]
pub enum BinOp {
    And,
    Or,
    Eq,
    NotEq,
    LtInt,
    LtEqInt,
    GtEqInt,
    GtInt,
    AddInt,
    SubInt,
    MultInt,
    DivInt,
    ModInt,
}

/// Whether an operator compares its two operands.
pub open spec fn is_comparison(op: BinOp) -> bool {
    ||| op is Eq
    ||| op is NotEq
    ||| op is LtInt
    ||| op is LtEqInt
    ||| op is GtEqInt
    ||| op is GtInt
}

impl BinOp {
    /// Whether the operator compares its two operands.
    pub fn compares(&self) -> (r: bool)
        ensures
            r == is_comparison(*self),
    {
        match self {
            BinOp::Eq | BinOp::NotEq | BinOp::LtInt | BinOp::LtEqInt | BinOp::GtEqInt
            | BinOp::GtInt => true,
            _ => false,
        }
    }
}

/// How an assignment treats a value that its pattern does not match.
#[derive(Debug, Clone, Copy, PartialEq, Eq, Structural)]
pub enum AssignmentKind {
    Let,
    Expect,
}

/// A pattern on the left of an assignment or in a clause.
pub enum Pattern {
    Var { location: Span, name: String },
    Discard { location: Span, name: String },
    Constructor {
        location: Span,
        name: String,
        arguments: Vec<PatternArg>,
        module: Option<String>,
    },
    List { location: Span, elements: Vec<Pattern>, tail: Option<Box<Pattern>> },
    Tuple { location: Span, elems: Vec<Pattern> },
    /// Any other pattern, with its `Debug` representation.
    Other { location: Span, debug: String },
}

/// An argument of a constructor pattern.
pub struct PatternArg {
    pub label: Option<String>,
    pub location: Span,
    pub value: Pattern,
}

impl Pattern {
    /// Where the pattern stands.
    pub open spec fn span(self) -> Span {
        match self {
            Pattern::Var { location, .. } => location,
            Pattern::Discard { location, .. } => location,
            Pattern::Constructor { location, .. } => location,
            Pattern::List { location, .. } => location,
            Pattern::Tuple { location, .. } => location,
            Pattern::Other { location, .. } => location,
        }
    }

    /// Where the pattern stands.
    pub fn location(&self) -> (r: Span)
        ensures
            r == self.span(),
    {
        match self {
            Pattern::Var { location, .. } => *location,
            Pattern::Discard { location, .. } => *location,
            Pattern::Constructor { location, .. } => *location,
            Pattern::List { location, .. } => *location,
            Pattern::Tuple { location, .. } => *location,
            Pattern::Other { location, .. } => *location,
        }
    }
}

/// The condition after `if` in a clause of a `when`.
pub enum ClauseGuard {
    Equals { location: Span, left: Box<ClauseGuard>, right: Box<ClauseGuard> },
    NotEquals { location: Span, left: Box<ClauseGuard>, right: Box<ClauseGuard> },
    And { location: Span, left: Box<ClauseGuard>, right: Box<ClauseGuard> },
    Or { location: Span, left: Box<ClauseGuard>, right: Box<ClauseGuard> },
    /// Any other guard.
    Other { location: Span },
}

impl ClauseGuard {
    /// Where the guard stands.
    pub open spec fn span(self) -> Span {
        match self {
            ClauseGuard::Equals { location, .. } => location,
            ClauseGuard::NotEquals { location, .. } => location,
            ClauseGuard::And { location, .. } => location,
            ClauseGuard::Or { location, .. } => location,
            ClauseGuard::Other { location } => location,
        }
    }

    /// Where the guard stands.
    pub fn location(&self) -> (r: Span)
        ensures
            r == self.span(),
    {
        match self {
            ClauseGuard::Equals { location, .. } => *location,
            ClauseGuard::NotEquals { location, .. } => *location,
            ClauseGuard::And { location, .. } => *location,
            ClauseGuard::Or { location, .. } => *location,
            ClauseGuard::Other { location } => *location,
        }
    }
}

/// A type-checked expression: where it stands, its type, and what it is.
pub struct TypedExpr {
    pub location: Span,
    /// The `Debug` representation of the expression's type.
    pub tipo: String,
    pub node: TypedNode,
}

/// The forms of a type-checked expression.
pub enum TypedNode {
    Var { name: String },
    ModuleSelect { module_name: String, label: String },
    RecordAccess { label: String, record: Box<TypedExpr> },
    Assignment { kind: AssignmentKind, pattern: Pattern, value: Box<TypedExpr> },
    Call { fun: Box<TypedExpr>, args: Vec<TypedExpr> },
    Fn { body: Box<TypedExpr> },
    BinOp { op: BinOp, left: Box<TypedExpr>, right: Box<TypedExpr> },
    UnOp { value: Box<TypedExpr> },
    When { subject: Box<TypedExpr>, clauses: Vec<TypedClause> },
    If { branches: Vec<IfBranch>, final_else: Box<TypedExpr> },
    Sequence { expressions: Vec<TypedExpr> },
    Pipeline { expressions: Vec<TypedExpr> },
    List { elements: Vec<TypedExpr>, tail: Option<Box<TypedExpr>> },
    Tuple { elems: Vec<TypedExpr> },
    RecordUpdate { spread: Box<TypedExpr>, args: Vec<TypedExpr> },
    Trace { text: Box<TypedExpr>, continuation: Box<TypedExpr> },
    TupleIndex { tuple: Box<TypedExpr> },
    /// Any other expression: literals and error terms.
    Other,
}

/// A clause of a `when`.
pub struct TypedClause {
    pub pattern: Pattern,
    pub guard: Option<ClauseGuard>,
    pub body: TypedExpr,
}

/// A condition of an `if` and what follows when it holds.
pub struct IfBranch {
    pub condition: TypedExpr,
    pub body: TypedExpr,
}

/// A parameter of a function.
pub struct Parameter {
    /// The `Debug` representation of the parameter's name.
    pub arg_name: String,
    /// The `Debug` representation of the parameter's type.
    pub tipo: String,
}

/// A type-checked function.
pub struct Function {
    pub name: String,
    pub arguments: Vec<Parameter>,
    pub body: Rc<TypedExpr>,
}

/// A type-checked validator.
pub struct TypedValidator {
    pub fun: Function,
}

/// A definition of a type-checked module.
pub enum TypedDefinition {
    Fn(Rc<Function>),
    Validator(TypedValidator),
    /// Any other definition.
    Other,
}

/// A type-checked module.
pub struct CheckedModule {
    pub name: String,
    pub kind: ModuleKind,
    pub definitions: Vec<TypedDefinition>,
}

/// The conditions and bodies of `branches`, in the order in which they stand.
pub open spec fn branch_exprs(branches: Seq<IfBranch>) -> Seq<TypedExpr>
    decreases branches.len(),
{
    if branches.len() == 0 {
        Seq::empty()
    } else {
        branch_exprs(branches.drop_last()).push(branches.last().condition).push(
            branches.last().body,
        )
    }
}

/// The expressions that the clauses lead to.
pub open spec fn clause_exprs(clauses: Seq<TypedClause>) -> Seq<TypedExpr> {
    Seq::new(clauses.len(), |i: int| clauses[i].body)
}

/// The expressions that stand directly inside `expr`, in the order in which they stand.
pub open spec fn children(expr: TypedExpr) -> Seq<TypedExpr> {
    match expr.node {
        TypedNode::BinOp { left, right, .. } => seq![*left, *right],
        TypedNode::UnOp { value } => seq![*value],
        TypedNode::If { branches, final_else } => branch_exprs(branches@).push(*final_else),
        TypedNode::Sequence { expressions } => expressions@,
        TypedNode::Pipeline { expressions } => expressions@,
        TypedNode::List { elements, tail } => match tail {
            Some(t) => elements@.push(*t),
            None => elements@,
        },
        TypedNode::Tuple { elems } => elems@,
        TypedNode::When { subject, clauses } => seq![*subject] + clause_exprs(clauses@),
        TypedNode::RecordUpdate { spread, args } => seq![*spread] + args@,
        TypedNode::Fn { body } => seq![*body],
        TypedNode::Trace { text, continuation } => seq![*text, *continuation],
        TypedNode::TupleIndex { tuple } => seq![*tuple],
        TypedNode::Call { fun, args } => seq![*fun] + args@,
        TypedNode::RecordAccess { record, .. } => seq![*record],
        TypedNode::Var { .. } => Seq::empty(),
        TypedNode::ModuleSelect { .. } => Seq::empty(),
        TypedNode::Assignment { value, .. } => seq![*value],
        TypedNode::Other => Seq::empty(),
    }
}

pub proof fn lemma_branch_exprs(branches: Seq<IfBranch>, i: int)
    requires
        0 <= i < branch_exprs(branches).len(),
    ensures
        branch_exprs(branches).len() == 2 * branches.len(),
        branch_exprs(branches)[i] == (if i % 2 == 0 {
            branches[i / 2].condition
        } else {
            branches[i / 2].body
        }),
    decreases branches.len(),
{
    if branches.len() > 0 {
        let rest = branches.drop_last();
        lemma_branch_exprs_len(rest);
        if i < branch_exprs(rest).len() {
            lemma_branch_exprs(rest, i);
        }
    }
}

pub proof fn lemma_branch_exprs_len(branches: Seq<IfBranch>)
    ensures
        branch_exprs(branches).len() == 2 * branches.len(),
    decreases branches.len(),
{
    if branches.len() > 0 {
        lemma_branch_exprs_len(branches.drop_last());
    }
}

/// An expression is larger than each expression directly inside it.
pub proof fn lemma_child_is_smaller(expr: TypedExpr, i: int)
    requires
        0 <= i < children(expr).len(),
    ensures
        decreases_to!(expr => children(expr)[i]),
{
    match expr.node {
        TypedNode::If { branches, final_else } => {
            lemma_branch_exprs_len(branches@);
            if i < branch_exprs(branches@).len() {
                lemma_branch_exprs(branches@, i);
                assert(decreases_to!(expr => branches@[i / 2]));
                assert(decreases_to!(expr => branches@[i / 2].condition));
                assert(decreases_to!(expr => branches@[i / 2].body));
            }
        },
        TypedNode::When { subject, clauses } => {
            if i > 0 {
                assert(decreases_to!(expr => clauses@[i - 1]));
                assert(decreases_to!(expr => clauses@[i - 1].body));
            }
        },
        TypedNode::Sequence { expressions } => {
            assert(decreases_to!(expr => expressions@[i]));
        },
        TypedNode::Pipeline { expressions } => {
            assert(decreases_to!(expr => expressions@[i]));
        },
        TypedNode::Tuple { elems } => {
            assert(decreases_to!(expr => elems@[i]));
        },
        TypedNode::List { elements, tail } => {
            if i < elements@.len() {
                assert(decreases_to!(expr => elements@[i]));
            }
        },
        TypedNode::RecordUpdate { spread, args } => {
            if i > 0 {
                assert(decreases_to!(expr => args@[i - 1]));
            }
        },
        TypedNode::Call { fun, args } => {
            if i > 0 {
                assert(decreases_to!(expr => args@[i - 1]));
            }
        },
        _ => {},
    }
}

} // verus!
