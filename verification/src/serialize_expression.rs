//! The export of expressions.
use crate::ast::{AssignmentKind, BinOp, Span};
use crate::hexadecimal::{encode, hex_text};
use crate::serializable::{JsonValue, SerializableExpression};
use crate::serialize::{pattern_exported, serialize_pattern};
use crate::text::{find_from, position_from, trim, trimmed_end, trimmed_start};
use crate::untyped::{
    ArgName, LogicalOpChainKind, TraceKind, UnOp, UntypedBranch, UntypedClause, UntypedExpr,
    UntypedNode, UntypedUpdateArg,
};
use vstd::prelude::*;
use vstd::string::*;

verus! {

/// The name of a binary operator.
pub open spec fn binary_operator_name(op: BinOp) -> Seq<char> {
    match op {
        BinOp::And => "And"@,
        BinOp::Or => "Or"@,
        BinOp::Eq => "Eq"@,
        BinOp::NotEq => "NotEq"@,
        BinOp::LtInt => "LtInt"@,
        BinOp::LtEqInt => "LtEqInt"@,
        BinOp::GtEqInt => "GtEqInt"@,
        BinOp::GtInt => "GtInt"@,
        BinOp::AddInt => "AddInt"@,
        BinOp::SubInt => "SubInt"@,
        BinOp::MultInt => "MultInt"@,
        BinOp::DivInt => "DivInt"@,
        BinOp::ModInt => "ModInt"@,
    }
}

/// The name of a unary operator.
pub open spec fn unary_operator_name(op: UnOp) -> Seq<char> {
    match op {
        UnOp::Not => "Not"@,
        UnOp::Negate => "Negate"@,
    }
}

/// The name of a kind of assignment.
pub open spec fn assignment_kind_name(kind: AssignmentKind) -> Seq<char> {
    match kind {
        AssignmentKind::Let => "Let"@,
        AssignmentKind::Expect => "Expect"@,
    }
}

/// The name of a kind of trace.
pub open spec fn trace_kind_name(kind: TraceKind) -> Seq<char> {
    match kind {
        TraceKind::Trace => "Trace"@,
        TraceKind::Todo => "Todo"@,
        TraceKind::Error => "Error"@,
    }
}

/// The name of a kind of chain.
pub open spec fn chain_kind_name(kind: LogicalOpChainKind) -> Seq<char> {
    match kind {
        LogicalOpChainKind::And => "And"@,
        LogicalOpChainKind::Or => "Or"@,
    }
}

/// The name of a parameter, discarded or not.
pub open spec fn parameter_name(name: ArgName) -> Seq<char> {
    match name {
        ArgName::Named { name } => name@,
        ArgName::Discarded { name } => name@,
    }
}

/// The kind that a `Debug` representation begins with: what stands before its first brace,
/// without the blanks around it.
pub open spec fn kind_in_debug(debug: Seq<char>) -> Seq<char> {
    match position_from(debug, "{"@, 0) {
        Some(i) => trimmed_end(trimmed_start(debug.subrange(0, i))),
        None => "Unknown"@,
    }
}

/// The kind under which an expression is exported.
pub open spec fn expression_kind(node: UntypedNode) -> Seq<char> {
    match node {
        UntypedNode::UInt { .. } => "Integer"@,
        UntypedNode::Text { .. } => "String"@,
        UntypedNode::Var { .. } => "Variable"@,
        UntypedNode::Call { .. } => "FunctionCall"@,
        UntypedNode::If { .. } => "IfExpression"@,
        UntypedNode::BinOp { .. } => "BinaryOperation"@,
        UntypedNode::Assignment { .. } => "Assignment"@,
        UntypedNode::List { .. } => "List"@,
        UntypedNode::Tuple { .. } => "Tuple"@,
        UntypedNode::FieldAccess { .. } => "FieldAccess"@,
        UntypedNode::Sequence { .. } => "Sequence"@,
        UntypedNode::When { .. } => "When"@,
        UntypedNode::Fn { .. } => "Function"@,
        UntypedNode::ByteArray { .. } => "ByteArray"@,
        UntypedNode::TraceIfFalse { .. } => "TraceIfFalse"@,
        UntypedNode::Trace { .. } => "Trace"@,
        UntypedNode::UnOp { .. } => "UnaryOperation"@,
        UntypedNode::TupleIndex { .. } => "TupleIndex"@,
        UntypedNode::ErrorTerm => "ErrorTerm"@,
        UntypedNode::PipeLine { .. } => "Pipeline"@,
        UntypedNode::RecordUpdate { .. } => "RecordUpdate"@,
        UntypedNode::LogicalOpChain { .. } => "LogicalOpChain"@,
        UntypedNode::Other { debug } => kind_in_debug(debug@),
    }
}

/// Where an exported expression stands. A pipeline reaches from the start of its first
/// expression to the end of its last.
pub open spec fn expression_span(expr: UntypedExpr) -> Span {
    match expr.node {
        UntypedNode::PipeLine { first_location, last_location, .. } => Span {
            start: first_location.start,
            end: last_location.end,
        },
        _ => expr.location,
    }
}

/// Whether `value` is the text `text`.
pub open spec fn is_text(value: JsonValue, text: Seq<char>) -> bool {
    value matches JsonValue::Text(s) && s@ == text
}

/// Whether there is a value and it is the text `text`.
pub open spec fn holds_text(value: Option<JsonValue>, text: Seq<char>) -> bool {
    value matches Some(v) && is_text(v, text)
}

/// Whether there is a value and it lists the names of the parameters.
pub open spec fn holds_names(value: Option<JsonValue>, names: Seq<ArgName>) -> bool {
    &&& value matches Some(JsonValue::Array(a))
    &&& a@.len() == names.len()
    &&& forall|i: int| 0 <= i < a@.len() ==> is_text(#[trigger] a@[i], parameter_name(names[i]))
}

/// Whether `value` is what an expression holds besides the expressions inside it.
pub open spec fn value_of_node(node: UntypedNode, value: Option<JsonValue>) -> bool {
    match node {
        UntypedNode::UInt { value: v } => holds_text(value, v@),
        UntypedNode::Text { value: v } => holds_text(value, v@),
        UntypedNode::Var { name } => holds_text(value, name@),
        UntypedNode::BinOp { op, .. } => holds_text(value, binary_operator_name(op)),
        UntypedNode::Assignment { kind, pattern, .. } => {
            &&& value matches Some(JsonValue::Object(fields))
            &&& fields@.len() == 2
            &&& fields@[0].0@ == "kind"@
            &&& is_text(fields@[0].1, assignment_kind_name(kind))
            &&& fields@[1].0@ == "pattern"@
            &&& fields@[1].1 matches JsonValue::Pattern(p)
            &&& pattern_exported(pattern, p)
        },
        UntypedNode::FieldAccess { label, .. } => holds_text(value, label@),
        UntypedNode::Fn { arguments, .. } => holds_names(value, arguments@),
        UntypedNode::ByteArray { bytes } => holds_text(value, hex_text(bytes@)),
        UntypedNode::Trace { kind, .. } => holds_text(value, trace_kind_name(kind)),
        UntypedNode::UnOp { op, .. } => holds_text(value, unary_operator_name(op)),
        UntypedNode::TupleIndex { index, .. } => value == Some(JsonValue::Number(index)),
        UntypedNode::PipeLine { one_liner, .. } => {
            &&& value matches Some(JsonValue::Object(fields))
            &&& fields@.len() == 1
            &&& fields@[0].0@ == "one_liner"@
            &&& fields@[0].1 == JsonValue::Flag(one_liner)
        },
        UntypedNode::LogicalOpChain { kind, .. } => holds_text(value, chain_kind_name(kind)),
        UntypedNode::Other { debug } => holds_text(value, debug@),
        _ => value is None,
    }
}

/// Whether `r` is the export of the expression `e`.
pub open spec fn expression_exported(e: UntypedExpr, r: SerializableExpression) -> bool
    decreases e,
{
    let s = r.sub_expressions@;
    &&& r.kind@ == expression_kind(e.node)
    &&& value_of_node(e.node, r.value)
    &&& r.location == expression_span(e)
    &&& match e.node {
        UntypedNode::Call { fun, arguments } => {
            &&& s.len() > 0
            &&& expression_exported(*fun, s[0])
            &&& expressions_exported(arguments@, s.skip(1))
        },
        UntypedNode::If { branches, final_else } => {
            &&& s.len() > 0
            &&& branches_exported(branches@, s.drop_last())
            &&& expression_exported(*final_else, s.last())
        },
        UntypedNode::BinOp { left, right, .. } => {
            &&& s.len() == 2
            &&& expression_exported(*left, s[0])
            &&& expression_exported(*right, s[1])
        },
        UntypedNode::Assignment { value, .. } => {
            &&& s.len() == 1
            &&& expression_exported(*value, s[0])
        },
        UntypedNode::List { elements, tail } => match tail {
            Some(t) => {
                &&& s.len() > 0
                &&& expressions_exported(elements@, s.drop_last())
                &&& expression_exported(*t, s.last())
            },
            None => expressions_exported(elements@, s),
        },
        UntypedNode::Tuple { elems } => expressions_exported(elems@, s),
        UntypedNode::FieldAccess { container, .. } => {
            &&& s.len() == 1
            &&& expression_exported(*container, s[0])
        },
        UntypedNode::Sequence { expressions } => expressions_exported(expressions@, s),
        UntypedNode::When { subject, clauses } => {
            &&& s.len() > 0
            &&& expression_exported(*subject, s[0])
            &&& clauses_exported(clauses@, s.skip(1))
        },
        UntypedNode::Fn { body, .. } => {
            &&& s.len() == 1
            &&& expression_exported(*body, s[0])
        },
        UntypedNode::TraceIfFalse { value } => {
            &&& s.len() == 1
            &&& expression_exported(*value, s[0])
        },
        UntypedNode::Trace { text, continuation, .. } => {
            &&& s.len() == 2
            &&& expression_exported(*text, s[0])
            &&& expression_exported(*continuation, s[1])
        },
        UntypedNode::UnOp { value, .. } => {
            &&& s.len() == 1
            &&& expression_exported(*value, s[0])
        },
        UntypedNode::TupleIndex { tuple, .. } => {
            &&& s.len() == 1
            &&& expression_exported(*tuple, s[0])
        },
        UntypedNode::PipeLine { first, rest, .. } => {
            &&& s.len() > 0
            &&& expression_exported(*first, s[0])
            &&& expressions_exported(rest@, s.skip(1))
        },
        UntypedNode::RecordUpdate { constructor, spread, spread_location, arguments } => {
            &&& s.len() > 1
            &&& expression_exported(*constructor, s[0])
            &&& s[1].kind@ == "Spread"@
            &&& s[1].value is None
            &&& s[1].sub_expressions@.len() == 1
            &&& expression_exported(*spread, s[1].sub_expressions@[0])
            &&& s[1].location == spread_location
            &&& updates_exported(arguments@, s.skip(2))
        },
        UntypedNode::LogicalOpChain { expressions, .. } => expressions_exported(expressions@, s),
        _ => s.len() == 0,
    }
}

/// Whether `r` holds the exports of the expressions `e`, in order.
pub open spec fn expressions_exported(e: Seq<UntypedExpr>, r: Seq<SerializableExpression>) -> bool
    decreases e,
{
    &&& r.len() == e.len()
    &&& forall|i: int| 0 <= i < e.len() ==> expression_exported(#[trigger] e[i], r[i])
}

/// Whether `r` holds, for each branch, the exports of its condition and of its body.
pub open spec fn branches_exported(
    b: Seq<UntypedBranch>,
    r: Seq<SerializableExpression>,
) -> bool
    decreases b,
{
    &&& r.len() == 2 * b.len()
    &&& forall|i: int|
        0 <= i < b.len() ==> {
            &&& expression_exported((#[trigger] b[i]).condition, r[2 * i])
            &&& expression_exported(b[i].body, r[2 * i + 1])
        }
}

/// Whether `r` holds, for each clause, a description of its patterns and the export of its
/// body.
pub open spec fn clauses_exported(c: Seq<UntypedClause>, r: Seq<SerializableExpression>) -> bool
    decreases c,
{
    &&& r.len() == 2 * c.len()
    &&& forall|i: int|
        0 <= i < c.len() ==> {
            &&& patterns_described(#[trigger] c[i], r[2 * i])
            &&& expression_exported(c[i].body, r[2 * i + 1])
        }
}

/// Whether `r` describes the patterns of a clause.
pub open spec fn patterns_described(c: UntypedClause, r: SerializableExpression) -> bool {
    &&& r.kind@ == "Pattern"@
    &&& holds_text(r.value, c.patterns@)
    &&& r.sub_expressions@.len() == 0
    &&& r.location == c.location
}

/// Whether `r` holds, for each field that a record update sets, its label around the export of
/// its value.
pub open spec fn updates_exported(
    a: Seq<UntypedUpdateArg>,
    r: Seq<SerializableExpression>,
) -> bool
    decreases a,
{
    &&& r.len() == a.len()
    &&& forall|i: int|
        0 <= i < a.len() ==> {
            &&& r[i].kind@ == "RecordUpdateArg"@
            &&& holds_text(r[i].value, (#[trigger] a[i]).label@)
            &&& r[i].sub_expressions@.len() == 1
            &&& expression_exported(a[i].value, r[i].sub_expressions@[0])
            &&& r[i].location == a[i].location
        }
}

/// The name of the operator.
fn binary_operator(x: &BinOp) -> (r: String)
    ensures
        r@ == binary_operator_name(*x),
{
    match x {
        BinOp::And => "And".to_owned(),
        BinOp::Or => "Or".to_owned(),
        BinOp::Eq => "Eq".to_owned(),
        BinOp::NotEq => "NotEq".to_owned(),
        BinOp::LtInt => "LtInt".to_owned(),
        BinOp::LtEqInt => "LtEqInt".to_owned(),
        BinOp::GtEqInt => "GtEqInt".to_owned(),
        BinOp::GtInt => "GtInt".to_owned(),
        BinOp::AddInt => "AddInt".to_owned(),
        BinOp::SubInt => "SubInt".to_owned(),
        BinOp::MultInt => "MultInt".to_owned(),
        BinOp::DivInt => "DivInt".to_owned(),
        BinOp::ModInt => "ModInt".to_owned(),
    }
}

/// The name of the operator.
fn unary_operator(x: &UnOp) -> (r: String)
    ensures
        r@ == unary_operator_name(*x),
{
    match x {
        UnOp::Not => "Not".to_owned(),
        UnOp::Negate => "Negate".to_owned(),
    }
}

/// The name of the kind of assignment.
fn assignment_kind(x: &AssignmentKind) -> (r: String)
    ensures
        r@ == assignment_kind_name(*x),
{
    match x {
        AssignmentKind::Let => "Let".to_owned(),
        AssignmentKind::Expect => "Expect".to_owned(),
    }
}

/// The name of the kind of trace.
fn trace_kind(x: &TraceKind) -> (r: String)
    ensures
        r@ == trace_kind_name(*x),
{
    match x {
        TraceKind::Trace => "Trace".to_owned(),
        TraceKind::Todo => "Todo".to_owned(),
        TraceKind::Error => "Error".to_owned(),
    }
}

/// The name of the kind of chain.
fn chain_kind(x: &LogicalOpChainKind) -> (r: String)
    ensures
        r@ == chain_kind_name(*x),
{
    match x {
        LogicalOpChainKind::And => "And".to_owned(),
        LogicalOpChainKind::Or => "Or".to_owned(),
    }
}

/// The kind that a `Debug` representation begins with.
fn debug_kind(debug: &String) -> (r: String)
    ensures
        r@ == kind_in_debug(debug@),
{
    match find_from(debug.as_str(), "{", 0) {
        Some(i) => trim(debug.as_str().substring_char(0, i)),
        None => "Unknown".to_owned(),
    }
}

/// The names of the parameters.
fn parameter_names(names: &Vec<ArgName>) -> (r: JsonValue)
    ensures
        holds_names(Some(r), names@),
{
    let mut a: Vec<JsonValue> = Vec::new();
    let mut i: usize = 0;
    while i < names.len()
        invariant
            i <= names.len(),
            a.len() == i,
            forall|k: int|
                0 <= k < a@.len() ==> is_text(#[trigger] a@[k], parameter_name(names@[k])),
        decreases names.len() - i,
    {
        let name = match &names[i] {
            ArgName::Named { name } => name.clone(),
            ArgName::Discarded { name } => name.clone(),
        };
        a.push(JsonValue::Text(name));
        i = i + 1;
    }
    JsonValue::Array(a)
}

/// What an expression holds besides the expressions inside it.
fn node_value(node: &UntypedNode) -> (r: Option<JsonValue>)
    ensures
        value_of_node(*node, r),
{
    match node {
        UntypedNode::UInt { value } => Some(JsonValue::Text(value.clone())),
        UntypedNode::Text { value } => Some(JsonValue::Text(value.clone())),
        UntypedNode::Var { name } => Some(JsonValue::Text(name.clone())),
        UntypedNode::BinOp { op, .. } => Some(JsonValue::Text(binary_operator(op))),
        UntypedNode::Assignment { kind, pattern, .. } => {
            let mut fields: Vec<(String, JsonValue)> = Vec::new();
            fields.push(("kind".to_owned(), JsonValue::Text(assignment_kind(kind))));
            fields.push(("pattern".to_owned(), JsonValue::Pattern(serialize_pattern(pattern))));
            Some(JsonValue::Object(fields))
        },
        UntypedNode::FieldAccess { label, .. } => Some(JsonValue::Text(label.clone())),
        UntypedNode::Fn { arguments, .. } => Some(parameter_names(arguments)),
        UntypedNode::ByteArray { bytes } => Some(JsonValue::Text(encode(bytes))),
        UntypedNode::Trace { kind, .. } => Some(JsonValue::Text(trace_kind(kind))),
        UntypedNode::UnOp { op, .. } => Some(JsonValue::Text(unary_operator(op))),
        UntypedNode::TupleIndex { index, .. } => Some(JsonValue::Number(*index)),
        UntypedNode::PipeLine { one_liner, .. } => {
            let mut fields: Vec<(String, JsonValue)> = Vec::new();
            fields.push(("one_liner".to_owned(), JsonValue::Flag(*one_liner)));
            Some(JsonValue::Object(fields))
        },
        UntypedNode::LogicalOpChain { kind, .. } => Some(JsonValue::Text(chain_kind(kind))),
        UntypedNode::Other { debug } => Some(JsonValue::Text(debug.clone())),
        _ => None,
    }
}

/// The kind under which an expression is exported.
fn node_kind(node: &UntypedNode) -> (r: String)
    ensures
        r@ == expression_kind(*node),
{
    match node {
        UntypedNode::UInt { .. } => "Integer".to_owned(),
        UntypedNode::Text { .. } => "String".to_owned(),
        UntypedNode::Var { .. } => "Variable".to_owned(),
        UntypedNode::Call { .. } => "FunctionCall".to_owned(),
        UntypedNode::If { .. } => "IfExpression".to_owned(),
        UntypedNode::BinOp { .. } => "BinaryOperation".to_owned(),
        UntypedNode::Assignment { .. } => "Assignment".to_owned(),
        UntypedNode::List { .. } => "List".to_owned(),
        UntypedNode::Tuple { .. } => "Tuple".to_owned(),
        UntypedNode::FieldAccess { .. } => "FieldAccess".to_owned(),
        UntypedNode::Sequence { .. } => "Sequence".to_owned(),
        UntypedNode::When { .. } => "When".to_owned(),
        UntypedNode::Fn { .. } => "Function".to_owned(),
        UntypedNode::ByteArray { .. } => "ByteArray".to_owned(),
        UntypedNode::TraceIfFalse { .. } => "TraceIfFalse".to_owned(),
        UntypedNode::Trace { .. } => "Trace".to_owned(),
        UntypedNode::UnOp { .. } => "UnaryOperation".to_owned(),
        UntypedNode::TupleIndex { .. } => "TupleIndex".to_owned(),
        UntypedNode::ErrorTerm => "ErrorTerm".to_owned(),
        UntypedNode::PipeLine { .. } => "Pipeline".to_owned(),
        UntypedNode::RecordUpdate { .. } => "RecordUpdate".to_owned(),
        UntypedNode::LogicalOpChain { .. } => "LogicalOpChain".to_owned(),
        UntypedNode::Other { debug } => debug_kind(debug),
    }
}

/// Where an exported expression stands.
fn node_span(expr: &UntypedExpr) -> (r: Span)
    ensures
        r == expression_span(*expr),
{
    match &expr.node {
        UntypedNode::PipeLine { first_location, last_location, .. } => Span {
            start: first_location.start,
            end: last_location.end,
        },
        _ => expr.location,
    }
}

/// The exports of expressions that stand inside `whole`.
fn serialize_expressions(expressions: &Vec<UntypedExpr>, whole: Ghost<UntypedExpr>) -> (r: Vec<
    SerializableExpression,
>)
    requires
        forall|k: int|
            0 <= k < expressions@.len() ==> decreases_to!(whole@ => #[trigger] expressions@[k]),
    ensures
        expressions_exported(expressions@, r@),
    decreases whole@, 0nat,
{
    let mut r: Vec<SerializableExpression> = Vec::new();
    let mut i: usize = 0;
    while i < expressions.len()
        invariant
            i <= expressions.len(),
            r.len() == i,
            forall|k: int|
                0 <= k < expressions@.len() ==> decreases_to!(whole@ =>
                    #[trigger] expressions@[k]),
            forall|k: int| 0 <= k < i ==> expression_exported(#[trigger] expressions@[k], r@[k]),
        decreases expressions.len() - i,
    {
        r.push(serialize_expression(&expressions[i]));
        i = i + 1;
    }
    r
}

/// The exports of the conditions and the bodies of branches that stand inside `whole`.
fn serialize_branches(branches: &Vec<UntypedBranch>, whole: Ghost<UntypedExpr>) -> (r: Vec<
    SerializableExpression,
>)
    requires
        forall|k: int|
            0 <= k < branches@.len() ==> decreases_to!(whole@ => #[trigger] branches@[k]),
    ensures
        branches_exported(branches@, r@),
    decreases whole@, 0nat,
{
    let mut r: Vec<SerializableExpression> = Vec::new();
    let mut i: usize = 0;
    while i < branches.len()
        invariant
            i <= branches.len(),
            r.len() == 2 * i,
            forall|k: int|
                0 <= k < branches@.len() ==> decreases_to!(whole@ => #[trigger] branches@[k]),
            forall|k: int|
                0 <= k < i ==> {
                    &&& expression_exported((#[trigger] branches@[k]).condition, r@[2 * k])
                    &&& expression_exported(branches@[k].body, r@[2 * k + 1])
                },
        decreases branches.len() - i,
    {
        assert(decreases_to!(whole@ => branches@[i as int]));
        r.push(serialize_expression(&branches[i].condition));
        r.push(serialize_expression(&branches[i].body));
        i = i + 1;
    }
    r
}

/// Descriptions of the patterns, and the exports of the bodies, of clauses that stand inside
/// `whole`.
fn serialize_clauses(clauses: &Vec<UntypedClause>, whole: Ghost<UntypedExpr>) -> (r: Vec<
    SerializableExpression,
>)
    requires
        forall|k: int|
            0 <= k < clauses@.len() ==> decreases_to!(whole@ => #[trigger] clauses@[k]),
    ensures
        clauses_exported(clauses@, r@),
    decreases whole@, 0nat,
{
    let mut r: Vec<SerializableExpression> = Vec::new();
    let mut i: usize = 0;
    while i < clauses.len()
        invariant
            i <= clauses.len(),
            r.len() == 2 * i,
            forall|k: int|
                0 <= k < clauses@.len() ==> decreases_to!(whole@ => #[trigger] clauses@[k]),
            forall|k: int|
                0 <= k < i ==> {
                    &&& patterns_described(#[trigger] clauses@[k], r@[2 * k])
                    &&& expression_exported(clauses@[k].body, r@[2 * k + 1])
                },
        decreases clauses.len() - i,
    {
        assert(decreases_to!(whole@ => clauses@[i as int]));
        r.push(
            SerializableExpression {
                kind: "Pattern".to_owned(),
                value: Some(JsonValue::Text(clauses[i].patterns.clone())),
                sub_expressions: Vec::new(),
                location: clauses[i].location,
            },
        );
        r.push(serialize_expression(&clauses[i].body));
        i = i + 1;
    }
    r
}

/// The exports of the fields set by a record update that stands inside `whole`.
fn serialize_updates(arguments: &Vec<UntypedUpdateArg>, whole: Ghost<UntypedExpr>) -> (r: Vec<
    SerializableExpression,
>)
    requires
        forall|k: int|
            0 <= k < arguments@.len() ==> decreases_to!(whole@ => #[trigger] arguments@[k]),
    ensures
        updates_exported(arguments@, r@),
    decreases whole@, 0nat,
{
    let mut r: Vec<SerializableExpression> = Vec::new();
    let mut i: usize = 0;
    while i < arguments.len()
        invariant
            i <= arguments.len(),
            r.len() == i,
            forall|k: int|
                0 <= k < arguments@.len() ==> decreases_to!(whole@ => #[trigger] arguments@[k]),
            forall|k: int|
                0 <= k < i ==> {
                    &&& r@[k].kind@ == "RecordUpdateArg"@
                    &&& holds_text(r@[k].value, (#[trigger] arguments@[k]).label@)
                    &&& r@[k].sub_expressions@.len() == 1
                    &&& expression_exported(arguments@[k].value, r@[k].sub_expressions@[0])
                    &&& r@[k].location == arguments@[k].location
                },
        decreases arguments.len() - i,
    {
        assert(decreases_to!(whole@ => arguments@[i as int]));
        r.push(
            SerializableExpression {
                kind: "RecordUpdateArg".to_owned(),
                value: Some(JsonValue::Text(arguments[i].label.clone())),
                sub_expressions: vec![serialize_expression(&arguments[i].value)],
                location: arguments[i].location,
            },
        );
        i = i + 1;
    }
    r
}

/// The exports of the expressions that stand directly inside `expr`.
fn serialize_parts(expr: &UntypedExpr) -> (r: Vec<SerializableExpression>)
    ensures
        forall|e: SerializableExpression|
            #![trigger expression_exported(*expr, e)]
            {
                &&& e.kind@ == expression_kind(expr.node)
                &&& value_of_node(expr.node, e.value)
                &&& e.location == expression_span(*expr)
                &&& e.sub_expressions@ == r@
            } ==> expression_exported(*expr, e),
    decreases expr, 1nat,
{
    let whole: Ghost<UntypedExpr> = Ghost(*expr);
    match &expr.node {
        UntypedNode::Call { fun, arguments } => {
            let mut r = vec![serialize_expression(fun)];
            let mut rest = serialize_expressions(arguments, whole);
            let ghost tail = rest@;
            r.append(&mut rest);
            assert(r@.skip(1) == tail);
            r
        },
        UntypedNode::If { branches, final_else } => {
            let mut r = serialize_branches(branches, whole);
            let ghost front = r@;
            r.push(serialize_expression(final_else));
            assert(r@.drop_last() == front);
            r
        },
        UntypedNode::BinOp { left, right, .. } => vec![
            serialize_expression(left),
            serialize_expression(right),
        ],
        UntypedNode::Assignment { value, .. } => vec![serialize_expression(value)],
        UntypedNode::List { elements, tail } => {
            let mut r = serialize_expressions(elements, whole);
            if let Some(t) = tail {
                let ghost front = r@;
                r.push(serialize_expression(t));
                assert(r@.drop_last() == front);
            }
            r
        },
        UntypedNode::Tuple { elems } => serialize_expressions(elems, whole),
        UntypedNode::FieldAccess { container, .. } => vec![serialize_expression(container)],
        UntypedNode::Sequence { expressions } => serialize_expressions(expressions, whole),
        UntypedNode::When { subject, clauses } => {
            let mut r = vec![serialize_expression(subject)];
            let mut rest = serialize_clauses(clauses, whole);
            let ghost tail = rest@;
            r.append(&mut rest);
            assert(r@.skip(1) == tail);
            r
        },
        UntypedNode::Fn { body, .. } => vec![serialize_expression(body)],
        UntypedNode::TraceIfFalse { value } => vec![serialize_expression(value)],
        UntypedNode::Trace { text, continuation, .. } => vec![
            serialize_expression(text),
            serialize_expression(continuation),
        ],
        UntypedNode::UnOp { value, .. } => vec![serialize_expression(value)],
        UntypedNode::TupleIndex { tuple, .. } => vec![serialize_expression(tuple)],
        UntypedNode::PipeLine { first, rest, .. } => {
            let mut r = vec![serialize_expression(first)];
            let mut others = serialize_expressions(rest, whole);
            let ghost tail = others@;
            r.append(&mut others);
            assert(r@.skip(1) == tail);
            r
        },
        UntypedNode::RecordUpdate { constructor, spread, spread_location, arguments } => {
            let mut r = vec![serialize_expression(constructor)];
            r.push(
                SerializableExpression {
                    kind: "Spread".to_owned(),
                    value: None,
                    sub_expressions: vec![serialize_expression(spread)],
                    location: *spread_location,
                },
            );
            let mut rest = serialize_updates(arguments, whole);
            let ghost tail = rest@;
            r.append(&mut rest);
            assert(r@.skip(2) == tail);
            r
        },
        UntypedNode::LogicalOpChain { expressions, .. } => serialize_expressions(
            expressions,
            whole,
        ),
        _ => Vec::new(),
    }
}

/// The export of an expression, with all the expressions inside it.
pub fn serialize_expression(expr: &UntypedExpr) -> (r: SerializableExpression)
    ensures
        expression_exported(*expr, r),
    decreases expr, 2nat,
{
    SerializableExpression {
        kind: node_kind(&expr.node),
        value: node_value(&expr.node),
        sub_expressions: serialize_parts(expr),
        location: node_span(expr),
    }
}

} // verus!
