//! What an export says: under which names each form of expression, pattern, type and definition
//! stands, what is told of it, and what stands inside it.
use crate::ast::{BinOp, Pattern, PatternArg};
use crate::call_laws::place_of;
use crate::export_ast::{
    action_for, definition_exported, function_exported, kind_of_file, module_exported, PathAction,
    PathFacts,
};
use crate::file_search::{advanced, entered, needed, Entry, SearchStep, SearchView};
use crate::hexadecimal::hex_text;
use crate::serializable::{
    JsonValue, SerializableDefinition, SerializableExpression, SerializableModule,
    SerializablePattern, SerializablePatternArg, SerializablePatternValue,
    SerializableTypeAnnotation,
};
use crate::serialize::{annotation_exported, pattern_exported, value_exported};
use crate::serialize_expression::{
    branches_exported, clauses_exported, expression_exported, expressions_exported, kind_in_debug,
    patterns_described, updates_exported,
};
use crate::text::{decimal, joined, position_from, texts, trimmed_end, trimmed_start};
use crate::text_laws::{law_contains_text, law_position, stands_at};
use crate::untyped::{
    Annotation, AnnotationNode, ArgName, UntypedBranch, UntypedClause, UntypedDefinition,
    UntypedExpr, UntypedFunction, UntypedModule, UntypedNode, UntypedUpdateArg,
};
use vstd::prelude::*;

verus! {

/// Whether an export holds this text as its value.
pub open spec fn says(r: SerializableExpression, text: Seq<char>) -> bool {
    r.value matches Some(JsonValue::Text(s)) && s@ == text
}

/// A binary operation is exported under that name, with the name of its operator as its value.
pub proof fn law_exported_binary_operators(
    e: UntypedExpr,
    op: BinOp,
    left: UntypedExpr,
    right: UntypedExpr,
    r: SerializableExpression,
)
    requires
        expression_exported(e, r),
        e.node matches UntypedNode::BinOp { op: o, left: a, right: b } && o == op && *a == left
            && *b == right,
    ensures
        r.kind@ == "BinaryOperation"@,
        r.location == e.location,
        r.sub_expressions@.len() == 2,
        expression_exported(left, r.sub_expressions@[0]),
        expression_exported(right, r.sub_expressions@[1]),
        op is And ==> says(r, "And"@),
        op is Or ==> says(r, "Or"@),
        op is Eq ==> says(r, "Eq"@),
        op is NotEq ==> says(r, "NotEq"@),
        op is LtInt ==> says(r, "LtInt"@),
        op is LtEqInt ==> says(r, "LtEqInt"@),
        op is GtEqInt ==> says(r, "GtEqInt"@),
        op is GtInt ==> says(r, "GtInt"@),
        op is AddInt ==> says(r, "AddInt"@),
        op is SubInt ==> says(r, "SubInt"@),
        op is MultInt ==> says(r, "MultInt"@),
        op is DivInt ==> says(r, "DivInt"@),
        op is ModInt ==> says(r, "ModInt"@),
{
}

/// Each form of expression is exported under its own name.
pub proof fn law_exported_kinds(e: UntypedExpr, r: SerializableExpression)
    requires
        expression_exported(e, r),
    ensures
        e.node is UInt ==> r.kind@ == "Integer"@,
        e.node is Text ==> r.kind@ == "String"@,
        e.node is Var ==> r.kind@ == "Variable"@,
        e.node is Call ==> r.kind@ == "FunctionCall"@,
        e.node is If ==> r.kind@ == "IfExpression"@,
        e.node is BinOp ==> r.kind@ == "BinaryOperation"@,
        e.node is Assignment ==> r.kind@ == "Assignment"@,
        e.node is List ==> r.kind@ == "List"@,
        e.node is Tuple ==> r.kind@ == "Tuple"@,
        e.node is FieldAccess ==> r.kind@ == "FieldAccess"@,
        e.node is Sequence ==> r.kind@ == "Sequence"@,
        e.node is When ==> r.kind@ == "When"@,
        e.node is Fn ==> r.kind@ == "Function"@,
        e.node is ByteArray ==> r.kind@ == "ByteArray"@,
        e.node is TraceIfFalse ==> r.kind@ == "TraceIfFalse"@,
        e.node is Trace ==> r.kind@ == "Trace"@,
        e.node is UnOp ==> r.kind@ == "UnaryOperation"@,
        e.node is TupleIndex ==> r.kind@ == "TupleIndex"@,
        e.node is ErrorTerm ==> r.kind@ == "ErrorTerm"@,
        e.node is PipeLine ==> r.kind@ == "Pipeline"@,
        e.node is RecordUpdate ==> r.kind@ == "RecordUpdate"@,
        e.node is LogicalOpChain ==> r.kind@ == "LogicalOpChain"@,
{
}

/// An expression of another form is exported under what stands before the first brace of its
/// representation, without the white space around it, and holds the whole representation.
pub proof fn law_exported_other_expressions(
    e: UntypedExpr,
    debug: Seq<char>,
    front: Seq<char>,
    rest: Seq<char>,
    r: SerializableExpression,
)
    requires
        expression_exported(e, r),
        e.node matches UntypedNode::Other { debug: d } && d@ == debug,
    ensures
        says(r, debug),
        r.sub_expressions@.len() == 0,
        r.location == e.location,
        debug == front + "{"@ + rest && (forall|i: int|
            0 <= i < front.len() ==> #[trigger] front[i] != '{') ==> r.kind@ == trimmed_end(
            trimmed_start(front),
        ),
        (forall|i: int| 0 <= i < debug.len() ==> #[trigger] debug[i] != '{') ==> r.kind@
            == "Unknown"@,
{
    if debug == front + "{"@ + rest && (forall|i: int|
        0 <= i < front.len() ==> #[trigger] front[i] != '{') {
        lemma_kind_before_brace(debug, front, rest);
    }
    if forall|i: int| 0 <= i < debug.len() ==> #[trigger] debug[i] != '{' {
        lemma_kind_without_brace(debug);
    }
}

proof fn lemma_kind_before_brace(debug: Seq<char>, front: Seq<char>, rest: Seq<char>)
    requires
        debug == front + "{"@ + rest,
        forall|i: int| 0 <= i < front.len() ==> #[trigger] front[i] != '{',
    ensures
        kind_in_debug(debug) == trimmed_end(trimmed_start(front)),
{
    let brace = "{"@;
    let n = front.len() as int;
    reveal_strlit("{");
    assert(brace.len() == 1 && brace[0] == '{');
    law_position(debug, brace, 0);
    assert(debug[n] == '{');
    assert(stands_at(debug, brace, n));
    assert(position_from(debug, brace, 0) is Some);
    let i = position_from(debug, brace, 0)->0;
    assert(0 <= i <= n && stands_at(debug, brace, i));
    assert(debug[i + 0] == brace[0]);
    if i < n {
        assert(debug[i] == front[i]);
    }
    assert(i == n);
    assert(debug.subrange(0, n) =~= front);
}

proof fn lemma_kind_without_brace(debug: Seq<char>)
    requires
        forall|i: int| 0 <= i < debug.len() ==> #[trigger] debug[i] != '{',
    ensures
        kind_in_debug(debug) == "Unknown"@,
{
    let brace = "{"@;
    reveal_strlit("{");
    assert(brace.len() == 1 && brace[0] == '{');
    law_position(debug, brace, 0);
    if let Some(i) = position_from(debug, brace, 0) {
        assert(debug[i + 0] == brace[0]);
    }
}

/// What an expression holds besides the expressions inside it is its value: the text of a
/// literal, the name of a variable or a field, the name of an operator or of a kind, a pattern, a
/// number, a flag. The other forms have none.
pub proof fn law_exported_values(e: UntypedExpr, r: SerializableExpression)
    requires
        expression_exported(e, r),
    ensures
        e.node matches UntypedNode::UInt { value } ==> says(r, value@),
        e.node matches UntypedNode::Text { value } ==> says(r, value@),
        e.node matches UntypedNode::Var { name } ==> says(r, name@),
        e.node matches UntypedNode::FieldAccess { label, .. } ==> says(r, label@),
        e.node matches UntypedNode::UnOp { op, .. } ==> {
            &&& op is Not ==> says(r, "Not"@)
            &&& op is Negate ==> says(r, "Negate"@)
        },
        e.node matches UntypedNode::Trace { kind, .. } ==> {
            &&& kind is Trace ==> says(r, "Trace"@)
            &&& kind is Todo ==> says(r, "Todo"@)
            &&& kind is Error ==> says(r, "Error"@)
        },
        e.node matches UntypedNode::LogicalOpChain { kind, .. } ==> {
            &&& kind is And ==> says(r, "And"@)
            &&& kind is Or ==> says(r, "Or"@)
        },
        e.node matches UntypedNode::TupleIndex { index, .. } ==> (r.value matches Some(
            JsonValue::Number(n),
        ) && n == index),
        e.node matches UntypedNode::Assignment { kind, pattern, .. } ==> (r.value matches Some(
            JsonValue::Object(fields),
        ) && fields@.len() == 2 && fields@[0].0@ == "kind"@ && (fields@[0].1 matches JsonValue::Text(
            k,
        ) && (kind is Let ==> k@ == "Let"@) && (kind is Expect ==> k@ == "Expect"@))
            && fields@[1].0@ == "pattern"@ && (fields@[1].1 matches JsonValue::Pattern(p)
            && pattern_exported(pattern, p))),
        e.node matches UntypedNode::PipeLine { one_liner, .. } ==> (r.value matches Some(
            JsonValue::Object(fields),
        ) && fields@.len() == 1 && fields@[0].0@ == "one_liner"@ && (fields@[0].1
            matches JsonValue::Flag(b) && b == one_liner)),
        e.node matches UntypedNode::Fn { arguments, .. } ==> (r.value matches Some(
            JsonValue::Array(a),
        ) && a@.len() == arguments@.len() && forall|i: int|
            0 <= i < a@.len() ==> (#[trigger] a@[i] matches JsonValue::Text(s) && (
            match arguments@[i] {
                ArgName::Named { name } => s@ == name@,
                ArgName::Discarded { name } => s@ == name@,
            }))),
        e.node is Call || e.node is If || e.node is List || e.node is Tuple || e.node is Sequence
            || e.node is When || e.node is TraceIfFalse || e.node is ErrorTerm || e.node
            is RecordUpdate ==> r.value is None,
{
    if let UntypedNode::Fn { arguments, .. } = e.node {
        if let Some(JsonValue::Array(a)) = r.value {
            assert forall|i: int| 0 <= i < a@.len() implies (#[trigger] a@[i] matches JsonValue::Text(
                s,
            ) && (match arguments@[i] {
                ArgName::Named { name } => s@ == name@,
                ArgName::Discarded { name } => s@ == name@,
            })) by {
                assert(crate::serialize_expression::is_text(
                    a@[i],
                    crate::serialize_expression::parameter_name(arguments@[i]),
                ));
            }
        }
    }
}

/// The number that a lowercase hexadecimal digit stands for.
pub open spec fn nibble(c: char) -> int {
    if '0' <= c <= '9' {
        c as int - '0' as int
    } else if 'a' <= c <= 'f' {
        10 + (c as int - 'a' as int)
    } else {
        -1
    }
}

/// Bytes are exported as two lowercase hexadecimal digits each, in order, the high one first.
pub proof fn law_exported_bytes(e: UntypedExpr, bytes: Seq<u8>, r: SerializableExpression)
    requires
        expression_exported(e, r),
        e.node matches UntypedNode::ByteArray { bytes: b } && b@ == bytes,
    ensures
        r.value matches Some(JsonValue::Text(s)) && s@.len() == 2 * bytes.len() && forall|i: int|
            0 <= i < bytes.len() ==> {
                &&& nibble(s@[2 * i]) >= 0
                &&& nibble(s@[2 * i + 1]) >= 0
                &&& #[trigger] bytes[i] == 16 * nibble(s@[2 * i]) + nibble(s@[2 * i + 1])
            },
{
    let s = hex_text(bytes);
    assert forall|i: int| 0 <= i < bytes.len() implies {
        &&& nibble(s[2 * i]) >= 0
        &&& nibble(s[2 * i + 1]) >= 0
        &&& #[trigger] bytes[i] == 16 * nibble(s[2 * i]) + nibble(s[2 * i + 1])
    } by {
        assert((2 * i) % 2 == 0 && (2 * i) / 2 == i);
        assert((2 * i + 1) % 2 == 1 && (2 * i + 1) / 2 == i);
        let b = bytes[i];
        lemma_nibble(b / 16);
        lemma_nibble(b % 16);
    }
}

proof fn lemma_nibble(n: u8)
    requires
        n < 16,
    ensures
        nibble(crate::hexadecimal::hex_digit(n)) == n,
{
}

/// Every expression inside another one is exported inside its export, in order, and nothing else
/// is: the exports of the clauses of a `when` with a description of their patterns before each,
/// and the fields that a record update sets under their labels.
pub proof fn law_exported_parts(e: UntypedExpr, r: SerializableExpression)
    requires
        expression_exported(e, r),
    ensures
        ({
            let s = r.sub_expressions@;
            &&& e.node matches UntypedNode::Call { fun, arguments } ==> {
                &&& s.len() == arguments@.len() + 1
                &&& expression_exported(*fun, s[0])
                &&& forall|i: int|
                    0 <= i < arguments@.len() ==> expression_exported(
                        #[trigger] arguments@[i],
                        s[i + 1],
                    )
            }
            &&& e.node matches UntypedNode::If { branches, final_else } ==> {
                &&& s.len() == 2 * branches@.len() + 1
                &&& expression_exported(*final_else, s.last())
                &&& forall|i: int|
                    0 <= i < branches@.len() ==> {
                        &&& expression_exported((#[trigger] branches@[i]).condition, s[2 * i])
                        &&& expression_exported(branches@[i].body, s[2 * i + 1])
                    }
            }
            &&& e.node matches UntypedNode::Assignment { value, .. } ==> s.len() == 1
                && expression_exported(*value, s[0])
            &&& e.node matches UntypedNode::List { elements, tail } ==> {
                &&& forall|i: int|
                    0 <= i < elements@.len() ==> expression_exported(
                        #[trigger] elements@[i],
                        s[i],
                    )
                &&& tail matches Some(t) ==> s.len() == elements@.len() + 1 && expression_exported(
                    *t,
                    s.last(),
                )
                &&& tail is None ==> s.len() == elements@.len()
            }
            &&& e.node matches UntypedNode::Tuple { elems } ==> exports_all(elems@, s)
            &&& e.node matches UntypedNode::FieldAccess { container, .. } ==> s.len() == 1
                && expression_exported(*container, s[0])
            &&& e.node matches UntypedNode::Sequence { expressions } ==> exports_all(
                expressions@,
                s,
            )
            &&& e.node matches UntypedNode::When { subject, clauses } ==> {
                &&& s.len() == 2 * clauses@.len() + 1
                &&& expression_exported(*subject, s[0])
                &&& forall|i: int|
                    0 <= i < clauses@.len() ==> {
                        &&& s[2 * i + 1].kind@ == "Pattern"@
                        &&& says(s[2 * i + 1], (#[trigger] clauses@[i]).patterns@)
                        &&& s[2 * i + 1].sub_expressions@.len() == 0
                        &&& s[2 * i + 1].location == clauses@[i].location
                        &&& expression_exported(clauses@[i].body, s[2 * i + 2])
                    }
            }
            &&& e.node matches UntypedNode::Fn { body, .. } ==> s.len() == 1
                && expression_exported(*body, s[0])
            &&& e.node matches UntypedNode::TraceIfFalse { value } ==> s.len() == 1
                && expression_exported(*value, s[0])
            &&& e.node matches UntypedNode::Trace { text, continuation, .. } ==> s.len() == 2
                && expression_exported(*text, s[0]) && expression_exported(*continuation, s[1])
            &&& e.node matches UntypedNode::UnOp { value, .. } ==> s.len() == 1
                && expression_exported(*value, s[0])
            &&& e.node matches UntypedNode::TupleIndex { tuple, .. } ==> s.len() == 1
                && expression_exported(*tuple, s[0])
            &&& e.node matches UntypedNode::PipeLine { first, rest, .. } ==> {
                &&& s.len() == rest@.len() + 1
                &&& expression_exported(*first, s[0])
                &&& forall|i: int|
                    0 <= i < rest@.len() ==> expression_exported(#[trigger] rest@[i], s[i + 1])
            }
            &&& e.node matches UntypedNode::RecordUpdate {
                constructor,
                spread,
                spread_location,
                arguments,
            } ==> {
                &&& s.len() == arguments@.len() + 2
                &&& expression_exported(*constructor, s[0])
                &&& s[1].kind@ == "Spread"@
                &&& s[1].value is None
                &&& s[1].location == spread_location
                &&& s[1].sub_expressions@.len() == 1
                &&& expression_exported(*spread, s[1].sub_expressions@[0])
                &&& forall|i: int|
                    0 <= i < arguments@.len() ==> {
                        &&& s[i + 2].kind@ == "RecordUpdateArg"@
                        &&& says(s[i + 2], (#[trigger] arguments@[i]).label@)
                        &&& s[i + 2].location == arguments@[i].location
                        &&& s[i + 2].sub_expressions@.len() == 1
                        &&& expression_exported(
                            arguments@[i].value,
                            s[i + 2].sub_expressions@[0],
                        )
                    }
            }
            &&& e.node matches UntypedNode::LogicalOpChain { expressions, .. } ==> exports_all(
                expressions@,
                s,
            )
            &&& e.node is UInt || e.node is Text || e.node is Var || e.node is ByteArray || e.node
                is ErrorTerm ==> s.len() == 0
        }),
{
    let s = r.sub_expressions@;
    match e.node {
        UntypedNode::Call { fun, arguments } => {
            lemma_all(arguments@, s.skip(1));
            assert forall|i: int| 0 <= i < arguments@.len() implies expression_exported(
                #[trigger] arguments@[i],
                s[i + 1],
            ) by {
                assert(s.skip(1)[i] == s[i + 1]);
            }
        },
        UntypedNode::If { branches, .. } => {
            lemma_branches(branches@, s.drop_last(), s);
        },
        UntypedNode::List { elements, tail } => {
            if tail is Some {
                lemma_all(elements@, s.drop_last());
                assert forall|i: int| 0 <= i < elements@.len() implies expression_exported(
                    #[trigger] elements@[i],
                    s[i],
                ) by {
                    assert(s.drop_last()[i] == s[i]);
                }
            } else {
                lemma_all(elements@, s);
            }
        },
        UntypedNode::Tuple { elems } => {
            lemma_all(elems@, s);
        },
        UntypedNode::Sequence { expressions } => {
            lemma_all(expressions@, s);
        },
        UntypedNode::LogicalOpChain { expressions, .. } => {
            lemma_all(expressions@, s);
        },
        UntypedNode::When { clauses, .. } => {
            lemma_clauses(clauses@, s.skip(1), s);
        },
        UntypedNode::PipeLine { rest, .. } => {
            lemma_all(rest@, s.skip(1));
            assert forall|i: int| 0 <= i < rest@.len() implies expression_exported(
                #[trigger] rest@[i],
                s[i + 1],
            ) by {
                assert(s.skip(1)[i] == s[i + 1]);
            }
        },
        UntypedNode::RecordUpdate { arguments, .. } => {
            lemma_updates(arguments@, s.skip(2), s);
        },
        _ => {},
    }
}

proof fn lemma_all(e: Seq<UntypedExpr>, r: Seq<SerializableExpression>)
    requires
        expressions_exported(e, r),
    ensures
        exports_all(e, r),
{
}

proof fn lemma_branches(
    b: Seq<UntypedBranch>,
    r: Seq<SerializableExpression>,
    s: Seq<SerializableExpression>,
)
    requires
        branches_exported(b, r),
        s.len() > 0,
        r == s.drop_last(),
    ensures
        s.len() == 2 * b.len() + 1,
        forall|i: int|
            0 <= i < b.len() ==> {
                &&& expression_exported((#[trigger] b[i]).condition, s[2 * i])
                &&& expression_exported(b[i].body, s[2 * i + 1])
            },
{
    assert forall|i: int| 0 <= i < b.len() implies {
        &&& expression_exported((#[trigger] b[i]).condition, s[2 * i])
        &&& expression_exported(b[i].body, s[2 * i + 1])
    } by {
        assert(r[2 * i] == s[2 * i]);
        assert(r[2 * i + 1] == s[2 * i + 1]);
    }
}

proof fn lemma_clauses(
    c: Seq<UntypedClause>,
    r: Seq<SerializableExpression>,
    s: Seq<SerializableExpression>,
)
    requires
        clauses_exported(c, r),
        s.len() > 0,
        r == s.skip(1),
    ensures
        s.len() == 2 * c.len() + 1,
        forall|i: int|
            0 <= i < c.len() ==> {
                &&& s[2 * i + 1].kind@ == "Pattern"@
                &&& says(s[2 * i + 1], (#[trigger] c[i]).patterns@)
                &&& s[2 * i + 1].sub_expressions@.len() == 0
                &&& s[2 * i + 1].location == c[i].location
                &&& expression_exported(c[i].body, s[2 * i + 2])
            },
{
    assert forall|i: int| 0 <= i < c.len() implies {
        &&& s[2 * i + 1].kind@ == "Pattern"@
        &&& says(s[2 * i + 1], (#[trigger] c[i]).patterns@)
        &&& s[2 * i + 1].sub_expressions@.len() == 0
        &&& s[2 * i + 1].location == c[i].location
        &&& expression_exported(c[i].body, s[2 * i + 2])
    } by {
        assert(r[2 * i] == s[2 * i + 1]);
        assert(r[2 * i + 1] == s[2 * i + 2]);
        assert(patterns_described(c[i], r[2 * i]));
    }
}

proof fn lemma_updates(
    a: Seq<UntypedUpdateArg>,
    r: Seq<SerializableExpression>,
    s: Seq<SerializableExpression>,
)
    requires
        updates_exported(a, r),
        s.len() > 1,
        r == s.skip(2),
    ensures
        s.len() == a.len() + 2,
        forall|i: int|
            0 <= i < a.len() ==> {
                &&& s[i + 2].kind@ == "RecordUpdateArg"@
                &&& says(s[i + 2], (#[trigger] a[i]).label@)
                &&& s[i + 2].location == a[i].location
                &&& s[i + 2].sub_expressions@.len() == 1
                &&& expression_exported(a[i].value, s[i + 2].sub_expressions@[0])
            },
{
    assert forall|i: int| 0 <= i < a.len() implies {
        &&& s[i + 2].kind@ == "RecordUpdateArg"@
        &&& says(s[i + 2], (#[trigger] a[i]).label@)
        &&& s[i + 2].location == a[i].location
        &&& s[i + 2].sub_expressions@.len() == 1
        &&& expression_exported(a[i].value, s[i + 2].sub_expressions@[0])
    } by {
        assert(r[i] == s[i + 2]);
    }
}

/// Whether the expressions are exported one for one, in order.
pub open spec fn exports_all(e: Seq<UntypedExpr>, r: Seq<SerializableExpression>) -> bool {
    &&& r.len() == e.len()
    &&& forall|i: int| 0 <= i < e.len() ==> expression_exported(#[trigger] e[i], r[i])
}

/// An expression is exported with its place. A pipeline reaches from where its first expression
/// starts to where its last one ends.
pub proof fn law_exported_places(e: UntypedExpr, r: SerializableExpression)
    requires
        expression_exported(e, r),
    ensures
        e.node matches UntypedNode::PipeLine { first_location, last_location, .. }
            ==> r.location.start == first_location.start && r.location.end == last_location.end,
        !(e.node is PipeLine) ==> r.location == e.location,
{
}

/// Whether an optional text is kept.
pub open spec fn keeps(before: Option<String>, after: Option<String>) -> bool {
    match (before, after) {
        (Some(a), Some(b)) => a@ == b@,
        (None, None) => true,
        _ => false,
    }
}

/// A written type is exported under the name of its form, with its name, its arguments in order,
/// its module and its place.
pub proof fn law_exported_types(a: Annotation, r: SerializableTypeAnnotation)
    requires
        annotation_exported(a, r),
    ensures
        r.location == a.location,
        a.node matches AnnotationNode::Constructor { name, arguments, module } ==> {
            &&& r.kind@ == "Constructor"@
            &&& r.name@ == name@
            &&& keeps(module, r.module)
            &&& exports_types(arguments@, r.arguments@)
        },
        a.node matches AnnotationNode::Fn { arguments, .. } ==> {
            &&& r.kind@ == "Function"@
            &&& r.name@ == "fn"@
            &&& r.module is None
            &&& exports_types(arguments@, r.arguments@)
        },
        a.node matches AnnotationNode::Var { name } ==> {
            &&& r.kind@ == "Variable"@
            &&& r.name@ == name@
            &&& r.module is None
            &&& r.arguments@.len() == 0
        },
        a.node matches AnnotationNode::Hole { name } ==> {
            &&& r.kind@ == "Hole"@
            &&& r.name@ == name@
            &&& r.module is None
            &&& r.arguments@.len() == 0
        },
        a.node matches AnnotationNode::Tuple { elems } ==> {
            &&& r.kind@ == "Tuple"@
            &&& r.name@ == "Tuple"@
            &&& r.module is None
            &&& exports_types(elems@, r.arguments@)
        },
{
}

/// Whether the types are exported one for one, in order.
pub open spec fn exports_types(a: Seq<Annotation>, r: Seq<SerializableTypeAnnotation>) -> bool {
    &&& r.len() == a.len()
    &&& forall|i: int| 0 <= i < a.len() ==> annotation_exported(#[trigger] a[i], r[i])
}

/// Whether the arguments of a constructor pattern are exported one for one, in order, each with
/// its label and its place.
pub open spec fn exports_arguments(p: Seq<PatternArg>, r: Seq<SerializablePatternArg>) -> bool {
    &&& r.len() == p.len()
    &&& forall|i: int|
        0 <= i < p.len() ==> {
            &&& keeps((#[trigger] p[i]).label, r[i].label)
            &&& r[i].location == p[i].location
            &&& value_exported(p[i].value, r[i].value)
        }
}

/// Whether the elements of a pattern are exported one for one, in order, each with its place, and
/// with its number from zero as its label.
pub open spec fn exports_elements(p: Seq<Pattern>, r: Seq<SerializablePatternArg>) -> bool {
    &&& r.len() == p.len()
    &&& forall|i: int| 0 <= i < p.len() ==> exports_element(#[trigger] p[i], i as nat, r[i])
}

/// Whether element `i` of a pattern is exported, with its place and that number as its label.
pub open spec fn exports_element(p: Pattern, i: nat, r: SerializablePatternArg) -> bool {
    &&& r.label matches Some(l) && l@ == decimal(i)
    &&& r.location == place_of(p)
    &&& value_exported(p, r.value)
}

/// A pattern is exported under the name of its form, with its name, its arguments or elements in
/// order, its module and its place.
pub proof fn law_exported_patterns(p: Pattern, r: SerializablePattern)
    requires
        pattern_exported(p, r),
    ensures
        r.location == place_of(p),
        p matches Pattern::Constructor { name, arguments, module, .. } ==> {
            &&& r.kind@ == "Constructor"@
            &&& r.name@ == name@
            &&& keeps(module, r.module)
            &&& exports_arguments(arguments@, r.arguments@)
        },
        p matches Pattern::Var { name, .. } ==> {
            &&& r.kind@ == "Variable"@
            &&& r.name@ == name@
            &&& r.module is None
            &&& r.arguments@.len() == 0
        },
        p matches Pattern::Discard { name, .. } ==> {
            &&& r.kind@ == "Discard"@
            &&& r.name@ == name@
            &&& r.module is None
            &&& r.arguments@.len() == 0
        },
        p matches Pattern::List { elements, .. } ==> {
            &&& r.kind@ == "List"@
            &&& r.name@ == "List"@
            &&& r.module is None
            &&& exports_elements(elements@, r.arguments@)
        },
        p matches Pattern::Tuple { elems, .. } ==> {
            &&& r.kind@ == "Tuple"@
            &&& r.name@ == "Tuple"@
            &&& r.module is None
            &&& exports_elements(elems@, r.arguments@)
        },
        p matches Pattern::Other { debug, .. } ==> {
            &&& r.kind@ == "Other"@
            &&& r.name@ == debug@
            &&& r.module is None
            &&& r.arguments@.len() == 0
        },
{
    match p {
        Pattern::Constructor { arguments, .. } => {
            lemma_arguments(arguments@, r.arguments@);
        },
        Pattern::List { elements, .. } => {
            lemma_elements(elements@, r.arguments@);
        },
        Pattern::Tuple { elems, .. } => {
            lemma_elements(elems@, r.arguments@);
        },
        _ => {},
    }
}

proof fn lemma_arguments(p: Seq<PatternArg>, r: Seq<SerializablePatternArg>)
    requires
        crate::serialize::pattern_args_exported(p, r),
    ensures
        exports_arguments(p, r),
{
    assert forall|i: int| 0 <= i < p.len() implies {
        &&& keeps((#[trigger] p[i]).label, r[i].label)
        &&& r[i].location == p[i].location
        &&& value_exported(p[i].value, r[i].value)
    } by {
        assert(crate::serialize::pattern_arg_exported(p[i], r[i]));
    }
}

proof fn lemma_elements(p: Seq<Pattern>, r: Seq<SerializablePatternArg>)
    requires
        crate::serialize::numbered_exported(p, r),
    ensures
        exports_elements(p, r),
{
    assert(r.len() == p.len());
    assert forall|i: int| 0 <= i < p.len() implies exports_element(
        #[trigger] p[i],
        i as nat,
        r[i],
    ) by {
        assert(crate::serialize::element_exported(p[i], i as nat, r[i]));
    }
}

/// Whether the patterns inside a pattern are exported one for one, in order.
pub open spec fn exports_values(p: Seq<Pattern>, r: Seq<SerializablePatternValue>) -> bool {
    &&& r.len() == p.len()
    &&& forall|i: int| 0 <= i < p.len() ==> value_exported(#[trigger] p[i], r[i])
}

/// A pattern inside a pattern is exported as its own form, with all that it holds. One of another
/// form is exported as a variable whose name says so.
pub proof fn law_exported_inner_patterns(p: Pattern, r: SerializablePatternValue)
    requires
        value_exported(p, r),
    ensures
        p matches Pattern::Constructor { name, arguments, .. } ==> (
        r matches SerializablePatternValue::Constructor { name: n, arguments: a } && n@ == name@
            && exports_arguments(arguments@, a@)),
        p matches Pattern::Var { name, .. } ==> (r matches SerializablePatternValue::Variable {
            name: n,
        } && n@ == name@),
        p matches Pattern::Discard { name, .. } ==> (r matches SerializablePatternValue::Discard {
            name: n,
        } && n@ == name@),
        p matches Pattern::List { elements, tail, .. } ==> (
        r matches SerializablePatternValue::List { elements: e, tail: t } && exports_values(
            elements@,
            e@,
        ) && (tail is None <==> t is None) && (tail matches Some(x) ==> value_exported(
            *x,
            *t->0,
        ))),
        p matches Pattern::Tuple { elems, .. } ==> (r matches SerializablePatternValue::Tuple {
            elements: e,
        } && exports_values(elems@, e@)),
        p matches Pattern::Other { debug, .. } ==> (r matches SerializablePatternValue::Variable {
            name: n,
        } && n@ == "Unsupported_"@ + debug@),
{
    if let (
        Pattern::Constructor { arguments, .. },
        SerializablePatternValue::Constructor { arguments: a, .. },
    ) = (p, r) {
        lemma_arguments(arguments@, a@);
    }
    if let (
        Pattern::List { elements, .. },
        SerializablePatternValue::List { elements: e, .. },
    ) = (p, r) {
        lemma_values(elements@, e@);
    }
    if let (Pattern::Tuple { elems, .. }, SerializablePatternValue::Tuple { elements: e }) = (
        p,
        r,
    ) {
        lemma_values(elems@, e@);
    }
}

proof fn lemma_values(p: Seq<Pattern>, r: Seq<SerializablePatternValue>)
    requires
        crate::serialize::values_exported(p, r),
    ensures
        exports_values(p, r),
{
}

/// Whether an optional comment is exported: as a list of the one comment, or as none.
pub open spec fn exports_doc(doc: Option<String>, r: Option<Vec<String>>) -> bool {
    match (doc, r) {
        (Some(d), Some(v)) => v@.len() == 1 && v@[0]@ == d@,
        (None, None) => true,
        _ => false,
    }
}

/// Whether an optional type is exported.
pub open spec fn exports_type(
    a: Option<Annotation>,
    r: Option<SerializableTypeAnnotation>,
) -> bool {
    match (a, r) {
        (Some(x), Some(y)) => annotation_exported(x, y),
        (None, None) => true,
        _ => false,
    }
}

/// Whether texts are kept, one for one and in order.
pub open spec fn keeps_all(before: Seq<String>, after: Seq<String>) -> bool {
    &&& after.len() == before.len()
    &&& forall|i: int| 0 <= i < before.len() ==> (#[trigger] after[i])@ == before[i]@
}

/// Whether a body is exported if details are asked for, and left out otherwise.
pub open spec fn exports_body(
    e: UntypedExpr,
    detailed: bool,
    r: Option<SerializableExpression>,
) -> bool {
    &&& detailed ==> (r matches Some(x) && expression_exported(e, x))
    &&& !detailed ==> r is None
}

/// Whether the parameters and the body of a function are exported: each parameter, in order, with
/// its name, or an underscore if it is discarded, and its type.
pub open spec fn exports_function(
    f: UntypedFunction,
    detailed: bool,
    r: SerializableDefinition,
) -> bool {
    &&& r.name@ == f.name@
    &&& exports_doc(f.doc, r.doc_comments)
    &&& r.function_args matches Some(a)
    &&& a@.len() == f.arguments@.len()
    &&& forall|i: int|
        0 <= i < a@.len() ==> {
            &&& match f.arguments@[i].arg_name {
                ArgName::Named { name } => (#[trigger] a@[i]).name@ == name@,
                ArgName::Discarded { .. } => a@[i].name@ == "_"@,
            }
            &&& exports_type(f.arguments@[i].annotation, a@[i].annotation)
        }
    &&& exports_body(f.body, detailed, r.body)
}

proof fn lemma_function(f: UntypedFunction, detailed: bool, r: SerializableDefinition)
    requires
        function_exported(f, detailed, r),
        r.name@ == f.name@,
        crate::export_ast::doc_exported(f.doc, r.doc_comments),
    ensures
        exports_function(f, detailed, r),
{
    lemma_doc(f.doc, r.doc_comments);
    if let Some(a) = r.function_args {
        assert forall|i: int| 0 <= i < a@.len() implies {
            &&& match f.arguments@[i].arg_name {
                ArgName::Named { name } => (#[trigger] a@[i]).name@ == name@,
                ArgName::Discarded { .. } => a@[i].name@ == "_"@,
            }
            &&& exports_type(f.arguments@[i].annotation, a@[i].annotation)
        } by {
            assert(crate::export_ast::argument_exported(f.arguments@[i], a@[i]));
        }
    }
}

proof fn lemma_doc(doc: Option<String>, r: Option<Vec<String>>)
    requires
        crate::export_ast::doc_exported(doc, r),
    ensures
        exports_doc(doc, r),
{
    if let (Some(d), Some(v)) = (doc, r) {
        assert(texts(v@).len() == 1);
        assert(texts(v@)[0] == v@[0]@);
    }
}

proof fn lemma_texts(before: Seq<String>, after: Seq<String>)
    requires
        texts(after) == texts(before),
    ensures
        keeps_all(before, after),
{
    assert(texts(after).len() == after.len());
    assert(texts(before).len() == before.len());
    assert forall|i: int| 0 <= i < before.len() implies (#[trigger] after[i])@ == before[i]@ by {
        assert(texts(after)[i] == after[i]@);
        assert(texts(before)[i] == before[i]@);
    }
}

/// A definition is exported under the name of its kind, with its own name, place and comment, and
/// with what it defines: functions, tests and validators with their parameters, data types with
/// their constructors and fields, aliases with their parameters and what they stand for,
/// constants with their type, and imports with what they import. Code is exported where details
/// are asked for. What does not apply is left out.
pub proof fn law_exported_definitions(
    d: UntypedDefinition,
    detailed: bool,
    r: SerializableDefinition,
)
    requires
        definition_exported(d, detailed, r),
    ensures
        d matches UntypedDefinition::Fn(f) ==> {
            &&& r.kind@ == "Function"@
            &&& r.location == f.location
            &&& exports_function(f, detailed, r)
        },
        d matches UntypedDefinition::Test(f) ==> {
            &&& r.kind@ == "Test"@
            &&& r.location == f.location
            &&& exports_function(f, detailed, r)
        },
        d matches UntypedDefinition::Validator { location, fun } ==> {
            &&& r.kind@ == "Validator"@
            &&& r.location == location
            &&& exports_function(fun, detailed, r)
        },
        d matches UntypedDefinition::DataType { location, name, constructors, doc } ==> {
            &&& r.kind@ == "DataType"@
            &&& r.name@ == name@
            &&& r.location == location
            &&& exports_doc(doc, r.doc_comments)
            &&& r.data_constructors matches Some(c) && c@.len() == constructors@.len() && forall|
                i: int|
                0 <= i < c@.len() ==> {
                    &&& (#[trigger] c@[i]).name@ == constructors@[i].name@
                    &&& c@[i].fields@.len() == constructors@[i].arguments@.len()
                    &&& forall|j: int|
                        0 <= j < c@[i].fields@.len() ==> {
                            let field = constructors@[i].arguments@[j];
                            &&& keeps(field.label, (#[trigger] c@[i].fields@[j]).name)
                            &&& c@[i].fields@[j].annotation matches Some(a) && annotation_exported(
                                field.annotation,
                                a,
                            )
                        }
                }
        },
        d matches UntypedDefinition::TypeAlias { location, alias, parameters, annotation, doc }
            ==> {
            &&& r.kind@ == "TypeAlias"@
            &&& r.name@ == alias@
            &&& r.location == location
            &&& exports_doc(doc, r.doc_comments)
            &&& r.type_parameters matches Some(v) && keeps_all(parameters@, v@)
            &&& r.annotation matches Some(a) && annotation_exported(annotation, a)
        },
        d matches UntypedDefinition::ModuleConstant { location, name, annotation, value, doc }
            ==> {
            &&& r.kind@ == "ModuleConstant"@
            &&& r.name@ == name@
            &&& r.location == location
            &&& exports_doc(doc, r.doc_comments)
            &&& exports_type(annotation, r.annotation)
            &&& exports_body(value, detailed, r.body)
        },
        d matches UntypedDefinition::Use { location, module, as_name, unqualified } ==> {
            &&& r.kind@ == "Use"@
            &&& r.name@ == joined(texts(module@), "/"@)
            &&& r.location == location
            &&& r.doc_comments is None
            &&& r.import matches Some(v) && keeps_all(module@, v.module@) && keeps(
                as_name,
                v.as_name,
            ) && v.unqualified@.len() == unqualified@.len() && forall|i: int|
                0 <= i < unqualified@.len() ==> {
                    &&& (#[trigger] v.unqualified@[i]).name@ == unqualified@[i].name@
                    &&& keeps(unqualified@[i].as_name, v.unqualified@[i].as_name)
                    &&& v.unqualified@[i].location == unqualified@[i].location
                }
        },
        !(d is Fn || d is Test || d is Validator) ==> r.function_args is None,
        !(d is DataType) ==> r.data_constructors is None,
        !(d is TypeAlias) ==> r.type_parameters is None,
        !(d is TypeAlias || d is ModuleConstant) ==> r.annotation is None,
        !(d is Use) ==> r.import is None,
        d is DataType || d is TypeAlias || d is Use ==> r.body is None,
{
    match d {
        UntypedDefinition::Fn(f) => {
            lemma_function(f, detailed, r);
        },
        UntypedDefinition::Test(f) => {
            lemma_function(f, detailed, r);
        },
        UntypedDefinition::Validator { fun, .. } => {
            lemma_function(fun, detailed, r);
        },
        UntypedDefinition::DataType { constructors, doc, .. } => {
            lemma_doc(doc, r.doc_comments);
            if let Some(c) = r.data_constructors {
                assert forall|i: int| 0 <= i < c@.len() implies {
                    &&& (#[trigger] c@[i]).name@ == constructors@[i].name@
                    &&& c@[i].fields@.len() == constructors@[i].arguments@.len()
                    &&& forall|j: int|
                        0 <= j < c@[i].fields@.len() ==> {
                            let field = constructors@[i].arguments@[j];
                            &&& keeps(field.label, (#[trigger] c@[i].fields@[j]).name)
                            &&& c@[i].fields@[j].annotation matches Some(a) && annotation_exported(
                                field.annotation,
                                a,
                            )
                        }
                } by {
                    assert(crate::export_ast::constructor_exported(constructors@[i], c@[i]));
                    assert forall|j: int| 0 <= j < c@[i].fields@.len() implies {
                        let field = constructors@[i].arguments@[j];
                        &&& keeps(field.label, (#[trigger] c@[i].fields@[j]).name)
                        &&& c@[i].fields@[j].annotation matches Some(a) && annotation_exported(
                            field.annotation,
                            a,
                        )
                    } by {
                        assert(crate::export_ast::field_exported(
                            constructors@[i].arguments@[j],
                            c@[i].fields@[j],
                        ));
                    }
                }
            }
        },
        UntypedDefinition::TypeAlias { parameters, doc, .. } => {
            lemma_doc(doc, r.doc_comments);
            if let Some(v) = r.type_parameters {
                lemma_texts(parameters@, v@);
            }
        },
        UntypedDefinition::ModuleConstant { doc, .. } => {
            lemma_doc(doc, r.doc_comments);
        },
        UntypedDefinition::Use { module, unqualified, .. } => {
            if let Some(v) = r.import {
                lemma_texts(module@, v.module@);
                assert forall|i: int| 0 <= i < unqualified@.len() implies {
                    &&& (#[trigger] v.unqualified@[i]).name@ == unqualified@[i].name@
                    &&& keeps(unqualified@[i].as_name, v.unqualified@[i].as_name)
                    &&& v.unqualified@[i].location == unqualified@[i].location
                } by {
                    assert(crate::export_ast::unqualified_exported(
                        unqualified@[i],
                        v.unqualified@[i],
                    ));
                }
            }
        },
    }
}

/// A module is exported with its name, its kind, the path of its file, its comments if it has
/// any, and all its definitions, in order.
pub proof fn law_exported_modules(
    m: UntypedModule,
    path: Seq<char>,
    detailed: bool,
    r: SerializableModule,
)
    requires
        module_exported(m, path, detailed, r),
    ensures
        r.name@ == m.name@,
        m.kind is Lib ==> r.kind@ == "Library"@,
        m.kind is Validator ==> r.kind@ == "Validator"@,
        r.source_file@ == path,
        m.docs@.len() == 0 ==> r.doc_comments is None,
        m.docs@.len() > 0 ==> (r.doc_comments matches Some(v) && keeps_all(m.docs@, v@)),
        r.definitions@.len() == m.definitions@.len(),
        forall|i: int|
            0 <= i < m.definitions@.len() ==> definition_exported(
                #[trigger] m.definitions@[i],
                detailed,
                r.definitions@[i],
            ),
{
    if let Some(v) = r.doc_comments {
        if m.docs@.len() > 0 {
            lemma_texts(m.docs@, v@);
        }
    }
}

/// A file holds a validator module exactly if `validators` stands in its path.
pub proof fn law_kind_of_file(path: Seq<char>)
    ensures
        kind_of_file(path) is Validator <==> exists|front: Seq<char>, rest: Seq<char>|
            path == #[trigger] (front + "validators"@ + rest),
        kind_of_file(path) is Lib <==> !(kind_of_file(path) is Validator),
{
    law_contains_text(path, "validators"@);
}

/// Whether a file with this extension is a source file.
pub open spec fn is_ak(extension: Option<String>) -> bool {
    extension matches Some(e) && e@ == "ak"@
}

/// A source file is exported on its own, and a directory as a project, with the path and the
/// detail asked for; any other path is skipped, and the message names it.
pub proof fn law_actions(path: Seq<char>, facts: PathFacts, detailed: bool, a: PathAction)
    requires
        action_for(path, facts, detailed, a),
    ensures
        facts.is_file && is_ak(facts.extension) <==> a is ExportFile,
        facts.is_dir && !(facts.is_file && is_ak(facts.extension)) <==> a is ExportProject,
        a matches PathAction::ExportFile { path: p, detailed: d } ==> p@ == path && d == detailed,
        a matches PathAction::ExportProject { path: p, detailed: d } ==> p@ == path && d
            == detailed,
        a matches PathAction::Skip { message } ==> message@ == "Skipping invalid path: "@ + path,
{
}

/// A search looks at its entries in order. A directory is asked for, unless it is named `target`;
/// a file that is a source file is found; all else is passed over. A search without entries is
/// finished.
pub proof fn law_search_looks_in_order(entry: Entry, rest: Seq<Entry>, found: Seq<usize>)
    ensures
        ({
            let s = SearchView { pending: seq![entry] + rest, found };
            let target = entry.file_name matches Some(name) && name@ == "target"@;
            let behind = SearchView { pending: rest, found };
            let grown = SearchView { pending: rest, found: found.push(entry.id) };
            &&& entry.is_dir && !target ==> needed(s) == SearchStep::ReadDirectory(entry.id)
                && advanced(s) == behind
            &&& entry.is_dir && target ==> needed(s) == needed(behind) && advanced(s) == advanced(
                behind,
            )
            &&& !entry.is_dir && is_ak(entry.extension) ==> needed(s) == needed(grown)
                && advanced(s) == advanced(grown)
            &&& !entry.is_dir && !is_ak(entry.extension) ==> needed(s) == needed(behind)
                && advanced(s) == advanced(behind)
        }),
        ({
            let empty = SearchView { pending: Seq::empty(), found };
            &&& needed(empty) is Finished
            &&& advanced(empty) == empty
        }),
{
    let s = SearchView { pending: seq![entry] + rest, found };
    assert(s.pending[0] == entry);
    assert(s.pending.skip(1) =~= rest);
    let empty = SearchView { pending: Seq::empty(), found };
    assert(empty.pending.take(0) =~= Seq::empty());
    assert(found + Seq::<usize>::empty() =~= found);
    if crate::file_search::is_searched(entry) {
        assert(s.pending.take(0) =~= Seq::empty());
    } else {
        let next = if crate::file_search::is_source_file(entry) {
            found.push(entry.id)
        } else {
            found
        };
        crate::file_search::lemma_pass(s, next);
    }
}

/// The entries of a directory are looked at before those that were left.
pub proof fn law_search_enters(s: SearchView, entries: Seq<Entry>)
    ensures
        entered(s, entries).found == s.found,
        entered(s, entries).pending.len() == entries.len() + s.pending.len(),
        entered(s, entries).pending.take(entries.len() as int) == entries,
        entered(s, entries).pending.skip(entries.len() as int) == s.pending,
{
}

} // verus!
