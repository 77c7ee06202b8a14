//! What is exported of a module rests on the module, its path and the asked for detail alone.
use crate::ast::{Pattern, PatternArg};
use crate::export_ast::{
    argument_exported, arguments_exported, body_exported, constructor_exported,
    constructors_exported, definition_exported, field_exported, import_exported, module_exported,
    optional_annotation_exported, unqualified_exported,
};
use crate::serializable::{
    JsonValue, SerializableArgument, SerializableConstructor, SerializableDefinition,
    SerializableExpression, SerializableField, SerializableImport, SerializableModule,
    SerializablePattern, SerializablePatternArg, SerializablePatternValue,
    SerializableTypeAnnotation, SerializableUnqualifiedImport,
};
use crate::serialize::{
    annotation_exported, annotations_exported, element_exported, numbered_exported,
    pattern_arg_exported, pattern_args_exported, pattern_exported, value_exported,
    values_exported,
};
use crate::serialize_expression::{
    branches_exported, clauses_exported, expression_exported, expressions_exported,
    patterns_described, updates_exported, value_of_node,
};
use crate::text::{opt_text, texts};
use crate::untyped::{
    Annotation, AnnotationNode, RecordConstructor, UnqualifiedImport, UntypedArg, UntypedBranch,
    UntypedClause, UntypedDefinition, UntypedExpr, UntypedModule, UntypedNode, UntypedUpdateArg,
};
use vstd::prelude::*;

verus! {

/// Whether two exported types have the same content.
pub open spec fn same_annotation(
    a: SerializableTypeAnnotation,
    b: SerializableTypeAnnotation,
) -> bool
    decreases a,
{
    &&& a.kind@ == b.kind@
    &&& a.name@ == b.name@
    &&& a.arguments@.len() == b.arguments@.len()
    &&& forall|i: int|
        0 <= i < a.arguments@.len() ==> same_annotation(
            #[trigger] a.arguments@[i],
            b.arguments@[i],
        )
    &&& opt_text(a.module) == opt_text(b.module)
    &&& a.location == b.location
}

/// Whether two exported types, if there are any, have the same content.
pub open spec fn same_optional_annotation(
    a: Option<SerializableTypeAnnotation>,
    b: Option<SerializableTypeAnnotation>,
) -> bool {
    match (a, b) {
        (Some(x), Some(y)) => same_annotation(x, y),
        (None, None) => true,
        _ => false,
    }
}

/// Whether two exported patterns inside patterns have the same content.
pub open spec fn same_pattern_value(
    a: SerializablePatternValue,
    b: SerializablePatternValue,
) -> bool
    decreases a,
{
    match (a, b) {
        (
            SerializablePatternValue::Discard { name: x },
            SerializablePatternValue::Discard { name: y },
        ) => x@ == y@,
        (
            SerializablePatternValue::Variable { name: x },
            SerializablePatternValue::Variable { name: y },
        ) => x@ == y@,
        (
            SerializablePatternValue::Constructor { name: x, arguments: p },
            SerializablePatternValue::Constructor { name: y, arguments: q },
        ) => x@ == y@ && same_pattern_args(p@, q@),
        (
            SerializablePatternValue::Tuple { elements: p },
            SerializablePatternValue::Tuple { elements: q },
        ) => same_pattern_values(p@, q@),
        (
            SerializablePatternValue::List { elements: p, tail: s },
            SerializablePatternValue::List { elements: q, tail: t },
        ) => {
            &&& same_pattern_values(p@, q@)
            &&& match (s, t) {
                (Some(x), Some(y)) => same_pattern_value(*x, *y),
                (None, None) => true,
                _ => false,
            }
        },
        _ => false,
    }
}

/// Whether exported patterns inside patterns have the same content, one by one.
pub open spec fn same_pattern_values(
    a: Seq<SerializablePatternValue>,
    b: Seq<SerializablePatternValue>,
) -> bool
    decreases a,
{
    &&& a.len() == b.len()
    &&& forall|i: int| 0 <= i < a.len() ==> same_pattern_value(#[trigger] a[i], b[i])
}

/// Whether two exported arguments of patterns have the same content.
pub open spec fn same_pattern_arg(a: SerializablePatternArg, b: SerializablePatternArg) -> bool
    decreases a,
{
    &&& opt_text(a.label) == opt_text(b.label)
    &&& same_pattern_value(a.value, b.value)
    &&& a.location == b.location
}

/// Whether exported arguments of patterns have the same content, one by one.
pub open spec fn same_pattern_args(
    a: Seq<SerializablePatternArg>,
    b: Seq<SerializablePatternArg>,
) -> bool
    decreases a,
{
    &&& a.len() == b.len()
    &&& forall|i: int| 0 <= i < a.len() ==> same_pattern_arg(#[trigger] a[i], b[i])
}

/// Whether two exported patterns have the same content.
pub open spec fn same_pattern(a: SerializablePattern, b: SerializablePattern) -> bool {
    &&& a.kind@ == b.kind@
    &&& a.name@ == b.name@
    &&& same_pattern_args(a.arguments@, b.arguments@)
    &&& opt_text(a.module) == opt_text(b.module)
    &&& a.location == b.location
}

/// Whether two values have the same content.
pub open spec fn same_value(a: JsonValue, b: JsonValue) -> bool
    decreases a,
{
    match (a, b) {
        (JsonValue::Text(x), JsonValue::Text(y)) => x@ == y@,
        (JsonValue::Number(x), JsonValue::Number(y)) => x == y,
        (JsonValue::Flag(x), JsonValue::Flag(y)) => x == y,
        (JsonValue::Array(x), JsonValue::Array(y)) => {
            &&& x@.len() == y@.len()
            &&& forall|i: int| 0 <= i < x@.len() ==> same_value(#[trigger] x@[i], y@[i])
        },
        (JsonValue::Object(x), JsonValue::Object(y)) => {
            &&& x@.len() == y@.len()
            &&& forall|i: int|
                0 <= i < x@.len() ==> {
                    &&& (#[trigger] x@[i]).0@ == y@[i].0@
                    &&& same_value(x@[i].1, y@[i].1)
                }
        },
        (JsonValue::Pattern(x), JsonValue::Pattern(y)) => same_pattern(x, y),
        _ => false,
    }
}

/// Whether two exported expressions have the same content.
pub open spec fn same_expression(a: SerializableExpression, b: SerializableExpression) -> bool
    decreases a,
{
    &&& a.kind@ == b.kind@
    &&& match (a.value, b.value) {
        (Some(x), Some(y)) => same_value(x, y),
        (None, None) => true,
        _ => false,
    }
    &&& a.sub_expressions@.len() == b.sub_expressions@.len()
    &&& forall|i: int|
        0 <= i < a.sub_expressions@.len() ==> same_expression(
            #[trigger] a.sub_expressions@[i],
            b.sub_expressions@[i],
        )
    &&& a.location == b.location
}

/// Whether exported expressions have the same content, one by one.
pub open spec fn same_expressions(
    a: Seq<SerializableExpression>,
    b: Seq<SerializableExpression>,
) -> bool {
    &&& a.len() == b.len()
    &&& forall|i: int| 0 <= i < a.len() ==> same_expression(#[trigger] a[i], b[i])
}

/// Whether two optional lists of texts have the same content.
pub open spec fn same_texts(a: Option<Vec<String>>, b: Option<Vec<String>>) -> bool {
    match (a, b) {
        (Some(x), Some(y)) => texts(x@) == texts(y@),
        (None, None) => true,
        _ => false,
    }
}

/// Whether two lists of exported parameters have the same content.
pub open spec fn same_arguments(
    a: Option<Vec<SerializableArgument>>,
    b: Option<Vec<SerializableArgument>>,
) -> bool {
    match (a, b) {
        (Some(x), Some(y)) => {
            &&& x@.len() == y@.len()
            &&& forall|i: int|
                0 <= i < x@.len() ==> {
                    &&& (#[trigger] x@[i]).name@ == y@[i].name@
                    &&& same_optional_annotation(x@[i].annotation, y@[i].annotation)
                }
        },
        (None, None) => true,
        _ => false,
    }
}

/// Whether two exported fields have the same content.
pub open spec fn same_field(a: SerializableField, b: SerializableField) -> bool {
    &&& opt_text(a.name) == opt_text(b.name)
    &&& same_optional_annotation(a.annotation, b.annotation)
}

/// Whether two exported constructors have the same content.
pub open spec fn same_constructor(
    a: SerializableConstructor,
    b: SerializableConstructor,
) -> bool {
    &&& a.name@ == b.name@
    &&& a.fields@.len() == b.fields@.len()
    &&& forall|i: int|
        0 <= i < a.fields@.len() ==> same_field(#[trigger] a.fields@[i], b.fields@[i])
}

/// Whether two lists of exported constructors have the same content.
pub open spec fn same_constructors(
    a: Option<Vec<SerializableConstructor>>,
    b: Option<Vec<SerializableConstructor>>,
) -> bool {
    match (a, b) {
        (Some(x), Some(y)) => {
            &&& x@.len() == y@.len()
            &&& forall|i: int| 0 <= i < x@.len() ==> same_constructor(#[trigger] x@[i], y@[i])
        },
        (None, None) => true,
        _ => false,
    }
}

/// Whether two exported imported names have the same content.
pub open spec fn same_unqualified(
    a: SerializableUnqualifiedImport,
    b: SerializableUnqualifiedImport,
) -> bool {
    &&& a.name@ == b.name@
    &&& opt_text(a.as_name) == opt_text(b.as_name)
    &&& a.location == b.location
}

/// Whether two exported imports have the same content.
pub open spec fn same_import(
    a: Option<SerializableImport>,
    b: Option<SerializableImport>,
) -> bool {
    match (a, b) {
        (Some(x), Some(y)) => {
            &&& texts(x.module@) == texts(y.module@)
            &&& opt_text(x.as_name) == opt_text(y.as_name)
            &&& x.unqualified@.len() == y.unqualified@.len()
            &&& forall|i: int|
                0 <= i < x.unqualified@.len() ==> same_unqualified(
                    #[trigger] x.unqualified@[i],
                    y.unqualified@[i],
                )
        },
        (None, None) => true,
        _ => false,
    }
}

/// Whether two exported bodies have the same content.
pub open spec fn same_body(
    a: Option<SerializableExpression>,
    b: Option<SerializableExpression>,
) -> bool {
    match (a, b) {
        (Some(x), Some(y)) => same_expression(x, y),
        (None, None) => true,
        _ => false,
    }
}

/// Whether two exported definitions have the same content.
pub open spec fn same_definition(
    a: SerializableDefinition,
    b: SerializableDefinition,
) -> bool {
    &&& a.kind@ == b.kind@
    &&& a.name@ == b.name@
    &&& same_arguments(a.function_args, b.function_args)
    &&& same_constructors(a.data_constructors, b.data_constructors)
    &&& same_texts(a.type_parameters, b.type_parameters)
    &&& same_optional_annotation(a.annotation, b.annotation)
    &&& same_import(a.import, b.import)
    &&& same_body(a.body, b.body)
    &&& a.location == b.location
    &&& same_texts(a.doc_comments, b.doc_comments)
}

/// Whether two exported modules have the same content.
pub open spec fn same_module(a: SerializableModule, b: SerializableModule) -> bool {
    &&& a.name@ == b.name@
    &&& a.kind@ == b.kind@
    &&& a.definitions@.len() == b.definitions@.len()
    &&& forall|i: int|
        0 <= i < a.definitions@.len() ==> same_definition(
            #[trigger] a.definitions@[i],
            b.definitions@[i],
        )
    &&& same_texts(a.doc_comments, b.doc_comments)
    &&& a.source_file@ == b.source_file@
}

/// Two exports of the same type have the same content.
pub proof fn law_annotation_export_is_unique(
    e: Annotation,
    a: SerializableTypeAnnotation,
    b: SerializableTypeAnnotation,
)
    requires
        annotation_exported(e, a),
        annotation_exported(e, b),
    ensures
        same_annotation(a, b),
    decreases e,
{
    match e.node {
        AnnotationNode::Constructor { arguments, .. } => {
            lemma_annotations_unique(arguments@, a.arguments@, b.arguments@);
        },
        AnnotationNode::Fn { arguments, .. } => {
            lemma_annotations_unique(arguments@, a.arguments@, b.arguments@);
        },
        AnnotationNode::Tuple { elems } => {
            lemma_annotations_unique(elems@, a.arguments@, b.arguments@);
        },
        _ => {},
    }
}

proof fn lemma_annotations_unique(
    e: Seq<Annotation>,
    a: Seq<SerializableTypeAnnotation>,
    b: Seq<SerializableTypeAnnotation>,
)
    requires
        annotations_exported(e, a),
        annotations_exported(e, b),
    ensures
        a.len() == b.len(),
        forall|i: int| 0 <= i < a.len() ==> same_annotation(#[trigger] a[i], b[i]),
    decreases e,
{
    assert forall|i: int| 0 <= i < a.len() implies same_annotation(#[trigger] a[i], b[i]) by {
        assert(annotation_exported(e[i], a[i]));
        law_annotation_export_is_unique(e[i], a[i], b[i]);
    }
}

proof fn lemma_value_unique(
    p: Pattern,
    a: SerializablePatternValue,
    b: SerializablePatternValue,
)
    requires
        value_exported(p, a),
        value_exported(p, b),
    ensures
        same_pattern_value(a, b),
    decreases p,
{
    match (p, a, b) {
        (
            Pattern::Constructor { arguments, .. },
            SerializablePatternValue::Constructor { arguments: x, .. },
            SerializablePatternValue::Constructor { arguments: y, .. },
        ) => {
            lemma_pattern_args_unique(arguments@, x@, y@);
        },
        (
            Pattern::List { elements, tail, .. },
            SerializablePatternValue::List { elements: x, tail: s },
            SerializablePatternValue::List { elements: y, tail: t },
        ) => {
            lemma_values_unique(elements@, x@, y@);
            if let Some(q) = tail {
                lemma_value_unique(*q, *s.unwrap(), *t.unwrap());
            }
        },
        (
            Pattern::Tuple { elems, .. },
            SerializablePatternValue::Tuple { elements: x },
            SerializablePatternValue::Tuple { elements: y },
        ) => {
            lemma_values_unique(elems@, x@, y@);
        },
        _ => {},
    }
}

proof fn lemma_values_unique(
    p: Seq<Pattern>,
    a: Seq<SerializablePatternValue>,
    b: Seq<SerializablePatternValue>,
)
    requires
        values_exported(p, a),
        values_exported(p, b),
    ensures
        same_pattern_values(a, b),
    decreases p,
{
    assert forall|i: int| 0 <= i < a.len() implies same_pattern_value(#[trigger] a[i], b[i]) by {
        assert(value_exported(p[i], a[i]));
        lemma_value_unique(p[i], a[i], b[i]);
    }
}

proof fn lemma_pattern_args_unique(
    p: Seq<PatternArg>,
    a: Seq<SerializablePatternArg>,
    b: Seq<SerializablePatternArg>,
)
    requires
        pattern_args_exported(p, a),
        pattern_args_exported(p, b),
    ensures
        same_pattern_args(a, b),
    decreases p,
{
    assert forall|i: int| 0 <= i < a.len() implies same_pattern_arg(#[trigger] a[i], b[i]) by {
        assert(pattern_arg_exported(p[i], a[i]));
        assert(pattern_arg_exported(p[i], b[i]));
        lemma_value_unique(p[i].value, a[i].value, b[i].value);
    }
}

/// Two exports of the same pattern have the same content.
pub proof fn law_pattern_export_is_unique(
    p: Pattern,
    a: SerializablePattern,
    b: SerializablePattern,
)
    requires
        pattern_exported(p, a),
        pattern_exported(p, b),
    ensures
        same_pattern(a, b),
{
    match p {
        Pattern::Constructor { arguments, .. } => {
            lemma_pattern_args_unique(arguments@, a.arguments@, b.arguments@);
        },
        Pattern::List { elements, .. } => {
            lemma_numbered_unique(elements@, a.arguments@, b.arguments@);
        },
        Pattern::Tuple { elems, .. } => {
            lemma_numbered_unique(elems@, a.arguments@, b.arguments@);
        },
        _ => {},
    }
}

proof fn lemma_numbered_unique(
    p: Seq<Pattern>,
    a: Seq<SerializablePatternArg>,
    b: Seq<SerializablePatternArg>,
)
    requires
        numbered_exported(p, a),
        numbered_exported(p, b),
    ensures
        same_pattern_args(a, b),
{
    assert forall|i: int| 0 <= i < a.len() implies same_pattern_arg(#[trigger] a[i], b[i]) by {
        assert(element_exported(p[i], i as nat, a[i]));
        assert(element_exported(p[i], i as nat, b[i]));
        lemma_value_unique(p[i], a[i].value, b[i].value);
    }
}

proof fn lemma_node_value_unique(node: UntypedNode, a: Option<JsonValue>, b: Option<JsonValue>)
    requires
        value_of_node(node, a),
        value_of_node(node, b),
    ensures
        match (a, b) {
            (Some(x), Some(y)) => same_value(x, y),
            (None, None) => true,
            _ => false,
        },
{
    reveal_with_fuel(same_value, 2);
    match node {
        UntypedNode::Assignment { pattern, .. } => {
            if let (Some(JsonValue::Object(x)), Some(JsonValue::Object(y))) = (a, b) {
                if let (JsonValue::Pattern(p), JsonValue::Pattern(q)) = (x@[1].1, y@[1].1) {
                    law_pattern_export_is_unique(pattern, p, q);
                }
                assert forall|i: int| 0 <= i < x@.len() implies {
                    &&& (#[trigger] x@[i]).0@ == y@[i].0@
                    &&& same_value(x@[i].1, y@[i].1)
                } by {
                    assert(i == 0 || i == 1);
                }
            }
        },
        _ => {},
    }
}

/// Two exports of the same expression have the same content.
pub proof fn law_expression_export_is_unique(
    e: UntypedExpr,
    a: SerializableExpression,
    b: SerializableExpression,
)
    requires
        expression_exported(e, a),
        expression_exported(e, b),
    ensures
        same_expression(a, b),
    decreases e, 1nat,
{
    lemma_node_value_unique(e.node, a.value, b.value);
    lemma_parts_unique(e, a, b);
}

proof fn lemma_parts_unique(
    e: UntypedExpr,
    a: SerializableExpression,
    b: SerializableExpression,
)
    requires
        expression_exported(e, a),
        expression_exported(e, b),
    ensures
        same_expressions(a.sub_expressions@, b.sub_expressions@),
    decreases e, 0nat,
{
    let s = a.sub_expressions@;
    let t = b.sub_expressions@;
    match e.node {
        UntypedNode::Call { fun, arguments } => {
            law_expression_export_is_unique(*fun, s[0], t[0]);
            lemma_expressions_unique(arguments@, s.skip(1), t.skip(1));
            lemma_same_behind(s, t, 1);
        },
        UntypedNode::If { branches, final_else } => {
            lemma_branches_unique(branches@, s.drop_last(), t.drop_last());
            law_expression_export_is_unique(*final_else, s.last(), t.last());
            lemma_same_before(s, t);
        },
        UntypedNode::BinOp { left, right, .. } => {
            law_expression_export_is_unique(*left, s[0], t[0]);
            law_expression_export_is_unique(*right, s[1], t[1]);
        },
        UntypedNode::Assignment { value, .. } => {
            law_expression_export_is_unique(*value, s[0], t[0]);
        },
        UntypedNode::List { elements, tail } => match tail {
            Some(last) => {
                lemma_expressions_unique(elements@, s.drop_last(), t.drop_last());
                law_expression_export_is_unique(*last, s.last(), t.last());
                lemma_same_before(s, t);
            },
            None => {
                lemma_expressions_unique(elements@, s, t);
            },
        },
        UntypedNode::Tuple { elems } => {
            lemma_expressions_unique(elems@, s, t);
        },
        UntypedNode::FieldAccess { container, .. } => {
            law_expression_export_is_unique(*container, s[0], t[0]);
        },
        UntypedNode::Sequence { expressions } => {
            lemma_expressions_unique(expressions@, s, t);
        },
        UntypedNode::When { subject, clauses } => {
            law_expression_export_is_unique(*subject, s[0], t[0]);
            lemma_clauses_unique(clauses@, s.skip(1), t.skip(1));
            lemma_same_behind(s, t, 1);
        },
        UntypedNode::Fn { body, .. } => {
            law_expression_export_is_unique(*body, s[0], t[0]);
        },
        UntypedNode::TraceIfFalse { value } => {
            law_expression_export_is_unique(*value, s[0], t[0]);
        },
        UntypedNode::Trace { text, continuation, .. } => {
            law_expression_export_is_unique(*text, s[0], t[0]);
            law_expression_export_is_unique(*continuation, s[1], t[1]);
        },
        UntypedNode::UnOp { value, .. } => {
            law_expression_export_is_unique(*value, s[0], t[0]);
        },
        UntypedNode::TupleIndex { tuple, .. } => {
            law_expression_export_is_unique(*tuple, s[0], t[0]);
        },
        UntypedNode::PipeLine { first, rest, .. } => {
            law_expression_export_is_unique(*first, s[0], t[0]);
            lemma_expressions_unique(rest@, s.skip(1), t.skip(1));
            lemma_same_behind(s, t, 1);
        },
        UntypedNode::RecordUpdate { constructor, spread, arguments, .. } => {
            law_expression_export_is_unique(*constructor, s[0], t[0]);
            law_expression_export_is_unique(
                *spread,
                s[1].sub_expressions@[0],
                t[1].sub_expressions@[0],
            );
            assert(same_expression(s[1], t[1]));
            lemma_updates_unique(arguments@, s.skip(2), t.skip(2));
            lemma_same_behind(s, t, 2);
        },
        UntypedNode::LogicalOpChain { expressions, .. } => {
            lemma_expressions_unique(expressions@, s, t);
        },
        _ => {},
    }
}

proof fn lemma_same_behind(
    s: Seq<SerializableExpression>,
    t: Seq<SerializableExpression>,
    n: int,
)
    requires
        0 <= n <= s.len(),
        n <= t.len(),
        same_expressions(s.skip(n), t.skip(n)),
        forall|i: int| 0 <= i < n ==> same_expression(#[trigger] s[i], t[i]),
    ensures
        same_expressions(s, t),
{
    assert(s.skip(n).len() == t.skip(n).len());
    assert forall|i: int| 0 <= i < s.len() implies same_expression(#[trigger] s[i], t[i]) by {
        if i >= n {
            assert(s.skip(n)[i - n] == s[i]);
            assert(t.skip(n)[i - n] == t[i]);
        }
    }
}

proof fn lemma_same_before(s: Seq<SerializableExpression>, t: Seq<SerializableExpression>)
    requires
        s.len() > 0,
        t.len() > 0,
        same_expressions(s.drop_last(), t.drop_last()),
        same_expression(s.last(), t.last()),
    ensures
        same_expressions(s, t),
{
    assert(s.drop_last().len() == t.drop_last().len());
    assert forall|i: int| 0 <= i < s.len() implies same_expression(#[trigger] s[i], t[i]) by {
        if i < s.len() - 1 {
            assert(s.drop_last()[i] == s[i]);
            assert(t.drop_last()[i] == t[i]);
        }
    }
}

proof fn lemma_expressions_unique(
    e: Seq<UntypedExpr>,
    a: Seq<SerializableExpression>,
    b: Seq<SerializableExpression>,
)
    requires
        expressions_exported(e, a),
        expressions_exported(e, b),
    ensures
        same_expressions(a, b),
    decreases e, 0nat,
{
    assert forall|i: int| 0 <= i < a.len() implies same_expression(#[trigger] a[i], b[i]) by {
        assert(expression_exported(e[i], a[i]));
        law_expression_export_is_unique(e[i], a[i], b[i]);
    }
}

proof fn lemma_branches_unique(
    e: Seq<UntypedBranch>,
    a: Seq<SerializableExpression>,
    b: Seq<SerializableExpression>,
)
    requires
        branches_exported(e, a),
        branches_exported(e, b),
    ensures
        same_expressions(a, b),
    decreases e, 0nat,
{
    assert forall|i: int| 0 <= i < a.len() implies same_expression(#[trigger] a[i], b[i]) by {
        let k = i / 2;
        assert(decreases_to!(e => e[k]));
        if i % 2 == 0 {
            assert(expression_exported(e[k].condition, a[2 * k]));
            law_expression_export_is_unique(e[k].condition, a[2 * k], b[2 * k]);
        } else {
            assert(expression_exported(e[k].body, a[2 * k + 1]));
            law_expression_export_is_unique(e[k].body, a[2 * k + 1], b[2 * k + 1]);
        }
    }
}

proof fn lemma_clauses_unique(
    e: Seq<UntypedClause>,
    a: Seq<SerializableExpression>,
    b: Seq<SerializableExpression>,
)
    requires
        clauses_exported(e, a),
        clauses_exported(e, b),
    ensures
        same_expressions(a, b),
    decreases e, 0nat,
{
    assert forall|i: int| 0 <= i < a.len() implies same_expression(#[trigger] a[i], b[i]) by {
        let k = i / 2;
        assert(decreases_to!(e => e[k]));
        if i % 2 == 0 {
            assert(patterns_described(e[k], a[2 * k]));
        } else {
            assert(expression_exported(e[k].body, a[2 * k + 1]));
            law_expression_export_is_unique(e[k].body, a[2 * k + 1], b[2 * k + 1]);
        }
    }
}

proof fn lemma_updates_unique(
    e: Seq<UntypedUpdateArg>,
    a: Seq<SerializableExpression>,
    b: Seq<SerializableExpression>,
)
    requires
        updates_exported(e, a),
        updates_exported(e, b),
    ensures
        same_expressions(a, b),
    decreases e, 0nat,
{
    assert forall|i: int| 0 <= i < a.len() implies same_expression(#[trigger] a[i], b[i]) by {
        assert(decreases_to!(e => e[i]));
        assert(expression_exported(e[i].value, a[i].sub_expressions@[0]));
        law_expression_export_is_unique(
            e[i].value,
            a[i].sub_expressions@[0],
            b[i].sub_expressions@[0],
        );
    }
}

proof fn lemma_optional_annotation_unique(
    e: Option<Annotation>,
    a: Option<SerializableTypeAnnotation>,
    b: Option<SerializableTypeAnnotation>,
)
    requires
        optional_annotation_exported(e, a),
        optional_annotation_exported(e, b),
    ensures
        same_optional_annotation(a, b),
{
    if let Some(x) = e {
        law_annotation_export_is_unique(x, a.unwrap(), b.unwrap());
    }
}

proof fn lemma_arguments_unique(
    e: Seq<UntypedArg>,
    a: Option<Vec<SerializableArgument>>,
    b: Option<Vec<SerializableArgument>>,
)
    requires
        arguments_exported(e, a),
        arguments_exported(e, b),
    ensures
        same_arguments(a, b),
{
    let x = a.unwrap()@;
    let y = b.unwrap()@;
    assert forall|i: int| 0 <= i < x.len() implies {
        &&& (#[trigger] x[i]).name@ == y[i].name@
        &&& same_optional_annotation(x[i].annotation, y[i].annotation)
    } by {
        assert(argument_exported(e[i], x[i]));
        assert(argument_exported(e[i], y[i]));
        lemma_optional_annotation_unique(e[i].annotation, x[i].annotation, y[i].annotation);
    }
}

proof fn lemma_constructors_unique(
    e: Seq<RecordConstructor>,
    a: Option<Vec<SerializableConstructor>>,
    b: Option<Vec<SerializableConstructor>>,
)
    requires
        constructors_exported(e, a),
        constructors_exported(e, b),
    ensures
        same_constructors(a, b),
{
    let x = a.unwrap()@;
    let y = b.unwrap()@;
    assert forall|i: int| 0 <= i < x.len() implies same_constructor(#[trigger] x[i], y[i]) by {
        assert(constructor_exported(e[i], x[i]));
        assert(constructor_exported(e[i], y[i]));
        let f = e[i].arguments@;
        assert forall|k: int| 0 <= k < x[i].fields@.len() implies same_field(
            #[trigger] x[i].fields@[k],
            y[i].fields@[k],
        ) by {
            assert(field_exported(f[k], x[i].fields@[k]));
            assert(field_exported(f[k], y[i].fields@[k]));
            law_annotation_export_is_unique(
                f[k].annotation,
                x[i].fields@[k].annotation.unwrap(),
                y[i].fields@[k].annotation.unwrap(),
            );
        }
    }
}

proof fn lemma_import_unique(
    module: Seq<String>,
    as_name: Option<String>,
    e: Seq<UnqualifiedImport>,
    a: Option<SerializableImport>,
    b: Option<SerializableImport>,
)
    requires
        import_exported(module, as_name, e, a),
        import_exported(module, as_name, e, b),
    ensures
        same_import(a, b),
{
    let x = a.unwrap().unqualified@;
    let y = b.unwrap().unqualified@;
    assert forall|i: int| 0 <= i < x.len() implies same_unqualified(#[trigger] x[i], y[i]) by {
        assert(unqualified_exported(e[i], x[i]));
        assert(unqualified_exported(e[i], y[i]));
    }
}

proof fn lemma_body_unique(
    e: UntypedExpr,
    detailed: bool,
    a: Option<SerializableExpression>,
    b: Option<SerializableExpression>,
)
    requires
        body_exported(e, detailed, a),
        body_exported(e, detailed, b),
    ensures
        same_body(a, b),
{
    if detailed {
        law_expression_export_is_unique(e, a.unwrap(), b.unwrap());
    }
}

/// Two exports of the same definition, with the same detail, have the same content.
pub proof fn law_definition_export_is_unique(
    d: UntypedDefinition,
    detailed: bool,
    a: SerializableDefinition,
    b: SerializableDefinition,
)
    requires
        definition_exported(d, detailed, a),
        definition_exported(d, detailed, b),
    ensures
        same_definition(a, b),
{
    match d {
        UntypedDefinition::Fn(f) => {
            lemma_arguments_unique(f.arguments@, a.function_args, b.function_args);
            lemma_body_unique(f.body, detailed, a.body, b.body);
        },
        UntypedDefinition::Test(f) => {
            lemma_arguments_unique(f.arguments@, a.function_args, b.function_args);
            lemma_body_unique(f.body, detailed, a.body, b.body);
        },
        UntypedDefinition::Validator { fun, .. } => {
            lemma_arguments_unique(fun.arguments@, a.function_args, b.function_args);
            lemma_body_unique(fun.body, detailed, a.body, b.body);
        },
        UntypedDefinition::DataType { constructors, .. } => {
            lemma_constructors_unique(
                constructors@,
                a.data_constructors,
                b.data_constructors,
            );
        },
        UntypedDefinition::TypeAlias { annotation, .. } => {
            law_annotation_export_is_unique(
                annotation,
                a.annotation.unwrap(),
                b.annotation.unwrap(),
            );
        },
        UntypedDefinition::ModuleConstant { annotation, value, .. } => {
            lemma_optional_annotation_unique(annotation, a.annotation, b.annotation);
            lemma_body_unique(value, detailed, a.body, b.body);
        },
        UntypedDefinition::Use { module, as_name, unqualified, .. } => {
            lemma_import_unique(module@, as_name, unqualified@, a.import, b.import);
        },
    }
}

/// Each module is exported on its own: two exports of the same module, from the same path and
/// with the same detail, have the same content, whatever else was exported.
pub proof fn law_module_export_is_unique(
    m: UntypedModule,
    path: Seq<char>,
    detailed: bool,
    a: SerializableModule,
    b: SerializableModule,
)
    requires
        module_exported(m, path, detailed, a),
        module_exported(m, path, detailed, b),
    ensures
        same_module(a, b),
{
    assert forall|i: int| 0 <= i < a.definitions@.len() implies same_definition(
        #[trigger] a.definitions@[i],
        b.definitions@[i],
    ) by {
        assert(definition_exported(m.definitions@[i], detailed, a.definitions@[i]));
        assert(definition_exported(m.definitions@[i], detailed, b.definitions@[i]));
        law_definition_export_is_unique(
            m.definitions@[i],
            detailed,
            a.definitions@[i],
            b.definitions@[i],
        );
    }
}

} // verus!
