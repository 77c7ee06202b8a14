//! The export of types and patterns.
use crate::ast::{Pattern, PatternArg};
use crate::serializable::{
    SerializablePattern, SerializablePatternArg, SerializablePatternValue,
    SerializableTypeAnnotation,
};
use crate::text::{concat2, decimal, decimal_text, opt_text};
use crate::untyped::{Annotation, AnnotationNode};
use vstd::prelude::*;

verus! {

/// A copy of an optional text.
pub fn copy_text(s: &Option<String>) -> (r: Option<String>)
    ensures
        opt_text(r) == opt_text(*s),
{
    match s {
        Some(t) => Some(t.clone()),
        None => None,
    }
}

/// Whether `r` is the export of the type `a`.
pub open spec fn annotation_exported(a: Annotation, r: SerializableTypeAnnotation) -> bool
    decreases a,
{
    &&& r.location == a.location
    &&& match a.node {
        AnnotationNode::Constructor { name, arguments, module } => {
            &&& r.kind@ == "Constructor"@
            &&& r.name@ == name@
            &&& annotations_exported(arguments@, r.arguments@)
            &&& opt_text(r.module) == opt_text(module)
        },
        AnnotationNode::Fn { arguments, ret } => {
            &&& r.kind@ == "Function"@
            &&& r.name@ == "fn"@
            &&& annotations_exported(arguments@, r.arguments@)
            &&& r.module is None
        },
        AnnotationNode::Var { name } => {
            &&& r.kind@ == "Variable"@
            &&& r.name@ == name@
            &&& r.arguments@.len() == 0
            &&& r.module is None
        },
        AnnotationNode::Hole { name } => {
            &&& r.kind@ == "Hole"@
            &&& r.name@ == name@
            &&& r.arguments@.len() == 0
            &&& r.module is None
        },
        AnnotationNode::Tuple { elems } => {
            &&& r.kind@ == "Tuple"@
            &&& r.name@ == "Tuple"@
            &&& annotations_exported(elems@, r.arguments@)
            &&& r.module is None
        },
    }
}

/// Whether `r` holds the exports of the types `a`, in order.
pub open spec fn annotations_exported(
    a: Seq<Annotation>,
    r: Seq<SerializableTypeAnnotation>,
) -> bool
    decreases a,
{
    &&& r.len() == a.len()
    &&& forall|i: int| 0 <= i < a.len() ==> annotation_exported(#[trigger] a[i], r[i])
}

/// The export of a written type. The result of a function type is left out.
pub fn serialize_annotation(annotation: &Annotation) -> (r: SerializableTypeAnnotation)
    ensures
        annotation_exported(*annotation, r),
    decreases annotation, 1nat,
{
    let location = annotation.location;
    match &annotation.node {
        AnnotationNode::Constructor { name, arguments, module } => SerializableTypeAnnotation {
            kind: "Constructor".to_owned(),
            name: name.clone(),
            arguments: serialize_annotations(arguments, Ghost(*annotation)),
            module: copy_text(module),
            location,
        },
        AnnotationNode::Fn { arguments, .. } => SerializableTypeAnnotation {
            kind: "Function".to_owned(),
            name: "fn".to_owned(),
            arguments: serialize_annotations(arguments, Ghost(*annotation)),
            module: None,
            location,
        },
        AnnotationNode::Var { name } => SerializableTypeAnnotation {
            kind: "Variable".to_owned(),
            name: name.clone(),
            arguments: Vec::new(),
            module: None,
            location,
        },
        AnnotationNode::Hole { name } => SerializableTypeAnnotation {
            kind: "Hole".to_owned(),
            name: name.clone(),
            arguments: Vec::new(),
            module: None,
            location,
        },
        AnnotationNode::Tuple { elems } => SerializableTypeAnnotation {
            kind: "Tuple".to_owned(),
            name: "Tuple".to_owned(),
            arguments: serialize_annotations(elems, Ghost(*annotation)),
            module: None,
            location,
        },
    }
}

/// The exports of types that stand inside `whole`.
fn serialize_annotations(annotations: &Vec<Annotation>, whole: Ghost<Annotation>) -> (r: Vec<
    SerializableTypeAnnotation,
>)
    requires
        forall|k: int|
            0 <= k < annotations@.len() ==> decreases_to!(whole@ => #[trigger] annotations@[k]),
    ensures
        annotations_exported(annotations@, r@),
    decreases whole@, 0nat,
{
    let mut r: Vec<SerializableTypeAnnotation> = Vec::new();
    let mut i: usize = 0;
    while i < annotations.len()
        invariant
            i <= annotations.len(),
            r.len() == i,
            forall|k: int|
                0 <= k < annotations@.len() ==> decreases_to!(whole@ =>
                    #[trigger] annotations@[k]),
            forall|k: int| 0 <= k < i ==> annotation_exported(#[trigger] annotations@[k], r@[k]),
        decreases annotations.len() - i,
    {
        r.push(serialize_annotation(&annotations[i]));
        i = i + 1;
    }
    r
}

/// Whether `r` is the export of a pattern inside a pattern.
pub open spec fn value_exported(p: Pattern, r: SerializablePatternValue) -> bool
    decreases p,
{
    match (p, r) {
        (
            Pattern::Constructor { name, arguments, .. },
            SerializablePatternValue::Constructor { name: n, arguments: a },
        ) => n@ == name@ && pattern_args_exported(arguments@, a@),
        (Pattern::Var { name, .. }, SerializablePatternValue::Variable { name: n }) => n@ == name@,
        (Pattern::Discard { name, .. }, SerializablePatternValue::Discard { name: n }) => n@
            == name@,
        (
            Pattern::List { elements, tail, .. },
            SerializablePatternValue::List { elements: e, tail: t },
        ) => {
            &&& values_exported(elements@, e@)
            &&& match (tail, t) {
                (Some(x), Some(y)) => value_exported(*x, *y),
                (None, None) => true,
                _ => false,
            }
        },
        (Pattern::Tuple { elems, .. }, SerializablePatternValue::Tuple { elements: e }) =>
            values_exported(elems@, e@),
        (Pattern::Other { debug, .. }, SerializablePatternValue::Variable { name: n }) => n@
            == "Unsupported_"@ + debug@,
        _ => false,
    }
}

/// Whether `r` holds the exports of patterns inside a pattern, in order.
pub open spec fn values_exported(p: Seq<Pattern>, r: Seq<SerializablePatternValue>) -> bool
    decreases p,
{
    &&& r.len() == p.len()
    &&& forall|i: int| 0 <= i < p.len() ==> value_exported(#[trigger] p[i], r[i])
}

/// Whether `r` is the export of an argument of a pattern.
pub open spec fn pattern_arg_exported(p: PatternArg, r: SerializablePatternArg) -> bool
    decreases p,
{
    &&& opt_text(r.label) == opt_text(p.label)
    &&& value_exported(p.value, r.value)
    &&& r.location == p.location
}

/// Whether `r` holds the exports of arguments of a pattern, in order.
pub open spec fn pattern_args_exported(p: Seq<PatternArg>, r: Seq<SerializablePatternArg>) -> bool
    decreases p,
{
    &&& r.len() == p.len()
    &&& forall|i: int| 0 <= i < p.len() ==> pattern_arg_exported(#[trigger] p[i], r[i])
}

/// Whether `r` is the export of the element `p` at place `i` of a list or tuple pattern.
pub open spec fn element_exported(p: Pattern, i: nat, r: SerializablePatternArg) -> bool {
    &&& opt_text(r.label) == Some(decimal(i))
    &&& value_exported(p, r.value)
    &&& r.location == p.span()
}

/// Whether `r` holds the exports of the elements of a list or tuple pattern, each labelled
/// with its place.
pub open spec fn numbered_exported(p: Seq<Pattern>, r: Seq<SerializablePatternArg>) -> bool {
    &&& r.len() == p.len()
    &&& forall|i: int| 0 <= i < p.len() ==> element_exported(#[trigger] p[i], i as nat, r[i])
}

/// Whether `r` is the export of a pattern. The tail of a list is left out.
pub open spec fn pattern_exported(p: Pattern, r: SerializablePattern) -> bool {
    &&& r.location == p.span()
    &&& match p {
        Pattern::Constructor { name, arguments, module, .. } => {
            &&& r.kind@ == "Constructor"@
            &&& r.name@ == name@
            &&& pattern_args_exported(arguments@, r.arguments@)
            &&& opt_text(r.module) == opt_text(module)
        },
        Pattern::Var { name, .. } => {
            &&& r.kind@ == "Variable"@
            &&& r.name@ == name@
            &&& r.arguments@.len() == 0
            &&& r.module is None
        },
        Pattern::Discard { name, .. } => {
            &&& r.kind@ == "Discard"@
            &&& r.name@ == name@
            &&& r.arguments@.len() == 0
            &&& r.module is None
        },
        Pattern::List { elements, .. } => {
            &&& r.kind@ == "List"@
            &&& r.name@ == "List"@
            &&& numbered_exported(elements@, r.arguments@)
            &&& r.module is None
        },
        Pattern::Tuple { elems, .. } => {
            &&& r.kind@ == "Tuple"@
            &&& r.name@ == "Tuple"@
            &&& numbered_exported(elems@, r.arguments@)
            &&& r.module is None
        },
        Pattern::Other { debug, .. } => {
            &&& r.kind@ == "Other"@
            &&& r.name@ == debug@
            &&& r.arguments@.len() == 0
            &&& r.module is None
        },
    }
}

/// The export of a pattern inside a pattern.
pub fn serialize_pattern_value(pattern: &Pattern) -> (r: SerializablePatternValue)
    ensures
        value_exported(*pattern, r),
    decreases pattern, 1nat,
{
    match pattern {
        Pattern::Constructor { name, arguments, .. } => SerializablePatternValue::Constructor {
            name: name.clone(),
            arguments: serialize_pattern_args(arguments, Ghost(*pattern)),
        },
        Pattern::Var { name, .. } => SerializablePatternValue::Variable { name: name.clone() },
        Pattern::Discard { name, .. } => SerializablePatternValue::Discard { name: name.clone() },
        Pattern::List { elements, tail, .. } => {
            let elements = serialize_pattern_values(elements, Ghost(*pattern));
            let tail = match tail {
                Some(t) => Some(Box::new(serialize_pattern_value(t))),
                None => None,
            };
            SerializablePatternValue::List { elements, tail }
        },
        Pattern::Tuple { elems, .. } => SerializablePatternValue::Tuple {
            elements: serialize_pattern_values(elems, Ghost(*pattern)),
        },
        Pattern::Other { debug, .. } => SerializablePatternValue::Variable {
            name: concat2("Unsupported_", debug.as_str()),
        },
    }
}

/// The exports of patterns that stand inside `whole`.
fn serialize_pattern_values(patterns: &Vec<Pattern>, whole: Ghost<Pattern>) -> (r: Vec<
    SerializablePatternValue,
>)
    requires
        forall|k: int|
            0 <= k < patterns@.len() ==> decreases_to!(whole@ => #[trigger] patterns@[k]),
    ensures
        values_exported(patterns@, r@),
    decreases whole@, 0nat,
{
    let mut r: Vec<SerializablePatternValue> = Vec::new();
    let mut i: usize = 0;
    while i < patterns.len()
        invariant
            i <= patterns.len(),
            r.len() == i,
            forall|k: int|
                0 <= k < patterns@.len() ==> decreases_to!(whole@ => #[trigger] patterns@[k]),
            forall|k: int| 0 <= k < i ==> value_exported(#[trigger] patterns@[k], r@[k]),
        decreases patterns.len() - i,
    {
        r.push(serialize_pattern_value(&patterns[i]));
        i = i + 1;
    }
    r
}

/// The exports of arguments that stand inside the pattern `whole`.
fn serialize_pattern_args(args: &Vec<PatternArg>, whole: Ghost<Pattern>) -> (r: Vec<
    SerializablePatternArg,
>)
    requires
        forall|k: int|
            0 <= k < args@.len() ==> decreases_to!(whole@ => #[trigger] args@[k]),
    ensures
        pattern_args_exported(args@, r@),
    decreases whole@, 0nat,
{
    let mut r: Vec<SerializablePatternArg> = Vec::new();
    let mut i: usize = 0;
    while i < args.len()
        invariant
            i <= args.len(),
            r.len() == i,
            forall|k: int|
                0 <= k < args@.len() ==> decreases_to!(whole@ => #[trigger] args@[k]),
            forall|k: int| 0 <= k < i ==> pattern_arg_exported(#[trigger] args@[k], r@[k]),
        decreases args.len() - i,
    {
        r.push(serialize_pattern_arg(&args[i]));
        i = i + 1;
    }
    r
}

/// The export of an argument of a pattern.
pub fn serialize_pattern_arg(arg: &PatternArg) -> (r: SerializablePatternArg)
    ensures
        pattern_arg_exported(*arg, r),
    decreases arg, 2nat,
{
    SerializablePatternArg {
        label: copy_text(&arg.label),
        value: serialize_pattern_value(&arg.value),
        location: arg.location,
    }
}

/// The exports of the elements of a list or tuple pattern, each labelled with its place.
fn serialize_numbered(patterns: &Vec<Pattern>) -> (r: Vec<SerializablePatternArg>)
    ensures
        numbered_exported(patterns@, r@),
{
    let mut r: Vec<SerializablePatternArg> = Vec::new();
    let mut i: usize = 0;
    while i < patterns.len()
        invariant
            i <= patterns.len(),
            r.len() == i,
            forall|k: int|
                0 <= k < i ==> element_exported(#[trigger] patterns@[k], k as nat, r@[k]),
        decreases patterns.len() - i,
    {
        r.push(
            SerializablePatternArg {
                label: Some(decimal_text(i)),
                value: serialize_pattern_value(&patterns[i]),
                location: patterns[i].location(),
            },
        );
        i = i + 1;
    }
    r
}

/// The export of a pattern.
pub fn serialize_pattern(pattern: &Pattern) -> (r: SerializablePattern)
    ensures
        pattern_exported(*pattern, r),
{
    let location = pattern.location();
    match pattern {
        Pattern::Constructor { name, arguments, module, .. } => SerializablePattern {
            kind: "Constructor".to_owned(),
            name: name.clone(),
            arguments: serialize_pattern_args(arguments, Ghost(*pattern)),
            module: copy_text(module),
            location,
        },
        Pattern::Var { name, .. } => SerializablePattern {
            kind: "Variable".to_owned(),
            name: name.clone(),
            arguments: Vec::new(),
            module: None,
            location,
        },
        Pattern::Discard { name, .. } => SerializablePattern {
            kind: "Discard".to_owned(),
            name: name.clone(),
            arguments: Vec::new(),
            module: None,
            location,
        },
        Pattern::List { elements, .. } => SerializablePattern {
            kind: "List".to_owned(),
            name: "List".to_owned(),
            arguments: serialize_numbered(elements),
            module: None,
            location,
        },
        Pattern::Tuple { elems, .. } => SerializablePattern {
            kind: "Tuple".to_owned(),
            name: "Tuple".to_owned(),
            arguments: serialize_numbered(elems),
            module: None,
            location,
        },
        Pattern::Other { debug, .. } => SerializablePattern {
            kind: "Other".to_owned(),
            name: debug.clone(),
            arguments: Vec::new(),
            module: None,
            location,
        },
    }
}

} // verus!
