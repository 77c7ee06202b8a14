use aiken::ast::{AssignmentKind, BinOp, ModuleKind, Pattern, PatternArg, Span};
use aiken::export_ast::convert_to_serializable_module;
use aiken::serializable::{
    JsonValue, SerializableDefinition, SerializableExpression, SerializablePatternValue,
};
use aiken::serialize::{
    serialize_annotation, serialize_pattern, serialize_pattern_arg, serialize_pattern_value,
};
use aiken::serialize_expression::serialize_expression;
use aiken::untyped::{
    Annotation, AnnotationNode, ArgName, LogicalOpChainKind, RecordConstructor, RecordField,
    TraceKind, UnOp, UnqualifiedImport, UntypedArg, UntypedBranch, UntypedClause,
    UntypedDefinition, UntypedExpr, UntypedFunction, UntypedModule, UntypedNode, UntypedUpdateArg,
};

fn span(start: usize, end: usize) -> Span {
    Span { start, end }
}

fn at(start: usize, end: usize, node: UntypedNode) -> UntypedExpr {
    UntypedExpr { location: span(start, end), node }
}

fn uint(start: usize, value: &str) -> UntypedExpr {
    at(start, start + 1, UntypedNode::UInt { value: value.to_string() })
}

fn var(start: usize, name: &str) -> UntypedExpr {
    at(start, start + 1, UntypedNode::Var { name: name.to_string() })
}

fn text_of(value: &Option<JsonValue>) -> &str {
    match value {
        Some(JsonValue::Text(s)) => s,
        _ => panic!("no text"),
    }
}

fn kinds(e: &SerializableExpression) -> Vec<&str> {
    e.sub_expressions.iter().map(|s| s.kind.as_str()).collect()
}

#[test]
fn literals() {
    let r = serialize_expression(&uint(3, "42"));
    assert_eq!(r.kind, "Integer");
    assert_eq!(text_of(&r.value), "42");
    assert!(r.sub_expressions.is_empty());
    assert_eq!(r.location, span(3, 4));

    let r = serialize_expression(&at(0, 4, UntypedNode::Text { value: "hi".to_string() }));
    assert_eq!(r.kind, "String");
    assert_eq!(text_of(&r.value), "hi");

    let r = serialize_expression(&var(7, "x"));
    assert_eq!(r.kind, "Variable");
    assert_eq!(text_of(&r.value), "x");

    let r = serialize_expression(&at(1, 2, UntypedNode::ErrorTerm));
    assert_eq!(r.kind, "ErrorTerm");
    assert!(r.value.is_none());
}

#[test]
fn bytes_are_written_in_lowercase_hexadecimal() {
    let bytes = vec![0x00, 0x0f, 0xa5, 0xff];
    let r = serialize_expression(&at(0, 9, UntypedNode::ByteArray { bytes }));
    assert_eq!(r.kind, "ByteArray");
    assert_eq!(text_of(&r.value), "000fa5ff");
    let r = serialize_expression(&at(0, 9, UntypedNode::ByteArray { bytes: vec![] }));
    assert_eq!(text_of(&r.value), "");
}

#[test]
fn a_call_holds_the_function_and_its_arguments() {
    let r = serialize_expression(&at(
        0,
        9,
        UntypedNode::Call { fun: Box::new(var(0, "f")), arguments: vec![uint(2, "1"), var(5, "y")] },
    ));
    assert_eq!(r.kind, "FunctionCall");
    assert!(r.value.is_none());
    assert_eq!(kinds(&r), vec!["Variable", "Integer", "Variable"]);
}

#[test]
fn an_if_holds_conditions_and_bodies_in_turn() {
    let r = serialize_expression(&at(
        0,
        20,
        UntypedNode::If {
            branches: vec![
                UntypedBranch { condition: var(1, "a"), body: uint(2, "1") },
                UntypedBranch { condition: var(3, "b"), body: uint(4, "2") },
            ],
            final_else: Box::new(uint(5, "3")),
        },
    ));
    assert_eq!(r.kind, "IfExpression");
    assert_eq!(kinds(&r), vec!["Variable", "Integer", "Variable", "Integer", "Integer"]);
    assert_eq!(text_of(&r.sub_expressions[3].value), "2");
    assert_eq!(text_of(&r.sub_expressions[4].value), "3");
}

#[test]
fn operators_are_named() {
    let r = serialize_expression(&at(
        0,
        3,
        UntypedNode::BinOp {
            op: BinOp::LtEqInt,
            left: Box::new(uint(0, "1")),
            right: Box::new(uint(2, "2")),
        },
    ));
    assert_eq!(r.kind, "BinaryOperation");
    assert_eq!(text_of(&r.value), "LtEqInt");
    assert_eq!(kinds(&r), vec!["Integer", "Integer"]);

    let r = serialize_expression(&at(
        0,
        3,
        UntypedNode::UnOp { op: UnOp::Negate, value: Box::new(uint(1, "1")) },
    ));
    assert_eq!(r.kind, "UnaryOperation");
    assert_eq!(text_of(&r.value), "Negate");

    let r = serialize_expression(&at(
        0,
        3,
        UntypedNode::LogicalOpChain {
            kind: LogicalOpChainKind::Or,
            expressions: vec![var(0, "a"), var(1, "b"), var(2, "c")],
        },
    ));
    assert_eq!(r.kind, "LogicalOpChain");
    assert_eq!(text_of(&r.value), "Or");
    assert_eq!(r.sub_expressions.len(), 3);
}

#[test]
fn an_assignment_holds_its_kind_and_its_pattern() {
    let r = serialize_expression(&at(
        0,
        9,
        UntypedNode::Assignment {
            kind: AssignmentKind::Expect,
            pattern: Pattern::Var { location: span(4, 5), name: "x".to_string() },
            value: Box::new(uint(8, "1")),
        },
    ));
    assert_eq!(r.kind, "Assignment");
    assert_eq!(kinds(&r), vec!["Integer"]);
    match &r.value {
        Some(JsonValue::Object(fields)) => {
            assert_eq!(fields.len(), 2);
            assert_eq!(fields[0].0, "kind");
            assert!(matches!(&fields[0].1, JsonValue::Text(s) if s == "Expect"));
            assert_eq!(fields[1].0, "pattern");
            match &fields[1].1 {
                JsonValue::Pattern(p) => {
                    assert_eq!(p.kind, "Variable");
                    assert_eq!(p.name, "x");
                    assert_eq!(p.location, span(4, 5));
                }
                _ => panic!("no pattern"),
            }
        }
        _ => panic!("no object"),
    }
}

#[test]
fn lists_and_tuples() {
    let r = serialize_expression(&at(
        0,
        9,
        UntypedNode::List { elements: vec![uint(1, "1")], tail: Some(Box::new(var(5, "rest"))) },
    ));
    assert_eq!(r.kind, "List");
    assert_eq!(kinds(&r), vec!["Integer", "Variable"]);
    let r = serialize_expression(&at(0, 9, UntypedNode::List { elements: vec![], tail: None }));
    assert!(r.sub_expressions.is_empty());
    let r = serialize_expression(&at(
        0,
        9,
        UntypedNode::Tuple { elems: vec![uint(1, "1"), uint(3, "2")] },
    ));
    assert_eq!(r.kind, "Tuple");
    assert_eq!(r.sub_expressions.len(), 2);
    let r = serialize_expression(&at(
        0,
        9,
        UntypedNode::TupleIndex { index: 1, tuple: Box::new(var(0, "t")) },
    ));
    assert_eq!(r.kind, "TupleIndex");
    assert!(matches!(r.value, Some(JsonValue::Number(1))));
}

#[test]
fn accesses_and_sequences() {
    let r = serialize_expression(&at(
        0,
        9,
        UntypedNode::FieldAccess {
            label: "inputs".to_string(),
            container: Box::new(var(0, "transaction")),
        },
    ));
    assert_eq!(r.kind, "FieldAccess");
    assert_eq!(text_of(&r.value), "inputs");
    assert_eq!(kinds(&r), vec!["Variable"]);
    let r = serialize_expression(&at(
        0,
        9,
        UntypedNode::Sequence { expressions: vec![var(0, "a"), uint(2, "1")] },
    ));
    assert_eq!(r.kind, "Sequence");
    assert_eq!(kinds(&r), vec!["Variable", "Integer"]);
}

#[test]
fn a_when_describes_the_patterns_of_its_clauses() {
    let r = serialize_expression(&at(
        0,
        30,
        UntypedNode::When {
            subject: Box::new(var(5, "purpose")),
            clauses: vec![UntypedClause {
                location: span(10, 20),
                patterns: "Vec1([Discard])".to_string(),
                body: uint(19, "1"),
            }],
        },
    ));
    assert_eq!(r.kind, "When");
    assert_eq!(kinds(&r), vec!["Variable", "Pattern", "Integer"]);
    assert_eq!(text_of(&r.sub_expressions[1].value), "Vec1([Discard])");
    assert_eq!(r.sub_expressions[1].location, span(10, 20));
}

#[test]
fn a_function_names_all_its_parameters() {
    let r = serialize_expression(&at(
        0,
        9,
        UntypedNode::Fn {
            arguments: vec![
                ArgName::Named { name: "x".to_string() },
                ArgName::Discarded { name: "_y".to_string() },
            ],
            body: Box::new(var(5, "x")),
        },
    ));
    assert_eq!(r.kind, "Function");
    match &r.value {
        Some(JsonValue::Array(names)) => {
            assert_eq!(names.len(), 2);
            assert!(matches!(&names[0], JsonValue::Text(s) if s == "x"));
            assert!(matches!(&names[1], JsonValue::Text(s) if s == "_y"));
        }
        _ => panic!("no names"),
    }
}

#[test]
fn traces() {
    let r = serialize_expression(&at(
        0,
        9,
        UntypedNode::Trace {
            kind: TraceKind::Todo,
            text: Box::new(at(0, 3, UntypedNode::Text { value: "t".to_string() })),
            continuation: Box::new(uint(5, "1")),
        },
    ));
    assert_eq!(r.kind, "Trace");
    assert_eq!(text_of(&r.value), "Todo");
    assert_eq!(kinds(&r), vec!["String", "Integer"]);
    let r =
        serialize_expression(&at(0, 9, UntypedNode::TraceIfFalse { value: Box::new(var(0, "b")) }));
    assert_eq!(r.kind, "TraceIfFalse");
    assert!(r.value.is_none());
    assert_eq!(kinds(&r), vec!["Variable"]);
}

#[test]
fn a_pipeline_reaches_from_its_first_to_its_last_expression() {
    let r = serialize_expression(&at(
        50,
        60,
        UntypedNode::PipeLine {
            first: Box::new(var(10, "a")),
            rest: vec![var(20, "b"), var(30, "c")],
            first_location: span(10, 11),
            last_location: span(30, 31),
            one_liner: true,
        },
    ));
    assert_eq!(r.kind, "Pipeline");
    assert_eq!(r.location, span(10, 31));
    assert_eq!(r.sub_expressions.len(), 3);
    match &r.value {
        Some(JsonValue::Object(fields)) => {
            assert_eq!(fields[0].0, "one_liner");
            assert!(matches!(fields[0].1, JsonValue::Flag(true)));
        }
        _ => panic!("no object"),
    }
    let r = serialize_expression(&at(
        50,
        60,
        UntypedNode::PipeLine {
            first: Box::new(var(10, "a")),
            rest: vec![],
            first_location: span(10, 11),
            last_location: span(10, 11),
            one_liner: false,
        },
    ));
    assert_eq!(r.location, span(10, 11));
}

#[test]
fn a_record_update_holds_what_it_spreads_and_what_it_sets() {
    let r = serialize_expression(&at(
        0,
        40,
        UntypedNode::RecordUpdate {
            constructor: Box::new(var(0, "Datum")),
            spread: Box::new(var(10, "old")),
            spread_location: span(8, 13),
            arguments: vec![UntypedUpdateArg {
                label: "owner".to_string(),
                location: span(15, 25),
                value: var(22, "me"),
            }],
        },
    ));
    assert_eq!(r.kind, "RecordUpdate");
    assert_eq!(kinds(&r), vec!["Variable", "Spread", "RecordUpdateArg"]);
    assert_eq!(r.sub_expressions[1].location, span(8, 13));
    assert_eq!(kinds(&r.sub_expressions[1]), vec!["Variable"]);
    assert_eq!(text_of(&r.sub_expressions[2].value), "owner");
    assert_eq!(kinds(&r.sub_expressions[2]), vec!["Variable"]);
}

#[test]
fn other_expressions_are_known_by_their_representation() {
    let debug = " CurvePoint { location: 1..2 }".to_string();
    let r = serialize_expression(&at(1, 2, UntypedNode::Other { debug: debug.clone() }));
    assert_eq!(r.kind, "CurvePoint");
    assert_eq!(text_of(&r.value), debug);
    let r = serialize_expression(&at(1, 2, UntypedNode::Other { debug: "Odd".to_string() }));
    assert_eq!(r.kind, "Unknown");
}

fn named(start: usize, name: &str) -> Pattern {
    Pattern::Var { location: span(start, start + 1), name: name.to_string() }
}

#[test]
fn patterns() {
    let p = Pattern::Constructor {
        location: span(0, 9),
        name: "Spend".to_string(),
        arguments: vec![PatternArg {
            label: Some("r".to_string()),
            location: span(6, 8),
            value: named(7, "x"),
        }],
        module: Some("tx".to_string()),
    };
    let r = serialize_pattern(&p);
    assert_eq!(r.kind, "Constructor");
    assert_eq!(r.name, "Spend");
    assert_eq!(r.module.as_deref(), Some("tx"));
    assert_eq!(r.arguments.len(), 1);
    assert_eq!(r.arguments[0].label.as_deref(), Some("r"));
    assert_eq!(r.arguments[0].location, span(6, 8));
    assert!(matches!(
        &r.arguments[0].value,
        SerializablePatternValue::Variable { name } if name == "x"
    ));

    let r = serialize_pattern(&Pattern::Discard { location: span(0, 1), name: "_".to_string() });
    assert_eq!(r.kind, "Discard");
    let debug = "Int { .. }".to_string();
    let other = Pattern::Other { location: span(0, 1), debug };
    let r = serialize_pattern(&other);
    assert_eq!(r.kind, "Other");
    assert_eq!(r.name, "Int { .. }");
    assert!(matches!(
        serialize_pattern_value(&other),
        SerializablePatternValue::Variable { name } if name == "Unsupported_Int { .. }"
    ));
}

#[test]
fn elements_of_patterns_are_numbered() {
    let p = Pattern::List {
        location: span(0, 9),
        elements: vec![named(1, "a"), named(3, "b")],
        tail: Some(Box::new(named(6, "rest"))),
    };
    let r = serialize_pattern(&p);
    assert_eq!(r.kind, "List");
    assert_eq!(r.name, "List");
    assert_eq!(r.arguments.len(), 2);
    assert_eq!(r.arguments[0].label.as_deref(), Some("0"));
    assert_eq!(r.arguments[1].label.as_deref(), Some("1"));
    assert_eq!(r.arguments[1].location, span(3, 4));
    match serialize_pattern_value(&p) {
        SerializablePatternValue::List { elements, tail } => {
            assert_eq!(elements.len(), 2);
            assert!(tail.is_some());
        }
        _ => panic!("no list"),
    }
    let p = Pattern::Tuple { location: span(0, 9), elems: vec![named(1, "a")] };
    assert_eq!(serialize_pattern(&p).name, "Tuple");
    let r = serialize_pattern_arg(&PatternArg { label: None, location: span(2, 3), value: p });
    assert!(r.label.is_none());
    assert!(matches!(r.value, SerializablePatternValue::Tuple { elements } if elements.len() == 1));
}

fn plain(name: &str) -> Annotation {
    Annotation {
        location: span(1, 2),
        node: AnnotationNode::Constructor {
            name: name.to_string(),
            arguments: vec![],
            module: None,
        },
    }
}

#[test]
fn annotations() {
    let list = Annotation {
        location: span(0, 9),
        node: AnnotationNode::Constructor {
            name: "List".to_string(),
            arguments: vec![plain("Int")],
            module: Some("m".to_string()),
        },
    };
    let r = serialize_annotation(&list);
    assert_eq!(r.kind, "Constructor");
    assert_eq!(r.name, "List");
    assert_eq!(r.arguments[0].name, "Int");
    assert_eq!(r.module.as_deref(), Some("m"));
    assert_eq!(r.location, span(0, 9));
    let fun = Annotation {
        location: span(0, 9),
        node: AnnotationNode::Fn { arguments: vec![list], ret: Box::new(plain("Bool")) },
    };
    let r = serialize_annotation(&fun);
    assert_eq!(r.kind, "Function");
    assert_eq!(r.name, "fn");
    assert_eq!(r.arguments.len(), 1);
    let r = serialize_annotation(&Annotation {
        location: span(0, 1),
        node: AnnotationNode::Var { name: "a".to_string() },
    });
    assert_eq!(r.kind, "Variable");
    let r = serialize_annotation(&Annotation {
        location: span(0, 1),
        node: AnnotationNode::Hole { name: "_".to_string() },
    });
    assert_eq!(r.kind, "Hole");
    let r = serialize_annotation(&Annotation {
        location: span(0, 1),
        node: AnnotationNode::Tuple { elems: vec![plain("Int"), plain("Int")] },
    });
    assert_eq!(r.kind, "Tuple");
    assert_eq!(r.name, "Tuple");
    assert_eq!(r.arguments.len(), 2);
}

fn function(name: &str, doc: Option<&str>) -> UntypedFunction {
    UntypedFunction {
        location: span(10, 30),
        name: name.to_string(),
        arguments: vec![
            UntypedArg {
                arg_name: ArgName::Named { name: "x".to_string() },
                annotation: Some(plain("Int")),
            },
            UntypedArg {
                arg_name: ArgName::Discarded { name: "_y".to_string() },
                annotation: None,
            },
        ],
        body: var(20, "x"),
        doc: doc.map(|d| d.to_string()),
    }
}

fn every_definition() -> Vec<UntypedDefinition> {
    vec![
        UntypedDefinition::Use {
            location: span(0, 8),
            module: vec!["aiken".to_string(), "list".to_string()],
            as_name: Some("l".to_string()),
            unqualified: vec![UnqualifiedImport {
                location: span(5, 7),
                name: "find".to_string(),
                as_name: Some("search".to_string()),
            }],
        },
        UntypedDefinition::Fn(function("f", Some(" says"))),
        UntypedDefinition::Test(function("t", None)),
        UntypedDefinition::Validator { location: span(9, 99), fun: function("spend", None) },
        UntypedDefinition::DataType {
            location: span(1, 2),
            name: "Datum".to_string(),
            constructors: vec![RecordConstructor {
                name: "Datum".to_string(),
                arguments: vec![
                    RecordField { label: Some("owner".to_string()), annotation: plain("Key") },
                    RecordField { label: None, annotation: plain("Int") },
                ],
            }],
            doc: None,
        },
        UntypedDefinition::TypeAlias {
            location: span(3, 4),
            alias: "Key".to_string(),
            parameters: vec!["a".to_string()],
            annotation: plain("ByteArray"),
            doc: None,
        },
        UntypedDefinition::ModuleConstant {
            location: span(5, 6),
            name: "limit".to_string(),
            annotation: Some(plain("Int")),
            value: uint(5, "7"),
            doc: Some("how many".to_string()),
        },
    ]
}

fn module(docs: Vec<String>) -> UntypedModule {
    UntypedModule {
        name: "m".to_string(),
        kind: ModuleKind::Validator,
        docs,
        definitions: every_definition(),
    }
}

fn summary(d: &SerializableDefinition) -> (&str, &str, bool) {
    (d.kind.as_str(), d.name.as_str(), d.body.is_some())
}

#[test]
fn every_kind_of_definition_is_exported_in_order() {
    let r = convert_to_serializable_module(&module(vec![]), "validators/m.ak", true);
    assert_eq!(r.name, "m");
    assert_eq!(r.kind, "Validator");
    assert_eq!(r.source_file, "validators/m.ak");
    assert!(r.doc_comments.is_none());
    let all: Vec<_> = r.definitions.iter().map(summary).collect();
    assert_eq!(
        all,
        vec![
            ("Use", "aiken/list", false),
            ("Function", "f", true),
            ("Test", "t", true),
            ("Validator", "spend", true),
            ("DataType", "Datum", false),
            ("TypeAlias", "Key", false),
            ("ModuleConstant", "limit", true),
        ]
    );
    assert_eq!(r.definitions[3].location, span(9, 99));
}

#[test]
fn no_body_is_exported_without_detail() {
    let r = convert_to_serializable_module(&module(vec!["doc".to_string()]), "m.ak", false);
    assert!(r.definitions.iter().all(|d| d.body.is_none()));
    assert_eq!(r.definitions.len(), 7);
    assert_eq!(r.doc_comments, Some(vec!["doc".to_string()]));
}

#[test]
fn an_import_keeps_its_path_alias_and_names() {
    let r = convert_to_serializable_module(&module(vec![]), "m.ak", false);
    let import = r.definitions[0].import.as_ref().unwrap();
    assert_eq!(import.module, vec!["aiken".to_string(), "list".to_string()]);
    assert_eq!(import.as_name.as_deref(), Some("l"));
    assert_eq!(import.unqualified.len(), 1);
    assert_eq!(import.unqualified[0].name, "find");
    assert_eq!(import.unqualified[0].as_name.as_deref(), Some("search"));
    assert_eq!(import.unqualified[0].location, span(5, 7));
}

#[test]
fn functions_data_types_aliases_and_constants_keep_their_parts() {
    let r = convert_to_serializable_module(&module(vec![]), "m.ak", true);
    let args = r.definitions[1].function_args.as_ref().unwrap();
    assert_eq!(args[0].name, "x");
    assert_eq!(args[0].annotation.as_ref().unwrap().name, "Int");
    assert_eq!(args[1].name, "_");
    assert!(args[1].annotation.is_none());
    assert_eq!(r.definitions[1].doc_comments, Some(vec![" says".to_string()]));
    assert!(r.definitions[2].doc_comments.is_none());

    let constructors = r.definitions[4].data_constructors.as_ref().unwrap();
    assert_eq!(constructors[0].name, "Datum");
    assert_eq!(constructors[0].fields[0].name.as_deref(), Some("owner"));
    assert_eq!(constructors[0].fields[1].name, None);
    assert_eq!(constructors[0].fields[1].annotation.as_ref().unwrap().name, "Int");

    assert_eq!(r.definitions[5].type_parameters, Some(vec!["a".to_string()]));
    assert_eq!(r.definitions[5].annotation.as_ref().unwrap().name, "ByteArray");

    assert_eq!(r.definitions[6].annotation.as_ref().unwrap().name, "Int");
    assert_eq!(text_of(&r.definitions[6].body.as_ref().unwrap().value), "7");
}

#[test]
fn a_module_is_exported_the_same_whatever_came_before() {
    let first = convert_to_serializable_module(&module(vec![]), "m.ak", true);
    convert_to_serializable_module(&module(vec!["x".to_string()]), "other.ak", false);
    let second = convert_to_serializable_module(&module(vec![]), "m.ak", true);
    assert_eq!(first.name, second.name);
    assert_eq!(first.source_file, second.source_file);
    let a: Vec<_> = first.definitions.iter().map(summary).collect();
    let b: Vec<_> = second.definitions.iter().map(summary).collect();
    assert_eq!(a, b);
    let body = |i: usize| {
        (
            text_of(&first.definitions[i].body.as_ref().unwrap().value).to_string(),
            text_of(&second.definitions[i].body.as_ref().unwrap().value).to_string(),
        )
    };
    assert_eq!(body(6).0, body(6).1);
}

#[test]
fn a_library_module_is_called_so() {
    let m = UntypedModule {
        name: String::new(),
        kind: ModuleKind::Lib,
        docs: vec![],
        definitions: vec![],
    };
    let r = convert_to_serializable_module(&m, "lib/x.ak", true);
    assert_eq!(r.kind, "Library");
    assert!(r.definitions.is_empty());
}
