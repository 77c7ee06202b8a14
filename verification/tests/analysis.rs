use aiken::analyze_validator::exec;
use aiken::analyzer::AstAnalyzer;
use aiken::ast::{
    AssignmentKind, BinOp, CheckedModule, ClauseGuard, Function, IfBranch, ModuleKind, Parameter,
    Pattern, PatternArg, Span, TypedClause, TypedDefinition, TypedExpr, TypedNode, TypedValidator,
};
use aiken::environment::SymbolicEnvironment;
use aiken::execution::ExprResult;
use aiken::value::{SecurityPatternKind, SymbolicCondition, SymbolicValue, ValueOrigin};
use std::rc::Rc;

fn at(start: usize, node: TypedNode) -> TypedExpr {
    TypedExpr { location: Span { start, end: start + 1 }, tipo: "T".to_string(), node }
}

fn expr(node: TypedNode) -> TypedExpr {
    at(0, node)
}

fn var(name: &str) -> TypedExpr {
    expr(TypedNode::Var { name: name.to_string() })
}

fn field(record: TypedExpr, label: &str) -> TypedExpr {
    expr(TypedNode::RecordAccess { label: label.to_string(), record: Box::new(record) })
}

fn select(module: &str, label: &str) -> TypedExpr {
    expr(TypedNode::ModuleSelect { module_name: module.to_string(), label: label.to_string() })
}

fn call(fun: TypedExpr, args: Vec<TypedExpr>) -> TypedExpr {
    expr(TypedNode::Call { fun: Box::new(fun), args })
}

fn function_of(body: TypedExpr) -> TypedExpr {
    expr(TypedNode::Fn { body: Box::new(body) })
}

fn operator(op: BinOp, left: TypedExpr, right: TypedExpr) -> TypedExpr {
    expr(TypedNode::BinOp { op, left: Box::new(left), right: Box::new(right) })
}

fn sequence(expressions: Vec<TypedExpr>) -> TypedExpr {
    expr(TypedNode::Sequence { expressions })
}

fn literal() -> TypedExpr {
    expr(TypedNode::Other)
}

fn name_pattern(name: &str) -> Pattern {
    Pattern::Var { location: Span { start: 0, end: 0 }, name: name.to_string() }
}

fn constructor(name: &str, arguments: Vec<(Option<&str>, &str)>) -> Pattern {
    Pattern::Constructor {
        location: Span { start: 7, end: 8 },
        name: name.to_string(),
        arguments: arguments
            .into_iter()
            .map(|(label, variable)| PatternArg {
                label: label.map(|l| l.to_string()),
                location: Span { start: 0, end: 0 },
                value: name_pattern(variable),
            })
            .collect(),
        module: None,
    }
}

fn assign(kind: AssignmentKind, pattern: Pattern, value: TypedExpr) -> TypedExpr {
    expr(TypedNode::Assignment { kind, pattern, value: Box::new(value) })
}

fn bind(name: &str, value: TypedExpr) -> TypedExpr {
    assign(AssignmentKind::Let, name_pattern(name), value)
}

fn parameter(name: &str, tipo: &str) -> Parameter {
    Parameter {
        arg_name: format!("Named {{ name: \"{}\", label: \"{}\" }}", name, name),
        tipo: tipo.to_string(),
    }
}

fn function(name: &str, parameters: Vec<&str>, body: TypedExpr) -> Function {
    Function {
        name: name.to_string(),
        arguments: parameters.into_iter().map(|p| parameter(p, "T")).collect(),
        body: Rc::new(body),
    }
}

fn validator(body: TypedExpr) -> TypedValidator {
    TypedValidator {
        fun: Function {
            name: "spend".to_string(),
            arguments: vec![
                parameter("datum", "Datum"),
                parameter("redeemer", "Redeemer"),
                parameter("ctx", "App { name: \"ScriptContext\" }"),
            ],
            body: Rc::new(body),
        },
    }
}

/// The result of a validator's code.
fn run(analyzer: &AstAnalyzer, body: TypedExpr) -> ExprResult {
    let v = validator(body);
    let env = analyzer.prepare_symbolic_execution(&v);
    assert!(analyzer.can_execute(&v.fun.body, true));
    analyzer.execute_expression(&v.fun.body, &env)
}

fn origin(result: &ExprResult) -> String {
    result.value.origin.to_text()
}

fn known(result: &ExprResult, name: &str) -> String {
    match result.environment.lookup(name) {
        Some(v) => v.to_text(),
        None => "nothing".to_string(),
    }
}

fn purpose() -> TypedExpr {
    field(var("ctx"), "purpose")
}

fn inputs() -> TypedExpr {
    field(field(var("ctx"), "transaction"), "inputs")
}

#[test]
fn the_context_is_known_by_its_paths() {
    let analyzer = AstAnalyzer::new();
    let env = analyzer.prepare_symbolic_execution(&validator(literal()));
    assert_eq!(env.script_context_name.as_deref(), Some("ctx"));
    assert_eq!(env.variables.len(), 4);
    let name = |n: &str| env.lookup(n).map(|v| v.to_text()).unwrap_or_default();
    assert_eq!(name("ctx"), "ScriptContext");
    assert_eq!(name("ctx.transaction"), "Transaction");
    assert_eq!(name("ctx.transaction.inputs"), "TransactionInputs");
    assert_eq!(name("ctx.purpose"), "Purpose");
    assert_eq!(env.lookup("ctx").unwrap().value_type, "App { name: \"ScriptContext\" }");
}

#[test]
fn a_context_needs_three_parameters_and_its_type() {
    let analyzer = AstAnalyzer::new();
    let mut v = validator(literal());
    v.fun.arguments.remove(0);
    assert_eq!(analyzer.prepare_symbolic_execution(&v).variables.len(), 0);
    let mut v = validator(literal());
    v.fun.arguments[2].tipo = "Int".to_string();
    assert_eq!(analyzer.prepare_symbolic_execution(&v).variables.len(), 0);
}

#[test]
fn names_are_taken_from_their_representation() {
    let analyzer = AstAnalyzer::new();
    assert_eq!(analyzer.extract_name_from_arg("Named { name: \"x\", label: \"y\" }"), "x");
    assert_eq!(analyzer.extract_name_from_arg("Discarded"), "Discarded");
    assert_eq!(analyzer.extract_name_from_arg("name: \"open"), "name: \"open");
}

#[test]
fn purpose_and_inputs_are_tracked() {
    let analyzer = AstAnalyzer::new();
    let r = run(&analyzer, purpose());
    assert_eq!(origin(&r), "Purpose");
    assert!(r.uses_purpose && !r.uses_inputs);
    let r = run(&analyzer, inputs());
    assert_eq!(origin(&r), "TransactionInputs");
    assert!(!r.uses_purpose && r.uses_inputs);
    assert_eq!(r.value.to_text(), "TransactionInputs derived_from:[Transaction]");
    let r = run(&analyzer, field(var("ctx"), "transaction"));
    assert_eq!(origin(&r), "Transaction");
    assert!(!r.uses_purpose && !r.uses_inputs);
    let r = run(&analyzer, field(var("ctx"), "other"));
    assert_eq!(origin(&r), "Other(ScriptContext.other)");
}

#[test]
fn what_is_among_the_uses_is_flagged() {
    let analyzer = AstAnalyzer::new();
    let r = run(&analyzer, sequence(vec![purpose(), inputs()]));
    assert!(r.uses.contains(&ValueOrigin::Purpose) && r.uses_purpose);
    assert!(r.uses.contains(&ValueOrigin::TransactionInputs) && r.uses_inputs);
    let r = run(&analyzer, field(var("ctx"), "transaction"));
    assert!(!r.uses.contains(&ValueOrigin::Purpose) && !r.uses_purpose);
}

#[test]
fn nothing_of_a_context_is_learned_without_one() {
    let analyzer = AstAnalyzer::new();
    let env = SymbolicEnvironment::new();
    let r = analyzer.execute_expression(&with_own_input(count_by_address()), &env);
    assert!(!r.uses_purpose && !r.uses_inputs);
    assert!(r.environment.lookup("own").is_none());
}

#[test]
fn an_unknown_variable_is_unknown() {
    let analyzer = AstAnalyzer::new();
    let r = run(&analyzer, var("nobody"));
    assert_eq!(origin(&r), "Unknown");
    let r = run(&analyzer, field(var("nobody"), "address"));
    assert_eq!(origin(&r), "Other(address)");
}

#[test]
fn results_stand_at_the_place_of_their_expression() {
    let analyzer = AstAnalyzer::new();
    let r = run(&analyzer, at(42, TypedNode::Var { name: "ctx".to_string() }));
    assert_eq!(r.location, Some(Span { start: 42, end: 43 }));
    assert_eq!(r.function_level, 0);
}

#[test]
fn values_taken_apart_are_tracked() {
    let analyzer = AstAnalyzer::new();
    let r = run(
        &analyzer,
        sequence(vec![
            assign(
                AssignmentKind::Let,
                constructor(
                    "ScriptContext",
                    vec![(Some("transaction"), "tx"), (Some("purpose"), "why")],
                ),
                var("ctx"),
            ),
            assign(
                AssignmentKind::Let,
                constructor("Transaction", vec![(Some("inputs"), "all"), (Some("fee"), "fee")]),
                var("tx"),
            ),
        ]),
    );
    assert_eq!(known(&r, "tx"), "Transaction derived_from:[ScriptContext]");
    assert_eq!(known(&r, "why"), "Purpose derived_from:[ScriptContext]");
    assert_eq!(known(&r, "all"), "TransactionInputs derived_from:[ScriptContext, Transaction]");
    assert_eq!(known(&r, "fee"), "nothing");
}

#[test]
fn the_own_input_is_found_by_its_output_reference() {
    let analyzer = AstAnalyzer::new();
    let r = run(
        &analyzer,
        sequence(vec![
            assign(
                AssignmentKind::Expect,
                constructor("Spend", vec![(None, "reference")]),
                purpose(),
            ),
            bind(
                "found",
                call(
                    select("aiken/list", "find"),
                    vec![
                        inputs(),
                        function_of(operator(
                            BinOp::Eq,
                            field(var("input"), "output_reference"),
                            var("reference"),
                        )),
                    ],
                ),
            ),
            assign(AssignmentKind::Expect, constructor("Some", vec![(None, "own")]), var("found")),
            assign(
                AssignmentKind::Let,
                constructor("Input", vec![(Some("output"), "output")]),
                var("own"),
            ),
            bind("address", field(var("output"), "address")),
        ]),
    );
    assert_eq!(known(&r, "reference"), "OutputReference derived_from:[Purpose]");
    assert_eq!(known(&r, "found"), "InputToken");
    assert_eq!(
        known(&r, "own"),
        "InputToken derived_from:[TransactionInputs, OutputReference]"
    );
    assert_eq!(
        known(&r, "output"),
        "InputTokenOutput derived_from:[ScriptContext, Transaction, InputToken]"
    );
    assert_eq!(known(&r, "address"), "InputTokenAddress derived_from:[InputTokenOutput]");
    assert_eq!(r.environment.conditions.len(), 2);
    assert!(matches!(r.environment.conditions[0], SymbolicCondition::Assertion { .. }));
    assert!(matches!(
        &r.environment.conditions[1],
        SymbolicCondition::Custom { description, relates_to_inputs: true, .. }
            if description == "Output reference validation pattern detected"
    ));
    assert!(r.uses_purpose && r.uses_inputs);
}

fn spending_when(guard: Option<ClauseGuard>, body: TypedExpr) -> TypedExpr {
    expr(TypedNode::When {
        subject: Box::new(purpose()),
        clauses: vec![TypedClause {
            pattern: constructor("Spend", vec![(None, "reference")]),
            guard,
            body,
        }],
    })
}

#[test]
fn a_clause_knows_what_its_pattern_names() {
    let analyzer = AstAnalyzer::new();
    let r = run(&analyzer, spending_when(None, var("reference")));
    assert_eq!(origin(&r), "OutputReference");
    assert!(r.uses_purpose);
    assert_eq!(known(&r, "reference"), "nothing");
}

#[test]
fn no_guard_counts_as_a_check_for_duplicates() {
    let analyzer = AstAnalyzer::new();
    let place = Span { start: 1, end: 2 };
    let other = || Box::new(ClauseGuard::Other { location: place });
    let guard = ClauseGuard::And {
        location: place,
        left: Box::new(ClauseGuard::Equals { location: place, left: other(), right: other() }),
        right: Box::new(ClauseGuard::Or {
            location: place,
            left: Box::new(ClauseGuard::NotEquals {
                location: place,
                left: other(),
                right: other(),
            }),
            right: other(),
        }),
    };
    assert!(!analyzer.check_guard_for_duplicate_inputs(&guard));
    let r = run(&analyzer, spending_when(Some(guard), literal()));
    assert!(r.findings.is_empty());
}

/// Counts the inputs that stand at an address.
fn count_by_address() -> TypedExpr {
    call(
        select("aiken/list", "count"),
        vec![
            inputs(),
            function_of(operator(
                BinOp::Eq,
                field(field(var("own"), "output"), "address"),
                literal(),
            )),
        ],
    )
}

fn with_own_input(last: TypedExpr) -> TypedExpr {
    sequence(vec![
        assign(AssignmentKind::Expect, constructor("Spend", vec![(None, "reference")]), purpose()),
        bind(
            "found",
            call(
                select("aiken/list", "find"),
                vec![inputs(), function_of(var("reference"))],
            ),
        ),
        assign(AssignmentKind::Expect, constructor("Some", vec![(None, "own")]), var("found")),
        last,
    ])
}

#[test]
fn a_count_of_inputs_at_an_address_is_a_count_of_tokens() {
    let analyzer = AstAnalyzer::new();
    let r = run(&analyzer, with_own_input(count_by_address()));
    assert_eq!(origin(&r), "TokenCount");
    assert!(r.findings.is_empty());
}

#[test]
fn a_comparison_with_a_count_of_tokens_is_found() {
    let analyzer = AstAnalyzer::new();
    let comparison = at(
        99,
        TypedNode::BinOp {
            op: BinOp::Eq,
            left: Box::new(count_by_address()),
            right: Box::new(literal()),
        },
    );
    let r = run(&analyzer, with_own_input(comparison));
    assert_eq!(r.findings.len(), 1);
    assert_eq!(r.findings[0].kind, SecurityPatternKind::InputTokenCountComparison);
    assert_eq!(r.findings[0].confidence, 80);
    assert_eq!(r.findings[0].location, Span { start: 99, end: 100 });
    assert_eq!(r.findings[0].description, "Token count comparison detected");
    let sum = operator(BinOp::AddInt, count_by_address(), literal());
    assert!(run(&analyzer, with_own_input(sum)).findings.is_empty());
}

#[test]
fn what_a_called_function_shows_is_shown_by_the_caller() {
    let mut analyzer = AstAnalyzer::new();
    let body = operator(
        BinOp::GtInt,
        call(
            select("aiken/list", "count"),
            vec![var("all"), function_of(field(field(var("mine"), "output"), "address"))],
        ),
        literal(),
    );
    let check = Rc::new(function("check", vec!["all", "mine"], body));
    analyzer.register_function_with_module(&check, "m");
    let inside = call(var("check"), vec![inputs(), var("own")]);
    let r = run(&analyzer, with_own_input(bind("ok", inside)));
    assert_eq!(r.findings.len(), 1);
    assert!(r.uses_purpose && r.uses_inputs);
}

#[test]
fn mapped_inputs_are_tracked() {
    let analyzer = AstAnalyzer::new();
    let mapped = |label: &str| {
        call(
            select("aiken/list", "map"),
            vec![inputs(), function_of(field(var("input"), label))],
        )
    };
    assert_eq!(origin(&run(&analyzer, mapped("address"))), "InputTokenAddress");
    assert_eq!(origin(&run(&analyzer, mapped("output_reference"))), "OutputReference");
    assert_eq!(origin(&run(&analyzer, mapped("output"))), "InputTokenOutput");
    assert_eq!(origin(&run(&analyzer, mapped("inputs"))), "TransactionInputs");
    assert_eq!(origin(&run(&analyzer, mapped("value"))), "Unknown");
}

#[test]
fn a_list_function_needs_a_list_and_a_predicate() {
    let analyzer = AstAnalyzer::new();
    assert!(!analyzer.can_execute(&call(select("aiken/list", "find"), vec![inputs()]), true));
    assert!(analyzer.can_execute(&call(select("aiken/list", "head"), vec![inputs()]), true));
}

#[test]
fn a_call_is_replaced_by_the_function() {
    let mut analyzer = AstAnalyzer::new();
    let get = Rc::new(function("get", vec!["context"], field(var("context"), "purpose")));
    analyzer.register_function_with_module(&get, "util");
    for fun in vec![var("get"), select("util", "get")] {
        let r = run(&analyzer, call(fun, vec![var("ctx")]));
        assert_eq!(origin(&r), "Purpose");
        assert!(r.uses_purpose);
        assert_eq!(known(&r, "context"), "nothing");
    }
    let r = run(&analyzer, call(var("get"), vec![]));
    assert_eq!(origin(&r), "Unknown");
    let r = run(&analyzer, call(select("other", "get"), vec![var("ctx")]));
    assert_eq!(origin(&r), "Unknown");
}

#[test]
fn a_registered_function_is_found_and_the_standard_library_is_not() {
    let mut analyzer = AstAnalyzer::new();
    let f = Rc::new(function("f", vec![], literal()));
    analyzer.register_function_with_module(&f, "aiken/math");
    assert!(analyzer.find_function_to_inline(&var("f")).is_none());
    assert!(analyzer.find_function_to_inline(&select("aiken/math", "f")).is_none());
    analyzer.register_function_with_module(&f, "first");
    analyzer.register_function_with_module(&f, "second");
    assert_eq!(analyzer.find_function_to_inline(&var("f")).unwrap().module_name, "first");
    let info = analyzer.find_function_to_inline(&select("second", "f")).unwrap();
    assert_eq!(info.qualified_name, "second::f");
    assert_eq!(info.return_type.as_deref(), Some("T"));
    assert_eq!(info.script_context_param_index, -1);
    assert!(!info.is_validator);
    assert!(analyzer.find_function_to_inline(&literal()).is_none());
}

#[test]
fn a_function_that_calls_itself_is_looked_into_once() {
    let mut analyzer = AstAnalyzer::new();
    let body = sequence(vec![call(var("again"), vec![var("c")]), field(var("c"), "purpose")]);
    let again = Rc::new(function("again", vec!["c"], body));
    analyzer.register_function_with_module(&again, "m");
    let r = run(&analyzer, call(var("again"), vec![var("ctx")]));
    assert_eq!(origin(&r), "Purpose");
    assert!(r.uses_purpose);
    let endless = Rc::new(function("endless", vec![], call(var("endless"), vec![])));
    analyzer.register_function_with_module(&endless, "m");
    assert_eq!(origin(&run(&analyzer, call(var("endless"), vec![]))), "Unknown");
}

#[test]
fn a_call_inside_a_called_function_is_not_replaced() {
    let mut analyzer = AstAnalyzer::new();
    let inner = Rc::new(function("inner", vec!["x"], field(var("x"), "purpose")));
    let outer = Rc::new(function("outer", vec!["y"], call(var("inner"), vec![var("y")])));
    analyzer.register_function_with_module(&inner, "m");
    analyzer.register_function_with_module(&outer, "m");
    assert_eq!(origin(&run(&analyzer, call(var("inner"), vec![var("ctx")]))), "Purpose");
    let r = run(&analyzer, call(var("outer"), vec![var("ctx")]));
    assert_eq!(origin(&r), "Unknown");
    assert!(!r.uses_purpose);
}

#[test]
fn inside_a_called_function_a_call_shows_what_its_arguments_show() {
    let mut analyzer = AstAnalyzer::new();
    let g = Rc::new(function("g", vec![], var("x")));
    analyzer.register_function_with_module(&g, "m");
    let mut env = SymbolicEnvironment::new();
    env.add_variable(
        "x".to_string(),
        SymbolicValue::new(ValueOrigin::Purpose, "P".to_string()),
    );
    assert_eq!(origin(&analyzer.execute_expression(&call(var("g"), vec![]), &env)), "Purpose");
    env.function_level = Some(1);
    let r = analyzer.execute_expression(&call(var("g"), vec![]), &env);
    assert_eq!(origin(&r), "Unknown");
    assert!(r.value.derived_from.is_empty());
    assert_eq!(r.function_level, 1);
    let r = analyzer.execute_expression(&call(var("g"), vec![var("x")]), &env);
    assert_eq!(origin(&r), "Unknown");
    assert!(r.uses_purpose);
    assert_eq!(r.environment.function_level, Some(1));
}

#[test]
fn list_functions_are_tracked_inside_a_called_function() {
    let mut analyzer = AstAnalyzer::new();
    let find = call(
        select("aiken/list", "map"),
        vec![var("all"), function_of(field(var("input"), "address"))],
    );
    analyzer.register_function_with_module(&Rc::new(function("f", vec!["all"], find)), "m");
    let r = run(&analyzer, call(var("f"), vec![inputs()]));
    assert_eq!(origin(&r), "InputTokenAddress");
    let bad = call(select("aiken/list", "find"), vec![]);
    analyzer.register_function_with_module(&Rc::new(function("bad", vec![], bad)), "m");
    assert!(!analyzer.can_execute(&call(var("bad"), vec![]), true));
    assert!(analyzer.can_execute(&call(var("bad"), vec![]), false));
}

#[test]
fn nothing_is_forgotten() {
    let analyzer = AstAnalyzer::new();
    let r = run(
        &analyzer,
        sequence(vec![bind("a", purpose()), bind("b", inputs()), bind("a", var("unheard"))]),
    );
    assert_eq!(known(&r, "a"), "Purpose derived_from:[ScriptContext]");
    assert_eq!(known(&r, "b"), "TransactionInputs derived_from:[Transaction]");
    assert_eq!(known(&r, "ctx.purpose"), "Purpose");
    assert_eq!(r.environment.script_context_name.as_deref(), Some("ctx"));
}

#[test]
fn children_stand_in_order() {
    let analyzer = AstAnalyzer::new();
    let e = expr(TypedNode::If {
        branches: vec![IfBranch { condition: var("a"), body: var("b") }],
        final_else: Box::new(var("c")),
    });
    let names: Vec<String> = analyzer
        .get_child_expressions(&e)
        .into_iter()
        .map(|c| match &c.node {
            TypedNode::Var { name } => name.clone(),
            _ => String::new(),
        })
        .collect();
    assert_eq!(names, vec!["a", "b", "c"]);
    let assignment = bind("x", var("y"));
    let inside = analyzer.get_child_expressions(&assignment);
    assert_eq!(inside.len(), 1);
    assert!(matches!(&inside[0].node, TypedNode::Var { name } if name == "y"));
    assert!(analyzer.get_child_expressions(&literal()).is_empty());
}

#[test]
fn expressions_are_collected_by_their_use() {
    let analyzer = AstAnalyzer::new();
    let (mut purposes, mut all_inputs, mut both) = (Vec::new(), Vec::new(), Vec::new());
    analyzer.collect_expressions_by_usage(
        &sequence(vec![purpose(), inputs()]),
        &mut purposes,
        &mut all_inputs,
        &mut both,
    );
    assert_eq!((purposes.len(), all_inputs.len(), both.len()), (0, 0, 0));
}

#[test]
fn code_that_compares_addresses_is_a_check_for_duplicates() {
    let mut analyzer = AstAnalyzer::new();
    let compares = || operator(BinOp::Eq, field(var("a"), "address"), var("b"));
    assert!(analyzer.check_expression_for_duplicate_inputs(&compares()));
    assert!(analyzer.check_expression_for_duplicate_inputs(&sequence(vec![
        literal(),
        bind("x", compares()),
    ])));
    assert!(!analyzer
        .check_expression_for_duplicate_inputs(&sequence(vec![literal(), var("x")])));
    assert!(analyzer.check_expression_for_duplicate_inputs(&operator(
        BinOp::GtInt,
        literal(),
        compares(),
    )));
    assert!(!analyzer.check_expression_for_duplicate_inputs(&operator(
        BinOp::LtInt,
        field(var("a"), "address"),
        var("b"),
    )));
    assert!(analyzer.is_duplicate_check_call(
        &select("list", "count"),
        &vec![var("inputs"), function_of(compares())],
    ));
    assert!(!analyzer.is_duplicate_check_call(
        &select("list", "map"),
        &vec![var("inputs"), function_of(compares())],
    ));
    assert!(!analyzer.check_expression_for_duplicate_inputs(&var("helper")));
    analyzer.register_function("helper".to_string(), Rc::new(compares()));
    assert!(analyzer.check_expression_for_duplicate_inputs(&var("helper")));
    assert!(analyzer.contains_address_check(&function_of(compares())));
    assert!(!analyzer.contains_address_check(&compares()));
    assert!(analyzer.is_address_access(&field(var("a"), "my_addr")));
    assert!(!analyzer.is_address_comparison(&BinOp::GtInt, &field(var("a"), "addr"), &var("b")));
}

#[test]
fn the_search_for_checks_can_be_bounded() {
    let mut analyzer = AstAnalyzer::new();
    let compares = || operator(BinOp::Eq, field(var("a"), "address"), var("b"));
    assert_eq!(analyzer.check_for_duplicate_inputs_within(&compares(), 0), Some(true));
    assert_eq!(analyzer.check_for_duplicate_inputs_within(&literal(), 0), Some(false));
    analyzer.register_function("helper".to_string(), Rc::new(compares()));
    analyzer.register_function("endless".to_string(), Rc::new(var("endless")));
    assert_eq!(analyzer.check_for_duplicate_inputs_within(&var("helper"), 0), None);
    assert_eq!(analyzer.check_for_duplicate_inputs_within(&var("helper"), 1), Some(true));
    assert_eq!(analyzer.check_for_duplicate_inputs_within(&var("endless"), 50), None);
    let mixed = sequence(vec![var("endless"), compares()]);
    assert_eq!(analyzer.check_for_duplicate_inputs_within(&mixed, 50), None);
    let when = spending_when(None, var("helper"));
    assert_eq!(analyzer.check_for_duplicate_inputs_within(&when, 2), Some(true));
    let branch = expr(TypedNode::If {
        branches: vec![IfBranch { condition: literal(), body: var("helper") }],
        final_else: Box::new(literal()),
    });
    assert_eq!(analyzer.check_for_duplicate_inputs_within(&branch, 2), Some(true));
}

#[test]
fn comparisons_of_output_references_are_recognised_on_both_sides() {
    let analyzer = AstAnalyzer::new();
    let env = analyzer.prepare_symbolic_execution(&validator(literal()));
    let own = || field(purpose(), "output_reference");
    let input = || field(var("input"), "output_reference");
    assert!(analyzer.is_output_reference_expr(&own(), &env));
    assert!(!analyzer.is_output_reference_expr(&input(), &env));
    assert!(analyzer.is_input_output_reference_expr(&input()));
    assert_eq!(analyzer.check_output_ref_comparison(&own(), &input(), &env), (true, false));
    assert_eq!(analyzer.check_output_ref_comparison(&input(), &own(), &env), (false, true));
    for e in vec![operator(BinOp::Eq, own(), input()), operator(BinOp::Eq, input(), own())] {
        assert!(analyzer.detect_input_output_ref_validation(&e, &env));
    }
    assert!(!analyzer.detect_input_output_ref_validation(
        &operator(BinOp::Eq, literal(), literal()),
        &env,
    ));
    assert!(!analyzer.detect_input_output_ref_validation(&literal(), &env));
    assert_eq!(analyzer.check_expr_uses_inputs_and_oref(&input(), &env), (true, true));
    assert_eq!(
        analyzer.check_expr_uses_inputs_and_oref(&bind("x", input()), &env),
        (true, true)
    );
    assert_eq!(
        analyzer.check_expr_uses_inputs_and_oref(&var("ctx.transaction.inputs"), &env),
        (true, false)
    );
}

fn checked(name: &str, kind: ModuleKind, definitions: Vec<TypedDefinition>) -> CheckedModule {
    CheckedModule { name: name.to_string(), kind, definitions }
}

#[test]
fn a_project_without_modules() {
    let analysis = exec(vec![]);
    assert!(analysis.complete);
    assert_eq!(analysis.lines[0], "Found 0 modules in the project");
    assert_eq!(analysis.lines[2], "Found 0 validators to analyze");
    assert_eq!(
        analysis.lines.last().unwrap(),
        "\n\u{1b}[32mAll validators have implemented the recommended security checks.\u{1b}[0m"
    );
}

#[test]
fn a_validator_without_checks_is_told_so() {
    let analysis = exec(vec![
        checked("m", ModuleKind::Validator, vec![TypedDefinition::Validator(validator(purpose()))]),
        checked("lib", ModuleKind::Lib, vec![TypedDefinition::Validator(validator(purpose()))]),
    ]);
    assert!(analysis.complete);
    let lines: Vec<&str> = analysis.lines.iter().map(|l| l.as_str()).collect();
    assert_eq!(
        &lines[..7],
        &[
            "Found 2 modules in the project",
            "Found validator module: m",
            "  Adding validator: spend",
            "\nPerforming static analysis focusing on ScriptContext.purpose and transaction.inputs tracking...",
            "Found 1 validators to analyze",
            "\nAnalyzing validator: spend",
            "\nVariables that hold ScriptContext.purpose:",
        ]
    );
    assert_eq!(lines[7], "  - ctx.purpose");
    assert_eq!(lines[9], "  - ctx.transaction.inputs");
    assert!(lines.contains(&"  None found"));
    let row = lines.iter().find(|l| l.starts_with("| spend")).unwrap();
    assert!(row.contains("\u{1b}[31m✗ FAILED\u{1b}[0m"));
    assert!(!row.contains("PASSED"));
    assert!(lines.contains(&"\nRECOMMENDATIONS:"));
    assert!(lines.contains(
        &"\u{1b}[31m- Implement token count validation in validators that lack it\u{1b}[0m"
    ));
    assert!(lines.contains(
        &"\u{1b}[31m- Add duplicate input checks in validators that lack them\u{1b}[0m"
    ));
}

#[test]
fn a_validator_that_counts_tokens_passes() {
    let comparison = operator(BinOp::Eq, count_by_address(), literal());
    let code = with_own_input(comparison);
    let analysis = exec(vec![checked(
        "m",
        ModuleKind::Validator,
        vec![TypedDefinition::Validator(validator(code))],
    )]);
    let lines: Vec<&str> = analysis.lines.iter().map(|l| l.as_str()).collect();
    assert!(lines.contains(&"\u{1b}[32m✓ PASSED: Token count validation detected\u{1b}[0m"));
    assert!(lines.contains(&"  - Found at line 0: Token count comparison detected"));
    let row = lines.iter().find(|l| l.starts_with("| spend")).unwrap();
    assert!(row.contains("✓ PASSED"));
    assert!(row.contains("✗ FAILED"));
    assert!(!lines.contains(
        &"\u{1b}[31m- Implement token count validation in validators that lack it\u{1b}[0m"
    ));
}

#[test]
fn a_project_with_a_recursive_function_is_analyzed() {
    let again = Rc::new(function("again", vec![], call(var("again"), vec![])));
    let analysis = exec(vec![checked(
        "m",
        ModuleKind::Validator,
        vec![
            TypedDefinition::Other,
            TypedDefinition::Fn(again),
            TypedDefinition::Validator(validator(call(var("again"), vec![]))),
        ],
    )]);
    assert!(analysis.complete);
    assert!(analysis.lines.iter().any(|l| l.starts_with("| spend")));
}

#[test]
fn a_project_with_an_incomplete_list_call_is_not_analyzed() {
    let code = call(select("aiken/list", "count"), vec![inputs()]);
    let analysis = exec(vec![checked(
        "m",
        ModuleKind::Validator,
        vec![TypedDefinition::Validator(validator(code))],
    )]);
    assert!(!analysis.complete);
    assert_eq!(analysis.lines.len(), 3);
}

#[test]
fn the_code_of_a_validator_is_marked() {
    let mut analyzer = AstAnalyzer::new();
    let code = Rc::new(function("spend", vec![], literal()));
    analyzer.register_function_with_module(&code, "validator");
    let lines = analyzer.add_validator(validator(literal()));
    assert_eq!(
        lines,
        vec![
            "  Adding validator: spend".to_string(),
            "  Identified ScriptContext parameter 'ctx' at index 2".to_string(),
        ]
    );
    let info = analyzer.function_table.get("validator::spend").unwrap();
    assert!(info.is_validator);
    assert_eq!(info.script_context_param_index, 2);
    assert_eq!(analyzer.function_table.len(), 1);
}

#[test]
fn the_function_table_lists_every_function() {
    let mut analyzer = AstAnalyzer::new();
    analyzer.register_function_with_module(&Rc::new(function("f", vec!["a"], literal())), "m");
    let lines = analyzer.print_function_table();
    assert_eq!(lines[0], "\nFunction Table:");
    assert_eq!(lines[4], "| m::f                           | 1               |");
    assert_eq!(lines.last().unwrap(), "Total functions: 1");
    assert_eq!(lines.len(), 7);
}

#[test]
fn an_empty_environment_as_text() {
    let lines = SymbolicEnvironment::new().debug_print();
    assert_eq!(lines[0], "\n=== SYMBOLIC ENVIRONMENT STATE ===");
    assert_eq!(lines[1], "ScriptContext not identified");
    assert_eq!(lines[5], "No variables tracked yet");
    assert_eq!(lines[7], "No conditions tracked yet");
    assert_eq!(lines[9], "❌ No duplicate input checking detected");
    assert_eq!(lines.len(), 11);
}

#[test]
fn variables_are_listed_by_name_and_conditions_by_number() {
    let mut env = SymbolicEnvironment::new();
    env.set_script_context("ctx".to_string(), "C".to_string());
    env.add_variable("b".to_string(), SymbolicValue::unknown("T".to_string()));
    let predicate = SymbolicValue::unknown("P".to_string()).as_address_comparison();
    env.add_variable("a".to_string(), predicate.clone());
    let place = Span { start: 3, end: 5 };
    let list = SymbolicValue::new(ValueOrigin::TransactionInputs, "L".to_string());
    env.add_condition(SymbolicCondition::Assertion {
        condition: Box::new(SymbolicCondition::Custom {
            description: "is \"it\"".to_string(),
            relates_to_inputs: false,
            relates_to_output_ref: true,
            location: place,
        }),
        location: place,
    });
    assert!(!env.has_duplicate_input_check());
    env.add_condition(SymbolicCondition::ListOperation {
        operation: "count".to_string(),
        list,
        predicate: Some(predicate),
        location: place,
    });
    assert!(env.has_duplicate_input_check());
    let lines = env.debug_print();
    assert_eq!(lines[1], "ScriptContext parameter: ctx");
    assert!(lines[5].starts_with("a*  "));
    assert!(lines[6].starts_with("b   "));
    assert!(lines[7].starts_with("ctx "));
    assert_eq!(
        lines[9],
        "1. ASSERTION: Custom { description: \"is \\\"it\\\"\", relates_to_inputs: false, relates_to_output_ref: true, location: 3..5 }"
    );
    assert_eq!(
        lines[10],
        "2. LIST.count: on TransactionInputs with predicate Unknown (address comparison)"
    );
    assert_eq!(lines[12], "✅ Duplicate input checking detected");
}

#[test]
fn origins_as_text() {
    let other = ValueOrigin::Other("a\"b".to_string());
    assert_eq!(other.to_text(), "Other(a\"b)");
    assert_eq!(other.to_debug(), "Other(\"a\\\"b\")");
    assert_eq!(ValueOrigin::TokenCount.to_debug(), "TokenCount");
    let value = SymbolicValue::derived(
        ValueOrigin::InputToken,
        "T".to_string(),
        vec![ValueOrigin::TransactionInputs, ValueOrigin::OutputReference],
    );
    assert!(value.is_derived_from_inputs());
    assert!(value.is_derived_from_output_reference());
    assert!(!SymbolicValue::unknown("T".to_string()).is_derived_from_inputs());
}
