//! What symbolic execution means: the result of each expression, as a function of the
//! environment in which it stands.
use crate::analyzer::{bare_name, function_to_inline, FunctionView};
use crate::ast::{
    children, is_comparison, AssignmentKind, BinOp, ClauseGuard, Parameter, Pattern, PatternArg,
    Span, TypedClause, TypedExpr, TypedNode,
};
use crate::environment::{level, with_condition, with_variable, EnvironmentView};
use crate::name_map::lookup;
use crate::value::{
    derived_value, unknown_value, ConditionView, FindingView, OriginView, SecurityPatternKind,
    ValueView,
};
use vstd::prelude::*;

verus! {

/// A result, with its texts as sequences of characters.
#[verifier::ext_equal]
pub struct ResultView {
    pub value: ValueView,
    pub environment: EnvironmentView,
    pub findings: Seq<FindingView>,
    pub uses: Set<OriginView>,
    pub uses_purpose: bool,
    pub uses_inputs: bool,
    pub location: Option<Span>,
    pub function_level: u8,
}

/// The functions that calls may be replaced by, under their qualified names.
pub type Table = Seq<(Seq<char>, FunctionView)>;

/// A result from which nothing was learned yet.
pub open spec fn blank_result(expr: TypedExpr, env: EnvironmentView) -> ResultView {
    ResultView {
        value: unknown_value(expr.tipo@),
        environment: env,
        findings: Seq::empty(),
        uses: Set::empty(),
        uses_purpose: false,
        uses_inputs: false,
        location: Some(expr.location),
        function_level: level(env),
    }
}

/// What was learned before, with what `next` adds to it.
pub open spec fn merged(before: ResultView, next: ResultView) -> ResultView {
    ResultView {
        value: next.value,
        environment: next.environment,
        findings: before.findings + next.findings,
        uses: before.uses.union(next.uses),
        uses_purpose: before.uses_purpose || next.uses_purpose,
        uses_inputs: before.uses_inputs || next.uses_inputs,
        ..before
    }
}

/// What was learned before, with what each of `results` adds to it, in order.
pub open spec fn merged_all(before: ResultView, results: Seq<ResultView>) -> ResultView
    decreases results.len(),
{
    if results.len() == 0 {
        before
    } else {
        merged(merged_all(before, results.drop_last()), results.last())
    }
}

/// The environment after the last of `results`.
pub open spec fn environment_after(env: EnvironmentView, results: Seq<ResultView>) -> EnvironmentView {
    if results.len() == 0 {
        env
    } else {
        results.last().environment
    }
}

/// The result of a variable.
pub open spec fn variable_result(
    expr: TypedExpr,
    name: Seq<char>,
    env: EnvironmentView,
) -> ResultView {
    match lookup(env.variables, name) {
        Some(value) => ResultView {
            value,
            uses: set![value.origin],
            uses_purpose: value.origin is Purpose,
            uses_inputs: value.origin is TransactionInputs,
            ..blank_result(expr, env)
        },
        None => blank_result(expr, env),
    }
}

/// What field `label` of a record of origin `record` is.
pub open spec fn field_origin(record: OriginView, label: Seq<char>) -> OriginView {
    match record {
        OriginView::ScriptContext => {
            if label == "transaction"@ {
                OriginView::Transaction
            } else if label == "purpose"@ {
                OriginView::Purpose
            } else {
                OriginView::Other("ScriptContext."@ + label)
            }
        },
        OriginView::Transaction => {
            if label == "inputs"@ {
                OriginView::TransactionInputs
            } else {
                OriginView::Other("Transaction."@ + label)
            }
        },
        OriginView::Purpose => {
            if label == "output_reference"@ {
                OriginView::OutputReference
            } else {
                OriginView::Other("Purpose."@ + label)
            }
        },
        OriginView::InputToken => {
            if label == "output_reference"@ {
                OriginView::OutputReference
            } else if label == "output"@ {
                OriginView::InputTokenOutput
            } else {
                OriginView::Other("InputToken."@ + label)
            }
        },
        OriginView::InputTokenOutput => {
            if label == "address"@ {
                OriginView::InputTokenAddress
            } else {
                OriginView::Other("InputTokenOutput."@ + label)
            }
        },
        _ => OriginView::Other(label),
    }
}

/// The result of an access to field `label` of a record.
pub open spec fn access_result(expr: TypedExpr, label: Seq<char>, record: ResultView) -> ResultView {
    let origin = field_origin(record.value.origin, label);
    ResultView {
        value: derived_value(origin, expr.tipo@, seq![record.value.origin]),
        uses: record.uses.insert(origin),
        uses_purpose: record.uses_purpose || (record.value.origin is ScriptContext && origin is Purpose),
        uses_inputs: record.uses_inputs || (record.value.origin is Transaction
            && origin is TransactionInputs),
        location: Some(expr.location),
        ..record
    }
}

/// Whether anything is known of a value.
pub open spec fn is_known(value: ValueView) -> bool {
    value.origin != OriginView::Unknown || value.derived_from.len() > 0
}

/// What field `label` is when a value of origin `whole` is taken apart as a `constructor`, and
/// what it is derived from.
pub open spec fn destructured_field(
    constructor: Seq<char>,
    whole: OriginView,
    label: Seq<char>,
) -> Option<(OriginView, Seq<OriginView>)> {
    if constructor == "ScriptContext"@ {
        if whole is ScriptContext && label == "purpose"@ {
            Some((OriginView::Purpose, seq![OriginView::ScriptContext]))
        } else if whole is ScriptContext && label == "transaction"@ {
            Some((OriginView::Transaction, seq![OriginView::ScriptContext]))
        } else {
            None
        }
    } else if constructor == "Transaction"@ {
        if whole is Transaction && label == "inputs"@ {
            Some(
                (
                    OriginView::TransactionInputs,
                    seq![OriginView::ScriptContext, OriginView::Transaction],
                ),
            )
        } else {
            None
        }
    } else if constructor == "Input"@ {
        let sources = seq![
            OriginView::ScriptContext,
            OriginView::Transaction,
            OriginView::InputToken,
        ];
        if whole is InputToken && label == "output_reference"@ {
            Some((OriginView::OutputReference, sources))
        } else if whole is InputToken && label == "output"@ {
            Some((OriginView::InputTokenOutput, sources))
        } else {
            None
        }
    } else if constructor == "Output"@ {
        if whole is InputTokenOutput && label == "address"@ {
            Some(
                (
                    OriginView::InputTokenAddress,
                    seq![
                        OriginView::ScriptContext,
                        OriginView::Transaction,
                        OriginView::InputToken,
                        OriginView::InputTokenOutput,
                    ],
                ),
            )
        } else {
            None
        }
    } else {
        None
    }
}

/// The environment in which the fields of a value that was taken apart are known by the
/// variables that `arguments` give them.
pub open spec fn with_fields(
    env: EnvironmentView,
    constructor: Seq<char>,
    whole: OriginView,
    arguments: Seq<PatternArg>,
    value_type: Seq<char>,
) -> EnvironmentView
    decreases arguments.len(),
{
    if arguments.len() == 0 {
        env
    } else {
        let before = with_fields(env, constructor, whole, arguments.drop_last(), value_type);
        let arg = arguments.last();
        match (arg.label, arg.value) {
            (Some(label), Pattern::Var { name, .. }) => match destructured_field(
                constructor,
                whole,
                label@,
            ) {
                Some((origin, sources)) => with_variable(
                    before,
                    name@,
                    derived_value(origin, value_type, sources),
                ),
                None => before,
            },
            _ => before,
        }
    }
}

/// The environment in which each variable among `arguments` stands for `value`.
pub open spec fn with_each(
    env: EnvironmentView,
    arguments: Seq<PatternArg>,
    value: ValueView,
) -> EnvironmentView
    decreases arguments.len(),
{
    if arguments.len() == 0 {
        env
    } else {
        let before = with_each(env, arguments.drop_last(), value);
        match arguments.last().value {
            Pattern::Var { name, .. } => with_variable(before, name@, value),
            _ => before,
        }
    }
}

/// The condition that the purpose is to spend.
pub open spec fn spending_condition(location: Span) -> ConditionView {
    ConditionView::Assertion {
        condition: Box::new(
            ConditionView::Custom {
                description: "Purpose is Spend"@,
                relates_to_inputs: false,
                relates_to_output_ref: true,
                location,
            },
        ),
        location,
    }
}

/// The condition that an input was found by its output reference.
pub open spec fn found_condition(location: Span) -> ConditionView {
    ConditionView::Custom {
        description: "Output reference validation pattern detected"@,
        relates_to_inputs: true,
        relates_to_output_ref: true,
        location,
    }
}

/// The result of an assignment to one variable.
pub open spec fn named_result(result: ResultView, name: Seq<char>) -> ResultView {
    if is_known(result.value) {
        ResultView { environment: with_variable(result.environment, name, result.value), ..result }
    } else {
        result
    }
}

/// The result of `expect` with a constructor pattern.
pub open spec fn expected_result(
    expr: TypedExpr,
    constructor: Seq<char>,
    arguments: Seq<PatternArg>,
    result: ResultView,
) -> ResultView {
    if constructor == "Spend"@ {
        if result.value.origin is Purpose {
            let reference = derived_value(
                OriginView::OutputReference,
                expr.tipo@,
                seq![OriginView::Purpose],
            );
            ResultView {
                environment: with_condition(
                    with_each(result.environment, arguments, reference),
                    spending_condition(expr.location),
                ),
                uses_purpose: true,
                ..result
            }
        } else {
            result
        }
    } else if constructor == "Some"@ && arguments.len() == 1 && result.value.origin is InputToken {
        match arguments[0].value {
            Pattern::Var { name, .. } => {
                let input = derived_value(
                    OriginView::InputToken,
                    expr.tipo@,
                    seq![OriginView::TransactionInputs, OriginView::OutputReference],
                );
                ResultView {
                    environment: with_condition(
                        with_variable(result.environment, name@, input),
                        found_condition(expr.location),
                    ),
                    uses_purpose: true,
                    uses_inputs: true,
                    ..result
                }
            },
            _ => result,
        }
    } else {
        result
    }
}

/// The result of an assignment, from the result of its value.
pub open spec fn assignment_result(
    expr: TypedExpr,
    kind: AssignmentKind,
    pattern: Pattern,
    value_type: Seq<char>,
    result: ResultView,
) -> ResultView {
    let result = ResultView { location: Some(expr.location), ..result };
    match pattern {
        Pattern::Var { name, .. } => named_result(result, name@),
        Pattern::Constructor { name, arguments, .. } => match kind {
            AssignmentKind::Let => ResultView {
                environment: with_fields(
                    result.environment,
                    name@,
                    result.value.origin,
                    arguments@,
                    value_type,
                ),
                ..result
            },
            AssignmentKind::Expect => expected_result(expr, name@, arguments@, result),
        },
        _ => result,
    }
}

/// The function of the standard list module that `fun` names.
pub open spec fn list_function(fun: TypedExpr) -> Option<Seq<char>> {
    match fun.node {
        TypedNode::ModuleSelect { module_name, label } if module_name@ == "aiken/list"@ => Some(
            label@,
        ),
        _ => None,
    }
}

/// Whether `label` is a list function whose result is tracked.
pub open spec fn is_tracked_list_function(label: Seq<char>) -> bool {
    label == "find"@ || label == "map"@ || label == "count"@
}

/// What an origin that is not tracked is known as.
pub open spec fn untracked_name(origin: OriginView) -> Option<Seq<char>> {
    match origin {
        OriginView::Other(s) => Some(s),
        _ => None,
    }
}

/// What is found in a list: the validator's own input, if the list holds the transaction's
/// inputs and the predicate looks at the output reference.
pub open spec fn found_origin(list: ResultView, predicate: ResultView) -> OriginView {
    if list.value.origin is TransactionInputs && predicate.uses.contains(
        OriginView::OutputReference,
    ) {
        OriginView::InputToken
    } else {
        OriginView::Unknown
    }
}

/// What the elements of a mapped list are.
pub open spec fn mapped_origin(list: ResultView, transform: ResultView) -> OriginView {
    let name = untracked_name(transform.value.origin);
    if list.value.origin is TransactionInputs {
        if transform.uses.contains(OriginView::InputTokenAddress) {
            OriginView::InputTokenAddress
        } else if transform.uses.contains(OriginView::InputTokenOutput) {
            OriginView::InputTokenOutput
        } else if name == Some("address"@) {
            OriginView::InputTokenAddress
        } else if name == Some("output_reference"@) {
            OriginView::OutputReference
        } else if name == Some("output"@) {
            OriginView::InputTokenOutput
        } else if name == Some("inputs"@) {
            OriginView::TransactionInputs
        } else {
            OriginView::Unknown
        }
    } else if list.value.origin is InputTokenOutput && name == Some("address"@) {
        OriginView::InputTokenAddress
    } else {
        OriginView::Unknown
    }
}

/// What the number of elements is: a count of tokens, if the elements are told apart by
/// their address.
pub open spec fn counted_origin(list: ResultView, predicate: ResultView) -> OriginView {
    if list.value.origin is TransactionInputs && predicate.uses.contains(
        OriginView::InputTokenAddress,
    ) {
        OriginView::TokenCount
    } else if untracked_name(predicate.value.origin) == Some("address"@) {
        OriginView::TokenCount
    } else {
        OriginView::Unknown
    }
}

/// What the result of a list function is.
pub open spec fn list_origin(label: Seq<char>, list: ResultView, predicate: ResultView) -> OriginView {
    if label == "find"@ {
        found_origin(list, predicate)
    } else if label == "map"@ {
        mapped_origin(list, predicate)
    } else {
        counted_origin(list, predicate)
    }
}

/// The environment in which the first `n` parameters stand for the values of `results`.
pub open spec fn with_arguments(
    env: EnvironmentView,
    parameters: Seq<Parameter>,
    results: Seq<ResultView>,
    n: nat,
) -> EnvironmentView
    decreases n,
{
    if n == 0 {
        env
    } else {
        let i = n - 1;
        with_variable(
            with_arguments(env, parameters, results, i as nat),
            bare_name(parameters[i].arg_name@),
            results[i].value,
        )
    }
}

/// The environment of a function body, before its parameters are known.
pub open spec fn entered(env: EnvironmentView) -> EnvironmentView {
    EnvironmentView { function_level: Some((level(env) + 1) as u8), ..env }
}

/// Whether a guard checks for duplicate inputs.
pub open spec fn guard_checks_duplicates(guard: ClauseGuard) -> bool
    decreases guard,
{
    match guard {
        ClauseGuard::Equals { left, right, .. } => guard_checks_duplicates(*left)
            || guard_checks_duplicates(*right),
        ClauseGuard::NotEquals { left, right, .. } => guard_checks_duplicates(*left)
            || guard_checks_duplicates(*right),
        ClauseGuard::And { left, right, .. } => guard_checks_duplicates(*left)
            || guard_checks_duplicates(*right),
        ClauseGuard::Or { left, right, .. } => guard_checks_duplicates(*left)
            || guard_checks_duplicates(*right),
        ClauseGuard::Other { .. } => false,
    }
}

/// What the guard of a clause shows.
pub open spec fn guard_findings(clause: TypedClause) -> Seq<FindingView> {
    match clause.guard {
        Some(guard) if guard_checks_duplicates(guard) => seq![
            FindingView {
                kind: SecurityPatternKind::DuplicateInputCheck,
                confidence: 90,
                location: guard.span(),
                description: "Duplicate input check found in When clause guard"@,
            },
        ],
        _ => Seq::empty(),
    }
}

/// The variable that a clause gives to the output reference of a spending purpose.
pub open spec fn spending_variable(subject: ValueView, clause: TypedClause) -> Option<Seq<char>> {
    match clause.pattern {
        Pattern::Constructor { name, arguments, .. } if subject.origin is Purpose && name@
            == "Spend"@ && arguments@.len() == 1 => match arguments@[0].value {
            Pattern::Var { name, .. } => Some(name@),
            _ => None,
        },
        _ => None,
    }
}

/// The environment of a clause.
pub open spec fn clause_environment(
    env: EnvironmentView,
    subject: ValueView,
    subject_type: Seq<char>,
    clause: TypedClause,
) -> EnvironmentView {
    match spending_variable(subject, clause) {
        Some(name) => with_condition(
            with_variable(
                env,
                name,
                derived_value(
                    OriginView::OutputReference,
                    subject_type,
                    seq![OriginView::Purpose],
                ),
            ),
            spending_condition(clause.pattern.span()),
        ),
        None => env,
    }
}

/// What was learned before, with what a clause adds to it. The environment stays.
pub open spec fn with_clause(
    before: ResultView,
    subject: ValueView,
    clause: TypedClause,
    body: ResultView,
) -> ResultView {
    ResultView {
        value: body.value,
        findings: before.findings + guard_findings(clause) + body.findings,
        uses: before.uses.union(body.uses),
        uses_purpose: before.uses_purpose || spending_variable(subject, clause) is Some
            || body.uses_purpose,
        uses_inputs: before.uses_inputs || body.uses_inputs,
        ..before
    }
}

/// The result of a binary operator.
pub open spec fn operator_result(
    expr: TypedExpr,
    op: BinOp,
    left: ResultView,
    right: ResultView,
) -> ResultView {
    let found = if is_comparison(op) && (left.value.origin is TokenCount
        || right.value.origin is TokenCount) {
        seq![
            FindingView {
                kind: SecurityPatternKind::InputTokenCountComparison,
                confidence: 80,
                location: expr.location,
                description: "Token count comparison detected"@,
            },
        ]
    } else {
        Seq::empty()
    };
    ResultView {
        value: right.value,
        environment: right.environment,
        findings: left.findings + right.findings + found,
        uses: left.uses.union(right.uses),
        uses_purpose: left.uses_purpose || right.uses_purpose,
        uses_inputs: left.uses_inputs || right.uses_inputs,
        location: Some(expr.location),
        function_level: left.function_level,
    }
}

/// The result of a call, from the result `fun_result` of what is called, the results of the
/// arguments, and the result of the body of the function that stands in for the call.
pub open spec fn call_result(
    expr: TypedExpr,
    fun: TypedExpr,
    env: EnvironmentView,
    fun_result: ResultView,
    arg_results: Seq<ResultView>,
    body: Option<ResultView>,
) -> ResultView {
    let learned = ResultView {
        function_level: fun_result.function_level,
        ..merged_all(merged(blank_result(expr, env), fun_result), arg_results)
    };
    let unknown = ResultView { value: unknown_value(expr.tipo@), ..learned };
    match list_function(fun) {
        Some(label) => if is_tracked_list_function(label) {
            ResultView {
                value: derived_value(
                    list_origin(label, arg_results[0], arg_results[1]),
                    expr.tipo@,
                    Seq::empty(),
                ),
                ..learned
            }
        } else {
            unknown
        },
        None => match body {
            Some(b) => ResultView {
                value: b.value,
                findings: learned.findings + b.findings,
                uses: b.uses,
                uses_purpose: learned.uses_purpose || b.uses_purpose,
                uses_inputs: learned.uses_inputs || b.uses_inputs,
                ..learned
            },
            None => unknown,
        },
    }
}

/// The function whose body is executed in place of a call of `fun` with `n` arguments. Only the
/// calls of a validator's own code are replaced (`top`), not those inside a called function.
pub open spec fn inlined(table: Table, fun: TypedExpr, n: nat, top: bool) -> Option<FunctionView> {
    match function_to_inline(table, fun) {
        Some(info) if top && list_function(fun) is None && info.definition.arguments@.len() == n =>
            Some(info),
        _ => None,
    }
}

/// Whether the expressions of an environment stand outside every called function.
pub open spec fn at_top(env: EnvironmentView) -> bool {
    level(env) == 0
}

/// What the execution of `expr` in `env` gives.
///
/// Outside every called function, the body of a function stands in for a call of it. Inside,
/// a call shows only what its arguments show.
pub open spec fn execute(table: Table, expr: TypedExpr, env: EnvironmentView) -> ResultView {
    execute_at(table, expr, env, at_top(env))
}

/// How many calls that are replaced by a function's body can enclose one another.
pub open spec fn calls_left(top: bool) -> nat {
    if top {
        1
    } else {
        0
    }
}

/// What the execution of `expr` in `env` gives, outside every called function (`top`) or inside
/// one.
pub open spec fn execute_at(table: Table, expr: TypedExpr, env: EnvironmentView, top: bool) -> ResultView
    decreases calls_left(top), expr, children(expr).len() + 1,
{
    match expr.node {
        TypedNode::Var { name } => variable_result(expr, name@, env),
        TypedNode::RecordAccess { label, record } => access_result(
            expr,
            label@,
            execute_at(table, *record, env, top),
        ),
        TypedNode::Assignment { kind, pattern, value } => assignment_result(
            expr,
            kind,
            pattern,
            value.tipo@,
            execute_at(table, *value, env, top),
        ),
        TypedNode::Call { fun, args } => {
            let fun_result = execute_at(table, *fun, env, top);
            let arg_results = execute_each(table, args@, fun_result.environment, top);
            let body = match inlined(table, *fun, args@.len(), top) {
                Some(info) => Some(
                    execute_at(
                        table,
                        info.body,
                        with_arguments(
                            entered(environment_after(fun_result.environment, arg_results)),
                            info.definition.arguments@,
                            arg_results,
                            args@.len(),
                        ),
                        false,
                    ),
                ),
                None => None,
            };
            call_result(expr, *fun, env, fun_result, arg_results, body)
        },
        TypedNode::Fn { body } => ResultView {
            environment: env,
            location: Some(expr.location),
            ..execute_at(table, *body, env, top)
        },
        TypedNode::BinOp { op, left, right } => operator_result(
            expr,
            op,
            execute_at(table, *left, env, top),
            execute_at(table, *right, env, top),
        ),
        TypedNode::When { subject, clauses } => {
            let subject_result = execute_at(table, *subject, env, top);
            ResultView {
                location: Some(expr.location),
                ..execute_clauses(table, subject_result, subject.tipo@, clauses@, top)
            }
        },
        _ => merged_all(
            blank_result(expr, env),
            execute_children(table, expr, children(expr).len(), env, top),
        ),
    }
}

/// What the execution of `exprs` gives, each in the environment after the one before it.
pub open spec fn execute_each(
    table: Table,
    exprs: Seq<TypedExpr>,
    env: EnvironmentView,
    top: bool,
) -> Seq<ResultView>
    decreases calls_left(top), exprs, 0nat,
{
    if exprs.len() == 0 {
        Seq::empty()
    } else {
        let before = execute_each(table, exprs.drop_last(), env, top);
        before.push(execute_at(table, exprs.last(), environment_after(env, before), top))
    }
}

/// What the execution of the first `n` expressions directly inside `expr` gives, each in the
/// environment after the one before it.
pub open spec fn execute_children(
    table: Table,
    expr: TypedExpr,
    n: nat,
    env: EnvironmentView,
    top: bool,
) -> Seq<ResultView>
    decreases calls_left(top), expr, n,
{
    if n == 0 || n > children(expr).len() {
        Seq::empty()
    } else {
        let before = execute_children(table, expr, (n - 1) as nat, env, top);
        proof {
            crate::ast::lemma_child_is_smaller(expr, n - 1);
        }
        before.push(
            execute_at(table, children(expr)[n - 1], environment_after(env, before), top),
        )
    }
}

/// What is learned from a subject and the clauses that look at it.
pub open spec fn execute_clauses(
    table: Table,
    subject: ResultView,
    subject_type: Seq<char>,
    clauses: Seq<TypedClause>,
    top: bool,
) -> ResultView
    decreases calls_left(top), clauses, 0nat,
{
    if clauses.len() == 0 {
        subject
    } else {
        let before = execute_clauses(table, subject, subject_type, clauses.drop_last(), top);
        let clause = clauses.last();
        let body = execute_at(
            table,
            clause.body,
            clause_environment(subject.environment, subject.value, subject_type, clause),
            top,
        );
        with_clause(before, subject.value, clause, body)
    }
}

/// Whether every call of a tracked list function that the execution of `expr` comes to has a
/// list and a predicate.
pub open spec fn has_complete_calls(table: Table, expr: TypedExpr, top: bool) -> bool
    decreases calls_left(top), expr,
{
    match expr.node {
        TypedNode::Call { fun, args } => {
            &&& has_complete_calls(table, *fun, top)
            &&& forall|i: int|
                0 <= i < args@.len() ==> has_complete_calls(table, #[trigger] args@[i], top)
            &&& match list_function(*fun) {
                Some(label) => is_tracked_list_function(label) ==> args@.len() >= 2,
                None => match inlined(table, *fun, args@.len(), top) {
                    Some(info) => has_complete_calls(table, info.body, false),
                    None => true,
                },
            }
        },
        TypedNode::When { subject, clauses } => {
            &&& has_complete_calls(table, *subject, top)
            &&& forall|i: int|
                0 <= i < clauses@.len() ==> has_complete_calls(
                    table,
                    (#[trigger] clauses@[i]).body,
                    top,
                )
        },
        _ => {
            proof {
                assert forall|i: int| 0 <= i < children(expr).len() implies decreases_to!(expr =>
                    #[trigger] children(expr)[i]) by {
                    crate::ast::lemma_child_is_smaller(expr, i);
                }
            }
            forall|i: int|
                0 <= i < children(expr).len() ==> has_complete_calls(
                    table,
                    #[trigger] children(expr)[i],
                    top,
                )
        },
    }
}

/// A result, and the environment after an expression, are at the level of the environment
/// before it.
pub proof fn law_levels(table: Table, expr: TypedExpr, env: EnvironmentView)
    ensures
        execute(table, expr, env).environment.function_level == env.function_level,
        execute(table, expr, env).function_level == level(env),
{
    lemma_levels(table, expr, env, at_top(env));
}

pub proof fn lemma_levels(table: Table, expr: TypedExpr, env: EnvironmentView, top: bool)
    ensures
        execute_at(table, expr, env, top).environment.function_level == env.function_level,
        execute_at(table, expr, env, top).function_level == level(env),
    decreases calls_left(top), expr, children(expr).len() + 1,
{
    match expr.node {
        TypedNode::RecordAccess { record, .. } => {
            lemma_levels(table, *record, env, top);
        },
        TypedNode::Assignment { kind, pattern, value } => {
            lemma_levels(table, *value, env, top);
            let result = execute_at(table, *value, env, top);
            if let Pattern::Constructor { name, arguments, .. } = pattern {
                lemma_with_fields_level(
                    result.environment,
                    name@,
                    result.value.origin,
                    arguments@,
                    value.tipo@,
                );
                let reference = derived_value(
                    OriginView::OutputReference,
                    expr.tipo@,
                    seq![OriginView::Purpose],
                );
                lemma_with_each_level(result.environment, arguments@, reference);
            }
        },
        TypedNode::Call { fun, args } => {
            lemma_levels(table, *fun, env, top);
            let fun_result = execute_at(table, *fun, env, top);
            lemma_levels_each(table, args@, fun_result.environment, top);
            let arg_results = execute_each(table, args@, fun_result.environment, top);
            lemma_merged_all(merged(blank_result(expr, env), fun_result), arg_results);
        },
        TypedNode::Fn { body } => {
            lemma_levels(table, *body, env, top);
        },
        TypedNode::BinOp { left, right, .. } => {
            lemma_levels(table, *left, env, top);
            lemma_levels(table, *right, env, top);
        },
        TypedNode::When { subject, clauses } => {
            lemma_levels(table, *subject, env, top);
            let subject_result = execute_at(table, *subject, env, top);
            lemma_clauses_keep(table, subject_result, subject.tipo@, clauses@, top);
        },
        TypedNode::Var { .. } => {},
        _ => {
            let n = children(expr).len();
            lemma_levels_children(table, expr, n, env, top);
            lemma_merged_all(
                blank_result(expr, env),
                execute_children(table, expr, n, env, top),
            );
        },
    }
}

pub proof fn lemma_levels_each(
    table: Table,
    exprs: Seq<TypedExpr>,
    env: EnvironmentView,
    top: bool,
)
    ensures
        execute_each(table, exprs, env, top).len() == exprs.len(),
        environment_after(env, execute_each(table, exprs, env, top)).function_level
            == env.function_level,
    decreases calls_left(top), exprs, 0nat,
{
    if exprs.len() > 0 {
        lemma_levels_each(table, exprs.drop_last(), env, top);
        let before = execute_each(table, exprs.drop_last(), env, top);
        lemma_levels(table, exprs.last(), environment_after(env, before), top);
    }
}

pub proof fn lemma_levels_children(
    table: Table,
    expr: TypedExpr,
    n: nat,
    env: EnvironmentView,
    top: bool,
)
    requires
        n <= children(expr).len(),
    ensures
        execute_children(table, expr, n, env, top).len() == n,
        environment_after(env, execute_children(table, expr, n, env, top)).function_level
            == env.function_level,
    decreases calls_left(top), expr, n,
{
    if n > 0 {
        lemma_levels_children(table, expr, (n - 1) as nat, env, top);
        let before = execute_children(table, expr, (n - 1) as nat, env, top);
        crate::ast::lemma_child_is_smaller(expr, n - 1);
        lemma_levels(table, children(expr)[n - 1], environment_after(env, before), top);
    }
}

pub proof fn lemma_merged_all(before: ResultView, results: Seq<ResultView>)
    ensures
        merged_all(before, results).environment == environment_after(before.environment, results),
        merged_all(before, results).function_level == before.function_level,
        merged_all(before, results).location == before.location,
    decreases results.len(),
{
    if results.len() > 0 {
        lemma_merged_all(before, results.drop_last());
    }
}

pub proof fn lemma_clauses_keep(
    table: Table,
    subject: ResultView,
    subject_type: Seq<char>,
    clauses: Seq<TypedClause>,
    top: bool,
)
    ensures
        execute_clauses(table, subject, subject_type, clauses, top).environment
            == subject.environment,
        execute_clauses(table, subject, subject_type, clauses, top).function_level
            == subject.function_level,
    decreases clauses.len(),
{
    if clauses.len() > 0 {
        lemma_clauses_keep(table, subject, subject_type, clauses.drop_last(), top);
    }
}

pub proof fn lemma_with_fields_level(
    env: EnvironmentView,
    constructor: Seq<char>,
    whole: OriginView,
    arguments: Seq<PatternArg>,
    value_type: Seq<char>,
)
    ensures
        with_fields(env, constructor, whole, arguments, value_type).function_level
            == env.function_level,
    decreases arguments.len(),
{
    if arguments.len() > 0 {
        lemma_with_fields_level(env, constructor, whole, arguments.drop_last(), value_type);
    }
}

pub proof fn lemma_with_each_level(env: EnvironmentView, arguments: Seq<PatternArg>, value: ValueView)
    ensures
        with_each(env, arguments, value).function_level == env.function_level,
    decreases arguments.len(),
{
    if arguments.len() > 0 {
        lemma_with_each_level(env, arguments.drop_last(), value);
    }
}

pub proof fn lemma_with_arguments_level(
    env: EnvironmentView,
    parameters: Seq<Parameter>,
    results: Seq<ResultView>,
    n: nat,
)
    ensures
        with_arguments(env, parameters, results, n).function_level == env.function_level,
    decreases n,
{
    if n > 0 {
        lemma_with_arguments_level(env, parameters, results, (n - 1) as nat);
    }
}

} // verus!
