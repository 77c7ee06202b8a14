//! What holds of every execution.
use crate::analyzer::{function_to_inline, FunctionView};
use crate::ast::{
    children, lemma_child_is_smaller, ClauseGuard, Pattern, PatternArg, TypedClause, TypedExpr,
    TypedNode,
};
use crate::environment::{level, with_variable, EnvironmentView};
use crate::name_map::{lemma_position, lookup, position};
use crate::report::law_parts_are_complete;
use crate::semantics::{
    at_top, blank_result, calls_left, clause_environment, destructured_field, entered,
    environment_after, execute, execute_at, execute_children, execute_clauses, execute_each,
    guard_checks_duplicates, guard_findings, has_complete_calls, inlined, is_tracked_list_function,
    lemma_clauses_keep, lemma_levels, lemma_levels_each, lemma_merged_all,
    lemma_with_arguments_level, list_function, merged, merged_all, with_arguments, with_each,
    with_fields, ResultView, Table,
};
use crate::value::{derived_value, unknown_value, FindingView, OriginView, ValueView};
use vstd::prelude::*;

verus! {

/// Every result stands at the place of its expression.
pub proof fn law_locations(table: Table, expr: TypedExpr, env: EnvironmentView)
    ensures
        execute(table, expr, env).location == Some(expr.location),
{
    let top = at_top(env);
    match expr.node {
        TypedNode::Call { fun, args } => {
            let fun_result = execute_at(table, *fun, env, top);
            let arg_results = execute_each(table, args@, fun_result.environment, top);
            lemma_merged_all(merged(blank_result(expr, env), fun_result), arg_results);
        },
        TypedNode::RecordAccess { .. } => {},
        TypedNode::Assignment { .. } => {},
        TypedNode::Fn { .. } => {},
        TypedNode::BinOp { .. } => {},
        TypedNode::When { .. } => {},
        TypedNode::Var { .. } => {},
        _ => {
            lemma_merged_all(
                blank_result(expr, env),
                execute_children(table, expr, children(expr).len(), env, top),
            );
        },
    }
}

/// Whether `after` knows at least what `before` knows: the script context is the same, no
/// condition is lost, and every variable keeps its place.
pub open spec fn extends(before: EnvironmentView, after: EnvironmentView) -> bool {
    &&& after.script_context_name == before.script_context_name
    &&& before.conditions.len() <= after.conditions.len()
    &&& forall|i: int|
        0 <= i < before.conditions.len() ==> #[trigger] after.conditions[i]
            == before.conditions[i]
    &&& before.variables.len() <= after.variables.len()
    &&& forall|i: int|
        0 <= i < before.variables.len() ==> (#[trigger] after.variables[i]).0
            == before.variables[i].0
}

proof fn lemma_extends_trans(a: EnvironmentView, b: EnvironmentView, c: EnvironmentView)
    requires
        extends(a, b),
        extends(b, c),
    ensures
        extends(a, c),
{
    assert forall|i: int| 0 <= i < a.conditions.len() implies #[trigger] c.conditions[i]
        == a.conditions[i] by {
        assert(b.conditions[i] == a.conditions[i]);
    }
    assert forall|i: int| 0 <= i < a.variables.len() implies (#[trigger] c.variables[i]).0
        == a.variables[i].0 by {
        assert(b.variables[i].0 == a.variables[i].0);
    }
}

proof fn lemma_extends_variable(env: EnvironmentView, name: Seq<char>, value: ValueView)
    ensures
        extends(env, with_variable(env, name, value)),
{
    lemma_position(env.variables, name);
}

proof fn lemma_extends_fields(
    env: EnvironmentView,
    constructor: Seq<char>,
    whole: OriginView,
    arguments: Seq<PatternArg>,
    value_type: Seq<char>,
)
    ensures
        extends(env, with_fields(env, constructor, whole, arguments, value_type)),
    decreases arguments.len(),
{
    if arguments.len() > 0 {
        let before = with_fields(env, constructor, whole, arguments.drop_last(), value_type);
        let after = with_fields(env, constructor, whole, arguments, value_type);
        lemma_extends_fields(env, constructor, whole, arguments.drop_last(), value_type);
        let arg = arguments.last();
        if let Some(label) = arg.label {
            if let Pattern::Var { name, .. } = arg.value {
                if let Some((origin, sources)) = destructured_field(
                    constructor,
                    whole,
                    label@,
                ) {
                    lemma_extends_variable(
                        before,
                        name@,
                        derived_value(origin, value_type, sources),
                    );
                    lemma_extends_trans(env, before, after);
                }
            }
        }
    }
}

proof fn lemma_extends_each(env: EnvironmentView, arguments: Seq<PatternArg>, value: ValueView)
    ensures
        extends(env, with_each(env, arguments, value)),
    decreases arguments.len(),
{
    if arguments.len() > 0 {
        let before = with_each(env, arguments.drop_last(), value);
        lemma_extends_each(env, arguments.drop_last(), value);
        if let Pattern::Var { name, .. } = arguments.last().value {
            lemma_extends_variable(before, name@, value);
            lemma_extends_trans(env, before, with_each(env, arguments, value));
        }
    }
}

/// Execution never forgets: what is known before an expression is known after it. The script
/// context is the same, the conditions met are still there, and a variable that stands for
/// something still stands for something.
pub proof fn law_nothing_forgotten(
    table: Table,
    expr: TypedExpr,
    env: EnvironmentView,
)
    ensures
        extends(env, execute(table, expr, env).environment),
        forall|name: Seq<char>|
            lookup(env.variables, name) is Some ==> #[trigger] lookup(
                execute(table, expr, env).environment.variables,
                name,
            ) is Some,
{
    lemma_execution_extends(table, expr, env, at_top(env));
    let after = execute(table, expr, env).environment;
    assert forall|name: Seq<char>| lookup(env.variables, name) is Some implies #[trigger] lookup(
        after.variables,
        name,
    ) is Some by {
        lemma_position(env.variables, name);
        lemma_position(after.variables, name);
        let i = position(env.variables, name).unwrap();
        assert(after.variables[i].0 == name);
    }
}

proof fn lemma_execution_extends(
    table: Table,
    expr: TypedExpr,
    env: EnvironmentView,
    top: bool,
)
    ensures
        extends(env, execute_at(table, expr, env, top).environment),
    decreases expr, children(expr).len() + 1,
{
    match expr.node {
        TypedNode::RecordAccess { record, .. } => {
            lemma_execution_extends(table, *record, env, top);
        },
        TypedNode::Assignment { kind, pattern, value } => {
            lemma_execution_extends(table, *value, env, top);
            let result = execute_at(table, *value, env, top);
            let after = execute_at(table, expr, env, top).environment;
            match pattern {
                Pattern::Var { name, .. } => {
                    lemma_extends_variable(result.environment, name@, result.value);
                },
                Pattern::Constructor { name, arguments, .. } => {
                    lemma_extends_fields(
                        result.environment,
                        name@,
                        result.value.origin,
                        arguments@,
                        value.tipo@,
                    );
                    let reference = derived_value(
                        OriginView::OutputReference,
                        expr.tipo@,
                        seq![OriginView::Purpose],
                    );
                    lemma_extends_each(result.environment, arguments@, reference);
                    if arguments@.len() == 1 {
                        if let Pattern::Var { name, .. } = arguments@[0].value {
                            let input = derived_value(
                                OriginView::InputToken,
                                expr.tipo@,
                                seq![OriginView::TransactionInputs, OriginView::OutputReference],
                            );
                            lemma_extends_variable(result.environment, name@, input);
                        }
                    }
                },
                _ => {},
            }
            assert(extends(result.environment, after));
            lemma_extends_trans(env, result.environment, after);
        },
        TypedNode::Call { fun, args } => {
            lemma_execution_extends(table, *fun, env, top);
            let fun_result = execute_at(table, *fun, env, top);
            lemma_each_extends(table, args@, fun_result.environment, top);
            let arg_results = execute_each(table, args@, fun_result.environment, top);
            lemma_merged_all(merged(blank_result(expr, env), fun_result), arg_results);
            lemma_extends_trans(
                env,
                fun_result.environment,
                environment_after(fun_result.environment, arg_results),
            );
        },
        TypedNode::BinOp { right, .. } => {
            lemma_execution_extends(table, *right, env, top);
        },
        TypedNode::When { subject, clauses } => {
            lemma_execution_extends(table, *subject, env, top);
            let subject_result = execute_at(table, *subject, env, top);
            lemma_clauses_keep(table, subject_result, subject.tipo@, clauses@, top);
        },
        TypedNode::Fn { .. } => {},
        TypedNode::Var { .. } => {},
        _ => {
            let n = children(expr).len();
            lemma_children_extend(table, expr, n, env, top);
            lemma_merged_all(
                blank_result(expr, env),
                execute_children(table, expr, n, env, top),
            );
        },
    }
}

proof fn lemma_each_extends(
    table: Table,
    exprs: Seq<TypedExpr>,
    env: EnvironmentView,
    top: bool,
)
    ensures
        extends(env, environment_after(env, execute_each(table, exprs, env, top))),
    decreases exprs, 0nat,
{
    if exprs.len() > 0 {
        lemma_each_extends(table, exprs.drop_last(), env, top);
        let before = execute_each(table, exprs.drop_last(), env, top);
        lemma_execution_extends(table, exprs.last(), environment_after(env, before), top);
        lemma_extends_trans(
            env,
            environment_after(env, before),
            environment_after(env, execute_each(table, exprs, env, top)),
        );
    }
}

proof fn lemma_children_extend(
    table: Table,
    expr: TypedExpr,
    n: nat,
    env: EnvironmentView,
    top: bool,
)
    requires
        n <= children(expr).len(),
    ensures
        extends(env, environment_after(env, execute_children(table, expr, n, env, top))),
    decreases expr, n,
{
    if n > 0 {
        lemma_children_extend(table, expr, (n - 1) as nat, env, top);
        let before = execute_children(table, expr, (n - 1) as nat, env, top);
        lemma_child_is_smaller(expr, n - 1);
        lemma_execution_extends(
            table,
            children(expr)[n - 1],
            environment_after(env, before),
            top,
        );
        lemma_extends_trans(
            env,
            environment_after(env, before),
            environment_after(env, execute_children(table, expr, n, env, top)),
        );
    }
}

/// No guard is recognised as a check for duplicate inputs.
pub proof fn law_guards(guard: ClauseGuard)
    ensures
        !guard_checks_duplicates(guard),
    decreases guard,
{
    match guard {
        ClauseGuard::Equals { left, right, .. } => {
            law_guards(*left);
            law_guards(*right);
        },
        ClauseGuard::NotEquals { left, right, .. } => {
            law_guards(*left);
            law_guards(*right);
        },
        ClauseGuard::And { left, right, .. } => {
            law_guards(*left);
            law_guards(*right);
        },
        ClauseGuard::Or { left, right, .. } => {
            law_guards(*left);
            law_guards(*right);
        },
        ClauseGuard::Other { .. } => {},
    }
}

/// Whether a finding tells of a comparison with a count of tokens.
pub open spec fn is_count_comparison(f: FindingView) -> bool {
    &&& f.kind is InputTokenCountComparison
    &&& f.confidence == 80
    &&& f.description == "Token count comparison detected"@
}

/// Whether all findings tell of comparisons with counts of tokens.
pub open spec fn only_count_comparisons(findings: Seq<FindingView>) -> bool {
    forall|i: int| 0 <= i < findings.len() ==> is_count_comparison(#[trigger] findings[i])
}

/// All that is ever found is comparisons with counts of tokens.
pub proof fn law_findings(table: Table, expr: TypedExpr, env: EnvironmentView)
    ensures
        only_count_comparisons(execute(table, expr, env).findings),
{
    lemma_findings(table, expr, env, at_top(env));
}

proof fn lemma_findings(table: Table, expr: TypedExpr, env: EnvironmentView, top: bool)
    ensures
        only_count_comparisons(execute_at(table, expr, env, top).findings),
    decreases calls_left(top), expr, children(expr).len() + 1,
{
    match expr.node {
        TypedNode::RecordAccess { record, .. } => {
            lemma_findings(table, *record, env, top);
        },
        TypedNode::Assignment { value, .. } => {
            lemma_findings(table, *value, env, top);
        },
        TypedNode::Call { fun, args } => {
            lemma_findings(table, *fun, env, top);
            let fun_result = execute_at(table, *fun, env, top);
            lemma_findings_each(table, args@, fun_result.environment, top);
            let arg_results = execute_each(table, args@, fun_result.environment, top);
            let start = merged(blank_result(expr, env), fun_result);
            assert(start.findings =~= fun_result.findings);
            lemma_merged_findings(start, arg_results);
            match inlined(table, *fun, args@.len(), top) {
                Some(info) => {
                    let inner = with_arguments(
                        entered(environment_after(fun_result.environment, arg_results)),
                        info.definition.arguments@,
                        arg_results,
                        args@.len(),
                    );
                    lemma_findings(table, info.body, inner, false);
                },
                _ => {},
            }
        },
        TypedNode::Fn { body } => {
            lemma_findings(table, *body, env, top);
        },
        TypedNode::BinOp { left, right, .. } => {
            lemma_findings(table, *left, env, top);
            lemma_findings(table, *right, env, top);
        },
        TypedNode::When { subject, clauses } => {
            lemma_findings(table, *subject, env, top);
            lemma_findings_clauses(
                table,
                execute_at(table, *subject, env, top),
                subject.tipo@,
                clauses@,
                top,
            );
        },
        TypedNode::Var { .. } => {},
        _ => {
            let n = children(expr).len();
            lemma_findings_children(table, expr, n, env, top);
            lemma_merged_findings(
                blank_result(expr, env),
                execute_children(table, expr, n, env, top),
            );
        },
    }
}

proof fn lemma_findings_each(
    table: Table,
    exprs: Seq<TypedExpr>,
    env: EnvironmentView,
    top: bool,
)
    ensures
        forall|i: int|
            0 <= i < execute_each(table, exprs, env, top).len() ==> only_count_comparisons(
                (#[trigger] execute_each(table, exprs, env, top)[i]).findings,
            ),
    decreases calls_left(top), exprs, 0nat,
{
    if exprs.len() > 0 {
        lemma_findings_each(table, exprs.drop_last(), env, top);
        let before = execute_each(table, exprs.drop_last(), env, top);
        lemma_findings(table, exprs.last(), environment_after(env, before), top);
    }
}

proof fn lemma_findings_children(
    table: Table,
    expr: TypedExpr,
    n: nat,
    env: EnvironmentView,
    top: bool,
)
    requires
        n <= children(expr).len(),
    ensures
        forall|i: int|
            0 <= i < execute_children(table, expr, n, env, top).len()
                ==> only_count_comparisons(
                (#[trigger] execute_children(table, expr, n, env, top)[i]).findings,
            ),
    decreases calls_left(top), expr, n,
{
    if n > 0 {
        lemma_findings_children(table, expr, (n - 1) as nat, env, top);
        let before = execute_children(table, expr, (n - 1) as nat, env, top);
        lemma_child_is_smaller(expr, n - 1);
        lemma_findings(table, children(expr)[n - 1], environment_after(env, before), top);
    }
}

proof fn lemma_merged_findings(before: ResultView, results: Seq<ResultView>)
    requires
        only_count_comparisons(before.findings),
        forall|i: int|
            0 <= i < results.len() ==> only_count_comparisons((#[trigger] results[i]).findings),
    ensures
        only_count_comparisons(merged_all(before, results).findings),
    decreases results.len(),
{
    if results.len() > 0 {
        assert forall|i: int| 0 <= i < results.drop_last().len() implies only_count_comparisons(
            (#[trigger] results.drop_last()[i]).findings,
        ) by {
            assert(results.drop_last()[i] == results[i]);
        }
        lemma_merged_findings(before, results.drop_last());
        assert(only_count_comparisons(results[results.len() - 1].findings));
    }
}

proof fn lemma_findings_clauses(
    table: Table,
    subject: ResultView,
    subject_type: Seq<char>,
    clauses: Seq<TypedClause>,
    top: bool,
)
    requires
        only_count_comparisons(subject.findings),
    ensures
        only_count_comparisons(
            execute_clauses(table, subject, subject_type, clauses, top).findings,
        ),
    decreases calls_left(top), clauses, 0nat,
{
    if clauses.len() > 0 {
        lemma_findings_clauses(table, subject, subject_type, clauses.drop_last(), top);
        let clause = clauses.last();
        lemma_findings(
            table,
            clause.body,
            clause_environment(subject.environment, subject.value, subject_type, clause),
            top,
        );
        if let Some(guard) = clause.guard {
            law_guards(guard);
        }
    }
}

/// Whether `part` stands in `whole`, at any depth.
pub open spec fn stands_in(part: TypedExpr, whole: TypedExpr) -> bool
    decreases whole,
{
    proof {
        assert forall|i: int| 0 <= i < children(whole).len() implies decreases_to!(whole =>
            #[trigger] children(whole)[i]) by {
            lemma_child_is_smaller(whole, i);
        }
    }
    ||| part == whole
    ||| exists|i: int|
        0 <= i < children(whole).len() && stands_in(part, #[trigger] children(whole)[i])
}

/// If an expression can be executed, so can everything that stands in it.
pub proof fn law_inner_parts_are_complete(
    table: Table,
    part: TypedExpr,
    whole: TypedExpr,
    top: bool,
)
    requires
        stands_in(part, whole),
        has_complete_calls(table, whole, top),
    ensures
        has_complete_calls(table, part, top),
    decreases whole,
{
    if part != whole {
        let i = choose|i: int|
            0 <= i < children(whole).len() && stands_in(part, #[trigger] children(whole)[i]);
        lemma_child_is_smaller(whole, i);
        law_parts_are_complete(table, whole, top, i);
        law_inner_parts_are_complete(table, part, children(whole)[i], top);
    }
}

/// The results of the clauses' bodies, in order.
pub open spec fn clause_results(
    table: Table,
    subject: ResultView,
    subject_type: Seq<char>,
    clauses: Seq<TypedClause>,
    top: bool,
) -> Seq<ResultView> {
    Seq::new(
        clauses.len(),
        |i: int|
            execute_at(
                table,
                clauses[i].body,
                clause_environment(subject.environment, subject.value, subject_type, clauses[i]),
                top,
            ),
    )
}

/// The results of all that is executed for `expr`: the expressions inside it, each in the
/// environment in which it stands, and the body of the function that it calls.
pub open spec fn part_results(
    table: Table,
    expr: TypedExpr,
    env: EnvironmentView,
) -> Seq<ResultView> {
    let top = at_top(env);
    match expr.node {
        TypedNode::Var { .. } => Seq::empty(),
        TypedNode::RecordAccess { record, .. } => seq![execute_at(table, *record, env, top)],
        TypedNode::Assignment { value, .. } => seq![execute_at(table, *value, env, top)],
        TypedNode::Call { fun, args } => {
            let fun_result = execute_at(table, *fun, env, top);
            let arg_results = execute_each(table, args@, fun_result.environment, top);
            let inside = seq![fun_result] + arg_results;
            match inlined(table, *fun, args@.len(), top) {
                Some(info) => inside.push(
                    execute_at(
                        table,
                        info.body,
                        with_arguments(
                            entered(environment_after(fun_result.environment, arg_results)),
                            info.definition.arguments@,
                            arg_results,
                            args@.len(),
                        ),
                        false,
                    ),
                ),
                _ => inside,
            }
        },
        TypedNode::Fn { body } => seq![execute_at(table, *body, env, top)],
        TypedNode::BinOp { left, right, .. } => seq![
            execute_at(table, *left, env, top),
            execute_at(table, *right, env, top),
        ],
        TypedNode::When { subject, clauses } => {
            let subject_result = execute_at(table, *subject, env, top);
            seq![subject_result] + clause_results(
                table,
                subject_result,
                subject.tipo@,
                clauses@,
                top,
            )
        },
        _ => execute_children(table, expr, children(expr).len(), env, top),
    }
}

/// Whether `whole` shows all that `part` shows: its findings, and its uses of the purpose and of
/// the inputs.
pub open spec fn shows_all_of(whole: ResultView, part: ResultView) -> bool {
    &&& forall|f: FindingView| part.findings.contains(f) ==> #[trigger] whole.findings.contains(f)
    &&& part.uses_purpose ==> whole.uses_purpose
    &&& part.uses_inputs ==> whole.uses_inputs
}

proof fn lemma_concat_contains(a: Seq<FindingView>, b: Seq<FindingView>)
    ensures
        forall|f: FindingView|
            a.contains(f) || b.contains(f) ==> #[trigger] (a + b).contains(f),
{
    assert forall|f: FindingView| a.contains(f) || b.contains(f) implies #[trigger] (a
        + b).contains(f) by {
        if a.contains(f) {
            let i = choose|i: int| 0 <= i < a.len() && a[i] == f;
            assert((a + b)[i] == f);
        } else {
            let i = choose|i: int| 0 <= i < b.len() && b[i] == f;
            assert((a + b)[a.len() + i] == f);
        }
    }
}

proof fn lemma_merged_shows(before: ResultView, results: Seq<ResultView>)
    ensures
        shows_all_of(merged_all(before, results), before),
        forall|i: int|
            0 <= i < results.len() ==> shows_all_of(
                merged_all(before, results),
                #[trigger] results[i],
            ),
    decreases results.len(),
{
    if results.len() > 0 {
        let front = results.drop_last();
        lemma_merged_shows(before, front);
        let inner = merged_all(before, front);
        lemma_concat_contains(inner.findings, results.last().findings);
        assert forall|i: int| 0 <= i < results.len() implies shows_all_of(
            merged_all(before, results),
            #[trigger] results[i],
        ) by {
            if i < front.len() {
                assert(shows_all_of(inner, front[i]));
            }
        }
    }
}

proof fn lemma_clauses_show(
    table: Table,
    subject: ResultView,
    subject_type: Seq<char>,
    clauses: Seq<TypedClause>,
    top: bool,
)
    ensures
        ({
            let whole = execute_clauses(table, subject, subject_type, clauses, top);
            &&& shows_all_of(whole, subject)
            &&& forall|i: int|
                0 <= i < clauses.len() ==> shows_all_of(
                    whole,
                    #[trigger] clause_results(table, subject, subject_type, clauses, top)[i],
                )
        }),
    decreases clauses.len(),
{
    if clauses.len() > 0 {
        let front = clauses.drop_last();
        lemma_clauses_show(table, subject, subject_type, front, top);
        let before = execute_clauses(table, subject, subject_type, front, top);
        let whole = execute_clauses(table, subject, subject_type, clauses, top);
        let results = clause_results(table, subject, subject_type, clauses, top);
        let guard = guard_findings(clauses.last());
        lemma_concat_contains(before.findings, guard);
        lemma_concat_contains(before.findings + guard, results.last().findings);
        assert forall|i: int| 0 <= i < clauses.len() implies shows_all_of(
            whole,
            #[trigger] results[i],
        ) by {
            if i < front.len() {
                assert(shows_all_of(
                    before,
                    clause_results(table, subject, subject_type, front, top)[i],
                ));
                assert(clauses[i] == front[i]);
            } else {
                assert(clauses[i] == clauses.last());
            }
        }
    }
}

/// What is found in a part, or in a function that stands in for a call, is found in the whole;
/// and a whole uses the purpose or the inputs if a part does.
pub proof fn law_parts_show_in_the_whole(
    table: Table,
    expr: TypedExpr,
    env: EnvironmentView,
    i: int,
)
    requires
        0 <= i < part_results(table, expr, env).len(),
    ensures
        shows_all_of(
            execute(table, expr, env),
            part_results(table, expr, env)[i],
        ),
{
    let top = at_top(env);
    let parts = part_results(table, expr, env);
    match expr.node {
        TypedNode::Call { fun, args } => {
            lemma_levels(table, *fun, env, top);
            let fun_result = execute_at(table, *fun, env, top);
            let arg_results = execute_each(table, args@, fun_result.environment, top);
            let start = merged(blank_result(expr, env), fun_result);
            lemma_concat_contains(blank_result(expr, env).findings, fun_result.findings);
            lemma_merged_shows(start, arg_results);
            let learned = merged_all(start, arg_results);
            if inlined(table, *fun, args@.len(), top) is Some {
                lemma_concat_contains(learned.findings, parts.last().findings);
            }
            if 0 < i <= arg_results.len() {
                assert(parts[i] == arg_results[i - 1]);
                assert(shows_all_of(learned, arg_results[i - 1]));
            } else if i == 0 {
                assert(shows_all_of(start, fun_result));
            }
        },
        TypedNode::BinOp { .. } => {
            let left = parts[0];
            let right = parts[1];
            lemma_concat_contains(left.findings, right.findings);
            let both = left.findings + right.findings;
            let whole = execute(table, expr, env).findings;
            lemma_concat_contains(both, whole.skip(both.len() as int));
            assert(whole =~= both + whole.skip(both.len() as int));
        },
        TypedNode::When { subject, clauses } => {
            lemma_clauses_show(
                table,
                execute_at(table, *subject, env, top),
                subject.tipo@,
                clauses@,
                top,
            );
            if i > 0 {
                assert(parts[i] == clause_results(
                    table,
                    execute_at(table, *subject, env, top),
                    subject.tipo@,
                    clauses@,
                    top,
                )[i - 1]);
            }
        },
        TypedNode::Var { .. } => {},
        TypedNode::RecordAccess { .. } => {},
        TypedNode::Assignment { .. } => {},
        TypedNode::Fn { .. } => {},
        _ => {
            lemma_merged_shows(blank_result(expr, env), parts);
        },
    }
}

/// Inside a called function no other function is looked into: which functions are known has no
/// influence on what is executed there, nor on whether it can be executed.
pub proof fn law_calls_inside_functions_stay_closed(
    table: Table,
    other: Table,
    expr: TypedExpr,
    env: EnvironmentView,
)
    requires
        level(env) != 0,
    ensures
        execute(table, expr, env) == execute(other, expr, env),
        has_complete_calls(table, expr, false) == has_complete_calls(other, expr, false),
{
    lemma_closed(table, other, expr, env);
    lemma_complete_closed(table, other, expr);
}

proof fn lemma_closed(table: Table, other: Table, expr: TypedExpr, env: EnvironmentView)
    ensures
        execute_at(table, expr, env, false) == execute_at(other, expr, env, false),
    decreases expr, children(expr).len() + 1,
{
    match expr.node {
        TypedNode::RecordAccess { record, .. } => {
            lemma_closed(table, other, *record, env);
        },
        TypedNode::Assignment { value, .. } => {
            lemma_closed(table, other, *value, env);
        },
        TypedNode::Call { fun, args } => {
            lemma_closed(table, other, *fun, env);
            let fun_result = execute_at(table, *fun, env, false);
            lemma_closed_each(table, other, args@, fun_result.environment);
        },
        TypedNode::Fn { body } => {
            lemma_closed(table, other, *body, env);
        },
        TypedNode::BinOp { left, right, .. } => {
            lemma_closed(table, other, *left, env);
            lemma_closed(table, other, *right, env);
        },
        TypedNode::When { subject, clauses } => {
            lemma_closed(table, other, *subject, env);
            lemma_closed_clauses(
                table,
                other,
                execute_at(table, *subject, env, false),
                subject.tipo@,
                clauses@,
            );
        },
        TypedNode::Var { .. } => {},
        _ => {
            lemma_closed_children(table, other, expr, children(expr).len(), env);
        },
    }
}

proof fn lemma_closed_each(
    table: Table,
    other: Table,
    exprs: Seq<TypedExpr>,
    env: EnvironmentView,
)
    ensures
        execute_each(table, exprs, env, false) == execute_each(other, exprs, env, false),
    decreases exprs, 0nat,
{
    if exprs.len() > 0 {
        lemma_closed_each(table, other, exprs.drop_last(), env);
        let before = execute_each(table, exprs.drop_last(), env, false);
        lemma_closed(table, other, exprs.last(), environment_after(env, before));
    }
}

proof fn lemma_closed_children(
    table: Table,
    other: Table,
    expr: TypedExpr,
    n: nat,
    env: EnvironmentView,
)
    requires
        n <= children(expr).len(),
    ensures
        execute_children(table, expr, n, env, false) == execute_children(
            other,
            expr,
            n,
            env,
            false,
        ),
    decreases expr, n,
{
    if n > 0 {
        lemma_closed_children(table, other, expr, (n - 1) as nat, env);
        let before = execute_children(table, expr, (n - 1) as nat, env, false);
        lemma_child_is_smaller(expr, n - 1);
        lemma_closed(table, other, children(expr)[n - 1], environment_after(env, before));
    }
}

proof fn lemma_closed_clauses(
    table: Table,
    other: Table,
    subject: ResultView,
    subject_type: Seq<char>,
    clauses: Seq<TypedClause>,
)
    ensures
        execute_clauses(table, subject, subject_type, clauses, false) == execute_clauses(
            other,
            subject,
            subject_type,
            clauses,
            false,
        ),
    decreases clauses, 0nat,
{
    if clauses.len() > 0 {
        lemma_closed_clauses(table, other, subject, subject_type, clauses.drop_last());
        let clause = clauses.last();
        lemma_closed(
            table,
            other,
            clause.body,
            clause_environment(subject.environment, subject.value, subject_type, clause),
        );
    }
}

proof fn lemma_complete_closed(table: Table, other: Table, expr: TypedExpr)
    ensures
        has_complete_calls(table, expr, false) == has_complete_calls(other, expr, false),
    decreases expr,
{
    match expr.node {
        TypedNode::Call { fun, args } => {
            lemma_complete_closed(table, other, *fun);
            assert forall|i: int| 0 <= i < args@.len() implies has_complete_calls(
                table,
                #[trigger] args@[i],
                false,
            ) == has_complete_calls(other, args@[i], false) by {
                lemma_complete_closed(table, other, args@[i]);
            }
        },
        TypedNode::When { subject, clauses } => {
            lemma_complete_closed(table, other, *subject);
            assert forall|i: int| 0 <= i < clauses@.len() implies has_complete_calls(
                table,
                (#[trigger] clauses@[i]).body,
                false,
            ) == has_complete_calls(other, clauses@[i].body, false) by {
                assert(decreases_to!(expr => clauses@[i].body));
                lemma_complete_closed(table, other, clauses@[i].body);
            }
        },
        _ => {
            assert forall|i: int| 0 <= i < children(expr).len() implies has_complete_calls(
                table,
                #[trigger] children(expr)[i],
                false,
            ) == has_complete_calls(other, children(expr)[i], false) by {
                lemma_child_is_smaller(expr, i);
                lemma_complete_closed(table, other, children(expr)[i]);
            }
        },
    }
}

/// A call inside a called function gives an unknown value, unless it is a call of a tracked list
/// function.
pub proof fn law_calls_inside_functions_are_unknown(
    table: Table,
    expr: TypedExpr,
    env: EnvironmentView,
)
    requires
        level(env) != 0,
        expr.node matches TypedNode::Call { fun, .. } && !(list_function(*fun) matches Some(l)
            && is_tracked_list_function(l)),
    ensures
        execute(table, expr, env).value == unknown_value(expr.tipo@),
{
}

/// Outside every called function, a call of a known function gives the value of the function's
/// body, in which the parameters stand for the arguments.
pub proof fn law_called_function_stands_in(
    table: Table,
    expr: TypedExpr,
    env: EnvironmentView,
    info: FunctionView,
)
    requires
        level(env) == 0,
        expr.node matches TypedNode::Call { fun, args } && list_function(*fun) is None
            && function_to_inline(table, *fun) == Some(info) && info.definition.arguments@.len()
            == args@.len(),
    ensures
        ({
            let (fun, args) = called(expr);
            let fun_result = execute(table, fun, env);
            let arg_results = execute_each(table, args, fun_result.environment, true);
            let inner = with_arguments(
                entered(environment_after(fun_result.environment, arg_results)),
                info.definition.arguments@,
                arg_results,
                args.len(),
            );
            &&& level(inner) == 1
            &&& execute(table, expr, env).value == execute(table, info.body, inner).value
        }),
{
    let (fun, args) = called(expr);
    let fun_result = execute(table, fun, env);
    let arg_results = execute_each(table, args, fun_result.environment, true);
    lemma_levels(table, fun, env, true);
    lemma_levels_each(table, args, fun_result.environment, true);
    lemma_with_arguments_level(
        entered(environment_after(fun_result.environment, arg_results)),
        info.definition.arguments@,
        arg_results,
        args.len(),
    );
}

/// What a call calls, and its arguments.
pub open spec fn called(expr: TypedExpr) -> (TypedExpr, Seq<TypedExpr>) {
    match expr.node {
        TypedNode::Call { fun, args } => (*fun, args@),
        _ => (expr, Seq::empty()),
    }
}

/// Whether a result that uses the purpose, or the inputs, says so.
pub open spec fn uses_are_flagged(r: ResultView) -> bool {
    &&& r.uses.contains(OriginView::Purpose) ==> r.uses_purpose
    &&& r.uses.contains(OriginView::TransactionInputs) ==> r.uses_inputs
}

/// A result with the purpose, or the inputs, among the origins that it uses is one that uses the
/// purpose, or the inputs.
pub proof fn law_uses_are_flagged(table: Table, expr: TypedExpr, env: EnvironmentView)
    ensures
        uses_are_flagged(execute(table, expr, env)),
{
    lemma_flagged(table, expr, env, at_top(env));
}

proof fn lemma_flagged(table: Table, expr: TypedExpr, env: EnvironmentView, top: bool)
    ensures
        uses_are_flagged(execute_at(table, expr, env, top)),
    decreases calls_left(top), expr, children(expr).len() + 1,
{
    match expr.node {
        TypedNode::RecordAccess { record, .. } => {
            lemma_flagged(table, *record, env, top);
        },
        TypedNode::Assignment { value, .. } => {
            lemma_flagged(table, *value, env, top);
        },
        TypedNode::Call { fun, args } => {
            lemma_flagged(table, *fun, env, top);
            let fun_result = execute_at(table, *fun, env, top);
            lemma_flagged_each(table, args@, fun_result.environment, top);
            let arg_results = execute_each(table, args@, fun_result.environment, top);
            lemma_flagged_merged(merged(blank_result(expr, env), fun_result), arg_results);
            if let Some(info) = inlined(table, *fun, args@.len(), top) {
                let inner = with_arguments(
                    entered(environment_after(fun_result.environment, arg_results)),
                    info.definition.arguments@,
                    arg_results,
                    args@.len(),
                );
                lemma_flagged(table, info.body, inner, false);
            }
        },
        TypedNode::Fn { body } => {
            lemma_flagged(table, *body, env, top);
        },
        TypedNode::BinOp { left, right, .. } => {
            lemma_flagged(table, *left, env, top);
            lemma_flagged(table, *right, env, top);
        },
        TypedNode::When { subject, clauses } => {
            lemma_flagged(table, *subject, env, top);
            lemma_flagged_clauses(
                table,
                execute_at(table, *subject, env, top),
                subject.tipo@,
                clauses@,
                top,
            );
        },
        TypedNode::Var { .. } => {},
        _ => {
            let n = children(expr).len();
            lemma_flagged_children(table, expr, n, env, top);
            lemma_flagged_merged(
                blank_result(expr, env),
                execute_children(table, expr, n, env, top),
            );
        },
    }
}

proof fn lemma_flagged_each(
    table: Table,
    exprs: Seq<TypedExpr>,
    env: EnvironmentView,
    top: bool,
)
    ensures
        forall|i: int|
            0 <= i < execute_each(table, exprs, env, top).len() ==> uses_are_flagged(
                #[trigger] execute_each(table, exprs, env, top)[i],
            ),
    decreases calls_left(top), exprs, 0nat,
{
    if exprs.len() > 0 {
        lemma_flagged_each(table, exprs.drop_last(), env, top);
        let before = execute_each(table, exprs.drop_last(), env, top);
        lemma_flagged(table, exprs.last(), environment_after(env, before), top);
    }
}

proof fn lemma_flagged_children(
    table: Table,
    expr: TypedExpr,
    n: nat,
    env: EnvironmentView,
    top: bool,
)
    requires
        n <= children(expr).len(),
    ensures
        forall|i: int|
            0 <= i < execute_children(table, expr, n, env, top).len() ==> uses_are_flagged(
                #[trigger] execute_children(table, expr, n, env, top)[i],
            ),
    decreases calls_left(top), expr, n,
{
    if n > 0 {
        lemma_flagged_children(table, expr, (n - 1) as nat, env, top);
        let before = execute_children(table, expr, (n - 1) as nat, env, top);
        lemma_child_is_smaller(expr, n - 1);
        lemma_flagged(table, children(expr)[n - 1], environment_after(env, before), top);
    }
}

proof fn lemma_flagged_merged(before: ResultView, results: Seq<ResultView>)
    requires
        uses_are_flagged(before),
        forall|i: int| 0 <= i < results.len() ==> uses_are_flagged(#[trigger] results[i]),
    ensures
        uses_are_flagged(merged_all(before, results)),
    decreases results.len(),
{
    if results.len() > 0 {
        assert forall|i: int| 0 <= i < results.drop_last().len() implies uses_are_flagged(
            #[trigger] results.drop_last()[i],
        ) by {
            assert(results.drop_last()[i] == results[i]);
        }
        lemma_flagged_merged(before, results.drop_last());
        assert(uses_are_flagged(results[results.len() - 1]));
    }
}

proof fn lemma_flagged_clauses(
    table: Table,
    subject: ResultView,
    subject_type: Seq<char>,
    clauses: Seq<TypedClause>,
    top: bool,
)
    requires
        uses_are_flagged(subject),
    ensures
        uses_are_flagged(execute_clauses(table, subject, subject_type, clauses, top)),
    decreases calls_left(top), clauses, 0nat,
{
    if clauses.len() > 0 {
        lemma_flagged_clauses(table, subject, subject_type, clauses.drop_last(), top);
        let clause = clauses.last();
        lemma_flagged(
            table,
            clause.body,
            clause_environment(subject.environment, subject.value, subject_type, clause),
            top,
        );
    }
}

} // verus!
