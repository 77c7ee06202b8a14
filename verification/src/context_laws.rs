//! What holds of code that is executed where nothing is known of a script context.
use crate::analyzer::bare_name;
use crate::ast::{
    children, lemma_child_is_smaller, Parameter, Pattern, PatternArg, TypedClause, TypedExpr,
    TypedNode,
};
use crate::environment::{empty_environment, with_variable, EnvironmentView};
use crate::name_map::lemma_position;
use crate::report::{law_parts_are_complete, selected, usage_of, walk, walk_children, Usage};
use crate::semantics::{
    at_top, blank_result, calls_left, entered, environment_after, execute, execute_at,
    execute_children, execute_clauses, execute_each, has_complete_calls, inlined,
    lemma_clauses_keep, lemma_levels_each, list_function, merged, merged_all, with_arguments,
    with_fields, ResultView, Table,
};
use crate::value::{OriginView, ValueView};
use vstd::prelude::*;

verus! {

/// Whether an origin has nothing to do with a script context.
pub open spec fn is_foreign(origin: OriginView) -> bool {
    origin is Other || origin is Unknown || origin is TokenCount
}

/// Whether no variable holds a part of a script context.
pub open spec fn knows_no_context(env: EnvironmentView) -> bool {
    forall|i: int|
        0 <= i < env.variables.len() ==> is_foreign((#[trigger] env.variables[i]).1.origin)
}

/// Whether a result shows nothing of a script context.
pub open spec fn shows_no_context(r: ResultView) -> bool {
    &&& is_foreign(r.value.origin)
    &&& knows_no_context(r.environment)
    &&& forall|o: OriginView| #[trigger] r.uses.contains(o) ==> is_foreign(o)
    &&& !r.uses_purpose
    &&& !r.uses_inputs
}

/// Where no variable holds a part of a script context, code uses neither the purpose nor the
/// inputs, and afterwards no variable holds a part of a script context either.
pub proof fn law_context_comes_from_variables(
    table: Table,
    expr: TypedExpr,
    env: EnvironmentView,
)
    requires
        has_complete_calls(table, expr, at_top(env)),
        knows_no_context(env),
    ensures
        shows_no_context(execute(table, expr, env)),
{
    lemma_foreign(table, expr, env, at_top(env));
}

/// The expressions of a validator, each on its own, use neither the purpose nor the inputs: the
/// three lists of the report by use are always empty.
pub proof fn law_no_expression_is_listed(table: Table, expr: TypedExpr, usage: Usage)
    requires
        has_complete_calls(table, expr, true),
        usage != Usage::Neither,
    ensures
        selected(walk(table, expr), usage).len() == 0,
{
    lemma_walk_foreign(table, expr);
    lemma_none_selected(walk(table, expr), usage);
}

proof fn lemma_none_selected(results: Seq<ResultView>, usage: Usage)
    requires
        usage != Usage::Neither,
        forall|i: int| 0 <= i < results.len() ==> shows_no_context(#[trigger] results[i]),
    ensures
        selected(results, usage).len() == 0,
    decreases results.len(),
{
    if results.len() > 0 {
        assert forall|i: int| 0 <= i < results.drop_last().len() implies shows_no_context(
            #[trigger] results.drop_last()[i],
        ) by {
            assert(results.drop_last()[i] == results[i]);
        }
        lemma_none_selected(results.drop_last(), usage);
        assert(shows_no_context(results[results.len() - 1]));
        assert(usage_of(results.last()) == Usage::Neither);
    }
}

proof fn lemma_walk_foreign(table: Table, expr: TypedExpr)
    requires
        has_complete_calls(table, expr, true),
    ensures
        forall|i: int|
            0 <= i < walk(table, expr).len() ==> shows_no_context(#[trigger] walk(table, expr)[i]),
    decreases expr, children(expr).len() + 1,
{
    let n = children(expr).len();
    lemma_walk_children_foreign(table, expr, n);
    law_context_comes_from_variables(table, expr, empty_environment());
    let first = execute(table, expr, empty_environment());
    assert forall|i: int| 0 <= i < walk(table, expr).len() implies shows_no_context(
        #[trigger] walk(table, expr)[i],
    ) by {
        if i > 0 {
            assert(walk(table, expr)[i] == walk_children(table, expr, n)[i - 1]);
        } else {
            assert(walk(table, expr)[i] == first);
        }
    }
}

proof fn lemma_walk_children_foreign(table: Table, expr: TypedExpr, n: nat)
    requires
        n <= children(expr).len(),
        has_complete_calls(table, expr, true),
    ensures
        forall|i: int|
            0 <= i < walk_children(table, expr, n).len() ==> shows_no_context(
                #[trigger] walk_children(table, expr, n)[i],
            ),
    decreases expr, n,
{
    if n > 0 {
        lemma_walk_children_foreign(table, expr, (n - 1) as nat);
        lemma_child_is_smaller(expr, n - 1);
        law_parts_are_complete(table, expr, true, n - 1);
        lemma_walk_foreign(table, children(expr)[n - 1]);
        let front = walk_children(table, expr, (n - 1) as nat);
        let back = walk(table, children(expr)[n - 1]);
        assert forall|i: int| 0 <= i < walk_children(table, expr, n).len()
            implies shows_no_context(#[trigger] walk_children(table, expr, n)[i]) by {
            if i < front.len() {
                assert(walk_children(table, expr, n)[i] == front[i]);
            } else {
                assert(walk_children(table, expr, n)[i] == back[i - front.len()]);
            }
        }
    }
}

proof fn lemma_foreign_variable(env: EnvironmentView, name: Seq<char>, value: ValueView)
    requires
        knows_no_context(env),
        is_foreign(value.origin),
    ensures
        knows_no_context(with_variable(env, name, value)),
{
    lemma_position(env.variables, name);
}

proof fn lemma_foreign_fields(
    env: EnvironmentView,
    constructor: Seq<char>,
    whole: OriginView,
    arguments: Seq<PatternArg>,
    value_type: Seq<char>,
)
    requires
        is_foreign(whole),
    ensures
        with_fields(env, constructor, whole, arguments, value_type) == env,
    decreases arguments.len(),
{
    if arguments.len() > 0 {
        lemma_foreign_fields(env, constructor, whole, arguments.drop_last(), value_type);
    }
}

proof fn lemma_foreign_arguments(
    env: EnvironmentView,
    parameters: Seq<Parameter>,
    results: Seq<ResultView>,
    n: nat,
)
    requires
        knows_no_context(env),
        n <= results.len(),
        forall|i: int| 0 <= i < results.len() ==> shows_no_context(#[trigger] results[i]),
    ensures
        knows_no_context(with_arguments(env, parameters, results, n)),
    decreases n,
{
    if n > 0 {
        let i = n - 1;
        lemma_foreign_arguments(env, parameters, results, i as nat);
        assert(shows_no_context(results[i]));
        lemma_foreign_variable(
            with_arguments(env, parameters, results, i as nat),
            bare_name(parameters[i].arg_name@),
            results[i].value,
        );
    }
}

proof fn lemma_foreign_merged(before: ResultView, results: Seq<ResultView>)
    requires
        shows_no_context(before),
        forall|i: int| 0 <= i < results.len() ==> shows_no_context(#[trigger] results[i]),
    ensures
        shows_no_context(merged_all(before, results)),
    decreases results.len(),
{
    if results.len() > 0 {
        assert forall|i: int| 0 <= i < results.drop_last().len() implies shows_no_context(
            #[trigger] results.drop_last()[i],
        ) by {
            assert(results.drop_last()[i] == results[i]);
        }
        lemma_foreign_merged(before, results.drop_last());
        assert(shows_no_context(results[results.len() - 1]));
    }
}

proof fn lemma_foreign(table: Table, expr: TypedExpr, env: EnvironmentView, top: bool)
    requires
        has_complete_calls(table, expr, top),
        knows_no_context(env),
    ensures
        shows_no_context(execute_at(table, expr, env, top)),
    decreases calls_left(top), expr, children(expr).len() + 1,
{
    match expr.node {
        TypedNode::Var { name } => {
            lemma_position(env.variables, name@);
        },
        TypedNode::RecordAccess { record, .. } => {
            assert(children(expr)[0] == *record);
            lemma_foreign(table, *record, env, top);
        },
        TypedNode::Assignment { pattern, value, .. } => {
            assert(children(expr)[0] == *value);
            lemma_foreign(table, *value, env, top);
            let result = execute_at(table, *value, env, top);
            match pattern {
                Pattern::Var { name, .. } => {
                    lemma_foreign_variable(result.environment, name@, result.value);
                },
                Pattern::Constructor { name, arguments, .. } => {
                    lemma_foreign_fields(
                        result.environment,
                        name@,
                        result.value.origin,
                        arguments@,
                        value.tipo@,
                    );
                },
                _ => {},
            }
        },
        TypedNode::Call { fun, args } => {
            lemma_foreign(table, *fun, env, top);
            let fun_result = execute_at(table, *fun, env, top);
            lemma_foreign_each(table, args@, fun_result.environment, top);
            lemma_levels_each(table, args@, fun_result.environment, top);
            let arg_results = execute_each(table, args@, fun_result.environment, top);
            lemma_foreign_merged(merged(blank_result(expr, env), fun_result), arg_results);
            let after = environment_after(fun_result.environment, arg_results);
            if let Some(info) = inlined(table, *fun, args@.len(), top) {
                lemma_foreign_arguments(
                    entered(after),
                    info.definition.arguments@,
                    arg_results,
                    args@.len(),
                );
                let inner = with_arguments(
                    entered(after),
                    info.definition.arguments@,
                    arg_results,
                    args@.len(),
                );
                lemma_foreign(table, info.body, inner, false);
            }
            if list_function(*fun) is Some && args@.len() >= 2 {
                assert(shows_no_context(arg_results[0]));
                assert(shows_no_context(arg_results[1]));
            }
        },
        TypedNode::Fn { body } => {
            assert(children(expr)[0] == *body);
            lemma_foreign(table, *body, env, top);
        },
        TypedNode::BinOp { left, right, .. } => {
            assert(children(expr)[0] == *left);
            assert(children(expr)[1] == *right);
            lemma_foreign(table, *left, env, top);
            lemma_foreign(table, *right, env, top);
        },
        TypedNode::When { subject, clauses } => {
            lemma_foreign(table, *subject, env, top);
            lemma_foreign_clauses(
                table,
                execute_at(table, *subject, env, top),
                subject.tipo@,
                clauses@,
                top,
            );
        },
        _ => {
            let n = children(expr).len();
            lemma_foreign_children(table, expr, n, env, top);
            lemma_foreign_merged(
                blank_result(expr, env),
                execute_children(table, expr, n, env, top),
            );
        },
    }
}

proof fn lemma_foreign_each(
    table: Table,
    exprs: Seq<TypedExpr>,
    env: EnvironmentView,
    top: bool,
)
    requires
        forall|i: int| 0 <= i < exprs.len() ==> has_complete_calls(table, #[trigger] exprs[i], top),
        knows_no_context(env),
    ensures
        forall|i: int|
            0 <= i < execute_each(table, exprs, env, top).len() ==> shows_no_context(
                #[trigger] execute_each(table, exprs, env, top)[i],
            ),
        knows_no_context(environment_after(env, execute_each(table, exprs, env, top))),
    decreases calls_left(top), exprs, 0nat,
{
    if exprs.len() > 0 {
        let front = exprs.drop_last();
        assert forall|i: int| 0 <= i < front.len() implies has_complete_calls(
            table,
            #[trigger] front[i],
            top,
        ) by {
            assert(front[i] == exprs[i]);
        }
        lemma_foreign_each(table, front, env, top);
        let before = execute_each(table, front, env, top);
        assert(exprs[exprs.len() - 1] == exprs.last());
        lemma_foreign(table, exprs.last(), environment_after(env, before), top);
    }
}

proof fn lemma_foreign_children(
    table: Table,
    expr: TypedExpr,
    n: nat,
    env: EnvironmentView,
    top: bool,
)
    requires
        n <= children(expr).len(),
        forall|i: int|
            0 <= i < children(expr).len() ==> has_complete_calls(
                table,
                #[trigger] children(expr)[i],
                top,
            ),
        knows_no_context(env),
    ensures
        forall|i: int|
            0 <= i < execute_children(table, expr, n, env, top).len() ==> shows_no_context(
                #[trigger] execute_children(table, expr, n, env, top)[i],
            ),
        knows_no_context(environment_after(env, execute_children(table, expr, n, env, top))),
    decreases calls_left(top), expr, n,
{
    if n > 0 {
        lemma_foreign_children(table, expr, (n - 1) as nat, env, top);
        let before = execute_children(table, expr, (n - 1) as nat, env, top);
        lemma_child_is_smaller(expr, n - 1);
        lemma_foreign(table, children(expr)[n - 1], environment_after(env, before), top);
    }
}

proof fn lemma_foreign_clauses(
    table: Table,
    subject: ResultView,
    subject_type: Seq<char>,
    clauses: Seq<TypedClause>,
    top: bool,
)
    requires
        forall|i: int|
            0 <= i < clauses.len() ==> has_complete_calls(table, (#[trigger] clauses[i]).body, top),
        shows_no_context(subject),
    ensures
        shows_no_context(execute_clauses(table, subject, subject_type, clauses, top)),
    decreases calls_left(top), clauses, 0nat,
{
    if clauses.len() > 0 {
        let front = clauses.drop_last();
        assert forall|i: int| 0 <= i < front.len() implies has_complete_calls(
            table,
            (#[trigger] front[i]).body,
            top,
        ) by {
            assert(front[i] == clauses[i]);
        }
        lemma_foreign_clauses(table, subject, subject_type, front, top);
        let clause = clauses.last();
        assert(clauses[clauses.len() - 1] == clause);
        lemma_clauses_keep(table, subject, subject_type, front, top);
        lemma_foreign(table, clause.body, subject.environment, top);
    }
}

} // verus!
