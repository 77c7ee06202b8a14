//! Calls and clauses: which function stands in for a call, what its parameters stand for, and
//! what the clauses of a `when` add.
use crate::analyzer::{
    bare_name, context_parameter, described, function_to_inline, is_candidate, marked, prepared,
    with_function, with_validator, AnalyzerView, FunctionView,
};
use crate::analysis_laws::{code_of, law_bare_names};
use crate::analyze_validator::analyzable;
use crate::ast::{
    children, ClauseGuard, Function, Parameter, Pattern, Span, TypedClause, TypedExpr, TypedNode,
    TypedValidator,
};
use crate::environment::EnvironmentView;
use crate::laws::law_guards;
use crate::name_map::{law_bind_then_lookup, lookup};
use crate::origin_laws::{names, same_but_names};
use crate::semantics::{
    at_top, blank_result, clause_environment, entered, environment_after, execute, execute_at,
    execute_children, execute_clauses, execute_each, has_complete_calls, lemma_clauses_keep,
    lemma_levels, lemma_levels_each, lemma_merged_all,
    lemma_with_arguments_level, merged, merged_all, with_arguments, ResultView,
    Table,
};
use crate::text_laws::{law_begins_with, law_contains_text, law_finishes_with};
use crate::tracking_laws::agrees;
use crate::value::{ConditionView, FindingView, OriginView, ValueView};
use vstd::prelude::*;

verus! {

/// Whether a module belongs to the standard library.
pub open spec fn is_standard(module: Seq<char>) -> bool {
    exists|rest: Seq<char>| module == #[trigger] ("aiken/"@ + rest)
}

/// Whether a function of the table has the bare name `name`, in whatever module outside the
/// standard library.
pub open spec fn answers_to(table: Table, name: Seq<char>, i: int) -> bool {
    &&& 0 <= i < table.len()
    &&& exists|module: Seq<char>| table[i].0 == #[trigger] (module + ("::"@ + name))
    &&& !is_standard(table[i].1.module_name)
}

/// Which function stands in for a call. A bare name is that of the first function of the table
/// that has it; a function selected from a module is looked up under `module::name`. What is
/// called in any other way, and what belongs to the standard library, has none.
pub proof fn law_called_function(table: Table, fun: TypedExpr)
    ensures
        fun.node matches TypedNode::Var { name } ==> match function_to_inline(table, fun) {
            Some(info) => exists|i: int|
                #[trigger] answers_to(table, name@, i) && table[i].1 == info && forall|j: int|
                    0 <= j < i ==> !#[trigger] answers_to(table, name@, j),
            None => forall|j: int| !#[trigger] answers_to(table, name@, j),
        },
        fun.node matches TypedNode::ModuleSelect { module_name, label } ==> {
            &&& is_standard(module_name@) ==> function_to_inline(table, fun) is None
            &&& !is_standard(module_name@) ==> function_to_inline(table, fun) == lookup(
                table,
                module_name@ + "::"@ + label@,
            )
        },
        !(fun.node is Var) && !(fun.node is ModuleSelect) ==> function_to_inline(table, fun) is None,
{
    if let TypedNode::Var { name } = fun.node {
        law_bare_names(table, name@, 0);
        assert forall|j: int| answers_to(table, name@, j) <==> is_candidate(table, name@, j) by {
            if 0 <= j < table.len() {
                law_finishes_with(table[j].0, "::"@ + name@);
                law_begins_with(table[j].1.module_name, "aiken/"@);
            }
        }
        match function_to_inline(table, fun) {
            Some(info) => {
                let i = choose|i: int|
                    0 <= i && #[trigger] is_candidate(table, name@, i) && table[i].1 == info
                        && forall|j: int|
                        0 <= j < i ==> !#[trigger] is_candidate(table, name@, j);
                assert(answers_to(table, name@, i));
            },
            None => {
                assert forall|j: int| !#[trigger] answers_to(table, name@, j) by {
                    if answers_to(table, name@, j) {
                        assert(0 <= j && is_candidate(table, name@, j));
                    }
                }
            },
        }
    }
    if let TypedNode::ModuleSelect { module_name, label } = fun.node {
        law_begins_with(module_name@, "aiken/"@);
    }
}

/// Whether a node is the sequence of what a call calls and its arguments, as far as the first
/// `n` of them.
pub open spec fn lists_call(
    sequence: TypedNode,
    fun: TypedExpr,
    args: Seq<TypedExpr>,
    n: int,
) -> bool {
    sequence matches TypedNode::Sequence { expressions } && expressions@ == seq![fun] + args.take(n)
}

proof fn lemma_call_as_sequence(
    table: Table,
    sequence: TypedExpr,
    fun: TypedExpr,
    args: Seq<TypedExpr>,
    env: EnvironmentView,
    top: bool,
    n: int,
)
    requires
        0 <= n <= args.len(),
        n < children(sequence).len(),
        children(sequence)[0] == fun,
        forall|i: int| 0 <= i < n ==> children(sequence)[i + 1] == #[trigger] args[i],
    ensures
        ({
            let first = execute_at(table, fun, env, top);
            execute_children(table, sequence, (n + 1) as nat, env, top) == seq![first]
                + execute_each(table, args.take(n), first.environment, top)
        }),
    decreases n,
{
    let first = execute_at(table, fun, env, top);
    if n == 0 {
        reveal_with_fuel(execute_children, 3);
        assert(args.take(0).len() == 0);
        assert(execute_children(table, sequence, 1, env, top) =~= seq![first] + execute_each(
            table,
            args.take(n),
            first.environment,
            top,
        ));
    } else {
        lemma_call_as_sequence(table, sequence, fun, args, env, top, n - 1);
        let before = execute_children(table, sequence, n as nat, env, top);
        let each = execute_each(table, args.take(n - 1), first.environment, top);
        assert(args.take(n).drop_last() =~= args.take(n - 1));
        assert(args.take(n).last() == args[n - 1]);
        assert(children(sequence)[n - 1 + 1] == args[n - 1]);
        assert(environment_after(env, before) == environment_after(first.environment, each));
        assert(execute_children(table, sequence, (n + 1) as nat, env, top) =~= seq![first]
            + execute_each(table, args.take(n), first.environment, top));
    }
}

proof fn lemma_merged_first(
    a: ResultView,
    b: ResultView,
    first: ResultView,
    rest: Seq<ResultView>,
)
    requires
        a.findings == b.findings,
        a.uses == b.uses,
        a.uses_purpose == b.uses_purpose,
        a.uses_inputs == b.uses_inputs,
    ensures
        agrees(merged_all(merged(a, first), rest), merged_all(b, seq![first] + rest)),
    decreases rest.len(),
{
    let all = seq![first] + rest;
    if rest.len() == 0 {
        assert(all.drop_last() =~= Seq::empty());
        reveal_with_fuel(merged_all, 2);
    } else {
        lemma_merged_first(a, b, first, rest.drop_last());
        assert(all.drop_last() =~= seq![first] + rest.drop_last());
        assert(all.last() == rest.last());
    }
}

proof fn lemma_call(
    table: Table,
    expr: TypedExpr,
    sequence: TypedExpr,
    fun: TypedExpr,
    args: Seq<TypedExpr>,
    env: EnvironmentView,
)
    requires
        lists_call(sequence.node, fun, args, args.len() as int),
    ensures
        ({
            let first = execute(table, fun, env);
            let results = execute_each(table, args, first.environment, at_top(env));
            &&& results.len() == args.len()
            &&& agrees(
                merged_all(merged(blank_result(expr, env), first), results),
                execute(table, sequence, env),
            )
            &&& execute(table, sequence, env).environment == environment_after(
                first.environment,
                results,
            )
        }),
{
    let top = at_top(env);
    let first = execute(table, fun, env);
    let n = args.len() as int;
    assert(args.take(n) =~= args);
    assert forall|i: int| 0 <= i < n implies children(sequence)[i + 1] == #[trigger] args[i] by {}
    lemma_call_as_sequence(table, sequence, fun, args, env, top, n);
    let results = execute_each(table, args, first.environment, top);
    lemma_levels_each(table, args, first.environment, top);
    lemma_merged_first(blank_result(expr, env), blank_result(sequence, env), first, results);
    lemma_merged_all(merged(blank_result(expr, env), first), results);
}

/// Whether a function of the list module is called.
pub open spec fn is_list_function(fun: TypedExpr) -> bool {
    fun.node matches TypedNode::ModuleSelect { module_name, .. } && module_name@ == "aiken/list"@
}

/// Whether one of the list functions is called whose results are tracked.
pub open spec fn is_tracked_function(fun: TypedExpr) -> bool {
    &&& is_list_function(fun)
    &&& fun.node matches TypedNode::ModuleSelect { label, .. } && (label@ == "find"@ || label@
        == "map"@ || label@ == "count"@)
}

/// Whether no function of the project stands in for a call of `fun` with `n` arguments: inside a
/// called function, for a function of the list module, where no function is known, or where the
/// number of parameters is another one.
pub open spec fn stays_closed(table: Table, fun: TypedExpr, n: nat, env: EnvironmentView) -> bool {
    ||| env.function_level matches Some(l) && l > 0
    ||| is_list_function(fun)
    ||| match function_to_inline(table, fun) {
        Some(info) => info.definition.arguments@.len() != n,
        None => true,
    }
}

/// A call that stays closed shows what it calls and its arguments show, one after the other.
/// Except for the functions `find`, `map` and `count` of the list module, nothing is known of
/// its value.
pub proof fn law_closed_calls(
    table: Table,
    expr: TypedExpr,
    sequence: TypedExpr,
    fun: TypedExpr,
    args: Seq<TypedExpr>,
    env: EnvironmentView,
)
    requires
        expr.node matches TypedNode::Call { fun: f, args: a } && *f == fun && a@ == args,
        lists_call(sequence.node, fun, args, args.len() as int),
        stays_closed(table, fun, args.len(), env),
    ensures
        ({
            let r = execute(table, expr, env);
            let s = execute(table, sequence, env);
            &&& r.environment == s.environment
            &&& r.findings == s.findings
            &&& forall|o: OriginView| #[trigger] r.uses.contains(o) <==> s.uses.contains(o)
            &&& r.uses_purpose == s.uses_purpose
            &&& r.uses_inputs == s.uses_inputs
            &&& !is_tracked_function(fun) ==> r.value == (ValueView {
                origin: OriginView::Unknown,
                value_type: expr.tipo@,
                derived_from: Seq::empty(),
                is_address_comparison: false,
            })
        }),
{
    lemma_call(table, expr, sequence, fun, args, env);
}

proof fn lemma_with_arguments(
    env: EnvironmentView,
    parameters: Seq<Parameter>,
    results: Seq<ResultView>,
    n: nat,
    i: int,
    x: Seq<char>,
)
    ensures
        same_but_names(with_arguments(env, parameters, results, n), env),
        0 <= i < n && bare_name(parameters[i].arg_name@) == x && (forall|j: int|
            i < j < n ==> bare_name((#[trigger] parameters[j]).arg_name@) != x) ==> lookup(
            with_arguments(env, parameters, results, n).variables,
            x,
        ) == Some(results[i].value),
        (forall|j: int| 0 <= j < n ==> bare_name((#[trigger] parameters[j]).arg_name@) != x)
            ==> lookup(with_arguments(env, parameters, results, n).variables, x) == lookup(
            env.variables,
            x,
        ),
    decreases n,
{
    if n > 0 {
        let m = (n - 1) as nat;
        lemma_with_arguments(env, parameters, results, m, i, x);
        let before = with_arguments(env, parameters, results, m);
        let last = parameters[n - 1];
        law_bind_then_lookup(
            before.variables,
            bare_name(last.arg_name@),
            results[n - 1].value,
            x,
        );
    }
}

proof fn lemma_each_value(
    table: Table,
    exprs: Seq<TypedExpr>,
    env: EnvironmentView,
    top: bool,
    i: int,
)
    requires
        0 <= i < exprs.len(),
    ensures
        execute_each(table, exprs, env, top).len() == exprs.len(),
        execute_each(table, exprs, env, top)[i] == execute_each(
            table,
            exprs.take(i + 1),
            env,
            top,
        ).last(),
    decreases exprs.len(),
{
    lemma_levels_each(table, exprs, env, top);
    lemma_levels_each(table, exprs.drop_last(), env, top);
    if i == exprs.len() - 1 {
        assert(exprs.take(i + 1) =~= exprs);
    } else {
        lemma_each_value(table, exprs.drop_last(), env, top, i);
        assert(exprs.drop_last().take(i + 1) =~= exprs.take(i + 1));
    }
}

/// A call in a validator's own code is executed as the body of the called function, in an
/// environment in which each parameter stands for its argument and everything else is as it was
/// after the arguments. The call shows what it calls, its arguments and the body show, and its
/// value is the body's; what the body binds is forgotten.
pub proof fn law_open_calls(
    table: Table,
    expr: TypedExpr,
    sequence: TypedExpr,
    part: TypedExpr,
    fun: TypedExpr,
    args: Seq<TypedExpr>,
    info: FunctionView,
    env: EnvironmentView,
    i: int,
    x: Seq<char>,
) -> (inner: EnvironmentView)
    requires
        expr.node matches TypedNode::Call { fun: f, args: a } && *f == fun && a@ == args,
        lists_call(sequence.node, fun, args, args.len() as int),
        env.function_level is None || env.function_level == Some(0u8),
        !is_list_function(fun),
        function_to_inline(table, fun) == Some(info),
        info.definition.arguments@.len() == args.len(),
    ensures
        ({
            let r = execute(table, expr, env);
            let s = execute(table, sequence, env);
            let b = execute(table, info.body, inner);
            let parameters = info.definition.arguments@;
            &&& r.value == b.value
            &&& r.environment == s.environment
            &&& r.findings == s.findings + b.findings
            &&& r.uses == b.uses
            &&& r.uses_purpose <==> s.uses_purpose || b.uses_purpose
            &&& r.uses_inputs <==> s.uses_inputs || b.uses_inputs
            &&& inner.function_level == Some(1u8)
            &&& inner.conditions == s.environment.conditions
            &&& inner.script_context_name == s.environment.script_context_name
            &&& 0 <= i < args.len() && lists_call(part.node, fun, args, i + 1) && bare_name(
                parameters[i].arg_name@,
            ) == x && (forall|j: int|
                i < j < args.len() ==> bare_name((#[trigger] parameters[j]).arg_name@) != x)
                ==> lookup(inner.variables, x) == Some(execute(table, part, env).value)
            &&& (forall|j: int|
                0 <= j < args.len() ==> bare_name((#[trigger] parameters[j]).arg_name@) != x)
                ==> lookup(inner.variables, x) == lookup(s.environment.variables, x)
        }),
{
    let top = at_top(env);
    let first = execute(table, fun, env);
    let results = execute_each(table, args, first.environment, top);
    lemma_call(table, expr, sequence, fun, args, env);
    lemma_levels(table, fun, env, top);
    lemma_levels_each(table, args, first.environment, top);
    let after = environment_after(first.environment, results);
    let inner = with_arguments(entered(after), info.definition.arguments@, results, args.len());
    lemma_with_arguments_level(entered(after), info.definition.arguments@, results, args.len());
    lemma_with_arguments(entered(after), info.definition.arguments@, results, args.len(), i, x);
    if 0 <= i < args.len() && lists_call(part.node, fun, args, i + 1) {
        lemma_each_value(table, args, first.environment, top, i);
        let some = args.take(i + 1);
        assert(some.take(i + 1) =~= some);
        lemma_call(table, part, part, fun, some, env);
        lemma_value_of_last(merged(blank_result(part, env), first), execute_each(
            table,
            some,
            first.environment,
            top,
        ));
    }
    inner
}

proof fn lemma_value_of_last(before: ResultView, results: Seq<ResultView>)
    requires
        results.len() > 0,
    ensures
        merged_all(before, results).value == results.last().value,
{
}

/// A `when` without clauses shows what its subject shows.
pub proof fn law_subject(table: Table, expr: TypedExpr, subject: TypedExpr, env: EnvironmentView)
    requires
        expr.node matches TypedNode::When { subject: s, clauses } && *s == subject && clauses@.len()
            == 0,
    ensures
        agrees(execute(table, expr, env), execute(table, subject, env)),
{
    let s = execute(table, subject, env);
    if let TypedNode::When { clauses, .. } = expr.node {
        assert(execute_clauses(table, s, subject.tipo@, clauses@, at_top(env)) == s);
    }
}

/// Whether a clause takes the purpose apart as a spending one, into one variable.
pub open spec fn spends(clause: TypedClause, x: Seq<char>) -> bool {
    clause.pattern matches Pattern::Constructor { name, arguments, .. } && name@ == "Spend"@
        && arguments@.len() == 1 && names(arguments@[0], x)
}

/// A clause more adds what its body shows. The body is executed in the environment after the
/// subject; only a clause that takes the purpose apart as a spending one, into one variable, adds
/// to it: the output reference, and the condition that the purpose was looked at. What a body
/// binds is forgotten, and the value is that of the last clause.
pub proof fn law_one_more_clause(
    table: Table,
    shorter: TypedExpr,
    longer: TypedExpr,
    subject: TypedExpr,
    clause: TypedClause,
    env: EnvironmentView,
    x: Seq<char>,
    other: Seq<char>,
) -> (inner: EnvironmentView)
    requires
        shorter.node matches TypedNode::When { subject: s, clauses: a } && *s == subject && (
        longer.node matches TypedNode::When { subject: t, clauses: b } && *t == subject && b@
            == a@.push(clause)),
    ensures
        ({
            let before = execute(table, shorter, env);
            let r = execute(table, longer, env);
            let s = execute(table, subject, env);
            let b = execute(table, clause.body, inner);
            let spending = s.value.origin is Purpose && (exists|y: Seq<char>|
                #[trigger] spends(clause, y));
            &&& r.value == b.value
            &&& r.environment == s.environment
            &&& r.findings == before.findings + b.findings
            &&& forall|o: OriginView|
                #[trigger] r.uses.contains(o) <==> before.uses.contains(o) || b.uses.contains(o)
            &&& r.uses_purpose <==> before.uses_purpose || b.uses_purpose || spending
            &&& r.uses_inputs <==> before.uses_inputs || b.uses_inputs
            &&& !spending ==> inner == s.environment
            &&& s.value.origin is Purpose && spends(clause, x) ==> {
                &&& lookup(inner.variables, x) == Some(
                    ValueView {
                        origin: OriginView::OutputReference,
                        value_type: subject.tipo@,
                        derived_from: seq![OriginView::Purpose],
                        is_address_comparison: false,
                    },
                )
                &&& other != x ==> lookup(inner.variables, other) == lookup(
                    s.environment.variables,
                    other,
                )
                &&& inner.script_context_name == s.environment.script_context_name
                &&& inner.function_level == s.environment.function_level
                &&& inner.conditions == s.environment.conditions.push(
                    ConditionView::Assertion {
                        condition: Box::new(
                            ConditionView::Custom {
                                description: "Purpose is Spend"@,
                                relates_to_inputs: false,
                                relates_to_output_ref: true,
                                location: place_of(clause.pattern),
                            },
                        ),
                        location: place_of(clause.pattern),
                    },
                )
            }
        }),
{
    let top = at_top(env);
    let s = execute(table, subject, env);
    lemma_levels(table, subject, env, top);
    let inner = clause_environment(s.environment, s.value, subject.tipo@, clause);
    if let (TypedNode::When { clauses: a, .. }, TypedNode::When { clauses: b, .. }) = (
        shorter.node,
        longer.node,
    ) {
        assert(b@.drop_last() =~= a@);
        lemma_clauses_keep(table, s, subject.tipo@, b@, top);
        lemma_clauses_keep(table, s, subject.tipo@, a@, top);
    }
    if let Some(guard) = clause.guard {
        law_guards(guard);
    }
    let reference = crate::value::derived_value(
        OriginView::OutputReference,
        subject.tipo@,
        seq![OriginView::Purpose],
    );
    law_bind_then_lookup(s.environment.variables, x, reference, other);
    if let Some(y) = crate::semantics::spending_variable(s.value, clause) {
        assert(spends(clause, y));
    }
    let before = execute(table, shorter, env);
    assert(before.findings + Seq::<FindingView>::empty() =~= before.findings);
    inner
}

/// Where a pattern stands.
pub open spec fn place_of(pattern: Pattern) -> Span {
    match pattern {
        Pattern::Var { location, .. } => location,
        Pattern::Discard { location, .. } => location,
        Pattern::Constructor { location, .. } => location,
        Pattern::List { location, .. } => location,
        Pattern::Tuple { location, .. } => location,
        Pattern::Other { location, .. } => location,
    }
}

/// The calls of an expression are complete exactly if those of all its parts are, and, where it
/// is a call itself, `find`, `map` and `count` of the list module are given a list and a
/// predicate, and the calls in the body of a function that stands in for it are complete.
pub proof fn law_complete_calls(table: Table, expr: TypedExpr, top: bool)
    ensures
        !(expr.node is Call) ==> (has_complete_calls(table, expr, top) <==> forall|i: int|
            0 <= i < children(expr).len() ==> has_complete_calls(
                table,
                #[trigger] children(expr)[i],
                top,
            )),
        expr.node matches TypedNode::Call { fun, args } ==> (has_complete_calls(table, expr, top)
            <==> {
            &&& has_complete_calls(table, *fun, top)
            &&& forall|i: int|
                0 <= i < args@.len() ==> has_complete_calls(table, #[trigger] args@[i], top)
            &&& is_tracked_function(*fun) ==> args@.len() >= 2
            &&& top && !is_list_function(*fun) ==> match function_to_inline(table, *fun) {
                Some(info) => info.definition.arguments@.len() == args@.len()
                    ==> has_complete_calls(table, info.body, false),
                None => true,
            }
        }),
{
    if let TypedNode::When { subject, clauses } = expr.node {
        if has_complete_calls(table, expr, top) {
            assert forall|i: int| 0 <= i < children(expr).len() implies has_complete_calls(
                table,
                #[trigger] children(expr)[i],
                top,
            ) by {
                if i > 0 {
                    assert(has_complete_calls(table, clauses@[i - 1].body, top));
                }
            }
        }
        if forall|i: int|
            0 <= i < children(expr).len() ==> has_complete_calls(
                table,
                #[trigger] children(expr)[i],
                top,
            ) {
            assert(children(expr)[0] == *subject);
            assert forall|i: int| 0 <= i < clauses@.len() implies has_complete_calls(
                table,
                (#[trigger] clauses@[i]).body,
                top,
            ) by {
                assert(children(expr)[i + 1] == clauses@[i].body);
            }
        }
    }
}

/// The script context of a validator is its last parameter, if there are at least three and the
/// name of the type stands in its type; else it has none, and its code starts out with nothing.
pub proof fn law_context_parameter(validator: TypedValidator)
    ensures
        ({
            let n = validator.fun.arguments@.len();
            let names_type = exists|front: Seq<char>, rest: Seq<char>|
                validator.fun.arguments@.last().tipo@ == #[trigger] (front + "ScriptContext"@
                    + rest);
            &&& n >= 3 && names_type ==> context_parameter(validator) == Some(n - 1)
            &&& n < 3 || !names_type ==> {
                &&& context_parameter(validator) is None
                &&& prepared(validator).variables.len() == 0
                &&& prepared(validator).conditions.len() == 0
                &&& prepared(validator).script_context_name is None
            }
            &&& prepared(validator).function_level is None
        }),
{
    law_contains_text(validator.fun.arguments@.last().tipo@, "ScriptContext"@);
}

/// A function that is registered is found by its module and its name, with its own body,
/// definition and parameters; it is no validator, and has no script context.
pub proof fn law_registration(
    analyzer: AnalyzerView,
    function: Function,
    module: Seq<char>,
    other: Seq<char>,
)
    ensures
        ({
            let after = with_function(analyzer, function, module);
            let name = module + "::"@ + function.name@;
            &&& lookup(after.function_table, name) matches Some(info) && {
                &&& info.qualified_name == name
                &&& info.module_name == module
                &&& info.definition == function
                &&& info.body == *function.body
                &&& info.arguments.len() == function.arguments@.len()
                &&& forall|i: int|
                    0 <= i < function.arguments@.len() ==> #[trigger] info.arguments[i] == (
                    function.arguments@[i].arg_name@, function.arguments@[i].tipo@)
                &&& info.return_type == Some(function.body.tipo@)
                &&& !info.is_validator
                &&& info.script_context_param_index == -1
            }
            &&& other != name ==> lookup(after.function_table, other) == lookup(
                analyzer.function_table,
                other,
            )
            &&& lookup(after.functions, function.name@) == Some(*function.body)
            &&& other != function.name@ ==> lookup(after.functions, other) == lookup(
                analyzer.functions,
                other,
            )
            &&& after.validators == analyzer.validators
        }),
{
    let name = module + "::"@ + function.name@;
    law_bind_then_lookup(analyzer.function_table, name, described(function, module), other);
    law_bind_then_lookup(analyzer.functions, function.name@, body_of(function), other);
}

/// The body of a function.
spec fn body_of(function: Function) -> TypedExpr {
    *function.body
}

/// A function that is marked as the code of a validator is one, with the place of the script
/// context if there is one; nothing else about it changes, and no other function does. A name
/// without a function marks nothing.
pub proof fn law_marked_function(
    table: Table,
    name: Seq<char>,
    validator: TypedValidator,
    other: Seq<char>,
)
    ensures
        ({
            let after = marked(table, name, validator);
            &&& other != name ==> lookup(after, other) == lookup(table, other)
            &&& match lookup(table, name) {
                Some(info) => lookup(after, name) matches Some(marked_info) && {
                    &&& marked_info.is_validator
                    &&& match context_parameter(validator) {
                        Some(i) => marked_info.script_context_param_index == i as i32,
                        None => marked_info.script_context_param_index
                            == info.script_context_param_index,
                    }
                    &&& marked_info.qualified_name == info.qualified_name
                    &&& marked_info.body == info.body
                    &&& marked_info.definition == info.definition
                    &&& marked_info.module_name == info.module_name
                    &&& marked_info.arguments == info.arguments
                    &&& marked_info.return_type == info.return_type
                },
                None => after == table,
            }
        }),
{
    if let Some(info) = lookup(table, name) {
        let marked_info = FunctionView {
            is_validator: true,
            script_context_param_index: match context_parameter(validator) {
                Some(i) => i as i32,
                None => info.script_context_param_index,
            },
            ..info
        };
        law_bind_then_lookup(table, name, marked_info, other);
    }
}

/// A validator that is added stands behind the others. The function of the table that is known as
/// its code, under `validator::` and its name, is marked as such, if there is one.
pub proof fn law_added_validator(
    analyzer: AnalyzerView,
    validator: TypedValidator,
)
    ensures
        ({
            let after = with_validator(analyzer, validator);
            let name = "validator::"@ + validator.fun.name@;
            &&& after.validators == analyzer.validators.push(validator)
            &&& after.functions == analyzer.functions
            &&& after.function_table == marked(analyzer.function_table, name, validator)
        }),
{
}

/// The parameters of a function stand for the values of the results that they are given, in
/// order; every other name stands for what it stood for.
pub proof fn law_parameters_stand_for_arguments(
    env: EnvironmentView,
    parameters: Seq<Parameter>,
    results: Seq<ResultView>,
    n: nat,
    i: int,
    x: Seq<char>,
)
    ensures
        ({
            let after = with_arguments(env, parameters, results, n);
            &&& same_but_names(after, env)
            &&& 0 <= i < n && bare_name(parameters[i].arg_name@) == x && (forall|j: int|
                i < j < n ==> bare_name((#[trigger] parameters[j]).arg_name@) != x) ==> lookup(
                after.variables,
                x,
            ) == Some(results[i].value)
            &&& (forall|j: int| 0 <= j < n ==> bare_name((#[trigger] parameters[j]).arg_name@) != x)
                ==> lookup(after.variables, x) == lookup(env.variables, x)
        }),
{
    lemma_with_arguments(env, parameters, results, n, i, x);
}

/// The validators of a project can be analyzed exactly if the calls in the code of every one of
/// them are complete.
pub proof fn law_analyzable(analyzer: AnalyzerView)
    ensures
        analyzable(analyzer) <==> forall|i: int|
            0 <= i < analyzer.validators.len() ==> has_complete_calls(
                analyzer.function_table,
                code_of(#[trigger] analyzer.validators[i]),
                true,
            ),
{
    assert forall|i: int| 0 <= i < analyzer.validators.len() implies code_of(
        #[trigger] analyzer.validators[i],
    ) == *analyzer.validators[i].fun.body by {}
}

/// A pattern, or a guard, stands where it is written.
pub proof fn law_places_of_patterns(pattern: Pattern, guard: ClauseGuard)
    ensures
        pattern.span() == place_of(pattern),
        match guard {
            ClauseGuard::Equals { location, .. } => guard.span() == location,
            ClauseGuard::NotEquals { location, .. } => guard.span() == location,
            ClauseGuard::And { location, .. } => guard.span() == location,
            ClauseGuard::Or { location, .. } => guard.span() == location,
            ClauseGuard::Other { location } => guard.span() == location,
        },
{
}

} // verus!
