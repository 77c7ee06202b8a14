//! What holds of every analysis: what is known of the script context, which functions stand in
//! for calls, and what the report can say.
use crate::analyze_validator::{project_analyzer, with_functions, with_validators};
use crate::analyzer::{
    bare_name, candidate_from, context_parameter, described, function_to_inline, is_candidate,
    marked, prepared, qualified, with_function, AnalyzerView, FunctionView,
};
use crate::ast::{
    is_comparison, CheckedModule, Function, TypedDefinition, TypedExpr, TypedNode, TypedValidator,
};
use crate::environment::{empty_environment, EnvironmentView};
use crate::laws::{is_count_comparison, law_findings};
use crate::name_map::{
    bind, distinct_names, law_bind_then_lookup, lemma_position, lookup, position,
};
use crate::report::{
    checks_duplicates, checks_tokens, duplicates_missing, selected, tokens_missing, usage_of,
    validator_result, Usage,
};
use crate::semantics::{at_top, execute, execute_at, execute_each, list_function, ResultView, Table};
use crate::text::begins_with;
use crate::value::{derived_value, OriginView, SecurityPatternKind};
use vstd::prelude::*;

verus! {

/// A validator's code starts out with four names: the script context, its transaction, the
/// transaction's inputs, and its purpose.
pub proof fn law_context_known(validator: TypedValidator, i: int)
    requires
        context_parameter(validator) == Some(i),
    ensures
        ({
            let argument = validator.fun.arguments@[i];
            let name = bare_name(argument.arg_name@);
            let known = |origin: OriginView| Some(
                derived_value(origin, argument.tipo@, Seq::empty()),
            );
            let env = prepared(validator);
            &&& env.script_context_name == Some(name)
            &&& env.conditions.len() == 0
            &&& env.variables.len() == 4
            &&& lookup(env.variables, name) == known(OriginView::ScriptContext)
            &&& lookup(env.variables, name + ".transaction"@) == known(OriginView::Transaction)
            &&& lookup(env.variables, name + ".transaction.inputs"@) == known(
                OriginView::TransactionInputs,
            )
            &&& lookup(env.variables, name + ".purpose"@) == known(OriginView::Purpose)
        }),
{
    reveal_strlit(".transaction");
    reveal_strlit(".transaction.inputs");
    reveal_strlit(".purpose");
    let argument = validator.fun.arguments@[i];
    let name = bare_name(argument.arg_name@);
    let known = |origin: OriginView| derived_value(origin, argument.tipo@, Seq::empty());
    let n1 = name + ".transaction"@;
    let n2 = name + ".transaction.inputs"@;
    let n3 = name + ".purpose"@;
    assert(n3[name.len() as int + 1] == 'p');
    assert(n1[name.len() as int + 1] == 't');
    assert(name.len() < n3.len() < n1.len() < n2.len());
    let v0 = empty_environment().variables;
    let v1 = bind(v0, name, known(OriginView::ScriptContext));
    let v2 = bind(v1, n1, known(OriginView::Transaction));
    let v3 = bind(v2, n2, known(OriginView::TransactionInputs));
    let v4 = bind(v3, n3, known(OriginView::Purpose));
    assert(v4 == prepared(validator).variables);
    lemma_position(v0, name);
    lemma_position(v1, n1);
    lemma_position(v2, n2);
    lemma_position(v3, n3);
    assert(v1.len() == 1 && v1[0].0 == name);
    assert(v2.len() == 2 && v2[0].0 == name && v2[1].0 == n1);
    assert(v3.len() == 3 && v3[0].0 == name && v3[1].0 == n1 && v3[2].0 == n2);
    lemma_position(v4, name);
    lemma_position(v4, n1);
    lemma_position(v4, n2);
    lemma_position(v4, n3);
    assert(v4[0].0 == name && v4[1].0 == n1 && v4[2].0 == n2 && v4[3].0 == n3);
}

/// Whether `expr` reads field `label` of `record`.
pub open spec fn reads(expr: TypedExpr, label: Seq<char>, record: TypedExpr) -> bool {
    expr.node matches TypedNode::RecordAccess { label: l, record: r } && l@ == label && *r
        == record
}

/// The purpose of a script context and the inputs of its transaction are recognised wherever
/// they are read from a variable that holds the script context; the transaction on its own
/// counts as neither.
pub proof fn law_purpose_and_inputs_tracked(
    table: Table,
    context: TypedExpr,
    transaction: TypedExpr,
    expr: TypedExpr,
    env: EnvironmentView,
)
    requires
        context.node matches TypedNode::Var { name } && (lookup(env.variables, name@) matches Some(
            v,
        ) && v.origin is ScriptContext),
    ensures
        reads(expr, "purpose"@, context) ==> {
            let result = execute(table, expr, env);
            result.value.origin is Purpose && usage_of(result) == Usage::PurposeOnly
        },
        reads(transaction, "transaction"@, context) && reads(expr, "inputs"@, transaction) ==> {
            let result = execute(table, expr, env);
            result.value.origin is TransactionInputs && usage_of(result) == Usage::InputsOnly
        },
        reads(expr, "transaction"@, context) ==> {
            let result = execute(table, expr, env);
            result.value.origin is Transaction && usage_of(result) == Usage::Neither
        },
{
    reveal_with_fuel(execute_at, 4);
    reveal_strlit("purpose");
    reveal_strlit("transaction");
    reveal_strlit("inputs");
    assert("purpose"@.len() != "transaction"@.len());
    assert("inputs"@.len() != "purpose"@.len());
}

/// A comparison with a count of tokens is found, at its own place.
pub proof fn law_count_comparison_found(
    table: Table,
    expr: TypedExpr,
    env: EnvironmentView,
)
    requires
        expr.node matches TypedNode::BinOp { op, left, right } && is_comparison(op) && (execute(table, *left, env).value.origin is TokenCount || execute(table, *right, env).value.origin is
            TokenCount),
    ensures
        execute(table, expr, env).findings.len() > 0,
        is_count_comparison(execute(table, expr, env).findings.last()),
        execute(table, expr, env).findings.last().location == expr.location,
{
}

/// To count the transaction's inputs by their address gives a count of tokens.
pub proof fn law_inputs_counted_by_address(
    table: Table,
    expr: TypedExpr,
    env: EnvironmentView,
)
    requires
        expr.node matches TypedNode::Call { fun, args } && list_function(*fun) == Some("count"@)
            && args@.len() >= 2 && ({
            let results = execute_each(
                table,
                args@,
                execute(table, *fun, env).environment,
                at_top(env),
            );
            results[0].value.origin is TransactionInputs && results[1].uses.contains(
                OriginView::InputTokenAddress,
            )
        }),
    ensures
        execute(table, expr, env).value.origin is TokenCount,
{
    reveal_strlit("find");
    reveal_strlit("map");
    reveal_strlit("count");
    assert("count"@.len() == 5 && "find"@.len() == 4 && "map"@.len() == 3);
}

/// The code of a validator.
pub open spec fn code_of(validator: TypedValidator) -> TypedExpr {
    *validator.fun.body
}

/// A validator passes the check of token counts if and only if something was found in it, and
/// no validator ever passes the check for duplicate inputs.
pub proof fn law_checks(table: Table, validator: TypedValidator)
    ensures
        checks_tokens(table, validator) <==> validator_result(table, validator).findings.len() > 0,
        !checks_duplicates(table, validator),
{
    let findings = validator_result(table, validator).findings;
    law_findings(table, code_of(validator), prepared(validator));
    if findings.len() > 0 {
        assert(is_count_comparison(findings[0]));
    }
    if checks_duplicates(table, validator) {
        let i = choose|i: int|
            0 <= i < findings.len() && (#[trigger] findings[i]).kind
                == SecurityPatternKind::DuplicateInputCheck;
        assert(is_count_comparison(findings[i]));
    }
}

/// As soon as there is a validator, the report recommends to check for duplicate inputs; it
/// finds nothing to recommend only where there are no validators.
pub proof fn law_recommendations(table: Table, validators: Seq<TypedValidator>)
    ensures
        duplicates_missing(table, validators) <==> validators.len() > 0,
        tokens_missing(table, validators) ==> validators.len() > 0,
{
    if validators.len() > 0 {
        law_checks(table, validators[0]);
    }
}

/// Every result is listed under exactly one use of the purpose and the inputs.
pub proof fn law_every_result_listed_once(results: Seq<ResultView>)
    ensures
        selected(results, Usage::PurposeOnly).len() + selected(results, Usage::InputsOnly).len()
            + selected(results, Usage::Both).len() + selected(results, Usage::Neither).len()
            == results.len(),
        forall|usage: Usage, i: int|
            0 <= i < selected(results, usage).len() ==> usage_of(
                #[trigger] selected(results, usage)[i],
            ) == usage,
    decreases results.len(),
{
    if results.len() > 0 {
        law_every_result_listed_once(results.drop_last());
    }
}

/// Whether every function of a table stands there once, under its module and its name.
pub open spec fn well_named(table: Table) -> bool {
    &&& distinct_names(table)
    &&& forall|i: int|
        0 <= i < table.len() ==> {
            &&& (#[trigger] table[i]).0 == table[i].1.qualified_name
            &&& table[i].0 == qualified(
                table[i].1.module_name,
                table[i].1.definition.name@,
            )
        }
}

proof fn lemma_bind_named(table: Table, name: Seq<char>, info: FunctionView)
    requires
        well_named(table),
        name == info.qualified_name,
        name == qualified(info.module_name, info.definition.name@),
    ensures
        well_named(bind(table, name, info)),
{
    law_bind_then_lookup(table, name, info, name);
    lemma_position(table, name);
    let bound = bind(table, name, info);
    assert forall|i: int| 0 <= i < bound.len() implies {
        &&& (#[trigger] bound[i]).0 == bound[i].1.qualified_name
        &&& bound[i].0 == qualified(bound[i].1.module_name, bound[i].1.definition.name@)
    } by {
        if i < table.len() {
            assert(table[i].0 == table[i].1.qualified_name);
        }
    }
}

/// What is known of a definition that is a function.
spec fn described_definition(definition: TypedDefinition, module: Seq<char>) -> Option<
    FunctionView,
> {
    match definition {
        TypedDefinition::Fn(function) => Some(described(*function, module)),
        _ => None,
    }
}

proof fn lemma_functions_named(
    analyzer: AnalyzerView,
    definitions: Seq<TypedDefinition>,
    module: Seq<char>,
)
    requires
        well_named(analyzer.function_table),
    ensures
        well_named(with_functions(analyzer, definitions, module).function_table),
        with_functions(analyzer, definitions, module).validators == analyzer.validators,
    decreases definitions.len(),
{
    if definitions.len() > 0 {
        lemma_functions_named(analyzer, definitions.drop_last(), module);
        let before = with_functions(analyzer, definitions.drop_last(), module);
        if let Some(info) = described_definition(definitions.last(), module) {
            lemma_bind_named(before.function_table, info.qualified_name, info);
        }
    }
}

/// To mark a function as the code of a validator leaves all else about the table as it is:
/// the same functions under the same names, in the same places.
pub proof fn law_marking(table: Table, name: Seq<char>, validator: TypedValidator)
    ensures
        marked(table, name, validator).len() == table.len(),
        forall|i: int|
            0 <= i < table.len() ==> {
                let after = #[trigger] marked(table, name, validator)[i];
                &&& after.0 == table[i].0
                &&& after.1 == (FunctionView {
                    is_validator: after.1.is_validator,
                    script_context_param_index: after.1.script_context_param_index,
                    ..table[i].1
                })
                &&& table[i].0 != name ==> after.1 == table[i].1
            },
{
    lemma_position(table, name);
}

proof fn lemma_marked_named(table: Table, name: Seq<char>, validator: TypedValidator)
    requires
        well_named(table),
    ensures
        well_named(marked(table, name, validator)),
{
    law_marking(table, name, validator);
    let after = marked(table, name, validator);
    assert forall|i: int, j: int| 0 <= i < j < after.len() implies (#[trigger] after[i]).0 != (
    #[trigger] after[j]).0 by {
        assert(table[i].0 != table[j].0);
    }
    assert forall|i: int| 0 <= i < after.len() implies {
        &&& (#[trigger] after[i]).0 == after[i].1.qualified_name
        &&& after[i].0 == qualified(after[i].1.module_name, after[i].1.definition.name@)
    } by {
        assert(table[i].0 == table[i].1.qualified_name);
    }
}

/// The validators among the definitions, in order.
pub open spec fn validators_among(definitions: Seq<TypedDefinition>) -> Seq<TypedValidator>
    decreases definitions.len(),
{
    if definitions.len() == 0 {
        Seq::empty()
    } else {
        let before = validators_among(definitions.drop_last());
        match definitions.last() {
            TypedDefinition::Validator(validator) => before.push(validator),
            _ => before,
        }
    }
}

/// The validators of a project: those of its validator modules, in order.
pub open spec fn validators_of(modules: Seq<CheckedModule>) -> Seq<TypedValidator>
    decreases modules.len(),
{
    if modules.len() == 0 {
        Seq::empty()
    } else if modules.last().kind is Validator {
        validators_of(modules.drop_last()) + validators_among(modules.last().definitions@)
    } else {
        validators_of(modules.drop_last())
    }
}

proof fn lemma_validators_named(analyzer: AnalyzerView, definitions: Seq<TypedDefinition>)
    requires
        well_named(analyzer.function_table),
    ensures
        well_named(with_validators(analyzer, definitions).function_table),
        with_validators(analyzer, definitions).validators == analyzer.validators
            + validators_among(definitions),
    decreases definitions.len(),
{
    if definitions.len() > 0 {
        lemma_validators_named(analyzer, definitions.drop_last());
        let before = with_validators(analyzer, definitions.drop_last());
        if let TypedDefinition::Validator(validator) = definitions.last() {
            lemma_marked_named(
                before.function_table,
                "validator::"@ + validator.fun.name@,
                validator,
            );
            assert(with_validators(analyzer, definitions).validators =~= analyzer.validators
                + validators_among(definitions));
        }
    } else {
        assert(analyzer.validators + Seq::<TypedValidator>::empty() =~= analyzer.validators);
    }
}

/// The analysis of a project looks at just the validators of its validator modules, in order,
/// and knows every function once, under its module and its name.
pub proof fn law_project(modules: Seq<CheckedModule>)
    ensures
        project_analyzer(modules).validators == validators_of(modules),
        well_named(project_analyzer(modules).function_table),
    decreases modules.len(),
{
    if modules.len() > 0 {
        law_project(modules.drop_last());
        let before = project_analyzer(modules.drop_last());
        let module = modules.last();
        lemma_functions_named(before, module.definitions@, module.name@);
        if module.kind is Validator {
            let known = with_functions(before, module.definitions@, module.name@);
            lemma_validators_named(known, module.definitions@);
        }
    }
}

/// A function that was just registered is found under its module and its name; what was known
/// under other names stays.
pub proof fn law_registered_function_is_found(
    analyzer: AnalyzerView,
    function: Function,
    module: Seq<char>,
    other: Seq<char>,
)
    requires
        distinct_names(analyzer.function_table),
    ensures
        ({
            let table = with_function(analyzer, function, module).function_table;
            let name = qualified(module, function.name@);
            &&& lookup(table, name) == Some(described(function, module))
            &&& other != name ==> lookup(table, other) == lookup(analyzer.function_table, other)
        }),
{
    law_bind_then_lookup(
        analyzer.function_table,
        qualified(module, function.name@),
        described(function, module),
        other,
    );
}

/// A bare name stands for a function exactly if a function outside the standard library has
/// that name.
pub proof fn law_bare_names(table: Table, name: Seq<char>, from: int)
    requires
        0 <= from,
    ensures
        candidate_from(table, name, from) is Some <==> exists|i: int|
            from <= i && #[trigger] is_candidate(table, name, i),
        candidate_from(table, name, from) matches Some(info) ==> exists|i: int|
            from <= i && #[trigger] is_candidate(table, name, i) && table[i].1 == info && forall|
                j: int|
                from <= j < i ==> !#[trigger] is_candidate(table, name, j),
    decreases table.len() - from,
{
    if from < table.len() {
        if is_candidate(table, name, from) {
        } else {
            law_bare_names(table, name, from + 1);
            if let Some(info) = candidate_from(table, name, from) {
                let i = choose|i: int|
                    from + 1 <= i && #[trigger] is_candidate(table, name, i) && table[i].1 == info
                        && forall|j: int|
                        from + 1 <= j < i ==> !#[trigger] is_candidate(table, name, j);
                assert forall|j: int| from <= j < i implies !#[trigger] is_candidate(
                    table,
                    name,
                    j,
                ) by {
                    if j > from {
                        assert(from + 1 <= j);
                    }
                }
            }
            assert forall|i: int| from <= i && #[trigger] is_candidate(table, name, i) implies from
                + 1 <= i by {}
        }
    }
}

/// No function of the standard library ever stands in for a call.
pub proof fn law_standard_library_is_opaque(table: Table, fun: TypedExpr)
    requires
        well_named(table),
    ensures
        function_to_inline(table, fun) matches Some(info) ==> !begins_with(
            info.module_name,
            "aiken/"@,
        ),
{
    if let Some(info) = function_to_inline(table, fun) {
        match fun.node {
            TypedNode::Var { name } => {
                law_bare_names(table, name@, 0);
            },
            TypedNode::ModuleSelect { module_name, label } => {
                let name = qualified(module_name@, label@);
                lemma_position(table, name);
                let i = position(table, name).unwrap();
                assert(table[i].0 == qualified(info.module_name, info.definition.name@));
                if begins_with(info.module_name, "aiken/"@) {
                    lemma_prefix_of_qualified(
                        module_name@,
                        label@,
                        info.module_name,
                        info.definition.name@,
                    );
                }
            },
            _ => {},
        }
    }
}

proof fn lemma_prefix_of_qualified(
    module: Seq<char>,
    name: Seq<char>,
    other_module: Seq<char>,
    other_name: Seq<char>,
)
    requires
        qualified(module, name) == qualified(other_module, other_name),
        begins_with(other_module, "aiken/"@),
    ensures
        begins_with(module, "aiken/"@),
{
    reveal_strlit("aiken/");
    reveal_strlit("::");
    let whole = qualified(module, name);
    let prefix = "aiken/"@;
    assert forall|k: int| 0 <= k < 6 implies whole[k] == prefix[k] by {
        assert(other_module.subrange(0, 6)[k] == prefix[k]);
        assert(qualified(other_module, other_name)[k] == other_module[k]);
    }
    if module.len() < 6 {
        let k = module.len() as int;
        assert(whole[k] == ':');
        assert(prefix[k] != ':');
    } else {
        assert forall|k: int| 0 <= k < 6 implies module[k] == prefix[k] by {
            assert(whole[k] == module[k]);
        }
        assert(module.subrange(0, 6) =~= prefix);
    }
}

} // verus!
