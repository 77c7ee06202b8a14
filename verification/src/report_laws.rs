//! What the report says of each validator, and of the project as a whole.
use crate::analysis_laws::code_of;
use crate::analyze_validator::{
    modules_told, project_analyzer, project_told, validators_told, with_functions, with_validators,
};
use crate::analyzer::{
    added_lines, bare_name, context_parameter, function_table_text, prepared, with_function,
    with_validator, AnalyzerView,
};
use crate::ast::{children, CheckedModule, Span, TypedDefinition, TypedExpr, TypedValidator};
use crate::environment::EnvironmentView;
use crate::name_map::lookup;
use crate::report::{
    count_lines, duplicates_missing, origin_lines, place_lines, report, selected, summary_head,
    summary_rows, tokens_missing, validator_lines, validator_result, validators_lines,
    variable_lines, walk, walk_children, Usage,
};
use crate::semantics::{execute, ResultView, Table};
use crate::text::{decimal, padded};
use crate::value::{origin_debug, FindingView, OriginView, SecurityPatternKind, ValueView};
use vstd::prelude::*;

verus! {

/// Whether something of a kind is among what the execution of a validator's own code finds.
pub open spec fn finds(
    table: Table,
    validator: TypedValidator,
    kind: SecurityPatternKind,
) -> bool {
    exists|f: FindingView|
        #[trigger] execute(table, code_of(validator), prepared(validator)).findings.contains(f)
            && f.kind == kind
}

proof fn lemma_finds(table: Table, validator: TypedValidator, kind: SecurityPatternKind)
    ensures
        finds(table, validator, kind) <==> crate::report::has_finding(
            validator_result(table, validator).findings,
            kind,
        ),
{
    let findings = validator_result(table, validator).findings;
    if finds(table, validator, kind) {
        let f = choose|f: FindingView|
            #[trigger] execute(table, code_of(validator), prepared(validator)).findings.contains(f)
                && f.kind == kind;
        let i = choose|i: int| 0 <= i < findings.len() && findings[i] == f;
        assert(findings[i].kind == kind);
    }
    if crate::report::has_finding(findings, kind) {
        let i = choose|i: int| 0 <= i < findings.len() && (#[trigger] findings[i]).kind == kind;
        assert(findings.contains(findings[i]));
    }
}

/// The summary has a line for each validator, in order, between a rule of dashes and one of equal
/// signs. The line holds the validator's name and says that the check of token counts passed if
/// and only if a comparison with a count of tokens is found in the validator's own code, and that
/// the check for duplicate inputs passed if and only if such a check is found there. Each says
/// that it failed otherwise.
pub proof fn law_summary(table: Table, validators: Seq<TypedValidator>) -> (start: int)
    ensures
        ({
            let lines = report(table, validators);
            let passed = "\x1b[32m✓ PASSED\x1b[0m"@;
            let failed = "\x1b[31m✗ FAILED\x1b[0m"@;
            &&& 7 <= start
            &&& start + validators.len() < lines.len()
            &&& lines[start - 5]
                == "\n\n================================================================="@
            &&& lines[start - 4]
                == "                     SECURITY ANALYSIS SUMMARY                   "@
            &&& lines[start - 3]
                == "================================================================="@
            &&& lines[start - 2] == "| "@ + padded("Validator"@, 30) + " | "@ + padded(
                "Token Count Check"@,
                20,
            ) + " | "@ + padded("Duplicate Input Check"@, 20) + " |"@
            &&& lines[start - 1]
                == "|--------------------------------|----------------------|----------------------|"@
            &&& lines[start + validators.len()]
                == "================================================================="@
            &&& forall|i: int|
                0 <= i < validators.len() ==> #[trigger] lines[start + i] == "| "@ + padded(
                    validators[i].fun.name@,
                    30,
                ) + " | "@ + padded(
                    if finds(
                        table,
                        validators[i],
                        SecurityPatternKind::InputTokenCountComparison,
                    ) {
                        passed
                    } else {
                        failed
                    },
                    20,
                ) + " | "@ + padded(
                    if finds(table, validators[i], SecurityPatternKind::DuplicateInputCheck) {
                        passed
                    } else {
                        failed
                    },
                    20,
                ) + " |"@
        }),
{
    let sections = validators_lines(table, validators);
    let start: int = 2 + sections.len() as int + 5;
    let lines = report(table, validators);
    let rows = summary_rows(table, validators);
    assert forall|i: int| 0 <= i < validators.len() implies #[trigger] lines[start + i]
        == rows[i] by {}
    assert forall|i: int| 0 <= i < validators.len() implies ({
        let v = #[trigger] validators[i];
        &&& finds(table, v, SecurityPatternKind::InputTokenCountComparison)
            == crate::report::checks_tokens(table, v)
        &&& finds(table, v, SecurityPatternKind::DuplicateInputCheck)
            == crate::report::checks_duplicates(table, v)
    }) by {
        lemma_finds(table, validators[i], SecurityPatternKind::InputTokenCountComparison);
        lemma_finds(table, validators[i], SecurityPatternKind::DuplicateInputCheck);
    }
    assert forall|k: int| 0 <= k < 5 implies lines[2 + sections.len() + k]
        == #[trigger] summary_head()[k] by {}
    assert(lines[start - 5] == summary_head()[0]);
    assert(lines[start - 4] == summary_head()[1]);
    assert(lines[start - 3] == summary_head()[2]);
    assert(lines[start - 2] == summary_head()[3]);
    assert(lines[start - 1] == summary_head()[4]);
    start
}

/// Whether the code of some validator lacks what would be found of a kind.
pub open spec fn some_lack(
    table: Table,
    validators: Seq<TypedValidator>,
    kind: SecurityPatternKind,
) -> bool {
    exists|i: int| 0 <= i < validators.len() && !finds(table, #[trigger] validators[i], kind)
}

/// The report ends, behind the summary, with what it recommends: to check the number of tokens,
/// if the code of some validator does not, and to check for duplicate inputs, if the code of some
/// validator does not. Where nothing is missing it says so.
pub proof fn law_report_ends_with_recommendations(table: Table, validators: Seq<TypedValidator>)
    ensures
        ({
            let lines = report(table, validators);
            let tokens = some_lack(
                table,
                validators,
                SecurityPatternKind::InputTokenCountComparison,
            );
            let duplicates = some_lack(
                table,
                validators,
                SecurityPatternKind::DuplicateInputCheck,
            );
            let rule = "================================================================="@;
            let head = "\nRECOMMENDATIONS:"@;
            let count = "\x1b[31m- Implement token count validation in validators that lack it\x1b[0m"@;
            let why_count =
                "  This prevents double satisfaction attacks where the same token is used multiple times"@;
            let check = "\x1b[31m- Add duplicate input checks in validators that lack them\x1b[0m"@;
            let why_check =
                "  This ensures the same UTXO cannot be used multiple times in a transaction"@;
            let fine =
                "\n\x1b[32mAll validators have implemented the recommended security checks.\x1b[0m"@;
            &&& tokens && duplicates ==> lines.skip(lines.len() - 6) == seq![
                rule,
                head,
                count,
                why_count,
                check,
                why_check,
            ]
            &&& tokens && !duplicates ==> lines.skip(lines.len() - 4) == seq![
                rule,
                head,
                count,
                why_count,
            ]
            &&& !tokens && duplicates ==> lines.skip(lines.len() - 4) == seq![
                rule,
                head,
                check,
                why_check,
            ]
            &&& !tokens && !duplicates ==> lines.skip(lines.len() - 2) == seq![rule, fine]
        }),
{
    assert forall|i: int| 0 <= i < validators.len() implies ({
        let v = #[trigger] validators[i];
        &&& finds(table, v, SecurityPatternKind::InputTokenCountComparison)
            == crate::report::checks_tokens(table, v)
        &&& finds(table, v, SecurityPatternKind::DuplicateInputCheck)
            == crate::report::checks_duplicates(table, v)
    }) by {
        lemma_finds(table, validators[i], SecurityPatternKind::InputTokenCountComparison);
        lemma_finds(table, validators[i], SecurityPatternKind::DuplicateInputCheck);
    }
    assert(some_lack(table, validators, SecurityPatternKind::InputTokenCountComparison)
        == tokens_missing(table, validators));
    assert(some_lack(table, validators, SecurityPatternKind::DuplicateInputCheck)
        == duplicates_missing(table, validators));
}

/// The lines, or one that says that there are none.
pub open spec fn listed(lines: Seq<Seq<char>>) -> Seq<Seq<char>> {
    if lines.len() > 0 {
        lines
    } else {
        seq!["  None found"@]
    }
}

/// The names of the variables of an origin, as lines of a list.
pub open spec fn names_of(variables: Seq<(Seq<char>, ValueView)>, origin: OriginView) -> Seq<
    Seq<char>,
> {
    variables.filter(|v: (Seq<char>, ValueView)| v.1.origin == origin).map_values(
        |v: (Seq<char>, ValueView)| "  - "@ + v.0,
    )
}

proof fn lemma_names_of(variables: Seq<(Seq<char>, ValueView)>, origin: OriginView)
    ensures
        variable_lines(variables, origin) == names_of(variables, origin),
    decreases variables.len(),
{
    reveal(Seq::filter);
    if variables.len() > 0 {
        lemma_names_of(variables.drop_last(), origin);
    }
    assert(variable_lines(variables, origin) =~= names_of(variables, origin));
}

/// Where an expression stands, as text.
pub open spec fn place_text(place: Option<Span>) -> Seq<char> {
    match place {
        None => Seq::empty(),
        Some(span) => " at "@ + decimal(span.start as nat) + ":"@ + decimal(span.end as nat),
    }
}

/// The results that use the purpose, and the inputs, or do not, as is asked for.
pub open spec fn using(results: Seq<ResultView>, purpose: bool, inputs: bool) -> Seq<ResultView> {
    results.filter(|r: ResultView| r.uses_purpose == purpose && r.uses_inputs == inputs)
}

/// Results are selected by whether they use the purpose and whether they use the inputs, and stay
/// in order.
pub proof fn law_results_selected_by_use(results: Seq<ResultView>)
    ensures
        selected(results, Usage::PurposeOnly) == using(results, true, false),
        selected(results, Usage::InputsOnly) == using(results, false, true),
        selected(results, Usage::Both) == using(results, true, true),
        selected(results, Usage::Neither) == using(results, false, false),
    decreases results.len(),
{
    reveal(Seq::filter);
    if results.len() > 0 {
        law_results_selected_by_use(results.drop_last());
    }
}

/// The environment in which no name stands for anything.
pub open spec fn nothing_known() -> EnvironmentView {
    EnvironmentView {
        variables: Seq::empty(),
        script_context_name: None,
        conditions: Seq::empty(),
        function_level: None,
    }
}

/// The results that are gone through for an expression are its own, with nothing known, and then
/// those for each of its parts, in order.
pub proof fn law_every_part_is_gone_through(table: Table, expr: TypedExpr)
    ensures
        walk(table, expr) == seq![execute(table, expr, nothing_known())] + children(
            expr,
        ).map_values(|part: TypedExpr| walk(table, part)).flatten_alt(),
{
    let f = |part: TypedExpr| walk(table, part);
    lemma_walk_children(table, expr, children(expr).len());
    assert(children(expr).take(children(expr).len() as int) =~= children(expr));
    assert(nothing_known() =~= crate::environment::empty_environment());
}

proof fn lemma_walk_children(table: Table, expr: TypedExpr, n: nat)
    requires
        n <= children(expr).len(),
    ensures
        walk_children(table, expr, n) == children(expr).take(n as int).map_values(
            |part: TypedExpr| walk(table, part),
        ).flatten_alt(),
    decreases n,
{
    let f = |part: TypedExpr| walk(table, part);
    let parts = children(expr).take(n as int).map_values(f);
    if n > 0 {
        lemma_walk_children(table, expr, (n - 1) as nat);
        assert(parts.drop_last() =~= children(expr).take(n - 1).map_values(f));
        assert(parts.last() == walk(table, children(expr)[n - 1]));
    }
}

/// The lines on the token counts that were found.
pub open spec fn counts_told(findings: Seq<FindingView>) -> Seq<Seq<char>> {
    findings.filter(|f: FindingView| f.kind is InputTokenCountComparison).map_values(
        |f: FindingView|
            "  - Found at line "@ + decimal(f.location.start as nat) + ": "@ + f.description,
    )
}

proof fn lemma_counts_told(findings: Seq<FindingView>)
    ensures
        count_lines(findings) == counts_told(findings),
    decreases findings.len(),
{
    reveal(Seq::filter);
    if findings.len() > 0 {
        lemma_counts_told(findings.drop_last());
    }
    assert(count_lines(findings) =~= counts_told(findings));
}

/// The origins of results and where they stand, as lines of a list.
pub open spec fn origins_told(results: Seq<ResultView>) -> Seq<Seq<char>> {
    results.map_values(
        |r: ResultView| "  - "@ + origin_debug(r.value.origin) + place_text(r.location),
    )
}

/// Where results stand, as lines of a list.
pub open spec fn places_told(results: Seq<ResultView>) -> Seq<Seq<char>> {
    results.map_values(|r: ResultView| "  - Expression"@ + place_text(r.location))
}

proof fn lemma_results_told(results: Seq<ResultView>)
    ensures
        origin_lines(results) == origins_told(results),
        place_lines(results) == places_told(results),
{
    assert(origin_lines(results) =~= origins_told(results));
    assert(place_lines(results) =~= places_told(results));
}

/// What the report says of one validator: the variables that hold the purpose, and those that
/// hold the inputs, when its code is through; the expressions in it that use the purpose alone,
/// the inputs alone, or both, and where they stand; and where it compares a count of tokens.
pub open spec fn told_of(table: Table, validator: TypedValidator) -> Seq<Seq<char>> {
    let outcome = execute(table, code_of(validator), prepared(validator));
    let all = walk(table, code_of(validator));
    seq!["\nAnalyzing validator: "@ + validator.fun.name@] + seq![
        "\nVariables that hold ScriptContext.purpose:"@,
    ] + listed(names_of(outcome.environment.variables, OriginView::Purpose)) + seq![
        "\nVariables that hold transaction.inputs:"@,
    ] + listed(names_of(outcome.environment.variables, OriginView::TransactionInputs)) + seq![
        "\nFlagging security-relevant expressions:"@,
    ] + seq!["\n1. Expressions that use ONLY ScriptContext.purpose:"@] + listed(
        origins_told(using(all, true, false)),
    ) + seq!["\n2. Expressions that use ONLY Transaction.inputs:"@] + listed(
        origins_told(using(all, false, true)),
    ) + seq!["\n3. Expressions that use BOTH purpose AND inputs:"@] + listed(
        places_told(using(all, true, true)),
    ) + seq!["\nSecurity Check - Token Count Validation:"@] + (if finds(
        table,
        validator,
        SecurityPatternKind::InputTokenCountComparison,
    ) {
        seq!["\x1b[32m✓ PASSED: Token count validation detected\x1b[0m"@] + counts_told(
            outcome.findings,
        )
    } else {
        seq![
            "\x1b[31m✗ ALERT: No token count validation detected - your validator may be vulnerable to double satisfaction attacks\x1b[0m"@,
            "  - Recommendation: Add validation that checks the count of inputs matching specific criteria"@,
        ]
    })
}

proof fn lemma_told_of(table: Table, validator: TypedValidator)
    ensures
        validator_lines(table, validator) == told_of(table, validator),
{
    let outcome = execute(table, code_of(validator), prepared(validator));
    let all = walk(table, code_of(validator));
    lemma_names_of(outcome.environment.variables, OriginView::Purpose);
    lemma_names_of(outcome.environment.variables, OriginView::TransactionInputs);
    law_results_selected_by_use(all);
    lemma_counts_told(outcome.findings);
    lemma_finds(table, validator, SecurityPatternKind::InputTokenCountComparison);
    lemma_results_told(using(all, true, false));
    lemma_results_told(using(all, false, true));
    lemma_results_told(using(all, true, true));
    lemma_listed(names_of(outcome.environment.variables, OriginView::Purpose));
    lemma_listed(names_of(outcome.environment.variables, OriginView::TransactionInputs));
    lemma_listed(origins_told(using(all, true, false)));
    lemma_listed(origins_told(using(all, false, true)));
    lemma_listed(places_told(using(all, true, true)));
}

proof fn lemma_listed(lines: Seq<Seq<char>>)
    ensures
        crate::report::or_none(lines) == listed(lines),
{
}

/// The report starts with what it is about and the number of validators, and goes on with the
/// validators, in order; the summary follows.
pub proof fn law_report_tells_of_each_validator(table: Table, validators: Seq<TypedValidator>)
    ensures
        ({
            let told = validators.map_values(|v: TypedValidator| told_of(table, v)).flatten_alt();
            let lines = report(table, validators);
            let n = 2 + told.len();
            &&& n < lines.len()
            &&& lines.take(n as int) == seq![
                "\nPerforming static analysis focusing on ScriptContext.purpose and transaction.inputs tracking..."@,
                "Found "@ + decimal(validators.len()) + " validators to analyze"@,
            ] + told
            &&& lines[n as int]
                == "\n\n================================================================="@
        }),
{
    lemma_sections(table, validators);
    let told = validators.map_values(|v: TypedValidator| told_of(table, v)).flatten_alt();
    let lines = report(table, validators);
    assert(lines[2 + told.len() as int] == summary_head()[0]);
    assert(lines.take(2 + told.len() as int) =~= seq![
        "\nPerforming static analysis focusing on ScriptContext.purpose and transaction.inputs tracking..."@,
        "Found "@ + decimal(validators.len()) + " validators to analyze"@,
    ] + told);
}

proof fn lemma_sections(table: Table, validators: Seq<TypedValidator>)
    ensures
        validators_lines(table, validators) == validators.map_values(
            |v: TypedValidator| told_of(table, v),
        ).flatten_alt(),
    decreases validators.len(),
{
    let f = |v: TypedValidator| told_of(table, v);
    let all = validators.map_values(f);
    if validators.len() > 0 {
        lemma_sections(table, validators.drop_last());
        lemma_told_of(table, validators.last());
        assert(all.drop_last() =~= validators.drop_last().map_values(f));
        assert(all.last() == told_of(table, validators.last()));
    }
}

/// What is told when a validator is added: its name, and, where a function of the table is known
/// as its code and it has a script context, the name and the place of that parameter.
pub proof fn law_added_validator_is_told(table: Table, validator: TypedValidator)
    ensures
        ({
            let lines = added_lines(table, validator);
            let arguments = validator.fun.arguments@;
            let known = lookup(table, "validator::"@ + validator.fun.name@) is Some;
            &&& lines[0] == "  Adding validator: "@ + validator.fun.name@
            &&& known && context_parameter(validator) is Some ==> {
                &&& lines.len() == 2
                &&& lines[1] == "  Identified ScriptContext parameter '"@ + bare_name(
                    arguments.last().arg_name@,
                ) + "' at index "@ + decimal((arguments.len() - 1) as nat)
            }
            &&& !known || context_parameter(validator) is None ==> lines.len() == 1
        }),
{
}

/// The table of functions as text: a line for each function, in order, with its qualified name
/// and the number of its parameters, between rules, and their number at the end.
pub proof fn law_function_table(table: Table)
    ensures
        ({
            let lines = function_table_text(table);
            let rule = "--------------------------------------------------"@;
            let n = table.len() as int;
            &&& lines.len() == n + 6
            &&& lines[0] == "\nFunction Table:"@
            &&& lines[1] == rule
            &&& lines[2] == "| "@ + padded("Qualified Name"@, 30) + " | "@ + padded(
                "Arguments"@,
                15,
            ) + " |"@
            &&& lines[3] == rule
            &&& forall|i: int|
                0 <= i < n ==> #[trigger] lines[4 + i] == "| "@ + padded(table[i].0, 30) + " | "@
                    + padded(decimal(table[i].1.definition.arguments@.len()), 15) + " |"@
            &&& lines[n + 4] == rule
            &&& lines[n + 5] == "Total functions: "@ + decimal(table.len())
        }),
{
}

/// The definitions of a module are taken in one by one: each function is registered under the
/// module, and nothing else is.
pub proof fn law_functions_are_registered(
    analyzer: AnalyzerView,
    before: Seq<TypedDefinition>,
    definition: TypedDefinition,
    module: Seq<char>,
)
    ensures
        with_functions(analyzer, Seq::empty(), module) == analyzer,
        definition matches TypedDefinition::Fn(function) ==> with_functions(
            analyzer,
            before.push(definition),
            module,
        ) == with_function(with_functions(analyzer, before, module), *function, module),
        !(definition is Fn) ==> with_functions(analyzer, before.push(definition), module)
            == with_functions(analyzer, before, module),
        with_validators(analyzer, Seq::empty()) == analyzer,
        definition matches TypedDefinition::Validator(validator) ==> with_validators(
            analyzer,
            before.push(definition),
        ) == with_validator(with_validators(analyzer, before), validator),
        !(definition is Validator) ==> with_validators(analyzer, before.push(definition))
            == with_validators(analyzer, before),
{
    assert(before.push(definition).drop_last() =~= before);
}

/// The modules of a project are taken in one by one: the functions of each, and then, if it is a
/// validator module, its validators. A project without modules has neither.
pub proof fn law_modules_are_taken_in(before: Seq<CheckedModule>, module: CheckedModule)
    ensures
        ({
            let none = project_analyzer(Seq::empty());
            &&& none.validators.len() == 0
            &&& none.functions.len() == 0
            &&& none.function_table.len() == 0
        }),
        ({
            let known = with_functions(
                project_analyzer(before),
                module.definitions@,
                module.name@,
            );
            let after = project_analyzer(before.push(module));
            &&& module.kind is Validator ==> after == with_validators(known, module.definitions@)
            &&& module.kind is Lib ==> after == known
        }),
{
    assert(before.push(module).drop_last() =~= before);
}

/// What is told of a project before the report: the number of its modules, then each validator
/// module by its name, and the validators in it as they are added.
pub proof fn law_told_of_modules(before: Seq<CheckedModule>, module: CheckedModule)
    ensures
        ({
            let all = before.push(module);
            let head = |n: nat| seq!["Found "@ + decimal(n) + " modules in the project"@];
            let known = with_functions(
                project_analyzer(before),
                module.definitions@,
                module.name@,
            );
            let earlier = project_told(before).skip(1);
            &&& project_told(Seq::empty()) == head(0)
            &&& module.kind is Lib ==> project_told(all) == head(all.len()) + earlier
            &&& module.kind is Validator ==> project_told(all) == head(all.len()) + earlier + seq![
                "Found validator module: "@ + module.name@,
            ] + validators_told(known, module.definitions@)
        }),
{
    let all = before.push(module);
    assert(all.drop_last() =~= before);
    assert(project_told(before).skip(1) =~= modules_told(before));
    assert(project_told(Seq::empty()) =~= seq!["Found "@ + decimal(0) + " modules in the project"@]);
    let known = with_functions(project_analyzer(before), module.definitions@, module.name@);
    if module.kind is Validator {
        assert(project_told(all) =~= seq!["Found "@ + decimal(all.len())
            + " modules in the project"@] + modules_told(before) + seq![
            "Found validator module: "@ + module.name@,
        ] + validators_told(known, module.definitions@));
    } else {
        assert(project_told(all) =~= seq!["Found "@ + decimal(all.len())
            + " modules in the project"@] + modules_told(before));
    }
}

/// What is told of the validators among the definitions of a module: the lines for each, in
/// order, with the table as it is when the validator is added.
pub proof fn law_told_of_validators(
    analyzer: AnalyzerView,
    before: Seq<TypedDefinition>,
    definition: TypedDefinition,
)
    ensures
        validators_told(analyzer, Seq::empty()) == Seq::<Seq<char>>::empty(),
        definition matches TypedDefinition::Validator(validator) ==> validators_told(
            analyzer,
            before.push(definition),
        ) == validators_told(analyzer, before) + added_lines(
            with_validators(analyzer, before).function_table,
            validator,
        ),
        !(definition is Validator) ==> validators_told(analyzer, before.push(definition))
            == validators_told(analyzer, before),
{
    assert(before.push(definition).drop_last() =~= before);
}

} // verus!
