//! The report on the validators: what their code does with the script context.
use crate::analyzer::{prepared, AstAnalyzer};
use crate::ast::{children, lemma_child_is_smaller, Span, TypedExpr, TypedNode, TypedValidator};
use crate::environment::{empty_environment, SymbolicEnvironment};
use crate::execution::{results_view, ExprResult};
use crate::semantics::{execute, has_complete_calls, ResultView, Table};
use crate::text::{
    add_line, add_lines, concat2, concat3, decimal, decimal_text, pad_right, padded, texts,
};
use crate::value::{
    origin_debug, FindingView, OriginView, SecurityFinding, SecurityPatternKind, ValueOrigin,
    ValueView,
};
use vstd::prelude::*;
use vstd::string::*;

verus! {

/// How an expression uses the purpose of the script context and the transaction's inputs.
#[derive(Debug, Clone, Copy, PartialEq, Eq, Structural)]
pub enum Usage {
    PurposeOnly,
    InputsOnly,
    Both,
    Neither,
}

/// How an expression with a given result uses the purpose and the inputs.
pub open spec fn usage_of(result: ResultView) -> Usage {
    if result.uses_purpose && result.uses_inputs {
        Usage::Both
    } else if result.uses_purpose {
        Usage::PurposeOnly
    } else if result.uses_inputs {
        Usage::InputsOnly
    } else {
        Usage::Neither
    }
}

/// The results with a given usage.
pub open spec fn selected(results: Seq<ResultView>, usage: Usage) -> Seq<ResultView>
    decreases results.len(),
{
    if results.len() == 0 {
        Seq::empty()
    } else {
        let before = selected(results.drop_last(), usage);
        if usage_of(results.last()) == usage {
            before.push(results.last())
        } else {
            before
        }
    }
}

/// The result of `expr` on its own, followed by those of the expressions inside it.
pub open spec fn walk(table: Table, expr: TypedExpr) -> Seq<ResultView>
    decreases expr, children(expr).len() + 1,
{
    seq![execute(table, expr, empty_environment())] + walk_children(
        table,
        expr,
        children(expr).len(),
    )
}

/// The results of the first `n` expressions directly inside `expr` and of those inside them.
pub open spec fn walk_children(table: Table, expr: TypedExpr, n: nat) -> Seq<ResultView>
    decreases expr, n,
{
    if n == 0 || n > children(expr).len() {
        Seq::empty()
    } else {
        proof {
            lemma_child_is_smaller(expr, n - 1);
        }
        walk_children(table, expr, (n - 1) as nat) + walk(table, children(expr)[n - 1])
    }
}

/// Where an expression stands, as text.
pub open spec fn location_text(location: Option<Span>) -> Seq<char> {
    match location {
        Some(span) => " at "@ + decimal(span.start as nat) + ":"@ + decimal(span.end as nat),
        None => Seq::empty(),
    }
}

/// The lines, or a line that says that there are none.
pub open spec fn or_none(lines: Seq<Seq<char>>) -> Seq<Seq<char>> {
    if lines.len() == 0 {
        seq!["  None found"@]
    } else {
        lines
    }
}

/// The names of the variables of a given origin, line by line.
pub open spec fn variable_lines(variables: Seq<(Seq<char>, ValueView)>, origin: OriginView) -> Seq<
    Seq<char>,
>
    decreases variables.len(),
{
    if variables.len() == 0 {
        Seq::empty()
    } else {
        let before = variable_lines(variables.drop_last(), origin);
        if variables.last().1.origin == origin {
            before.push("  - "@ + variables.last().0)
        } else {
            before
        }
    }
}

/// The origins and places of results, line by line.
pub open spec fn origin_lines(results: Seq<ResultView>) -> Seq<Seq<char>> {
    Seq::new(
        results.len(),
        |i: int|
            "  - "@ + origin_debug(results[i].value.origin) + location_text(results[i].location),
    )
}

/// The places of results, line by line.
pub open spec fn place_lines(results: Seq<ResultView>) -> Seq<Seq<char>> {
    Seq::new(results.len(), |i: int| "  - Expression"@ + location_text(results[i].location))
}

/// Whether something of a given kind was found.
pub open spec fn has_finding(findings: Seq<FindingView>, kind: SecurityPatternKind) -> bool {
    exists|i: int| 0 <= i < findings.len() && (#[trigger] findings[i]).kind == kind
}

/// The comparisons with a count of tokens that were found, line by line.
pub open spec fn count_lines(findings: Seq<FindingView>) -> Seq<Seq<char>>
    decreases findings.len(),
{
    if findings.len() == 0 {
        Seq::empty()
    } else {
        let before = count_lines(findings.drop_last());
        let last = findings.last();
        if last.kind == SecurityPatternKind::InputTokenCountComparison {
            before.push(
                "  - Found at line "@ + decimal(last.location.start as nat) + ": "@
                    + last.description,
            )
        } else {
            before
        }
    }
}

/// The result of a validator.
pub open spec fn validator_result(table: Table, validator: TypedValidator) -> ResultView {
    execute(table, *validator.fun.body, prepared(validator))
}

/// What the report says about the number of tokens.
pub open spec fn token_lines(findings: Seq<FindingView>) -> Seq<Seq<char>> {
    if has_finding(findings, SecurityPatternKind::InputTokenCountComparison) {
        seq!["\x1b[32m✓ PASSED: Token count validation detected\x1b[0m"@] + count_lines(findings)
    } else {
        seq![
            "\x1b[31m✗ ALERT: No token count validation detected - your validator may be vulnerable to double satisfaction attacks\x1b[0m"@,
            "  - Recommendation: Add validation that checks the count of inputs matching specific criteria"@,
        ]
    }
}

/// The part of the report on one validator.
pub open spec fn validator_lines(table: Table, validator: TypedValidator) -> Seq<Seq<char>> {
    let result = validator_result(table, validator);
    let variables = result.environment.variables;
    let results = walk(table, *validator.fun.body);
    seq!["\nAnalyzing validator: "@ + validator.fun.name@]
        + seq!["\nVariables that hold ScriptContext.purpose:"@]
        + or_none(variable_lines(variables, OriginView::Purpose))
        + seq!["\nVariables that hold transaction.inputs:"@]
        + or_none(variable_lines(variables, OriginView::TransactionInputs))
        + seq!["\nFlagging security-relevant expressions:"@]
        + seq!["\n1. Expressions that use ONLY ScriptContext.purpose:"@]
        + or_none(origin_lines(selected(results, Usage::PurposeOnly)))
        + seq!["\n2. Expressions that use ONLY Transaction.inputs:"@]
        + or_none(origin_lines(selected(results, Usage::InputsOnly)))
        + seq!["\n3. Expressions that use BOTH purpose AND inputs:"@]
        + or_none(place_lines(selected(results, Usage::Both)))
        + seq!["\nSecurity Check - Token Count Validation:"@]
        + token_lines(result.findings)
}

/// The parts of the report on the validators, in order.
pub open spec fn validators_lines(table: Table, validators: Seq<TypedValidator>) -> Seq<Seq<char>>
    decreases validators.len(),
{
    if validators.len() == 0 {
        Seq::empty()
    } else {
        validators_lines(table, validators.drop_last()) + validator_lines(table, validators.last())
    }
}

/// Whether a validator checks the number of tokens.
pub open spec fn checks_tokens(table: Table, validator: TypedValidator) -> bool {
    has_finding(
        validator_result(table, validator).findings,
        SecurityPatternKind::InputTokenCountComparison,
    )
}

/// Whether a validator checks for duplicate inputs.
pub open spec fn checks_duplicates(table: Table, validator: TypedValidator) -> bool {
    has_finding(
        validator_result(table, validator).findings,
        SecurityPatternKind::DuplicateInputCheck,
    )
}

/// How a check came out.
pub open spec fn status(passed: bool) -> Seq<char> {
    if passed {
        "\x1b[32m✓ PASSED\x1b[0m"@
    } else {
        "\x1b[31m✗ FAILED\x1b[0m"@
    }
}

/// A row of the summary.
pub open spec fn summary_row(name: Seq<char>, tokens: Seq<char>, duplicates: Seq<char>) -> Seq<char> {
    "| "@ + padded(name, 30) + " | "@ + padded(tokens, 20) + " | "@ + padded(duplicates, 20) + " |"@
}

/// The rows of the summary.
pub open spec fn summary_rows(table: Table, validators: Seq<TypedValidator>) -> Seq<Seq<char>> {
    Seq::new(
        validators.len(),
        |i: int|
            summary_row(
                validators[i].fun.name@,
                status(checks_tokens(table, validators[i])),
                status(checks_duplicates(table, validators[i])),
            ),
    )
}

/// What the report recommends, given whether some validator does not check the number of
/// tokens, and whether some validator does not check for duplicate inputs.
pub open spec fn recommendation_lines(tokens_missing: bool, duplicates_missing: bool) -> Seq<
    Seq<char>,
> {
    if tokens_missing || duplicates_missing {
        seq!["\nRECOMMENDATIONS:"@] + (if tokens_missing {
            seq![
                "\x1b[31m- Implement token count validation in validators that lack it\x1b[0m"@,
                "  This prevents double satisfaction attacks where the same token is used multiple times"@,
            ]
        } else {
            Seq::empty()
        }) + (if duplicates_missing {
            seq![
                "\x1b[31m- Add duplicate input checks in validators that lack them\x1b[0m"@,
                "  This ensures the same UTXO cannot be used multiple times in a transaction"@,
            ]
        } else {
            Seq::empty()
        })
    } else {
        seq![
            "\n\x1b[32mAll validators have implemented the recommended security checks.\x1b[0m"@,
        ]
    }
}

/// The lines above the rows of the summary.
pub open spec fn summary_head() -> Seq<Seq<char>> {
    seq![
        "\n\n================================================================="@,
        "                     SECURITY ANALYSIS SUMMARY                   "@,
        "================================================================="@,
        summary_row("Validator"@, "Token Count Check"@, "Duplicate Input Check"@),
        "|--------------------------------|----------------------|----------------------|"@,
    ]
}

/// Whether some validator does not check the number of tokens.
pub open spec fn tokens_missing(table: Table, validators: Seq<TypedValidator>) -> bool {
    exists|i: int| 0 <= i < validators.len() && !checks_tokens(table, #[trigger] validators[i])
}

/// Whether some validator does not check for duplicate inputs.
pub open spec fn duplicates_missing(table: Table, validators: Seq<TypedValidator>) -> bool {
    exists|i: int| 0 <= i < validators.len() && !checks_duplicates(table, #[trigger] validators[i])
}

/// The whole report.
pub open spec fn report(table: Table, validators: Seq<TypedValidator>) -> Seq<Seq<char>> {
    seq![
        "\nPerforming static analysis focusing on ScriptContext.purpose and transaction.inputs tracking..."@,
        "Found "@ + decimal(validators.len()) + " validators to analyze"@,
    ] + validators_lines(table, validators) + summary_head() + summary_rows(table, validators)
        + seq!["================================================================="@]
        + recommendation_lines(
        tokens_missing(table, validators),
        duplicates_missing(table, validators),
    )
}

/// If an expression can be executed, so can the expressions directly inside it.
pub proof fn law_parts_are_complete(table: Table, expr: TypedExpr, top: bool, i: int)
    requires
        has_complete_calls(table, expr, top),
        0 <= i < children(expr).len(),
    ensures
        has_complete_calls(table, children(expr)[i], top),
{
    match expr.node {
        TypedNode::Call { fun, args } => {
            if i > 0 {
                assert(has_complete_calls(table, args@[i - 1], top));
            }
        },
        TypedNode::When { subject, clauses } => {
            if i > 0 {
                assert(has_complete_calls(table, clauses@[i - 1].body, top));
            }
        },
        _ => {},
    }
}

proof fn lemma_selected_add(a: Seq<ResultView>, b: Seq<ResultView>, usage: Usage)
    ensures
        selected(a + b, usage) == selected(a, usage) + selected(b, usage),
    decreases b.len(),
{
    if b.len() == 0 {
        assert(a + b =~= a);
        assert(selected(a, usage) + selected(b, usage) =~= selected(a, usage));
    } else {
        lemma_selected_add(a, b.drop_last(), usage);
        assert((a + b).drop_last() =~= a + b.drop_last());
        assert((a + b).last() == b.last());
        assert(selected(a + b, usage) =~= selected(a, usage) + selected(b, usage));
    }
}

/// The lines, or a line that says that there are none.
fn lines_or_none(lines: Vec<String>) -> (r: Vec<String>)
    ensures
        texts(r@) == or_none(texts(lines@)),
{
    if lines.len() == 0 {
        let mut r: Vec<String> = Vec::new();
        add_line(&mut r, "  None found".to_owned());
        proof {
            assert(texts(r@) =~= or_none(texts(lines@)));
        }
        r
    } else {
        lines
    }
}

/// Where an expression stands, as text.
fn place(location: &Option<Span>) -> (r: String)
    ensures
        r@ == location_text(*location),
{
    match location {
        Some(span) => {
            let mut r = concat3(" at ", decimal_text(span.start).as_str(), ":");
            r.append(decimal_text(span.end).as_str());
            r
        },
        None => String::new(),
    }
}

/// The names of the variables of a given origin, line by line.
fn variables_of(env: &SymbolicEnvironment, origin: &ValueOrigin) -> (r: Vec<String>)
    ensures
        texts(r@) == variable_lines(env@.variables, origin@),
{
    let mut r: Vec<String> = Vec::new();
    let ghost all = env@.variables;
    let n: usize = env.variables.len();
    let mut i: usize = 0;
    proof {
        assert(texts(r@) =~= Seq::empty());
    }
    while i < n
        invariant
            i <= n == all.len(),
            n == env.variables@.len(),
            all == env@.variables,
            texts(r@) == variable_lines(all.take(i as int), origin@),
        decreases n - i,
    {
        proof {
            assert(all.take(i + 1).drop_last() =~= all.take(i as int));
            assert(all.take(i + 1).last() == all[i as int]);
        }
        let ghost before = texts(r@);
        if env.variables.value(i).origin.same(origin) {
            add_line(&mut r, concat2("  - ", env.variables.name(i).as_str()));
            proof {
                assert(texts(r@) =~= before.push("  - "@ + all[i as int].0));
            }
        }
        i = i + 1;
    }
    proof {
        assert(all.take(i as int) =~= all);
    }
    r
}

/// The origins and places of results, line by line.
fn lines_with_origins(results: &Vec<ExprResult>) -> (r: Vec<String>)
    ensures
        texts(r@) == origin_lines(results_view(results@)),
{
    let mut r: Vec<String> = Vec::new();
    let mut i: usize = 0;
    while i < results.len()
        invariant
            i <= results.len(),
            r.len() == i,
            forall|k: int|
                0 <= k < i ==> (#[trigger] r@[k])@ == "  - "@ + origin_debug(
                    results@[k]@.value.origin,
                ) + location_text(results@[k]@.location),
        decreases results.len() - i,
    {
        let line = concat3(
            "  - ",
            results[i].value.origin.to_debug().as_str(),
            place(&results[i].location).as_str(),
        );
        r.push(line);
        i = i + 1;
    }
    proof {
        assert(texts(r@) =~= origin_lines(results_view(results@)));
    }
    r
}

/// The places of results, line by line.
fn lines_with_places(results: &Vec<ExprResult>) -> (r: Vec<String>)
    ensures
        texts(r@) == place_lines(results_view(results@)),
{
    let mut r: Vec<String> = Vec::new();
    let mut i: usize = 0;
    while i < results.len()
        invariant
            i <= results.len(),
            r.len() == i,
            forall|k: int|
                0 <= k < i ==> (#[trigger] r@[k])@ == "  - Expression"@ + location_text(
                    results@[k]@.location,
                ),
        decreases results.len() - i,
    {
        r.push(concat2("  - Expression", place(&results[i].location).as_str()));
        i = i + 1;
    }
    proof {
        assert(texts(r@) =~= place_lines(results_view(results@)));
    }
    r
}

/// Whether something of a given kind was found.
fn any_finding(findings: &Vec<SecurityFinding>, kind: SecurityPatternKind) -> (r: bool)
    ensures
        r == has_finding(crate::value::findings_view(findings@), kind),
{
    let ghost all = crate::value::findings_view(findings@);
    let mut i: usize = 0;
    while i < findings.len()
        invariant
            i <= findings.len(),
            all == crate::value::findings_view(findings@),
            forall|k: int| 0 <= k < i ==> (#[trigger] all[k]).kind != kind,
        decreases findings.len() - i,
    {
        if findings[i].kind == kind {
            proof {
                assert(all[i as int].kind == kind);
            }
            return true;
        }
        i = i + 1;
    }
    false
}

/// The comparisons with a count of tokens that were found, line by line.
fn lines_with_counts(findings: &Vec<SecurityFinding>) -> (r: Vec<String>)
    ensures
        texts(r@) == count_lines(crate::value::findings_view(findings@)),
{
    let mut r: Vec<String> = Vec::new();
    let ghost all = crate::value::findings_view(findings@);
    let mut i: usize = 0;
    proof {
        assert(texts(r@) =~= Seq::empty());
    }
    while i < findings.len()
        invariant
            i <= findings.len(),
            all == crate::value::findings_view(findings@),
            texts(r@) == count_lines(all.take(i as int)),
        decreases findings.len() - i,
    {
        proof {
            assert(all.take(i + 1).drop_last() =~= all.take(i as int));
            assert(all.take(i + 1).last() == all[i as int]);
        }
        let ghost before = texts(r@);
        let finding = &findings[i];
        if finding.kind == SecurityPatternKind::InputTokenCountComparison {
            let mut line = concat3(
                "  - Found at line ",
                decimal_text(finding.location.start).as_str(),
                ": ",
            );
            line.append(finding.description.as_str());
            add_line(&mut r, line);
            proof {
                assert(texts(r@) =~= before.push(line@));
            }
        }
        i = i + 1;
    }
    proof {
        assert(all.take(i as int) =~= all);
    }
    r
}

/// A row of the summary.
fn row(name: &str, tokens: &str, duplicates: &str) -> (r: String)
    ensures
        r@ == summary_row(name@, tokens@, duplicates@),
{
    let mut r = concat3("| ", pad_right(name, 30).as_str(), " | ");
    r.append(pad_right(tokens, 20).as_str());
    r.append(" | ");
    r.append(pad_right(duplicates, 20).as_str());
    r.append(" |");
    r
}

/// How a check came out.
fn status_text(passed: bool) -> (r: &'static str)
    ensures
        r@ == status(passed),
{
    if passed {
        "\x1b[32m✓ PASSED\x1b[0m"
    } else {
        "\x1b[31m✗ FAILED\x1b[0m"
    }
}

/// What the report recommends.
fn recommend(no_tokens: bool, no_duplicates: bool) -> (r: Vec<String>)
    ensures
        texts(r@) == recommendation_lines(no_tokens, no_duplicates),
{
    let mut r: Vec<String> = Vec::new();
    if no_tokens || no_duplicates {
        r.push("\nRECOMMENDATIONS:".to_owned());
        if no_tokens {
            r.push(
                "\x1b[31m- Implement token count validation in validators that lack it\x1b[0m".to_owned(),
            );
            r.push(
                "  This prevents double satisfaction attacks where the same token is used multiple times".to_owned(),
            );
        }
        if no_duplicates {
            r.push(
                "\x1b[31m- Add duplicate input checks in validators that lack them\x1b[0m".to_owned(),
            );
            r.push(
                "  This ensures the same UTXO cannot be used multiple times in a transaction".to_owned(),
            );
        }
    } else {
        r.push(
            "\n\x1b[32mAll validators have implemented the recommended security checks.\x1b[0m".to_owned(),
        );
    }
    proof {
        assert(texts(r@) =~= recommendation_lines(no_tokens, no_duplicates));
    }
    r
}

impl AstAnalyzer {
    /// Collects the results of `expr` and of the expressions inside it, each on its own, by
    /// how they use the purpose and the inputs.
    pub fn collect_expressions_by_usage(
        &self,
        expr: &TypedExpr,
        purpose_only: &mut Vec<ExprResult>,
        inputs_only: &mut Vec<ExprResult>,
        combined: &mut Vec<ExprResult>,
    )
        requires
            has_complete_calls(self@.function_table, *expr, true),
        ensures
            results_view(final(purpose_only)@) == results_view(old(purpose_only)@) + selected(
                walk(self@.function_table, *expr),
                Usage::PurposeOnly,
            ),
            results_view(final(inputs_only)@) == results_view(old(inputs_only)@) + selected(
                walk(self@.function_table, *expr),
                Usage::InputsOnly,
            ),
            results_view(final(combined)@) == results_view(old(combined)@) + selected(
                walk(self@.function_table, *expr),
                Usage::Both,
            ),
        decreases expr,
    {
        let ghost table = self@.function_table;
        let ghost p0 = results_view(purpose_only@);
        let ghost i0 = results_view(inputs_only@);
        let ghost c0 = results_view(combined@);
        let env = SymbolicEnvironment::new();
        let result = self.execute_expression(expr, &env);
        let ghost first = seq![result@];
        proof {
            assert(first.drop_last() =~= Seq::empty());
            assert(first.last() == result@);
            reveal_with_fuel(selected, 2);
            assert(first + walk_children(table, *expr, 0) =~= first);
        }
        if result.uses_purpose && result.uses_inputs {
            combined.push(result);
        } else if result.uses_purpose {
            purpose_only.push(result);
        } else if result.uses_inputs {
            inputs_only.push(result);
        }
        proof {
            assert(results_view(purpose_only@) =~= p0 + selected(first, Usage::PurposeOnly));
            assert(results_view(inputs_only@) =~= i0 + selected(first, Usage::InputsOnly));
            assert(results_view(combined@) =~= c0 + selected(first, Usage::Both));
        }
        let parts = self.get_child_expressions(expr);
        let mut k: usize = 0;
        while k < parts.len()
            invariant
                k <= parts.len() == children(*expr).len(),
                table == self@.function_table,
                has_complete_calls(table, *expr, true),
                forall|j: int|
                    0 <= j < parts@.len() ==> *(#[trigger] parts@[j]) == children(*expr)[j],
                results_view(purpose_only@) == p0 + selected(
                    first + walk_children(table, *expr, k as nat),
                    Usage::PurposeOnly,
                ),
                results_view(inputs_only@) == i0 + selected(
                    first + walk_children(table, *expr, k as nat),
                    Usage::InputsOnly,
                ),
                results_view(combined@) == c0 + selected(
                    first + walk_children(table, *expr, k as nat),
                    Usage::Both,
                ),
            decreases parts.len() - k,
        {
            proof {
                lemma_child_is_smaller(*expr, k as int);
                law_parts_are_complete(table, *expr, true, k as int);
                let so_far = first + walk_children(table, *expr, k as nat);
                let more = walk(table, children(*expr)[k as int]);
                lemma_selected_add(so_far, more, Usage::PurposeOnly);
                lemma_selected_add(so_far, more, Usage::InputsOnly);
                lemma_selected_add(so_far, more, Usage::Both);
                assert(so_far + more =~= first + walk_children(table, *expr, (k + 1) as nat));
                assert(p0 + selected(so_far + more, Usage::PurposeOnly) =~= p0 + selected(
                    so_far,
                    Usage::PurposeOnly,
                ) + selected(more, Usage::PurposeOnly));
                assert(i0 + selected(so_far + more, Usage::InputsOnly) =~= i0 + selected(
                    so_far,
                    Usage::InputsOnly,
                ) + selected(more, Usage::InputsOnly));
                assert(c0 + selected(so_far + more, Usage::Both) =~= c0 + selected(
                    so_far,
                    Usage::Both,
                ) + selected(more, Usage::Both));
            }
            self.collect_expressions_by_usage(parts[k], purpose_only, inputs_only, combined);
            k = k + 1;
        }
    }

    /// The part of the report on one validator, and how its two checks came out.
    fn analyze_one(&self, validator: &TypedValidator) -> (r: (Vec<String>, bool, bool))
        requires
            has_complete_calls(self@.function_table, *validator.fun.body, true),
        ensures
            texts(r.0@) == validator_lines(self@.function_table, *validator),
            r.1 == checks_tokens(self@.function_table, *validator),
            r.2 == checks_duplicates(self@.function_table, *validator),
    {
        let mut lines: Vec<String> = Vec::new();
        lines.push(concat2("\nAnalyzing validator: ", validator.fun.name.as_str()));
        proof {
            assert(texts(lines@) =~= seq!["\nAnalyzing validator: "@ + validator.fun.name@]);
            crate::analyzer::lemma_prepared_level(*validator);
        }
        let env = self.prepare_symbolic_execution(validator);
        let result = self.execute_expression(&*validator.fun.body, &env);
        add_line(&mut lines, "\nVariables that hold ScriptContext.purpose:".to_owned());
        add_lines(
            &mut lines,
            lines_or_none(variables_of(&result.environment, &ValueOrigin::Purpose)),
        );
        add_line(&mut lines, "\nVariables that hold transaction.inputs:".to_owned());
        add_lines(
            &mut lines,
            lines_or_none(variables_of(&result.environment, &ValueOrigin::TransactionInputs)),
        );
        let mut purpose_only: Vec<ExprResult> = Vec::new();
        let mut inputs_only: Vec<ExprResult> = Vec::new();
        let mut combined: Vec<ExprResult> = Vec::new();
        proof {
            assert(results_view(purpose_only@) =~= Seq::empty());
            assert(results_view(inputs_only@) =~= Seq::empty());
            assert(results_view(combined@) =~= Seq::empty());
        }
        self.collect_expressions_by_usage(
            &*validator.fun.body,
            &mut purpose_only,
            &mut inputs_only,
            &mut combined,
        );
        proof {
            assert(results_view(purpose_only@) =~= selected(
                walk(self@.function_table, *validator.fun.body),
                Usage::PurposeOnly,
            ));
            assert(results_view(inputs_only@) =~= selected(
                walk(self@.function_table, *validator.fun.body),
                Usage::InputsOnly,
            ));
            assert(results_view(combined@) =~= selected(
                walk(self@.function_table, *validator.fun.body),
                Usage::Both,
            ));
        }
        add_line(&mut lines, "\nFlagging security-relevant expressions:".to_owned());
        add_line(&mut lines, "\n1. Expressions that use ONLY ScriptContext.purpose:".to_owned());
        add_lines(&mut lines, lines_or_none(lines_with_origins(&purpose_only)));
        add_line(&mut lines, "\n2. Expressions that use ONLY Transaction.inputs:".to_owned());
        add_lines(&mut lines, lines_or_none(lines_with_origins(&inputs_only)));
        add_line(&mut lines, "\n3. Expressions that use BOTH purpose AND inputs:".to_owned());
        add_lines(&mut lines, lines_or_none(lines_with_places(&combined)));
        add_line(&mut lines, "\nSecurity Check - Token Count Validation:".to_owned());
        let tokens = any_finding(
            &result.findings,
            SecurityPatternKind::InputTokenCountComparison,
        );
        let duplicates = any_finding(&result.findings, SecurityPatternKind::DuplicateInputCheck);
        let mut told: Vec<String> = Vec::new();
        if tokens {
            told.push("\x1b[32m✓ PASSED: Token count validation detected\x1b[0m".to_owned());
            proof {
                assert(texts(told@) =~= seq![
                    "\x1b[32m✓ PASSED: Token count validation detected\x1b[0m"@,
                ]);
            }
            add_lines(&mut told, lines_with_counts(&result.findings));
        } else {
            told.push(
                "\x1b[31m✗ ALERT: No token count validation detected - your validator may be vulnerable to double satisfaction attacks\x1b[0m".to_owned(),
            );
            told.push(
                "  - Recommendation: Add validation that checks the count of inputs matching specific criteria".to_owned(),
            );
            proof {
                assert(texts(told@) =~= token_lines(result@.findings));
            }
        }
        add_lines(&mut lines, told);
        (lines, tokens, duplicates)
    }

    /// Analyzes all validators and reports on them, line by line.
    pub fn analyze(&self) -> (r: Vec<String>)
        requires
            forall|i: int|
                0 <= i < self@.validators.len() ==> has_complete_calls(
                    self@.function_table,
                    *(#[trigger] self@.validators[i]).fun.body,
                    true,
                ),
        ensures
            texts(r@) == report(self@.function_table, self@.validators),
    {
        let ghost table = self@.function_table;
        let ghost validators = self@.validators;
        let mut lines: Vec<String> = Vec::new();
        lines.push(
            "\nPerforming static analysis focusing on ScriptContext.purpose and transaction.inputs tracking...".to_owned(),
        );
        lines.push(
            concat3(
                "Found ",
                decimal_text(self.validators.len()).as_str(),
                " validators to analyze",
            ),
        );
        let ghost head = texts(lines@);
        proof {
            assert(head =~= seq![
                "\nPerforming static analysis focusing on ScriptContext.purpose and transaction.inputs tracking..."@,
                "Found "@ + decimal(validators.len()) + " validators to analyze"@,
            ]);
        }
        let mut sections: Vec<String> = Vec::new();
        let mut rows: Vec<String> = Vec::new();
        let mut no_tokens = false;
        let mut no_duplicates = false;
        let mut i: usize = 0;
        proof {
            assert(texts(sections@) =~= Seq::empty());
            assert(texts(rows@) =~= summary_rows(table, validators).take(0));
        }
        while i < self.validators.len()
            invariant
                i <= self.validators.len() == validators.len(),
                table == self@.function_table,
                validators == self@.validators,
                forall|k: int|
                    0 <= k < validators.len() ==> has_complete_calls(
                        table,
                        *(#[trigger] validators[k]).fun.body,
                        true,
                    ),
                texts(sections@) == validators_lines(table, validators.take(i as int)),
                texts(rows@) == summary_rows(table, validators).take(i as int),
                no_tokens == exists|k: int|
                    0 <= k < i && !checks_tokens(table, #[trigger] validators[k]),
                no_duplicates == exists|k: int|
                    0 <= k < i && !checks_duplicates(table, #[trigger] validators[k]),
            decreases self.validators.len() - i,
        {
            let validator = &self.validators[i];
            proof {
                assert(validators.take(i + 1).drop_last() =~= validators.take(i as int));
                assert(validators.take(i + 1).last() == validators[i as int]);
                assert(has_complete_calls(table, *validators[i as int].fun.body, true));
            }
            let (section, tokens, duplicates) = self.analyze_one(validator);
            add_lines(&mut sections, section);
            add_line(
                &mut rows,
                row(
                    validator.fun.name.as_str(),
                    status_text(tokens),
                    status_text(duplicates),
                ),
            );
            proof {
                assert(texts(rows@) =~= summary_rows(table, validators).take(i + 1));
            }
            no_tokens = no_tokens || !tokens;
            no_duplicates = no_duplicates || !duplicates;
            i = i + 1;
        }
        proof {
            assert(validators.take(i as int) =~= validators);
            assert(summary_rows(table, validators).take(i as int) =~= summary_rows(
                table,
                validators,
            ));
        }
        add_lines(&mut lines, sections);
        let mut top: Vec<String> = Vec::new();
        top.push("\n\n=================================================================".to_owned());
        top.push("                     SECURITY ANALYSIS SUMMARY                   ".to_owned());
        top.push("=================================================================".to_owned());
        top.push(row("Validator", "Token Count Check", "Duplicate Input Check"));
        top.push(
            "|--------------------------------|----------------------|----------------------|".to_owned(),
        );
        proof {
            assert(texts(top@) =~= summary_head());
        }
        add_lines(&mut lines, top);
        add_lines(&mut lines, rows);
        add_line(
            &mut lines,
            "=================================================================".to_owned(),
        );
        add_lines(&mut lines, recommend(no_tokens, no_duplicates));
        lines
    }
}

} // verus!
