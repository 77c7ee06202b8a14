//! What environments hold, and how values, conditions and environments are shown.
use crate::analyzer::{AstAnalyzer, FunctionInfo};
use crate::ast::Span;
use crate::environment::{
    empty_environment, level, shows_duplicate_check, with_condition, with_variable,
    EnvironmentView, SymbolicEnvironment,
};
use crate::environment_text::{
    condition_debug, condition_text, environment_lines, sorted_by_name, span_text, value_debug,
    variable_row,
};
use crate::execution::{results_view, ExprResult};
use crate::name_map::{law_bind_then_lookup, lookup};
use crate::semantics::entered;
use crate::text::{decimal, joined, opt_text, padded, quoted, texts};
use crate::value::{
    origin_debug, origin_text, value_text, ConditionView, OriginView, SymbolicCondition,
    SymbolicValue, ValueOrigin, ValueView,
};
use vstd::prelude::*;

verus! {

/// An environment starts out with no names, no conditions and no script context, outside every
/// function.
pub proof fn law_empty_environment(name: Seq<char>)
    ensures
        lookup(empty_environment().variables, name) is None,
        empty_environment().variables.len() == 0,
        empty_environment().conditions.len() == 0,
        empty_environment().script_context_name is None,
        empty_environment().function_level is None,
        level(empty_environment()) == 0,
{
}

/// A variable that is added stands for its value; all else stays.
pub proof fn law_added_variable(
    env: EnvironmentView,
    name: Seq<char>,
    value: ValueView,
    other: Seq<char>,
)
    ensures
        ({
            let after = with_variable(env, name, value);
            &&& lookup(after.variables, name) == Some(value)
            &&& other != name ==> lookup(after.variables, other) == lookup(env.variables, other)
            &&& after.conditions == env.conditions
            &&& after.script_context_name == env.script_context_name
            &&& after.function_level == env.function_level
        }),
{
    law_bind_then_lookup(env.variables, name, value, other);
}

/// A condition that is added stands behind the others; all else stays.
pub proof fn law_added_condition(env: EnvironmentView, condition: ConditionView)
    ensures
        ({
            let after = with_condition(env, condition);
            &&& after.conditions.len() == env.conditions.len() + 1
            &&& after.conditions.last() == condition
            &&& after.conditions.drop_last() == env.conditions
            &&& after.variables == env.variables
            &&& after.script_context_name == env.script_context_name
            &&& after.function_level == env.function_level
        }),
{
}

/// The level of an environment is the number of calls around it, and none where it has none. A
/// function that is entered is one level further in.
pub proof fn law_environment_levels(env: EnvironmentView)
    ensures
        env.function_level is None ==> level(env) == 0,
        env.function_level matches Some(n) ==> level(env) == n,
        level(env) < 255 ==> level(entered(env)) == level(env) + 1,
        entered(env).variables == env.variables,
        entered(env).conditions == env.conditions,
        entered(env).script_context_name == env.script_context_name,
{
}

/// Each origin stands for itself.
pub proof fn law_origins_stand_for_themselves(origin: ValueOrigin)
    ensures
        origin is ScriptContext <==> origin@ is ScriptContext,
        origin is Transaction <==> origin@ is Transaction,
        origin is TransactionInputs <==> origin@ is TransactionInputs,
        origin is InputToken <==> origin@ is InputToken,
        origin is InputTokenOutput <==> origin@ is InputTokenOutput,
        origin is InputTokenAddress <==> origin@ is InputTokenAddress,
        origin is Purpose <==> origin@ is Purpose,
        origin is OutputReference <==> origin@ is OutputReference,
        origin is TokenCount <==> origin@ is TokenCount,
        origin is Unknown <==> origin@ is Unknown,
        origin matches ValueOrigin::Other(s) ==> origin@ == OriginView::Other(s@),
{
}

/// A value stands for its origin, its type, what it was derived from, in order, and whether it
/// compares addresses.
pub proof fn law_values_stand_for_their_fields(value: SymbolicValue)
    ensures
        value@.origin == value.origin@,
        value@.value_type == value.value_type@,
        value@.derived_from.len() == value.derived_from@.len(),
        forall|i: int|
            0 <= i < value.derived_from@.len() ==> #[trigger] value@.derived_from[i]
                == value.derived_from@[i]@,
        value@.is_address_comparison == value.is_address_comparison,
{
}

/// A condition stands for what it holds.
pub proof fn law_conditions_stand_for_their_fields(c: SymbolicCondition)
    ensures
        c matches SymbolicCondition::Equals { left, right, location } ==> c@
            == (ConditionView::Equals { left: left@, right: right@, location }),
        c matches SymbolicCondition::NotEquals { left, right, location } ==> c@
            == (ConditionView::NotEquals { left: left@, right: right@, location }),
        c matches SymbolicCondition::ListOperation { operation, list, predicate, location } ==> (
        c@ matches ConditionView::ListOperation { operation: o, list: l, predicate: p, location: s }
            && o == operation@ && l == list@ && s == location && (predicate is Some <==> p is Some)
            && (predicate matches Some(q) ==> p == Some(q@))),
        c matches SymbolicCondition::Assertion { condition, location } ==> (
        c@ matches ConditionView::Assertion { condition: i, location: s } && *i == condition@ && s
            == location),
        c matches SymbolicCondition::Custom {
            description,
            relates_to_inputs,
            relates_to_output_ref,
            location,
        } ==> c@ == (ConditionView::Custom {
            description: description@,
            relates_to_inputs,
            relates_to_output_ref,
            location,
        }),
{
}

/// An environment stands for its names and their values, its conditions, in order, the name of
/// its script context, and its level.
pub proof fn law_environments_stand_for_their_fields(env: SymbolicEnvironment)
    ensures
        env@.variables.len() == env.variables@.len(),
        forall|i: int|
            0 <= i < env.variables@.len() ==> {
                &&& (#[trigger] env@.variables[i]).0 == env.variables@[i].0
                &&& env@.variables[i].1 == env.variables@[i].1@
            },
        env@.conditions.len() == env.conditions@.len(),
        forall|i: int|
            0 <= i < env.conditions@.len() ==> #[trigger] env@.conditions[i]
                == env.conditions@[i]@,
        env.script_context_name matches Some(name) ==> env@.script_context_name == Some(name@),
        env.script_context_name is None ==> env@.script_context_name is None,
        env@.function_level == env.function_level,
{
}

/// A result stands for its value, its environment, what was found, in order, what it uses, its
/// place and its level.
pub proof fn law_results_stand_for_their_fields(r: ExprResult)
    ensures
        r@.value == r.value@,
        r@.environment == r.environment@,
        r@.findings.len() == r.findings@.len(),
        forall|i: int|
            0 <= i < r.findings@.len() ==> {
                &&& (#[trigger] r@.findings[i]).kind == r.findings@[i].kind
                &&& r@.findings[i].confidence == r.findings@[i].confidence
                &&& r@.findings[i].location == r.findings@[i].location
                &&& r@.findings[i].description == r.findings@[i].description@
            },
        r@.uses == r.uses@,
        r@.uses_purpose == r.uses_purpose,
        r@.uses_inputs == r.uses_inputs,
        r@.location == r.location,
        r@.function_level == r.function_level,
{
}

/// Results stand for themselves, one for one and in order.
pub proof fn law_lists_of_results(v: Seq<ExprResult>)
    ensures
        results_view(v).len() == v.len(),
        forall|i: int| 0 <= i < v.len() ==> #[trigger] results_view(v)[i] == v[i]@,
{
}

/// Texts stand for their characters, one for one and in order.
pub proof fn law_lists_of_texts(v: Seq<String>, s: Option<String>)
    ensures
        texts(v).len() == v.len(),
        forall|i: int| 0 <= i < v.len() ==> #[trigger] texts(v)[i] == v[i]@,
        s matches Some(t) ==> opt_text(s) == Some(t@),
        s is None ==> opt_text(s) is None,
{
}

/// What is known of a function stands for its fields.
pub proof fn law_functions_stand_for_their_fields(info: FunctionInfo)
    ensures
        info@.qualified_name == info.qualified_name@,
        info@.body == *info.body,
        info@.definition == *info.definition,
        info@.module_name == info.module_name@,
        info@.arguments.len() == info.arguments@.len(),
        forall|i: int|
            0 <= i < info.arguments@.len() ==> #[trigger] info@.arguments[i] == (
            info.arguments@[i].name@, info.arguments@[i].tipo@),
        info.return_type matches Some(t) ==> info@.return_type == Some(t@),
        info.return_type is None ==> info@.return_type is None,
        info@.is_validator == info.is_validator,
        info@.script_context_param_index == info.script_context_param_index,
{
}

/// An analyzer stands for its validators and its functions, in order.
pub proof fn law_analyzers_stand_for_their_fields(analyzer: AstAnalyzer)
    ensures
        analyzer@.validators == analyzer.validators@,
        analyzer@.functions.len() == analyzer.functions@.len(),
        forall|i: int|
            0 <= i < analyzer.functions@.len() ==> {
                &&& (#[trigger] analyzer@.functions[i]).0 == analyzer.functions@[i].0
                &&& analyzer@.functions[i].1 == *analyzer.functions@[i].1
            },
        analyzer@.function_table.len() == analyzer.function_table@.len(),
        forall|i: int|
            0 <= i < analyzer.function_table@.len() ==> {
                &&& (#[trigger] analyzer@.function_table[i]).0 == analyzer.function_table@[i].0
                &&& analyzer@.function_table[i].1 == analyzer.function_table@[i].1@
            },
{
}

/// Each origin is shown by its own name. One that is not tracked is shown with its text, between
/// quotation marks where all is shown.
pub proof fn law_origins_shown(o: OriginView)
    ensures
        o is ScriptContext ==> origin_text(o) == "ScriptContext"@,
        o is Transaction ==> origin_text(o) == "Transaction"@,
        o is TransactionInputs ==> origin_text(o) == "TransactionInputs"@,
        o is InputToken ==> origin_text(o) == "InputToken"@,
        o is InputTokenOutput ==> origin_text(o) == "InputTokenOutput"@,
        o is InputTokenAddress ==> origin_text(o) == "InputTokenAddress"@,
        o is Purpose ==> origin_text(o) == "Purpose"@,
        o is OutputReference ==> origin_text(o) == "OutputReference"@,
        o is TokenCount ==> origin_text(o) == "TokenCount"@,
        o is Unknown ==> origin_text(o) == "Unknown"@,
        o matches OriginView::Other(s) ==> {
            &&& origin_text(o) == "Other("@ + s + ")"@
            &&& origin_debug(o) == "Other("@ + quoted(s) + ")"@
        },
        !(o is Other) ==> origin_debug(o) == origin_text(o),
{
}

/// A value is shown by its origin, and, if it was derived from others, by theirs, in order.
pub proof fn law_values_shown(v: ValueView)
    ensures
        v.derived_from.len() == 0 ==> value_text(v) == origin_text(v.origin),
        v.derived_from.len() > 0 ==> value_text(v) == origin_text(v.origin) + " derived_from:["@
            + joined(v.derived_from.map_values(|o: OriginView| origin_text(o)), ", "@) + "]"@,
        value_debug(v) == "SymbolicValue { origin: "@ + origin_debug(v.origin) + ", value_type: "@
            + v.value_type + ", derived_from: ["@ + joined(
            v.derived_from.map_values(|o: OriginView| origin_debug(o)),
            ", "@,
        ) + "], is_address_comparison: "@ + (if v.is_address_comparison {
            "true"@
        } else {
            "false"@
        }) + " }"@,
{
    assert(v.derived_from.map_values(|o: OriginView| origin_text(o)) =~= Seq::new(
        v.derived_from.len(),
        |i: int| origin_text(v.derived_from[i]),
    ));
    assert(v.derived_from.map_values(|o: OriginView| origin_debug(o)) =~= Seq::new(
        v.derived_from.len(),
        |i: int| origin_debug(v.derived_from[i]),
    ));
}

/// A place is shown by its start and its end.
pub proof fn law_places_shown(place: Span)
    ensures
        span_text(place) == decimal(place.start as nat) + ".."@ + decimal(place.end as nat),
{
}

/// A condition is listed by what it says: what is equal or not, which operation is done on which
/// list, what is asserted, or its description.
pub proof fn law_conditions_listed(c: ConditionView)
    ensures
        c matches ConditionView::Equals { left, right, .. } ==> condition_text(c) == ". EQUALS: "@
            + value_text(left) + " == "@ + value_text(right),
        c matches ConditionView::NotEquals { left, right, .. } ==> condition_text(c)
            == ". NOT EQUALS: "@ + value_text(left) + " != "@ + value_text(right),
        c matches ConditionView::ListOperation { operation, list, predicate, .. } ==> {
            let head = ". LIST."@ + operation + ": on "@ + value_text(list) + " with predicate "@;
            &&& predicate is None ==> condition_text(c) == head + "(no predicate)"@
            &&& predicate matches Some(p) ==> condition_text(c) == head + (
            if p.is_address_comparison {
                value_text(p) + " (address comparison)"@
            } else {
                value_text(p)
            })
        },
        c matches ConditionView::Assertion { condition, .. } ==> condition_text(c)
            == ". ASSERTION: "@ + condition_debug(*condition),
        c matches ConditionView::Custom { description, .. } ==> condition_text(c) == ". CUSTOM: "@
            + description,
{
}

/// Inside an assertion, a condition is shown with all that it holds.
pub proof fn law_conditions_shown(c: ConditionView)
    ensures
        c matches ConditionView::Equals { left, right, location } ==> condition_debug(c)
            == "Equals { left: "@ + value_debug(left) + ", right: "@ + value_debug(right)
            + ", location: "@ + span_text(location) + " }"@,
        c matches ConditionView::NotEquals { left, right, location } ==> condition_debug(c)
            == "NotEquals { left: "@ + value_debug(left) + ", right: "@ + value_debug(right)
            + ", location: "@ + span_text(location) + " }"@,
        c matches ConditionView::ListOperation { operation, list, predicate, location } ==> {
            let head = "ListOperation { operation: "@ + quoted(operation) + ", list: "@
                + value_debug(list) + ", predicate: "@;
            &&& predicate is None ==> condition_debug(c) == head + "None"@ + ", location: "@
                + span_text(location) + " }"@
            &&& predicate matches Some(p) ==> condition_debug(c) == head + ("Some("@ + value_debug(
                p,
            ) + ")"@) + ", location: "@ + span_text(location) + " }"@
        },
        c matches ConditionView::Assertion { condition, location } ==> condition_debug(c)
            == "Assertion { condition: "@ + condition_debug(*condition) + ", location: "@
            + span_text(location) + " }"@,
        c matches ConditionView::Custom {
            description,
            relates_to_inputs,
            relates_to_output_ref,
            location,
        } ==> condition_debug(c) == "Custom { description: "@ + quoted(description)
            + ", relates_to_inputs: "@ + (if relates_to_inputs {
            "true"@
        } else {
            "false"@
        }) + ", relates_to_output_ref: "@ + (if relates_to_output_ref {
            "true"@
        } else {
            "false"@
        }) + ", location: "@ + span_text(location) + " }"@,
{
}

/// A variable is listed with its name, its value and its type, each in its column. A star marks a
/// predicate that compares addresses.
pub proof fn law_variables_listed(name: Seq<char>, value: ValueView)
    ensures
        value.is_address_comparison ==> variable_row(name, value) == padded(name + "*"@, 40)
            + " | "@ + value_text(value) + " | "@ + padded(value.value_type, 40),
        !value.is_address_comparison ==> variable_row(name, value) == padded(name, 40) + " | "@
            + value_text(value) + " | "@ + padded(value.value_type, 40),
{
}

/// An environment is shown by the name of its script context, its variables, ordered by name, its
/// conditions, numbered from one, and whether one of them shows a check for duplicate inputs.
pub proof fn law_environments_shown(env: EnvironmentView)
    ensures
        ({
            let lines = environment_lines(env);
            let rule =
                "-----------------------------------------------------------------------------------------------------------------------------"@;
            let v: int = if env.variables.len() == 0 {
                1
            } else {
                env.variables.len() as int
            };
            let c: int = if env.conditions.len() == 0 {
                1
            } else {
                env.conditions.len() as int
            };
            let checked = exists|i: int|
                0 <= i < env.conditions.len() && shows_duplicate_check(
                    #[trigger] env.conditions[i],
                );
            let sorted = sorted_by_name(env.variables);
            &&& sorted.len() == env.variables.len()
            &&& lines.len() == 9 + v + c
            &&& lines[0] == "\n=== SYMBOLIC ENVIRONMENT STATE ==="@
            &&& env.script_context_name matches Some(name) ==> lines[1]
                == "ScriptContext parameter: "@ + name
            &&& env.script_context_name is None ==> lines[1] == "ScriptContext not identified"@
            &&& lines[2] == "\n--- TRACKED VARIABLES ---"@
            &&& lines[3] == padded("Variable"@, 40) + " | "@ + padded("Value"@, 40) + " | "@
                + padded("Type"@, 40)
            &&& lines[4] == rule
            &&& env.variables.len() == 0 ==> lines[5] == "No variables tracked yet"@
            &&& forall|i: int|
                0 <= i < sorted.len() ==> #[trigger] lines[5 + i] == variable_row(
                    sorted[i].0,
                    sorted[i].1,
                )
            &&& lines[5 + v] == "\n--- CONDITIONS ---"@
            &&& env.conditions.len() == 0 ==> lines[6 + v] == "No conditions tracked yet"@
            &&& forall|i: int|
                0 <= i < env.conditions.len() ==> #[trigger] lines[6 + v + i] == decimal(
                    (i + 1) as nat,
                ) + condition_text(env.conditions[i])
            &&& lines[6 + v + c] == "\n--- SECURITY ANALYSIS ---"@
            &&& checked ==> lines[7 + v + c] == "✅ Duplicate input checking detected"@
            &&& !checked ==> lines[7 + v + c] == "❌ No duplicate input checking detected"@
            &&& lines[8 + v + c] == rule
        }),
{
    lemma_sorted_len(env.variables);
    let v: int = if env.variables.len() == 0 {
        1
    } else {
        env.variables.len() as int
    };
    let head = seq!["\n=== SYMBOLIC ENVIRONMENT STATE ==="@] + seq![
        match env.script_context_name {
            Some(ctx) => "ScriptContext parameter: "@ + ctx,
            None => "ScriptContext not identified"@,
        },
    ] + seq!["\n--- TRACKED VARIABLES ---"@] + seq![
        padded("Variable"@, 40) + " | "@ + padded("Value"@, 40) + " | "@ + padded("Type"@, 40),
    ] + seq![crate::environment_text::rule()];
    let names = if env.variables.len() == 0 {
        seq!["No variables tracked yet"@]
    } else {
        crate::environment_text::variable_rows(env.variables)
    };
    let conditions = if env.conditions.len() == 0 {
        seq!["No conditions tracked yet"@]
    } else {
        crate::environment_text::condition_lines(env.conditions)
    };
    assert(names.len() == v);
    let lines = environment_lines(env);
    assert forall|i: int| 0 <= i < names.len() implies #[trigger] lines[5 + i] == names[i] by {}
    assert forall|i: int| 0 <= i < conditions.len() implies #[trigger] lines[6 + v + i]
        == conditions[i] by {}
    assert(lines[5 + 0int] == names[0]);
    assert(lines[6 + v + 0int] == conditions[0]);
}

proof fn lemma_sorted_len(entries: Seq<(Seq<char>, ValueView)>)
    ensures
        sorted_by_name(entries).len() == entries.len(),
    decreases entries.len(),
{
    if entries.len() > 0 {
        lemma_sorted_len(entries.drop_last());
        lemma_insert_len(sorted_by_name(entries.drop_last()), entries.last());
    }
}

proof fn lemma_insert_len(
    sorted: Seq<(Seq<char>, ValueView)>,
    entry: (Seq<char>, ValueView),
)
    ensures
        crate::environment_text::insert_by_name(sorted, entry).len() == sorted.len() + 1,
    decreases sorted.len(),
{
    if sorted.len() > 0 {
        lemma_insert_len(sorted.drop_last(), entry);
    }
}

} // verus!
