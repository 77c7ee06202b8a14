//! What is tracked through variables, fields, assignments and the functions of the list module.
use crate::ast::{Pattern, PatternArg, TypedExpr, TypedNode};
use crate::environment::EnvironmentView;
use crate::name_map::{law_bind_then_lookup, lookup};
use crate::semantics::{
    at_top, environment_after, execute, execute_at, execute_each, lemma_levels,
    lemma_levels_each, with_each, with_fields, ResultView, Table,
};
use crate::tracking_laws::agrees;
use crate::value::{ConditionView, OriginView, ValueView};
use vstd::prelude::*;

verus! {

/// A variable is what its name stands for. A name that stands for nothing is unknown.
pub proof fn law_variables(table: Table, expr: TypedExpr, name: Seq<char>, env: EnvironmentView)
    requires
        expr.node matches TypedNode::Var { name: n } && n@ == name,
    ensures
        ({
            let r = execute(table, expr, env);
            &&& r.environment == env
            &&& r.findings.len() == 0
            &&& match lookup(env.variables, name) {
                Some(value) => {
                    &&& r.value == value
                    &&& forall|o: OriginView| #[trigger] r.uses.contains(o) <==> o == value.origin
                    &&& r.uses_purpose <==> value.origin is Purpose
                    &&& r.uses_inputs <==> value.origin is TransactionInputs
                },
                None => {
                    &&& r.value.origin is Unknown
                    &&& r.value.value_type == expr.tipo@
                    &&& r.value.derived_from.len() == 0
                    &&& !r.value.is_address_comparison
                    &&& forall|o: OriginView| !#[trigger] r.uses.contains(o)
                    &&& !r.uses_purpose
                    &&& !r.uses_inputs
                },
            }
        }),
{
}

/// What field `label` of a record is: the parts of the script context lead from one to the next,
/// and every other field is known by the record that it is read from and its name.
pub proof fn law_fields(
    table: Table,
    expr: TypedExpr,
    label: Seq<char>,
    record: TypedExpr,
    env: EnvironmentView,
)
    requires
        expr.node matches TypedNode::RecordAccess { label: l, record: r } && l@ == label && *r
            == record,
    ensures
        ({
            let r = execute(table, expr, env);
            let whole = execute(table, record, env);
            let from = whole.value.origin;
            let field = r.value.origin;
            &&& from is ScriptContext ==> {
                &&& label == "transaction"@ ==> field is Transaction
                &&& label == "purpose"@ ==> field is Purpose
                &&& label != "transaction"@ && label != "purpose"@ ==> field == OriginView::Other(
                    "ScriptContext."@ + label,
                )
            }
            &&& from is Transaction ==> {
                &&& label == "inputs"@ ==> field is TransactionInputs
                &&& label != "inputs"@ ==> field == OriginView::Other("Transaction."@ + label)
            }
            &&& from is Purpose ==> {
                &&& label == "output_reference"@ ==> field is OutputReference
                &&& label != "output_reference"@ ==> field == OriginView::Other(
                    "Purpose."@ + label,
                )
            }
            &&& from is InputToken ==> {
                &&& label == "output_reference"@ ==> field is OutputReference
                &&& label == "output"@ ==> field is InputTokenOutput
                &&& label != "output_reference"@ && label != "output"@ ==> field
                    == OriginView::Other("InputToken."@ + label)
            }
            &&& from is InputTokenOutput ==> {
                &&& label == "address"@ ==> field is InputTokenAddress
                &&& label != "address"@ ==> field == OriginView::Other(
                    "InputTokenOutput."@ + label,
                )
            }
            &&& from is TransactionInputs || from is InputTokenAddress || from is OutputReference
                || from is Other || from is TokenCount || from is Unknown ==> field
                == OriginView::Other(label)
            &&& r.value.value_type == expr.tipo@
            &&& r.value.derived_from == seq![from]
            &&& !r.value.is_address_comparison
            &&& r.environment == whole.environment
            &&& r.findings == whole.findings
            &&& forall|o: OriginView|
                #[trigger] r.uses.contains(o) <==> whole.uses.contains(o) || o == field
            &&& r.uses_purpose <==> whole.uses_purpose || (from is ScriptContext && label
                == "purpose"@)
            &&& r.uses_inputs <==> whole.uses_inputs || (from is Transaction && label
                == "inputs"@)
        }),
{
    reveal_strlit("transaction");
    reveal_strlit("purpose");
    reveal_strlit("output_reference");
    reveal_strlit("output");
    assert("transaction"@.len() != "purpose"@.len());
    assert("output_reference"@.len() != "output"@.len());
}

/// Whether two environments differ at most in what their names stand for.
pub open spec fn same_but_names(a: EnvironmentView, b: EnvironmentView) -> bool {
    &&& a.conditions == b.conditions
    &&& a.script_context_name == b.script_context_name
    &&& a.function_level == b.function_level
}

/// Whether two results show the same, but for their environments and places.
pub open spec fn same_but_environment(a: ResultView, b: ResultView) -> bool {
    &&& a.value == b.value
    &&& a.findings == b.findings
    &&& a.uses == b.uses
    &&& a.uses_purpose == b.uses_purpose
    &&& a.uses_inputs == b.uses_inputs
}

/// An assignment to a variable lets the name stand for the value, and changes no other name. A
/// value of which nothing is known is not remembered: the name keeps what it stood for.
pub proof fn law_assigned_names(
    table: Table,
    expr: TypedExpr,
    name: Seq<char>,
    value: TypedExpr,
    env: EnvironmentView,
    other: Seq<char>,
)
    requires
        expr.node matches TypedNode::Assignment { pattern, value: v, .. } && *v == value && (
        pattern matches Pattern::Var { name: n, .. } && n@ == name),
    ensures
        ({
            let r = execute(table, expr, env);
            let v = execute(table, value, env);
            let before = v.environment.variables;
            let after = r.environment.variables;
            &&& !(v.value.origin is Unknown) ==> lookup(after, name) == Some(v.value)
            &&& v.value.derived_from.len() > 0 ==> lookup(after, name) == Some(v.value)
            &&& v.value.origin is Unknown && v.value.derived_from.len() == 0 ==> after == before
            &&& other != name ==> lookup(after, other) == lookup(before, other)
            &&& same_but_names(r.environment, v.environment)
            &&& same_but_environment(r, v)
        }),
{
    let v = execute(table, value, env);
    law_bind_then_lookup(v.environment.variables, name, v.value, other);
}

/// Whether the fields with this label of a value of origin `whole` are tracked when the value is
/// taken apart as a `constructor`.
pub open spec fn is_tracked_field(
    constructor: Seq<char>,
    whole: OriginView,
    label: Seq<char>,
) -> bool {
    ||| constructor == "ScriptContext"@ && whole is ScriptContext && label == "purpose"@
    ||| constructor == "ScriptContext"@ && whole is ScriptContext && label == "transaction"@
    ||| constructor == "Transaction"@ && whole is Transaction && label == "inputs"@
    ||| constructor == "Input"@ && whole is InputToken && label == "output_reference"@
    ||| constructor == "Input"@ && whole is InputToken && label == "output"@
    ||| constructor == "Output"@ && whole is InputTokenOutput && label == "address"@
}

/// Whether an argument of a pattern gives the variable `x` to a tracked field.
pub open spec fn gives(
    argument: PatternArg,
    constructor: Seq<char>,
    whole: OriginView,
    x: Seq<char>,
) -> bool {
    &&& argument.label matches Some(label) && is_tracked_field(constructor, whole, label@)
    &&& argument.value matches Pattern::Var { name, .. } && name@ == x
}

/// What a field is when a value is taken apart, and what it was derived from: each tracked field,
/// one by one.
pub open spec fn taken_apart(
    constructor: Seq<char>,
    label: Seq<char>,
    value: ValueView,
    value_type: Seq<char>,
) -> bool {
    &&& value.value_type == value_type
    &&& !value.is_address_comparison
    &&& constructor == "ScriptContext"@ && label == "purpose"@ ==> value.origin is Purpose
        && value.derived_from == seq![OriginView::ScriptContext]
    &&& constructor == "ScriptContext"@ && label == "transaction"@ ==> value.origin is Transaction
        && value.derived_from == seq![OriginView::ScriptContext]
    &&& constructor == "Transaction"@ && label == "inputs"@ ==> value.origin is TransactionInputs
        && value.derived_from == seq![OriginView::ScriptContext, OriginView::Transaction]
    &&& constructor == "Input"@ && label == "output_reference"@ ==> value.origin is OutputReference
        && value.derived_from == seq![
        OriginView::ScriptContext,
        OriginView::Transaction,
        OriginView::InputToken,
    ]
    &&& constructor == "Input"@ && label == "output"@ ==> value.origin is InputTokenOutput
        && value.derived_from == seq![
        OriginView::ScriptContext,
        OriginView::Transaction,
        OriginView::InputToken,
    ]
    &&& constructor == "Output"@ && label == "address"@ ==> value.origin is InputTokenAddress
        && value.derived_from == seq![
        OriginView::ScriptContext,
        OriginView::Transaction,
        OriginView::InputToken,
        OriginView::InputTokenOutput,
    ]
}

proof fn lemma_constructors_differ()
    ensures
        "ScriptContext"@ != "Transaction"@,
        "ScriptContext"@ != "Input"@,
        "ScriptContext"@ != "Output"@,
        "Transaction"@ != "Input"@,
        "Transaction"@ != "Output"@,
        "Input"@ != "Output"@,
        "purpose"@ != "transaction"@,
        "output_reference"@ != "output"@,
        "Spend"@ != "Some"@,
{
    reveal_strlit("ScriptContext");
    reveal_strlit("Transaction");
    reveal_strlit("Input");
    reveal_strlit("Output");
    reveal_strlit("purpose");
    reveal_strlit("transaction");
    reveal_strlit("output_reference");
    reveal_strlit("output");
    reveal_strlit("Spend");
    reveal_strlit("Some");
    assert("ScriptContext"@.len() == 13);
    assert("Transaction"@.len() == 11);
    assert("Input"@.len() == 5);
    assert("Output"@.len() == 6);
    assert("purpose"@.len() == 7);
    assert("transaction"@.len() == 11);
    assert("output_reference"@.len() == 16);
    assert("output"@.len() == 6);
    assert("Spend"@.len() == 5);
    assert("Some"@.len() == 4);
}

proof fn lemma_with_fields(
    env: EnvironmentView,
    constructor: Seq<char>,
    whole: OriginView,
    arguments: Seq<PatternArg>,
    value_type: Seq<char>,
    k: int,
    x: Seq<char>,
)
    ensures
        same_but_names(with_fields(env, constructor, whole, arguments, value_type), env),
        (forall|j: int|
            0 <= j < arguments.len() ==> !gives(#[trigger] arguments[j], constructor, whole, x))
            ==> lookup(
            with_fields(env, constructor, whole, arguments, value_type).variables,
            x,
        ) == lookup(env.variables, x),
        0 <= k < arguments.len() && gives(arguments[k], constructor, whole, x) && (forall|j: int|
            k < j < arguments.len() ==> !gives(#[trigger] arguments[j], constructor, whole, x))
            ==> (lookup(
            with_fields(env, constructor, whole, arguments, value_type).variables,
            x,
        ) matches Some(value) && taken_apart(
            constructor,
            arguments[k].label->0@,
            value,
            value_type,
        )),
    decreases arguments.len(),
{
    lemma_constructors_differ();
    if arguments.len() > 0 {
        let shorter = arguments.drop_last();
        lemma_with_fields(env, constructor, whole, shorter, value_type, k, x);
        let before = with_fields(env, constructor, whole, shorter, value_type);
        assert forall|j: int| 0 <= j < shorter.len() implies shorter[j] == #[trigger] arguments[j] by {}
        let last = arguments.last();
        assert(last == arguments[arguments.len() - 1]);
        if let Some(label) = last.label {
            if let Pattern::Var { name, .. } = last.value {
                if let Some((origin, sources)) = crate::semantics::destructured_field(
                    constructor,
                    whole,
                    label@,
                ) {
                    law_bind_then_lookup(
                        before.variables,
                        name@,
                        crate::value::derived_value(origin, value_type, sources),
                        x,
                    );
                }
            }
        }
    }
}

/// Taking a value apart with `let` gives each tracked field to the variable that names it: the
/// purpose and the transaction of the script context, the inputs of the transaction, the output
/// reference and the output of the validator's input, and the address of that output. No other
/// name changes.
pub proof fn law_fields_taken_apart(
    table: Table,
    expr: TypedExpr,
    constructor: Seq<char>,
    arguments: Seq<PatternArg>,
    value: TypedExpr,
    env: EnvironmentView,
    k: int,
    x: Seq<char>,
)
    requires
        expr.node matches TypedNode::Assignment { kind, pattern, value: v } && kind is Let && *v
            == value && (pattern matches Pattern::Constructor { name, arguments: a, .. } && name@
            == constructor && a@ == arguments),
    ensures
        ({
            let r = execute(table, expr, env);
            let v = execute(table, value, env);
            let whole = v.value.origin;
            let found = lookup(r.environment.variables, x);
            &&& 0 <= k < arguments.len() && gives(arguments[k], constructor, whole, x) && (forall|
                j: int,
            |
                k < j < arguments.len() ==> !gives(#[trigger] arguments[j], constructor, whole, x))
                ==> (found matches Some(field) && taken_apart(
                constructor,
                arguments[k].label->0@,
                field,
                value.tipo@,
            ))
            &&& (forall|j: int|
                0 <= j < arguments.len() ==> !gives(
                    #[trigger] arguments[j],
                    constructor,
                    whole,
                    x,
                )) ==> found == lookup(v.environment.variables, x)
            &&& same_but_names(r.environment, v.environment)
            &&& same_but_environment(r, v)
        }),
{
    let v = execute(table, value, env);
    lemma_with_fields(
        v.environment,
        constructor,
        v.value.origin,
        arguments,
        value.tipo@,
        k,
        x,
    );
}

/// Taking a tracked field out of a value gives the origin that reading the field gives.
pub proof fn law_taking_apart_is_reading(
    table: Table,
    expr: TypedExpr,
    access: TypedExpr,
    constructor: Seq<char>,
    arguments: Seq<PatternArg>,
    label: Seq<char>,
    value: TypedExpr,
    env: EnvironmentView,
    k: int,
    x: Seq<char>,
)
    requires
        expr.node matches TypedNode::Assignment { kind, pattern, value: v } && kind is Let && *v
            == value && (pattern matches Pattern::Constructor { name, arguments: a, .. } && name@
            == constructor && a@ == arguments),
        access.node matches TypedNode::RecordAccess { label: l, record } && l@ == label && *record
            == value,
        0 <= k < arguments.len(),
        arguments[k].label matches Some(l) && l@ == label,
        gives(arguments[k], constructor, execute(table, value, env).value.origin, x),
        forall|j: int|
            k < j < arguments.len() ==> !gives(
                #[trigger] arguments[j],
                constructor,
                execute(table, value, env).value.origin,
                x,
            ),
    ensures
        lookup(execute(table, expr, env).environment.variables, x) matches Some(field)
            && field.origin == execute(table, access, env).value.origin,
{
    law_fields_taken_apart(table, expr, constructor, arguments, value, env, k, x);
    law_fields(table, access, label, value, env);
    lemma_constructors_differ();
}

proof fn lemma_with_each(
    env: EnvironmentView,
    arguments: Seq<PatternArg>,
    value: ValueView,
    x: Seq<char>,
)
    ensures
        same_but_names(with_each(env, arguments, value), env),
        lookup(with_each(env, arguments, value).variables, x) == (if exists|j: int|
            0 <= j < arguments.len() && names(#[trigger] arguments[j], x) {
            Some(value)
        } else {
            lookup(env.variables, x)
        }),
    decreases arguments.len(),
{
    if arguments.len() > 0 {
        let shorter = arguments.drop_last();
        lemma_with_each(env, shorter, value, x);
        let before = with_each(env, shorter, value);
        assert(arguments.last() == arguments[arguments.len() - 1]);
        if let Pattern::Var { name, .. } = arguments.last().value {
            law_bind_then_lookup(before.variables, name@, value, x);
        }
        if exists|j: int| 0 <= j < shorter.len() && names(#[trigger] shorter[j], x) {
            let j = choose|j: int| 0 <= j < shorter.len() && names(#[trigger] shorter[j], x);
            assert(names(arguments[j], x));
        }
        if exists|j: int| 0 <= j < arguments.len() && names(#[trigger] arguments[j], x) {
            let j = choose|j: int| 0 <= j < arguments.len() && names(#[trigger] arguments[j], x);
            if j < shorter.len() {
                assert(names(shorter[j], x));
            }
        }
    }
}

/// Whether an argument of a pattern is the variable `x`.
pub open spec fn names(argument: PatternArg, x: Seq<char>) -> bool {
    argument.value matches Pattern::Var { name, .. } && name@ == x
}

/// To expect the purpose to be a spending one gives the output reference to each variable of the
/// pattern, remembers that the purpose was looked at, and uses the purpose.
pub proof fn law_expected_purpose(
    table: Table,
    expr: TypedExpr,
    arguments: Seq<PatternArg>,
    value: TypedExpr,
    env: EnvironmentView,
    x: Seq<char>,
)
    requires
        expr.node matches TypedNode::Assignment { kind, pattern, value: v } && kind is Expect && *v
            == value && (pattern matches Pattern::Constructor { name, arguments: a, .. } && name@
            == "Spend"@ && a@ == arguments),
        execute(table, value, env).value.origin is Purpose,
    ensures
        ({
            let r = execute(table, expr, env);
            let v = execute(table, value, env);
            let found = lookup(r.environment.variables, x);
            &&& (exists|j: int| 0 <= j < arguments.len() && names(#[trigger] arguments[j], x))
                ==> found == Some(
                ValueView {
                    origin: OriginView::OutputReference,
                    value_type: expr.tipo@,
                    derived_from: seq![OriginView::Purpose],
                    is_address_comparison: false,
                },
            )
            &&& !(exists|j: int| 0 <= j < arguments.len() && names(#[trigger] arguments[j], x))
                ==> found == lookup(v.environment.variables, x)
            &&& r.environment.conditions == v.environment.conditions.push(
                ConditionView::Assertion {
                    condition: Box::new(
                        ConditionView::Custom {
                            description: "Purpose is Spend"@,
                            relates_to_inputs: false,
                            relates_to_output_ref: true,
                            location: expr.location,
                        },
                    ),
                    location: expr.location,
                },
            )
            &&& r.environment.script_context_name == v.environment.script_context_name
            &&& r.value == v.value
            &&& r.findings == v.findings
            &&& r.uses == v.uses
            &&& r.uses_purpose
            &&& r.uses_inputs == v.uses_inputs
        }),
{
    let v = execute(table, value, env);
    let reference = crate::value::derived_value(
        OriginView::OutputReference,
        expr.tipo@,
        seq![OriginView::Purpose],
    );
    lemma_with_each(v.environment, arguments, reference, x);
    assert(reference.derived_from =~= seq![OriginView::Purpose]);
}

/// To expect the validator's input to be found gives the input to the variable of the pattern,
/// and remembers that it was found by its output reference.
pub proof fn law_expected_input(
    table: Table,
    expr: TypedExpr,
    arguments: Seq<PatternArg>,
    value: TypedExpr,
    env: EnvironmentView,
    x: Seq<char>,
    other: Seq<char>,
)
    requires
        expr.node matches TypedNode::Assignment { kind, pattern, value: v } && kind is Expect && *v
            == value && (pattern matches Pattern::Constructor { name, arguments: a, .. } && name@
            == "Some"@ && a@ == arguments),
        execute(table, value, env).value.origin is InputToken,
        arguments.len() == 1,
        names(arguments[0], x),
    ensures
        ({
            let r = execute(table, expr, env);
            let v = execute(table, value, env);
            &&& lookup(r.environment.variables, x) == Some(
                ValueView {
                    origin: OriginView::InputToken,
                    value_type: expr.tipo@,
                    derived_from: seq![OriginView::TransactionInputs, OriginView::OutputReference],
                    is_address_comparison: false,
                },
            )
            &&& other != x ==> lookup(r.environment.variables, other) == lookup(
                v.environment.variables,
                other,
            )
            &&& r.environment.conditions == v.environment.conditions.push(
                ConditionView::Custom {
                    description: "Output reference validation pattern detected"@,
                    relates_to_inputs: true,
                    relates_to_output_ref: true,
                    location: expr.location,
                },
            )
            &&& r.environment.script_context_name == v.environment.script_context_name
            &&& r.value == v.value
            &&& r.findings == v.findings
            &&& r.uses == v.uses
            &&& r.uses_purpose
            &&& r.uses_inputs
        }),
{
    lemma_constructors_differ();
    let v = execute(table, value, env);
    let input = crate::value::derived_value(
        OriginView::InputToken,
        expr.tipo@,
        seq![OriginView::TransactionInputs, OriginView::OutputReference],
    );
    law_bind_then_lookup(v.environment.variables, x, input, other);
}

/// Whether a pattern that is expected of a value teaches something.
pub open spec fn is_telling(pattern: Pattern, whole: OriginView) -> bool {
    match pattern {
        Pattern::Var { .. } => true,
        Pattern::Constructor { name, arguments, .. } => {
            ||| name@ == "Spend"@ && whole is Purpose
            ||| name@ == "Some"@ && whole is InputToken && arguments@.len() == 1
                && arguments@[0].value is Var
        },
        _ => false,
    }
}

/// An assignment to any other pattern shows what its value shows, and no more.
pub proof fn law_other_patterns(
    table: Table,
    expr: TypedExpr,
    value: TypedExpr,
    env: EnvironmentView,
)
    requires
        expr.node matches TypedNode::Assignment { kind, pattern, value: v } && *v == value && (kind
            is Expect || !(pattern is Constructor)) && !is_telling(
            pattern,
            execute(table, value, env).value.origin,
        ),
    ensures
        agrees(execute(table, expr, env), execute(table, value, env)),
{
}

proof fn lemma_each(
    table: Table,
    exprs: Seq<TypedExpr>,
    env: EnvironmentView,
    top: bool,
    i: int,
)
    requires
        0 <= i < exprs.len(),
    ensures
        execute_each(table, exprs, env, top).len() == exprs.len(),
        execute_each(table, exprs, env, top)[i] == execute_at(
            table,
            exprs[i],
            environment_after(env, execute_each(table, exprs.take(i), env, top)),
            top,
        ),
    decreases exprs.len(),
{
    lemma_levels_each(table, exprs, env, top);
    lemma_levels_each(table, exprs.drop_last(), env, top);
    if i == exprs.len() - 1 {
        assert(exprs.take(i) =~= exprs.drop_last());
    } else {
        lemma_each(table, exprs.drop_last(), env, top, i);
        assert(exprs.drop_last().take(i) =~= exprs.take(i));
    }
}

/// The first two arguments of a call are executed in turn.
proof fn lemma_first_two(table: Table, exprs: Seq<TypedExpr>, env: EnvironmentView)
    requires
        exprs.len() >= 2,
    ensures
        ({
            let results = execute_each(table, exprs, env, at_top(env));
            let first = execute(table, exprs[0], env);
            &&& results.len() == exprs.len()
            &&& results[0] == first
            &&& results[1] == execute(table, exprs[1], first.environment)
        }),
{
    let top = at_top(env);
    lemma_each(table, exprs, env, top, 0);
    lemma_each(table, exprs, env, top, 1);
    assert(exprs.take(0) =~= Seq::empty());
    assert(exprs.take(1).drop_last() =~= Seq::empty());
    assert(exprs.take(1).last() == exprs[0]);
    reveal_with_fuel(execute_each, 3);
    lemma_levels(table, exprs[0], env, top);
}

/// What the functions of the list module give. What is found among the transaction's inputs by
/// the output reference is the validator's input; what the inputs are mapped to is an address,
/// an output, a reference or a list of inputs; and the number of inputs told apart by their
/// address is a count of tokens. Nothing else is known of their results.
pub proof fn law_list_functions(
    table: Table,
    expr: TypedExpr,
    fun: TypedExpr,
    label: Seq<char>,
    args: Seq<TypedExpr>,
    env: EnvironmentView,
)
    requires
        expr.node matches TypedNode::Call { fun: f, args: a } && *f == fun && a@ == args,
        fun.node matches TypedNode::ModuleSelect { module_name, label: l } && module_name@
            == "aiken/list"@ && l@ == label,
        args.len() >= 2,
    ensures
        ({
            let r = execute(table, expr, env).value;
            let list = execute(table, args[0], env);
            let by = execute(table, args[1], list.environment);
            let inputs = list.value.origin is TransactionInputs;
            let address = OriginView::InputTokenAddress;
            let output = OriginView::InputTokenOutput;
            let reference = OriginView::OutputReference;
            let named = |name: Seq<char>| by.value.origin == OriginView::Other(name);
            &&& r.value_type == expr.tipo@
            &&& r.derived_from.len() == 0
            &&& !r.is_address_comparison
            &&& label == "find"@ ==> {
                &&& inputs && by.uses.contains(reference) ==> r.origin is InputToken
                &&& !inputs || !by.uses.contains(reference) ==> r.origin is Unknown
            }
            &&& label == "map"@ ==> {
                &&& inputs && by.uses.contains(address) ==> r.origin == address
                &&& inputs && !by.uses.contains(address) ==> {
                    &&& by.uses.contains(output) ==> r.origin == output
                    &&& !by.uses.contains(output) ==> {
                        &&& named("address"@) ==> r.origin == address
                        &&& named("output_reference"@) ==> r.origin == reference
                        &&& named("output"@) ==> r.origin == output
                        &&& named("inputs"@) ==> r.origin is TransactionInputs
                        &&& !named("address"@) && !named("output_reference"@) && !named(
                            "output"@,
                        ) && !named("inputs"@) ==> r.origin is Unknown
                    }
                }
                &&& list.value.origin == output && named("address"@) ==> r.origin == address
                &&& list.value.origin == output && !named("address"@) ==> r.origin is Unknown
                &&& !inputs && list.value.origin != output ==> r.origin is Unknown
            }
            &&& label == "count"@ ==> {
                &&& inputs && by.uses.contains(address) ==> r.origin is TokenCount
                &&& named("address"@) ==> r.origin is TokenCount
                &&& !(inputs && by.uses.contains(address)) && !named("address"@) ==> r.origin
                    is Unknown
            }
            &&& label != "find"@ && label != "map"@ && label != "count"@ ==> r.origin is Unknown
        }),
{
    let top = at_top(env);
    lemma_labels_differ();
    assert(crate::ast::children(fun).len() == 0);
    assert(crate::semantics::execute_children(table, fun, 0, env, top).len() == 0);
    let called = execute_at(table, fun, env, top);
    assert(called.environment == env);
    lemma_first_two(table, args, env);
}

proof fn lemma_labels_differ()
    ensures
        "find"@ != "map"@,
        "find"@ != "count"@,
        "map"@ != "count"@,
        "address"@ != "output_reference"@,
        "address"@ != "output"@,
        "address"@ != "inputs"@,
        "output_reference"@ != "output"@,
        "output_reference"@ != "inputs"@,
        "output"@ != "inputs"@,
{
    reveal_strlit("find");
    reveal_strlit("map");
    reveal_strlit("count");
    reveal_strlit("address");
    reveal_strlit("output_reference");
    reveal_strlit("output");
    reveal_strlit("inputs");
    assert("find"@.len() == 4);
    assert("map"@.len() == 3);
    assert("count"@.len() == 5);
    assert("address"@.len() == 7);
    assert("output_reference"@.len() == 16);
    assert("output"@[0] == 'o');
    assert("inputs"@[0] == 'i');
    assert("output"@.len() == 6);
    assert("inputs"@.len() == 6);
}

} // verus!
