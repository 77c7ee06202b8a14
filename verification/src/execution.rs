//! Symbolic execution: what an expression tells about the script context.
use crate::analyzer::{AstAnalyzer, FunctionInfo};
use crate::ast::{
    branch_exprs, children, AssignmentKind, ClauseGuard, Pattern, PatternArg, Span, TypedClause,
    TypedExpr, TypedNode,
};
use crate::environment::SymbolicEnvironment;
use crate::semantics::{
    assignment_result, at_top, blank_result, calls_left, clause_environment, destructured_field,
    entered, execute, execute_children, execute_clauses, execute_each, field_origin,
    guard_checks_duplicates, guard_findings, has_complete_calls, lemma_levels,
    lemma_levels_children, lemma_levels_each, lemma_merged_all, lemma_with_arguments_level,
    list_function, list_origin, merged, merged_all, spending_condition, spending_variable,
    untracked_name, with_arguments, with_each, with_fields, ResultView,
};
use crate::text::{concat2, same_text};
use crate::value::{
    derived_value, findings_view, origins, OriginSet, OriginView, SecurityFinding,
    SecurityPatternKind, SymbolicCondition, SymbolicValue, ValueOrigin,
};
use vstd::prelude::*;
use vstd::string::*;

verus! {

/// What the execution of an expression gives.
pub struct ExprResult {
    pub value: SymbolicValue,
    /// The environment after the expression.
    pub environment: SymbolicEnvironment,
    pub findings: Vec<SecurityFinding>,
    /// The origins of the values that the expression uses.
    pub uses: OriginSet,
    /// Whether the expression uses the purpose of the script context.
    pub uses_purpose: bool,
    /// Whether the expression uses the transaction's inputs.
    pub uses_inputs: bool,
    pub location: Option<Span>,
    /// How many function calls enclose the expression.
    pub function_level: u8,
}

impl View for ExprResult {
    type V = ResultView;

    open spec fn view(&self) -> ResultView {
        ResultView {
            value: self.value@,
            environment: self.environment@,
            findings: findings_view(self.findings@),
            uses: self.uses@,
            uses_purpose: self.uses_purpose,
            uses_inputs: self.uses_inputs,
            location: self.location,
            function_level: self.function_level,
        }
    }
}

/// The results that a vector holds.
pub open spec fn results_view(v: Seq<ExprResult>) -> Seq<ResultView> {
    Seq::new(v.len(), |i: int| v[i]@)
}

impl Clone for ExprResult {
    fn clone(&self) -> (r: Self)
        ensures
            r@ == self@,
    {
        ExprResult {
            value: self.value.clone(),
            environment: self.environment.clone(),
            findings: copy_findings(&self.findings),
            uses: self.uses.clone(),
            uses_purpose: self.uses_purpose,
            uses_inputs: self.uses_inputs,
            location: self.location,
            function_level: self.function_level,
        }
    }
}

/// The same findings in a new vector.
fn copy_findings(findings: &Vec<SecurityFinding>) -> (r: Vec<SecurityFinding>)
    ensures
        findings_view(r@) == findings_view(findings@),
{
    let mut r: Vec<SecurityFinding> = Vec::new();
    add_findings(&mut r, findings);
    proof {
        assert(findings_view(r@) =~= findings_view(findings@));
    }
    r
}

/// Adds findings at the end of a vector.
fn add_findings(to: &mut Vec<SecurityFinding>, findings: &Vec<SecurityFinding>)
    ensures
        findings_view(final(to)@) == findings_view(old(to)@) + findings_view(findings@),
{
    let ghost start = findings_view(to@);
    let ghost added = findings_view(findings@);
    let mut i: usize = 0;
    proof {
        assert(start + added.take(0) =~= start);
    }
    while i < findings.len()
        invariant
            i <= findings.len(),
            added == findings_view(findings@),
            findings_view(to@) == start + added.take(i as int),
        decreases findings.len() - i,
    {
        let finding = findings[i].clone();
        let ghost before = to@;
        to.push(finding);
        proof {
            assert(findings_view(to@) =~= findings_view(before).push(finding@));
            assert(added.take(i + 1) =~= added.take(i as int).push(added[i as int]));
            assert(findings_view(to@) =~= start + added.take(i + 1));
        }
        i = i + 1;
    }
    proof {
        assert(added.take(i as int) =~= added);
    }
}

impl ExprResult {
    /// A result from which nothing was learned yet.
    fn blank(expr: &TypedExpr, env: &SymbolicEnvironment) -> (r: Self)
        ensures
            r@ == blank_result(*expr, env@),
    {
        let r = ExprResult {
            value: SymbolicValue::unknown(expr.tipo.clone()),
            environment: env.clone(),
            findings: Vec::new(),
            uses: OriginSet::new(),
            uses_purpose: false,
            uses_inputs: false,
            location: Some(expr.location),
            function_level: env.current_level(),
        };
        proof {
            assert(r@.findings =~= Seq::empty());
        }
        r
    }

    /// What was learned before, with what `next` adds to it.
    fn merge(self, next: &ExprResult) -> (r: Self)
        ensures
            r@ == merged(self@, next@),
    {
        let mut findings = self.findings;
        add_findings(&mut findings, &next.findings);
        ExprResult {
            value: next.value.clone(),
            environment: next.environment.clone(),
            findings,
            uses: self.uses.extend(&next.uses),
            uses_purpose: self.uses_purpose || next.uses_purpose,
            uses_inputs: self.uses_inputs || next.uses_inputs,
            location: self.location,
            function_level: self.function_level,
        }
    }
}

/// What field `label` of a record is.
fn origin_of_field(record: &ValueOrigin, label: &str) -> (r: ValueOrigin)
    ensures
        r@ == field_origin(record@, label@),
{
    match record {
        ValueOrigin::ScriptContext => {
            if same_text(label, "transaction") {
                ValueOrigin::Transaction
            } else if same_text(label, "purpose") {
                ValueOrigin::Purpose
            } else {
                ValueOrigin::Other(concat2("ScriptContext.", label))
            }
        },
        ValueOrigin::Transaction => {
            if same_text(label, "inputs") {
                ValueOrigin::TransactionInputs
            } else {
                ValueOrigin::Other(concat2("Transaction.", label))
            }
        },
        ValueOrigin::Purpose => {
            if same_text(label, "output_reference") {
                ValueOrigin::OutputReference
            } else {
                ValueOrigin::Other(concat2("Purpose.", label))
            }
        },
        ValueOrigin::InputToken => {
            if same_text(label, "output_reference") {
                ValueOrigin::OutputReference
            } else if same_text(label, "output") {
                ValueOrigin::InputTokenOutput
            } else {
                ValueOrigin::Other(concat2("InputToken.", label))
            }
        },
        ValueOrigin::InputTokenOutput => {
            if same_text(label, "address") {
                ValueOrigin::InputTokenAddress
            } else {
                ValueOrigin::Other(concat2("InputTokenOutput.", label))
            }
        },
        _ => ValueOrigin::Other(label.to_owned()),
    }
}

/// What field `label` is when a value is taken apart as a `constructor`.
fn destructure(constructor: &str, whole: &ValueOrigin, label: &str, value_type: &String) -> (r:
    Option<SymbolicValue>)
    ensures
        match r {
            Some(v) => destructured_field(constructor@, whole@, label@) matches Some((o, from))
                && v@ == derived_value(o, value_type@, from),
            None => destructured_field(constructor@, whole@, label@) is None,
        },
{
    let mut sources: Vec<ValueOrigin> = Vec::new();
    sources.push(ValueOrigin::ScriptContext);
    let is_context = match whole {
        ValueOrigin::ScriptContext => true,
        _ => false,
    };
    let is_transaction = match whole {
        ValueOrigin::Transaction => true,
        _ => false,
    };
    let is_input = match whole {
        ValueOrigin::InputToken => true,
        _ => false,
    };
    let is_output = match whole {
        ValueOrigin::InputTokenOutput => true,
        _ => false,
    };
    let origin = if same_text(constructor, "ScriptContext") {
        if is_context && same_text(label, "purpose") {
            Some(ValueOrigin::Purpose)
        } else if is_context && same_text(label, "transaction") {
            Some(ValueOrigin::Transaction)
        } else {
            None
        }
    } else if same_text(constructor, "Transaction") {
        sources.push(ValueOrigin::Transaction);
        if is_transaction && same_text(label, "inputs") {
            Some(ValueOrigin::TransactionInputs)
        } else {
            None
        }
    } else if same_text(constructor, "Input") {
        sources.push(ValueOrigin::Transaction);
        sources.push(ValueOrigin::InputToken);
        if is_input && same_text(label, "output_reference") {
            Some(ValueOrigin::OutputReference)
        } else if is_input && same_text(label, "output") {
            Some(ValueOrigin::InputTokenOutput)
        } else {
            None
        }
    } else if same_text(constructor, "Output") {
        sources.push(ValueOrigin::Transaction);
        sources.push(ValueOrigin::InputToken);
        sources.push(ValueOrigin::InputTokenOutput);
        if is_output && same_text(label, "address") {
            Some(ValueOrigin::InputTokenAddress)
        } else {
            None
        }
    } else {
        None
    };
    match origin {
        Some(o) => {
            proof {
                let (_, from) = destructured_field(constructor@, whole@, label@).unwrap();
                assert(origins(sources@) =~= from);
            }
            Some(SymbolicValue::derived(o, value_type.clone(), sources))
        },
        None => None,
    }
}

/// Lets the variables among `arguments` stand for the fields of a value that is taken apart.
fn bind_fields(
    env: &mut SymbolicEnvironment,
    constructor: &str,
    whole: &ValueOrigin,
    arguments: &Vec<PatternArg>,
    value_type: &String,
)
    ensures
        final(env)@ == with_fields(
            old(env)@,
            constructor@,
            whole@,
            arguments@,
            value_type@,
        ),
{
    let ghost start = env@;
    let mut i: usize = 0;
    while i < arguments.len()
        invariant
            i <= arguments.len(),
            env@ == with_fields(
                start,
                constructor@,
                whole@,
                arguments@.take(i as int),
                value_type@,
            ),
        decreases arguments.len() - i,
    {
        let arg = &arguments[i];
        proof {
            assert(arguments@.take(i + 1).drop_last() =~= arguments@.take(i as int));
            assert(arguments@.take(i + 1).last() == *arg);
        }
        if let Some(label) = &arg.label {
            if let Pattern::Var { name, .. } = &arg.value {
                if let Some(value) = destructure(constructor, whole, label.as_str(), value_type) {
                    env.add_variable(name.clone(), value);
                }
            }
        }
        i = i + 1;
    }
    proof {
        assert(arguments@.take(i as int) =~= arguments@);
    }
}

/// Lets each variable among `arguments` stand for `value`.
fn bind_each(env: &mut SymbolicEnvironment, arguments: &Vec<PatternArg>, value: &SymbolicValue)
    ensures
        final(env)@ == with_each(old(env)@, arguments@, value@),
{
    let ghost start = env@;
    let mut i: usize = 0;
    while i < arguments.len()
        invariant
            i <= arguments.len(),
            env@ == with_each(start, arguments@.take(i as int), value@),
        decreases arguments.len() - i,
    {
        let arg = &arguments[i];
        proof {
            assert(arguments@.take(i + 1).drop_last() =~= arguments@.take(i as int));
            assert(arguments@.take(i + 1).last() == *arg);
        }
        if let Pattern::Var { name, .. } = &arg.value {
            env.add_variable(name.clone(), value.clone());
        }
        i = i + 1;
    }
    proof {
        assert(arguments@.take(i as int) =~= arguments@);
    }
}

/// The condition that the purpose is to spend.
fn purpose_is_spend(location: Span) -> (r: SymbolicCondition)
    ensures
        r@ == spending_condition(location),
{
    let inner = SymbolicCondition::Custom {
        description: "Purpose is Spend".to_owned(),
        relates_to_inputs: false,
        relates_to_output_ref: true,
        location,
    };
    let r = SymbolicCondition::Assertion { condition: Box::new(inner), location };
    proof {
        reveal_with_fuel(crate::value::condition_view, 2);
    }
    r
}

/// A value's one source.
fn one_source(origin: ValueOrigin) -> (r: Vec<ValueOrigin>)
    ensures
        origins(r@) == seq![origin@],
{
    let mut r: Vec<ValueOrigin> = Vec::new();
    r.push(origin);
    proof {
        assert(origins(r@) =~= seq![origin@]);
    }
    r
}

/// The result of an assignment, from the result of its value.
fn assign(
    expr: &TypedExpr,
    kind: AssignmentKind,
    pattern: &Pattern,
    value_type: &String,
    result: ExprResult,
) -> (r: ExprResult)
    ensures
        r@ == assignment_result(*expr, kind, *pattern, value_type@, result@),
{
    let mut r = result;
    r.location = Some(expr.location);
    match pattern {
        Pattern::Var { name, .. } => {
            let unknown = match r.value.origin {
                ValueOrigin::Unknown => true,
                _ => false,
            };
            if !unknown || r.value.derived_from.len() > 0 {
                r.environment.add_variable(name.clone(), r.value.clone());
            }
        },
        Pattern::Constructor { name, arguments, .. } => match kind {
            AssignmentKind::Let => {
                let origin = r.value.origin.clone();
                bind_fields(&mut r.environment, name.as_str(), &origin, arguments, value_type);
            },
            AssignmentKind::Expect => {
                let is_purpose = match r.value.origin {
                    ValueOrigin::Purpose => true,
                    _ => false,
                };
                let is_input = match r.value.origin {
                    ValueOrigin::InputToken => true,
                    _ => false,
                };
                if same_text(name.as_str(), "Spend") {
                    if is_purpose {
                        let reference = SymbolicValue::derived(
                            ValueOrigin::OutputReference,
                            expr.tipo.clone(),
                            one_source(ValueOrigin::Purpose),
                        );
                        bind_each(&mut r.environment, arguments, &reference);
                        r.environment.add_condition(purpose_is_spend(expr.location));
                        r.uses_purpose = true;
                    }
                } else if same_text(name.as_str(), "Some") && arguments.len() == 1 && is_input {
                    if let Pattern::Var { name: found, .. } = &arguments[0].value {
                        let mut sources: Vec<ValueOrigin> = Vec::new();
                        sources.push(ValueOrigin::TransactionInputs);
                        sources.push(ValueOrigin::OutputReference);
                        proof {
                            assert(origins(sources@) =~= seq![
                                OriginView::TransactionInputs,
                                OriginView::OutputReference,
                            ]);
                        }
                        let input = SymbolicValue::derived(
                            ValueOrigin::InputToken,
                            expr.tipo.clone(),
                            sources,
                        );
                        r.environment.add_variable(found.clone(), input);
                        r.environment.add_condition(
                            SymbolicCondition::Custom {
                                description: "Output reference validation pattern detected".to_owned(),
                                relates_to_inputs: true,
                                relates_to_output_ref: true,
                                location: expr.location,
                            },
                        );
                        r.uses_purpose = true;
                        r.uses_inputs = true;
                    }
                }
            },
        },
        _ => {},
    }
    r
}

/// The standard list function that `fun` names.
fn named_list_function(fun: &TypedExpr) -> (r: Option<&String>)
    ensures
        match r {
            Some(label) => list_function(*fun) == Some(label@),
            None => list_function(*fun) is None,
        },
{
    match &fun.node {
        TypedNode::ModuleSelect { module_name, label } => {
            if same_text(module_name.as_str(), "aiken/list") {
                Some(label)
            } else {
                None
            }
        },
        _ => None,
    }
}

/// Whether a value is known only by the name `name`.
fn is_untracked(origin: &ValueOrigin, name: &str) -> (r: bool)
    ensures
        r == (untracked_name(origin@) == Some(name@)),
{
    match origin {
        ValueOrigin::Other(s) => same_text(s.as_str(), name),
        _ => false,
    }
}

/// What the result of a list function is.
fn origin_of_list_call(label: &str, list: &ExprResult, predicate: &ExprResult) -> (r: ValueOrigin)
    ensures
        r@ == list_origin(label@, list@, predicate@),
{
    let is_inputs = match list.value.origin {
        ValueOrigin::TransactionInputs => true,
        _ => false,
    };
    let is_outputs = match list.value.origin {
        ValueOrigin::InputTokenOutput => true,
        _ => false,
    };
    let shown = &predicate.value.origin;
    if same_text(label, "find") {
        if is_inputs && predicate.uses.contains(&ValueOrigin::OutputReference) {
            ValueOrigin::InputToken
        } else {
            ValueOrigin::Unknown
        }
    } else if same_text(label, "map") {
        if is_inputs {
            if predicate.uses.contains(&ValueOrigin::InputTokenAddress) {
                ValueOrigin::InputTokenAddress
            } else if predicate.uses.contains(&ValueOrigin::InputTokenOutput) {
                ValueOrigin::InputTokenOutput
            } else if is_untracked(shown, "address") {
                ValueOrigin::InputTokenAddress
            } else if is_untracked(shown, "output_reference") {
                ValueOrigin::OutputReference
            } else if is_untracked(shown, "output") {
                ValueOrigin::InputTokenOutput
            } else if is_untracked(shown, "inputs") {
                ValueOrigin::TransactionInputs
            } else {
                ValueOrigin::Unknown
            }
        } else if is_outputs && is_untracked(shown, "address") {
            ValueOrigin::InputTokenAddress
        } else {
            ValueOrigin::Unknown
        }
    } else {
        if is_inputs && predicate.uses.contains(&ValueOrigin::InputTokenAddress) {
            ValueOrigin::TokenCount
        } else if is_untracked(shown, "address") {
            ValueOrigin::TokenCount
        } else {
            ValueOrigin::Unknown
        }
    }
}

/// Adds references to all elements of a vector.
fn push_all<'a>(to: &mut Vec<&'a TypedExpr>, exprs: &'a Vec<TypedExpr>)
    ensures
        final(to)@.len() == old(to)@.len() + exprs@.len(),
        forall|i: int| 0 <= i < old(to)@.len() ==> (#[trigger] final(to)@[i]) == old(to)@[i],
        forall|i: int|
            old(to)@.len() <= i < final(to)@.len() ==> *(#[trigger] final(to)@[i]) == exprs@[i
                - old(to)@.len()],
{
    let ghost n = to@.len();
    let ghost start = to@;
    let mut i: usize = 0;
    while i < exprs.len()
        invariant
            i <= exprs.len(),
            n == start.len(),
            to@.len() == n + i,
            forall|k: int| 0 <= k < n ==> (#[trigger] to@[k]) == start[k],
            forall|k: int| n <= k < n + i ==> *(#[trigger] to@[k]) == exprs@[k - n],
        decreases exprs.len() - i,
    {
        to.push(&exprs[i]);
        i = i + 1;
    }
}

impl AstAnalyzer {
    /// The expressions that stand directly inside `expr`.
    pub fn get_child_expressions<'a>(&self, expr: &'a TypedExpr) -> (r: Vec<&'a TypedExpr>)
        ensures
            r@.len() == children(*expr).len(),
            forall|i: int| 0 <= i < r@.len() ==> *(#[trigger] r@[i]) == children(*expr)[i],
    {
        let mut found: Vec<&'a TypedExpr> = Vec::new();
        match &expr.node {
            TypedNode::BinOp { left, right, .. } => {
                found.push(&**left);
                found.push(&**right);
            },
            TypedNode::UnOp { value } => {
                found.push(&**value);
            },
            TypedNode::If { branches, final_else } => {
                let mut i: usize = 0;
                while i < branches.len()
                    invariant
                        i <= branches.len(),
                        found@.len() == branch_exprs(branches@.take(i as int)).len(),
                        forall|k: int|
                            0 <= k < found@.len() ==> *(#[trigger] found@[k]) == branch_exprs(
                                branches@.take(i as int),
                            )[k],
                    decreases branches.len() - i,
                {
                    proof {
                        assert(branches@.take(i + 1).drop_last() =~= branches@.take(i as int));
                        assert(branches@.take(i + 1).last() == branches@[i as int]);
                    }
                    found.push(&branches[i].condition);
                    found.push(&branches[i].body);
                    i = i + 1;
                }
                proof {
                    assert(branches@.take(i as int) =~= branches@);
                }
                found.push(&**final_else);
            },
            TypedNode::Sequence { expressions } => {
                push_all(&mut found, expressions);
            },
            TypedNode::Pipeline { expressions } => {
                push_all(&mut found, expressions);
            },
            TypedNode::List { elements, tail } => {
                push_all(&mut found, elements);
                if let Some(t) = tail {
                    found.push(&**t);
                }
            },
            TypedNode::Tuple { elems } => {
                push_all(&mut found, elems);
            },
            TypedNode::When { subject, clauses } => {
                found.push(&**subject);
                let mut i: usize = 0;
                while i < clauses.len()
                    invariant
                        i <= clauses.len(),
                        found@.len() == i + 1,
                        *found@[0] == **subject,
                        forall|k: int|
                            1 <= k < found@.len() ==> *(#[trigger] found@[k]) == clauses@[k
                                - 1].body,
                    decreases clauses.len() - i,
                {
                    found.push(&clauses[i].body);
                    i = i + 1;
                }
            },
            TypedNode::RecordUpdate { spread, args } => {
                found.push(&**spread);
                push_all(&mut found, args);
            },
            TypedNode::Fn { body } => {
                found.push(&**body);
            },
            TypedNode::Trace { text, continuation } => {
                found.push(&**text);
                found.push(&**continuation);
            },
            TypedNode::TupleIndex { tuple } => {
                found.push(&**tuple);
            },
            TypedNode::Call { fun, args } => {
                found.push(&**fun);
                push_all(&mut found, args);
            },
            TypedNode::RecordAccess { record, .. } => {
                found.push(&**record);
            },
            TypedNode::Assignment { value, .. } => {
                found.push(&**value);
            },
            _ => {},
        }
        found
    }

    /// Whether a guard checks for duplicate inputs.
    pub fn check_guard_for_duplicate_inputs(&self, guard: &ClauseGuard) -> (r: bool)
        ensures
            r == guard_checks_duplicates(*guard),
        decreases guard,
    {
        match guard {
            ClauseGuard::Equals { left, right, .. } => {
                self.check_guard_for_duplicate_inputs(left)
                    || self.check_guard_for_duplicate_inputs(right)
            },
            ClauseGuard::NotEquals { left, right, .. } => {
                self.check_guard_for_duplicate_inputs(left)
                    || self.check_guard_for_duplicate_inputs(right)
            },
            ClauseGuard::And { left, right, .. } => {
                self.check_guard_for_duplicate_inputs(left)
                    || self.check_guard_for_duplicate_inputs(right)
            },
            ClauseGuard::Or { left, right, .. } => {
                self.check_guard_for_duplicate_inputs(left)
                    || self.check_guard_for_duplicate_inputs(right)
            },
            ClauseGuard::Other { .. } => false,
        }
    }

    /// Lets the parameters of a function stand for the values of the arguments. Fails, and
    /// changes nothing, if the numbers of arguments and parameters differ.
    pub fn map_function_arguments(
        &self,
        function_info: &FunctionInfo,
        args: &Vec<TypedExpr>,
        env: &mut SymbolicEnvironment,
        arg_results: &Vec<ExprResult>,
    ) -> (r: bool)
        ensures
            r == (args@.len() == function_info.definition.arguments@.len()),
            !r ==> final(env)@ == old(env)@,
            r ==> final(env)@ == with_arguments(
                old(env)@,
                function_info.definition.arguments@,
                results_view(arg_results@),
                if args@.len() <= arg_results@.len() {
                    args@.len()
                } else {
                    arg_results@.len()
                },
            ),
    {
        if args.len() != function_info.definition.arguments.len() {
            return false;
        }
        let ghost start = env@;
        let ghost parameters = function_info.definition.arguments@;
        let mut i: usize = 0;
        while i < args.len() && i < arg_results.len()
            invariant
                i <= args.len() == parameters.len(),
                i <= arg_results.len(),
                parameters == function_info.definition.arguments@,
                env@ == with_arguments(
                    start,
                    parameters,
                    results_view(arg_results@),
                    i as nat,
                ),
            decreases args.len() - i,
        {
            let name = self.extract_name_from_arg(
                function_info.definition.arguments[i].arg_name.as_str(),
            );
            env.add_variable(name, arg_results[i].value.clone());
            i = i + 1;
        }
        true
    }

    /// Executes an expression symbolically.
    pub fn execute_expression(&self, expr: &TypedExpr, env: &SymbolicEnvironment) -> (r: ExprResult)
        requires
            has_complete_calls(self@.function_table, *expr, at_top(env@)),
        ensures
            r@ == execute(self@.function_table, *expr, env@),
        decreases calls_left(at_top(env@)), expr, 1nat,
    {
        match &expr.node {
            TypedNode::Var { name } => {
                let mut r = ExprResult::blank(expr, env);
                if let Some(value) = env.lookup(name.as_str()) {
                    r.uses_purpose = match value.origin {
                        ValueOrigin::Purpose => true,
                        _ => false,
                    };
                    r.uses_inputs = match value.origin {
                        ValueOrigin::TransactionInputs => true,
                        _ => false,
                    };
                    r.uses = OriginSet::new().insert(value.origin.clone());
                    r.value = value.clone();
                }
                r
            },
            TypedNode::RecordAccess { label, record } => {
                assert(children(*expr)[0] == **record);
                let record_result = self.execute_expression(record, env);
                let origin = origin_of_field(&record_result.value.origin, label.as_str());
                let is_purpose = match (&record_result.value.origin, &origin) {
                    (ValueOrigin::ScriptContext, ValueOrigin::Purpose) => true,
                    _ => false,
                };
                let is_inputs = match (&record_result.value.origin, &origin) {
                    (ValueOrigin::Transaction, ValueOrigin::TransactionInputs) => true,
                    _ => false,
                };
                let uses = record_result.uses.insert(origin.clone());
                ExprResult {
                    value: SymbolicValue::derived(
                        origin,
                        expr.tipo.clone(),
                        one_source(record_result.value.origin),
                    ),
                    environment: record_result.environment,
                    findings: record_result.findings,
                    uses,
                    uses_purpose: record_result.uses_purpose || is_purpose,
                    uses_inputs: record_result.uses_inputs || is_inputs,
                    location: Some(expr.location),
                    function_level: record_result.function_level,
                }
            },
            TypedNode::Assignment { kind, pattern, value } => {
                assert(children(*expr)[0] == **value);
                let value_result = self.execute_expression(value, env);
                assign(expr, *kind, pattern, &value.tipo, value_result)
            },
            TypedNode::Call { fun, args } => self.execute_call(expr, fun, args, env),
            TypedNode::Fn { body } => {
                assert(children(*expr)[0] == **body);
                let body_result = self.execute_expression(body, env);
                ExprResult {
                    environment: env.clone(),
                    location: Some(expr.location),
                    ..body_result
                }
            },
            TypedNode::BinOp { op, left, right } => {
                assert(children(*expr)[0] == **left);
                assert(children(*expr)[1] == **right);
                let left_result = self.execute_expression(left, env);
                let right_result = self.execute_expression(right, env);
                let left_counts = match left_result.value.origin {
                    ValueOrigin::TokenCount => true,
                    _ => false,
                };
                let right_counts = match right_result.value.origin {
                    ValueOrigin::TokenCount => true,
                    _ => false,
                };
                let mut findings = left_result.findings;
                add_findings(&mut findings, &right_result.findings);
                let ghost before = findings@;
                if op.compares() && (left_counts || right_counts) {
                    let found = SecurityFinding {
                        kind: SecurityPatternKind::InputTokenCountComparison,
                        confidence: 80,
                        location: expr.location,
                        description: "Token count comparison detected".to_owned(),
                    };
                    findings.push(found);
                    proof {
                        assert(findings_view(findings@) =~= findings_view(before) + seq![found@]);
                    }
                }
                ExprResult {
                    value: right_result.value,
                    environment: right_result.environment,
                    findings,
                    uses: left_result.uses.extend(&right_result.uses),
                    uses_purpose: left_result.uses_purpose || right_result.uses_purpose,
                    uses_inputs: left_result.uses_inputs || right_result.uses_inputs,
                    location: Some(expr.location),
                    function_level: left_result.function_level,
                }
            },
            TypedNode::When { subject, clauses } => self.execute_when(expr, subject, clauses, env),
            _ => self.execute_parts(expr, env),
        }
    }

    /// Executes a call.
    fn execute_call(
        &self,
        expr: &TypedExpr,
        fun: &TypedExpr,
        args: &Vec<TypedExpr>,
        env: &SymbolicEnvironment,
    ) -> (r: ExprResult)
        requires
            has_complete_calls(self@.function_table, *expr, at_top(env@)),
            expr.node matches TypedNode::Call { fun: f, args: a } && *f == *fun && a == *args,
        ensures
            r@ == execute(self@.function_table, *expr, env@),
        decreases calls_left(at_top(env@)), expr, 0nat,
    {
        let ghost table = self@.function_table;
        let ghost top = at_top(env@);
        let fun_result = self.execute_expression(fun, env);
        proof {
            lemma_levels(table, *fun, env@, top);
        }
        let ghost fun_env = fun_result@.environment;
        let mut learned = ExprResult::blank(expr, env).merge(&fun_result);
        let ghost start = learned@;
        let mut arg_results: Vec<ExprResult> = Vec::new();
        let mut i: usize = 0;
        proof {
            assert(results_view(arg_results@) =~= Seq::empty());
            assert(args@.take(0) =~= Seq::empty());
        }
        while i < args.len()
            invariant
                i <= args.len(),
                table == self@.function_table,
                top == at_top(env@),
                fun_env.function_level == env@.function_level,
                start.environment == fun_env,
                forall|k: int| 0 <= k < args@.len() ==> has_complete_calls(table, #[trigger] args@[k], top),
                forall|k: int| 0 <= k < args@.len() ==> decreases_to!(expr => #[trigger] args@[k]),
                results_view(arg_results@) == execute_each(
                    table,
                    args@.take(i as int),
                    fun_env,
                    top,
                ),
                learned@ == merged_all(start, results_view(arg_results@)),
            decreases args.len() - i,
        {
            proof {
                lemma_levels_each(table, args@.take(i as int), fun_env, top);
                lemma_merged_all(start, results_view(arg_results@));
                assert(args@.take(i + 1).drop_last() =~= args@.take(i as int));
                assert(args@.take(i + 1).last() == args@[i as int]);
            }
            let arg_result = self.execute_expression(&args[i], &learned.environment);
            learned = learned.merge(&arg_result);
            let ghost before = results_view(arg_results@);
            arg_results.push(arg_result);
            proof {
                assert(results_view(arg_results@) =~= before.push(arg_result@));
                assert(before.push(arg_result@).drop_last() =~= before);
            }
            i = i + 1;
        }
        proof {
            assert(args@.take(i as int) =~= args@);
            lemma_levels_each(table, args@, fun_env, top);
            lemma_merged_all(start, results_view(arg_results@));
        }
        learned.function_level = fun_result.function_level;
        learned.value = SymbolicValue::unknown(expr.tipo.clone());
        if let Some(label) = named_list_function(fun) {
            if same_text(label.as_str(), "find") || same_text(label.as_str(), "map") || same_text(
                label.as_str(),
                "count",
            ) {
                let origin = origin_of_list_call(label.as_str(), &arg_results[0], &arg_results[1]);
                learned.value = SymbolicValue::new(origin, expr.tipo.clone());
            }
        } else if env.current_level() == 0 {
            if let Some(function_info) = self.find_function_to_inline(fun) {
                let mut function_env = learned.environment.clone();
                function_env.function_level = Some(1);
                if self.map_function_arguments(
                    function_info,
                    args,
                    &mut function_env,
                    &arg_results,
                ) {
                    proof {
                        lemma_with_arguments_level(
                            entered(learned@.environment),
                            function_info.definition.arguments@,
                            results_view(arg_results@),
                            args@.len(),
                        );
                    }
                    let body_result = self.execute_expression(
                        &*function_info.body,
                        &function_env,
                    );
                    learned.value = body_result.value;
                    add_findings(&mut learned.findings, &body_result.findings);
                    learned.uses = body_result.uses;
                    learned.uses_purpose = learned.uses_purpose || body_result.uses_purpose;
                    learned.uses_inputs = learned.uses_inputs || body_result.uses_inputs;
                }
            }
        }
        learned
    }

    /// Executes a `when`: its subject, and each clause in the environment after the subject.
    fn execute_when(
        &self,
        expr: &TypedExpr,
        subject: &TypedExpr,
        clauses: &Vec<TypedClause>,
        env: &SymbolicEnvironment,
    ) -> (r: ExprResult)
        requires
            has_complete_calls(self@.function_table, *expr, at_top(env@)),
            expr.node matches TypedNode::When { subject: s, clauses: c } && *s == *subject && c
                == *clauses,
        ensures
            r@ == execute(self@.function_table, *expr, env@),
        decreases calls_left(at_top(env@)), expr, 0nat,
    {
        let ghost table = self@.function_table;
        let ghost top = at_top(env@);
        let subject_result = self.execute_expression(subject, env);
        proof {
            lemma_levels(table, *subject, env@, top);
        }
        let mut learned = subject_result.clone();
        let mut i: usize = 0;
        proof {
            assert(clauses@.take(0) =~= Seq::empty());
        }
        while i < clauses.len()
            invariant
                i <= clauses.len(),
                table == self@.function_table,
                top == at_top(env@),
                subject_result@.environment.function_level == env@.function_level,
                forall|k: int|
                    0 <= k < clauses@.len() ==> has_complete_calls(
                        table,
                        (#[trigger] clauses@[k]).body,
                        top,
                    ),
                forall|k: int|
                    0 <= k < clauses@.len() ==> decreases_to!(expr =>
                        (#[trigger] clauses@[k]).body),
                learned@ == execute_clauses(
                    table,
                    subject_result@,
                    subject.tipo@,
                    clauses@.take(i as int),
                    top,
                ),
            decreases clauses.len() - i,
        {
            let clause = &clauses[i];
            proof {
                assert(clauses@.take(i + 1).drop_last() =~= clauses@.take(i as int));
                assert(clauses@.take(i + 1).last() == clauses@[i as int]);
            }
            let mut clause_env = subject_result.environment.clone();
            let is_purpose = match subject_result.value.origin {
                ValueOrigin::Purpose => true,
                _ => false,
            };
            let mut bound = false;
            if is_purpose {
                if let Pattern::Constructor { name, arguments, .. } = &clause.pattern {
                    if same_text(name.as_str(), "Spend") && arguments.len() == 1 {
                        if let Pattern::Var { name: variable, .. } = &arguments[0].value {
                            let reference = SymbolicValue::derived(
                                ValueOrigin::OutputReference,
                                subject.tipo.clone(),
                                one_source(ValueOrigin::Purpose),
                            );
                            clause_env.add_variable(variable.clone(), reference);
                            clause_env.add_condition(purpose_is_spend(clause.pattern.location()));
                            bound = true;
                        }
                    }
                }
            }
            proof {
                assert(bound == spending_variable(subject_result@.value, *clause) is Some);
                assert(clause_env@ == clause_environment(
                    subject_result@.environment,
                    subject_result@.value,
                    subject.tipo@,
                    *clause,
                ));
            }
            let ghost before = learned@;
            if let Some(guard) = &clause.guard {
                if self.check_guard_for_duplicate_inputs(guard) {
                    let found = SecurityFinding {
                        kind: SecurityPatternKind::DuplicateInputCheck,
                        confidence: 90,
                        location: guard.location(),
                        description: "Duplicate input check found in When clause guard".to_owned(),
                    };
                    let ghost known = learned.findings@;
                    learned.findings.push(found);
                    proof {
                        assert(findings_view(learned.findings@) =~= findings_view(known).push(
                            found@,
                        ));
                    }
                }
            }
            proof {
                assert(learned@.findings =~= before.findings + guard_findings(*clause));
            }
            let body = self.execute_expression(&clause.body, &clause_env);
            let ExprResult {
                value,
                environment,
                findings,
                uses,
                uses_purpose,
                uses_inputs,
                location,
                function_level,
            } = learned;
            let mut all_findings = findings;
            add_findings(&mut all_findings, &body.findings);
            learned =
            ExprResult {
                value: body.value,
                environment,
                findings: all_findings,
                uses: uses.extend(&body.uses),
                uses_purpose: uses_purpose || bound || body.uses_purpose,
                uses_inputs: uses_inputs || body.uses_inputs,
                location,
                function_level,
            };
            i = i + 1;
        }
        proof {
            assert(clauses@.take(i as int) =~= clauses@);
        }
        learned.location = Some(expr.location);
        learned
    }

    /// Executes the expressions directly inside `expr`, one after the other.
    fn execute_parts(&self, expr: &TypedExpr, env: &SymbolicEnvironment) -> (r: ExprResult)
        requires
            forall|k: int|
                0 <= k < children(*expr).len() ==> has_complete_calls(
                    self@.function_table,
                    #[trigger] children(*expr)[k],
                    at_top(env@),
                ),
        ensures
            r@ == merged_all(
                blank_result(*expr, env@),
                execute_children(
                    self@.function_table,
                    *expr,
                    children(*expr).len(),
                    env@,
                    at_top(env@),
                ),
            ),
        decreases calls_left(at_top(env@)), expr, 0nat,
    {
        let ghost table = self@.function_table;
        let ghost top = at_top(env@);
        let ghost start = blank_result(*expr, env@);
        let parts = self.get_child_expressions(expr);
        let mut learned = ExprResult::blank(expr, env);
        let mut i: usize = 0;
        while i < parts.len()
            invariant
                i <= parts.len() == children(*expr).len(),
                table == self@.function_table,
                top == at_top(env@),
                start == blank_result(*expr, env@),
                forall|k: int|
                    0 <= k < children(*expr).len() ==> has_complete_calls(
                        table,
                        #[trigger] children(*expr)[k],
                        top,
                    ),
                forall|k: int|
                    0 <= k < parts@.len() ==> *(#[trigger] parts@[k]) == children(*expr)[k],
                learned@ == merged_all(
                    start,
                    execute_children(table, *expr, i as nat, env@, top),
                ),
            decreases parts.len() - i,
        {
            let ghost before = execute_children(table, *expr, i as nat, env@, top);
            proof {
                lemma_levels_children(table, *expr, i as nat, env@, top);
                lemma_merged_all(start, before);
                crate::ast::lemma_child_is_smaller(*expr, i as int);
            }
            let part = self.execute_expression(parts[i], &learned.environment);
            learned = learned.merge(&part);
            proof {
                assert(before.push(part@).drop_last() =~= before);
            }
            i = i + 1;
        }
        learned
    }

    /// Whether an expression can be executed, outside every called function (`top`) or inside
    /// one: whether every call of a tracked list function has a list and a predicate.
    pub fn can_execute(&self, expr: &TypedExpr, top: bool) -> (r: bool)
        ensures
            r == has_complete_calls(self@.function_table, *expr, top),
        decreases calls_left(top), expr,
    {
        match &expr.node {
            TypedNode::Call { fun, args } => {
                if !self.can_execute(fun, top) {
                    return false;
                }
                let mut i: usize = 0;
                while i < args.len()
                    invariant
                        i <= args.len(),
                        expr.node matches TypedNode::Call { args: a, .. } && a == *args,
                        forall|k: int|
                            0 <= k < i ==> has_complete_calls(
                                self@.function_table,
                                #[trigger] args@[k],
                                top,
                            ),
                        forall|k: int|
                            0 <= k < args@.len() ==> decreases_to!(expr => #[trigger] args@[k]),
                    decreases args.len() - i,
                {
                    if !self.can_execute(&args[i], top) {
                        return false;
                    }
                    i = i + 1;
                }
                if let Some(label) = named_list_function(fun) {
                    let tracked_call = same_text(label.as_str(), "find") || same_text(
                        label.as_str(),
                        "map",
                    ) || same_text(label.as_str(), "count");
                    return !tracked_call || args.len() >= 2;
                }
                if !top {
                    return true;
                }
                if let Some(info) = self.find_function_to_inline(fun) {
                    return info.definition.arguments.len() != args.len() || self.can_execute(
                        &*info.body,
                        false,
                    );
                }
                true
            },
            TypedNode::When { subject, clauses } => {
                if !self.can_execute(subject, top) {
                    return false;
                }
                let mut i: usize = 0;
                while i < clauses.len()
                    invariant
                        i <= clauses.len(),
                        expr.node matches TypedNode::When { clauses: c, .. } && c == *clauses,
                        forall|k: int|
                            0 <= k < i ==> has_complete_calls(
                                self@.function_table,
                                (#[trigger] clauses@[k]).body,
                                top,
                            ),
                        forall|k: int|
                            0 <= k < clauses@.len() ==> decreases_to!(expr =>
                                (#[trigger] clauses@[k]).body),
                    decreases clauses.len() - i,
                {
                    if !self.can_execute(&clauses[i].body, top) {
                        return false;
                    }
                    i = i + 1;
                }
                true
            },
            _ => {
                let parts = self.get_child_expressions(expr);
                let mut i: usize = 0;
                while i < parts.len()
                    invariant
                        i <= parts.len() == children(*expr).len(),
                        has_complete_calls(self@.function_table, *expr, top) == forall|k: int|
                            0 <= k < children(*expr).len() ==> has_complete_calls(
                                self@.function_table,
                                #[trigger] children(*expr)[k],
                                top,
                            ),
                        forall|k: int|
                            0 <= k < parts@.len() ==> *(#[trigger] parts@[k]) == children(*expr)[k],
                        forall|k: int|
                            0 <= k < i ==> has_complete_calls(
                                self@.function_table,
                                #[trigger] children(*expr)[k],
                                top,
                            ),
                    decreases parts.len() - i,
                {
                    proof {
                        crate::ast::lemma_child_is_smaller(*expr, i as int);
                    }
                    if !self.can_execute(parts[i], top) {
                        return false;
                    }
                    i = i + 1;
                }
                true
            },
        }
    }
}

} // verus!
