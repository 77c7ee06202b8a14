//! The search for code that finds an input by its output reference.
use crate::analyzer::AstAnalyzer;
use crate::ast::{children, lemma_child_is_smaller, BinOp, TypedExpr, TypedNode};
use crate::environment::{EnvironmentView, SymbolicEnvironment};
use crate::name_map::lookup;
use crate::text::same_text;
use crate::value::{comes_from, OriginView, ValueOrigin, ValueView};
use vstd::prelude::*;
use vstd::string::*;

verus! {

/// The name that an expression is, if it is a variable.
pub open spec fn variable_name(expr: TypedExpr) -> Option<Seq<char>> {
    match expr.node {
        TypedNode::Var { name } => Some(name@),
        _ => None,
    }
}

/// The value of a variable.
pub open spec fn variable_value(expr: TypedExpr, env: EnvironmentView) -> Option<ValueView> {
    match variable_name(expr) {
        Some(name) => lookup(env.variables, name),
        None => None,
    }
}

/// Whether a variable is of a given origin.
pub open spec fn variable_is(expr: TypedExpr, env: EnvironmentView, origin: OriginView) -> bool {
    variable_value(expr, env) matches Some(v) && v.origin == origin
}

/// Whether an expression is the output reference of the purpose: a variable that holds it, or
/// the field of a variable that holds the purpose, or of the purpose of the script context.
pub open spec fn is_output_reference(expr: TypedExpr, env: EnvironmentView) -> bool {
    match expr.node {
        TypedNode::Var { .. } => variable_is(expr, env, OriginView::OutputReference),
        TypedNode::RecordAccess { label, record } => label@ == "output_reference"@ && (
        match record.node {
            TypedNode::Var { .. } => variable_is(*record, env, OriginView::Purpose),
            TypedNode::RecordAccess { label: inner, record: context } => {
                &&& inner@ == "purpose"@
                &&& env.script_context_name matches Some(ctx)
                &&& variable_name(*context) == Some(ctx)
            },
            _ => false,
        }),
        _ => false,
    }
}

/// Whether an expression reads the output reference of a variable, such as an input.
pub open spec fn is_reference_of_variable(expr: TypedExpr) -> bool {
    match expr.node {
        TypedNode::RecordAccess { label, record } => label@ == "output_reference"@ && variable_name(
            *record,
        ) is Some,
        _ => false,
    }
}

/// Whether one side of a comparison is the output reference of the purpose and the other the
/// output reference of a variable: first for the left side, then for the right side.
pub open spec fn reference_sides(
    left: TypedExpr,
    right: TypedExpr,
    env: EnvironmentView,
) -> (bool, bool) {
    (
        is_output_reference(left, env) && is_reference_of_variable(right),
        is_output_reference(right, env) && is_reference_of_variable(left),
    )
}

/// Whether an expression is an equality between the output references of the purpose and of
/// a variable.
pub open spec fn compares_references(expr: TypedExpr, env: EnvironmentView) -> bool {
    match expr.node {
        TypedNode::BinOp { op, left, right } => {
            let (on_left, on_right) = reference_sides(*left, *right, env);
            op is Eq && (on_left || on_right)
        },
        _ => false,
    }
}

/// A comparison of output references is recognised whichever side stands first.
pub proof fn law_comparison_is_symmetric(
    expr: TypedExpr,
    swapped: TypedExpr,
    env: EnvironmentView,
)
    requires
        expr.node matches TypedNode::BinOp { op, left, right } && (swapped.node matches
            TypedNode::BinOp { op: other, left: l, right: r } && op == other && *left == *r
            && *right == *l),
    ensures
        compares_references(expr, env) == compares_references(swapped, env),
        validates_reference(expr, env) == validates_reference(swapped, env),
{
}

/// Whether an expression uses the transaction's inputs, and whether it uses the output
/// reference.
pub open spec fn usage(expr: TypedExpr, env: EnvironmentView) -> (bool, bool)
    decreases expr,
{
    match expr.node {
        TypedNode::Var { .. } => match variable_value(expr, env) {
            Some(v) => (
                comes_from(v, OriginView::TransactionInputs),
                comes_from(v, OriginView::OutputReference),
            ),
            None => (false, false),
        },
        TypedNode::RecordAccess { record, .. } => {
            if is_reference_of_variable(expr) {
                (true, true)
            } else if variable_is(*record, env, OriginView::TransactionInputs) {
                (true, false)
            } else if variable_is(*record, env, OriginView::OutputReference) {
                (false, true)
            } else {
                usage(*record, env)
            }
        },
        _ => {
            proof {
                assert forall|i: int| 0 <= i < children(expr).len() implies decreases_to!(expr =>
                    #[trigger] children(expr)[i]) by {
                    lemma_child_is_smaller(expr, i);
                }
            }
            (
                exists|i: int|
                    0 <= i < children(expr).len() && usage(#[trigger] children(expr)[i], env).0,
                exists|i: int|
                    0 <= i < children(expr).len() && usage(#[trigger] children(expr)[i], env).1,
            )
        },
    }
}

/// What an argument of a call uses. A function that compares output references is taken to
/// work on inputs.
pub open spec fn argument_usage(arg: TypedExpr, env: EnvironmentView) -> (bool, bool) {
    let (inputs, reference) = usage(arg, env);
    match arg.node {
        TypedNode::Fn { body } => {
            let (body_inputs, body_reference) = usage(*body, env);
            let compares = compares_references(*body, env);
            (inputs || body_inputs || compares, reference || body_reference || compares)
        },
        _ => (inputs, reference),
    }
}

/// Whether an expression holds inputs against the output reference.
pub open spec fn validates_reference(expr: TypedExpr, env: EnvironmentView) -> bool {
    match expr.node {
        TypedNode::Call { fun, args } => {
            let (fun_inputs, fun_reference) = usage(*fun, env);
            &&& fun_inputs || exists|i: int|
                0 <= i < args@.len() && argument_usage(#[trigger] args@[i], env).0
            &&& fun_reference || exists|i: int|
                0 <= i < args@.len() && argument_usage(#[trigger] args@[i], env).1
        },
        TypedNode::BinOp { left, right, .. } => {
            let (left_inputs, left_reference) = usage(*left, env);
            let (right_inputs, right_reference) = usage(*right, env);
            ||| compares_references(expr, env)
            ||| left_inputs && right_reference
            ||| left_reference && right_inputs
        },
        _ => false,
    }
}

impl AstAnalyzer {
    /// Whether one side is the output reference of the purpose and the other the output
    /// reference of a variable.
    pub fn check_output_ref_comparison(
        &self,
        left: &TypedExpr,
        right: &TypedExpr,
        env: &SymbolicEnvironment,
    ) -> (r: (bool, bool))
        ensures
            r == reference_sides(*left, *right, env@),
    {
        let left_is_output_ref = self.is_output_reference_expr(left, env);
        let right_is_output_ref = self.is_output_reference_expr(right, env);
        let left_is_input_output_ref = self.is_input_output_reference_expr(left);
        let right_is_input_output_ref = self.is_input_output_reference_expr(right);
        (
            left_is_output_ref && right_is_input_output_ref,
            right_is_output_ref && left_is_input_output_ref,
        )
    }

    /// Whether an expression is the output reference of the purpose.
    pub fn is_output_reference_expr(&self, expr: &TypedExpr, env: &SymbolicEnvironment) -> (r: bool)
        ensures
            r == is_output_reference(*expr, env@),
    {
        match &expr.node {
            TypedNode::Var { name } => holds(env, name, &ValueOrigin::OutputReference),
            TypedNode::RecordAccess { label, record } => {
                if same_text(label.as_str(), "output_reference") {
                    match &record.node {
                        TypedNode::Var { name } => holds(env, name, &ValueOrigin::Purpose),
                        TypedNode::RecordAccess { label: inner, record: context } => {
                            if same_text(inner.as_str(), "purpose") {
                                match (&context.node, &env.script_context_name) {
                                    (TypedNode::Var { name }, Some(ctx)) => same_text(
                                        name.as_str(),
                                        ctx.as_str(),
                                    ),
                                    _ => false,
                                }
                            } else {
                                false
                            }
                        },
                        _ => false,
                    }
                } else {
                    false
                }
            },
            _ => false,
        }
    }

    /// Whether an expression reads the output reference of a variable.
    pub fn is_input_output_reference_expr(&self, expr: &TypedExpr) -> (r: bool)
        ensures
            r == is_reference_of_variable(*expr),
    {
        match &expr.node {
            TypedNode::RecordAccess { label, record } => {
                if same_text(label.as_str(), "output_reference") {
                    match &record.node {
                        TypedNode::Var { .. } => true,
                        _ => false,
                    }
                } else {
                    false
                }
            },
            _ => false,
        }
    }

    /// Whether an expression holds inputs against the output reference.
    pub fn detect_input_output_ref_validation(
        &self,
        expr: &TypedExpr,
        env: &SymbolicEnvironment,
    ) -> (r: bool)
        ensures
            r == validates_reference(*expr, env@),
    {
        match &expr.node {
            TypedNode::Call { fun, args } => {
                let mut uses_inputs = false;
                let mut uses_output_ref = false;
                let mut i: usize = 0;
                while i < args.len()
                    invariant
                        i <= args.len(),
                        uses_inputs == exists|k: int|
                            0 <= k < i && argument_usage(#[trigger] args@[k], env@).0,
                        uses_output_ref == exists|k: int|
                            0 <= k < i && argument_usage(#[trigger] args@[k], env@).1,
                    decreases args.len() - i,
                {
                    let (arg_inputs, arg_output_ref) = self.check_argument(&args[i], env);
                    uses_inputs = uses_inputs || arg_inputs;
                    uses_output_ref = uses_output_ref || arg_output_ref;
                    proof {
                        assert(argument_usage(args@[i as int], env@) == (arg_inputs, arg_output_ref));
                    }
                    i = i + 1;
                }
                let (fun_inputs, fun_output_ref) = self.check_expr_uses_inputs_and_oref(fun, env);
                (fun_inputs || uses_inputs) && (fun_output_ref || uses_output_ref)
            },
            TypedNode::BinOp { op, left, right } => {
                if let BinOp::Eq = op {
                    let (on_left, on_right) = self.check_output_ref_comparison(left, right, env);
                    if on_left || on_right {
                        return true;
                    }
                }
                let (left_inputs, left_ref) = self.check_expr_uses_inputs_and_oref(left, env);
                let (right_inputs, right_ref) = self.check_expr_uses_inputs_and_oref(right, env);
                (left_inputs && right_ref) || (left_ref && right_inputs)
            },
            _ => false,
        }
    }

    /// What an argument of a call uses.
    fn check_argument(&self, arg: &TypedExpr, env: &SymbolicEnvironment) -> (r: (bool, bool))
        ensures
            r == argument_usage(*arg, env@),
    {
        let (inputs, output_ref) = self.check_expr_uses_inputs_and_oref(arg, env);
        match &arg.node {
            TypedNode::Fn { body } => {
                let (body_inputs, body_ref) = self.check_expr_uses_inputs_and_oref(body, env);
                let compares = match &body.node {
                    TypedNode::BinOp { op, left, right } => {
                        let (on_left, on_right) = self.check_output_ref_comparison(
                            left,
                            right,
                            env,
                        );
                        match op {
                            BinOp::Eq => on_left || on_right,
                            _ => false,
                        }
                    },
                    _ => false,
                };
                (inputs || body_inputs || compares, output_ref || body_ref || compares)
            },
            _ => (inputs, output_ref),
        }
    }

    /// Whether an expression uses the transaction's inputs, and whether it uses the output
    /// reference.
    pub fn check_expr_uses_inputs_and_oref(
        &self,
        expr: &TypedExpr,
        env: &SymbolicEnvironment,
    ) -> (r: (bool, bool))
        ensures
            r == usage(*expr, env@),
        decreases expr,
    {
        match &expr.node {
            TypedNode::Var { name } => match env.lookup(name.as_str()) {
                Some(v) => (v.is_derived_from_inputs(), v.is_derived_from_output_reference()),
                None => (false, false),
            },
            TypedNode::RecordAccess { label, record } => {
                if self.is_input_output_reference_expr(expr) {
                    return (true, true);
                }
                if let TypedNode::Var { name } = &record.node {
                    if holds(env, name, &ValueOrigin::TransactionInputs) {
                        return (true, false);
                    } else if holds(env, name, &ValueOrigin::OutputReference) {
                        return (false, true);
                    }
                }
                self.check_expr_uses_inputs_and_oref(record, env)
            },
            _ => {
                let parts = self.get_child_expressions(expr);
                let mut uses_inputs = false;
                let mut uses_output_ref = false;
                let mut i: usize = 0;
                while i < parts.len()
                    invariant
                        i <= parts.len() == children(*expr).len(),
                        forall|k: int|
                            0 <= k < parts@.len() ==> *(#[trigger] parts@[k]) == children(*expr)[k],
                        uses_inputs == exists|k: int|
                            0 <= k < i && usage(#[trigger] children(*expr)[k], env@).0,
                        uses_output_ref == exists|k: int|
                            0 <= k < i && usage(#[trigger] children(*expr)[k], env@).1,
                    decreases parts.len() - i,
                {
                    proof {
                        lemma_child_is_smaller(*expr, i as int);
                    }
                    let (inputs, output_ref) = self.check_expr_uses_inputs_and_oref(parts[i], env);
                    uses_inputs = uses_inputs || inputs;
                    uses_output_ref = uses_output_ref || output_ref;
                    proof {
                        assert(usage(children(*expr)[i as int], env@) == (inputs, output_ref));
                    }
                    i = i + 1;
                }
                (uses_inputs, uses_output_ref)
            },
        }
    }
}

/// Whether a name stands for a value of a given origin.
fn holds(env: &SymbolicEnvironment, name: &String, origin: &ValueOrigin) -> (r: bool)
    ensures
        r == (lookup(env@.variables, name@) matches Some(v) && v.origin == origin@),
{
    match env.lookup(name.as_str()) {
        Some(v) => v.origin.same(origin),
        None => false,
    }
}

} // verus!
