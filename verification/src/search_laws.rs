//! What the searches look for: checks for duplicate inputs, and inputs found by their output
//! reference.
use crate::ast::{
    branch_exprs, children, clause_exprs, BinOp, IfBranch, TypedClause, TypedExpr, TypedNode,
};
use crate::duplicates::{
    answer, checks, checks_any, checks_branches, checks_clauses, compares_addresses, either,
    has_answer, is_list_search, reads_address, Bodies,
};
use crate::environment::{shows_duplicate_check, EnvironmentView};
use crate::laws::law_guards;
use crate::name_map::lookup;
use crate::references::{
    argument_usage, compares_references, is_output_reference, is_reference_of_variable,
    reference_sides, usage, validates_reference,
};
use crate::text_laws::law_contains_text;
use crate::value::{comes_from, ConditionView, OriginView, ValueView};
use vstd::prelude::*;

verus! {

/// Whether `needle` stands somewhere in a text.
pub open spec fn holds_within(s: Seq<char>, needle: Seq<char>) -> bool {
    exists|front: Seq<char>, rest: Seq<char>| s == #[trigger] (front + needle + rest)
}

/// An expression reads an address exactly if it reads a field in whose name `address` or `addr`
/// stands. Two expressions are compared by address exactly if they are held to be equal, or not
/// to be, and one of them reads an address.
pub proof fn law_address_comparisons(op: BinOp, left: TypedExpr, right: TypedExpr)
    ensures
        left.node matches TypedNode::RecordAccess { label, .. } ==> (reads_address(left) <==>
            holds_within(label@, "address"@) || holds_within(label@, "addr"@)),
        !(left.node is RecordAccess) ==> !reads_address(left),
        op is Eq || op is NotEq ==> (compares_addresses(op, left, right) <==> reads_address(left)
            || reads_address(right)),
        !(op is Eq) && !(op is NotEq) ==> !compares_addresses(op, left, right),
{
    if let TypedNode::RecordAccess { label, .. } = left.node {
        law_contains_text(label@, "address"@);
        law_contains_text(label@, "addr"@);
    }
}

/// A list is searched by `find`, `count` or `index_of` of the module `list`, or of a variable of
/// that name, and by nothing else.
pub proof fn law_list_searches(fun: TypedExpr)
    ensures
        is_list_search(fun) <==> match fun.node {
            TypedNode::ModuleSelect { module_name, label } => module_name@ == "list"@ && (label@
                == "find"@ || label@ == "count"@ || label@ == "index_of"@),
            TypedNode::RecordAccess { label, record } => (record.node matches TypedNode::Var {
                name,
            } && name@ == "list"@) && (label@ == "find"@ || label@ == "count"@ || label@
                == "index_of"@),
            _ => false,
        },
{
}

/// Whether questions are asked one after the other until one is not answered with no: `a` is the
/// first such answer, and no if all are.
pub open spec fn is_first_answer(answers: Seq<Option<bool>>, a: Option<bool>) -> bool {
    ||| a == Some(false) && forall|j: int|
        0 <= j < answers.len() ==> #[trigger] answers[j] == Some(false)
    ||| a != Some(false) && exists|k: int|
        0 <= k < answers.len() && #[trigger] answers[k] == a && forall|j: int|
            0 <= j < k ==> #[trigger] answers[j] == Some(false)
}

/// The answers about some expressions.
pub open spec fn answers_about(bodies: Bodies, exprs: Seq<TypedExpr>, fuel: nat) -> Seq<
    Option<bool>,
> {
    exprs.map_values(|e: TypedExpr| checks(bodies, e, fuel))
}

proof fn lemma_any_is_first(bodies: Bodies, exprs: Seq<TypedExpr>, fuel: nat)
    ensures
        is_first_answer(answers_about(bodies, exprs, fuel), checks_any(bodies, exprs, fuel)),
    decreases exprs.len(),
{
    let answers = answers_about(bodies, exprs, fuel);
    if exprs.len() > 0 {
        let shorter = answers_about(bodies, exprs.drop_last(), fuel);
        lemma_any_is_first(bodies, exprs.drop_last(), fuel);
        assert(answers.drop_last() =~= shorter);
        assert forall|j: int| 0 <= j < shorter.len() implies #[trigger] answers[j]
            == shorter[j] by {}
        let before = checks_any(bodies, exprs.drop_last(), fuel);
        if before != Some(false) {
            let k = choose|k: int|
                0 <= k < shorter.len() && #[trigger] shorter[k] == before && forall|j: int|
                    0 <= j < k ==> #[trigger] shorter[j] == Some(false);
            assert(answers[k] == before);
        } else {
            assert(answers[exprs.len() - 1] == checks(bodies, exprs.last(), fuel));
        }
    }
}

proof fn lemma_any_add(bodies: Bodies, a: Seq<TypedExpr>, b: Seq<TypedExpr>, fuel: nat)
    ensures
        checks_any(bodies, a + b, fuel) == either(
            checks_any(bodies, a, fuel),
            checks_any(bodies, b, fuel),
        ),
    decreases b.len(),
{
    if b.len() == 0 {
        assert(a + b =~= a);
    } else {
        lemma_any_add(bodies, a, b.drop_last(), fuel);
        assert((a + b).drop_last() =~= a + b.drop_last());
        assert((a + b).last() == b.last());
    }
}

proof fn lemma_any_one(bodies: Bodies, e: TypedExpr, fuel: nat)
    ensures
        checks_any(bodies, seq![e], fuel) == checks(bodies, e, fuel),
{
    assert(seq![e].drop_last() =~= Seq::empty());
    assert(checks_any(bodies, seq![e].drop_last(), fuel) == Some(false));
}

proof fn lemma_any_branches(bodies: Bodies, branches: Seq<IfBranch>, fuel: nat)
    ensures
        checks_branches(bodies, branches, fuel) == checks_any(
            bodies,
            branch_exprs(branches),
            fuel,
        ),
    decreases branches.len(),
{
    if branches.len() > 0 {
        let before = branch_exprs(branches.drop_last());
        let last = branches.last();
        lemma_any_branches(bodies, branches.drop_last(), fuel);
        let all = branch_exprs(branches);
        assert(all =~= before + (seq![last.condition] + seq![last.body]));
        lemma_any_add(bodies, before, seq![last.condition] + seq![last.body], fuel);
        lemma_any_add(bodies, seq![last.condition], seq![last.body], fuel);
        lemma_any_one(bodies, last.condition, fuel);
        lemma_any_one(bodies, last.body, fuel);
    }
}

proof fn lemma_any_clauses(bodies: Bodies, clauses: Seq<TypedClause>, fuel: nat)
    ensures
        checks_clauses(bodies, clauses, fuel) == checks_any(bodies, clause_exprs(clauses), fuel),
    decreases clauses.len(),
{
    if clauses.len() > 0 {
        lemma_any_clauses(bodies, clauses.drop_last(), fuel);
        let all = clause_exprs(clauses);
        assert(all.drop_last() =~= clause_exprs(clauses.drop_last()));
        assert(all.last() == clauses.last().body);
        if let Some(guard) = clauses.last().guard {
            law_guards(guard);
        }
    }
}

/// Whether the search goes through all the parts of a form of expression, and through nothing
/// else: not so for calls, whose functions may be looked into, for operators, of which only the
/// comparisons count, and for variables.
pub open spec fn goes_through_parts(node: TypedNode) -> bool {
    ||| node is Sequence
    ||| node is Pipeline
    ||| node is If
    ||| node is List
    ||| node is Assignment
    ||| node is When
}

/// The search for duplicate checks goes through the parts of an expression in order, until one is
/// found or cannot be decided.
pub proof fn law_search_goes_through_parts(bodies: Bodies, expr: TypedExpr, fuel: nat)
    requires
        goes_through_parts(expr.node),
    ensures
        is_first_answer(
            answers_about(bodies, children(expr), fuel),
            checks(bodies, expr, fuel),
        ),
{
    let parts = children(expr);
    lemma_any_is_first(bodies, parts, fuel);
    match expr.node {
        TypedNode::If { branches, final_else } => {
            lemma_any_branches(bodies, branches@, fuel);
            assert(parts =~= branch_exprs(branches@) + seq![*final_else]);
            lemma_any_add(bodies, branch_exprs(branches@), seq![*final_else], fuel);
            lemma_any_one(bodies, *final_else, fuel);
        },
        TypedNode::List { elements, tail } => {
            if let Some(t) = tail {
                assert(parts =~= elements@ + seq![*t]);
                lemma_any_add(bodies, elements@, seq![*t], fuel);
                lemma_any_one(bodies, *t, fuel);
            }
        },
        TypedNode::Assignment { value, .. } => {
            assert(parts =~= seq![*value]);
            lemma_any_one(bodies, *value, fuel);
        },
        TypedNode::When { subject, clauses } => {
            assert(parts =~= seq![*subject] + clause_exprs(clauses@));
            lemma_any_clauses(bodies, clauses@, fuel);
            lemma_any_add(bodies, seq![*subject], clause_exprs(clauses@), fuel);
            lemma_any_one(bodies, *subject, fuel);
        },
        _ => {},
    }
}

/// A call is searched by what it calls and its arguments, in order. Where it searches a list by a
/// function, the body of that function is looked at first.
pub proof fn law_search_in_calls(
    bodies: Bodies,
    expr: TypedExpr,
    fun: TypedExpr,
    args: Seq<TypedExpr>,
    fuel: nat,
)
    requires
        expr.node matches TypedNode::Call { fun: f, args: a } && *f == fun && a@ == args,
    ensures
        is_list_search(fun) && args.len() >= 2 ==> (args[1].node matches TypedNode::Fn { body }
            ==> is_first_answer(
            answers_about(bodies, seq![*body] + (seq![fun] + args), fuel),
            checks(bodies, expr, fuel),
        )),
        !is_list_search(fun) || args.len() < 2 || !(args[1].node is Fn) ==> is_first_answer(
            answers_about(bodies, seq![fun] + args, fuel),
            checks(bodies, expr, fuel),
        ),
{
    lemma_any_add(bodies, seq![fun], args, fuel);
    lemma_any_one(bodies, fun, fuel);
    if args.len() >= 2 {
        if let TypedNode::Fn { body } = args[1].node {
            lemma_any_add(bodies, seq![*body], seq![fun] + args, fuel);
            lemma_any_one(bodies, *body, fuel);
            lemma_any_is_first(bodies, seq![*body] + (seq![fun] + args), fuel);
        }
    }
    lemma_any_is_first(bodies, seq![fun] + args, fuel);
}

/// Of the operators, only the six comparisons are looked at. One that compares addresses checks
/// for duplicate inputs; the others are searched by their two sides.
pub proof fn law_search_in_operators(
    bodies: Bodies,
    expr: TypedExpr,
    op: BinOp,
    left: TypedExpr,
    right: TypedExpr,
    fuel: nat,
)
    requires
        expr.node matches TypedNode::BinOp { op: o, left: l, right: r } && o == op && *l == left
            && *r == right,
    ensures
        op is And || op is Or || op is AddInt || op is SubInt || op is MultInt || op is DivInt || op
            is ModInt ==> checks(bodies, expr, fuel) == Some(false),
        (op is Eq || op is NotEq) && (reads_address(left) || reads_address(right)) ==> checks(
            bodies,
            expr,
            fuel,
        ) == Some(true),
        (op is Eq || op is NotEq) && !reads_address(left) && !reads_address(right)
            ==> is_first_answer(
            answers_about(bodies, seq![left, right], fuel),
            checks(bodies, expr, fuel),
        ),
        op is LtInt || op is LtEqInt || op is GtEqInt || op is GtInt ==> is_first_answer(
            answers_about(bodies, seq![left, right], fuel),
            checks(bodies, expr, fuel),
        ),
{
    assert(seq![left, right] =~= seq![left] + seq![right]);
    lemma_any_add(bodies, seq![left], seq![right], fuel);
    lemma_any_one(bodies, left, fuel);
    lemma_any_one(bodies, right, fuel);
    lemma_any_is_first(bodies, seq![left, right], fuel);
}

/// A variable that names a function is searched by the function's body, as long as names may
/// still be followed; without that it cannot be decided. No other variable, and no expression of
/// a form that is not looked into, checks for duplicate inputs.
pub proof fn law_search_in_names(bodies: Bodies, expr: TypedExpr, fuel: nat)
    ensures
        expr.node matches TypedNode::Var { name } ==> match lookup(bodies, name@) {
            Some(body) => {
                &&& fuel > 0 ==> checks(bodies, expr, fuel) == checks(
                    bodies,
                    body,
                    (fuel - 1) as nat,
                )
                &&& fuel == 0 ==> checks(bodies, expr, fuel) is None
            },
            None => checks(bodies, expr, fuel) == Some(false),
        },
        expr.node is ModuleSelect || expr.node is RecordAccess || expr.node is Fn || expr.node
            is UnOp || expr.node is Tuple || expr.node is RecordUpdate || expr.node is Trace
            || expr.node is TupleIndex || expr.node is Other ==> checks(bodies, expr, fuel)
            == Some(false),
{
}

/// The answer about an expression is the one that comes out when enough names are followed.
pub proof fn law_answer(bodies: Bodies, expr: TypedExpr, fuel: nat, found: bool)
    requires
        checks(bodies, expr, fuel) == Some(found),
    ensures
        has_answer(bodies, expr),
        answer(bodies, expr) == found,
{
    crate::duplicates::law_one_answer(bodies, expr, fuel);
}

/// A value comes from an origin exactly if it is of that origin or is derived from it.
pub proof fn law_derivation(value: ValueView, origin: OriginView)
    ensures
        comes_from(value, origin) <==> value.origin == origin || exists|i: int|
            0 <= i < value.derived_from.len() && #[trigger] value.derived_from[i] == origin,
{
}

/// Of the conditions, only a count of the transaction's inputs by an address shows a check for
/// duplicates. No comparison is taken for one, on its own or inside an assertion.
pub proof fn law_conditions_that_show_a_check(c: ConditionView)
    ensures
        c matches ConditionView::ListOperation { operation, list, predicate, .. } ==> (
        shows_duplicate_check(c) <==> operation == "count"@ && comes_from(
            list,
            OriginView::TransactionInputs,
        ) && (predicate matches Some(p) && p.is_address_comparison)),
        !(c is ListOperation) ==> !shows_duplicate_check(c),
{
}

/// Whether an expression is a variable that holds something of an origin.
pub open spec fn is_variable_of(
    expr: TypedExpr,
    env: EnvironmentView,
    origin: OriginView,
) -> bool {
    expr.node matches TypedNode::Var { name } && (lookup(env.variables, name@) matches Some(v)
        && v.origin == origin)
}

/// Whether an expression is the variable by which the script context is known.
pub open spec fn is_context(expr: TypedExpr, env: EnvironmentView) -> bool {
    expr.node matches TypedNode::Var { name } && env.script_context_name == Some(name@)
}

/// The output reference of the purpose is a variable that holds it, or the field
/// `output_reference` of a variable that holds the purpose, or of the field `purpose` of the
/// script context; nothing else is.
pub proof fn law_output_references(expr: TypedExpr, env: EnvironmentView)
    ensures
        expr.node is Var ==> (is_output_reference(expr, env) <==> is_variable_of(
            expr,
            env,
            OriginView::OutputReference,
        )),
        expr.node matches TypedNode::RecordAccess { label, record } ==> (is_output_reference(
            expr,
            env,
        ) <==> label@ == "output_reference"@ && (is_variable_of(*record, env, OriginView::Purpose)
            || (record.node matches TypedNode::RecordAccess { label: inner, record: context }
            && inner@ == "purpose"@ && is_context(*context, env)))),
        !(expr.node is Var) && !(expr.node is RecordAccess) ==> !is_output_reference(expr, env),
{
}

/// The output reference of an input is the field `output_reference` of a variable.
pub proof fn law_references_of_inputs(expr: TypedExpr)
    ensures
        is_reference_of_variable(expr) <==> (expr.node matches TypedNode::RecordAccess {
            label,
            record,
        } && label@ == "output_reference"@ && record.node is Var),
{
}

/// References are compared exactly where the output reference of the purpose is held to be equal
/// to that of an input, on whichever side it stands.
pub proof fn law_reference_comparisons(expr: TypedExpr, env: EnvironmentView)
    ensures
        compares_references(expr, env) <==> (expr.node matches TypedNode::BinOp { op, left, right }
            && op is Eq && ((is_output_reference(*left, env) && is_reference_of_variable(*right))
            || (is_output_reference(*right, env) && is_reference_of_variable(*left)))),
{
}

/// Of two sides that are compared, the first is told to be the output reference of the purpose
/// exactly if the left one is and the right one is that of an input, and the second exactly if it
/// is the other way round.
pub proof fn law_sides_of_comparisons(left: TypedExpr, right: TypedExpr, env: EnvironmentView)
    ensures
        reference_sides(left, right, env).0 <==> is_output_reference(left, env)
            && is_reference_of_variable(right),
        reference_sides(left, right, env).1 <==> is_output_reference(right, env)
            && is_reference_of_variable(left),
{
}

/// What an expression uses. A variable uses the inputs, or the output reference, if its value
/// comes from them. A field of a variable uses both if it is an output reference, and one of them
/// if the variable holds it; any other field uses what its record uses. Every other expression
/// uses what one of its parts uses.
pub proof fn law_usage(expr: TypedExpr, env: EnvironmentView)
    ensures
        expr.node matches TypedNode::Var { name } ==> match lookup(env.variables, name@) {
            Some(v) => {
                &&& usage(expr, env).0 <==> comes_from(v, OriginView::TransactionInputs)
                &&& usage(expr, env).1 <==> comes_from(v, OriginView::OutputReference)
            },
            None => !usage(expr, env).0 && !usage(expr, env).1,
        },
        expr.node matches TypedNode::RecordAccess { label, record } ==> {
            let inputs = is_variable_of(*record, env, OriginView::TransactionInputs);
            let reference = is_variable_of(*record, env, OriginView::OutputReference);
            let named = label@ == "output_reference"@ && record.node is Var;
            &&& named ==> usage(expr, env).0 && usage(expr, env).1
            &&& !named && inputs ==> usage(expr, env).0 && !usage(expr, env).1
            &&& !named && reference ==> !usage(expr, env).0 && usage(expr, env).1
            &&& !named && !inputs && !reference ==> usage(expr, env) == usage(*record, env)
        },
        !(expr.node is Var) && !(expr.node is RecordAccess) ==> {
            &&& usage(expr, env).0 <==> exists|i: int|
                0 <= i < children(expr).len() && usage(#[trigger] children(expr)[i], env).0
            &&& usage(expr, env).1 <==> exists|i: int|
                0 <= i < children(expr).len() && usage(#[trigger] children(expr)[i], env).1
        },
{
}

/// An argument of a call uses what it uses as an expression. A function given as an argument also
/// uses both the inputs and the output reference if its body compares references.
pub proof fn law_argument_usage(arg: TypedExpr, env: EnvironmentView)
    ensures
        !(arg.node is Fn) ==> argument_usage(arg, env) == usage(arg, env),
        arg.node matches TypedNode::Fn { body } ==> {
            let compares = compares_references(*body, env);
            &&& argument_usage(arg, env).0 <==> usage(*body, env).0 || compares
            &&& argument_usage(arg, env).1 <==> usage(*body, env).1 || compares
        },
{
    if let TypedNode::Fn { body } = arg.node {
        assert(children(arg) =~= seq![*body]);
        assert(children(arg)[0] == *body);
        assert(usage(arg, env).0 <==> usage(*body, env).0);
        assert(usage(arg, env).1 <==> usage(*body, env).1);
    }
}

/// Inputs are held against the output reference by a call that uses both, in what it calls or in
/// its arguments, and by an operator that compares references or has the inputs on one side and
/// the output reference on the other; by nothing else.
pub proof fn law_reference_validation(expr: TypedExpr, env: EnvironmentView)
    ensures
        expr.node matches TypedNode::Call { fun, args } ==> (validates_reference(expr, env) <==> (
        usage(*fun, env).0 || exists|i: int|
            0 <= i < args@.len() && argument_usage(#[trigger] args@[i], env).0) && (usage(*fun, env).1
            || exists|i: int|
            0 <= i < args@.len() && argument_usage(#[trigger] args@[i], env).1)),
        expr.node matches TypedNode::BinOp { op, left, right } ==> (validates_reference(expr, env)
            <==> compares_references(expr, env) || (usage(*left, env).0 && usage(*right, env).1)
            || (usage(*left, env).1 && usage(*right, env).0)),
        !(expr.node is Call) && !(expr.node is BinOp) ==> !validates_reference(expr, env),
{
}

} // verus!
