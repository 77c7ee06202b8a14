//! What execution is for: which expressions are executed, and what is tracked through them.
use crate::ast::{
    children, lemma_branch_exprs, lemma_branch_exprs_len, BinOp, TypedExpr, TypedNode,
};
use crate::environment::EnvironmentView;
use crate::semantics::{
    at_top, blank_result, execute, execute_at, execute_children, lemma_levels,
    lemma_levels_children, lemma_merged_all, merged_all, ResultView, Table,
};
use crate::value::{FindingView, OriginView, SecurityPatternKind};
use vstd::prelude::*;

verus! {

/// Every expression that a form of node holds is among its parts, in the order in which they
/// stand, and nothing else is.
pub proof fn law_every_expression_of_a_node_is_a_part(expr: TypedExpr)
    ensures
        expr.node matches TypedNode::BinOp { left, right, .. } ==> children(expr) == seq![
            *left,
            *right,
        ],
        expr.node matches TypedNode::UnOp { value } ==> children(expr) == seq![*value],
        expr.node matches TypedNode::Trace { text, continuation } ==> children(expr) == seq![
            *text,
            *continuation,
        ],
        expr.node matches TypedNode::TupleIndex { tuple } ==> children(expr) == seq![*tuple],
        expr.node matches TypedNode::Fn { body } ==> children(expr) == seq![*body],
        expr.node matches TypedNode::RecordAccess { record, .. } ==> children(expr) == seq![
            *record,
        ],
        expr.node matches TypedNode::Assignment { value, .. } ==> children(expr) == seq![*value],
        expr.node matches TypedNode::Sequence { expressions } ==> children(expr) == expressions@,
        expr.node matches TypedNode::Pipeline { expressions } ==> children(expr) == expressions@,
        expr.node matches TypedNode::Tuple { elems } ==> children(expr) == elems@,
        expr.node matches TypedNode::List { elements, tail } ==> {
            &&& tail matches Some(t) ==> children(expr) == elements@.push(*t)
            &&& tail is None ==> children(expr) == elements@
        },
        expr.node matches TypedNode::Call { fun, args } ==> children(expr) == seq![*fun] + args@,
        expr.node matches TypedNode::RecordUpdate { spread, args } ==> children(expr) == seq![
            *spread,
        ] + args@,
        expr.node matches TypedNode::When { subject, clauses } ==> {
            &&& children(expr).len() == clauses@.len() + 1
            &&& children(expr)[0] == *subject
            &&& forall|i: int|
                0 <= i < clauses@.len() ==> children(expr)[i + 1] == (#[trigger] clauses@[i]).body
        },
        expr.node matches TypedNode::If { branches, final_else } ==> {
            &&& children(expr).len() == 2 * branches@.len() + 1
            &&& children(expr).last() == *final_else
            &&& forall|i: int|
                0 <= i < branches@.len() ==> {
                    &&& children(expr)[2 * i] == (#[trigger] branches@[i]).condition
                    &&& children(expr)[2 * i + 1] == branches@[i].body
                }
        },
{
    if let TypedNode::If { branches, final_else } = expr.node {
        lemma_branch_exprs_len(branches@);
        assert forall|i: int| 0 <= i < branches@.len() implies {
            &&& children(expr)[2 * i] == (#[trigger] branches@[i]).condition
            &&& children(expr)[2 * i + 1] == branches@[i].body
        } by {
            lemma_branch_exprs(branches@, 2 * i);
            lemma_branch_exprs(branches@, 2 * i + 1);
            assert((2 * i) / 2 == i && (2 * i + 1) / 2 == i);
        }
    }
}

/// Whether `whole` is what is learned from `first` and then from `second`: it ends with the value
/// and the environment of `second`, and shows what both show.
pub open spec fn joins(whole: ResultView, first: ResultView, second: ResultView) -> bool {
    &&& whole.value == second.value
    &&& whole.environment == second.environment
    &&& whole.findings == first.findings + second.findings
    &&& forall|o: OriginView|
        #[trigger] whole.uses.contains(o) <==> first.uses.contains(o) || second.uses.contains(o)
    &&& whole.uses_purpose <==> first.uses_purpose || second.uses_purpose
    &&& whole.uses_inputs <==> first.uses_inputs || second.uses_inputs
}

/// Whether two results show the same, but for the place at which they stand.
pub open spec fn agrees(a: ResultView, b: ResultView) -> bool {
    &&& a.value == b.value
    &&& a.environment == b.environment
    &&& a.findings == b.findings
    &&& forall|o: OriginView| #[trigger] a.uses.contains(o) <==> b.uses.contains(o)
    &&& a.uses_purpose == b.uses_purpose
    &&& a.uses_inputs == b.uses_inputs
}

/// Whether a form of node is executed part by part.
pub open spec fn runs_its_parts(node: TypedNode) -> bool {
    ||| node is UnOp
    ||| node is If
    ||| node is Sequence
    ||| node is Pipeline
    ||| node is List
    ||| node is Tuple
    ||| node is RecordUpdate
    ||| node is Trace
    ||| node is TupleIndex
}

proof fn lemma_same_children(
    table: Table,
    a: TypedExpr,
    b: TypedExpr,
    n: nat,
    env: EnvironmentView,
    top: bool,
)
    requires
        n <= children(a).len(),
        n <= children(b).len(),
        forall|i: int| 0 <= i < n ==> #[trigger] children(a)[i] == children(b)[i],
    ensures
        execute_children(table, a, n, env, top) == execute_children(table, b, n, env, top),
    decreases n,
{
    if n > 0 {
        lemma_same_children(table, a, b, (n - 1) as nat, env, top);
        assert(children(a)[n - 1] == children(b)[n - 1]);
    }
}

proof fn lemma_merged_same(a: ResultView, b: ResultView, results: Seq<ResultView>)
    requires
        a.environment == b.environment,
        a.findings == b.findings,
        a.uses == b.uses,
        a.uses_purpose == b.uses_purpose,
        a.uses_inputs == b.uses_inputs,
    ensures
        ({
            let x = merged_all(a, results);
            let y = merged_all(b, results);
            &&& results.len() > 0 ==> x.value == y.value
            &&& x.environment == y.environment
            &&& x.findings == y.findings
            &&& x.uses == y.uses
            &&& x.uses_purpose == y.uses_purpose
            &&& x.uses_inputs == y.uses_inputs
        }),
    decreases results.len(),
{
    if results.len() > 0 {
        lemma_merged_same(a, b, results.drop_last());
    }
}

/// One more part at the end of what is executed part by part.
proof fn lemma_one_more_part(
    table: Table,
    shorter: TypedExpr,
    longer: TypedExpr,
    last: TypedExpr,
    env: EnvironmentView,
)
    requires
        runs_its_parts(shorter.node),
        runs_its_parts(longer.node),
        children(longer) == children(shorter).push(last),
    ensures
        joins(
            execute(table, longer, env),
            execute(table, shorter, env),
            execute(table, last, execute(table, shorter, env).environment),
        ),
{
    let top = at_top(env);
    let n = children(shorter).len();
    lemma_same_children(table, shorter, longer, n, env, top);
    lemma_levels_children(table, shorter, n, env, top);
    lemma_levels(table, shorter, env, top);
    let before = execute_children(table, shorter, n, env, top);
    let all = execute_children(table, longer, n + 1, env, top);
    assert(all.drop_last() =~= before);
    lemma_merged_all(blank_result(shorter, env), before);
    lemma_merged_same(blank_result(shorter, env), blank_result(longer, env), before);
}

/// What has one part is executed as that part is.
proof fn lemma_only_part(table: Table, expr: TypedExpr, part: TypedExpr, env: EnvironmentView)
    requires
        runs_its_parts(expr.node),
        children(expr) == seq![part],
    ensures
        agrees(execute(table, expr, env), execute(table, part, env)),
{
    let top = at_top(env);
    reveal_with_fuel(execute_children, 2);
    reveal_with_fuel(merged_all, 2);
    let all = execute_children(table, expr, 1, env, top);
    assert(all.drop_last() =~= Seq::empty());
    assert(all.len() == 1);
    assert(all.last() == execute_at(table, part, env, top));
    assert(Seq::<FindingView>::empty() + all.last().findings =~= all.last().findings);
}

/// The code after a trace is executed in the environment that the message leaves, and its
/// outcome is the outcome of the whole: all that it finds, uses and binds shows.
pub proof fn law_code_after_a_trace_is_executed(
    table: Table,
    expr: TypedExpr,
    text: TypedExpr,
    continuation: TypedExpr,
    env: EnvironmentView,
)
    requires
        expr.node matches TypedNode::Trace { text: t, continuation: c } && *t == text && *c
            == continuation,
    ensures
        joins(
            execute(table, expr, env),
            execute(table, text, env),
            execute(table, continuation, execute(table, text, env).environment),
        ),
{
    let top = at_top(env);
    lemma_levels(table, text, env, top);
    reveal_with_fuel(execute_children, 3);
    reveal_with_fuel(merged_all, 3);
    let all = execute_children(table, expr, 2, env, top);
    assert(all.drop_last() =~= seq![execute_at(table, text, env, top)]);
    assert(all.drop_last().drop_last() =~= Seq::empty());
    assert(Seq::<FindingView>::empty() + execute_at(table, text, env, top).findings =~= execute_at(
        table,
        text,
        env,
        top,
    ).findings);
}

/// A sequence, a pipeline, a tuple or a list with one more expression at its end is learned from
/// as the shorter one is, and then from that expression, in the environment after the shorter
/// one.
pub proof fn law_one_more_expression(
    table: Table,
    shorter: TypedExpr,
    longer: TypedExpr,
    last: TypedExpr,
    env: EnvironmentView,
)
    requires
        one_more(shorter.node, longer.node, last),
    ensures
        joins(
            execute(table, longer, env),
            execute(table, shorter, env),
            execute(table, last, execute(table, shorter, env).environment),
        ),
{
    assert(children(longer) =~= children(shorter).push(last));
    lemma_one_more_part(table, shorter, longer, last, env);
}

/// Whether `longer` has all that `shorter` has, and `last` behind it.
pub open spec fn one_more(shorter: TypedNode, longer: TypedNode, last: TypedExpr) -> bool {
    match (shorter, longer) {
        (TypedNode::Sequence { expressions: a }, TypedNode::Sequence { expressions: b }) => b@
            == a@.push(last),
        (TypedNode::Pipeline { expressions: a }, TypedNode::Pipeline { expressions: b }) => b@
            == a@.push(last),
        (TypedNode::Tuple { elems: a }, TypedNode::Tuple { elems: b }) => b@ == a@.push(last),
        (TypedNode::List { elements: a, tail: s }, TypedNode::List { elements: b, tail: t }) => {
            ||| s is None && t is None && b@ == a@.push(last)
            ||| s is None && a@ == b@ && (t matches Some(x) && *x == last)
        },
        (
            TypedNode::RecordUpdate { spread: p, args: a },
            TypedNode::RecordUpdate { spread: q, args: b },
        ) => *p == *q && b@ == a@.push(last),
        _ => false,
    }
}

/// What holds no expressions teaches nothing.
pub proof fn law_nothing_is_learned_from_nothing(
    table: Table,
    expr: TypedExpr,
    env: EnvironmentView,
)
    requires
        holds_nothing(expr.node),
    ensures
        ({
            let r = execute(table, expr, env);
            &&& r.value.origin is Unknown
            &&& r.value.value_type == expr.tipo@
            &&& r.value.derived_from.len() == 0
            &&& !r.value.is_address_comparison
            &&& r.environment == env
            &&& r.findings.len() == 0
            &&& forall|o: OriginView| !#[trigger] r.uses.contains(o)
            &&& !r.uses_purpose
            &&& !r.uses_inputs
        }),
{
    assert(children(expr).len() == 0);
    assert(execute_children(table, expr, 0, env, at_top(env)).len() == 0);
}

/// Whether a node holds no expressions and is no variable.
pub open spec fn holds_nothing(node: TypedNode) -> bool {
    match node {
        TypedNode::Sequence { expressions } => expressions@.len() == 0,
        TypedNode::Pipeline { expressions } => expressions@.len() == 0,
        TypedNode::Tuple { elems } => elems@.len() == 0,
        TypedNode::List { elements, tail } => elements@.len() == 0 && tail is None,
        TypedNode::ModuleSelect { .. } => true,
        TypedNode::Other => true,
        _ => false,
    }
}

/// An expression around one other is executed as that other is. A record update without fields
/// is executed as what it spreads.
pub proof fn law_wrapped_expressions_are_executed(
    table: Table,
    expr: TypedExpr,
    inner: TypedExpr,
    env: EnvironmentView,
)
    requires
        wraps(expr.node, inner),
    ensures
        agrees(execute(table, expr, env), execute(table, inner, env)),
{
    assert(children(expr) =~= seq![inner]);
    lemma_only_part(table, expr, inner, env);
}

/// Whether `inner` is all that a node holds.
pub open spec fn wraps(node: TypedNode, inner: TypedExpr) -> bool {
    match node {
        TypedNode::UnOp { value } => *value == inner,
        TypedNode::TupleIndex { tuple } => *tuple == inner,
        TypedNode::RecordUpdate { spread, args } => *spread == inner && args@.len() == 0,
        _ => false,
    }
}

/// An `if` is executed as the sequence of its conditions, bodies and last alternative, in the
/// order in which they stand.
pub proof fn law_all_branches_are_executed(
    table: Table,
    expr: TypedExpr,
    sequence: TypedExpr,
    env: EnvironmentView,
)
    requires
        lists_branches(expr.node, sequence.node),
    ensures
        agrees(execute(table, expr, env), execute(table, sequence, env)),
{
    law_every_expression_of_a_node_is_a_part(expr);
    if let (TypedNode::If { branches, .. }, TypedNode::Sequence { expressions }) = (
        expr.node,
        sequence.node,
    ) {
        assert forall|i: int| 0 <= i < children(expr).len() implies #[trigger] children(expr)[i]
            == expressions@[i] by {
            let k = i / 2;
            if k < branches@.len() {
                assert(children(expr)[2 * k] == branches@[k].condition);
                assert(i == 2 * k || i == 2 * k + 1);
            }
        }
        let n = expressions@.len();
        lemma_same_children(table, expr, sequence, n, env, at_top(env));
        lemma_levels_children(table, sequence, n, env, at_top(env));
        lemma_merged_same(
            blank_result(expr, env),
            blank_result(sequence, env),
            execute_children(table, sequence, n, env, at_top(env)),
        );
    }
}

/// Whether the second node is the sequence of all that the first node, an `if`, holds.
pub open spec fn lists_branches(node: TypedNode, sequence: TypedNode) -> bool {
    match (node, sequence) {
        (TypedNode::If { branches, final_else }, TypedNode::Sequence { expressions }) => {
            &&& expressions@.len() == 2 * branches@.len() + 1
            &&& expressions@.last() == *final_else
            &&& forall|i: int|
                0 <= i < branches@.len() ==> {
                    &&& expressions@[2 * i] == (#[trigger] branches@[i]).condition
                    &&& expressions@[2 * i + 1] == branches@[i].body
                }
        },
        _ => false,
    }
}

/// A function literal shows what its body shows, and leaves the environment as it was.
pub proof fn law_function_literals_are_executed(
    table: Table,
    expr: TypedExpr,
    body: TypedExpr,
    env: EnvironmentView,
)
    requires
        expr.node matches TypedNode::Fn { body: b } && *b == body,
    ensures
        ({
            let r = execute(table, expr, env);
            let inner = execute(table, body, env);
            &&& r.environment == env
            &&& r.value == inner.value
            &&& r.findings == inner.findings
            &&& r.uses == inner.uses
            &&& r.uses_purpose == inner.uses_purpose
            &&& r.uses_inputs == inner.uses_inputs
        }),
{
}

/// Both sides of an operator are executed in the environment before it; the right one is its
/// outcome. A count of tokens on either side is found, at the place of the operator, behind what
/// the sides show, for each of the six operators that compare; the other seven add nothing.
pub proof fn law_operators(
    table: Table,
    expr: TypedExpr,
    op: BinOp,
    left: TypedExpr,
    right: TypedExpr,
    env: EnvironmentView,
)
    requires
        expr.node matches TypedNode::BinOp { op: o, left: l, right: r } && o == op && *l == left
            && *r == right,
    ensures
        ({
            let whole = execute(table, expr, env);
            let a = execute(table, left, env);
            let b = execute(table, right, env);
            let counts = a.value.origin is TokenCount || b.value.origin is TokenCount;
            let found = FindingView {
                kind: SecurityPatternKind::InputTokenCountComparison,
                confidence: 80,
                location: expr.location,
                description: "Token count comparison detected"@,
            };
            let sides = a.findings + b.findings;
            &&& op is Eq ==> whole.findings == if counts { sides.push(found) } else { sides }
            &&& op is NotEq ==> whole.findings == if counts { sides.push(found) } else { sides }
            &&& op is LtInt ==> whole.findings == if counts { sides.push(found) } else { sides }
            &&& op is LtEqInt ==> whole.findings == if counts { sides.push(found) } else { sides }
            &&& op is GtEqInt ==> whole.findings == if counts { sides.push(found) } else { sides }
            &&& op is GtInt ==> whole.findings == if counts { sides.push(found) } else { sides }
            &&& op is And ==> whole.findings == sides
            &&& op is Or ==> whole.findings == sides
            &&& op is AddInt ==> whole.findings == sides
            &&& op is SubInt ==> whole.findings == sides
            &&& op is MultInt ==> whole.findings == sides
            &&& op is DivInt ==> whole.findings == sides
            &&& op is ModInt ==> whole.findings == sides
            &&& whole.value == b.value
            &&& whole.environment == b.environment
            &&& forall|o: OriginView|
                #[trigger] whole.uses.contains(o) <==> a.uses.contains(o) || b.uses.contains(o)
            &&& whole.uses_purpose <==> a.uses_purpose || b.uses_purpose
            &&& whole.uses_inputs <==> a.uses_inputs || b.uses_inputs
        }),
{
    let a = execute(table, left, env);
    let b = execute(table, right, env);
    let sides = a.findings + b.findings;
    assert(sides + Seq::<FindingView>::empty() =~= sides);
    assert forall|f: FindingView| sides + seq![f] =~= #[trigger] sides.push(f) by {}
}

} // verus!
