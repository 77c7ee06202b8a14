//! The search for code that checks the transaction's inputs for duplicates.
use crate::analyzer::AstAnalyzer;
use crate::ast::{is_comparison, BinOp, IfBranch, TypedClause, TypedExpr, TypedNode};
use crate::name_map::{lemma_position, lemma_position_by_names, lookup};
use crate::semantics::guard_checks_duplicates;
use crate::text::{contains, contains_text, same_text};
use vstd::prelude::*;
use vstd::string::*;

verus! {

/// The bodies of the functions, by the functions' bare names.
pub type Bodies = Seq<(Seq<char>, TypedExpr)>;

/// Whether an expression reads a field that holds an address.
pub open spec fn reads_address(expr: TypedExpr) -> bool {
    match expr.node {
        TypedNode::RecordAccess { label, .. } => contains_text(label@, "address"@) || contains_text(
            label@,
            "addr"@,
        ),
        _ => false,
    }
}

/// Whether an operator compares addresses.
pub open spec fn compares_addresses(op: BinOp, left: TypedExpr, right: TypedExpr) -> bool {
    (op is Eq || op is NotEq) && (reads_address(left) || reads_address(right))
}

/// Whether `label` is a list function that searches a list.
pub open spec fn searches_list(label: Seq<char>) -> bool {
    label == "find"@ || label == "count"@ || label == "index_of"@
}

/// Whether `fun` is a list function that searches a list.
pub open spec fn is_list_search(fun: TypedExpr) -> bool {
    match fun.node {
        TypedNode::ModuleSelect { module_name, label } => module_name@ == "list"@ && searches_list(
            label@,
        ),
        TypedNode::RecordAccess { label, record } => match record.node {
            TypedNode::Var { name } => name@ == "list"@ && searches_list(label@),
            _ => false,
        },
        _ => false,
    }
}

/// The answer of two questions asked one after the other: the second is asked only if the
/// answer to the first is no. `None` stands for a question without an answer.
pub open spec fn either(first: Option<bool>, second: Option<bool>) -> Option<bool> {
    match first {
        Some(false) => second,
        _ => first,
    }
}

/// Whether `expr` checks for duplicate inputs, where at most `fuel` names of functions are
/// followed one inside the other. `None`: more names would have to be followed.
pub open spec fn checks(bodies: Bodies, expr: TypedExpr, fuel: nat) -> Option<bool>
    decreases fuel, expr,
{
    match expr.node {
        TypedNode::Call { fun, args } => {
            let search = if is_list_search(*fun) && args@.len() >= 2 {
                match args@[1].node {
                    TypedNode::Fn { body } => checks(bodies, *body, fuel),
                    _ => Some(false),
                }
            } else {
                Some(false)
            };
            either(search, either(checks(bodies, *fun, fuel), checks_any(bodies, args@, fuel)))
        },
        TypedNode::BinOp { op, left, right } => {
            if !is_comparison(op) {
                Some(false)
            } else if compares_addresses(op, *left, *right) {
                Some(true)
            } else {
                either(checks(bodies, *left, fuel), checks(bodies, *right, fuel))
            }
        },
        TypedNode::Sequence { expressions } => checks_any(bodies, expressions@, fuel),
        TypedNode::Pipeline { expressions } => checks_any(bodies, expressions@, fuel),
        TypedNode::If { branches, final_else } => either(
            checks_branches(bodies, branches@, fuel),
            checks(bodies, *final_else, fuel),
        ),
        TypedNode::Var { name } => match lookup(bodies, name@) {
            Some(body) => if fuel == 0 {
                None
            } else {
                checks(bodies, body, (fuel - 1) as nat)
            },
            None => Some(false),
        },
        TypedNode::List { elements, tail } => either(
            checks_any(bodies, elements@, fuel),
            match tail {
                Some(t) => checks(bodies, *t, fuel),
                None => Some(false),
            },
        ),
        TypedNode::Assignment { value, .. } => checks(bodies, *value, fuel),
        TypedNode::When { subject, clauses } => either(
            checks(bodies, *subject, fuel),
            checks_clauses(bodies, clauses@, fuel),
        ),
        _ => Some(false),
    }
}

/// Whether one of `exprs` checks for duplicate inputs.
pub open spec fn checks_any(bodies: Bodies, exprs: Seq<TypedExpr>, fuel: nat) -> Option<bool>
    decreases fuel, exprs,
{
    if exprs.len() == 0 {
        Some(false)
    } else {
        either(checks_any(bodies, exprs.drop_last(), fuel), checks(bodies, exprs.last(), fuel))
    }
}

/// Whether a condition or a body among `branches` checks for duplicate inputs.
pub open spec fn checks_branches(bodies: Bodies, branches: Seq<IfBranch>, fuel: nat) -> Option<bool>
    decreases fuel, branches,
{
    if branches.len() == 0 {
        Some(false)
    } else {
        either(
            checks_branches(bodies, branches.drop_last(), fuel),
            either(
                checks(bodies, branches.last().condition, fuel),
                checks(bodies, branches.last().body, fuel),
            ),
        )
    }
}

/// Whether the guard of a clause checks for duplicate inputs.
pub open spec fn guarded_check(clause: TypedClause) -> bool {
    match clause.guard {
        Some(guard) => guard_checks_duplicates(guard),
        None => false,
    }
}

/// Whether a guard or a body among `clauses` checks for duplicate inputs.
pub open spec fn checks_clauses(bodies: Bodies, clauses: Seq<TypedClause>, fuel: nat) -> Option<bool>
    decreases fuel, clauses,
{
    if clauses.len() == 0 {
        Some(false)
    } else {
        either(
            checks_clauses(bodies, clauses.drop_last(), fuel),
            either(
                Some(guarded_check(clauses.last())),
                checks(bodies, clauses.last().body, fuel),
            ),
        )
    }
}

/// Whether the question about `expr` has an answer: following the names of functions comes
/// to an end.
pub open spec fn has_answer(bodies: Bodies, expr: TypedExpr) -> bool {
    exists|fuel: nat| (#[trigger] checks(bodies, expr, fuel)) is Some
}

/// The answer to the question about `expr`.
pub open spec fn answer(bodies: Bodies, expr: TypedExpr) -> bool {
    let fuel = choose|fuel: nat| (#[trigger] checks(bodies, expr, fuel)) is Some;
    checks(bodies, expr, fuel) == Some(true)
}

/// An answer stays the same if more names may be followed.
pub proof fn law_more_fuel(bodies: Bodies, expr: TypedExpr, fuel: nat, more: nat)
    requires
        fuel <= more,
        checks(bodies, expr, fuel) is Some,
    ensures
        checks(bodies, expr, more) == checks(bodies, expr, fuel),
    decreases fuel, expr,
{
    match expr.node {
        TypedNode::Call { fun, args } => {
            if is_list_search(*fun) && args@.len() >= 2 {
                if let TypedNode::Fn { body } = args@[1].node {
                    law_more_fuel(bodies, *body, fuel, more);
                }
            }
            if checks(bodies, *fun, fuel) is Some {
                law_more_fuel(bodies, *fun, fuel, more);
            }
            if checks_any(bodies, args@, fuel) is Some {
                lemma_more_fuel_any(bodies, args@, fuel, more);
            }
        },
        TypedNode::BinOp { op, left, right } => {
            if checks(bodies, *left, fuel) is Some {
                law_more_fuel(bodies, *left, fuel, more);
            }
            if checks(bodies, *right, fuel) is Some {
                law_more_fuel(bodies, *right, fuel, more);
            }
        },
        TypedNode::Sequence { expressions } => {
            lemma_more_fuel_any(bodies, expressions@, fuel, more);
        },
        TypedNode::Pipeline { expressions } => {
            lemma_more_fuel_any(bodies, expressions@, fuel, more);
        },
        TypedNode::If { branches, final_else } => {
            if checks_branches(bodies, branches@, fuel) is Some {
                lemma_more_fuel_branches(bodies, branches@, fuel, more);
            }
            if checks(bodies, *final_else, fuel) is Some {
                law_more_fuel(bodies, *final_else, fuel, more);
            }
        },
        TypedNode::Var { name } => {
            if let Some(body) = lookup(bodies, name@) {
                law_more_fuel(bodies, body, (fuel - 1) as nat, (more - 1) as nat);
            }
        },
        TypedNode::List { elements, tail } => {
            if checks_any(bodies, elements@, fuel) is Some {
                lemma_more_fuel_any(bodies, elements@, fuel, more);
            }
            if let Some(t) = tail {
                if checks(bodies, *t, fuel) is Some {
                    law_more_fuel(bodies, *t, fuel, more);
                }
            }
        },
        TypedNode::Assignment { value, .. } => {
            law_more_fuel(bodies, *value, fuel, more);
        },
        TypedNode::When { subject, clauses } => {
            law_more_fuel(bodies, *subject, fuel, more);
            if checks_clauses(bodies, clauses@, fuel) is Some {
                lemma_more_fuel_clauses(bodies, clauses@, fuel, more);
            }
        },
        _ => {},
    }
}

proof fn lemma_more_fuel_any(bodies: Bodies, exprs: Seq<TypedExpr>, fuel: nat, more: nat)
    requires
        fuel <= more,
        checks_any(bodies, exprs, fuel) is Some,
    ensures
        checks_any(bodies, exprs, more) == checks_any(bodies, exprs, fuel),
    decreases fuel, exprs,
{
    if exprs.len() > 0 {
        lemma_more_fuel_any(bodies, exprs.drop_last(), fuel, more);
        if checks(bodies, exprs.last(), fuel) is Some {
            law_more_fuel(bodies, exprs.last(), fuel, more);
        }
    }
}

proof fn lemma_more_fuel_branches(bodies: Bodies, branches: Seq<IfBranch>, fuel: nat, more: nat)
    requires
        fuel <= more,
        checks_branches(bodies, branches, fuel) is Some,
    ensures
        checks_branches(bodies, branches, more) == checks_branches(bodies, branches, fuel),
    decreases fuel, branches,
{
    if branches.len() > 0 {
        lemma_more_fuel_branches(bodies, branches.drop_last(), fuel, more);
        if checks(bodies, branches.last().condition, fuel) is Some {
            law_more_fuel(bodies, branches.last().condition, fuel, more);
        }
        if checks(bodies, branches.last().body, fuel) is Some {
            law_more_fuel(bodies, branches.last().body, fuel, more);
        }
    }
}

proof fn lemma_more_fuel_clauses(bodies: Bodies, clauses: Seq<TypedClause>, fuel: nat, more: nat)
    requires
        fuel <= more,
        checks_clauses(bodies, clauses, fuel) is Some,
    ensures
        checks_clauses(bodies, clauses, more) == checks_clauses(bodies, clauses, fuel),
    decreases fuel, clauses,
{
    if clauses.len() > 0 {
        lemma_more_fuel_clauses(bodies, clauses.drop_last(), fuel, more);
        if checks(bodies, clauses.last().body, fuel) is Some {
            law_more_fuel(bodies, clauses.last().body, fuel, more);
        }
    }
}

/// Every bound under which the question has an answer gives the same answer.
pub proof fn law_one_answer(bodies: Bodies, expr: TypedExpr, fuel: nat)
    requires
        checks(bodies, expr, fuel) is Some,
    ensures
        has_answer(bodies, expr),
        checks(bodies, expr, fuel) == Some(answer(bodies, expr)),
{
    let chosen = choose|n: nat| (#[trigger] checks(bodies, expr, n)) is Some;
    if chosen <= fuel {
        law_more_fuel(bodies, expr, chosen, fuel);
    } else {
        law_more_fuel(bodies, expr, fuel, chosen);
    }
}

proof fn lemma_prefix_any(bodies: Bodies, exprs: Seq<TypedExpr>, fuel: nat, n: int)
    requires
        0 <= n <= exprs.len(),
        checks_any(bodies, exprs, fuel) is Some,
    ensures
        checks_any(bodies, exprs.take(n), fuel) is Some,
        checks_any(bodies, exprs.take(n), fuel) == Some(true) ==> checks_any(bodies, exprs, fuel)
            == Some(true),
    decreases exprs.len(),
{
    if n == exprs.len() {
        assert(exprs.take(n) =~= exprs);
    } else {
        lemma_prefix_any(bodies, exprs.drop_last(), fuel, n);
        assert(exprs.drop_last().take(n) =~= exprs.take(n));
    }
}

proof fn lemma_prefix_branches(bodies: Bodies, branches: Seq<IfBranch>, fuel: nat, n: int)
    requires
        0 <= n <= branches.len(),
        checks_branches(bodies, branches, fuel) is Some,
    ensures
        checks_branches(bodies, branches.take(n), fuel) is Some,
        checks_branches(bodies, branches.take(n), fuel) == Some(true) ==> checks_branches(
            bodies,
            branches,
            fuel,
        ) == Some(true),
    decreases branches.len(),
{
    if n == branches.len() {
        assert(branches.take(n) =~= branches);
    } else {
        lemma_prefix_branches(bodies, branches.drop_last(), fuel, n);
        assert(branches.drop_last().take(n) =~= branches.take(n));
    }
}

proof fn lemma_prefix_clauses(bodies: Bodies, clauses: Seq<TypedClause>, fuel: nat, n: int)
    requires
        0 <= n <= clauses.len(),
        checks_clauses(bodies, clauses, fuel) is Some,
    ensures
        checks_clauses(bodies, clauses.take(n), fuel) is Some,
        checks_clauses(bodies, clauses.take(n), fuel) == Some(true) ==> checks_clauses(
            bodies,
            clauses,
            fuel,
        ) == Some(true),
    decreases clauses.len(),
{
    if n == clauses.len() {
        assert(clauses.take(n) =~= clauses);
    } else {
        lemma_prefix_clauses(bodies, clauses.drop_last(), fuel, n);
        assert(clauses.drop_last().take(n) =~= clauses.take(n));
    }
}

impl AstAnalyzer {
    /// Whether an expression checks for duplicate inputs.
    pub fn check_expression_for_duplicate_inputs(&self, expr: &TypedExpr) -> (r: bool)
        requires
            has_answer(self@.functions, *expr),
        ensures
            r == answer(self@.functions, *expr),
    {
        let ghost fuel = choose|n: nat| (#[trigger] checks(self@.functions, *expr, n)) is Some;
        self.check_within(expr, Ghost(fuel))
    }

    /// Whether an expression checks for duplicate inputs, where at most `fuel` names are
    /// followed one inside the other.
    fn check_within(&self, expr: &TypedExpr, fuel: Ghost<nat>) -> (r: bool)
        requires
            checks(self@.functions, *expr, fuel@) is Some,
        ensures
            checks(self@.functions, *expr, fuel@) == Some(r),
        decreases fuel@, expr, 1nat,
    {
        match &expr.node {
            TypedNode::Call { fun, args } => {
                if self.search_within(fun, args, Ghost(*expr), fuel) {
                    return true;
                }
                if self.check_within(fun, fuel) {
                    return true;
                }
                self.any_within(args, Ghost(*expr), fuel)
            },
            TypedNode::BinOp { op, left, right } => {
                if !op.compares() {
                    return false;
                }
                if self.is_address_comparison(op, left, right) {
                    return true;
                }
                self.check_within(left, fuel) || self.check_within(right, fuel)
            },
            TypedNode::Sequence { expressions } => self.any_within(
                expressions,
                Ghost(*expr),
                fuel,
            ),
            TypedNode::Pipeline { expressions } => self.any_within(
                expressions,
                Ghost(*expr),
                fuel,
            ),
            TypedNode::If { branches, final_else } => {
                let mut i: usize = 0;
                while i < branches.len()
                    invariant
                        i <= branches.len(),
                        checks_branches(self@.functions, branches@, fuel@) is Some,
                        checks_branches(self@.functions, branches@.take(i as int), fuel@) == Some(
                            false,
                        ),
                        expr.node matches TypedNode::If { branches: b, .. } && b == *branches,
                        checks(self@.functions, *expr, fuel@) == either(
                            checks_branches(self@.functions, branches@, fuel@),
                            checks(self@.functions, **final_else, fuel@),
                        ),
                        forall|k: int|
                            0 <= k < branches@.len() ==> decreases_to!(expr =>
                                (#[trigger] branches@[k]).condition),
                        forall|k: int|
                            0 <= k < branches@.len() ==> decreases_to!(expr =>
                                (#[trigger] branches@[k]).body),
                    decreases branches.len() - i,
                {
                    proof {
                        lemma_prefix_branches(self@.functions, branches@, fuel@, i + 1);
                        assert(branches@.take(i + 1).drop_last() =~= branches@.take(i as int));
                        assert(branches@.take(i + 1).last() == branches@[i as int]);
                    }
                    if self.check_within(&branches[i].condition, fuel) || self.check_within(
                        &branches[i].body,
                        fuel,
                    ) {
                        return true;
                    }
                    i = i + 1;
                }
                proof {
                    assert(branches@.take(i as int) =~= branches@);
                }
                self.check_within(final_else, fuel)
            },
            TypedNode::Var { name } => {
                proof {
                    lemma_position_by_names(self.functions@, self@.functions, name@);
                    lemma_position(self.functions@, name@);
                }
                match self.functions.get(name.as_str()) {
                    Some(body) => self.check_within(&**body, Ghost((fuel@ - 1) as nat)),
                    None => false,
                }
            },
            TypedNode::List { elements, tail } => {
                if self.any_within(elements, Ghost(*expr), fuel) {
                    return true;
                }
                match tail {
                    Some(t) => self.check_within(t, fuel),
                    None => false,
                }
            },
            TypedNode::Assignment { value, .. } => self.check_within(value, fuel),
            TypedNode::When { subject, clauses } => {
                if self.check_within(subject, fuel) {
                    return true;
                }
                let mut i: usize = 0;
                while i < clauses.len()
                    invariant
                        i <= clauses.len(),
                        checks_clauses(self@.functions, clauses@, fuel@) is Some,
                        checks_clauses(self@.functions, clauses@.take(i as int), fuel@) == Some(
                            false,
                        ),
                        checks(self@.functions, *expr, fuel@) == checks_clauses(
                            self@.functions,
                            clauses@,
                            fuel@,
                        ),
                        forall|k: int|
                            0 <= k < clauses@.len() ==> decreases_to!(expr =>
                                (#[trigger] clauses@[k]).body),
                    decreases clauses.len() - i,
                {
                    proof {
                        lemma_prefix_clauses(self@.functions, clauses@, fuel@, i + 1);
                        assert(clauses@.take(i + 1).drop_last() =~= clauses@.take(i as int));
                        assert(clauses@.take(i + 1).last() == clauses@[i as int]);
                    }
                    if let Some(guard) = &clauses[i].guard {
                        if self.check_guard_for_duplicate_inputs(guard) {
                            return true;
                        }
                    }
                    if self.check_within(&clauses[i].body, fuel) {
                        return true;
                    }
                    i = i + 1;
                }
                proof {
                    assert(clauses@.take(i as int) =~= clauses@);
                }
                false
            },
            _ => false,
        }
    }

    /// Whether one of `exprs`, which stand inside `whole`, checks for duplicate inputs.
    fn any_within(&self, exprs: &Vec<TypedExpr>, whole: Ghost<TypedExpr>, fuel: Ghost<nat>) -> (r:
        bool)
        requires
            checks_any(self@.functions, exprs@, fuel@) is Some,
            forall|k: int| 0 <= k < exprs@.len() ==> decreases_to!(whole@ => #[trigger] exprs@[k]),
        ensures
            checks_any(self@.functions, exprs@, fuel@) == Some(r),
        decreases fuel@, whole@, 0nat,
    {
        let mut i: usize = 0;
        while i < exprs.len()
            invariant
                i <= exprs.len(),
                checks_any(self@.functions, exprs@, fuel@) is Some,
                checks_any(self@.functions, exprs@.take(i as int), fuel@) == Some(false),
                forall|k: int|
                    0 <= k < exprs@.len() ==> decreases_to!(whole@ => #[trigger] exprs@[k]),
            decreases exprs.len() - i,
        {
            proof {
                lemma_prefix_any(self@.functions, exprs@, fuel@, i + 1);
                assert(exprs@.take(i + 1).drop_last() =~= exprs@.take(i as int));
                assert(exprs@.take(i + 1).last() == exprs@[i as int]);
            }
            if self.check_within(&exprs[i], fuel) {
                return true;
            }
            i = i + 1;
        }
        proof {
            assert(exprs@.take(i as int) =~= exprs@);
        }
        false
    }

    /// Whether a call, which is `whole`, searches a list by address.
    fn search_within(
        &self,
        fun: &TypedExpr,
        args: &Vec<TypedExpr>,
        whole: Ghost<TypedExpr>,
        fuel: Ghost<nat>,
    ) -> (r: bool)
        requires
            forall|k: int| 0 <= k < args@.len() ==> decreases_to!(whole@ => #[trigger] args@[k]),
            is_list_search(*fun) && args@.len() >= 2 ==> (args@[1].node matches TypedNode::Fn {
                body,
            } ==> checks(self@.functions, *body, fuel@) is Some),
        ensures
            r == (is_list_search(*fun) && args@.len() >= 2 && (args@[1].node matches TypedNode::Fn {
                body,
            } && checks(self@.functions, *body, fuel@) == Some(true))),
        decreases fuel@, whole@, 0nat,
    {
        if args.len() >= 2 && names_list_search(fun) {
            match &args[1].node {
                TypedNode::Fn { body } => {
                    proof {
                        assert(decreases_to!(whole@ => args@[1]));
                    }
                    self.check_within(body, fuel)
                },
                _ => false,
            }
        } else {
            false
        }
    }

    /// Whether a call searches a list by address.
    pub fn is_duplicate_check_call(&self, fun: &TypedExpr, args: &Vec<TypedExpr>) -> (r: bool)
        requires
            is_list_search(*fun) && args@.len() >= 2 ==> (args@[1].node matches TypedNode::Fn {
                body,
            } ==> has_answer(self@.functions, *body)),
        ensures
            r == (is_list_search(*fun) && args@.len() >= 2 && (args@[1].node matches TypedNode::Fn {
                body,
            } && answer(self@.functions, *body))),
    {
        args.len() >= 2 && names_list_search(fun) && self.contains_address_check(&args[1])
    }

    /// Whether an operator compares addresses.
    pub fn is_address_comparison(&self, op: &BinOp, left: &TypedExpr, right: &TypedExpr) -> (r: bool)
        ensures
            r == compares_addresses(*op, *left, *right),
    {
        match op {
            BinOp::Eq | BinOp::NotEq => self.is_address_access(left) || self.is_address_access(
                right,
            ),
            _ => false,
        }
    }

    /// Whether an expression reads a field that holds an address.
    pub fn is_address_access(&self, expr: &TypedExpr) -> (r: bool)
        ensures
            r == reads_address(*expr),
    {
        match &expr.node {
            TypedNode::RecordAccess { label, .. } => contains(label.as_str(), "address")
                || contains(label.as_str(), "addr"),
            _ => false,
        }
    }

    /// Whether an expression is a function whose body checks for duplicate inputs.
    pub fn contains_address_check(&self, expr: &TypedExpr) -> (r: bool)
        requires
            expr.node matches TypedNode::Fn { body } ==> has_answer(self@.functions, *body),
        ensures
            r == (expr.node matches TypedNode::Fn { body } && answer(self@.functions, *body)),
    {
        match &expr.node {
            TypedNode::Fn { body } => self.check_expression_for_duplicate_inputs(body),
            _ => false,
        }
    }
}

/// Whether `label` is a list function that searches a list.
fn is_search(label: &str) -> (r: bool)
    ensures
        r == searches_list(label@),
{
    same_text(label, "find") || same_text(label, "count") || same_text(label, "index_of")
}

/// Whether `fun` is a list function that searches a list.
pub(crate) fn names_list_search(fun: &TypedExpr) -> (r: bool)
    ensures
        r == is_list_search(*fun),
{
    match &fun.node {
        TypedNode::ModuleSelect { module_name, label } => same_text(module_name.as_str(), "list")
            && is_search(label.as_str()),
        TypedNode::RecordAccess { label, record } => match &record.node {
            TypedNode::Var { name } => same_text(name.as_str(), "list") && is_search(
                label.as_str(),
            ),
            _ => false,
        },
        _ => false,
    }
}

/// Where no functions are known, the question has an answer for every expression.
pub proof fn law_answered_without_functions(bodies: Bodies, expr: TypedExpr, fuel: nat)
    requires
        bodies.len() == 0,
    ensures
        checks(bodies, expr, fuel) is Some,
        has_answer(bodies, expr),
    decreases expr,
{
    match expr.node {
        TypedNode::Call { fun, args } => {
            law_answered_without_functions(bodies, *fun, fuel);
            lemma_answered_any(bodies, args@, fuel);
            if args@.len() >= 2 {
                if let TypedNode::Fn { body } = args@[1].node {
                    law_answered_without_functions(bodies, *body, fuel);
                }
            }
        },
        TypedNode::BinOp { left, right, .. } => {
            law_answered_without_functions(bodies, *left, fuel);
            law_answered_without_functions(bodies, *right, fuel);
        },
        TypedNode::Sequence { expressions } => {
            lemma_answered_any(bodies, expressions@, fuel);
        },
        TypedNode::Pipeline { expressions } => {
            lemma_answered_any(bodies, expressions@, fuel);
        },
        TypedNode::If { branches, final_else } => {
            lemma_answered_branches(bodies, branches@, fuel);
            law_answered_without_functions(bodies, *final_else, fuel);
        },
        TypedNode::List { elements, tail } => {
            lemma_answered_any(bodies, elements@, fuel);
            if let Some(t) = tail {
                law_answered_without_functions(bodies, *t, fuel);
            }
        },
        TypedNode::Assignment { value, .. } => {
            law_answered_without_functions(bodies, *value, fuel);
        },
        TypedNode::When { subject, clauses } => {
            law_answered_without_functions(bodies, *subject, fuel);
            lemma_answered_clauses(bodies, clauses@, fuel);
        },
        _ => {},
    }
}

proof fn lemma_answered_any(bodies: Bodies, exprs: Seq<TypedExpr>, fuel: nat)
    requires
        bodies.len() == 0,
    ensures
        checks_any(bodies, exprs, fuel) is Some,
    decreases exprs,
{
    if exprs.len() > 0 {
        lemma_answered_any(bodies, exprs.drop_last(), fuel);
        law_answered_without_functions(bodies, exprs.last(), fuel);
    }
}

proof fn lemma_answered_branches(bodies: Bodies, branches: Seq<IfBranch>, fuel: nat)
    requires
        bodies.len() == 0,
    ensures
        checks_branches(bodies, branches, fuel) is Some,
    decreases branches,
{
    if branches.len() > 0 {
        lemma_answered_branches(bodies, branches.drop_last(), fuel);
        law_answered_without_functions(bodies, branches.last().condition, fuel);
        law_answered_without_functions(bodies, branches.last().body, fuel);
    }
}

proof fn lemma_answered_clauses(bodies: Bodies, clauses: Seq<TypedClause>, fuel: nat)
    requires
        bodies.len() == 0,
    ensures
        checks_clauses(bodies, clauses, fuel) is Some,
    decreases clauses,
{
    if clauses.len() > 0 {
        lemma_answered_clauses(bodies, clauses.drop_last(), fuel);
        law_answered_without_functions(bodies, clauses.last().body, fuel);
    }
}

/// Whether `expr` is a sequence or a pipeline of `exprs`.
pub open spec fn is_sequence_of(expr: TypedExpr, exprs: Seq<TypedExpr>) -> bool {
    match expr.node {
        TypedNode::Sequence { expressions } => expressions@ == exprs,
        TypedNode::Pipeline { expressions } => expressions@ == exprs,
        _ => false,
    }
}

/// A sequence or a pipeline, every expression of which has an answer, checks for duplicate inputs
/// exactly if one of its expressions does.
pub proof fn law_sequences(bodies: Bodies, expr: TypedExpr, exprs: Seq<TypedExpr>)
    requires
        is_sequence_of(expr, exprs),
        forall|i: int| 0 <= i < exprs.len() ==> has_answer(bodies, #[trigger] exprs[i]),
    ensures
        has_answer(bodies, expr),
        answer(bodies, expr) <==> exists|i: int|
            0 <= i < exprs.len() && answer(bodies, #[trigger] exprs[i]),
{
    let fuel = lemma_any_answer(bodies, exprs);
    assert(checks(bodies, expr, fuel) == checks_any(bodies, exprs, fuel));
    law_one_answer(bodies, expr, fuel);
}

/// A comparison, both sides of which have an answer, checks for duplicate inputs exactly if it
/// compares addresses or one of its sides does.
pub proof fn law_comparisons(bodies: Bodies, expr: TypedExpr, left: TypedExpr, right: TypedExpr)
    requires
        expr.node matches TypedNode::BinOp { op, left: l, right: r } && is_comparison(op) && *l
            == left && *r == right,
        has_answer(bodies, left),
        has_answer(bodies, right),
    ensures
        has_answer(bodies, expr),
        expr.node matches TypedNode::BinOp { op, .. } && (answer(bodies, expr) <==> (
        compares_addresses(op, left, right) || answer(bodies, left) || answer(bodies, right))),
{
    let fuel = lemma_any_answer(bodies, seq![left, right]);
    assert(seq![left, right][0] == left && seq![left, right][1] == right);
    assert(checks(bodies, left, fuel) is Some && checks(bodies, right, fuel) is Some);
    law_one_answer(bodies, left, fuel);
    law_one_answer(bodies, right, fuel);
    law_one_answer(bodies, expr, fuel);
}

/// Some number of names is enough for the answers of all expressions.
proof fn lemma_any_answer(bodies: Bodies, exprs: Seq<TypedExpr>) -> (fuel: nat)
    requires
        forall|i: int| 0 <= i < exprs.len() ==> has_answer(bodies, #[trigger] exprs[i]),
    ensures
        forall|i: int|
            0 <= i < exprs.len() ==> (checks(bodies, #[trigger] exprs[i], fuel) is Some),
        checks_any(bodies, exprs, fuel) == Some(
            exists|i: int| 0 <= i < exprs.len() && answer(bodies, #[trigger] exprs[i]),
        ),
    decreases exprs.len(),
{
    if exprs.len() == 0 {
        0
    } else {
        let front = exprs.drop_last();
        assert forall|i: int| 0 <= i < front.len() implies has_answer(
            bodies,
            #[trigger] front[i],
        ) by {
            assert(front[i] == exprs[i]);
        }
        let first = lemma_any_answer(bodies, front);
        let last = exprs.last();
        assert(exprs[exprs.len() - 1] == last);
        assert(has_answer(bodies, last));
        let second = choose|n: nat| (#[trigger] checks(bodies, last, n)) is Some;
        let fuel = if first <= second {
            second
        } else {
            first
        };
        law_more_fuel(bodies, last, second, fuel);
        law_one_answer(bodies, last, fuel);
        lemma_more_fuel_any(bodies, front, first, fuel);
        assert forall|i: int| 0 <= i < exprs.len() implies (checks(
            bodies,
            #[trigger] exprs[i],
            fuel,
        ) is Some) by {
            if i < front.len() {
                assert(front[i] == exprs[i]);
                law_more_fuel(bodies, front[i], first, fuel);
            }
        }
        let before = exists|i: int| 0 <= i < front.len() && answer(bodies, #[trigger] front[i]);
        let all = exists|i: int| 0 <= i < exprs.len() && answer(bodies, #[trigger] exprs[i]);
        if before {
            let i = choose|i: int| 0 <= i < front.len() && answer(bodies, #[trigger] front[i]);
            assert(exprs[i] == front[i]);
        }
        if all {
            let i = choose|i: int| 0 <= i < exprs.len() && answer(bodies, #[trigger] exprs[i]);
            if i < front.len() {
                assert(front[i] == exprs[i]);
            }
        }
        assert(all == (before || answer(bodies, last)));
        fuel
    }
}

} // verus!
