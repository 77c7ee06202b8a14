//! The search for checks of duplicate inputs, with a bound on the names that are followed.
use crate::analyzer::AstAnalyzer;
use crate::ast::{IfBranch, TypedClause, TypedExpr, TypedNode};
use crate::duplicates::{
    answer, checks, checks_any, checks_branches, checks_clauses, has_answer, law_one_answer,
    names_list_search, Bodies,
};
use crate::name_map::{lemma_position, lemma_position_by_names};
use vstd::prelude::*;

verus! {

proof fn lemma_settled_any(bodies: Bodies, exprs: Seq<TypedExpr>, fuel: nat, n: int)
    requires
        0 <= n <= exprs.len(),
        checks_any(bodies, exprs.take(n), fuel) != Some(false),
    ensures
        checks_any(bodies, exprs, fuel) == checks_any(bodies, exprs.take(n), fuel),
    decreases exprs.len(),
{
    if n == exprs.len() {
        assert(exprs.take(n) =~= exprs);
    } else {
        assert(exprs.drop_last().take(n) =~= exprs.take(n));
        lemma_settled_any(bodies, exprs.drop_last(), fuel, n);
    }
}

proof fn lemma_settled_branches(bodies: Bodies, branches: Seq<IfBranch>, fuel: nat, n: int)
    requires
        0 <= n <= branches.len(),
        checks_branches(bodies, branches.take(n), fuel) != Some(false),
    ensures
        checks_branches(bodies, branches, fuel) == checks_branches(bodies, branches.take(n), fuel),
    decreases branches.len(),
{
    if n == branches.len() {
        assert(branches.take(n) =~= branches);
    } else {
        assert(branches.drop_last().take(n) =~= branches.take(n));
        lemma_settled_branches(bodies, branches.drop_last(), fuel, n);
    }
}

proof fn lemma_settled_clauses(bodies: Bodies, clauses: Seq<TypedClause>, fuel: nat, n: int)
    requires
        0 <= n <= clauses.len(),
        checks_clauses(bodies, clauses.take(n), fuel) != Some(false),
    ensures
        checks_clauses(bodies, clauses, fuel) == checks_clauses(bodies, clauses.take(n), fuel),
    decreases clauses.len(),
{
    if n == clauses.len() {
        assert(clauses.take(n) =~= clauses);
    } else {
        assert(clauses.drop_last().take(n) =~= clauses.take(n));
        lemma_settled_clauses(bodies, clauses.drop_last(), fuel, n);
    }
}

impl AstAnalyzer {
    /// Whether an expression checks for duplicate inputs, if that shows when at most `limit`
    /// names of functions are followed one inside the other. An answer is the answer to the
    /// question without a limit.
    pub fn check_for_duplicate_inputs_within(&self, expr: &TypedExpr, limit: usize) -> (r: Option<
        bool,
    >)
        ensures
            r == checks(self@.functions, *expr, limit as nat),
            r matches Some(found) ==> has_answer(self@.functions, *expr) && found == answer(
                self@.functions,
                *expr,
            ),
    {
        let r = self.bounded_check(expr, limit);
        proof {
            if r is Some {
                law_one_answer(self@.functions, *expr, limit as nat);
            }
        }
        r
    }

    fn bounded_check(&self, expr: &TypedExpr, limit: usize) -> (r: Option<bool>)
        ensures
            r == checks(self@.functions, *expr, limit as nat),
        decreases limit, expr, 1nat,
    {
        match &expr.node {
            TypedNode::Call { fun, args } => {
                let search = if args.len() >= 2 && names_list_search(fun) {
                    match &args[1].node {
                        TypedNode::Fn { body } => {
                            proof {
                                assert(decreases_to!(expr => args@[1]));
                            }
                            self.bounded_check(body, limit)
                        },
                        _ => Some(false),
                    }
                } else {
                    Some(false)
                };
                match search {
                    Some(false) => match self.bounded_check(fun, limit) {
                        Some(false) => self.bounded_any(args, Ghost(*expr), limit),
                        found => found,
                    },
                    found => found,
                }
            },
            TypedNode::BinOp { op, left, right } => {
                if !op.compares() {
                    return Some(false);
                }
                if self.is_address_comparison(op, left, right) {
                    return Some(true);
                }
                match self.bounded_check(left, limit) {
                    Some(false) => self.bounded_check(right, limit),
                    found => found,
                }
            },
            TypedNode::Sequence { expressions } => self.bounded_any(
                expressions,
                Ghost(*expr),
                limit,
            ),
            TypedNode::Pipeline { expressions } => self.bounded_any(
                expressions,
                Ghost(*expr),
                limit,
            ),
            TypedNode::If { branches, final_else } => {
                match self.bounded_branches(branches, Ghost(*expr), limit) {
                    Some(false) => self.bounded_check(final_else, limit),
                    found => found,
                }
            },
            TypedNode::Var { name } => {
                proof {
                    lemma_position_by_names(self.functions@, self@.functions, name@);
                    lemma_position(self.functions@, name@);
                }
                match self.functions.get(name.as_str()) {
                    Some(body) => if limit == 0 {
                        None
                    } else {
                        self.bounded_check(&**body, limit - 1)
                    },
                    None => Some(false),
                }
            },
            TypedNode::List { elements, tail } => {
                match self.bounded_any(elements, Ghost(*expr), limit) {
                    Some(false) => match tail {
                        Some(t) => self.bounded_check(t, limit),
                        None => Some(false),
                    },
                    found => found,
                }
            },
            TypedNode::Assignment { value, .. } => self.bounded_check(value, limit),
            TypedNode::When { subject, clauses } => match self.bounded_check(subject, limit) {
                Some(false) => self.bounded_clauses(clauses, Ghost(*expr), limit),
                found => found,
            },
            _ => Some(false),
        }
    }

    /// Whether one of `exprs`, which stand inside `whole`, checks for duplicate inputs.
    fn bounded_any(&self, exprs: &Vec<TypedExpr>, whole: Ghost<TypedExpr>, limit: usize) -> (r:
        Option<bool>)
        requires
            forall|k: int| 0 <= k < exprs@.len() ==> decreases_to!(whole@ => #[trigger] exprs@[k]),
        ensures
            r == checks_any(self@.functions, exprs@, limit as nat),
        decreases limit, whole@, 0nat,
    {
        let mut i: usize = 0;
        while i < exprs.len()
            invariant
                i <= exprs.len(),
                checks_any(self@.functions, exprs@.take(i as int), limit as nat) == Some(false),
                forall|k: int|
                    0 <= k < exprs@.len() ==> decreases_to!(whole@ => #[trigger] exprs@[k]),
            decreases exprs.len() - i,
        {
            proof {
                assert(exprs@.take(i + 1).drop_last() =~= exprs@.take(i as int));
                assert(exprs@.take(i + 1).last() == exprs@[i as int]);
            }
            match self.bounded_check(&exprs[i], limit) {
                Some(false) => {},
                found => {
                    proof {
                        lemma_settled_any(self@.functions, exprs@, limit as nat, i + 1);
                    }
                    return found;
                },
            }
            i = i + 1;
        }
        proof {
            assert(exprs@.take(i as int) =~= exprs@);
        }
        Some(false)
    }

    /// Whether a condition or a body among `branches`, which stand inside `whole`, checks for
    /// duplicate inputs.
    fn bounded_branches(
        &self,
        branches: &Vec<IfBranch>,
        whole: Ghost<TypedExpr>,
        limit: usize,
    ) -> (r: Option<bool>)
        requires
            forall|k: int|
                0 <= k < branches@.len() ==> decreases_to!(whole@ => #[trigger] branches@[k]),
        ensures
            r == checks_branches(self@.functions, branches@, limit as nat),
        decreases limit, whole@, 0nat,
    {
        let mut i: usize = 0;
        while i < branches.len()
            invariant
                i <= branches.len(),
                checks_branches(self@.functions, branches@.take(i as int), limit as nat) == Some(
                    false,
                ),
                forall|k: int|
                    0 <= k < branches@.len() ==> decreases_to!(whole@ => #[trigger] branches@[k]),
            decreases branches.len() - i,
        {
            proof {
                assert(branches@.take(i + 1).drop_last() =~= branches@.take(i as int));
                assert(branches@.take(i + 1).last() == branches@[i as int]);
                assert(decreases_to!(whole@ => branches@[i as int]));
            }
            let found = match self.bounded_check(&branches[i].condition, limit) {
                Some(false) => self.bounded_check(&branches[i].body, limit),
                found => found,
            };
            match found {
                Some(false) => {},
                _ => {
                    proof {
                        lemma_settled_branches(self@.functions, branches@, limit as nat, i + 1);
                    }
                    return found;
                },
            }
            i = i + 1;
        }
        proof {
            assert(branches@.take(i as int) =~= branches@);
        }
        Some(false)
    }

    /// Whether a guard or a body among `clauses`, which stand inside `whole`, checks for
    /// duplicate inputs.
    fn bounded_clauses(
        &self,
        clauses: &Vec<TypedClause>,
        whole: Ghost<TypedExpr>,
        limit: usize,
    ) -> (r: Option<bool>)
        requires
            forall|k: int|
                0 <= k < clauses@.len() ==> decreases_to!(whole@ => #[trigger] clauses@[k]),
        ensures
            r == checks_clauses(self@.functions, clauses@, limit as nat),
        decreases limit, whole@, 0nat,
    {
        let mut i: usize = 0;
        while i < clauses.len()
            invariant
                i <= clauses.len(),
                checks_clauses(self@.functions, clauses@.take(i as int), limit as nat) == Some(
                    false,
                ),
                forall|k: int|
                    0 <= k < clauses@.len() ==> decreases_to!(whole@ => #[trigger] clauses@[k]),
            decreases clauses.len() - i,
        {
            proof {
                assert(clauses@.take(i + 1).drop_last() =~= clauses@.take(i as int));
                assert(clauses@.take(i + 1).last() == clauses@[i as int]);
                assert(decreases_to!(whole@ => clauses@[i as int]));
            }
            let guarded = match &clauses[i].guard {
                Some(guard) => self.check_guard_for_duplicate_inputs(guard),
                None => false,
            };
            let found = if guarded {
                Some(true)
            } else {
                self.bounded_check(&clauses[i].body, limit)
            };
            match found {
                Some(false) => {},
                _ => {
                    proof {
                        lemma_settled_clauses(self@.functions, clauses@, limit as nat, i + 1);
                    }
                    return found;
                },
            }
            i = i + 1;
        }
        proof {
            assert(clauses@.take(i as int) =~= clauses@);
        }
        Some(false)
    }
}

} // verus!
