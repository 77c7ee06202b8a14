//! The environment of symbolic execution: what names stand for, and which conditions were met.
use crate::name_map::{bind, distinct_names, lemma_position_by_names, lookup, position, NameMap};
use crate::text::{opt_text, same_text};
use crate::value::{
    comes_from, condition_view, derived_value, ConditionView, OriginView, SymbolicCondition,
    SymbolicValue, ValueOrigin, ValueView,
};
use vstd::prelude::*;
use vstd::string::*;

verus! {

/// What names stand for, and which conditions were met.
pub struct SymbolicEnvironment {
    pub variables: NameMap<SymbolicValue>,
    /// The name of the parameter that holds the script context.
    pub script_context_name: Option<String>,
    pub conditions: Vec<SymbolicCondition>,
    /// How many function calls enclose the expression. `None` stands for none.
    pub function_level: Option<u8>,
}

/// An environment, with its texts as sequences of characters.
#[verifier::ext_equal]
pub struct EnvironmentView {
    pub variables: Seq<(Seq<char>, ValueView)>,
    pub script_context_name: Option<Seq<char>>,
    pub conditions: Seq<ConditionView>,
    pub function_level: Option<u8>,
}

/// The variables of an environment, with their values' views.
pub open spec fn variables_view(v: Seq<(Seq<char>, SymbolicValue)>) -> Seq<
    (Seq<char>, ValueView),
> {
    Seq::new(v.len(), |i: int| (v[i].0, v[i].1@))
}

/// The conditions that a vector holds.
pub open spec fn conditions_view(v: Seq<SymbolicCondition>) -> Seq<ConditionView> {
    Seq::new(v.len(), |i: int| v[i]@)
}

impl View for SymbolicEnvironment {
    type V = EnvironmentView;

    open spec fn view(&self) -> EnvironmentView {
        EnvironmentView {
            variables: variables_view(self.variables@),
            script_context_name: opt_text(self.script_context_name),
            conditions: conditions_view(self.conditions@),
            function_level: self.function_level,
        }
    }
}

/// The environment in which nothing is known.
pub open spec fn empty_environment() -> EnvironmentView {
    EnvironmentView {
        variables: Seq::empty(),
        script_context_name: None,
        conditions: Seq::empty(),
        function_level: None,
    }
}

/// The environment with `name` standing for `value`.
pub open spec fn with_variable(
    env: EnvironmentView,
    name: Seq<char>,
    value: ValueView,
) -> EnvironmentView {
    EnvironmentView { variables: bind(env.variables, name, value), ..env }
}

/// The environment with one more condition.
pub open spec fn with_condition(env: EnvironmentView, condition: ConditionView) -> EnvironmentView {
    EnvironmentView { conditions: env.conditions.push(condition), ..env }
}

/// How many function calls enclose the expressions of the environment.
pub open spec fn level(env: EnvironmentView) -> u8 {
    match env.function_level {
        Some(n) => n,
        None => 0,
    }
}

/// Whether the two sides compare a count with one. No such comparison is recognised yet.
pub open spec fn count_equals_one(left: ValueView, right: ValueView) -> bool {
    false
}

/// Whether a condition shows that the transaction's inputs are checked for duplicates.
pub open spec fn shows_duplicate_check(c: ConditionView) -> bool {
    match c {
        ConditionView::Equals { left, right, .. } => count_equals_one(left, right),
        ConditionView::ListOperation { operation, list, predicate, .. } => {
            &&& operation == "count"@
            &&& comes_from(list, OriginView::TransactionInputs)
            &&& predicate matches Some(p)
            &&& p.is_address_comparison
        },
        ConditionView::Assertion { condition, .. } => match *condition {
            ConditionView::Equals { left, right, .. } => count_equals_one(left, right),
            _ => false,
        },
        _ => false,
    }
}

impl Clone for SymbolicEnvironment {
    fn clone(&self) -> (r: Self)
        ensures
            r@ == self@,
    {
        let mut variables: NameMap<SymbolicValue> = NameMap::new();
        let n: usize = self.variables.len();
        let mut i: usize = 0;
        let ghost all = self.variables@;
        while i < n
            invariant
                i <= n == all.len(),
                all == self.variables@,
                distinct_names(all),
                variables@.len() == i,
                forall|j: int|
                    0 <= j < i ==> (#[trigger] variables@[j]).0 == all[j].0 && variables@[j].1@
                        == all[j].1@,
            decreases n - i,
        {
            proof {
                crate::name_map::lemma_position(variables@, all[i as int].0);
                if let Some(k) = position(variables@, all[i as int].0) {
                    assert(variables@[k].0 == all[k].0);
                    assert(all[k].0 != all[i as int].0);
                }
            }
            variables = variables.insert(
                self.variables.name(i).clone(),
                self.variables.value(i).clone(),
            );
            i = i + 1;
        }
        let mut conditions: Vec<SymbolicCondition> = Vec::new();
        let mut k: usize = 0;
        while k < self.conditions.len()
            invariant
                k <= self.conditions.len(),
                conditions.len() == k,
                forall|j: int| 0 <= j < k ==> (#[trigger] conditions[j])@ == self.conditions[j]@,
            decreases self.conditions.len() - k,
        {
            conditions.push(self.conditions[k].clone());
            k = k + 1;
        }
        let script_context_name = match &self.script_context_name {
            Some(name) => Some(name.clone()),
            None => None,
        };
        let r = SymbolicEnvironment {
            variables,
            script_context_name,
            conditions,
            function_level: self.function_level,
        };
        proof {
            assert(r@.variables == self@.variables);
            assert(r@.conditions == self@.conditions);
        }
        r
    }
}

/// What a name stands for in the view is the view of what it stands for.
pub proof fn lemma_lookup_view(variables: Seq<(Seq<char>, SymbolicValue)>, name: Seq<char>)
    ensures
        lookup(variables_view(variables), name) == (match lookup(variables, name) {
            Some(v) => Some(v@),
            None => None,
        }),
        position(variables_view(variables), name) == position(variables, name),
{
    lemma_position_by_names(variables, variables_view(variables), name);
    crate::name_map::lemma_position(variables, name);
}

impl SymbolicEnvironment {
    /// The environment in which nothing is known.
    pub fn new() -> (r: Self)
        ensures
            r@ == empty_environment(),
    {
        let r = SymbolicEnvironment {
            variables: NameMap::new(),
            script_context_name: None,
            conditions: Vec::new(),
            function_level: None,
        };
        proof {
            assert(r@.variables == empty_environment().variables);
            assert(r@.conditions == empty_environment().conditions);
        }
        r
    }

    /// What a name stands for.
    pub fn lookup(&self, name: &str) -> (r: Option<&SymbolicValue>)
        ensures
            match r {
                Some(v) => lookup(self@.variables, name@) == Some(v@),
                None => lookup(self@.variables, name@) is None,
            },
    {
        proof {
            lemma_lookup_view(self.variables@, name@);
        }
        self.variables.get(name)
    }

    /// How many function calls enclose the expressions of the environment.
    pub fn current_level(&self) -> (r: u8)
        ensures
            r == level(self@),
    {
        match self.function_level {
            Some(n) => n,
            None => 0,
        }
    }

    /// Takes `name` as the name of the script context.
    pub fn set_script_context(&mut self, name: String, context_type: String)
        ensures
            final(self)@ == (EnvironmentView {
                script_context_name: Some(name@),
                ..with_variable(
                    old(self)@,
                    name@,
                    derived_value(OriginView::ScriptContext, context_type@, Seq::empty()),
                )
            }),
    {
        self.add_variable(
            name.clone(),
            SymbolicValue::new(ValueOrigin::ScriptContext, context_type),
        );
        self.script_context_name = Some(name);
    }

    /// Lets `name` stand for `value`.
    pub fn add_variable(&mut self, name: String, value: SymbolicValue)
        ensures
            final(self)@ == with_variable(old(self)@, name@, value@),
    {
        proof {
            lemma_lookup_view(self.variables@, name@);
            crate::name_map::lemma_position(self.variables@, name@);
        }
        let ghost before = self@;
        let ghost text = name@;
        let ghost shown = value@;
        let mut variables: NameMap<SymbolicValue> = NameMap::new();
        std::mem::swap(&mut variables, &mut self.variables);
        self.variables = variables.insert(name, value);
        proof {
            assert(self@.variables == with_variable(before, text, shown).variables);
        }
    }

    /// Adds a condition.
    pub fn add_condition(&mut self, condition: SymbolicCondition)
        ensures
            final(self)@ == with_condition(old(self)@, condition@),
    {
        let ghost before = self@;
        self.conditions.push(condition);
        proof {
            assert(self@.conditions == with_condition(before, condition@).conditions);
        }
    }

    /// Whether some condition shows that the transaction's inputs are checked for duplicates.
    pub fn has_duplicate_input_check(&self) -> (r: bool)
        ensures
            r == exists|i: int|
                0 <= i < self@.conditions.len() && shows_duplicate_check(
                    #[trigger] self@.conditions[i],
                ),
    {
        let mut i: usize = 0;
        while i < self.conditions.len()
            invariant
                i <= self.conditions.len(),
                forall|j: int|
                    0 <= j < i ==> !shows_duplicate_check(#[trigger] self@.conditions[j]),
            decreases self.conditions.len() - i,
        {
            let found = match &self.conditions[i] {
                SymbolicCondition::Equals { left, right, .. } => self.is_count_equals_one(
                    left,
                    right,
                ),
                SymbolicCondition::ListOperation { operation, list, predicate, .. } => {
                    same_text(operation.as_str(), "count") && list.is_derived_from_inputs() && (
                    match predicate {
                        Some(p) => p.is_address_comparison,
                        None => false,
                    })
                },
                SymbolicCondition::Assertion { condition, .. } => match &**condition {
                    SymbolicCondition::Equals { left, right, .. } => self.is_count_equals_one(
                        left,
                        right,
                    ),
                    _ => false,
                },
                _ => false,
            };
            proof {
                assert(self@.conditions[i as int] == condition_view(self.conditions[i as int]));
                reveal_with_fuel(condition_view, 2);
            }
            if found {
                return true;
            }
            i = i + 1;
        }
        false
    }

    /// Whether the two sides compare a count with one.
    pub fn is_count_equals_one(&self, left: &SymbolicValue, right: &SymbolicValue) -> (r: bool)
        ensures
            r == count_equals_one(left@, right@),
    {
        false
    }
}

} // verus!
