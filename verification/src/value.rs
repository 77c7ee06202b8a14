//! The values that symbolic execution computes with: where a value comes from, and what was
//! learned about it.
use crate::ast::Span;
use crate::text::{concat3, join, joined, quote, quoted, same_text, texts};
use vstd::prelude::*;
use vstd::string::*;

verus! {

/// Where a symbolic value comes from.
pub enum ValueOrigin {
    /// The script context itself.
    ScriptContext,
    /// The transaction of the script context.
    Transaction,
    /// The list of the transaction's inputs.
    TransactionInputs,
    /// The input that the validator is run for.
    InputToken,
    /// The output that this input spends.
    InputTokenOutput,
    /// The address of this output.
    InputTokenAddress,
    /// The purpose of the script context.
    Purpose,
    /// The output reference that a spending purpose holds.
    OutputReference,
    /// Something that is not tracked, by its name.
    Other(String),
    /// How many inputs stand at an address.
    TokenCount,
    /// Nothing is known.
    Unknown,
}

/// A value's origin, with its text as a sequence of characters.
pub enum OriginView {
    ScriptContext,
    Transaction,
    TransactionInputs,
    InputToken,
    InputTokenOutput,
    InputTokenAddress,
    Purpose,
    OutputReference,
    Other(Seq<char>),
    TokenCount,
    Unknown,
}

impl View for ValueOrigin {
    type V = OriginView;

    open spec fn view(&self) -> OriginView {
        match self {
            ValueOrigin::ScriptContext => OriginView::ScriptContext,
            ValueOrigin::Transaction => OriginView::Transaction,
            ValueOrigin::TransactionInputs => OriginView::TransactionInputs,
            ValueOrigin::InputToken => OriginView::InputToken,
            ValueOrigin::InputTokenOutput => OriginView::InputTokenOutput,
            ValueOrigin::InputTokenAddress => OriginView::InputTokenAddress,
            ValueOrigin::Purpose => OriginView::Purpose,
            ValueOrigin::OutputReference => OriginView::OutputReference,
            ValueOrigin::Other(s) => OriginView::Other(s@),
            ValueOrigin::TokenCount => OriginView::TokenCount,
            ValueOrigin::Unknown => OriginView::Unknown,
        }
    }
}

impl Clone for ValueOrigin {
    fn clone(&self) -> (r: Self)
        ensures
            r@ == self@,
    {
        match self {
            ValueOrigin::ScriptContext => ValueOrigin::ScriptContext,
            ValueOrigin::Transaction => ValueOrigin::Transaction,
            ValueOrigin::TransactionInputs => ValueOrigin::TransactionInputs,
            ValueOrigin::InputToken => ValueOrigin::InputToken,
            ValueOrigin::InputTokenOutput => ValueOrigin::InputTokenOutput,
            ValueOrigin::InputTokenAddress => ValueOrigin::InputTokenAddress,
            ValueOrigin::Purpose => ValueOrigin::Purpose,
            ValueOrigin::OutputReference => ValueOrigin::OutputReference,
            ValueOrigin::Other(s) => ValueOrigin::Other(s.clone()),
            ValueOrigin::TokenCount => ValueOrigin::TokenCount,
            ValueOrigin::Unknown => ValueOrigin::Unknown,
        }
    }
}

/// The name of an origin.
pub open spec fn origin_text(o: OriginView) -> Seq<char> {
    match o {
        OriginView::ScriptContext => "ScriptContext"@,
        OriginView::Transaction => "Transaction"@,
        OriginView::TransactionInputs => "TransactionInputs"@,
        OriginView::InputToken => "InputToken"@,
        OriginView::InputTokenOutput => "InputTokenOutput"@,
        OriginView::InputTokenAddress => "InputTokenAddress"@,
        OriginView::Purpose => "Purpose"@,
        OriginView::OutputReference => "OutputReference"@,
        OriginView::Other(s) => "Other("@ + s + ")"@,
        OriginView::TokenCount => "TokenCount"@,
        OriginView::Unknown => "Unknown"@,
    }
}

/// The name of an origin, with the text of a not tracked one between quotes.
pub open spec fn origin_debug(o: OriginView) -> Seq<char> {
    match o {
        OriginView::Other(s) => "Other("@ + quoted(s) + ")"@,
        _ => origin_text(o),
    }
}

impl ValueOrigin {
    /// Whether two origins are the same.
    pub fn same(&self, other: &ValueOrigin) -> (r: bool)
        ensures
            r == (self@ == other@),
    {
        match (self, other) {
            (ValueOrigin::ScriptContext, ValueOrigin::ScriptContext) => true,
            (ValueOrigin::Transaction, ValueOrigin::Transaction) => true,
            (ValueOrigin::TransactionInputs, ValueOrigin::TransactionInputs) => true,
            (ValueOrigin::InputToken, ValueOrigin::InputToken) => true,
            (ValueOrigin::InputTokenOutput, ValueOrigin::InputTokenOutput) => true,
            (ValueOrigin::InputTokenAddress, ValueOrigin::InputTokenAddress) => true,
            (ValueOrigin::Purpose, ValueOrigin::Purpose) => true,
            (ValueOrigin::OutputReference, ValueOrigin::OutputReference) => true,
            (ValueOrigin::Other(a), ValueOrigin::Other(b)) => same_text(a.as_str(), b.as_str()),
            (ValueOrigin::TokenCount, ValueOrigin::TokenCount) => true,
            (ValueOrigin::Unknown, ValueOrigin::Unknown) => true,
            _ => false,
        }
    }

    /// The name of the origin.
    pub fn to_text(&self) -> (r: String)
        ensures
            r@ == origin_text(self@),
    {
        match self {
            ValueOrigin::ScriptContext => "ScriptContext".to_owned(),
            ValueOrigin::Transaction => "Transaction".to_owned(),
            ValueOrigin::TransactionInputs => "TransactionInputs".to_owned(),
            ValueOrigin::InputToken => "InputToken".to_owned(),
            ValueOrigin::InputTokenOutput => "InputTokenOutput".to_owned(),
            ValueOrigin::InputTokenAddress => "InputTokenAddress".to_owned(),
            ValueOrigin::Purpose => "Purpose".to_owned(),
            ValueOrigin::OutputReference => "OutputReference".to_owned(),
            ValueOrigin::Other(s) => concat3("Other(", s.as_str(), ")"),
            ValueOrigin::TokenCount => "TokenCount".to_owned(),
            ValueOrigin::Unknown => "Unknown".to_owned(),
        }
    }

    /// The name of the origin, with the text of a not tracked one between quotes.
    pub fn to_debug(&self) -> (r: String)
        ensures
            r@ == origin_debug(self@),
    {
        match self {
            ValueOrigin::Other(s) => {
                let text = quote(s.as_str());
                concat3("Other(", text.as_str(), ")")
            },
            _ => self.to_text(),
        }
    }
}

/// The origins that a vector holds.
pub open spec fn origins(v: Seq<ValueOrigin>) -> Seq<OriginView> {
    Seq::new(v.len(), |i: int| v[i]@)
}

/// Whether `origin` is among `list`.
fn listed(list: &Vec<ValueOrigin>, origin: &ValueOrigin) -> (r: bool)
    ensures
        r == origins(list@).contains(origin@),
{
    let mut i: usize = 0;
    while i < list.len()
        invariant
            i <= list.len(),
            forall|j: int| 0 <= j < i ==> (#[trigger] list[j])@ != origin@,
        decreases list.len() - i,
    {
        if list[i].same(origin) {
            proof {
                assert(origins(list@)[i as int] == origin@);
            }
            return true;
        }
        i = i + 1;
    }
    proof {
        if origins(list@).contains(origin@) {
            let j = choose|j: int| 0 <= j < list.len() && origins(list@)[j] == origin@;
            assert(list[j]@ == origin@);
        }
    }
    false
}

/// The same origins in a new vector.
fn copy_origins(list: &Vec<ValueOrigin>) -> (r: Vec<ValueOrigin>)
    ensures
        origins(r@) == origins(list@),
{
    let mut r: Vec<ValueOrigin> = Vec::new();
    let mut i: usize = 0;
    while i < list.len()
        invariant
            i <= list.len(),
            r.len() == i,
            forall|j: int| 0 <= j < i ==> (#[trigger] r[j])@ == list[j]@,
        decreases list.len() - i,
    {
        r.push(list[i].clone());
        i = i + 1;
    }
    proof {
        assert(origins(r@) == origins(list@));
    }
    r
}

/// A value during symbolic execution.
pub struct SymbolicValue {
    pub origin: ValueOrigin,
    /// The `Debug` representation of the value's type.
    pub value_type: String,
    /// What the value was derived from.
    pub derived_from: Vec<ValueOrigin>,
    /// Whether the value is a predicate that compares addresses.
    pub is_address_comparison: bool,
}

/// A symbolic value, with its texts as sequences of characters.
#[verifier::ext_equal]
pub struct ValueView {
    pub origin: OriginView,
    pub value_type: Seq<char>,
    pub derived_from: Seq<OriginView>,
    pub is_address_comparison: bool,
}

impl View for SymbolicValue {
    type V = ValueView;

    open spec fn view(&self) -> ValueView {
        ValueView {
            origin: self.origin@,
            value_type: self.value_type@,
            derived_from: origins(self.derived_from@),
            is_address_comparison: self.is_address_comparison,
        }
    }
}

impl Clone for SymbolicValue {
    fn clone(&self) -> (r: Self)
        ensures
            r@ == self@,
    {
        SymbolicValue {
            origin: self.origin.clone(),
            value_type: self.value_type.clone(),
            derived_from: copy_origins(&self.derived_from),
            is_address_comparison: self.is_address_comparison,
        }
    }
}

/// A value of a known origin that is derived from `sources`.
pub open spec fn derived_value(
    origin: OriginView,
    value_type: Seq<char>,
    sources: Seq<OriginView>,
) -> ValueView {
    ValueView { origin, value_type, derived_from: sources, is_address_comparison: false }
}

/// A value of which nothing but the type is known.
pub open spec fn unknown_value(value_type: Seq<char>) -> ValueView {
    derived_value(OriginView::Unknown, value_type, Seq::empty())
}

/// Whether a value comes from `origin`, directly or by derivation.
pub open spec fn comes_from(v: ValueView, origin: OriginView) -> bool {
    v.origin == origin || v.derived_from.contains(origin)
}

/// A value's origin, and what the value is derived from if that is known.
pub open spec fn value_text(v: ValueView) -> Seq<char> {
    if v.derived_from.len() == 0 {
        origin_text(v.origin)
    } else {
        origin_text(v.origin) + " derived_from:["@ + joined(
            Seq::new(v.derived_from.len(), |i: int| origin_text(v.derived_from[i])),
            ", "@,
        ) + "]"@
    }
}

impl SymbolicValue {
    /// A value of a known origin.
    pub fn new(origin: ValueOrigin, value_type: String) -> (r: Self)
        ensures
            r@ == derived_value(origin@, value_type@, Seq::empty()),
    {
        SymbolicValue { origin, value_type, derived_from: Vec::new(), is_address_comparison: false }
    }

    /// A value of a known origin that is derived from other values.
    pub fn derived(origin: ValueOrigin, value_type: String, derived_from: Vec<ValueOrigin>) -> (r:
        Self)
        ensures
            r@ == derived_value(origin@, value_type@, origins(derived_from@)),
    {
        SymbolicValue { origin, value_type, derived_from, is_address_comparison: false }
    }

    /// A value of which nothing but the type is known.
    pub fn unknown(value_type: String) -> (r: Self)
        ensures
            r@ == unknown_value(value_type@),
    {
        SymbolicValue {
            origin: ValueOrigin::Unknown,
            value_type,
            derived_from: Vec::new(),
            is_address_comparison: false,
        }
    }

    /// Whether the value comes from the transaction's inputs.
    pub fn is_derived_from_inputs(&self) -> (r: bool)
        ensures
            r == comes_from(self@, OriginView::TransactionInputs),
    {
        self.origin.same(&ValueOrigin::TransactionInputs) || listed(
            &self.derived_from,
            &ValueOrigin::TransactionInputs,
        )
    }

    /// Whether the value comes from the output reference.
    pub fn is_derived_from_output_reference(&self) -> (r: bool)
        ensures
            r == comes_from(self@, OriginView::OutputReference),
    {
        self.origin.same(&ValueOrigin::OutputReference) || listed(
            &self.derived_from,
            &ValueOrigin::OutputReference,
        )
    }

    /// The value, marked as a comparison of addresses.
    pub fn as_address_comparison(self) -> (r: Self)
        ensures
            r@ == (ValueView { is_address_comparison: true, ..self@ }),
    {
        SymbolicValue { is_address_comparison: true, ..self }
    }

    /// The value's origin, and what the value is derived from if that is known.
    pub fn to_text(&self) -> (r: String)
        ensures
            r@ == value_text(self@),
    {
        let mut r = self.origin.to_text();
        if self.derived_from.len() > 0 {
            let mut parts: Vec<String> = Vec::new();
            let mut i: usize = 0;
            while i < self.derived_from.len()
                invariant
                    i <= self.derived_from.len(),
                    parts.len() == i,
                    forall|j: int|
                        0 <= j < i ==> (#[trigger] parts[j])@ == origin_text(self.derived_from[j]@),
                decreases self.derived_from.len() - i,
            {
                parts.push(self.derived_from[i].to_text());
                i = i + 1;
            }
            proof {
                assert(texts(parts@) == Seq::new(
                    self@.derived_from.len(),
                    |i: int| origin_text(self@.derived_from[i]),
                ));
            }
            r.append(" derived_from:[");
            r.append(join(&parts, ", ").as_str());
            r.append("]");
        }
        r
    }
}

/// A set of origins. No origin is held twice.
pub struct OriginSet {
    items: Vec<ValueOrigin>,
}

impl View for OriginSet {
    type V = Set<OriginView>;

    closed spec fn view(&self) -> Set<OriginView> {
        origins(self.items@).to_set()
    }
}

impl OriginSet {
    #[verifier::type_invariant]
    spec fn well_formed(self) -> bool {
        origins(self.items@).no_duplicates()
    }

    /// The set without origins.
    pub fn new() -> (r: Self)
        ensures
            r@ == Set::<OriginView>::empty(),
    {
        let items: Vec<ValueOrigin> = Vec::new();
        proof {
            assert(origins(items@).to_set() == Set::<OriginView>::empty());
        }
        OriginSet { items }
    }

    /// Whether the set holds `origin`.
    pub fn contains(&self, origin: &ValueOrigin) -> (r: bool)
        ensures
            r == self@.contains(origin@),
    {
        listed(&self.items, origin)
    }

    /// The set with `origin` in it.
    pub fn insert(self, origin: ValueOrigin) -> (r: Self)
        ensures
            r@ == self@.insert(origin@),
    {
        proof {
            use_type_invariant(&self);
        }
        let known = listed(&self.items, &origin);
        let ghost before = origins(self.items@);
        let mut items = self.items;
        if !known {
            items.push(origin);
            proof {
                assert(origins(items@) == before.push(origin@));
                assert(before.push(origin@).to_set() == before.to_set().insert(origin@)) by {
                    assert forall|o: OriginView| before.push(origin@).contains(o) == (before.contains(
                        o,
                    ) || o == origin@) by {
                        if before.contains(o) {
                            let k = before.index_of(o);
                            assert(before.push(origin@)[k] == o);
                        }
                        assert(before.push(origin@)[before.len() as int] == origin@);
                    }
                }
            }
        } else {
            proof {
                assert(before.to_set().insert(origin@) == before.to_set());
            }
        }
        OriginSet { items }
    }

    /// The set with the origins of `other` in it.
    pub fn extend(self, other: &OriginSet) -> (r: Self)
        ensures
            r@ == self@.union(other@),
    {
        let ghost start = self@;
        let ghost added = origins(other.items@);
        let mut r = self;
        let mut i: usize = 0;
        proof {
            assert(start.union(added.take(0).to_set()) == start);
        }
        while i < other.items.len()
            invariant
                i <= other.items.len(),
                added == origins(other.items@),
                r@ == start.union(added.take(i as int).to_set()),
            decreases other.items.len() - i,
        {
            r = r.insert(other.items[i].clone());
            proof {
                let here = added.take(i as int);
                let next = added.take(i + 1);
                assert(next == here.push(added[i as int]));
                assert forall|o: OriginView| next.contains(o) == (here.contains(o) || o
                    == added[i as int]) by {
                    if here.contains(o) {
                        let k = here.index_of(o);
                        assert(next[k] == o);
                    }
                    assert(next[i as int] == added[i as int]);
                }
                assert(r@ == start.union(next.to_set()));
            }
            i = i + 1;
        }
        proof {
            assert(added.take(i as int) == added);
        }
        r
    }
}

impl Clone for OriginSet {
    fn clone(&self) -> (r: Self)
        ensures
            r@ == self@,
    {
        proof {
            use_type_invariant(self);
        }
        OriginSet { items: copy_origins(&self.items) }
    }
}

/// A condition that was met during symbolic execution.
pub enum SymbolicCondition {
    Equals { left: SymbolicValue, right: SymbolicValue, location: Span },
    NotEquals { left: SymbolicValue, right: SymbolicValue, location: Span },
    /// An operation on a list, such as counting or finding.
    ListOperation {
        operation: String,
        list: SymbolicValue,
        predicate: Option<SymbolicValue>,
        location: Span,
    },
    /// A condition that an `expect` demands.
    Assertion { condition: Box<SymbolicCondition>, location: Span },
    Custom {
        description: String,
        relates_to_inputs: bool,
        relates_to_output_ref: bool,
        location: Span,
    },
}

/// A condition, with its texts as sequences of characters.
pub enum ConditionView {
    Equals { left: ValueView, right: ValueView, location: Span },
    NotEquals { left: ValueView, right: ValueView, location: Span },
    ListOperation {
        operation: Seq<char>,
        list: ValueView,
        predicate: Option<ValueView>,
        location: Span,
    },
    Assertion { condition: Box<ConditionView>, location: Span },
    Custom {
        description: Seq<char>,
        relates_to_inputs: bool,
        relates_to_output_ref: bool,
        location: Span,
    },
}

/// The view of a condition.
pub open spec fn condition_view(c: SymbolicCondition) -> ConditionView
    decreases c,
{
    match c {
        SymbolicCondition::Equals { left, right, location } => ConditionView::Equals {
            left: left@,
            right: right@,
            location,
        },
        SymbolicCondition::NotEquals { left, right, location } => ConditionView::NotEquals {
            left: left@,
            right: right@,
            location,
        },
        SymbolicCondition::ListOperation { operation, list, predicate, location } =>
            ConditionView::ListOperation {
            operation: operation@,
            list: list@,
            predicate: match predicate {
                Some(p) => Some(p@),
                None => None,
            },
            location,
        },
        SymbolicCondition::Assertion { condition, location } => ConditionView::Assertion {
            condition: Box::new(condition_view(*condition)),
            location,
        },
        SymbolicCondition::Custom {
            description,
            relates_to_inputs,
            relates_to_output_ref,
            location,
        } => ConditionView::Custom {
            description: description@,
            relates_to_inputs,
            relates_to_output_ref,
            location,
        },
    }
}

impl View for SymbolicCondition {
    type V = ConditionView;

    open spec fn view(&self) -> ConditionView {
        condition_view(*self)
    }
}

impl Clone for SymbolicCondition {
    fn clone(&self) -> (r: Self)
        ensures
            r@ == self@,
        decreases self,
    {
        match self {
            SymbolicCondition::Equals { left, right, location } => SymbolicCondition::Equals {
                left: left.clone(),
                right: right.clone(),
                location: *location,
            },
            SymbolicCondition::NotEquals { left, right, location } => SymbolicCondition::NotEquals {
                left: left.clone(),
                right: right.clone(),
                location: *location,
            },
            SymbolicCondition::ListOperation { operation, list, predicate, location } => {
                let predicate = match predicate {
                    Some(p) => Some(p.clone()),
                    None => None,
                };
                SymbolicCondition::ListOperation {
                    operation: operation.clone(),
                    list: list.clone(),
                    predicate,
                    location: *location,
                }
            },
            SymbolicCondition::Assertion { condition, location } => SymbolicCondition::Assertion {
                condition: Box::new((&**condition).clone()),
                location: *location,
            },
            SymbolicCondition::Custom {
                description,
                relates_to_inputs,
                relates_to_output_ref,
                location,
            } => SymbolicCondition::Custom {
                description: description.clone(),
                relates_to_inputs: *relates_to_inputs,
                relates_to_output_ref: *relates_to_output_ref,
                location: *location,
            },
        }
    }
}

/// The patterns that the analysis looks for.
#[derive(Debug, Clone, Copy, PartialEq, Eq, Structural)]
pub enum SecurityPatternKind {
    InputTokenCountComparison,
    DuplicateInputCheck,
}

/// A pattern that was found.
pub struct SecurityFinding {
    pub kind: SecurityPatternKind,
    /// How sure the finding is, from 0 to 100.
    pub confidence: u8,
    pub location: Span,
    pub description: String,
}

/// A finding, with its text as a sequence of characters.
#[verifier::ext_equal]
pub struct FindingView {
    pub kind: SecurityPatternKind,
    pub confidence: u8,
    pub location: Span,
    pub description: Seq<char>,
}

impl View for SecurityFinding {
    type V = FindingView;

    open spec fn view(&self) -> FindingView {
        FindingView {
            kind: self.kind,
            confidence: self.confidence,
            location: self.location,
            description: self.description@,
        }
    }
}

impl Clone for SecurityFinding {
    fn clone(&self) -> (r: Self)
        ensures
            r@ == self@,
    {
        SecurityFinding {
            kind: self.kind,
            confidence: self.confidence,
            location: self.location,
            description: self.description.clone(),
        }
    }
}

/// The findings that a vector holds.
pub open spec fn findings_view(v: Seq<SecurityFinding>) -> Seq<FindingView> {
    Seq::new(v.len(), |i: int| v[i]@)
}

} // verus!
