//! An environment as text.
use crate::ast::Span;
use crate::environment::{shows_duplicate_check, EnvironmentView, SymbolicEnvironment};
use crate::text::{
    add_line, add_lines, concat2, concat3, decimal, decimal_text, is_less, join, joined, pad_right,
    padded, quote, quoted, text_less, texts,
};
use crate::value::{
    origin_debug, value_text, ConditionView, SymbolicCondition, SymbolicValue, ValueView,
};
use vstd::prelude::*;
use vstd::string::*;

verus! {

/// `true` or `false`.
pub open spec fn flag_text(flag: bool) -> Seq<char> {
    if flag {
        "true"@
    } else {
        "false"@
    }
}

/// The positions of a span, with two dots between them.
pub open spec fn span_text(span: Span) -> Seq<char> {
    decimal(span.start as nat) + ".."@ + decimal(span.end as nat)
}

/// All that is known of a value.
pub open spec fn value_debug(v: ValueView) -> Seq<char> {
    "SymbolicValue { origin: "@ + origin_debug(v.origin) + ", value_type: "@ + v.value_type
        + ", derived_from: ["@ + joined(
        Seq::new(v.derived_from.len(), |i: int| origin_debug(v.derived_from[i])),
        ", "@,
    ) + "], is_address_comparison: "@ + flag_text(v.is_address_comparison) + " }"@
}

/// All that is known of a condition.
pub open spec fn condition_debug(c: ConditionView) -> Seq<char>
    decreases c,
{
    match c {
        ConditionView::Equals { left, right, location } => "Equals { left: "@ + value_debug(left)
            + ", right: "@ + value_debug(right) + ", location: "@ + span_text(location) + " }"@,
        ConditionView::NotEquals { left, right, location } => "NotEquals { left: "@ + value_debug(
            left,
        ) + ", right: "@ + value_debug(right) + ", location: "@ + span_text(location) + " }"@,
        ConditionView::ListOperation { operation, list, predicate, location } =>
            "ListOperation { operation: "@ + quoted(operation) + ", list: "@ + value_debug(list)
            + ", predicate: "@ + (match predicate {
            Some(p) => "Some("@ + value_debug(p) + ")"@,
            None => "None"@,
        }) + ", location: "@ + span_text(location) + " }"@,
        ConditionView::Assertion { condition, location } => "Assertion { condition: "@
            + condition_debug(*condition) + ", location: "@ + span_text(location) + " }"@,
        ConditionView::Custom {
            description,
            relates_to_inputs,
            relates_to_output_ref,
            location,
        } => "Custom { description: "@ + quoted(description) + ", relates_to_inputs: "@ + flag_text(
            relates_to_inputs,
        ) + ", relates_to_output_ref: "@ + flag_text(relates_to_output_ref) + ", location: "@
            + span_text(location) + " }"@,
    }
}

/// A condition, as it is listed.
pub open spec fn condition_text(c: ConditionView) -> Seq<char> {
    match c {
        ConditionView::Equals { left, right, .. } => ". EQUALS: "@ + value_text(left) + " == "@
            + value_text(right),
        ConditionView::NotEquals { left, right, .. } => ". NOT EQUALS: "@ + value_text(left)
            + " != "@ + value_text(right),
        ConditionView::ListOperation { operation, list, predicate, .. } => ". LIST."@ + operation
            + ": on "@ + value_text(list) + " with predicate "@ + (match predicate {
            Some(p) => if p.is_address_comparison {
                value_text(p) + " (address comparison)"@
            } else {
                value_text(p)
            },
            None => "(no predicate)"@,
        }),
        ConditionView::Assertion { condition, .. } => ". ASSERTION: "@ + condition_debug(
            *condition,
        ),
        ConditionView::Custom { description, .. } => ". CUSTOM: "@ + description,
    }
}

/// The conditions, numbered from one, line by line.
pub open spec fn condition_lines(conditions: Seq<ConditionView>) -> Seq<Seq<char>> {
    Seq::new(
        conditions.len(),
        |i: int| decimal((i + 1) as nat) + condition_text(conditions[i]),
    )
}

/// `sorted`, which is ordered by name, with one more entry in its place.
pub open spec fn insert_by_name(
    sorted: Seq<(Seq<char>, ValueView)>,
    entry: (Seq<char>, ValueView),
) -> Seq<(Seq<char>, ValueView)>
    decreases sorted.len(),
{
    if sorted.len() == 0 || !text_less(entry.0, sorted.last().0) {
        sorted.push(entry)
    } else {
        insert_by_name(sorted.drop_last(), entry).push(sorted.last())
    }
}

/// The entries, ordered by name.
pub open spec fn sorted_by_name(entries: Seq<(Seq<char>, ValueView)>) -> Seq<
    (Seq<char>, ValueView),
>
    decreases entries.len(),
{
    if entries.len() == 0 {
        Seq::empty()
    } else {
        insert_by_name(sorted_by_name(entries.drop_last()), entries.last())
    }
}

/// Whether the entries are ordered by name.
pub open spec fn ordered(entries: Seq<(Seq<char>, ValueView)>) -> bool {
    forall|i: int, j: int|
        0 <= i < j < entries.len() ==> !text_less(
            (#[trigger] entries[j]).0,
            (#[trigger] entries[i]).0,
        )
}

proof fn lemma_less_asymmetric(a: Seq<char>, b: Seq<char>)
    requires
        text_less(a, b),
    ensures
        !text_less(b, a),
    decreases a.len(),
{
    if a.len() > 0 && b.len() > 0 && a[0] == b[0] {
        lemma_less_asymmetric(a.drop_first(), b.drop_first());
    }
}

proof fn lemma_not_less_transitive(a: Seq<char>, b: Seq<char>, c: Seq<char>)
    requires
        !text_less(b, a),
        !text_less(c, b),
    ensures
        !text_less(c, a),
    decreases a.len(),
{
    if a.len() > 0 && b.len() > 0 && c.len() > 0 && a[0] == b[0] && b[0] == c[0] {
        lemma_not_less_transitive(a.drop_first(), b.drop_first(), c.drop_first());
    }
}

proof fn lemma_insert_by_name(
    sorted: Seq<(Seq<char>, ValueView)>,
    entry: (Seq<char>, ValueView),
)
    requires
        ordered(sorted),
    ensures
        ordered(insert_by_name(sorted, entry)),
        insert_by_name(sorted, entry).to_multiset() == sorted.to_multiset().insert(entry),
        forall|i: int|
            0 <= i < insert_by_name(sorted, entry).len() ==> {
                ||| (#[trigger] insert_by_name(sorted, entry)[i]) == entry
                ||| sorted.contains(insert_by_name(sorted, entry)[i])
            },
    decreases sorted.len(),
{
    broadcast use vstd::seq_lib::group_to_multiset_ensures;

    let r = insert_by_name(sorted, entry);
    if sorted.len() == 0 || !text_less(entry.0, sorted.last().0) {
        assert forall|i: int, j: int| 0 <= i < j < r.len() implies !text_less(
            (#[trigger] r[j]).0,
            (#[trigger] r[i]).0,
        ) by {
            if j == sorted.len() {
                if i < sorted.len() - 1 {
                    assert(!text_less(sorted[sorted.len() - 1].0, sorted[i].0));
                    lemma_not_less_transitive(sorted[i].0, sorted.last().0, entry.0);
                }
            }
        }
        assert forall|i: int| 0 <= i < r.len() implies (#[trigger] r[i]) == entry
            || sorted.contains(r[i]) by {
            if i < sorted.len() {
                assert(sorted[i] == r[i]);
            }
        }
    } else {
        let front = sorted.drop_last();
        let inner = insert_by_name(front, entry);
        lemma_insert_by_name(front, entry);
        lemma_less_asymmetric(entry.0, sorted.last().0);
        assert forall|i: int| 0 <= i < inner.len() implies !text_less(
            sorted.last().0,
            (#[trigger] inner[i]).0,
        ) by {
            if inner[i] != entry {
                let k = choose|k: int| 0 <= k < front.len() && front[k] == inner[i];
                assert(sorted[k] == inner[i]);
                assert(!text_less(sorted[sorted.len() - 1].0, sorted[k].0));
            }
        }
        assert forall|i: int, j: int| 0 <= i < j < r.len() implies !text_less(
            (#[trigger] r[j]).0,
            (#[trigger] r[i]).0,
        ) by {
            assert(r[i] == inner[i]);
            if j < inner.len() {
                assert(r[j] == inner[j]);
            }
        }
        assert forall|i: int| 0 <= i < r.len() implies (#[trigger] r[i]) == entry
            || sorted.contains(r[i]) by {
            if i < inner.len() {
                assert(r[i] == inner[i]);
                if inner[i] != entry {
                    let k = choose|k: int| 0 <= k < front.len() && front[k] == inner[i];
                    assert(sorted[k] == inner[i]);
                }
            } else {
                assert(sorted[sorted.len() - 1] == r[i]);
            }
        }
        assert(sorted =~= front.push(sorted.last()));
        assert(front.to_multiset().insert(entry).insert(sorted.last())
            =~= front.to_multiset().insert(sorted.last()).insert(entry));
    }
}

/// The listing of variables is ordered by name and holds each variable just as often as the
/// environment does.
pub proof fn law_sorted_by_name(entries: Seq<(Seq<char>, ValueView)>)
    ensures
        ordered(sorted_by_name(entries)),
        sorted_by_name(entries).to_multiset() == entries.to_multiset(),
    decreases entries.len(),
{
    broadcast use vstd::seq_lib::group_to_multiset_ensures;

    if entries.len() > 0 {
        law_sorted_by_name(entries.drop_last());
        lemma_insert_by_name(sorted_by_name(entries.drop_last()), entries.last());
        assert(entries =~= entries.drop_last().push(entries.last()));
    } else {
        assert(entries =~= Seq::empty());
    }
}

/// A variable, as it is listed. A star marks a comparison of addresses.
pub open spec fn variable_row(name: Seq<char>, value: ValueView) -> Seq<char> {
    let shown = if value.is_address_comparison {
        name + "*"@
    } else {
        name
    };
    padded(shown, 40) + " | "@ + value_text(value) + " | "@ + padded(value.value_type, 40)
}

/// The variables, ordered by name, line by line.
pub open spec fn variable_rows(variables: Seq<(Seq<char>, ValueView)>) -> Seq<Seq<char>> {
    let sorted = sorted_by_name(variables);
    Seq::new(sorted.len(), |i: int| variable_row(sorted[i].0, sorted[i].1))
}

/// A line across the page.
pub open spec fn rule() -> Seq<char> {
    "-----------------------------------------------------------------------------------------------------------------------------"@
}

/// An environment as text, line by line.
pub open spec fn environment_lines(env: EnvironmentView) -> Seq<Seq<char>> {
    let checked = exists|i: int|
        0 <= i < env.conditions.len() && shows_duplicate_check(#[trigger] env.conditions[i]);
    seq!["\n=== SYMBOLIC ENVIRONMENT STATE ==="@] + seq![
        match env.script_context_name {
            Some(ctx) => "ScriptContext parameter: "@ + ctx,
            None => "ScriptContext not identified"@,
        },
    ] + seq!["\n--- TRACKED VARIABLES ---"@] + seq![
        padded("Variable"@, 40) + " | "@ + padded("Value"@, 40) + " | "@ + padded("Type"@, 40),
    ] + seq![rule()] + (if env.variables.len() == 0 {
        seq!["No variables tracked yet"@]
    } else {
        variable_rows(env.variables)
    }) + seq!["\n--- CONDITIONS ---"@] + (if env.conditions.len() == 0 {
        seq!["No conditions tracked yet"@]
    } else {
        condition_lines(env.conditions)
    }) + seq!["\n--- SECURITY ANALYSIS ---"@] + seq![
        if checked {
            "✅ Duplicate input checking detected"@
        } else {
            "❌ No duplicate input checking detected"@
        },
    ] + seq![rule()]
}

fn flag(b: bool) -> (r: &'static str)
    ensures
        r@ == flag_text(b),
{
    if b {
        "true"
    } else {
        "false"
    }
}

fn span(s: Span) -> (r: String)
    ensures
        r@ == span_text(s),
{
    concat3(decimal_text(s.start).as_str(), "..", decimal_text(s.end).as_str())
}

/// All that is known of a value.
fn debug_value(v: &SymbolicValue) -> (r: String)
    ensures
        r@ == value_debug(v@),
{
    let mut r = concat2("SymbolicValue { origin: ", v.origin.to_debug().as_str());
    r.append(", value_type: ");
    r.append(v.value_type.as_str());
    r.append(", derived_from: [");
    let mut parts: Vec<String> = Vec::new();
    let mut i: usize = 0;
    while i < v.derived_from.len()
        invariant
            i <= v.derived_from.len(),
            parts.len() == i,
            forall|j: int|
                0 <= j < i ==> (#[trigger] parts[j])@ == origin_debug(v.derived_from[j]@),
        decreases v.derived_from.len() - i,
    {
        parts.push(v.derived_from[i].to_debug());
        i = i + 1;
    }
    proof {
        assert(texts(parts@) =~= Seq::new(
            v@.derived_from.len(),
            |i: int| origin_debug(v@.derived_from[i]),
        ));
    }
    r.append(join(&parts, ", ").as_str());
    r.append("], is_address_comparison: ");
    r.append(flag(v.is_address_comparison));
    r.append(" }");
    r
}

/// All that is known of a condition.
fn debug_condition(c: &SymbolicCondition) -> (r: String)
    ensures
        r@ == condition_debug(c@),
    decreases c,
{
    match c {
        SymbolicCondition::Equals { left, right, location } => {
            let mut r = concat3("Equals { left: ", debug_value(left).as_str(), ", right: ");
            r.append(debug_value(right).as_str());
            r.append(", location: ");
            r.append(span(*location).as_str());
            r.append(" }");
            r
        },
        SymbolicCondition::NotEquals { left, right, location } => {
            let mut r = concat3("NotEquals { left: ", debug_value(left).as_str(), ", right: ");
            r.append(debug_value(right).as_str());
            r.append(", location: ");
            r.append(span(*location).as_str());
            r.append(" }");
            r
        },
        SymbolicCondition::ListOperation { operation, list, predicate, location } => {
            let mut r = concat3(
                "ListOperation { operation: ",
                quote(operation.as_str()).as_str(),
                ", list: ",
            );
            r.append(debug_value(list).as_str());
            r.append(", predicate: ");
            let shown = match predicate {
                Some(p) => concat3("Some(", debug_value(p).as_str(), ")"),
                None => "None".to_owned(),
            };
            r.append(shown.as_str());
            r.append(", location: ");
            r.append(span(*location).as_str());
            r.append(" }");
            r
        },
        SymbolicCondition::Assertion { condition, location } => {
            let mut r = concat3(
                "Assertion { condition: ",
                debug_condition(condition).as_str(),
                ", location: ",
            );
            r.append(span(*location).as_str());
            r.append(" }");
            r
        },
        SymbolicCondition::Custom {
            description,
            relates_to_inputs,
            relates_to_output_ref,
            location,
        } => {
            let mut r = concat3(
                "Custom { description: ",
                quote(description.as_str()).as_str(),
                ", relates_to_inputs: ",
            );
            r.append(flag(*relates_to_inputs));
            r.append(", relates_to_output_ref: ");
            r.append(flag(*relates_to_output_ref));
            r.append(", location: ");
            r.append(span(*location).as_str());
            r.append(" }");
            r
        },
    }
}

/// A condition, as it is listed.
fn list_condition(c: &SymbolicCondition) -> (r: String)
    ensures
        r@ == condition_text(c@),
{
    match c {
        SymbolicCondition::Equals { left, right, .. } => {
            let mut r = concat3(". EQUALS: ", left.to_text().as_str(), " == ");
            r.append(right.to_text().as_str());
            r
        },
        SymbolicCondition::NotEquals { left, right, .. } => {
            let mut r = concat3(". NOT EQUALS: ", left.to_text().as_str(), " != ");
            r.append(right.to_text().as_str());
            r
        },
        SymbolicCondition::ListOperation { operation, list, predicate, .. } => {
            let mut r = concat3(". LIST.", operation.as_str(), ": on ");
            r.append(list.to_text().as_str());
            r.append(" with predicate ");
            let shown = match predicate {
                Some(p) => {
                    if p.is_address_comparison {
                        concat2(p.to_text().as_str(), " (address comparison)")
                    } else {
                        p.to_text()
                    }
                },
                None => "(no predicate)".to_owned(),
            };
            r.append(shown.as_str());
            r
        },
        SymbolicCondition::Assertion { condition, .. } => concat2(
            ". ASSERTION: ",
            debug_condition(condition).as_str(),
        ),
        SymbolicCondition::Custom { description, .. } => concat2(
            ". CUSTOM: ",
            description.as_str(),
        ),
    }
}

/// A variable, as it is listed.
fn list_variable(name: &str, value: &SymbolicValue) -> (r: String)
    ensures
        r@ == variable_row(name@, value@),
{
    let shown = if value.is_address_comparison {
        concat2(name, "*")
    } else {
        name.to_owned()
    };
    let mut r = concat3(pad_right(shown.as_str(), 40).as_str(), " | ", value.to_text().as_str());
    r.append(" | ");
    r.append(pad_right(value.value_type.as_str(), 40).as_str());
    r
}

/// The entries at the places `order`.
pub open spec fn picked(
    entries: Seq<(Seq<char>, ValueView)>,
    order: Seq<usize>,
) -> Seq<(Seq<char>, ValueView)> {
    Seq::new(order.len(), |i: int| entries[order[i] as int])
}

impl SymbolicEnvironment {
    /// The places of the variables, ordered by name.
    fn order_by_name(&self) -> (order: Vec<usize>)
        ensures
            order@.len() == self@.variables.len(),
            forall|k: int| 0 <= k < order@.len() ==> (#[trigger] order@[k]) < self@.variables.len(),
            picked(self@.variables, order@) == sorted_by_name(self@.variables),
    {
        let ghost all = self@.variables;
        let n: usize = self.variables.len();
        let mut order: Vec<usize> = Vec::new();
        let mut i: usize = 0;
        proof {
            assert(picked(all, order@) =~= Seq::empty());
        }
        while i < n
            invariant
                i <= n == all.len(),
                all == self@.variables,
                n == self.variables@.len(),
                order.len() == i,
                forall|k: int| 0 <= k < order@.len() ==> (#[trigger] order@[k]) < n,
                picked(all, order@) == sorted_by_name(all.take(i as int)),
            decreases n - i,
        {
            let ghost sorted = picked(all, order@);
            let ghost entry = all[i as int];
            let mut p: usize = order.len();
            proof {
                assert(all.take(i + 1).drop_last() =~= all.take(i as int));
                assert(all.take(i + 1).last() == entry);
                assert(sorted.take(p as int) =~= sorted);
                assert(insert_by_name(sorted, entry) + sorted.skip(p as int) =~= insert_by_name(
                    sorted,
                    entry,
                ));
            }
            while p > 0 && is_less(
                self.variables.name(i).as_str(),
                self.variables.name(order[p - 1]).as_str(),
            )
                invariant
                    p <= order.len(),
                    i < n == all.len(),
                    n == self.variables@.len(),
                    all == self@.variables,
                    forall|k: int| 0 <= k < order@.len() ==> (#[trigger] order@[k]) < n,
                    sorted == picked(all, order@),
                    entry == all[i as int],
                    insert_by_name(sorted, entry) == insert_by_name(sorted.take(p as int), entry)
                        + sorted.skip(p as int),
                decreases p,
            {
                proof {
                    let here = sorted.take(p as int);
                    assert(here.last() == sorted[p - 1]);
                    assert(here.drop_last() =~= sorted.take(p - 1));
                    assert(seq![sorted[p - 1]] + sorted.skip(p as int) =~= sorted.skip(p - 1));
                    assert(insert_by_name(here, entry) + sorted.skip(p as int) =~= insert_by_name(
                        sorted.take(p - 1),
                        entry,
                    ) + sorted.skip(p - 1));
                }
                p = p - 1;
            }
            proof {
                let here = sorted.take(p as int);
                if p > 0 {
                    assert(here.last() == sorted[p - 1]);
                }
                assert(insert_by_name(here, entry) == here.push(entry));
            }
            order.insert(p, i);
            proof {
                assert(picked(all, order@) =~= sorted.take(p as int).push(entry) + sorted.skip(
                    p as int,
                ));
            }
            i = i + 1;
        }
        proof {
            assert(all.take(i as int) =~= all);
        }
        order
    }

    /// The environment as text, line by line.
    pub fn debug_print(&self) -> (lines: Vec<String>)
        ensures
            texts(lines@) == environment_lines(self@),
    {
        let line = "-----------------------------------------------------------------------------------------------------------------------------";
        let mut lines: Vec<String> = Vec::new();
        lines.push("\n=== SYMBOLIC ENVIRONMENT STATE ===".to_owned());
        proof {
            assert(texts(lines@) =~= seq!["\n=== SYMBOLIC ENVIRONMENT STATE ==="@]);
        }
        let context = match &self.script_context_name {
            Some(ctx) => concat2("ScriptContext parameter: ", ctx.as_str()),
            None => "ScriptContext not identified".to_owned(),
        };
        add_line(&mut lines, context);
        add_line(&mut lines, "\n--- TRACKED VARIABLES ---".to_owned());
        let mut header = concat3(
            pad_right("Variable", 40).as_str(),
            " | ",
            pad_right("Value", 40).as_str(),
        );
        header.append(" | ");
        header.append(pad_right("Type", 40).as_str());
        add_line(&mut lines, header);
        add_line(&mut lines, line.to_owned());
        if self.variables.len() == 0 {
            add_line(&mut lines, "No variables tracked yet".to_owned());
        } else {
            let order = self.order_by_name();
            let ghost sorted = sorted_by_name(self@.variables);
            let mut rows: Vec<String> = Vec::new();
            let mut i: usize = 0;
            while i < order.len()
                invariant
                    i <= order.len() == sorted.len(),
                    rows.len() == i,
                    sorted == picked(self@.variables, order@),
                    forall|k: int|
                        0 <= k < order@.len() ==> (#[trigger] order@[k]) < self@.variables.len(),
                    forall|k: int|
                        0 <= k < i ==> (#[trigger] rows@[k])@ == variable_row(
                            sorted[k].0,
                            sorted[k].1,
                        ),
                decreases order.len() - i,
            {
                let at: usize = order[i];
                proof {
                    assert(sorted[i as int] == self@.variables[at as int]);
                }
                rows.push(
                    list_variable(self.variables.name(at).as_str(), self.variables.value(at)),
                );
                i = i + 1;
            }
            proof {
                assert(texts(rows@) =~= variable_rows(self@.variables));
            }
            add_lines(&mut lines, rows);
        }
        add_line(&mut lines, "\n--- CONDITIONS ---".to_owned());
        if self.conditions.len() == 0 {
            add_line(&mut lines, "No conditions tracked yet".to_owned());
        } else {
            let mut rows: Vec<String> = Vec::new();
            let mut i: usize = 0;
            while i < self.conditions.len()
                invariant
                    i <= self.conditions.len(),
                    rows.len() == i,
                    forall|k: int|
                        0 <= k < i ==> (#[trigger] rows@[k])@ == decimal((k + 1) as nat)
                            + condition_text(self@.conditions[k]),
                decreases self.conditions.len() - i,
            {
                rows.push(
                    concat2(
                        decimal_text(i + 1).as_str(),
                        list_condition(&self.conditions[i]).as_str(),
                    ),
                );
                i = i + 1;
            }
            proof {
                assert(texts(rows@) =~= condition_lines(self@.conditions));
            }
            add_lines(&mut lines, rows);
        }
        add_line(&mut lines, "\n--- SECURITY ANALYSIS ---".to_owned());
        let verdict = if self.has_duplicate_input_check() {
            "✅ Duplicate input checking detected"
        } else {
            "❌ No duplicate input checking detected"
        };
        add_line(&mut lines, verdict.to_owned());
        add_line(&mut lines, line.to_owned());
        lines
    }
}

} // verus!
