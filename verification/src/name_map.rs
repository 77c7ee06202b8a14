//! A map from names to values that remembers the order in which the names came in.
use crate::text::same_text;
use vstd::prelude::*;
use vstd::string::*;

verus! {

/// The place of `name` among `entries`.
pub open spec fn position<V>(entries: Seq<(Seq<char>, V)>, name: Seq<char>) -> Option<int>
    decreases entries.len(),
{
    if entries.len() == 0 {
        None
    } else if entries.last().0 == name {
        Some(entries.len() - 1)
    } else {
        position(entries.drop_last(), name)
    }
}

/// What `name` stands for in `entries`.
pub open spec fn lookup<V>(entries: Seq<(Seq<char>, V)>, name: Seq<char>) -> Option<V> {
    match position(entries, name) {
        Some(i) => Some(entries[i].1),
        None => None,
    }
}

/// `entries` with `name` standing for `value`: in the place that the name has, or in a new
/// place at the end.
pub open spec fn bind<V>(entries: Seq<(Seq<char>, V)>, name: Seq<char>, value: V) -> Seq<
    (Seq<char>, V),
> {
    match position(entries, name) {
        Some(i) => entries.update(i, (name, value)),
        None => entries.push((name, value)),
    }
}

/// Whether no name has two entries.
pub open spec fn distinct_names<V>(entries: Seq<(Seq<char>, V)>) -> bool {
    forall|i: int, j: int|
        0 <= i < j < entries.len() ==> (#[trigger] entries[i]).0 != (#[trigger] entries[j]).0
}

/// The place of a name is an entry with that name, and a name without a place has no entry.
pub proof fn lemma_position<V>(entries: Seq<(Seq<char>, V)>, name: Seq<char>)
    ensures
        position(entries, name) matches Some(i) ==> 0 <= i < entries.len() && entries[i].0 == name,
        position(entries, name) is None ==> forall|j: int|
            0 <= j < entries.len() ==> (#[trigger] entries[j]).0 != name,
    decreases entries.len(),
{
    if entries.len() > 0 && entries.last().0 != name {
        lemma_position(entries.drop_last(), name);
        if position(entries, name) is None {
            assert forall|j: int| 0 <= j < entries.len() implies (#[trigger] entries[j]).0
                != name by {
                if j < entries.len() - 1 {
                    assert(entries.drop_last()[j] == entries[j]);
                }
            }
        }
    }
}

/// The place of a name rests on the names alone.
pub proof fn lemma_position_by_names<V, W>(
    a: Seq<(Seq<char>, V)>,
    b: Seq<(Seq<char>, W)>,
    name: Seq<char>,
)
    requires
        a.len() == b.len(),
        forall|i: int| 0 <= i < a.len() ==> (#[trigger] a[i]).0 == b[i].0,
    ensures
        position(a, name) == position(b, name),
    decreases a.len(),
{
    if a.len() > 0 {
        assert(a[a.len() - 1].0 == b[a.len() - 1].0);
        assert forall|i: int| 0 <= i < a.drop_last().len() implies (#[trigger] a.drop_last()[i]).0
            == b.drop_last()[i].0 by {
            assert(a[i].0 == b[i].0);
        }
        lemma_position_by_names(a.drop_last(), b.drop_last(), name);
    }
}

/// After binding a name, the name stands for the bound value, every other name stands for
/// what it stood for, and names that are distinct stay distinct.
pub proof fn law_bind_then_lookup<V>(
    entries: Seq<(Seq<char>, V)>,
    name: Seq<char>,
    value: V,
    other: Seq<char>,
)
    ensures
        distinct_names(entries) ==> distinct_names(bind(entries, name, value)),
        lookup(bind(entries, name, value), name) == Some(value),
        other != name ==> lookup(bind(entries, name, value), other) == lookup(entries, other),
{
    let bound = bind(entries, name, value);
    lemma_position(entries, name);
    lemma_position(bound, name);
    match position(entries, name) {
        Some(i) => {
            assert(bound[i].0 == name);
            assert forall|j: int| 0 <= j < entries.len() implies (#[trigger] entries[j]).0
                == bound[j].0 by {}
            lemma_position_by_names(entries, bound, name);
            lemma_position_by_names(entries, bound, other);
            lemma_position(entries, other);
            assert forall|j: int, k: int|
                distinct_names(entries) && 0 <= j < k < bound.len() implies (#[trigger] bound[j]).0
                != (#[trigger] bound[k]).0 by {
                assert(entries[j].0 != entries[k].0);
            }
        },
        None => {
            assert(bound.last() == (name, value));
            assert(bound.drop_last() == entries);
            lemma_position(entries, other);
            assert forall|j: int, k: int|
                distinct_names(entries) && 0 <= j < k < bound.len() implies (#[trigger] bound[j]).0
                != (#[trigger] bound[k]).0 by {
                assert(bound[j] == entries[j]);
                if k < entries.len() {
                    assert(bound[k] == entries[k]);
                    assert(entries[j].0 != entries[k].0);
                }
            }
        },
    }
}

/// A name that is bound keeps its place if it has one, and gets a new place behind all others if
/// not. No other entry moves or changes.
pub proof fn law_bound_names_keep_their_places<V>(
    entries: Seq<(Seq<char>, V)>,
    name: Seq<char>,
    value: V,
)
    ensures
        ({
            let bound = bind(entries, name, value);
            let known = exists|i: int|
                0 <= i < entries.len() && (#[trigger] entries[i]).0 == name;
            &&& known ==> bound.len() == entries.len()
            &&& !known ==> bound == entries.push((name, value))
            &&& forall|i: int|
                0 <= i < entries.len() ==> {
                    &&& (#[trigger] bound[i]).0 == entries[i].0
                    &&& entries[i].0 != name ==> bound[i] == entries[i]
                }
        }),
{
    lemma_position(entries, name);
}

/// A name stands for the value of its entry, and for nothing exactly if it has no entry.
pub proof fn law_lookup<V>(entries: Seq<(Seq<char>, V)>, name: Seq<char>, i: int)
    ensures
        distinct_names(entries) && 0 <= i < entries.len() && entries[i].0 == name ==> lookup(
            entries,
            name,
        ) == Some(entries[i].1),
        lookup(entries, name) is None <==> forall|j: int|
            0 <= j < entries.len() ==> (#[trigger] entries[j]).0 != name,
{
    lemma_position(entries, name);
    if distinct_names(entries) && 0 <= i < entries.len() && entries[i].0 == name {
        if let Some(k) = position(entries, name) {
            if k < i {
                assert(entries[k].0 != entries[i].0);
            } else if i < k {
                assert(entries[i].0 != entries[k].0);
            }
        } else {
            assert(entries[i].0 != name);
        }
    }
}

/// A map from names to values. No name occurs twice.
pub struct NameMap<V> {
    entries: Vec<(String, V)>,
}

/// The names and values that a vector of entries holds.
pub closed spec fn named<V>(entries: Seq<(String, V)>) -> Seq<(Seq<char>, V)> {
    Seq::new(entries.len(), |i: int| (entries[i].0@, entries[i].1))
}

impl<V> View for NameMap<V> {
    type V = Seq<(Seq<char>, V)>;

    closed spec fn view(&self) -> Seq<(Seq<char>, V)> {
        named(self.entries@)
    }
}

impl<V> NameMap<V> {
    #[verifier::type_invariant]
    spec fn well_formed(self) -> bool {
        distinct_names(named(self.entries@))
    }

    /// A map without entries.
    pub fn new() -> (r: Self)
        ensures
            r@ == Seq::<(Seq<char>, V)>::empty(),
    {
        let entries: Vec<(String, V)> = Vec::new();
        proof {
            assert(named(entries@) == Seq::<(Seq<char>, V)>::empty());
        }
        NameMap { entries }
    }

    /// How many names the map holds. They are distinct.
    pub fn len(&self) -> (r: usize)
        ensures
            r == self@.len(),
            distinct_names(self@),
    {
        proof {
            use_type_invariant(self);
        }
        self.entries.len()
    }

    /// The name of entry `i`.
    pub fn name(&self, i: usize) -> (r: &String)
        requires
            i < self@.len(),
        ensures
            r@ == self@[i as int].0,
    {
        &self.entries[i].0
    }

    /// The value of entry `i`.
    pub fn value(&self, i: usize) -> (r: &V)
        requires
            i < self@.len(),
        ensures
            *r == self@[i as int].1,
    {
        &self.entries[i].1
    }

    /// The place of a name.
    pub fn find(&self, name: &str) -> (r: Option<usize>)
        ensures
            match r {
                Some(i) => position(self@, name@) == Some(i as int) && i < self@.len(),
                None => position(self@, name@) is None,
            },
    {
        let mut i: usize = self.entries.len();
        proof {
            assert(self@.take(i as int) == self@);
        }
        while i > 0
            invariant
                i <= self@.len(),
                self@.len() == self.entries.len(),
                position(self@, name@) == position(self@.take(i as int), name@),
            decreases i,
        {
            let ghost before = self@.take(i as int);
            i = i - 1;
            proof {
                assert(before.last() == self@[i as int]);
                assert(before.drop_last() == self@.take(i as int));
            }
            if same_text(self.entries[i].0.as_str(), name) {
                return Some(i);
            }
        }
        None
    }

    /// What a name stands for.
    pub fn get(&self, name: &str) -> (r: Option<&V>)
        ensures
            match r {
                Some(v) => lookup(self@, name@) == Some(*v),
                None => lookup(self@, name@) is None,
            },
    {
        match self.find(name) {
            Some(i) => Some(&self.entries[i].1),
            None => None,
        }
    }

    /// The map with `name` standing for `value`.
    pub fn insert(self, name: String, value: V) -> (r: Self)
        ensures
            r@ == bind(self@, name@, value),
    {
        proof {
            use_type_invariant(&self);
            law_bind_then_lookup(self@, name@, value, name@);
            lemma_position(self@, name@);
        }
        let found = self.find(name.as_str());
        let ghost old_view = self@;
        let mut entries = self.entries;
        match found {
            Some(i) => {
                entries.set(i, (name, value));
            },
            None => {
                entries.push((name, value));
            },
        }
        proof {
            assert(named(entries@) == bind(old_view, name@, value));
        }
        NameMap { entries }
    }
}

} // verus!
