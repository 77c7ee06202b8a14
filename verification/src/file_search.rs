//! The search for the source files of a project, directory by directory.
use crate::export_ast::{has_source_extension, is_source};
use crate::text::{opt_text, same_text};
use vstd::prelude::*;

verus! {

/// An entry of a directory.
pub struct Entry {
    /// What stands for the path of the entry.
    pub id: usize,
    pub is_dir: bool,
    pub file_name: Option<String>,
    /// What stands behind the last dot of the file name.
    pub extension: Option<String>,
}

/// Whether the search looks into the entry: into every directory that is not named `target`.
pub open spec fn is_searched(e: Entry) -> bool {
    e.is_dir && opt_text(e.file_name) != Some("target"@)
}

/// Whether the entry is a source file.
pub open spec fn is_source_file(e: Entry) -> bool {
    !e.is_dir && is_source(e.extension)
}

/// The source files among the entries, in order.
pub open spec fn source_files(entries: Seq<Entry>) -> Seq<usize>
    decreases entries.len(),
{
    if entries.len() == 0 {
        Seq::empty()
    } else if is_source_file(entries[0]) {
        seq![entries[0].id] + source_files(entries.skip(1))
    } else {
        source_files(entries.skip(1))
    }
}

/// How many entries stand before the first directory that is searched.
pub open spec fn before_directory(entries: Seq<Entry>) -> nat
    decreases entries.len(),
{
    if entries.len() == 0 || is_searched(entries[0]) {
        0
    } else {
        1 + before_directory(entries.skip(1))
    }
}

/// What the search needs next.
#[derive(Debug, Clone, Copy, PartialEq, Eq, Structural)]
pub enum SearchStep {
    /// The entries of this directory.
    ReadDirectory(usize),
    /// Nothing: all the files are found.
    Finished,
}

/// A search: the files found, and the entries that are still to be looked at.
pub struct FileSearch {
    /// The entries in reverse: the next one stands last.
    pending: Vec<Entry>,
    found: Vec<usize>,
}

/// The two parts of a search: the entries that are still to be looked at, in order, and the
/// files found.
pub struct SearchView {
    pub pending: Seq<Entry>,
    pub found: Seq<usize>,
}

impl View for FileSearch {
    type V = SearchView;

    closed spec fn view(&self) -> SearchView {
        SearchView { pending: self.pending@.reverse(), found: self.found@ }
    }
}

/// A search after the entries of a directory became known: they are looked at first.
pub open spec fn entered(s: SearchView, entries: Seq<Entry>) -> SearchView {
    SearchView { pending: entries + s.pending, found: s.found }
}

/// A search that has gone on to the next directory, or to the end.
pub open spec fn advanced(s: SearchView) -> SearchView {
    let n = before_directory(s.pending) as int;
    SearchView {
        pending: if n < s.pending.len() {
            s.pending.skip(n + 1)
        } else {
            Seq::empty()
        },
        found: s.found + source_files(s.pending.take(n)),
    }
}

/// What a search needs next.
pub open spec fn needed(s: SearchView) -> SearchStep {
    let n = before_directory(s.pending) as int;
    if n < s.pending.len() {
        SearchStep::ReadDirectory(s.pending[n].id)
    } else {
        SearchStep::Finished
    }
}

proof fn lemma_before_directory(entries: Seq<Entry>)
    ensures
        before_directory(entries) <= entries.len(),
    decreases entries.len(),
{
    if entries.len() > 0 && !is_searched(entries[0]) {
        lemma_before_directory(entries.skip(1));
    }
}

/// One entry that is not searched is passed over.
pub proof fn lemma_pass(s: SearchView, found: Seq<usize>)
    requires
        s.pending.len() > 0,
        !is_searched(s.pending[0]),
        found == if is_source_file(s.pending[0]) {
            s.found.push(s.pending[0].id)
        } else {
            s.found
        },
    ensures
        advanced(s) == advanced(SearchView { pending: s.pending.skip(1), found }),
        needed(s) == needed(SearchView { pending: s.pending.skip(1), found }),
{
    let rest = s.pending.skip(1);
    let n = before_directory(rest) as int;
    lemma_before_directory(rest);
    assert(before_directory(s.pending) == n + 1);
    assert(s.pending.take(n + 1).skip(1) =~= rest.take(n));
    assert(s.pending.take(n + 1)[0] == s.pending[0]);
    assert(s.found + source_files(s.pending.take(n + 1)) =~= found + source_files(rest.take(n)));
    if n < rest.len() {
        assert(s.pending.skip(n + 2) =~= rest.skip(n + 1));
    }
}

impl FileSearch {
    /// A search that has found nothing and has nothing to look at.
    pub fn new() -> (r: FileSearch)
        ensures
            r@ == (SearchView { pending: Seq::empty(), found: Seq::empty() }),
    {
        let r = FileSearch { pending: Vec::new(), found: Vec::new() };
        assert(r.pending@.reverse() =~= Seq::<Entry>::empty());
        r
    }

    /// Goes on with the entries of a directory.
    pub fn enter(self, entries: Vec<Entry>) -> (r: FileSearch)
        ensures
            r@ == entered(self@, entries@),
    {
        let ghost before = self@;
        let ghost all = entries@;
        let mut entries = entries;
        let mut pending = self.pending;
        while entries.len() > 0
            invariant
                entries@ + pending@.reverse() == all + before.pending,
            decreases entries.len(),
        {
            let ghost front = entries@.drop_last();
            let ghost e = entries@.last();
            let ghost stack = pending@;
            match entries.pop() {
                Some(entry) => {
                    pending.push(entry);
                },
                None => {},
            }
            proof {
                assert(pending@.reverse() =~= seq![e] + stack.reverse());
                assert(front + (seq![e] + stack.reverse()) =~= front.push(e) + stack.reverse());
                assert(front.push(e) =~= front + seq![e]);
                assert(entries@ =~= front);
            }
        }
        assert(entries@ + pending@.reverse() =~= pending@.reverse());
        FileSearch { pending, found: self.found }
    }

    /// Looks at entries until a directory is needed or none are left.
    pub fn advance(self) -> (r: (FileSearch, SearchStep))
        ensures
            r.0@ == advanced(self@),
            r.1 == needed(self@),
    {
        let ghost before = self@;
        let mut pending = self.pending;
        let mut found = self.found;
        while pending.len() > 0
            invariant
                before == self@,
                advanced(SearchView { pending: pending@.reverse(), found: found@ }) == advanced(
                    before,
                ),
                needed(SearchView { pending: pending@.reverse(), found: found@ }) == needed(before),
            decreases pending.len(),
        {
            let ghost s = SearchView { pending: pending@.reverse(), found: found@ };
            let ghost rest = pending@.drop_last();
            let ghost last = pending@.last();
            proof {
                assert(s.pending[0] == last);
                assert(s.pending.skip(1) =~= rest.reverse());
            }
            match pending.pop() {
                Some(entry) => {
                    let is_target = match &entry.file_name {
                        Some(name) => same_text(name.as_str(), "target"),
                        None => false,
                    };
                    if entry.is_dir && !is_target {
                        assert(s.pending.take(0) =~= Seq::empty());
                        assert(s.found + Seq::<usize>::empty() =~= s.found);
                        return (FileSearch { pending, found }, SearchStep::ReadDirectory(entry.id));
                    }
                    if !entry.is_dir && has_source_extension(&entry.extension) {
                        found.push(entry.id);
                    }
                    proof {
                        lemma_pass(s, found@);
                    }
                },
                None => {},
            }
        }
        proof {
            assert(pending@.reverse() =~= Seq::empty());
            assert(pending@.reverse().take(0) =~= Seq::empty());
            assert(found@ + Seq::<usize>::empty() =~= found@);
        }
        (FileSearch { pending, found }, SearchStep::Finished)
    }

    /// The files found, in order.
    pub fn into_found(self) -> (r: Vec<usize>)
        ensures
            r@ == self@.found,
    {
        self.found
    }
}

/// A directory tree: an entry, and what stands below it.
pub struct Tree {
    pub entry: Entry,
    pub children: Seq<Tree>,
}

/// The entries at the roots of the trees.
pub open spec fn roots(trees: Seq<Tree>) -> Seq<Entry> {
    Seq::new(trees.len(), |i: int| trees[i].entry)
}

/// The source files in a tree: below a directory that is searched, those of its children; else
/// the entry itself, if it is a source file.
pub open spec fn files_in_tree(tree: Tree) -> Seq<usize>
    decreases tree, 0nat,
{
    if is_searched(tree.entry) {
        files_in_trees(tree.children)
    } else if is_source_file(tree.entry) {
        seq![tree.entry.id]
    } else {
        Seq::empty()
    }
}

/// The source files in the trees, in order.
pub open spec fn files_in_trees(trees: Seq<Tree>) -> Seq<usize>
    decreases trees, trees.len(),
{
    if trees.len() == 0 {
        Seq::empty()
    } else {
        files_in_tree(trees[0]) + files_in_trees(trees.skip(1))
    }
}

proof fn lemma_files_concat(a: Seq<Tree>, b: Seq<Tree>)
    ensures
        files_in_trees(a + b) == files_in_trees(a) + files_in_trees(b),
    decreases a.len(),
{
    if a.len() == 0 {
        assert(a + b =~= b);
        assert(files_in_trees(a) + files_in_trees(b) =~= files_in_trees(b));
    } else {
        lemma_files_concat(a.skip(1), b);
        assert((a + b).skip(1) =~= a.skip(1) + b);
        assert(files_in_tree(a[0]) + (files_in_trees(a.skip(1)) + files_in_trees(b)) =~= (
        files_in_tree(a[0]) + files_in_trees(a.skip(1))) + files_in_trees(b));
    }
}

/// The trees before the first directory that is searched hold just their own source files.
proof fn lemma_files_before(trees: Seq<Tree>)
    ensures
        ({
            let n = before_directory(roots(trees)) as int;
            &&& n <= trees.len()
            &&& n < trees.len() ==> is_searched(trees[n].entry)
            &&& files_in_trees(trees.take(n)) == source_files(roots(trees).take(n))
        }),
    decreases trees.len(),
{
    let n = before_directory(roots(trees)) as int;
    if trees.len() == 0 {
        assert(trees.take(0) =~= Seq::empty());
        assert(roots(trees).take(0) =~= Seq::empty());
    } else if is_searched(trees[0].entry) {
        assert(roots(trees)[0] == trees[0].entry);
        assert(trees.take(0) =~= Seq::empty());
        assert(roots(trees).take(0) =~= Seq::empty());
    } else {
        assert(roots(trees)[0] == trees[0].entry);
        lemma_files_before(trees.skip(1));
        assert(roots(trees).skip(1) =~= roots(trees.skip(1)));
        assert(trees.take(n).skip(1) =~= trees.skip(1).take(n - 1));
        assert(roots(trees).take(n).skip(1) =~= roots(trees.skip(1)).take(n - 1));
        assert(trees.take(n)[0] == trees[0]);
        assert(roots(trees).take(n)[0] == trees[0].entry);
        assert(n == before_directory(roots(trees.skip(1))) + 1);
        if n < trees.len() {
            assert(trees.skip(1)[n - 1] == trees[n]);
        }
        assert(files_in_trees(trees.take(n)) == files_in_tree(trees[0]) + files_in_trees(
            trees.skip(1).take(n - 1),
        ));
        if !is_source_file(trees[0].entry) {
            assert(Seq::<usize>::empty() + files_in_trees(trees.skip(1).take(n - 1))
                =~= files_in_trees(trees.skip(1).take(n - 1)));
        }
    }
}

/// The search finds just the source files of the trees that it is led through, in order: while
/// it needs a directory and is answered with what stands in it, the files found and those in the
/// trees still to be looked at stay the same; and when it needs none, all are found.
pub proof fn law_search_finds_source_files(s: SearchView, trees: Seq<Tree>)
    requires
        s.pending == roots(trees),
    ensures
        needed(s) is Finished ==> advanced(s).found == s.found + files_in_trees(trees),
        needed(s) is ReadDirectory ==> ({
            let n = before_directory(s.pending) as int;
            let children = trees[n].children;
            let left = children + trees.skip(n + 1);
            let after = entered(advanced(s), roots(children));
            &&& needed(s) == SearchStep::ReadDirectory(trees[n].entry.id)
            &&& after.pending == roots(left)
            &&& after.found + files_in_trees(left) == s.found + files_in_trees(trees)
        }),
{
    let n = before_directory(s.pending) as int;
    lemma_files_before(trees);
    assert(trees =~= trees.take(n) + trees.skip(n));
    lemma_files_concat(trees.take(n), trees.skip(n));
    if n < trees.len() {
        let children = trees[n].children;
        assert(trees.skip(n)[0] == trees[n]);
        assert(trees.skip(n).skip(1) =~= trees.skip(n + 1));
        lemma_files_concat(children, trees.skip(n + 1));
        let left = children + trees.skip(n + 1);
        let after = entered(advanced(s), roots(children));
        assert(files_in_trees(trees.skip(n)) == files_in_tree(trees[n]) + files_in_trees(
            trees.skip(n + 1),
        ));
        assert(files_in_tree(trees[n]) == files_in_trees(children));
        assert(after.pending =~= roots(left));
        assert(after.found + files_in_trees(left) =~= s.found + files_in_trees(trees));
    } else {
        assert(trees.skip(n) =~= Seq::empty());
        assert(trees.take(n) =~= trees);
    }
}

/// How many directories in a tree are searched.
pub open spec fn directories_in_tree(tree: Tree) -> nat
    decreases tree, 0nat,
{
    if is_searched(tree.entry) {
        1 + directories_in_trees(tree.children)
    } else {
        0
    }
}

/// How many directories in the trees are searched.
pub open spec fn directories_in_trees(trees: Seq<Tree>) -> nat
    decreases trees, trees.len(),
{
    if trees.len() == 0 {
        0
    } else {
        directories_in_tree(trees[0]) + directories_in_trees(trees.skip(1))
    }
}

/// What a search has found at its end, when it is answered with what stands in the trees and
/// asks for `n` directories at most.
pub open spec fn found_at_end(s: SearchView, trees: Seq<Tree>, n: nat) -> Option<Seq<usize>>
    decreases n,
{
    match needed(s) {
        SearchStep::Finished => Some(advanced(s).found),
        SearchStep::ReadDirectory(_) => if n == 0 {
            None
        } else {
            let i = before_directory(s.pending) as int;
            let children = trees[i].children;
            found_at_end(
                entered(advanced(s), roots(children)),
                children + trees.skip(i + 1),
                (n - 1) as nat,
            )
        },
    }
}

proof fn lemma_directories_concat(a: Seq<Tree>, b: Seq<Tree>)
    ensures
        directories_in_trees(a + b) == directories_in_trees(a) + directories_in_trees(b),
    decreases a.len(),
{
    if a.len() == 0 {
        assert(a + b =~= b);
    } else {
        lemma_directories_concat(a.skip(1), b);
        assert((a + b).skip(1) =~= a.skip(1) + b);
    }
}

/// A search that is led through trees reads each directory to be searched once, and ends with
/// just the source files of the trees, in order, behind what it had found before.
pub proof fn law_search_ends(s: SearchView, trees: Seq<Tree>)
    requires
        s.pending == roots(trees),
    ensures
        found_at_end(s, trees, directories_in_trees(trees)) == Some(
            s.found + files_in_trees(trees),
        ),
        forall|n: nat|
            n < directories_in_trees(trees) ==> #[trigger] found_at_end(s, trees, n) is None,
    decreases directories_in_trees(trees),
{
    law_search_finds_source_files(s, trees);
    let i = before_directory(s.pending) as int;
    lemma_files_before(trees);
    assert(trees =~= trees.take(i) + trees.skip(i));
    lemma_directories_concat(trees.take(i), trees.skip(i));
    lemma_no_directories_before(trees);
    if i < trees.len() {
        let children = trees[i].children;
        let left = children + trees.skip(i + 1);
        let after = entered(advanced(s), roots(children));
        assert(trees.skip(i)[0] == trees[i]);
        assert(trees.skip(i).skip(1) =~= trees.skip(i + 1));
        lemma_directories_concat(children, trees.skip(i + 1));
        assert(directories_in_tree(trees[i]) == 1 + directories_in_trees(children));
        assert(directories_in_trees(trees) == 1 + directories_in_trees(left));
        law_search_ends(after, left);
        assert forall|n: nat| n < directories_in_trees(trees) implies #[trigger] found_at_end(
            s,
            trees,
            n,
        ) is None by {
            if n > 0 {
                assert(found_at_end(after, left, (n - 1) as nat) is None);
            }
        }
    } else {
        assert(trees.skip(i) =~= Seq::empty());
        assert(directories_in_trees(trees.skip(i)) == 0);
    }
}

proof fn lemma_no_directories_before(trees: Seq<Tree>)
    ensures
        directories_in_trees(trees.take(before_directory(roots(trees)) as int)) == 0,
    decreases trees.len(),
{
    let n = before_directory(roots(trees)) as int;
    lemma_files_before(trees);
    if trees.len() == 0 {
        assert(trees.take(0) =~= Seq::empty());
    } else {
        assert(roots(trees)[0] == trees[0].entry);
        if is_searched(trees[0].entry) {
            assert(trees.take(0) =~= Seq::empty());
        } else {
            assert(roots(trees).skip(1) =~= roots(trees.skip(1)));
            lemma_no_directories_before(trees.skip(1));
            assert(trees.take(n).skip(1) =~= trees.skip(1).take(n - 1));
            assert(trees.take(n)[0] == trees[0]);
            assert(n == before_directory(roots(trees.skip(1))) + 1);
            assert(directories_in_tree(trees[0]) == 0);
        }
    }
}

} // verus!
