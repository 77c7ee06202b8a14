//! Analyze validator code using symbolic execution.
use crate::analyzer::{
    added_lines, empty_analyzer, with_function, with_validator, AnalyzerView, AstAnalyzer,
};
use crate::ast::{CheckedModule, ModuleKind, TypedDefinition};
use crate::report::report;
use crate::semantics::has_complete_calls;
use crate::text::{add_line, add_lines, concat2, concat3, decimal, decimal_text, texts};
use vstd::prelude::*;
use vstd::string::*;

verus! {

/// What the command takes.
pub struct Args {
    /// The path to the project.
    pub directory: Option<String>,
    /// Whether warnings are treated as errors.
    pub deny: bool,
}

/// What a run of the analysis says.
pub struct Analysis {
    pub lines: Vec<String>,
    /// Whether the validators could be analyzed.
    pub complete: bool,
}

/// The analyzer with the functions among `definitions`.
pub open spec fn with_functions(
    analyzer: AnalyzerView,
    definitions: Seq<TypedDefinition>,
    module: Seq<char>,
) -> AnalyzerView
    decreases definitions.len(),
{
    if definitions.len() == 0 {
        analyzer
    } else {
        let before = with_functions(analyzer, definitions.drop_last(), module);
        match definitions.last() {
            TypedDefinition::Fn(function) => with_function(before, *function, module),
            _ => before,
        }
    }
}

/// The analyzer with the validators among `definitions`.
pub open spec fn with_validators(
    analyzer: AnalyzerView,
    definitions: Seq<TypedDefinition>,
) -> AnalyzerView
    decreases definitions.len(),
{
    if definitions.len() == 0 {
        analyzer
    } else {
        let before = with_validators(analyzer, definitions.drop_last());
        match definitions.last() {
            TypedDefinition::Validator(validator) => with_validator(before, validator),
            _ => before,
        }
    }
}

/// What there is to tell about the validators among `definitions`, line by line.
pub open spec fn validators_told(
    analyzer: AnalyzerView,
    definitions: Seq<TypedDefinition>,
) -> Seq<Seq<char>>
    decreases definitions.len(),
{
    if definitions.len() == 0 {
        Seq::empty()
    } else {
        let before = validators_told(analyzer, definitions.drop_last());
        let table = with_validators(analyzer, definitions.drop_last()).function_table;
        match definitions.last() {
            TypedDefinition::Validator(validator) => before + added_lines(table, validator),
            _ => before,
        }
    }
}

/// The analyzer with a module: its functions and, if it holds validators, these.
pub open spec fn with_module(analyzer: AnalyzerView, module: CheckedModule) -> AnalyzerView {
    let known = with_functions(analyzer, module.definitions@, module.name@);
    if module.kind is Validator {
        with_validators(known, module.definitions@)
    } else {
        known
    }
}

/// What there is to tell about a module, line by line.
pub open spec fn module_told(analyzer: AnalyzerView, module: CheckedModule) -> Seq<Seq<char>> {
    let known = with_functions(analyzer, module.definitions@, module.name@);
    if module.kind is Validator {
        seq!["Found validator module: "@ + module.name@] + validators_told(
            known,
            module.definitions@,
        )
    } else {
        Seq::empty()
    }
}

/// The analyzer of a project.
pub open spec fn project_analyzer(modules: Seq<CheckedModule>) -> AnalyzerView
    decreases modules.len(),
{
    if modules.len() == 0 {
        empty_analyzer()
    } else {
        with_module(project_analyzer(modules.drop_last()), modules.last())
    }
}

/// What there is to tell about the modules of a project, line by line.
pub open spec fn modules_told(modules: Seq<CheckedModule>) -> Seq<Seq<char>>
    decreases modules.len(),
{
    if modules.len() == 0 {
        Seq::empty()
    } else {
        modules_told(modules.drop_last()) + module_told(
            project_analyzer(modules.drop_last()),
            modules.last(),
        )
    }
}

/// What is told while a project is taken in, line by line.
pub open spec fn project_told(modules: Seq<CheckedModule>) -> Seq<Seq<char>> {
    seq!["Found "@ + decimal(modules.len()) + " modules in the project"@] + modules_told(modules)
}

/// Whether the validators of an analyzer can be analyzed: whether the calls of tracked list
/// functions in their code, and in the functions that they call, are complete.
pub open spec fn analyzable(analyzer: AnalyzerView) -> bool {
    forall|i: int|
        0 <= i < analyzer.validators.len() ==> has_complete_calls(
            analyzer.function_table,
            *(#[trigger] analyzer.validators[i]).fun.body,
            true,
        )
}

impl AstAnalyzer {
    /// Whether the validators can be analyzed: their calls of list functions are complete.
    pub fn can_analyze(&self) -> (r: bool)
        ensures
            r == analyzable(self@),
    {
        let mut i: usize = 0;
        while i < self.validators.len()
            invariant
                i <= self.validators.len(),
                forall|k: int|
                    0 <= k < i ==> has_complete_calls(
                        self@.function_table,
                        *(#[trigger] self@.validators[k]).fun.body,
                        true,
                    ),
            decreases self.validators.len() - i,
        {
            if !self.can_execute(&*self.validators[i].fun.body, true) {
                proof {
                    assert(!has_complete_calls(
                        self@.function_table,
                        *self@.validators[i as int].fun.body,
                        true,
                    ));
                }
                return false;
            }
            i = i + 1;
        }
        true
    }

    /// Takes in a module. Returns what there is to tell about it, line by line.
    pub fn add_module(&mut self, module: CheckedModule) -> (lines: Vec<String>)
        ensures
            final(self)@ == with_module(old(self)@, module),
            texts(lines@) == module_told(old(self)@, module),
    {
        let ghost start = self@;
        let ghost all = module.definitions@;
        let ghost name = module.name@;
        let mut i: usize = 0;
        while i < module.definitions.len()
            invariant
                i <= module.definitions.len(),
                all == module.definitions@,
                name == module.name@,
                self@ == with_functions(start, all.take(i as int), name),
            decreases module.definitions.len() - i,
        {
            proof {
                assert(all.take(i + 1).drop_last() =~= all.take(i as int));
                assert(all.take(i + 1).last() == all[i as int]);
            }
            if let TypedDefinition::Fn(function) = &module.definitions[i] {
                self.register_function_with_module(function, module.name.as_str());
            }
            i = i + 1;
        }
        let ghost known = self@;
        let mut lines: Vec<String> = Vec::new();
        proof {
            assert(all.take(i as int) =~= all);
            assert(texts(lines@) =~= Seq::empty());
        }
        if let ModuleKind::Validator = module.kind {
            let mut told: Vec<String> = Vec::new();
            let mut rest = module.definitions;
            proof {
                assert(texts(told@) =~= Seq::empty());
            }
            let mut n: usize = rest.len();
            let ghost mut done: int = 0;
            while n > 0
                invariant
                    0 <= done <= all.len(),
                    n == rest.len() == all.len() - done,
                    rest@ == all.skip(done),
                    self@ == with_validators(known, all.take(done)),
                    texts(told@) == validators_told(known, all.take(done)),
                decreases n,
            {
                proof {
                    assert(rest@[0] == all[done]);
                    assert(rest@.remove(0) =~= all.skip(done + 1));
                    assert(all.take(done + 1).drop_last() =~= all.take(done));
                    assert(all.take(done + 1).last() == all[done]);
                }
                if let TypedDefinition::Validator(validator) = rest.remove(0) {
                    let more = self.add_validator(validator);
                    add_lines(&mut told, more);
                }
                proof {
                    done = done + 1;
                }
                n = n - 1;
            }
            proof {
                assert(all.take(done) =~= all);
            }
            add_line(&mut lines, concat2("Found validator module: ", module.name.as_str()));
            proof {
                assert(texts(lines@) =~= seq!["Found validator module: "@ + name]);
            }
            add_lines(&mut lines, told);
        }
        lines
    }
}

/// Takes in the modules of a project and analyzes the validators among them.
///
/// The lines are the progress and the report. Single steps of the execution (which variable was
/// bound, which function was looked into) are not told.
pub fn exec(modules: Vec<CheckedModule>) -> (r: Analysis)
    ensures
        r.complete == analyzable(project_analyzer(modules@)),
        texts(r.lines@) == project_told(modules@) + (if r.complete {
            report(
                project_analyzer(modules@).function_table,
                project_analyzer(modules@).validators,
            )
        } else {
            Seq::empty()
        }),
{
    let ghost all = modules@;
    let mut lines: Vec<String> = Vec::new();
    lines.push(
        concat3("Found ", decimal_text(modules.len()).as_str(), " modules in the project"),
    );
    proof {
        assert(texts(lines@) =~= seq![
            "Found "@ + decimal(all.len()) + " modules in the project"@,
        ]);
    }
    let mut analyzer = AstAnalyzer::new();
    let mut told: Vec<String> = Vec::new();
    let mut rest = modules;
    proof {
        assert(texts(told@) =~= Seq::empty());
    }
    let mut n: usize = rest.len();
    let ghost mut done: int = 0;
    while n > 0
        invariant
            0 <= done <= all.len(),
            n == rest.len() == all.len() - done,
            rest@ == all.skip(done),
            analyzer@ == project_analyzer(all.take(done)),
            texts(told@) == modules_told(all.take(done)),
        decreases n,
    {
        proof {
            assert(rest@[0] == all[done]);
            assert(rest@.remove(0) =~= all.skip(done + 1));
            assert(all.take(done + 1).drop_last() =~= all.take(done));
            assert(all.take(done + 1).last() == all[done]);
        }
        let more = analyzer.add_module(rest.remove(0));
        add_lines(&mut told, more);
        proof {
            done = done + 1;
        }
        n = n - 1;
    }
    proof {
        assert(all.take(done) =~= all);
    }
    add_lines(&mut lines, told);
    let complete = analyzer.can_analyze();
    if complete {
        let more = analyzer.analyze();
        add_lines(&mut lines, more);
    }
    proof {
        assert(complete || texts(lines@) =~= project_told(all) + Seq::empty());
    }
    Analysis { lines, complete }
}

} // verus!
