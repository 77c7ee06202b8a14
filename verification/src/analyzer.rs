//! The analyzer: the validators to look at, and the functions that they may call.
use crate::ast::{Function, TypedExpr, TypedNode, TypedValidator};
use crate::environment::{
    empty_environment, with_variable, EnvironmentView, SymbolicEnvironment,
};
use crate::name_map::{
    bind, lemma_position, lemma_position_by_names, lookup, position, NameMap,
};
use crate::text::{
    begins_with, concat2, concat3, contains, contains_text, decimal, decimal_text, ends_with,
    find_from, finishes_with, opt_text, pad_right, padded, position_from, starts_with, texts,
};
use crate::value::{derived_value, OriginView, SymbolicValue, ValueOrigin};
use std::rc::Rc;
use vstd::prelude::*;
use vstd::string::*;

verus! {

/// A parameter of a function, by the `Debug` representations of its name and type.
pub struct FunctionArgument {
    pub name: String,
    pub tipo: String,
}

/// What is known of a function that may be called.
pub struct FunctionInfo {
    /// The name with the module before it: `module::function`.
    pub qualified_name: String,
    pub body: Rc<TypedExpr>,
    pub definition: Rc<Function>,
    pub module_name: String,
    pub arguments: Vec<FunctionArgument>,
    /// The `Debug` representation of the type that the function returns.
    pub return_type: Option<String>,
    pub is_validator: bool,
    /// The place of the script context among the parameters, or -1.
    pub script_context_param_index: i32,
}

/// What is known of a function, with its texts as sequences of characters.
#[verifier::ext_equal]
pub struct FunctionView {
    pub qualified_name: Seq<char>,
    pub body: TypedExpr,
    pub definition: Function,
    pub module_name: Seq<char>,
    pub arguments: Seq<(Seq<char>, Seq<char>)>,
    pub return_type: Option<Seq<char>>,
    pub is_validator: bool,
    pub script_context_param_index: i32,
}

/// The names and types that a vector of parameters holds.
pub open spec fn arguments_view(v: Seq<FunctionArgument>) -> Seq<(Seq<char>, Seq<char>)> {
    Seq::new(v.len(), |i: int| (v[i].name@, v[i].tipo@))
}

impl View for FunctionInfo {
    type V = FunctionView;

    open spec fn view(&self) -> FunctionView {
        FunctionView {
            qualified_name: self.qualified_name@,
            body: *self.body,
            definition: *self.definition,
            module_name: self.module_name@,
            arguments: arguments_view(self.arguments@),
            return_type: opt_text(self.return_type),
            is_validator: self.is_validator,
            script_context_param_index: self.script_context_param_index,
        }
    }
}

/// `module::name`.
pub open spec fn qualified(module: Seq<char>, name: Seq<char>) -> Seq<char> {
    module + "::"@ + name
}

/// What is known of a function of `module` before any validator is looked at.
pub open spec fn described(function: Function, module: Seq<char>) -> FunctionView {
    FunctionView {
        qualified_name: qualified(module, function.name@),
        body: *function.body,
        definition: function,
        module_name: module,
        arguments: Seq::new(
            function.arguments@.len(),
            |i: int| (function.arguments@[i].arg_name@, function.arguments@[i].tipo@),
        ),
        return_type: Some(function.body.tipo@),
        is_validator: false,
        script_context_param_index: (-1) as i32,
    }
}

impl FunctionInfo {
    /// What is known of a function of a module.
    pub fn new(function: &Rc<Function>, module_name: &str) -> (r: Self)
        ensures
            r@ == described(**function, module_name@),
    {
        let mut arguments: Vec<FunctionArgument> = Vec::new();
        let mut i: usize = 0;
        while i < function.arguments.len()
            invariant
                i <= function.arguments.len(),
                arguments.len() == i,
                forall|j: int|
                    0 <= j < i ==> (#[trigger] arguments[j]).name@
                        == function.arguments@[j].arg_name@ && arguments[j].tipo@
                        == function.arguments@[j].tipo@,
            decreases function.arguments.len() - i,
        {
            arguments.push(
                FunctionArgument {
                    name: function.arguments[i].arg_name.clone(),
                    tipo: function.arguments[i].tipo.clone(),
                },
            );
            i = i + 1;
        }
        let r = FunctionInfo {
            qualified_name: concat3(module_name, "::", function.name.as_str()),
            body: function.body.clone(),
            definition: function.clone(),
            module_name: module_name.to_owned(),
            arguments,
            return_type: Some(function.body.tipo.clone()),
            is_validator: false,
            script_context_param_index: -1,
        };
        proof {
            assert(r@.arguments == described(**function, module_name@).arguments);
        }
        r
    }
}

impl Clone for FunctionInfo {
    fn clone(&self) -> (r: Self)
        ensures
            r@ == self@,
    {
        let mut arguments: Vec<FunctionArgument> = Vec::new();
        let mut i: usize = 0;
        while i < self.arguments.len()
            invariant
                i <= self.arguments.len(),
                arguments.len() == i,
                forall|j: int|
                    0 <= j < i ==> (#[trigger] arguments[j]).name@ == self.arguments[j].name@
                        && arguments[j].tipo@ == self.arguments[j].tipo@,
            decreases self.arguments.len() - i,
        {
            arguments.push(
                FunctionArgument {
                    name: self.arguments[i].name.clone(),
                    tipo: self.arguments[i].tipo.clone(),
                },
            );
            i = i + 1;
        }
        let return_type = match &self.return_type {
            Some(t) => Some(t.clone()),
            None => None,
        };
        let r = FunctionInfo {
            qualified_name: self.qualified_name.clone(),
            body: self.body.clone(),
            definition: self.definition.clone(),
            module_name: self.module_name.clone(),
            arguments,
            return_type,
            is_validator: self.is_validator,
            script_context_param_index: self.script_context_param_index,
        };
        proof {
            assert(r@.arguments == self@.arguments);
        }
        r
    }
}

/// The validators to look at, and the functions that they may call.
pub struct AstAnalyzer {
    pub validators: Vec<TypedValidator>,
    /// The bodies of the functions, by the functions' bare names.
    pub functions: NameMap<Rc<TypedExpr>>,
    /// The functions, by their qualified names.
    pub function_table: NameMap<FunctionInfo>,
}

/// An analyzer, with its texts as sequences of characters.
#[verifier::ext_equal]
pub struct AnalyzerView {
    pub validators: Seq<TypedValidator>,
    pub functions: Seq<(Seq<char>, TypedExpr)>,
    pub function_table: Seq<(Seq<char>, FunctionView)>,
}

/// The bodies of a map of functions.
pub open spec fn bodies_view(v: Seq<(Seq<char>, Rc<TypedExpr>)>) -> Seq<(Seq<char>, TypedExpr)> {
    Seq::new(v.len(), |i: int| (v[i].0, *v[i].1))
}

/// The functions of a map of functions.
pub open spec fn table_view(v: Seq<(Seq<char>, FunctionInfo)>) -> Seq<(Seq<char>, FunctionView)> {
    Seq::new(v.len(), |i: int| (v[i].0, v[i].1@))
}

impl View for AstAnalyzer {
    type V = AnalyzerView;

    open spec fn view(&self) -> AnalyzerView {
        AnalyzerView {
            validators: self.validators@,
            functions: bodies_view(self.functions@),
            function_table: table_view(self.function_table@),
        }
    }
}

/// The bare name inside the `Debug` representation of a parameter's name: the text between
/// the quotes after `name: `, or the whole text where there is none.
pub open spec fn bare_name(debug: Seq<char>) -> Seq<char> {
    match position_from(debug, "name: \""@, 0) {
        Some(i) => {
            let start = i + "name: \""@.len();
            match position_from(debug, "\""@, start) {
                Some(end) => debug.subrange(start, end),
                None => debug,
            }
        },
        None => debug,
    }
}

/// The place of the script context among a validator's parameters: the last one, if there
/// are at least three and its type is a script context.
pub open spec fn context_parameter(validator: TypedValidator) -> Option<int> {
    let arguments = validator.fun.arguments@;
    if arguments.len() >= 3 && contains_text(arguments.last().tipo@, "ScriptContext"@) {
        Some(arguments.len() - 1)
    } else {
        None
    }
}

/// The table with the function `name` marked as the code of `validator`.
pub open spec fn marked(
    table: Seq<(Seq<char>, FunctionView)>,
    name: Seq<char>,
    validator: TypedValidator,
) -> Seq<(Seq<char>, FunctionView)> {
    match lookup(table, name) {
        Some(info) => bind(
            table,
            name,
            FunctionView {
                is_validator: true,
                script_context_param_index: match context_parameter(validator) {
                    Some(i) => i as i32,
                    None => info.script_context_param_index,
                },
                ..info
            },
        ),
        None => table,
    }
}

/// The line that tells which parameter of a marked function is the script context.
pub open spec fn context_line(validator: TypedValidator) -> Option<Seq<char>> {
    match context_parameter(validator) {
        Some(i) => Some(
            "  Identified ScriptContext parameter '"@ + bare_name(
                validator.fun.arguments@[i].arg_name@,
            ) + "' at index "@ + decimal(i as nat),
        ),
        None => None,
    }
}

/// The environment in which the body of `validator` is executed: the script context, its
/// transaction, the transaction's inputs and its purpose are known by their paths.
pub open spec fn prepared(validator: TypedValidator) -> EnvironmentView {
    match context_parameter(validator) {
        Some(i) => {
            let argument = validator.fun.arguments@[i];
            let name = bare_name(argument.arg_name@);
            let known = |origin: OriginView| derived_value(origin, argument.tipo@, Seq::empty());
            let env = EnvironmentView {
                script_context_name: Some(name),
                ..with_variable(empty_environment(), name, known(OriginView::ScriptContext))
            };
            let env = with_variable(env, name + ".transaction"@, known(OriginView::Transaction));
            let env = with_variable(
                env,
                name + ".transaction.inputs"@,
                known(OriginView::TransactionInputs),
            );
            with_variable(env, name + ".purpose"@, known(OriginView::Purpose))
        },
        None => empty_environment(),
    }
}

/// A validator's body is executed outside every function.
pub proof fn lemma_prepared_level(validator: TypedValidator)
    ensures
        prepared(validator).function_level is None,
{
}

/// Whether entry `i` of the table is a function that the bare name `name` may refer to:
/// one with that name, outside the standard library.
pub open spec fn is_candidate(
    table: Seq<(Seq<char>, FunctionView)>,
    name: Seq<char>,
    i: int,
) -> bool {
    &&& 0 <= i < table.len()
    &&& finishes_with(table[i].0, "::"@ + name)
    &&& !begins_with(table[i].1.module_name, "aiken/"@)
}

/// The first candidate for `name` at or after entry `from`.
pub open spec fn candidate_from(
    table: Seq<(Seq<char>, FunctionView)>,
    name: Seq<char>,
    from: int,
) -> Option<FunctionView>
    decreases table.len() - from,
{
    if from >= table.len() {
        None
    } else if is_candidate(table, name, from) {
        Some(table[from].1)
    } else {
        candidate_from(table, name, from + 1)
    }
}

/// The function that is executed in place of a call of `fun`.
///
/// A bare name refers to the function with that name that was registered first; a selection
/// from a module refers to the function with the qualified name. Functions of the standard
/// library are never taken.
pub open spec fn function_to_inline(
    table: Seq<(Seq<char>, FunctionView)>,
    fun: TypedExpr,
) -> Option<FunctionView> {
    match fun.node {
        TypedNode::Var { name } => candidate_from(table, name@, 0),
        TypedNode::ModuleSelect { module_name, label } => {
            if begins_with(module_name@, "aiken/"@) {
                None
            } else {
                lookup(table, qualified(module_name@, label@))
            }
        },
        _ => None,
    }
}

/// The lines of a table of functions with the number of their parameters.
pub open spec fn table_rows(table: Seq<(Seq<char>, FunctionView)>) -> Seq<Seq<char>> {
    Seq::new(
        table.len(),
        |i: int|
            "| "@ + padded(table[i].0, 30) + " | "@ + padded(
                decimal(table[i].1.definition.arguments@.len()),
                15,
            ) + " |"@,
    )
}

/// The function table as text.
pub open spec fn function_table_text(table: Seq<(Seq<char>, FunctionView)>) -> Seq<Seq<char>> {
    seq![
        "\nFunction Table:"@,
        "--------------------------------------------------"@,
        "| "@ + padded("Qualified Name"@, 30) + " | "@ + padded("Arguments"@, 15) + " |"@,
        "--------------------------------------------------"@,
    ] + table_rows(table) + seq![
        "--------------------------------------------------"@,
        "Total functions: "@ + decimal(table.len()),
    ]
}

/// The lines that tell that a validator was added.
pub open spec fn added_lines(
    table: Seq<(Seq<char>, FunctionView)>,
    validator: TypedValidator,
) -> Seq<Seq<char>> {
    let added = seq!["  Adding validator: "@ + validator.fun.name@];
    let name = "validator::"@ + validator.fun.name@;
    match context_line(validator) {
        Some(line) if lookup(table, name) is Some => added.push(line),
        _ => added,
    }
}

/// The analyzer without validators and functions.
pub open spec fn empty_analyzer() -> AnalyzerView {
    AnalyzerView {
        validators: Seq::empty(),
        functions: Seq::empty(),
        function_table: Seq::empty(),
    }
}

/// The analyzer with one more function.
pub open spec fn with_function(
    analyzer: AnalyzerView,
    function: Function,
    module: Seq<char>,
) -> AnalyzerView {
    AnalyzerView {
        functions: bind(analyzer.functions, function.name@, *function.body),
        function_table: bind(
            analyzer.function_table,
            qualified(module, function.name@),
            described(function, module),
        ),
        ..analyzer
    }
}

/// The analyzer with one more validator. If the table holds the function `validator::` with
/// the validator's name, that function is marked as its code.
pub open spec fn with_validator(analyzer: AnalyzerView, validator: TypedValidator) -> AnalyzerView {
    AnalyzerView {
        validators: analyzer.validators.push(validator),
        function_table: marked(
            analyzer.function_table,
            "validator::"@ + validator.fun.name@,
            validator,
        ),
        ..analyzer
    }
}

proof fn lemma_table_view(table: Seq<(Seq<char>, FunctionInfo)>, name: Seq<char>)
    ensures
        position(table_view(table), name) == position(table, name),
        lookup(table_view(table), name) == (match lookup(table, name) {
            Some(f) => Some(f@),
            None => None,
        }),
{
    lemma_position_by_names(table, table_view(table), name);
    lemma_position(table, name);
}

proof fn lemma_bind_table_view(
    table: Seq<(Seq<char>, FunctionInfo)>,
    name: Seq<char>,
    info: FunctionInfo,
)
    ensures
        table_view(bind(table, name, info)) == bind(table_view(table), name, info@),
{
    lemma_table_view(table, name);
    lemma_position(table, name);
    assert(table_view(bind(table, name, info)) =~= bind(table_view(table), name, info@));
}

proof fn lemma_bind_bodies_view(
    bodies: Seq<(Seq<char>, Rc<TypedExpr>)>,
    name: Seq<char>,
    body: Rc<TypedExpr>,
)
    ensures
        bodies_view(bind(bodies, name, body)) == bind(bodies_view(bodies), name, *body),
{
    lemma_position_by_names(bodies, bodies_view(bodies), name);
    lemma_position(bodies, name);
    assert(bodies_view(bind(bodies, name, body)) =~= bind(bodies_view(bodies), name, *body));
}

impl AstAnalyzer {
    /// An analyzer without validators and functions.
    pub fn new() -> (r: Self)
        ensures
            r@ == empty_analyzer(),
    {
        let r = AstAnalyzer {
            validators: Vec::new(),
            functions: NameMap::new(),
            function_table: NameMap::new(),
        };
        proof {
            assert(r@.functions =~= Seq::empty());
            assert(r@.function_table =~= Seq::empty());
        }
        r
    }

    /// Adds a validator to look at. If the table holds the function `validator::` with the
    /// validator's name, that function is marked as its code.
    ///
    /// Returns what there is to tell about it, line by line.
    pub fn add_validator(&mut self, validator: TypedValidator) -> (lines: Vec<String>)
        ensures
            final(self)@ == with_validator(old(self)@, validator),
            texts(lines@) == added_lines(old(self)@.function_table, validator),
    {
        let name = concat2("validator::", validator.fun.name.as_str());
        let mut lines: Vec<String> = Vec::new();
        lines.push(concat2("  Adding validator: ", validator.fun.name.as_str()));
        match self.mark_as_validator(name.as_str(), &validator) {
            Some(line) => {
                lines.push(line);
            },
            None => {},
        }
        self.validators.push(validator);
        proof {
            assert(texts(lines@) =~= added_lines(
                old(self)@.function_table,
                validator,
            ));
        }
        lines
    }

    /// Registers the body of a function under its bare name.
    pub fn register_function(&mut self, name: String, body: Rc<TypedExpr>)
        ensures
            final(self)@ == (AnalyzerView {
                functions: bind(old(self)@.functions, name@, *body),
                ..old(self)@
            }),
    {
        proof {
            lemma_bind_bodies_view(self.functions@, name@, body);
        }
        let mut functions: NameMap<Rc<TypedExpr>> = NameMap::new();
        std::mem::swap(&mut functions, &mut self.functions);
        self.functions = functions.insert(name, body);
    }

    /// Registers a function of a module, under its qualified and under its bare name.
    pub fn register_function_with_module(&mut self, function: &Rc<Function>, module_name: &str)
        ensures
            final(self)@ == with_function(old(self)@, **function, module_name@),
    {
        let info = FunctionInfo::new(function, module_name);
        let name = info.qualified_name.clone();
        proof {
            lemma_bind_table_view(self.function_table@, name@, info);
        }
        let mut table: NameMap<FunctionInfo> = NameMap::new();
        std::mem::swap(&mut table, &mut self.function_table);
        self.function_table = table.insert(name, info);
        self.register_function(function.name.clone(), function.body.clone());
    }

    /// Marks the function `validator_name` as the code of `validator`, if the table holds
    /// it, and tells which of its parameters is the script context.
    pub fn mark_as_validator(&mut self, validator_name: &str, validator: &TypedValidator) -> (line:
        Option<String>)
        ensures
            final(self)@ == (AnalyzerView {
                function_table: marked(old(self)@.function_table, validator_name@, *validator),
                ..old(self)@
            }),
            opt_text(line) == (if lookup(old(self)@.function_table, validator_name@) is Some {
                context_line(*validator)
            } else {
                None
            }),
    {
        proof {
            lemma_table_view(self.function_table@, validator_name@);
        }
        let found = match self.function_table.get(validator_name) {
            Some(info) => Some(info.clone()),
            None => None,
        };
        let mut line: Option<String> = None;
        if let Some(known) = found {
            let mut info: FunctionInfo = known;
            info.is_validator = true;
            let n: usize = validator.fun.arguments.len();
            if n >= 3 {
                let last_idx: usize = n - 1;
                let arg = &validator.fun.arguments[last_idx];
                if contains(arg.tipo.as_str(), "ScriptContext") {
                    info.script_context_param_index = last_idx as i32;
                    let ctx_name = self.extract_name_from_arg(arg.arg_name.as_str());
                    let mut told = concat3(
                        "  Identified ScriptContext parameter '",
                        ctx_name.as_str(),
                        "' at index ",
                    );
                    told.append(decimal_text(last_idx).as_str());
                    line = Some(told);
                }
            }
            proof {
                lemma_bind_table_view(self.function_table@, validator_name@, info);
            }
            let mut table: NameMap<FunctionInfo> = NameMap::new();
            std::mem::swap(&mut table, &mut self.function_table);
            self.function_table = table.insert(validator_name.to_owned(), info);
        }
        line
    }

    /// The environment in which the body of a validator is executed.
    pub fn prepare_symbolic_execution(&self, validator: &TypedValidator) -> (r: SymbolicEnvironment)
        ensures
            r@ == prepared(*validator),
    {
        let mut env = SymbolicEnvironment::new();
        let n: usize = validator.fun.arguments.len();
        if n >= 3 {
            let arg = &validator.fun.arguments[n - 1];
            if contains(arg.tipo.as_str(), "ScriptContext") {
                let ctx_name = self.extract_name_from_arg(arg.arg_name.as_str());
                env.set_script_context(ctx_name.clone(), arg.tipo.clone());
                env.add_variable(
                    concat2(ctx_name.as_str(), ".transaction"),
                    SymbolicValue::new(ValueOrigin::Transaction, arg.tipo.clone()),
                );
                env.add_variable(
                    concat2(ctx_name.as_str(), ".transaction.inputs"),
                    SymbolicValue::new(ValueOrigin::TransactionInputs, arg.tipo.clone()),
                );
                env.add_variable(
                    concat2(ctx_name.as_str(), ".purpose"),
                    SymbolicValue::new(ValueOrigin::Purpose, arg.tipo.clone()),
                );
            }
        }
        env
    }

    /// The bare name inside the `Debug` representation of a parameter's name.
    pub fn extract_name_from_arg(&self, arg_name: &str) -> (r: String)
        ensures
            r@ == bare_name(arg_name@),
    {
        if let Some(i) = find_from(arg_name, "name: \"", 0) {
            let start: usize = i + "name: \"".unicode_len();
            if let Some(end) = find_from(arg_name, "\"", start) {
                return arg_name.substring_char(start, end).to_owned();
            }
        }
        arg_name.to_owned()
    }

    /// The function that is executed in place of a call of `fun`.
    pub fn find_function_to_inline(&self, fun: &TypedExpr) -> (r: Option<&FunctionInfo>)
        ensures
            match r {
                Some(f) => function_to_inline(self@.function_table, *fun) == Some(f@),
                None => function_to_inline(self@.function_table, *fun) is None,
            },
    {
        match &fun.node {
            TypedNode::Var { name } => {
                let suffix = concat2("::", name.as_str());
                let n: usize = self.function_table.len();
                let mut i: usize = 0;
                while i < n
                    invariant
                        i <= n == self@.function_table.len(),
                        n == self.function_table@.len(),
                        suffix@ == "::"@ + name@,
                        fun.node == (TypedNode::Var { name: *name }),
                        candidate_from(self@.function_table, name@, 0) == candidate_from(
                            self@.function_table,
                            name@,
                            i as int,
                        ),
                    decreases n - i,
                {
                    let info = self.function_table.value(i);
                    proof {
                        assert(self@.function_table[i as int] == (
                            self.function_table@[i as int].0,
                            info@,
                        ));
                    }
                    if ends_with(self.function_table.name(i).as_str(), suffix.as_str())
                        && !starts_with(info.module_name.as_str(), "aiken/") {
                        return Some(info);
                    }
                    i = i + 1;
                }
                None
            },
            TypedNode::ModuleSelect { module_name, label } => {
                if starts_with(module_name.as_str(), "aiken/") {
                    return None;
                }
                let name = concat3(module_name.as_str(), "::", label.as_str());
                proof {
                    lemma_table_view(self.function_table@, name@);
                }
                self.function_table.get(name.as_str())
            },
            _ => None,
        }
    }

    /// The function table as text, line by line.
    pub fn print_function_table(&self) -> (lines: Vec<String>)
        ensures
            texts(lines@) == function_table_text(self@.function_table),
    {
        let mut lines: Vec<String> = Vec::new();
        lines.push("\nFunction Table:".to_owned());
        lines.push("--------------------------------------------------".to_owned());
        let mut header = concat3("| ", pad_right("Qualified Name", 30).as_str(), " | ");
        header.append(pad_right("Arguments", 15).as_str());
        header.append(" |");
        lines.push(header);
        lines.push("--------------------------------------------------".to_owned());
        let ghost table = self@.function_table;
        let ghost head = texts(lines@);
        proof {
            assert(head =~= function_table_text(table).take(4));
            assert(head + table_rows(table).take(0) =~= head);
        }
        let n: usize = self.function_table.len();
        let mut i: usize = 0;
        while i < n
            invariant
                i <= n == table.len(),
                table == self@.function_table,
                texts(lines@) == head + table_rows(table).take(i as int),
            decreases n - i,
        {
            let info = self.function_table.value(i);
            let mut row = concat3(
                "| ",
                pad_right(self.function_table.name(i).as_str(), 30).as_str(),
                " | ",
            );
            let count = decimal_text(info.definition.arguments.len());
            row.append(pad_right(count.as_str(), 15).as_str());
            row.append(" |");
            proof {
                assert(row@ == table_rows(table)[i as int]);
            }
            let ghost before = lines@;
            lines.push(row);
            proof {
                assert(texts(lines@) =~= texts(before).push(row@));
                assert(table_rows(table).take(i + 1) =~= table_rows(table).take(i as int).push(
                    table_rows(table)[i as int],
                ));
                assert(texts(lines@) =~= head + table_rows(table).take(i + 1));
            }
            i = i + 1;
        }
        lines.push("--------------------------------------------------".to_owned());
        lines.push(concat2("Total functions: ", decimal_text(n).as_str()));
        proof {
            assert(table_rows(table).take(n as int) =~= table_rows(table));
            let full = function_table_text(table);
            assert(full.take(4) + table_rows(table) + full.skip(4 + n) =~= full);
            assert(texts(lines@) =~= full);
        }
        lines
    }
}

} // verus!
