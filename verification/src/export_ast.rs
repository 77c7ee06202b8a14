//! The export of the syntax of modules.
use crate::ast::{ModuleKind, Span};
use crate::serializable::{
    SerializableArgument, SerializableConstructor, SerializableDefinition,
    SerializableExpression, SerializableField, SerializableImport, SerializableModule,
    SerializableTypeAnnotation, SerializableUnqualifiedImport,
};
use crate::serialize::{annotation_exported, copy_text, serialize_annotation};
use crate::serialize_expression::{expression_exported, serialize_expression};
use crate::text::{concat2, contains, contains_text, join, joined, opt_text, same_text, texts};
use crate::untyped::{
    Annotation, ArgName, RecordConstructor, RecordField, UnqualifiedImport, UntypedArg,
    UntypedDefinition, UntypedExpr, UntypedFunction, UntypedModule,
};
use vstd::prelude::*;
use vstd::string::*;

verus! {

/// What is to be exported, and where to.
pub struct Args {
    /// Paths of projects or of individual files.
    pub paths: Vec<String>,
    /// The directory that the exports are written to.
    pub output_dir: String,
    /// Whether the bodies of definitions are exported too.
    pub detailed: bool,
}

/// What is known of a path.
pub struct PathFacts {
    pub is_file: bool,
    pub is_dir: bool,
    /// What stands behind the last dot of the file name.
    pub extension: Option<String>,
}

/// What is to be done about a path.
pub enum PathAction {
    /// Export the one file.
    ExportFile { path: String, detailed: bool },
    /// Export all the files below the directory.
    ExportProject { path: String, detailed: bool },
    /// Do nothing but report.
    Skip { message: String },
}

/// Whether a file with this extension holds a module.
pub open spec fn is_source(extension: Option<String>) -> bool {
    opt_text(extension) == Some("ak"@)
}

/// Whether a file with this extension holds a module.
pub fn has_source_extension(extension: &Option<String>) -> (r: bool)
    ensures
        r == is_source(*extension),
{
    match extension {
        Some(e) => same_text(e.as_str(), "ak"),
        None => false,
    }
}

/// Whether `a` is what is to be done about the path.
pub open spec fn action_for(
    path: Seq<char>,
    facts: PathFacts,
    detailed: bool,
    a: PathAction,
) -> bool {
    if facts.is_file && is_source(facts.extension) {
        a matches PathAction::ExportFile { path: p, detailed: d } && p@ == path && d == detailed
    } else if facts.is_dir {
        a matches PathAction::ExportProject { path: p, detailed: d } && p@ == path && d
            == detailed
    } else {
        a matches PathAction::Skip { message } && message@ == "Skipping invalid path: "@ + path
    }
}

/// What is to be done about path `i`, given what is known of it when its turn comes.
pub fn exec(args: &Args, i: usize, facts: &PathFacts) -> (r: PathAction)
    requires
        i < args.paths@.len(),
    ensures
        action_for(args.paths@[i as int]@, *facts, args.detailed, r),
{
    let path = args.paths[i].clone();
    if facts.is_file && has_source_extension(&facts.extension) {
        PathAction::ExportFile { path, detailed: args.detailed }
    } else if facts.is_dir {
        PathAction::ExportProject { path, detailed: args.detailed }
    } else {
        PathAction::Skip { message: concat2("Skipping invalid path: ", path.as_str()) }
    }
}

/// The kind of the module in a file: a validator where the path tells of validators.
pub open spec fn kind_of_file(path: Seq<char>) -> ModuleKind {
    if contains_text(path, "validators"@) {
        ModuleKind::Validator
    } else {
        ModuleKind::Lib
    }
}

/// The kind of the module in the file at `path`.
pub fn module_kind(path: &str) -> (r: ModuleKind)
    ensures
        r == kind_of_file(path@),
{
    if contains(path, "validators") {
        ModuleKind::Validator
    } else {
        ModuleKind::Lib
    }
}

/// The name of the file to which the module in the file `file_name` is exported.
pub fn output_file_name(file_name: &str) -> (r: String)
    ensures
        r@ == file_name@ + ".ast.json"@,
{
    concat2(file_name, ".ast.json")
}

/// A copy of some texts.
fn copy_texts(v: &Vec<String>) -> (r: Vec<String>)
    ensures
        texts(r@) == texts(v@),
{
    let mut r: Vec<String> = Vec::new();
    let mut i: usize = 0;
    while i < v.len()
        invariant
            i <= v.len(),
            r.len() == i,
            forall|k: int| 0 <= k < i ==> (#[trigger] r@[k])@ == v@[k]@,
        decreases v.len() - i,
    {
        r.push(v[i].clone());
        i = i + 1;
    }
    assert(texts(r@) =~= texts(v@));
    r
}

/// Whether `r` is the export of the comment `doc`.
pub open spec fn doc_exported(doc: Option<String>, r: Option<Vec<String>>) -> bool {
    match doc {
        Some(d) => r matches Some(v) && texts(v@) == seq![d@],
        None => r is None,
    }
}

/// The export of a comment.
fn serialize_doc(doc: &Option<String>) -> (r: Option<Vec<String>>)
    ensures
        doc_exported(*doc, r),
{
    match doc {
        Some(d) => {
            let v = vec![d.clone()];
            assert(texts(v@) =~= seq![d@]);
            Some(v)
        },
        None => None,
    }
}

/// Whether `r` is the export of the type `a`, if there is one.
pub open spec fn optional_annotation_exported(
    a: Option<Annotation>,
    r: Option<SerializableTypeAnnotation>,
) -> bool {
    match a {
        Some(x) => r matches Some(y) && annotation_exported(x, y),
        None => r is None,
    }
}

/// The export of a type, if there is one.
fn serialize_optional_annotation(a: &Option<Annotation>) -> (r: Option<
    SerializableTypeAnnotation,
>)
    ensures
        optional_annotation_exported(*a, r),
{
    match a {
        Some(x) => Some(serialize_annotation(x)),
        None => None,
    }
}

/// Whether `r` is the export of a body: the expression in detail, else nothing.
pub open spec fn body_exported(
    e: UntypedExpr,
    detailed: bool,
    r: Option<SerializableExpression>,
) -> bool {
    if detailed {
        r matches Some(x) && expression_exported(e, x)
    } else {
        r is None
    }
}

/// The export of a body.
fn serialize_body(e: &UntypedExpr, detailed: bool) -> (r: Option<SerializableExpression>)
    ensures
        body_exported(*e, detailed, r),
{
    if detailed {
        Some(serialize_expression(e))
    } else {
        None
    }
}

/// Whether `r` is the export of the parameter `a`. A discarded one has no name.
pub open spec fn argument_exported(a: UntypedArg, r: SerializableArgument) -> bool {
    &&& r.name@ == match a.arg_name {
        ArgName::Named { name } => name@,
        ArgName::Discarded { .. } => "_"@,
    }
    &&& optional_annotation_exported(a.annotation, r.annotation)
}

/// Whether `r` holds the exports of the parameters `a`, in order.
pub open spec fn arguments_exported(
    a: Seq<UntypedArg>,
    r: Option<Vec<SerializableArgument>>,
) -> bool {
    &&& r matches Some(v)
    &&& v@.len() == a.len()
    &&& forall|i: int| 0 <= i < a.len() ==> argument_exported(#[trigger] a[i], v@[i])
}

/// The exports of parameters.
fn serialize_arguments(a: &Vec<UntypedArg>) -> (r: Option<Vec<SerializableArgument>>)
    ensures
        arguments_exported(a@, r),
{
    let mut v: Vec<SerializableArgument> = Vec::new();
    let mut i: usize = 0;
    while i < a.len()
        invariant
            i <= a.len(),
            v.len() == i,
            forall|k: int| 0 <= k < i ==> argument_exported(#[trigger] a@[k], v@[k]),
        decreases a.len() - i,
    {
        let name = match &a[i].arg_name {
            ArgName::Named { name } => name.clone(),
            ArgName::Discarded { .. } => "_".to_owned(),
        };
        v.push(
            SerializableArgument { name, annotation: serialize_optional_annotation(&a[i].annotation) },
        );
        i = i + 1;
    }
    Some(v)
}

/// Whether `r` is the export of the field `f`.
pub open spec fn field_exported(f: RecordField, r: SerializableField) -> bool {
    &&& opt_text(r.name) == opt_text(f.label)
    &&& r.annotation matches Some(a) && annotation_exported(f.annotation, a)
}

/// Whether `r` is the export of the constructor `c`.
pub open spec fn constructor_exported(c: RecordConstructor, r: SerializableConstructor) -> bool {
    &&& r.name@ == c.name@
    &&& r.fields@.len() == c.arguments@.len()
    &&& forall|i: int|
        0 <= i < c.arguments@.len() ==> field_exported(#[trigger] c.arguments@[i], r.fields@[i])
}

/// The export of a constructor.
fn serialize_constructor(c: &RecordConstructor) -> (r: SerializableConstructor)
    ensures
        constructor_exported(*c, r),
{
    let mut fields: Vec<SerializableField> = Vec::new();
    let mut i: usize = 0;
    while i < c.arguments.len()
        invariant
            i <= c.arguments.len(),
            fields.len() == i,
            forall|k: int|
                0 <= k < i ==> field_exported(#[trigger] c.arguments@[k], fields@[k]),
        decreases c.arguments.len() - i,
    {
        fields.push(
            SerializableField {
                name: copy_text(&c.arguments[i].label),
                annotation: Some(serialize_annotation(&c.arguments[i].annotation)),
            },
        );
        i = i + 1;
    }
    SerializableConstructor { name: c.name.clone(), fields }
}

/// Whether `r` holds the exports of the constructors `c`, in order.
pub open spec fn constructors_exported(
    c: Seq<RecordConstructor>,
    r: Option<Vec<SerializableConstructor>>,
) -> bool {
    &&& r matches Some(v)
    &&& v@.len() == c.len()
    &&& forall|i: int| 0 <= i < c.len() ==> constructor_exported(#[trigger] c[i], v@[i])
}

/// The exports of constructors.
fn serialize_constructors(c: &Vec<RecordConstructor>) -> (r: Option<Vec<SerializableConstructor>>)
    ensures
        constructors_exported(c@, r),
{
    let mut v: Vec<SerializableConstructor> = Vec::new();
    let mut i: usize = 0;
    while i < c.len()
        invariant
            i <= c.len(),
            v.len() == i,
            forall|k: int| 0 <= k < i ==> constructor_exported(#[trigger] c@[k], v@[k]),
        decreases c.len() - i,
    {
        v.push(serialize_constructor(&c[i]));
        i = i + 1;
    }
    Some(v)
}

/// Whether `r` is the export of the imported name `u`.
pub open spec fn unqualified_exported(
    u: UnqualifiedImport,
    r: SerializableUnqualifiedImport,
) -> bool {
    &&& r.name@ == u.name@
    &&& opt_text(r.as_name) == opt_text(u.as_name)
    &&& r.location == u.location
}

/// Whether `r` is the export of an import: the path of the module, the name that it is given,
/// and the names that are imported from it, in order.
pub open spec fn import_exported(
    module: Seq<String>,
    as_name: Option<String>,
    unqualified: Seq<UnqualifiedImport>,
    r: Option<SerializableImport>,
) -> bool {
    &&& r matches Some(v)
    &&& texts(v.module@) == texts(module)
    &&& opt_text(v.as_name) == opt_text(as_name)
    &&& v.unqualified@.len() == unqualified.len()
    &&& forall|i: int|
        0 <= i < unqualified.len() ==> unqualified_exported(
            #[trigger] unqualified[i],
            v.unqualified@[i],
        )
}

/// The export of an import.
fn serialize_import(
    module: &Vec<String>,
    as_name: &Option<String>,
    unqualified: &Vec<UnqualifiedImport>,
) -> (r: Option<SerializableImport>)
    ensures
        import_exported(module@, *as_name, unqualified@, r),
{
    let mut names: Vec<SerializableUnqualifiedImport> = Vec::new();
    let mut i: usize = 0;
    while i < unqualified.len()
        invariant
            i <= unqualified.len(),
            names.len() == i,
            forall|k: int|
                0 <= k < i ==> unqualified_exported(#[trigger] unqualified@[k], names@[k]),
        decreases unqualified.len() - i,
    {
        names.push(
            SerializableUnqualifiedImport {
                name: unqualified[i].name.clone(),
                as_name: copy_text(&unqualified[i].as_name),
                location: unqualified[i].location,
            },
        );
        i = i + 1;
    }
    Some(
        SerializableImport {
            module: copy_texts(module),
            as_name: copy_text(as_name),
            unqualified: names,
        },
    )
}

/// The kind under which a definition is exported.
pub open spec fn definition_kind(d: UntypedDefinition) -> Seq<char> {
    match d {
        UntypedDefinition::Fn(_) => "Function"@,
        UntypedDefinition::Test(_) => "Test"@,
        UntypedDefinition::Validator { .. } => "Validator"@,
        UntypedDefinition::DataType { .. } => "DataType"@,
        UntypedDefinition::TypeAlias { .. } => "TypeAlias"@,
        UntypedDefinition::ModuleConstant { .. } => "ModuleConstant"@,
        UntypedDefinition::Use { .. } => "Use"@,
    }
}

/// The name of a definition. An import has the path of the module.
pub open spec fn definition_name(d: UntypedDefinition) -> Seq<char> {
    match d {
        UntypedDefinition::Fn(f) => f.name@,
        UntypedDefinition::Test(f) => f.name@,
        UntypedDefinition::Validator { fun, .. } => fun.name@,
        UntypedDefinition::DataType { name, .. } => name@,
        UntypedDefinition::TypeAlias { alias, .. } => alias@,
        UntypedDefinition::ModuleConstant { name, .. } => name@,
        UntypedDefinition::Use { module, .. } => joined(texts(module@), "/"@),
    }
}

/// Where a definition stands.
pub open spec fn definition_span(d: UntypedDefinition) -> Span {
    match d {
        UntypedDefinition::Fn(f) => f.location,
        UntypedDefinition::Test(f) => f.location,
        UntypedDefinition::Validator { location, .. } => location,
        UntypedDefinition::DataType { location, .. } => location,
        UntypedDefinition::TypeAlias { location, .. } => location,
        UntypedDefinition::ModuleConstant { location, .. } => location,
        UntypedDefinition::Use { location, .. } => location,
    }
}

/// The comment on a definition.
pub open spec fn definition_doc(d: UntypedDefinition) -> Option<String> {
    match d {
        UntypedDefinition::Fn(f) => f.doc,
        UntypedDefinition::Test(f) => f.doc,
        UntypedDefinition::Validator { fun, .. } => fun.doc,
        UntypedDefinition::DataType { doc, .. } => doc,
        UntypedDefinition::TypeAlias { doc, .. } => doc,
        UntypedDefinition::ModuleConstant { doc, .. } => doc,
        UntypedDefinition::Use { .. } => None,
    }
}

/// Whether `r` is the export of the parameters and the body of the function `f`.
pub open spec fn function_exported(
    f: UntypedFunction,
    detailed: bool,
    r: SerializableDefinition,
) -> bool {
    &&& arguments_exported(f.arguments@, r.function_args)
    &&& r.data_constructors is None
    &&& r.type_parameters is None
    &&& r.annotation is None
    &&& r.import is None
    &&& body_exported(f.body, detailed, r.body)
}

/// Whether `r` is the export of the definition `d`.
pub open spec fn definition_exported(
    d: UntypedDefinition,
    detailed: bool,
    r: SerializableDefinition,
) -> bool {
    &&& r.kind@ == definition_kind(d)
    &&& r.name@ == definition_name(d)
    &&& r.location == definition_span(d)
    &&& doc_exported(definition_doc(d), r.doc_comments)
    &&& match d {
        UntypedDefinition::Fn(f) => function_exported(f, detailed, r),
        UntypedDefinition::Test(f) => function_exported(f, detailed, r),
        UntypedDefinition::Validator { fun, .. } => function_exported(fun, detailed, r),
        UntypedDefinition::DataType { constructors, .. } => {
            &&& r.function_args is None
            &&& constructors_exported(constructors@, r.data_constructors)
            &&& r.type_parameters is None
            &&& r.annotation is None
            &&& r.import is None
            &&& r.body is None
        },
        UntypedDefinition::TypeAlias { parameters, annotation, .. } => {
            &&& r.function_args is None
            &&& r.data_constructors is None
            &&& r.type_parameters matches Some(v) && texts(v@) == texts(parameters@)
            &&& r.annotation matches Some(a) && annotation_exported(annotation, a)
            &&& r.import is None
            &&& r.body is None
        },
        UntypedDefinition::ModuleConstant { annotation, value, .. } => {
            &&& r.function_args is None
            &&& r.data_constructors is None
            &&& r.type_parameters is None
            &&& optional_annotation_exported(annotation, r.annotation)
            &&& r.import is None
            &&& body_exported(value, detailed, r.body)
        },
        UntypedDefinition::Use { module, as_name, unqualified, .. } => {
            &&& r.function_args is None
            &&& r.data_constructors is None
            &&& r.type_parameters is None
            &&& r.annotation is None
            &&& import_exported(module@, as_name, unqualified@, r.import)
            &&& r.body is None
        },
    }
}

/// The export of a function, a test or a validator.
fn serialize_function(kind: &str, f: &UntypedFunction, location: Span, detailed: bool) -> (r:
    SerializableDefinition)
    ensures
        r.kind@ == kind@,
        r.name@ == f.name@,
        r.location == location,
        doc_exported(f.doc, r.doc_comments),
        function_exported(*f, detailed, r),
{
    SerializableDefinition {
        kind: kind.to_owned(),
        name: f.name.clone(),
        function_args: serialize_arguments(&f.arguments),
        data_constructors: None,
        type_parameters: None,
        annotation: None,
        import: None,
        body: serialize_body(&f.body, detailed),
        location,
        doc_comments: serialize_doc(&f.doc),
    }
}

/// The export of a definition.
pub fn serialize_definition(d: &UntypedDefinition, detailed: bool) -> (r: SerializableDefinition)
    ensures
        definition_exported(*d, detailed, r),
{
    match d {
        UntypedDefinition::Fn(f) => serialize_function("Function", f, f.location, detailed),
        UntypedDefinition::Test(f) => serialize_function("Test", f, f.location, detailed),
        UntypedDefinition::Validator { location, fun } => serialize_function(
            "Validator",
            fun,
            *location,
            detailed,
        ),
        UntypedDefinition::DataType { location, name, constructors, doc } =>
            SerializableDefinition {
            kind: "DataType".to_owned(),
            name: name.clone(),
            function_args: None,
            data_constructors: serialize_constructors(constructors),
            type_parameters: None,
            annotation: None,
            import: None,
            body: None,
            location: *location,
            doc_comments: serialize_doc(doc),
        },
        UntypedDefinition::TypeAlias { location, alias, parameters, annotation, doc } =>
            SerializableDefinition {
            kind: "TypeAlias".to_owned(),
            name: alias.clone(),
            function_args: None,
            data_constructors: None,
            type_parameters: Some(copy_texts(parameters)),
            annotation: Some(serialize_annotation(annotation)),
            import: None,
            body: None,
            location: *location,
            doc_comments: serialize_doc(doc),
        },
        UntypedDefinition::ModuleConstant { location, name, annotation, value, doc } =>
            SerializableDefinition {
            kind: "ModuleConstant".to_owned(),
            name: name.clone(),
            function_args: None,
            data_constructors: None,
            type_parameters: None,
            annotation: serialize_optional_annotation(annotation),
            import: None,
            body: serialize_body(value, detailed),
            location: *location,
            doc_comments: serialize_doc(doc),
        },
        UntypedDefinition::Use { location, module, as_name, unqualified } =>
            SerializableDefinition {
            kind: "Use".to_owned(),
            name: join(module, "/"),
            function_args: None,
            data_constructors: None,
            type_parameters: None,
            annotation: None,
            import: serialize_import(module, as_name, unqualified),
            body: None,
            location: *location,
            doc_comments: None,
        },
    }
}

/// Whether `r` is the export of the module `m` in the file at `path`. Every definition is
/// exported, in order.
pub open spec fn module_exported(
    m: UntypedModule,
    path: Seq<char>,
    detailed: bool,
    r: SerializableModule,
) -> bool {
    &&& r.name@ == m.name@
    &&& r.kind@ == match m.kind {
        ModuleKind::Lib => "Library"@,
        ModuleKind::Validator => "Validator"@,
    }
    &&& r.definitions@.len() == m.definitions@.len()
    &&& forall|i: int|
        0 <= i < m.definitions@.len() ==> definition_exported(
            #[trigger] m.definitions@[i],
            detailed,
            r.definitions@[i],
        )
    &&& if m.docs@.len() == 0 {
        r.doc_comments is None
    } else {
        r.doc_comments matches Some(v) && texts(v@) == texts(m.docs@)
    }
    &&& r.source_file@ == path
}

/// The export of the module in the file at `path`.
pub fn convert_to_serializable_module(ast: &UntypedModule, path: &str, detailed: bool) -> (r:
    SerializableModule)
    ensures
        module_exported(*ast, path@, detailed, r),
{
    let mut definitions: Vec<SerializableDefinition> = Vec::new();
    let mut i: usize = 0;
    while i < ast.definitions.len()
        invariant
            i <= ast.definitions.len(),
            definitions.len() == i,
            forall|k: int|
                0 <= k < i ==> definition_exported(
                    #[trigger] ast.definitions@[k],
                    detailed,
                    definitions@[k],
                ),
        decreases ast.definitions.len() - i,
    {
        definitions.push(serialize_definition(&ast.definitions[i], detailed));
        i = i + 1;
    }
    let kind = match ast.kind {
        ModuleKind::Lib => "Library",
        ModuleKind::Validator => "Validator",
    };
    SerializableModule {
        name: ast.name.clone(),
        kind: kind.to_owned(),
        definitions,
        doc_comments: if ast.docs.len() == 0 {
            None
        } else {
            Some(copy_texts(&ast.docs))
        },
        source_file: path.to_owned(),
    }
}

/// The export has one definition for each definition of the module, in the same order, with its
/// name and its place; and it holds no code unless details were asked for.
pub proof fn law_definitions_kept(
    m: UntypedModule,
    path: Seq<char>,
    detailed: bool,
    r: SerializableModule,
)
    requires
        module_exported(m, path, detailed, r),
    ensures
        r.definitions@.len() == m.definitions@.len(),
        forall|i: int|
            0 <= i < m.definitions@.len() ==> {
                &&& (#[trigger] r.definitions@[i]).name@ == definition_name(m.definitions@[i])
                &&& r.definitions@[i].kind@ == definition_kind(m.definitions@[i])
                &&& r.definitions@[i].location == definition_span(m.definitions@[i])
                &&& !detailed ==> r.definitions@[i].body is None
            },
{
    assert forall|i: int| 0 <= i < m.definitions@.len() implies {
        &&& (#[trigger] r.definitions@[i]).name@ == definition_name(m.definitions@[i])
        &&& r.definitions@[i].kind@ == definition_kind(m.definitions@[i])
        &&& r.definitions@[i].location == definition_span(m.definitions@[i])
        &&& !detailed ==> r.definitions@[i].body is None
    } by {
        assert(definition_exported(m.definitions@[i], detailed, r.definitions@[i]));
    }
}

/// Files with different names are exported to different files.
pub proof fn law_output_names_differ(a: Seq<char>, b: Seq<char>)
    requires
        a != b,
    ensures
        a + ".ast.json"@ != b + ".ast.json"@,
{
    let suffix = ".ast.json"@;
    if a + suffix == b + suffix {
        assert((a + suffix).len() == (b + suffix).len());
        assert(a =~= (a + suffix).take(a.len() as int));
        assert(b =~= (b + suffix).take(b.len() as int));
    }
}

} // verus!
