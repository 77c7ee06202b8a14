//! What is exported of a module.
use crate::ast::Span;
use vstd::prelude::*;

verus! {

/// A module.
pub struct SerializableModule {
    pub name: String,
    pub kind: String,
    pub definitions: Vec<SerializableDefinition>,
    pub doc_comments: Option<Vec<String>>,
    pub source_file: String,
}

/// A definition of a module. What does not apply to its kind is left out.
pub struct SerializableDefinition {
    pub kind: String,
    pub name: String,
    pub function_args: Option<Vec<SerializableArgument>>,
    pub data_constructors: Option<Vec<SerializableConstructor>>,
    /// The parameters of a type alias.
    pub type_parameters: Option<Vec<String>>,
    /// The type that an alias stands for, or that a constant is given.
    pub annotation: Option<SerializableTypeAnnotation>,
    pub import: Option<SerializableImport>,
    pub body: Option<SerializableExpression>,
    pub location: Span,
    pub doc_comments: Option<Vec<String>>,
}

/// What a `use` imports.
pub struct SerializableImport {
    /// The segments of the module's path.
    pub module: Vec<String>,
    pub as_name: Option<String>,
    pub unqualified: Vec<SerializableUnqualifiedImport>,
}

/// A name that is imported on its own.
pub struct SerializableUnqualifiedImport {
    pub name: String,
    pub as_name: Option<String>,
    pub location: Span,
}

/// A parameter of a function.
pub struct SerializableArgument {
    pub name: String,
    pub annotation: Option<SerializableTypeAnnotation>,
}

/// A constructor of a data type.
pub struct SerializableConstructor {
    pub name: String,
    pub fields: Vec<SerializableField>,
}

/// A field of a constructor.
pub struct SerializableField {
    pub name: Option<String>,
    pub annotation: Option<SerializableTypeAnnotation>,
}

/// A written type.
pub struct SerializableTypeAnnotation {
    pub kind: String,
    pub name: String,
    pub arguments: Vec<SerializableTypeAnnotation>,
    pub module: Option<String>,
    pub location: Span,
}

/// An expression.
pub struct SerializableExpression {
    pub kind: String,
    pub value: Option<JsonValue>,
    pub sub_expressions: Vec<SerializableExpression>,
    pub location: Span,
}

/// What an expression holds besides the expressions inside it: a JSON value, in which a
/// pattern stands for its own representation.
pub enum JsonValue {
    Text(String),
    Number(usize),
    Flag(bool),
    Array(Vec<JsonValue>),
    /// The fields of an object, in order.
    Object(Vec<(String, JsonValue)>),
    Pattern(SerializablePattern),
}

/// A pattern.
pub struct SerializablePattern {
    pub kind: String,
    pub name: String,
    pub arguments: Vec<SerializablePatternArg>,
    pub module: Option<String>,
    pub location: Span,
}

/// An argument of a pattern.
pub struct SerializablePatternArg {
    pub label: Option<String>,
    pub value: SerializablePatternValue,
    pub location: Span,
}

/// A pattern inside a pattern.
pub enum SerializablePatternValue {
    Discard { name: String },
    Variable { name: String },
    Constructor { name: String, arguments: Vec<SerializablePatternArg> },
    Tuple { elements: Vec<SerializablePatternValue> },
    List {
        elements: Vec<SerializablePatternValue>,
        tail: Option<Box<SerializablePatternValue>>,
    },
}

} // verus!
