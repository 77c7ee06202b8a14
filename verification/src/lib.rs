//! Static analysis of Aiken validators, and the export of the syntax of Aiken modules.

pub mod analysis_laws;
pub mod analyze_validator;
pub mod analyzer;
pub mod ast;
pub mod bounded_search;
pub mod call_laws;
pub mod context_laws;
pub mod duplicates;
pub mod environment;
pub mod environment_laws;
pub mod environment_text;
pub mod execution;
pub mod export_ast;
pub mod export_laws;
pub mod exported_laws;
pub mod file_search;
pub mod hexadecimal;
pub mod laws;
pub mod name_map;
pub mod origin_laws;
pub mod references;
pub mod report;
pub mod report_laws;
pub mod search_laws;
pub mod semantics;
pub mod serializable;
pub mod serialize;
pub mod serialize_expression;
pub mod text;
pub mod text_laws;
pub mod tracking_laws;
pub mod untyped;
pub mod value;
