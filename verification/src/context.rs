//! What a traversal of one translation unit collects.
use vstd::prelude::*;

use crate::cpp_model::{def_view, DefView, FunctionDef, ResolvedType};
use crate::source_location::SourceLocation;

verus! {

/// Identifies a function definition within one parser execution by its
/// source position, so that a project header definition seen through several
/// translation units is kept once. It is not stable across source revisions.
#[derive(Debug, PartialEq, Eq, Hash)]
pub struct FunctionDefinitionKey {
    /// The file, written from its path components (see `path`), so that two
    /// keys are equal exactly when their paths are.
    pub source_file: String,
    pub source_offset: u32,
}

/// A definition together with its key.
#[derive(Debug, PartialEq)]
pub struct ExtractedFunction {
    pub key: FunctionDefinitionKey,
    pub definition: FunctionDef,
}

/// What one traversal collects: the class information gathered for
/// relationship resolution, and the callable definitions.
#[derive(Debug, PartialEq)]
pub struct VisitContext {
    pub parsed_class_info: Vec<ParsedClassInfo>,
    pub functions: Vec<ExtractedFunction>,
}

impl VisitContext {
    /// A context that has collected nothing.
    pub fn new() -> (r: VisitContext)
        ensures
            r.parsed_class_info@.len() == 0,
            r.functions@.len() == 0,
    {
        VisitContext { parsed_class_info: Vec::new(), functions: Vec::new() }
    }
}

/// The relationship inputs gathered for one class: its fully qualified
/// name, its bases, and the types of its variables and methods.
#[derive(Debug, PartialEq)]
pub struct ParsedClassInfo {
    pub id: String,
    pub base_classes: Vec<ParsedBaseClass>,
    pub variable_types: Vec<ParsedVariableType>,
    pub method_types: Vec<ParsedMethodType>,
}

/// A base class of a class.
#[derive(Debug, PartialEq)]
pub struct ParsedBaseClass {
    pub resolved_type: ResolvedType,
    pub source_location: SourceLocation,
}

/// A member variable and its type.
#[derive(Debug, PartialEq)]
pub struct ParsedVariableType {
    pub name: String,
    pub resolved_type: ResolvedType,
    pub source_location: SourceLocation,
}

/// A method with its return and parameter types.
#[derive(Debug, PartialEq)]
pub struct ParsedMethodType {
    pub name: String,
    pub return_type: ResolvedType,
    pub parameter_types: Vec<ResolvedType>,
    pub source_location: SourceLocation,
}

/// The view of an extracted function: its key's file and offset, and its
/// definition.
pub open spec fn extracted_view(x: ExtractedFunction) -> ((Seq<char>, u32), DefView) {
    ((x.key.source_file@, x.key.source_offset), def_view(x.definition))
}

pub open spec fn extracted_views(s: Seq<ExtractedFunction>) -> Seq<((Seq<char>, u32), DefView)> {
    s.map_values(|x: ExtractedFunction| extracted_view(x))
}

} // verus!
