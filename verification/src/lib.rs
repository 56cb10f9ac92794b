//! Verified core of the architecture-model extractors: source filtering for
//! the C++ analysis, callable control-flow extraction over a cursor tree, and
//! the PlantUML sequence-diagram parser and resolver.
use vstd::prelude::*;

pub mod context;
pub mod cpp_model;
pub mod cursor;
pub mod function_visitor;
pub mod parse_outputs;
pub mod parse_tree;
pub mod path;
pub mod scope;
pub mod sequence_ast;
pub mod sequence_parser;
pub mod sequence_resolver;
pub mod source_filter;
pub mod source_location;
pub mod text;
pub mod visitor;

verus! {

} // verus!
