//! A libclang cursor tree held as plain values: for each cursor, the facts
//! that the extraction reads, and its direct children in source order.
use vstd::prelude::*;

use crate::cpp_model::{ResolvedType, Scope};
use crate::source_filter::{excluded_namespace, external_or_system_path, is_excluded_namespace, is_external_or_system_path};
use crate::source_location::SourceLocation;
use crate::text::{decode_utf8_lossy, opt_string_view, utf8_lossy};

verus! {

/// The libclang cursor kinds that the extraction distinguishes; every other
/// kind is `Other`.
#[derive(Debug, Clone, Copy, PartialEq, Eq, Structural)]
pub enum CursorKind {
    FunctionDecl,
    FunctionTemplate,
    Method,
    Constructor,
    Destructor,
    ConversionFunction,
    CompoundStmt,
    IfStmt,
    ForStmt,
    WhileStmt,
    DoStmt,
    CallExpr,
    MemberRefExpr,
    UnaryOperator,
    BinaryOperator,
    ParenExpr,
    UnexposedExpr,
    ClassDecl,
    StructDecl,
    ClassTemplate,
    ClassTemplatePartialSpecialization,
    EnumDecl,
    Other,
}

/// What identifies an entity as a callable: its kind, its name, its callable
/// scope (derived from its semantic parents; `None` when no scope can be
/// derived) and whether it is a static method.
#[derive(Debug, PartialEq)]
pub struct EntityFacts {
    pub kind: CursorKind,
    pub name: Option<String>,
    pub scope: Option<Scope>,
    pub is_static_method: bool,
}

/// A position in a file: the file's path (when the position lies in a file)
/// and the byte offset.
#[derive(Debug, PartialEq)]
pub struct FilePosition {
    pub file: Option<String>,
    pub offset: u32,
}

/// The source extent of a cursor.
#[derive(Debug, PartialEq)]
pub struct SourceRange {
    pub start: FilePosition,
    pub end: FilePosition,
}

/// A token of a cursor's extent.
#[derive(Debug, PartialEq)]
pub struct Token {
    pub spelling: String,
    pub position: FilePosition,
}

/// Where a cursor is: its presumed file (as `#line` directives present it),
/// its file location's file, line and byte offset.
#[derive(Debug, PartialEq)]
pub struct CursorLocation {
    pub presumed_file: String,
    pub file: Option<String>,
    pub line: u32,
    pub offset: u32,
}

/// One cursor of a translation unit's AST.
#[derive(Debug, PartialEq)]
pub struct Cursor {
    /// The cursor itself as a (possible) callable.
    pub facts: EntityFacts,
    /// Its enclosing namespace, such as `std::__1`, when it has one.
    pub namespace: Option<String>,
    /// Whether it lies in the main file of the translation unit.
    pub in_main_file: bool,
    pub location: Option<CursorLocation>,
    /// Its result type as the type resolver renders it, when it has one.
    pub result_type: Option<ResolvedType>,
    /// The entity it references (for a call, the callee), when there is one.
    pub reference: Option<EntityFacts>,
    pub range: Option<SourceRange>,
    /// The tokens of its extent, in order.
    pub tokens: Vec<Token>,
    /// Its extent's source text, empty when it cannot be read.
    pub text: String,
    /// Its direct children, in source order.
    pub children: Vec<Cursor>,
}

/// The source location of a cursor: its file location's path and line, or
/// the empty path and line 0 when it has no location; a location outside any
/// file has the empty path.
pub open spec fn loc_of(c: Cursor) -> (Seq<char>, u32) {
    match c.location {
        None => (Seq::empty(), 0),
        Some(l) => (
            match l.file {
                Some(f) => f@,
                None => Seq::empty(),
            },
            l.line,
        ),
    }
}

/// The cursor lies outside the model's analysis boundary: it has a location
/// whose presumed file is a system or external header, or it lies in an
/// excluded namespace.
pub open spec fn excluded_cursor(c: Cursor) -> bool {
    match c.location {
        Some(l) => external_or_system_path(l.presumed_file@) || excluded_namespace(
            opt_string_view(c.namespace),
        ),
        None => false,
    }
}

fn opt_as_str(s: &Option<String>) -> (r: Option<&str>)
    ensures
        crate::source_filter::opt_str_view(r) == opt_string_view(*s),
{
    match s {
        Some(t) => Some(t.as_str()),
        None => None,
    }
}

/// The source location of a cursor.
pub fn parse_source_location(entity: &Cursor) -> (r: SourceLocation)
    ensures
        (r.file@, r.line) == loc_of(*entity),
{
    match &entity.location {
        None => SourceLocation::unknown(),
        Some(l) => match &l.file {
            Some(f) => SourceLocation::new(f.as_str(), l.line),
            None => {
                proof {
                    reveal_strlit("");
                }
                SourceLocation::new("", l.line)
            },
        },
    }
}

/// Returns whether a cursor is outside the source model's analysis boundary.
pub fn is_excluded_entity(entity: &Cursor) -> (r: bool)
    ensures
        r == excluded_cursor(*entity),
{
    match &entity.location {
        None => false,
        Some(l) => is_external_or_system_path(l.presumed_file.as_str()) || is_excluded_namespace(
            opt_as_str(&entity.namespace),
        ),
    }
}

/// The text of an expression that spans bytes `start..end` of its source
/// file: those bytes decoded as UTF-8 (invalid sequences replaced), kept as
/// written; empty when the span does not lie within the file.
pub open spec fn expression_text_of(source: Seq<u8>, start: int, end: int) -> Seq<char> {
    if 0 <= start <= end <= source.len() {
        utf8_lossy(source.subrange(start, end))
    } else {
        Seq::empty()
    }
}

/// The source text of an expression spanning bytes `start..end` of `source`,
/// which preserves the author's whitespace and operator spelling.
pub fn expression_text(source: &[u8], start: usize, end: usize) -> (r: String)
    ensures
        r@ == expression_text_of(source@, start as int, end as int),
{
    if start <= end && end <= source.len() {
        decode_utf8_lossy(vstd::slice::slice_subrange(source, start, end))
    } else {
        String::new()
    }
}

} // verus!
