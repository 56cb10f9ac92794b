//! Where an extracted element came from: a file and a line.
use vstd::prelude::*;

verus! {

/// A file and a 1-based line; the default location has an empty file and
/// line 0.
#[derive(Debug, PartialEq, Eq, Hash)]
pub struct SourceLocation {
    pub file: String,
    pub line: u32,
}

impl SourceLocation {
    /// A location in `file` at `line`.
    pub fn new(file: &str, line: u32) -> (r: SourceLocation)
        ensures
            r.file@ == file@,
            r.line == line,
    {
        SourceLocation { file: file.to_owned(), line }
    }

    /// The location that stands for "unknown": empty file, line 0.
    pub fn unknown() -> (r: SourceLocation)
        ensures
            r.file@ == Seq::<char>::empty(),
            r.line == 0,
    {
        SourceLocation { file: String::new(), line: 0 }
    }

    /// An equal copy of this location.
    pub fn duplicate(&self) -> (r: SourceLocation)
        ensures
            r == *self,
    {
        SourceLocation { file: self.file.clone(), line: self.line }
    }
}

impl Clone for SourceLocation {
    fn clone(&self) -> (r: SourceLocation)
        ensures
            r == *self,
    {
        self.duplicate()
    }
}

} // verus!
