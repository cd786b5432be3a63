//! The values that go in and out of the capabilities.

use vstd::prelude::*;

verus! {

/// Identity of a file in the workspace.
pub type FileId = u64;

/// A byte offset into a file.
#[derive(Clone, Copy, Debug, PartialEq, Eq, Structural)]
pub struct Position {
    pub offset: u32,
}

/// A stretch of one file, from `start` up to, not including, `end`.
#[derive(Clone, Copy, Debug, PartialEq, Eq, Structural)]
pub struct Span {
    pub file_id: FileId,
    pub start: Position,
    pub end: Position,
}

impl Span {
    pub fn new(file_id: FileId, start: Position, end: Position) -> (span: Span)
        ensures
            span == (Span { file_id, start, end }),
    {
        Span { file_id, start, end }
    }
}

/// Byte offsets from `start` up to, not including, `end`, in a file that the
/// context names.
#[derive(Clone, Copy, Debug, PartialEq, Eq, Structural)]
pub struct Range {
    pub start: u32,
    pub end: u32,
}

impl Range {
    pub fn new(start: u32, end: u32) -> (range: Range)
        ensures
            range == (Range { start, end }),
    {
        Range { start, end }
    }
}

/// Where a file comes from.
#[derive(Clone, Copy, Debug, PartialEq, Eq, Structural)]
pub enum FileType {
    /// The project's own code.
    Host,
    /// A dependency's code.
    Vendored,
    /// Stubs that describe the language itself.
    Builtin,
}

/// A stretch of some file that a symbol occupies.
#[derive(Clone, Copy, Debug, PartialEq, Eq, Structural)]
pub struct SymbolLocation {
    pub file: FileId,
    pub range: Range,
}

/// How grave an issue is.
#[derive(Clone, Copy, Debug, PartialEq, Eq, Hash, Structural)]
pub enum Level {
    Note,
    Help,
    Warning,
    Error,
}

/// How grave a diagnostic is, in the editor's terms.
#[derive(Clone, Copy, Debug, PartialEq, Eq, Structural)]
pub enum Severity {
    Error,
    Warning,
    Information,
    Hint,
}

/// The text of an optional string.
pub open spec fn text_of(text: Option<String>) -> Option<Seq<char>> {
    match text {
        Some(text) => Some(text@),
        None => None,
    }
}

/// The bytes of an optional byte string.
pub open spec fn bytes_of(bytes: Option<Vec<u8>>) -> Option<Seq<u8>> {
    match bytes {
        Some(bytes) => Some(bytes@),
        None => None,
    }
}

} // verus!
