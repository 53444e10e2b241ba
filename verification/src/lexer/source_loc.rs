use vstd::prelude::*;

use crate::lexer::doc_loc::DocLoc;

verus! {

/// Where a piece of text stands in its document: its byte offset, its line
/// (counted from 1), its column (the byte offset within the line, counted
/// from 1) and its length in bytes.
#[derive(Debug, PartialEq, Eq, Hash)]
pub struct SourceLoc {
    pub doc_loc: DocLoc,
    pub pos: u32,
    pub line: u32,
    pub column: u32,
    pub length: u32,
}

/// A line and a column alone, as the grammar reports the place of an error.
#[derive(Debug, Clone, Copy, PartialEq, Eq, Hash)]
pub struct MiniLoc {
    pub line: u32,
    pub column: u32,
}

/// The mathematical content of a [`SourceLoc`].
pub struct SourceLocModel {
    pub uri: Seq<char>,
    pub pos: u32,
    pub line: u32,
    pub column: u32,
    pub length: u32,
}

impl View for SourceLoc {
    type V = SourceLocModel;

    open spec fn view(&self) -> SourceLocModel {
        SourceLocModel {
            uri: self.doc_loc.uri@,
            pos: self.pos,
            line: self.line,
            column: self.column,
            length: self.length,
        }
    }
}

impl SourceLocModel {
    /// A location whose line and column count from 1 and whose last byte
    /// still has a column that fits in a `u32`.
    pub open spec fn wf(self) -> bool {
        &&& self.line >= 1
        &&& self.column >= 1
        &&& self.column - 1 + self.length <= u32::MAX
    }
}

/// The line and column where a located text starts, and the column just
/// past its end on that line (as far as a `u32` reaches).
pub open spec fn minis_of(loc: SourceLocModel) -> (MiniLoc, MiniLoc) {
    (
        MiniLoc { line: loc.line, column: loc.column },
        MiniLoc {
            line: loc.line,
            column: if loc.column + loc.length > u32::MAX {
                u32::MAX
            } else {
                (loc.column + loc.length) as u32
            },
        },
    )
}

impl SourceLoc {
    /// Where the text starts and the column just past its end.
    pub fn as_minis(&self) -> (minis: (MiniLoc, MiniLoc))
        ensures
            minis == minis_of(self@),
    {
        (
            MiniLoc { line: self.line, column: self.column },
            MiniLoc { line: self.line, column: self.column.saturating_add(self.length) },
        )
    }
}

impl Clone for SourceLoc {
    fn clone(&self) -> (copy: Self)
        ensures
            copy == *self,
    {
        SourceLoc {
            doc_loc: self.doc_loc.clone(),
            pos: self.pos,
            line: self.line,
            column: self.column,
            length: self.length,
        }
    }
}

} // verus!
