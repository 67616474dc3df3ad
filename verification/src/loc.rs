//! Source locations: the keys of the annotation store.

use vstd::prelude::*;

verus! {

/// A contiguous span in one source file: a file identifier together with
/// half-open character offsets `[start, end)`. A location is used only as a
/// key and for containment tests; it is immutable once created.
#[derive(Clone, Copy, Debug, PartialEq, Eq, Structural)]
pub struct Loc {
    pub file: u32,
    pub start: u32,
    pub end: u32,
}

impl Loc {
    /// Half-open containment: the span covers `offset` exactly when
    /// `start <= offset < end` in the same file.
    pub open spec fn spec_contains(self, file: u32, offset: u32) -> bool {
        self.file == file && self.start <= offset < self.end
    }

    pub fn new(file: u32, start: u32, end: u32) -> (r: Loc)
        ensures
            r == (Loc { file, start, end }),
    {
        Loc { file, start, end }
    }

    /// Does this span contain `offset` in file `file`? An offset exactly at
    /// `end` lies one past the span and is not contained.
    pub fn contains(&self, file: u32, offset: u32) -> (r: bool)
        ensures
            r == self.spec_contains(file, offset),
    {
        self.file == file && self.start <= offset && offset < self.end
    }
}

} // verus!
