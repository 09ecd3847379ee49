//! Utilities for dealing with memory through cursors.
//!
//! [`MemReader`] keeps the position of the next read. Moving the cursor is
//! plain arithmetic and is verified here; the reads themselves touch raw
//! memory and are performed by the surrounding program.

use vstd::prelude::*;

verus! {

/// Error while dealing with memory through cursors.
#[derive(Debug)]
pub enum Error {
    /// The requested type is too big to fit in the fixed size buffer used by
    /// a reader.
    TypeSizeIsTooBig,

    /// The read bytes cannot be converted into an UTF-8 string.
    InvalidUtf8String,
}

/// Maintains a memory position that advances with every read, so successive
/// reads return consecutive memory locations.
pub struct MemReader {
    /// Current position.
    pos: usize,
}

impl MemReader {
    /// The current position, for specifications.
    pub closed spec fn spec_position(self) -> usize {
        self.pos
    }

    /// Creates a [`MemReader`] and sets its internal memory position to
    /// `pos`.
    pub fn new(pos: usize) -> (r: MemReader)
        ensures
            r.spec_position() == pos,
    {
        MemReader { pos }
    }

    /// Sets the memory position of the next read.
    pub fn set_position(&mut self, pos: usize)
        ensures
            final(self).spec_position() == pos,
    {
        self.pos = pos
    }

    /// Returns the current memory position.
    pub fn position(&self) -> (r: usize)
        ensures
            r == self.spec_position(),
    {
        self.pos
    }

    /// Skips `n` bytes.
    pub fn skip(&mut self, n: usize)
        requires
            old(self).spec_position() + n <= usize::MAX,
        ensures
            final(self).spec_position() == old(self).spec_position() + n,
    {
        self.pos += n
    }
}

} // verus!
