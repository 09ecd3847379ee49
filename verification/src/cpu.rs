//! CPU specific operations.

use vstd::prelude::*;

pub mod exceptions;
pub mod mp;

verus! {

/// Number of CPU cores.
pub const NCORES: usize = 4;

/// CPU related error.
#[derive(Debug)]
pub enum Error {
    /// Invalid CPU core.
    InvalidCore(usize),
}

/// Represents a CPU core.
#[derive(Debug, Copy, Clone)]
pub struct Core {
    /// The core number, below [`NCORES`].
    value: usize,
}

impl Core {
    /// The core number, for specifications.
    pub closed spec fn spec_value(self) -> usize {
        self.value
    }

    /// Returns the CPU core with the given number.
    ///
    /// # Errors
    ///
    /// This function returns `Error::InvalidCore` for numbers at or above
    /// [`NCORES`].
    pub fn new(core: usize) -> (r: Result<Core, Error>)
        ensures
            core < NCORES ==> (r matches Ok(c) && c.spec_value() == core),
            core >= NCORES ==> r == Err::<Core, Error>(Error::InvalidCore(core)),
    {
        if core >= NCORES {
            return Err(Error::InvalidCore(core));
        }
        Ok(Core { value: core })
    }

    /// Returns the core number.
    pub fn value(&self) -> (r: usize)
        ensures
            r == self.spec_value(),
    {
        self.value
    }
}

} // verus!
