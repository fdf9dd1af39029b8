//! The configuration of a pyramid.

use vstd::prelude::*;

verus! {

/// The greatest number of rows a pyramid may have.
pub const MAX_SIZE: usize = 4096;

/// What to draw: how many rows, and with which character.
#[derive(Clone, Copy, Debug, PartialEq, Eq, Structural)]
pub struct PyramidInfo {
    /// The number of rows.
    pub size: usize,
    /// The character that fills each row.
    pub character: char,
}

impl PyramidInfo {
    /// A configuration is valid when its size is within the limit.
    pub open spec fn valid(&self) -> bool {
        self.size <= MAX_SIZE
    }

    /// The configuration of a run without options: ten rows of `*`.
    pub open spec fn initial() -> PyramidInfo {
        PyramidInfo { size: 10, character: '*' }
    }
}

impl Default for PyramidInfo {
    fn default() -> (info: Self)
        ensures
            info == PyramidInfo::initial(),
            info.valid(),
    {
        PyramidInfo { size: 10, character: '*' }
    }
}

} // verus!
