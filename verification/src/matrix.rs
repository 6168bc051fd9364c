//! The block's data matrix as the sampler and verifier see it: its
//! dimensions, cell positions, and fetched cells (data chunk plus proof).

use vstd::prelude::*;

verus! {

/// Bytes of one cell's data chunk.
pub const CELL_SIZE: usize = 32;

/// Bytes of one KZG proof, and of one row's commitment.
pub const PROOF_SIZE: usize = 48;

/// Bytes of one cell as fetched: data chunk followed by proof.
pub const CELL_WITH_PROOF_SIZE: usize = 80;

/// Dimensions of a block's data matrix before erasure-code extension.
/// The extended matrix doubles the row count.
#[derive(Clone, Copy, Debug, PartialEq, Eq, Structural)]
pub struct MatrixDimensions {
    pub rows: u16,
    pub cols: u16,
}

impl MatrixDimensions {
    /// At least one row and one column, and extended row indices must
    /// still fit the 16-bit row coordinate of a `Position`.
    pub open spec fn well_formed(self) -> bool {
        &&& self.rows >= 1
        &&& self.cols >= 1
        &&& 2 * self.rows <= 65536
    }

    /// Row count of the erasure-coded (extended) matrix.
    pub open spec fn spec_extended_rows(self) -> int {
        2 * self.rows
    }

    pub fn extended_rows(&self) -> (r: u32)
        ensures
            r == self.spec_extended_rows(),
    {
        2 * (self.rows as u32)
    }

    /// Total number of cells in the extended matrix.
    pub open spec fn spec_extended_size(self) -> int {
        2 * self.rows * self.cols
    }

    pub fn extended_size(&self) -> (r: u64)
        ensures
            r == self.spec_extended_size(),
    {
        proof {
            assert(2 * (self.rows as int) * (self.cols as int) <= 8589934590) by (nonlinear_arith)
                requires
                    0 <= self.rows <= 65535,
                    0 <= self.cols <= 65535,
            ;
        }
        2 * (self.rows as u64) * (self.cols as u64)
    }
}

/// One cell's coordinates in the extended matrix.
#[derive(Clone, Copy, Debug, PartialEq, Eq, Hash, Structural)]
pub struct Position {
    pub row: u16,
    pub col: u16,
}

impl Position {
    /// The position lies within the extended matrix.
    pub open spec fn in_extended(self, dims: MatrixDimensions) -> bool {
        self.row < dims.spec_extended_rows() && self.col < dims.cols
    }
}

/// One fetched cell: its position and its 80 content bytes, a 32-byte
/// data chunk followed by a 48-byte proof.
#[derive(Clone, Debug)]
pub struct Cell {
    pub position: Position,
    pub content: Vec<u8>,
}

impl Cell {
    pub open spec fn well_formed(self) -> bool {
        self.content@.len() == CELL_WITH_PROOF_SIZE
    }
}

} // verus!
