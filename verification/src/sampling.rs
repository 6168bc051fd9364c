//! Position sampler: draws a uniformly random set of distinct cell
//! positions of the extended matrix, degrading to an exhaustive sweep
//! when the matrix holds fewer cells than requested.
//!
//! Cells are numbered row by row, and the set of cell numbers is drawn
//! by Floyd's sampling algorithm, which picks each round one index that
//! was not picked before — so the round ends after exactly as many draws
//! as positions are needed.

use vstd::prelude::*;
use vstd::arithmetic::div_mod::{
    lemma_fundamental_div_mod, lemma_mod_bound, lemma_multiply_divide_lt,
};
use vstd::arithmetic::mul::lemma_mul_is_commutative;

use crate::matrix::{MatrixDimensions, Position};

verus! {

/// No two positions in the sequence are the same.
pub open spec fn positions_unique(s: Seq<Position>) -> bool {
    forall|i: int, j: int| 0 <= i < j < s.len() ==> s[i] != s[j]
}

/// Every position in the sequence lies within the extended matrix.
pub open spec fn positions_in_bounds(s: Seq<Position>, dims: MatrixDimensions) -> bool {
    forall|i: int| 0 <= i < s.len() ==> #[trigger] s[i].in_extended(dims)
}

/// How many positions a sampling round yields: the requested count,
/// capped by the number of cells in the extended matrix.
pub open spec fn spec_effective_count(dims: MatrixDimensions, cell_count: u32) -> int {
    if dims.spec_extended_size() < cell_count {
        dims.spec_extended_size()
    } else {
        cell_count as int
    }
}

/// Position of the cell numbered `idx` when the extended matrix is
/// numbered row by row.
pub open spec fn spec_position_of_index(idx: int, dims: MatrixDimensions) -> Position {
    Position { row: (idx / dims.cols as int) as u16, col: (idx % dims.cols as int) as u16 }
}

/// Relies on `rand::Rng::gen_range` over `0..bound` (with the
/// thread-local generator of `rand::thread_rng`): it panics only on an
/// empty range and returns a value of the range. Nothing is assumed
/// about which value comes back.
#[verifier::external_body]
fn random_below(bound: u64) -> (r: u64)
    requires
        1 <= bound,
    ensures
        r < bound,
{
    rand::Rng::gen_range(&mut rand::thread_rng(), 0..bound)
}

/// Whether the cell number is already among those drawn.
fn contains_index(indices: &Vec<u64>, idx: u64) -> (found: bool)
    ensures
        found == indices@.contains(idx),
{
    let mut i: usize = 0;
    while i < indices.len()
        invariant
            i <= indices@.len(),
            forall|k: int| 0 <= k < i ==> indices@[k] != idx,
        decreases indices@.len() - i,
    {
        if indices[i] == idx {
            return true;
        }
        i = i + 1;
    }
    false
}

/// Distinct cell numbers below `total`, `count` of them, by Floyd's
/// sampling: for each `j` of the last `count` indices, keep a fresh draw
/// from `0..=j`, or `j` itself when the draw was already taken.
fn sample_indices(total: u64, count: u32) -> (indices: Vec<u64>)
    requires
        count <= total,
    ensures
        indices@.len() == count,
        forall|i: int, j: int| 0 <= i < j < indices@.len() ==> indices@[i] != indices@[j],
        forall|i: int| 0 <= i < indices@.len() ==> indices@[i] < total,
{
    let mut indices: Vec<u64> = Vec::new();
    let mut j: u64 = total - count as u64;
    while j < total
        invariant
            total - count <= j <= total,
            indices@.len() == j - (total - count as u64),
            forall|a: int, b: int| 0 <= a < b < indices@.len() ==> indices@[a] != indices@[b],
            forall|a: int| 0 <= a < indices@.len() ==> indices@[a] < j,
        decreases total - j,
    {
        let t = random_below(j + 1);
        if contains_index(&indices, t) {
            indices.push(j);
        } else {
            indices.push(t);
        }
        j = j + 1;
    }
    indices
}

/// The decoded position lies within the extended matrix.
proof fn lemma_index_decode_in_bounds(idx: int, dims: MatrixDimensions)
    requires
        dims.well_formed(),
        0 <= idx < dims.spec_extended_size(),
    ensures
        spec_position_of_index(idx, dims).in_extended(dims),
        idx / dims.cols as int <= 65535,
        0 <= idx % dims.cols as int <= 65535,
{
    let c = dims.cols as int;
    let r = dims.spec_extended_rows();
    lemma_mul_is_commutative(r, c);
    lemma_multiply_divide_lt(idx, c, r);
    lemma_mod_bound(idx, c);
}

/// Distinct cell numbers decode to distinct positions: the quotient and
/// remainder by the column count together reconstruct the cell number.
proof fn lemma_index_decode_injective(i1: int, i2: int, dims: MatrixDimensions)
    requires
        dims.well_formed(),
        0 <= i1 < dims.spec_extended_size(),
        0 <= i2 < dims.spec_extended_size(),
        i1 != i2,
    ensures
        spec_position_of_index(i1, dims) != spec_position_of_index(i2, dims),
{
    let c = dims.cols as int;
    lemma_index_decode_in_bounds(i1, dims);
    lemma_index_decode_in_bounds(i2, dims);
    lemma_fundamental_div_mod(i1, c);
    lemma_fundamental_div_mod(i2, c);
}

/// Random cell positions for one sampling round: exactly
/// `min(cell_count, extended size)` distinct positions, each within the
/// extended matrix. The order of the returned positions carries no
/// meaning.
pub fn generate_random_cells(dimensions: &MatrixDimensions, cell_count: u32) -> (positions: Vec<
    Position,
>)
    requires
        dimensions.well_formed(),
    ensures
        positions@.len() == spec_effective_count(*dimensions, cell_count),
        positions_unique(positions@),
        positions_in_bounds(positions@, *dimensions),
{
    let total = dimensions.extended_size();
    let count: u32 = if total < cell_count as u64 {
        total as u32
    } else {
        cell_count
    };
    let indices = sample_indices(total, count);
    let mut positions: Vec<Position> = Vec::new();
    let cols = dimensions.cols as u64;
    let mut i: usize = 0;
    while i < indices.len()
        invariant
            dimensions.well_formed(),
            cols == dimensions.cols,
            positions@.len() == i <= indices@.len(),
            forall|a: int, b: int| 0 <= a < b < indices@.len() ==> indices@[a] != indices@[b],
            forall|a: int| 0 <= a < indices@.len() ==> indices@[a] < dimensions.spec_extended_size(),
            forall|a: int| 0 <= a < i ==> positions@[a] == spec_position_of_index(
                indices@[a] as int,
                *dimensions,
            ),
            positions_in_bounds(positions@, *dimensions),
        decreases indices@.len() - i,
    {
        let idx = indices[i];
        proof {
            lemma_index_decode_in_bounds(idx as int, *dimensions);
        }
        let row = (idx / cols) as u16;
        let col = (idx % cols) as u16;
        positions.push(Position { row, col });
        i = i + 1;
    }
    proof {
        assert forall|a: int, b: int| 0 <= a < b < positions@.len() implies positions@[a]
            != positions@[b] by {
            lemma_index_decode_injective(indices@[a] as int, indices@[b] as int, *dimensions);
        }
    }
    positions
}

} // verus!
