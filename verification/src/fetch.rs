//! Decoding of fetched proof bytes: the node answers a proof query with
//! one flat byte string, 80 bytes per requested position, in request
//! order. Splitting and pairing those bytes with their positions is the
//! verified part of the fetch path; the transport itself stays outside.

use vstd::prelude::*;
use vstd::slice::{slice_subrange, slice_to_vec};

use crate::matrix::{Cell, Position, CELL_WITH_PROOF_SIZE};

verus! {

/// The response bytes cannot be split as the protocol demands: their
/// length is not exactly 80 bytes per requested position. This means a
/// protocol mismatch, not a transient failure.
#[derive(Clone, Copy, Debug, PartialEq, Eq, Structural)]
pub enum DecodeError {
    WrongLength,
}

/// The `i`-th 80-byte chunk of a flat response.
pub open spec fn spec_chunk(bytes: Seq<u8>, i: int) -> Seq<u8> {
    bytes.subrange(i * CELL_WITH_PROOF_SIZE, (i + 1) * CELL_WITH_PROOF_SIZE)
}

/// Split a flat response into its 80-byte chunks.
pub fn split_cell_chunks(bytes: &Vec<u8>, count: usize) -> (chunks: Vec<Vec<u8>>)
    requires
        bytes@.len() == count * CELL_WITH_PROOF_SIZE,
    ensures
        chunks@.len() == count,
        forall|i: int| 0 <= i < count ==> #[trigger] chunks@[i]@ == spec_chunk(bytes@, i),
{
    let total_len = bytes.len();
    let mut chunks: Vec<Vec<u8>> = Vec::new();
    let mut i: usize = 0;
    while i < count
        invariant
            i <= count,
            bytes@.len() == count * CELL_WITH_PROOF_SIZE,
            total_len == count * CELL_WITH_PROOF_SIZE,
            chunks@.len() == i,
            forall|k: int| 0 <= k < i ==> #[trigger] chunks@[k]@ == spec_chunk(bytes@, k),
        decreases count - i,
    {
        let chunk = slice_to_vec(
            slice_subrange(
                bytes.as_slice(),
                i * CELL_WITH_PROOF_SIZE,
                (i + 1) * CELL_WITH_PROOF_SIZE,
            ),
        );
        chunks.push(chunk);
        i = i + 1;
    }
    chunks
}

/// Pair a flat proof response with the positions it was requested for:
/// the `i`-th 80-byte chunk becomes the cell of the `i`-th position.
/// Rejected when the response length is not exactly 80 bytes per
/// position.
pub fn cells_from_proof_bytes(positions: &Vec<Position>, response: &Vec<u8>) -> (r: Result<
    Vec<Cell>,
    DecodeError,
>)
    ensures
        match r {
            Ok(cells) => {
                &&& response@.len() == positions@.len() * CELL_WITH_PROOF_SIZE
                &&& cells@.len() == positions@.len()
                &&& forall|i: int|
                    0 <= i < cells@.len() ==> {
                        &&& (#[trigger] cells@[i]).position == positions@[i]
                        &&& cells@[i].content@ == spec_chunk(response@, i)
                        &&& cells@[i].well_formed()
                    }
            },
            Err(e) => {
                &&& e == DecodeError::WrongLength
                &&& response@.len() != positions@.len() * CELL_WITH_PROOF_SIZE
            },
        },
{
    if response.len() % CELL_WITH_PROOF_SIZE != 0 || response.len() / CELL_WITH_PROOF_SIZE
        != positions.len() {
        proof {
            vstd::arithmetic::div_mod::lemma_fundamental_div_mod(
                response@.len() as int,
                CELL_WITH_PROOF_SIZE as int,
            );
        }
        return Err(DecodeError::WrongLength);
    }
    proof {
        vstd::arithmetic::div_mod::lemma_fundamental_div_mod(
            response@.len() as int,
            CELL_WITH_PROOF_SIZE as int,
        );
    }
    let chunks = split_cell_chunks(response, positions.len());
    let mut cells: Vec<Cell> = Vec::new();
    let mut i: usize = 0;
    while i < positions.len()
        invariant
            i <= positions@.len(),
            chunks@.len() == positions@.len(),
            response@.len() == positions@.len() * CELL_WITH_PROOF_SIZE,
            forall|k: int| 0 <= k < chunks@.len() ==> #[trigger] chunks@[k]@ == spec_chunk(
                response@,
                k,
            ),
            cells@.len() == i,
            forall|k: int|
                0 <= k < i ==> {
                    &&& (#[trigger] cells@[k]).position == positions@[k]
                    &&& cells@[k].content@ == spec_chunk(response@, k)
                    &&& cells@[k].well_formed()
                },
        decreases positions@.len() - i,
    {
        let content = slice_to_vec(chunks[i].as_slice());
        cells.push(Cell { position: positions[i], content });
        i = i + 1;
    }
    Ok(cells)
}

} // verus!
