//! Per-block orchestration: one sampling round runs from choosing the
//! required cell count, through sampling positions and decoding the
//! fetched cells, to scoring the block from the verification verdicts.
//! The network transport sits between the steps and stays outside.

use vstd::prelude::*;
use vstd::arithmetic::power2::*;

use crate::confidence::{cell_count_for_confidence, spec_cell_count};
use crate::matrix::{Cell, MatrixDimensions, Position, PROOF_SIZE};
use crate::sampling::{
    generate_random_cells, positions_in_bounds, positions_unique, spec_effective_count,
};
use crate::verification::{
    commitment_slice_for_row, count_verified, spec_commitment_slice, spec_count_true,
};

verus! {

/// The verdict on one block's sampling round.
///
/// A block counts as scored only when every sampled cell was fetched and
/// its proof verified; then the achieved confidence is
/// `100 * (1 - (1/2)^verified)` percent, held as the exact fraction
/// `confidence_num / confidence_den`. Any shortfall is reported as such,
/// never folded into a score.
pub enum BlockScore {
    Available { verified: u32, confidence_num: u64, confidence_den: u64 },
    Incomplete { verified: u32, requested: u32 },
}

/// Achieved confidence after `verified` cells all passed: the exact
/// fraction `100 * (2^verified - 1) / 2^verified` percent.
pub fn confidence_achieved(verified: u32) -> (frac: (u64, u64))
    requires
        verified <= 57,
    ensures
        frac.1 == pow2(verified as nat),
        frac.0 == 100 * (pow2(verified as nat) - 1),
{
    proof {
        lemma2_to64();
        lemma2_to64_rest();
    }
    let mut den: u64 = 1;
    let mut i: u32 = 0;
    while i < verified
        invariant
            i <= verified <= 57,
            den == pow2(i as nat),
        decreases verified - i,
    {
        proof {
            lemma_pow2_unfold((i + 1) as nat);
            if i + 1 < 57 {
                lemma_pow2_strictly_increases((i + 1) as nat, 57);
            }
            lemma2_to64_rest();
        }
        den = den * 2;
        i = i + 1;
    }
    proof {
        if (verified as nat) < 57 {
            lemma_pow2_strictly_increases(verified as nat, 57);
        }
        lemma2_to64_rest();
    }
    let num = 100 * (den - 1);
    (num, den)
}

/// One block's sampling round, from the header's data and the configured
/// target confidence.
pub struct BlockVerificationTask {
    pub number: u64,
    pub dimensions: MatrixDimensions,
    pub commitment: Vec<u8>,
    pub required_count: u32,
    pub positions: Vec<Position>,
}

impl BlockVerificationTask {
    /// The task as `start` sets it up: a commitment of one 48-byte entry
    /// per extended row, a required count from the confidence model, and
    /// as many distinct in-bounds positions as the matrix allows.
    pub open spec fn well_formed(self) -> bool {
        &&& self.dimensions.well_formed()
        &&& self.commitment@.len() == PROOF_SIZE * self.dimensions.spec_extended_rows()
        &&& 1 <= self.required_count <= 10
        &&& self.positions@.len() == spec_effective_count(self.dimensions, self.required_count)
        &&& positions_unique(self.positions@)
        &&& positions_in_bounds(self.positions@, self.dimensions)
    }

    /// Sampling step: fix the required cell count for the target
    /// confidence (in hundredths of a percent) and draw the positions to
    /// fetch. The caller then fetches those positions' cells at the
    /// block's hash.
    pub fn start(
        number: u64,
        dimensions: MatrixDimensions,
        commitment: Vec<u8>,
        confidence: u32,
    ) -> (task: BlockVerificationTask)
        requires
            dimensions.well_formed(),
            commitment@.len() == PROOF_SIZE * dimensions.spec_extended_rows(),
        ensures
            task.well_formed(),
            task.number == number,
            task.dimensions == dimensions,
            task.commitment@ == commitment@,
            task.required_count == spec_cell_count(confidence as int),
    {
        let required_count = cell_count_for_confidence(confidence);
        let positions = generate_random_cells(&dimensions, required_count);
        BlockVerificationTask { number, dimensions, commitment, required_count, positions }
    }

    /// Verifying step, per cell: the 48-byte commitment slice of the
    /// position's row, against which that cell's proof is to be checked.
    pub fn commitment_for_position(&self, position: &Position) -> (slice: Vec<u8>)
        requires
            self.well_formed(),
            position.in_extended(self.dimensions),
        ensures
            slice@ == spec_commitment_slice(self.commitment@, position.row as int),
            slice@.len() == PROOF_SIZE,
    {
        commitment_slice_for_row(&self.commitment, position.row)
    }

    /// Scoring step: tally the verdicts, one per sampled cell. The block
    /// is scored only when every sampled cell verified; otherwise the
    /// shortfall is reported.
    pub fn score(&self, outcomes: &Vec<bool>) -> (score: BlockScore)
        requires
            self.well_formed(),
            outcomes@.len() == self.positions@.len(),
        ensures
            match score {
                BlockScore::Available { verified, confidence_num, confidence_den } => {
                    &&& verified == spec_count_true(outcomes@)
                    &&& verified == outcomes@.len()
                    &&& confidence_den == pow2(verified as nat)
                    &&& confidence_num == 100 * (pow2(verified as nat) - 1)
                },
                BlockScore::Incomplete { verified, requested } => {
                    &&& verified == spec_count_true(outcomes@)
                    &&& verified < outcomes@.len()
                    &&& requested == outcomes@.len()
                },
            },
    {
        let verified = count_verified(outcomes);
        if verified == outcomes.len() {
            let frac = confidence_achieved(verified as u32);
            BlockScore::Available {
                verified: verified as u32,
                confidence_num: frac.0,
                confidence_den: frac.1,
            }
        } else {
            BlockScore::Incomplete {
                verified: verified as u32,
                requested: outcomes.len() as u32,
            }
        }
    }
}

} // verus!
