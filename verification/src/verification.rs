//! Proof verification bookkeeping: which 48-byte slice of the block's
//! commitment buffer belongs to a cell's row, and the tally of the
//! per-cell verification verdicts into the verified count.
//!
//! The cryptographic check of one proof against one commitment slice is
//! an external primitive; its verdicts enter here as plain booleans, one
//! per cell, and only their count matters — the tally is independent of
//! the order in which cells were verified.

use vstd::prelude::*;
use vstd::multiset::Multiset;
use vstd::slice::{slice_subrange, slice_to_vec};

use crate::matrix::PROOF_SIZE;

verus! {

/// The 48-byte commitment of the given row within the block's
/// concatenated commitment buffer.
pub open spec fn spec_commitment_slice(commitment: Seq<u8>, row: int) -> Seq<u8> {
    commitment.subrange(row * PROOF_SIZE, (row + 1) * PROOF_SIZE)
}

/// Extract the commitment of the given row: bytes
/// `row * 48 .. (row + 1) * 48` of the commitment buffer.
pub fn commitment_slice_for_row(commitment: &Vec<u8>, row: u16) -> (slice: Vec<u8>)
    requires
        (row as int + 1) * PROOF_SIZE <= commitment@.len(),
    ensures
        slice@ == spec_commitment_slice(commitment@, row as int),
        slice@.len() == PROOF_SIZE,
{
    slice_to_vec(
        slice_subrange(
            commitment.as_slice(),
            row as usize * PROOF_SIZE,
            (row as usize + 1) * PROOF_SIZE,
        ),
    )
}

/// How many verdicts in the sequence are positive.
pub open spec fn spec_count_true(s: Seq<bool>) -> nat
    decreases s.len(),
{
    if s.len() == 0 {
        0
    } else {
        spec_count_true(s.drop_last()) + if s.last() {
            1nat
        } else {
            0nat
        }
    }
}

/// No batch can verify more cells than it holds.
pub proof fn lemma_count_true_le_len(s: Seq<bool>)
    ensures
        spec_count_true(s) <= s.len(),
    decreases s.len(),
{
    if s.len() > 0 {
        lemma_count_true_le_len(s.drop_last());
    }
}

/// A batch of all-positive verdicts counts in full.
pub proof fn lemma_count_true_all(s: Seq<bool>)
    requires
        forall|i: int| 0 <= i < s.len() ==> s[i],
    ensures
        spec_count_true(s) == s.len(),
    decreases s.len(),
{
    if s.len() > 0 {
        lemma_count_true_all(s.drop_last());
    }
}

/// The tally is the verdict multiset's count of positive verdicts.
pub proof fn lemma_count_true_is_multiset_count(s: Seq<bool>)
    ensures
        spec_count_true(s) == s.to_multiset().count(true),
    decreases s.len(),
{
    broadcast use vstd::seq_lib::group_to_multiset_ensures;

    if s.len() == 0 {
        assert(s.to_multiset() =~= Multiset::empty());
    } else {
        lemma_count_true_is_multiset_count(s.drop_last());
        assert(s =~= s.drop_last().push(s.last()));
        assert(s.to_multiset() =~= s.drop_last().to_multiset().insert(s.last()));
    }
}

/// Verification order does not matter: batches holding the same
/// verdicts in any order tally the same verified count.
pub proof fn lemma_count_true_order_independent(s1: Seq<bool>, s2: Seq<bool>)
    requires
        s1.to_multiset() == s2.to_multiset(),
    ensures
        spec_count_true(s1) == spec_count_true(s2),
{
    lemma_count_true_is_multiset_count(s1);
    lemma_count_true_is_multiset_count(s2);
}

/// Tally of the per-cell verdicts: exactly the number of cells whose
/// proof was found valid, never more than the number of cells attempted.
pub fn count_verified(outcomes: &Vec<bool>) -> (verified: usize)
    ensures
        verified == spec_count_true(outcomes@),
        verified <= outcomes@.len(),
{
    let mut verified: usize = 0;
    let mut i: usize = 0;
    while i < outcomes.len()
        invariant
            i <= outcomes@.len(),
            verified == spec_count_true(outcomes@.take(i as int)),
            verified <= i,
        decreases outcomes@.len() - i,
    {
        if outcomes[i] {
            verified = verified + 1;
        }
        proof {
            assert(outcomes@.take(i + 1).drop_last() =~= outcomes@.take(i as int));
            assert(outcomes@.take(i + 1).last() == outcomes@[i as int]);
        }
        i = i + 1;
    }
    proof {
        assert(outcomes@.take(outcomes@.len() as int) =~= outcomes@);
    }
    verified
}

} // verus!
