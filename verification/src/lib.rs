//! Verified core of a data-availability light client: choosing how many
//! matrix cells to sample for a target confidence, drawing unique random
//! cell positions, selecting a compatible full node, decoding fetched
//! proof bytes, and tallying cryptographic proof verifications into a
//! confidence score.

pub mod confidence;
pub mod fetch;
pub mod hexstr;
pub mod matrix;
pub mod nodes;
pub mod pipeline;
pub mod sampling;
pub mod types;
pub mod verification;
