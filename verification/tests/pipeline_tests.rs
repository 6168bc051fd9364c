use avail_light::fetch::{cells_from_proof_bytes, DecodeError};
use avail_light::matrix::{MatrixDimensions, Position};
use avail_light::pipeline::{BlockScore, BlockVerificationTask};
use avail_light::types::{BlockProofResponse, JsonRPCHeader};
use avail_light::verification::{commitment_slice_for_row, count_verified};

fn rpc_header() -> JsonRPCHeader {
    JsonRPCHeader { jsonrpc: "2.0".to_string(), id: 1 }
}

// A commitment buffer whose row r consists of the byte r repeated.
fn commitment_for_rows(rows: usize) -> Vec<u8> {
    let mut buf = Vec::new();
    for r in 0..rows {
        buf.extend(std::iter::repeat(r as u8).take(48));
    }
    buf
}

#[test]
fn decode_splits_in_request_order() {
    let positions = vec![
        Position { row: 0, col: 0 },
        Position { row: 3, col: 1 },
    ];
    let mut response = vec![7u8; 80];
    response.extend(vec![9u8; 80]);
    let cells = cells_from_proof_bytes(&positions, &response).unwrap();
    assert_eq!(cells.len(), 2);
    assert_eq!(cells[0].position, positions[0]);
    assert_eq!(cells[1].position, positions[1]);
    assert_eq!(cells[0].content, vec![7u8; 80]);
    assert_eq!(cells[1].content, vec![9u8; 80]);
}

// A response that is not exactly 80 bytes per position is rejected.
#[test]
fn decode_rejects_wrong_length() {
    let positions = vec![Position { row: 0, col: 0 }];
    let short = cells_from_proof_bytes(&positions, &vec![0u8; 79]);
    assert_eq!(short.err(), Some(DecodeError::WrongLength));
    let long = cells_from_proof_bytes(&positions, &vec![0u8; 160]);
    assert_eq!(long.err(), Some(DecodeError::WrongLength));
    let unexpected = cells_from_proof_bytes(&vec![], &vec![0u8; 80]);
    assert_eq!(unexpected.err(), Some(DecodeError::WrongLength));
}

// No positions and no bytes decode to no cells.
#[test]
fn decode_empty_request() {
    let cells = cells_from_proof_bytes(&vec![], &vec![]).unwrap();
    assert!(cells.is_empty());
}

#[test]
fn by_cell_splits_into_chunks() {
    let mut bytes = vec![1u8; 80];
    bytes.extend(vec![2u8; 80]);
    let response = BlockProofResponse { header: rpc_header(), result: bytes };
    let chunks = response.by_cell(2);
    assert_eq!(chunks.len(), 2);
    assert_eq!(chunks[0], vec![1u8; 80]);
    assert_eq!(chunks[1], vec![2u8; 80]);
}

#[test]
fn commitment_slice_is_the_rows_48_bytes() {
    let commitment = commitment_for_rows(8);
    let slice = commitment_slice_for_row(&commitment, 5);
    assert_eq!(slice, vec![5u8; 48]);
}

#[test]
fn count_verified_counts_only_true() {
    assert_eq!(count_verified(&vec![]), 0);
    assert_eq!(count_verified(&vec![true, false, true, true, false]), 3);
    assert_eq!(count_verified(&vec![false; 4]), 0);
    let outcomes = vec![true; 7];
    let verified = count_verified(&outcomes);
    assert_eq!(verified, 7);
    assert!(verified <= outcomes.len());
}

// The end-to-end sampling round of one block: a 4x4 matrix (extended
// rows 8) at 92% confidence needs 4 cells; when all 4 verify, the
// achieved confidence is 100 * (1 - 0.5^4) = 93.75%.
#[test]
fn block_round_all_cells_verified() {
    let dims = MatrixDimensions { rows: 4, cols: 4 };
    let commitment = commitment_for_rows(8);
    let task = BlockVerificationTask::start(42, dims, commitment, 9200);

    assert_eq!(task.required_count, 4);
    assert_eq!(task.positions.len(), 4);
    for p in &task.positions {
        assert!(p.row < 8);
        assert!(p.col < 4);
    }

    // the fetched response: 80 bytes per sampled position
    let response = vec![0xabu8; 4 * 80];
    let cells = cells_from_proof_bytes(&task.positions, &response).unwrap();
    assert_eq!(cells.len(), 4);

    // each cell's proof is checked against its row's commitment slice
    for cell in &cells {
        let slice = task.commitment_for_position(&cell.position);
        assert_eq!(slice, vec![cell.position.row as u8; 48]);
    }

    let outcomes = vec![true; 4];
    match task.score(&outcomes) {
        BlockScore::Available { verified, confidence_num, confidence_den } => {
            assert_eq!(verified, 4);
            assert_eq!((confidence_num, confidence_den), (1500, 16));
            assert_eq!(confidence_num as f64 / confidence_den as f64, 93.75);
        }
        BlockScore::Incomplete { .. } => panic!("all cells verified, block must be scored"),
    }
}

// A shortfall is reported as such, never folded into a confidence.
#[test]
fn block_round_with_failed_cell_is_incomplete() {
    let dims = MatrixDimensions { rows: 4, cols: 4 };
    let task = BlockVerificationTask::start(43, dims, commitment_for_rows(8), 9200);
    let outcomes = vec![true, true, false, true];
    match task.score(&outcomes) {
        BlockScore::Available { .. } => panic!("a failed cell must not score the block"),
        BlockScore::Incomplete { verified, requested } => {
            assert_eq!(verified, 3);
            assert_eq!(requested, 4);
        }
    }
}
