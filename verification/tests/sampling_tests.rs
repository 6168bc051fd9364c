use avail_light::matrix::{MatrixDimensions, Position};
use avail_light::sampling::generate_random_cells;

fn assert_unique_and_in_bounds(positions: &[Position], dims: &MatrixDimensions) {
    for (i, p) in positions.iter().enumerate() {
        assert!((p.row as u32) < 2 * dims.rows as u32, "row out of bounds");
        assert!(p.col < dims.cols, "column out of bounds");
        for q in &positions[i + 1..] {
            assert!(!(p.row == q.row && p.col == q.col), "duplicate position");
        }
    }
}

// The sampler returns exactly the requested number of distinct
// positions when the matrix is large enough.
#[test]
fn samples_requested_count() {
    let dims = MatrixDimensions { rows: 128, cols: 256 };
    for n in [0u32, 1, 5, 10] {
        let positions = generate_random_cells(&dims, n);
        assert_eq!(positions.len(), n as usize);
        assert_unique_and_in_bounds(&positions, &dims);
    }
}

// A matrix smaller than the request degrades to an exhaustive sweep:
// every cell of the extended matrix exactly once.
#[test]
fn samples_whole_small_matrix() {
    let dims = MatrixDimensions { rows: 2, cols: 4 }; // extended: 4 x 4
    let positions = generate_random_cells(&dims, 100);
    assert_eq!(positions.len(), 16);
    assert_unique_and_in_bounds(&positions, &dims);
    for row in 0..4u16 {
        for col in 0..4u16 {
            assert!(
                positions.iter().any(|p| p.row == row && p.col == col),
                "cell ({row}, {col}) missing from exhaustive sweep"
            );
        }
    }
}

// The single-cell matrix still works.
#[test]
fn samples_one_by_one_matrix() {
    let dims = MatrixDimensions { rows: 1, cols: 1 };
    let positions = generate_random_cells(&dims, 10);
    assert_eq!(positions.len(), 2); // extended matrix is 2 x 1
    assert_unique_and_in_bounds(&positions, &dims);
}

// The largest supported matrix still samples, with extended row
// indices up to the top of the 16-bit range.
#[test]
fn samples_largest_matrix() {
    let dims = MatrixDimensions { rows: 32768, cols: 1 };
    let positions = generate_random_cells(&dims, 3);
    assert_eq!(positions.len(), 3);
    assert_unique_and_in_bounds(&positions, &dims);
}

#[test]
fn extended_dimensions() {
    let dims = MatrixDimensions { rows: 4, cols: 4 };
    assert_eq!(dims.extended_rows(), 8);
    assert_eq!(dims.extended_size(), 32);
}
