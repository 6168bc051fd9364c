use avail_light::confidence::cell_count_for_confidence;
use avail_light::pipeline::confidence_achieved;

// Exact values of the formula `ceil(-log2(1 - confidence/100))`,
// with confidence given in hundredths of a percent.
#[test]
fn cell_count_exact_values() {
    assert_eq!(cell_count_for_confidence(5000), 1); // 50%   -> 1
    assert_eq!(cell_count_for_confidence(7500), 2); // 75%   -> 2
    assert_eq!(cell_count_for_confidence(8750), 3); // 87.5% -> 3
    assert_eq!(cell_count_for_confidence(9200), 4); // 92%   -> 4
    assert_eq!(cell_count_for_confidence(9900), 7); // 99%   -> 7
    assert_eq!(cell_count_for_confidence(9990), 10); // 99.9% -> 10
}

// Within [50%, 99.90%] the count never decreases as confidence grows.
#[test]
fn cell_count_monotone_in_range() {
    let mut prev = 0u32;
    let mut c = 5000u32;
    while c <= 9990 {
        let count = cell_count_for_confidence(c);
        assert!(count >= prev, "count dropped at confidence {c}");
        assert!((1..=10).contains(&count));
        prev = count;
        c += 10;
    }
}

// Out-of-range inputs give the same count as the default of 99%.
#[test]
fn cell_count_out_of_range_uses_default() {
    let default_count = cell_count_for_confidence(9900);
    assert_eq!(default_count, 7);
    assert_eq!(cell_count_for_confidence(0), default_count);
    assert_eq!(cell_count_for_confidence(4999), default_count);
    assert_eq!(cell_count_for_confidence(10000), default_count);
    assert_eq!(cell_count_for_confidence(u32::MAX), default_count);
}

// Inputs whose formula value would exceed 10 also fall back to the
// default: at 99.91% the raw count would be 11.
#[test]
fn cell_count_degenerate_uses_default() {
    assert_eq!(cell_count_for_confidence(9991), 7);
    assert_eq!(cell_count_for_confidence(9999), 7);
}

// The achieved confidence is the exact fraction 100 * (1 - 2^-n).
#[test]
fn confidence_achieved_exact_fractions() {
    assert_eq!(confidence_achieved(0), (0, 1));
    assert_eq!(confidence_achieved(1), (100, 2)); // 50%
    assert_eq!(confidence_achieved(4), (1500, 16)); // 93.75%
    assert_eq!(confidence_achieved(7), (12700, 128)); // 99.21875%
    let (num, den) = confidence_achieved(4);
    assert_eq!(num as f64 / den as f64, 93.75);
}
