use ntp_consensus::median::{calculate_median, calculate_trimmed_median};

#[test]
fn median_of_empty_list_is_none() {
    assert_eq!(calculate_median(vec![]), None);
}

#[test]
fn median_of_odd_length_list_is_middle_element() {
    assert_eq!(calculate_median(vec![5, 1, 3]), Some(3));
}

#[test]
fn median_of_even_length_list_is_upper_middle_element() {
    // Index len / 2 of the sorted list selects the upper-middle element,
    // never an interpolated average.
    assert_eq!(calculate_median(vec![4, 1, 3, 2]), Some(3));
}

#[test]
fn median_is_invariant_under_permutation() {
    let lists: [Vec<i64>; 4] = [
        vec![7, 3, 9, 1, 5],
        vec![1, 3, 5, 7, 9],
        vec![9, 7, 5, 3, 1],
        vec![5, 9, 1, 7, 3],
    ];
    for list in lists {
        assert_eq!(calculate_median(list), Some(5));
    }
}

#[test]
fn median_of_single_sample_is_that_sample() {
    assert_eq!(calculate_median(vec![42]), Some(42));
}

#[test]
fn trimming_single_sample_with_zero_cutoff_keeps_it() {
    // The sample sits at offset 0 from itself, so any cutoff >= 0 keeps it.
    assert_eq!(calculate_trimmed_median(&vec![42], 0, 1), Some(42));
}

#[test]
fn sample_exactly_at_cutoff_is_kept() {
    // First-pass median of [0, 0, 0, 19, 20] is 0; offsets are 0, 0, 0, 19, 20.
    // With cutoff 19 the sample at offset 19 survives, so four samples remain.
    assert_eq!(calculate_trimmed_median(&vec![0, 0, 0, 19, 20], 19, 4), Some(0));
}

#[test]
fn sample_one_past_cutoff_is_dropped() {
    // First-pass median of [0, 0, 0, 20, 20] is 0; the samples at offset 20
    // (cutoff + 1) are both dropped, leaving three survivors - below the
    // quorum floor of four.
    assert_eq!(calculate_trimmed_median(&vec![0, 0, 0, 20, 20], 19, 4), None);
}

#[test]
fn trimmed_median_of_empty_list_is_none() {
    assert_eq!(calculate_trimmed_median(&vec![], 19, 0), None);
}

#[test]
fn negative_cutoff_keeps_nothing() {
    assert_eq!(calculate_trimmed_median(&vec![5], -1, 0), None);
}

#[test]
fn trimmed_median_recenters_on_survivors() {
    // First-pass median of [0, 2, 4, 6, 500] is 4; the outlier at 500 is
    // trimmed, and the second-pass median of [0, 2, 4, 6] is 4.
    assert_eq!(calculate_trimmed_median(&vec![500, 6, 2, 0, 4], 19, 3), Some(4));
}
