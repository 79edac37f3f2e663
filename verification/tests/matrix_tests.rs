use bayer_dither::matrix::{
    check_power_of_two, generate_bayer_matrix, try_generate_bayer_matrix, MAX_BAYER_ORDER,
};

#[test]
fn power_of_two_check_accepts_only_powers_of_two() {
    assert!(!check_power_of_two(0));
    assert!(check_power_of_two(1));
    assert!(check_power_of_two(2));
    assert!(!check_power_of_two(3));
    assert!(check_power_of_two(4));
    assert!(!check_power_of_two(6));
    assert!(check_power_of_two(8));
    assert!(!check_power_of_two(12));
    assert!(check_power_of_two(1024));
    assert!(!check_power_of_two(1023));
    assert!(check_power_of_two(MAX_BAYER_ORDER));
    assert!(!check_power_of_two(usize::MAX));
}

#[test]
fn order_one_is_a_single_cell() {
    let matrix = generate_bayer_matrix(1);
    assert_eq!(matrix.order(), 1);
    assert_eq!(matrix.to_rows(), vec![vec![1u32]]);
}

#[test]
fn order_two_follows_the_quadrant_rule() {
    // From rank 0: top-left 1, top-right 3, bottom-left 2, bottom-right 0; then one more each.
    let matrix = generate_bayer_matrix(2);
    assert_eq!(matrix.order(), 2);
    assert_eq!(matrix.to_rows(), vec![vec![2u32, 4], vec![3, 1]]);
    assert_eq!(matrix.get(0, 0), 2);
    assert_eq!(matrix.get(0, 1), 4);
    assert_eq!(matrix.get(1, 0), 3);
    assert_eq!(matrix.get(1, 1), 1);
}

#[test]
fn order_four_matches_hand_derivation() {
    let matrix = generate_bayer_matrix(4);
    assert_eq!(
        matrix.to_rows(),
        vec![
            vec![6u32, 14, 8, 16],
            vec![10, 2, 12, 4],
            vec![7, 15, 5, 13],
            vec![11, 3, 9, 1],
        ]
    );
}

#[test]
fn order_eight_first_row_matches_hand_derivation() {
    // Ranks of the first row of order 4 are 5, 13, 7, 15: the left half of the
    // first row of order 8 is 4r+1, the right half 4r+3, and one more each.
    let matrix = generate_bayer_matrix(8);
    let rows = matrix.to_rows();
    assert_eq!(rows[0], vec![22u32, 54, 30, 62, 24, 56, 32, 64]);
    assert_eq!(rows[4][4], 4 * 5 + 1);
}

#[test]
fn every_threshold_occurs_exactly_once() {
    let orders: [usize; 5] = [1, 2, 4, 8, 16];
    for order in orders {
        let matrix = generate_bayer_matrix(order);
        let mut seen = vec![0u32; order * order + 1];
        for row in 0..order {
            for col in 0..order {
                let value = matrix.get(row, col) as usize;
                assert!(value >= 1 && value <= order * order);
                seen[value] += 1;
            }
        }
        for value in 1..=order * order {
            assert_eq!(seen[value], 1);
        }
    }
}

#[test]
fn generating_twice_gives_the_same_matrix() {
    let first = generate_bayer_matrix(8);
    let second = generate_bayer_matrix(8);
    assert_eq!(first.to_rows(), second.to_rows());
}

#[test]
fn rows_agree_with_cells() {
    let matrix = generate_bayer_matrix(16);
    let rows = matrix.to_rows();
    assert_eq!(rows.len(), 16);
    for row in 0..16 {
        assert_eq!(rows[row].len(), 16);
        for col in 0..16 {
            assert_eq!(rows[row][col], matrix.get(row, col));
        }
    }
}

#[test]
fn a_large_order_keeps_its_thresholds_in_range() {
    let matrix = generate_bayer_matrix(256);
    assert_eq!(matrix.order(), 256);
    assert_eq!(matrix.get(255, 255), 1);
    assert_eq!(matrix.get(0, 255), 65536);
}

#[test]
fn only_powers_of_two_within_the_limit_have_a_matrix() {
    assert!(try_generate_bayer_matrix(0).is_none());
    assert!(try_generate_bayer_matrix(3).is_none());
    assert!(try_generate_bayer_matrix(6).is_none());
    assert!(try_generate_bayer_matrix(2 * MAX_BAYER_ORDER).is_none());
    let matrix = try_generate_bayer_matrix(2).unwrap();
    assert_eq!(matrix.to_rows(), vec![vec![2u32, 4], vec![3, 1]]);
    assert_eq!(try_generate_bayer_matrix(1).unwrap().to_rows(), vec![vec![1u32]]);
}
