use stamp_noise::finish::{cut_noise_to_dimensions, render_noise};
use stamp_noise::sampling::{locate_all, locate_samples};
use stamp_noise::threshold::{in_band, order_key, threshold_grid};

fn key_of(v: f32) -> u32 {
    let v = if v == 0.0 { 0.0f32 } else { v };
    order_key(v.to_bits())
}

#[test]
fn order_key_is_monotone_over_floats() {
    let ordered: [f32; 8] = [-1000.5, -2.0, -0.1, 0.0, 0.1, 0.5, 2.0, 1000.5];
    for w in ordered.windows(2) {
        assert!(key_of(w[0]) < key_of(w[1]), "{} !< {}", w[0], w[1]);
    }
}

#[test]
fn order_key_folds_negative_zero() {
    assert_eq!(key_of(-0.0), key_of(0.0));
}

#[test]
fn threshold_keeps_lower_bound_and_drops_upper_bound() {
    let lo = key_of(-0.1);
    let hi = key_of(0.1);
    assert!(in_band(key_of(-0.1), lo, hi), "lower bound is inclusive");
    assert!(!in_band(key_of(0.1), lo, hi), "upper bound is exclusive");
    assert!(in_band(key_of(0.0), lo, hi));
    assert!(in_band(key_of(0.0999), lo, hi));
    assert!(!in_band(key_of(-0.2), lo, hi));
    assert!(!in_band(key_of(0.2), lo, hi));
}

fn demo_cells() -> Vec<Vec<usize>> {
    vec![vec![4, 5, 6], vec![7, 8, 9], vec![10, 11, 12]]
}

#[test]
fn locate_samples_addresses_the_four_neighbouring_cells() {
    let cells = demo_cells();
    // x = 5, y = 7 with stamp_size 4: own cell (1, 1), fractions (1, 3).
    let p = locate_samples(5, 7, 4, &cells).expect("in range");
    assert_eq!(p.s11.stamp, 8);
    assert_eq!((p.s11.local_x, p.s11.local_y), (1, 3));
    assert_eq!(p.s01.stamp, 5);
    assert_eq!((p.s01.local_x, p.s01.local_y), (5, 3));
    assert_eq!(p.s10.stamp, 7);
    assert_eq!((p.s10.local_x, p.s10.local_y), (1, 7));
    assert_eq!(p.s00.stamp, 4);
    assert_eq!((p.s00.local_x, p.s00.local_y), (5, 7));
    assert_eq!((p.frac_x, p.frac_y), (1, 3));
}

#[test]
fn locate_samples_rejects_the_low_margin() {
    let cells = demo_cells();
    assert!(locate_samples(3, 7, 4, &cells).is_none(), "x cell 0 has no left neighbour");
    assert!(locate_samples(5, 2, 4, &cells).is_none(), "y cell 0 has no upper neighbour");
}

#[test]
fn locate_samples_rejects_cells_past_the_grid() {
    let cells = demo_cells();
    assert!(locate_samples(12, 7, 4, &cells).is_none(), "x cell 3 is outside a 3-cell grid");
    assert!(locate_samples(5, 100, 4, &cells).is_none());
}

#[test]
fn locate_all_covers_the_whole_working_interior() {
    let cells = demo_cells();
    // stamp_size 4, a 3-cell grid: working side 12, margin 8, so a 4 by 4
    // interior whose first coordinate is (8, 8).
    let points = locate_all(4, 8, 12, &cells);
    assert_eq!(points.len(), 4);
    for row in &points {
        assert_eq!(row.len(), 4);
    }
    assert_eq!(points[1][3], locate_samples(9, 11, 4, &cells).unwrap());
    // The margin guarantees every interior coordinate resolves; the own
    // cell of the first one is (2, 2), the last cell of the grid.
    assert_eq!(points[0][0].s11.stamp, 12);
    assert_eq!(points[0][0].s00.stamp, 8);
}

#[test]
fn threshold_grid_tests_each_cell_against_the_band() {
    let keys = vec![vec![0u32, 5, 9], vec![10, 4, 7]];
    let out = threshold_grid(&keys, 5, 10);
    assert_eq!(out, vec![vec![false, true, true], vec![false, false, true]]);
}

#[test]
fn cut_trims_rows_and_columns_independently() {
    let mut grid = vec![
        vec![true, false, true, false, true],
        vec![false, true, false, true, false],
        vec![true, true, true, true, true],
        vec![false, false, false, false, false],
    ];
    cut_noise_to_dimensions(&mut grid, 3);
    assert_eq!(
        grid,
        vec![
            vec![true, false, true],
            vec![false, true, false],
            vec![true, true, true],
        ]
    );
}

#[test]
fn cut_leaves_a_small_grid_alone() {
    let mut grid = vec![vec![true, false], vec![false, true]];
    cut_noise_to_dimensions(&mut grid, 5);
    assert_eq!(grid, vec![vec![true, false], vec![false, true]]);
}

#[test]
fn render_marks_kept_cells_line_by_line() {
    let grid = vec![vec![true, false], vec![false, true]];
    let bytes = render_noise(&grid);
    assert_eq!(bytes, b"X \n X\n".to_vec());
}

#[test]
fn render_of_empty_grid_is_empty() {
    let grid: Vec<Vec<bool>> = Vec::new();
    assert_eq!(render_noise(&grid), Vec::<u8>::new());
}
