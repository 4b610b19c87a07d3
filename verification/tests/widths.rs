use table_engine::column::{Column, ColumnSizing, ConfigError};
use table_engine::width::allocate_widths;

fn flex(weight: u32, min_width: u16) -> Column {
    Column::new(String::from("f"), ColumnSizing::Flex(weight), min_width, true).unwrap()
}

fn hard(width: u16, min_width: u16) -> Column {
    Column::new(String::from("h"), ColumnSizing::Hard(width), min_width, true).unwrap()
}

#[test]
fn two_flex_one_hard_splits_leftover_left_to_right() {
    // Two equal flex columns and one hard column of 5 in 20 cells:
    // the 15 remaining cells split 7/7 with the leftover cell going
    // to the leftmost flex column.
    let cols = vec![flex(20, 1), flex(20, 1), hard(5, 1)];
    let widths = allocate_widths(&cols, 20);
    assert_eq!(widths, vec![8, 7, 5]);
}

#[test]
fn equal_weights_over_fifteen_cells() {
    let cols = vec![flex(5, 1), flex(5, 1)];
    let widths = allocate_widths(&cols, 15);
    assert_eq!(widths, vec![8, 7]);
}

#[test]
fn hard_columns_get_their_requested_width() {
    let cols = vec![hard(5, 1), hard(6, 1), hard(6, 1)];
    let widths = allocate_widths(&cols, 40);
    assert_eq!(widths, vec![5, 6, 6]);
}

#[test]
fn hard_width_is_floored_to_min_width() {
    let cols = vec![hard(2, 4)];
    let widths = allocate_widths(&cols, 10);
    assert_eq!(widths, vec![4]);
}

#[test]
fn zero_columns_give_empty_result() {
    let cols: Vec<Column> = Vec::new();
    let widths = allocate_widths(&cols, 20);
    assert!(widths.is_empty());
}

#[test]
fn zero_available_width_falls_back_to_minima() {
    let cols = vec![flex(1, 3), hard(10, 2)];
    let widths = allocate_widths(&cols, 0);
    assert_eq!(widths, vec![3, 2]);
}

#[test]
fn flex_columns_shrink_from_the_right_on_overflow() {
    // Flex minima force 5 + 5 = 10 cells, the hard column wants 6:
    // in 12 cells the rightmost flex column gives back its slack
    // first.
    let cols = vec![flex(1, 2), flex(1, 2), hard(6, 1)];
    let widths = allocate_widths(&cols, 12);
    let total: u32 = widths.iter().map(|w| *w as u32).sum();
    assert!(total <= 12);
    assert!(widths[0] >= 2 && widths[1] >= 2);
    assert_eq!(widths[2], 6);
}

#[test]
fn hard_columns_truncate_right_to_left_as_last_resort() {
    // One flex column pinned at its minimum and one oversized hard
    // column: the hard column is truncated down towards its minimum
    // so the total fits.
    let cols = vec![flex(1, 5), hard(10, 1)];
    let widths = allocate_widths(&cols, 8);
    assert_eq!(widths, vec![5, 3]);
}

#[test]
fn every_column_keeps_its_minimum_width() {
    let cols = vec![flex(3, 4), flex(1, 6), hard(2, 5)];
    let widths = allocate_widths(&cols, 9);
    assert!(widths[0] >= 4);
    assert!(widths[1] >= 6);
    assert!(widths[2] >= 5);
}

#[test]
fn sum_stays_within_available_when_minima_fit() {
    let cols = vec![flex(7, 2), hard(9, 1), flex(3, 3), hard(4, 4)];
    for avail in [10u16, 15, 20, 40, 100] {
        let widths = allocate_widths(&cols, avail);
        let total: u32 = widths.iter().map(|w| *w as u32).sum();
        assert!(total <= avail as u32, "total {} for avail {}", total, avail);
    }
}

fn expect_err(r: Result<Column, ConfigError>) -> ConfigError {
    match r {
        Err(e) => e,
        Ok(_) => panic!("expected a configuration error"),
    }
}

#[test]
fn construction_rejects_zero_min_width() {
    let r = Column::new(String::from("x"), ColumnSizing::Hard(3), 0, false);
    assert_eq!(expect_err(r), ConfigError::ZeroMinWidth);
}

#[test]
fn construction_rejects_zero_flex_weight() {
    let r = Column::new(String::from("x"), ColumnSizing::Flex(0), 1, false);
    assert_eq!(expect_err(r), ConfigError::ZeroFlexWeight);
    let r2 = Column::new_flex(String::from("x"), 0, false);
    assert_eq!(expect_err(r2), ConfigError::ZeroFlexWeight);
}

#[test]
fn construction_accepts_valid_columns() {
    let c = Column::new(String::from("x"), ColumnSizing::Flex(2), 3, true).unwrap();
    assert_eq!(c.min_width, 3);
    assert!(c.sortable);
    let h = Column::new_hard(String::from("y"), 7, false);
    assert_eq!(h.min_width, 1);
}
