use table_engine::column::Column;
use table_engine::row::Row;
use table_engine::sort::{SortState, column_is_numeric, sort_permutation};

fn rows_of(cells: &[&str]) -> Vec<Row> {
    cells.iter().map(|c| Row::new(vec![String::from(*c)])).collect()
}

#[test]
fn numeric_keys_compare_by_value() {
    let rows = rows_of(&["10", "2", "33"]);
    assert!(column_is_numeric(&rows, 0));
    let perm = sort_permutation(&rows, 0, false);
    assert_eq!(perm, vec![1, 0, 2]);
    let perm_desc = sort_permutation(&rows, 0, true);
    assert_eq!(perm_desc, vec![2, 0, 1]);
}

#[test]
fn one_non_numeric_key_makes_the_column_lexicographic() {
    let rows = rows_of(&["10", "9x"]);
    assert!(!column_is_numeric(&rows, 0));
    let perm = sort_permutation(&rows, 0, false);
    // "10" < "9x" by character code.
    assert_eq!(perm, vec![0, 1]);
}

#[test]
fn lexicographic_order_by_character() {
    let rows = rows_of(&["b", "a", "ab"]);
    let perm = sort_permutation(&rows, 0, false);
    assert_eq!(perm, vec![1, 2, 0]);
}

#[test]
fn equal_keys_keep_their_original_order() {
    let rows = rows_of(&["5", "3", "5", "3"]);
    let asc = sort_permutation(&rows, 0, false);
    assert_eq!(asc, vec![1, 3, 0, 2]);
    // Stability holds in both directions: the two 5s and the two 3s
    // stay in original order even when the groups swap.
    let desc = sort_permutation(&rows, 0, true);
    assert_eq!(desc, vec![0, 2, 1, 3]);
}

#[test]
fn leading_zeros_tie_numerically_and_break_by_position() {
    let rows = rows_of(&["007", "7", "1"]);
    assert!(column_is_numeric(&rows, 0));
    let perm = sort_permutation(&rows, 0, false);
    assert_eq!(perm, vec![2, 0, 1]);
}

#[test]
fn explicit_sort_keys_override_display_strings() {
    let rows = vec![
        Row::with_keys(vec![String::from("9 GB")], vec![Some(String::from("9000"))]),
        Row::with_keys(vec![String::from("1 TB")], vec![Some(String::from("1000000"))]),
        Row::with_keys(vec![String::from("10 MB")], vec![Some(String::from("10"))]),
    ];
    assert!(column_is_numeric(&rows, 0));
    let perm = sort_permutation(&rows, 0, false);
    assert_eq!(perm, vec![2, 0, 1]);
}

#[test]
fn toggle_sets_ascending_then_flips() {
    let columns = vec![
        Column::new_hard(String::from("a"), 3, true),
        Column::new_hard(String::from("b"), 3, false),
    ];
    let mut s = SortState::new();
    assert_eq!(s.sort_column, None);
    s.toggle(0, &columns);
    assert_eq!(s.sort_column, Some(0));
    assert!(!s.sort_descending);
    s.toggle(0, &columns);
    assert_eq!(s.sort_column, Some(0));
    assert!(s.sort_descending);
    s.toggle(0, &columns);
    assert!(!s.sort_descending);
}

#[test]
fn toggle_on_unsortable_or_unknown_column_changes_nothing() {
    let columns = vec![
        Column::new_hard(String::from("a"), 3, true),
        Column::new_hard(String::from("b"), 3, false),
    ];
    let mut s = SortState::new();
    s.toggle(0, &columns);
    s.toggle(1, &columns);
    assert_eq!(s.sort_column, Some(0));
    assert!(!s.sort_descending);
    s.toggle(17, &columns);
    assert_eq!(s.sort_column, Some(0));
    assert!(!s.sort_descending);
}

#[test]
fn toggling_twice_restores_the_ascending_order() {
    // An active ascending sort, toggled twice, shows the rows in
    // ascending order again.
    let columns = vec![Column::new_hard(String::from("n"), 3, true)];
    let rows = rows_of(&["4", "1", "3"]);
    let mut s = SortState::new();
    s.toggle(0, &columns);
    let before = sort_permutation(&rows, 0, s.sort_descending);
    s.toggle(0, &columns);
    s.toggle(0, &columns);
    assert_eq!(s.sort_column, Some(0));
    let after = sort_permutation(&rows, 0, s.sort_descending);
    assert_eq!(before, after);
    assert_eq!(after, vec![1, 2, 0]);
}

#[test]
fn empty_row_set_sorts_to_an_empty_permutation() {
    let rows: Vec<Row> = Vec::new();
    let perm = sort_permutation(&rows, 0, false);
    assert!(perm.is_empty());
}

#[test]
fn numbers_too_large_for_a_u64_fall_back_to_lexicographic() {
    let rows = rows_of(&["99999999999999999999999", "5"]);
    assert!(!column_is_numeric(&rows, 0));
    let perm = sort_permutation(&rows, 0, false);
    assert_eq!(perm, vec![1, 0]);
}
