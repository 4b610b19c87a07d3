use table_engine::scroll::ScrollState;

#[test]
fn zero_rows_pin_everything_to_the_empty_state() {
    // Any scroll operation on an empty table leaves offset 0 and no
    // selection, without error.
    let mut s = ScrollState::new();
    s.scroll_by(5, 0, 4);
    assert_eq!(s.scroll_offset, 0);
    assert_eq!(s.selected_row, None);
    s.page_down(0, 4);
    s.page_up(0, 4);
    s.home(0, 4);
    s.end(0, 4);
    s.move_selection(3, 0, 4);
    s.select(2, 0, 4);
    s.scroll_to_selection(0, 4);
    assert_eq!(s.scroll_offset, 0);
    assert_eq!(s.selected_row, None);
}

#[test]
fn offset_stays_within_range_under_any_operation_sequence() {
    let row_count = 10;
    let visible = 4;
    let max_offset = row_count - visible;
    let mut s = ScrollState::new();
    s.scroll_by(100, row_count, visible);
    assert_eq!(s.scroll_offset, max_offset);
    s.scroll_by(-100, row_count, visible);
    assert_eq!(s.scroll_offset, 0);
    s.page_down(row_count, visible);
    assert_eq!(s.scroll_offset, 4);
    s.page_down(row_count, visible);
    assert_eq!(s.scroll_offset, max_offset);
    s.page_up(row_count, visible);
    s.end(row_count, visible);
    assert_eq!(s.scroll_offset, max_offset);
    s.home(row_count, visible);
    assert_eq!(s.scroll_offset, 0);
    for _ in 0..25 {
        s.move_selection(3, row_count, visible);
        assert!(s.scroll_offset <= max_offset);
    }
}

#[test]
fn selection_and_window_stay_consistent() {
    let mut s = ScrollState::new();
    // Select row 7 of 10 with a 4-row window, then bring it into
    // view: the window must contain the selection.
    s.select(7, 10, 4);
    s.scroll_to_selection(10, 4);
    assert_eq!(s.selected_row, Some(7));
    assert!(s.scroll_offset <= 7 && 7 < s.scroll_offset + 4);
    // The same holds scrolling back up to a low selection.
    s.select(1, 10, 4);
    s.scroll_to_selection(10, 4);
    assert!(s.scroll_offset <= 1 && 1 < s.scroll_offset + 4);
}

#[test]
fn move_selection_walks_and_auto_scrolls() {
    let mut s = ScrollState::new();
    // The first move establishes a selection at the top of the window.
    s.move_selection(1, 10, 4);
    assert_eq!(s.selected_row, Some(0));
    assert_eq!(s.scroll_offset, 0);
    for _ in 0..9 {
        s.move_selection(1, 10, 4);
    }
    assert_eq!(s.selected_row, Some(9));
    assert!(s.scroll_offset <= 9 && 9 < s.scroll_offset + 4);
    s.move_selection(-20, 10, 4);
    assert_eq!(s.selected_row, Some(0));
    assert_eq!(s.scroll_offset, 0);
}

#[test]
fn reclamp_pulls_state_back_after_a_shrink() {
    let mut s = ScrollState::new();
    s.select(9, 10, 4);
    s.end(10, 4);
    // The row set shrinks from 10 to 3 rows.
    s.reclamp(3, 4);
    assert_eq!(s.scroll_offset, 0);
    assert_eq!(s.selected_row, Some(2));
    // ... and then empties.
    s.reclamp(0, 4);
    assert_eq!(s.selected_row, None);
    assert_eq!(s.scroll_offset, 0);
}

#[test]
fn selecting_past_the_end_lands_on_the_last_row() {
    let mut s = ScrollState::new();
    s.select(42, 5, 3);
    assert_eq!(s.selected_row, Some(4));
}
