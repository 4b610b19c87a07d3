use std::collections::HashMap;

use table_engine::column::Column;
use table_engine::event::{EventOutcome, KeyInput, MouseInput};
use table_engine::registry::{DiskState, DiskWidgetState};
use table_engine::row::Row;
use table_engine::table::{DiskTable, LayoutRule, Rect};

fn disk_rows() -> Vec<Row> {
    [
        ["sda1", "/", "100", "400", "500", "12", "7"],
        ["sdb1", "/home", "50", "50", "100", "3", "1"],
        ["sdc1", "/data", "10", "990", "1000", "0", "0"],
    ]
        .iter()
        .map(|cells| Row::new(cells.iter().map(|c| String::from(*c)).collect()))
        .collect()
}

#[test]
fn distinct_identities_have_independent_state() {
    // Toggling the sort for identity 1 never changes identity 2.
    let mut registry = DiskState::init(HashMap::new());
    registry.get_or_create(1);
    registry.get_or_create(2);
    let columns = vec![Column::new_hard(String::from("a"), 3, true)];
    let found = registry.toggle_sort_for(1, 0, &columns);
    assert!(found);
    assert_eq!(registry.get_widget_state(1).unwrap().sort_state.sort_column, Some(0));
    assert_eq!(registry.get_widget_state(2).unwrap().sort_state.sort_column, None);
}

#[test]
fn registry_creates_lazily_and_finds_entries() {
    let mut registry = DiskState::new();
    assert!(registry.get_widget_state(7).is_none());
    assert!(registry.get_mut_widget_state(7).is_none());
    registry.get_or_create(7).sort_state.sort_descending = true;
    assert!(registry.get_widget_state(7).unwrap().sort_state.sort_descending);
    // A second access returns the same entry, not a fresh one.
    assert!(registry.get_or_create(7).sort_state.sort_descending);
    let columns = vec![Column::new_hard(String::from("a"), 3, true)];
    assert!(!registry.toggle_sort_for(99, 0, &columns));
}

#[test]
fn fresh_widget_state_is_empty() {
    let s = DiskWidgetState::init();
    assert_eq!(s.scroll_state.scroll_offset, 0);
    assert_eq!(s.scroll_state.selected_row, None);
    assert_eq!(s.sort_state.sort_column, None);
}

#[test]
fn builders_configure_the_widget() {
    let t = DiskTable::default()
        .width(LayoutRule::Length { length: 30 })
        .height(LayoutRule::Expand { ratio: 2 })
        .basic_mode(true);
    assert_eq!(t.width_rule(), LayoutRule::Length { length: 30 });
    assert_eq!(t.height_rule(), LayoutRule::Expand { ratio: 2 });
    assert_eq!(t.get_pretty_name(), "Disks");
}

#[test]
fn bounds_round_trip() {
    let mut t = DiskTable::default();
    let r = Rect { x: 1, y: 2, width: 30, height: 10 };
    t.set_bounds(r);
    assert_eq!(t.bounds(), r);
}

#[test]
fn draw_fits_header_and_cells_to_the_column_widths() {
    let mut t = DiskTable::default();
    t.update_data(disk_rows());
    let area = Rect { x: 0, y: 0, width: 42, height: 7 };
    t.set_bounds(area);
    let g = t.draw(area, true);
    assert!(g.focused);
    assert_eq!(g.widths.len(), 7);
    let total: u32 = g.widths.iter().map(|w| *w as u32).sum();
    assert!(total <= 40);
    assert_eq!(g.header.len(), 7);
    // Hard columns: "Used" fitted to 5 cells, "R/s" to 7.
    assert_eq!(g.widths[2], 5);
    assert_eq!(g.header[2], "Used ");
    assert_eq!(g.widths[5], 7);
    assert_eq!(g.header[5], "R/s    ");
    // 7 rows minus borders and header leave 4 visible lines for 3 rows.
    assert_eq!(g.cells.len(), 3);
    assert_eq!(g.cells[0][2], "100  ");
    assert_eq!(g.cells[1][2], "50   ");
    assert_eq!(g.selected, None);
}

#[test]
fn draw_truncates_long_cells() {
    let mut t = DiskTable::default();
    let long = Row::new(
        vec![
            String::from("a-very-long-device-name"),
            String::from("/"),
            String::from("1"),
            String::from("1"),
            String::from("1"),
            String::from("1"),
            String::from("1"),
        ],
    );
    t.update_data(vec![long]);
    let area = Rect { x: 0, y: 0, width: 30, height: 5 };
    let g = t.draw(area, false);
    let w0 = g.widths[0] as usize;
    assert_eq!(g.cells[0][0].chars().count(), w0);
    assert!(String::from("a-very-long-device-name").starts_with(g.cells[0][0].as_str()));
}

#[test]
fn key_events_drive_selection_sort_and_paging() {
    let mut t = DiskTable::default();
    t.update_data(disk_rows());
    let area = Rect { x: 0, y: 0, width: 42, height: 7 };
    t.set_bounds(area);
    assert_eq!(t.handle_key_event(KeyInput::Down), EventOutcome::Consumed);
    assert_eq!(t.state.scroll_state.selected_row, Some(0));
    assert_eq!(t.handle_key_event(KeyInput::Down), EventOutcome::Consumed);
    assert_eq!(t.state.scroll_state.selected_row, Some(1));
    assert_eq!(t.handle_key_event(KeyInput::Up), EventOutcome::Consumed);
    assert_eq!(t.state.scroll_state.selected_row, Some(0));
    // Activate reports the data index of the selected display row.
    assert_eq!(t.handle_key_event(KeyInput::Activate), EventOutcome::Activated(0));
    // SortRight from no active sort toggles the first column.
    assert_eq!(t.handle_key_event(KeyInput::SortRight), EventOutcome::Consumed);
    assert_eq!(t.state.sort_state.sort_column, Some(0));
    // The device names are already ascending, so the order is kept.
    assert_eq!(t.order, vec![0, 1, 2]);
    // SortRight again toggles column 1 (mount point), ascending.
    assert_eq!(t.handle_key_event(KeyInput::SortRight), EventOutcome::Consumed);
    assert_eq!(t.state.sort_state.sort_column, Some(1));
    assert_eq!(t.order, vec![0, 2, 1]);
    assert_eq!(t.handle_key_event(KeyInput::Other), EventOutcome::NotConsumed);
    assert_eq!(t.handle_key_event(KeyInput::End), EventOutcome::Consumed);
    assert_eq!(t.state.scroll_state.selected_row, Some(2));
    assert_eq!(t.handle_key_event(KeyInput::Home), EventOutcome::Consumed);
    assert_eq!(t.state.scroll_state.scroll_offset, 0);
}

#[test]
fn sorting_by_a_numeric_column_orders_by_value() {
    let mut t = DiskTable::default();
    t.update_data(disk_rows());
    // Column 2 is "Used": 100, 50, 10 — numeric.
    t.toggle_sort(2);
    assert_eq!(t.order, vec![2, 1, 0]);
    t.toggle_sort(2);
    assert_eq!(t.order, vec![0, 1, 2]);
}

#[test]
fn mouse_clicks_select_and_activate_rows() {
    let mut t = DiskTable::default();
    t.update_data(disk_rows());
    let area = Rect { x: 0, y: 0, width: 42, height: 7 };
    t.set_bounds(area);
    // Click content line 2 = data row 1.
    assert_eq!(t.handle_mouse_event(MouseInput::Click { x: 0, y: 2 }), EventOutcome::Consumed);
    assert_eq!(t.state.scroll_state.selected_row, Some(1));
    // A second click on the selected row activates it.
    assert_eq!(
        t.handle_mouse_event(MouseInput::Click { x: 0, y: 2 }),
        EventOutcome::Activated(1)
    );
    // A click below the data is not consumed.
    assert_eq!(
        t.handle_mouse_event(MouseInput::Click { x: 0, y: 60 }),
        EventOutcome::NotConsumed
    );
}

#[test]
fn header_clicks_toggle_the_clicked_column() {
    let mut t = DiskTable::default();
    t.update_data(disk_rows());
    let area = Rect { x: 0, y: 0, width: 42, height: 7 };
    t.set_bounds(area);
    // Draw once so the width cache knows the column layout.
    let g = t.draw(area, false);
    let x_in_col2 = g.widths[0] + g.widths[1];
    assert_eq!(
        t.handle_mouse_event(MouseInput::Click { x: x_in_col2, y: 0 }),
        EventOutcome::Consumed
    );
    assert_eq!(t.state.sort_state.sort_column, Some(2));
    // The header now carries the ascending indicator.
    let g2 = t.draw(area, false);
    assert_eq!(g2.header[2], "Used^");
    // Toggle to descending through the same header cell.
    t.handle_mouse_event(MouseInput::Click { x: x_in_col2, y: 0 });
    let g3 = t.draw(area, false);
    assert_eq!(g3.header[2], "Usedv");
}

#[test]
fn wheel_scrolls_one_row_at_a_time() {
    let mut t = DiskTable::default();
    let rows: Vec<Row> = (0..10)
        .map(|i| {
            Row::new(
                (0..7).map(|c| String::from(format!("{}{}", i, c))).collect::<Vec<String>>(),
            )
        })
        .collect();
    t.update_data(rows);
    let area = Rect { x: 0, y: 0, width: 42, height: 7 };
    t.set_bounds(area);
    assert_eq!(t.handle_mouse_event(MouseInput::WheelDown), EventOutcome::Consumed);
    assert_eq!(t.state.scroll_state.scroll_offset, 1);
    assert_eq!(t.handle_mouse_event(MouseInput::WheelUp), EventOutcome::Consumed);
    assert_eq!(t.state.scroll_state.scroll_offset, 0);
    assert_eq!(t.handle_mouse_event(MouseInput::WheelUp), EventOutcome::Consumed);
    assert_eq!(t.state.scroll_state.scroll_offset, 0);
}

#[test]
fn data_refresh_keeps_sort_and_reclamps_scroll() {
    let mut t = DiskTable::default();
    t.update_data(disk_rows());
    let area = Rect { x: 0, y: 0, width: 42, height: 7 };
    t.set_bounds(area);
    t.toggle_sort(2);
    t.handle_key_event(KeyInput::End);
    // The refresh shrinks the table to one row: the sort stays, the
    // selection and offset are pulled back in.
    t.update_data(vec![disk_rows().remove(0)]);
    assert_eq!(t.state.sort_state.sort_column, Some(2));
    assert_eq!(t.state.scroll_state.scroll_offset, 0);
    assert_eq!(t.state.scroll_state.selected_row, Some(0));
    t.update_data(Vec::new());
    assert_eq!(t.state.scroll_state.selected_row, None);
}

#[test]
fn empty_table_consumes_events_without_effect() {
    let mut t = DiskTable::default();
    let area = Rect { x: 0, y: 0, width: 42, height: 7 };
    t.set_bounds(area);
    assert_eq!(t.handle_key_event(KeyInput::Down), EventOutcome::Consumed);
    assert_eq!(t.state.scroll_state.selected_row, None);
    assert_eq!(t.state.scroll_state.scroll_offset, 0);
    assert_eq!(t.handle_key_event(KeyInput::Activate), EventOutcome::Consumed);
    let g = t.draw(area, false);
    assert_eq!(g.cells.len(), 0);
}
