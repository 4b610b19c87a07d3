//! A sortable, scrollable, width-adaptive table engine for terminal
//! dashboards.
//!
//! The engine keeps, per widget instance, the interactive state of one
//! on-screen table: the active sort column and direction, the scroll
//! offset and selected row, and a cache of the last computed column
//! widths.  Several instances of the same table type are told apart by
//! an opaque numeric identity, each with fully independent state.

pub mod column;
pub mod draw;
pub mod event;
pub mod registry;
pub mod row;
pub mod scroll;
pub mod sort;
pub mod sortkey;
pub mod table;
pub mod width;
