//! The table instance registry: one independent state per widget
//! identity.
//!
//! A widget identity is an opaque `u64` handed out once at
//! construction.  Distinct identities never share state: an update
//! through one identity leaves every other entry of the registry
//! untouched, which is stated on each mutating operation.

use std::collections::HashMap;

use vstd::prelude::*;

use crate::column::Column;
use crate::scroll::ScrollState;
use crate::sort::SortState;
use crate::width::WidthCache;

verus! {

broadcast use vstd::std_specs::hash::group_hash_axioms;

/// The interactive state of one table widget instance: scroll and
/// selection, active sort, and the column-width cache.
pub struct DiskWidgetState {
    pub scroll_state: ScrollState,
    pub sort_state: SortState,
    pub table_width_state: WidthCache,
}

impl DiskWidgetState {
    /// A fresh instance: top of the table, nothing selected, no
    /// active sort, empty width cache.
    pub fn init() -> (s: DiskWidgetState)
        ensures
            s.scroll_state.scroll_offset == 0,
            s.scroll_state.selected_row is None,
            s.sort_state.sort_column is None,
            s.sort_state.sort_descending == false,
            s.table_width_state.cached_for is None,
    {
        DiskWidgetState {
            scroll_state: ScrollState::new(),
            sort_state: SortState::new(),
            table_width_state: WidthCache::new(),
        }
    }
}

/// The registry: widget identity to widget state.  Entries are
/// created lazily on first access and live as long as the registry.
pub struct DiskState {
    pub widget_states: HashMap<u64, DiskWidgetState>,
}

impl DiskState {
    /// Wraps an existing identity-to-state mapping.
    pub fn init(widget_states: HashMap<u64, DiskWidgetState>) -> (s: DiskState)
        ensures
            s.widget_states == widget_states,
    {
        DiskState { widget_states }
    }

    /// An empty registry.
    pub fn new() -> (s: DiskState)
        ensures
            s.widget_states@ == Map::<u64, DiskWidgetState>::empty(),
    {
        DiskState { widget_states: HashMap::new() }
    }

    /// The state of `widget_id`, if that identity has one.
    pub fn get_widget_state(&self, widget_id: u64) -> (r: Option<&DiskWidgetState>)
        ensures
            match r {
                Some(s) => self.widget_states@.contains_key(widget_id) && *s
                    == self.widget_states@[widget_id],
                None => !self.widget_states@.contains_key(widget_id),
            },
    {
        self.widget_states.get(&widget_id)
    }

    /// Mutable access to the state of `widget_id`, if that identity
    /// has one.  Whatever the caller writes through the reference
    /// lands on `widget_id` alone; every other entry is unchanged.
    pub fn get_mut_widget_state(&mut self, widget_id: u64) -> (r: Option<&mut DiskWidgetState>)
        ensures
            match r {
                Some(s) => {
                    &&& old(self).widget_states@.contains_key(widget_id)
                    &&& *s == old(self).widget_states@[widget_id]
                    &&& final(self).widget_states@ == old(self).widget_states@.insert(
                        widget_id,
                        *final(s),
                    )
                },
                None => {
                    &&& !old(self).widget_states@.contains_key(widget_id)
                    &&& final(self).widget_states@ == old(self).widget_states@
                },
            },
    {
        match self.widget_states.entry(widget_id) {
            std::collections::hash_map::Entry::Occupied(e) => Some(e.into_mut()),
            std::collections::hash_map::Entry::Vacant(_) => {
                proof {
                    assert(old(self).widget_states@.remove(widget_id)
                        =~= old(self).widget_states@);
                }
                None
            },
        }
    }

    /// The state of `widget_id`, created fresh on first access.
    /// Whatever the caller writes through the reference lands on
    /// `widget_id` alone; every other entry is unchanged.
    pub fn get_or_create(&mut self, widget_id: u64) -> (r: &mut DiskWidgetState)
        ensures
            old(self).widget_states@.contains_key(widget_id) ==> *r
                == old(self).widget_states@[widget_id],
            !old(self).widget_states@.contains_key(widget_id) ==> r.sort_state.sort_column is None
                && r.scroll_state.scroll_offset == 0 && r.scroll_state.selected_row is None
                && r.table_width_state.cached_for is None,
            final(self).widget_states@ == old(self).widget_states@.insert(widget_id, *final(r)),
    {
        self.widget_states.entry(widget_id).or_insert(DiskWidgetState::init())
    }

    /// Toggles the sort on column `column_index` for the table
    /// instance `widget_id`, and for it alone: the states of all
    /// other identities are exactly what they were.
    pub fn toggle_sort_for(&mut self, widget_id: u64, column_index: usize, columns: &Vec<
        Column,
    >) -> (found: bool)
        ensures
            found == old(self).widget_states@.contains_key(widget_id),
            found ==> final(self).widget_states@ == old(self).widget_states@.insert(
                widget_id,
                DiskWidgetState {
                    sort_state: old(self).widget_states@[widget_id].sort_state.spec_toggle(
                        column_index,
                        columns@,
                    ),
                    ..old(self).widget_states@[widget_id]
                },
            ),
            !found ==> final(self).widget_states@ == old(self).widget_states@,
            forall|other: u64|
                other != widget_id && old(self).widget_states@.contains_key(other) ==> final(self).widget_states@.contains_key(other) && final(self).widget_states@[other] == old(self).widget_states@[other],
    {
        match self.get_mut_widget_state(widget_id) {
            Some(st) => {
                st.sort_state.toggle(column_index, columns);
                true
            },
            None => false,
        }
    }
}

} // verus!
