//! The column model: one column's label, sizing policy, minimum width
//! and sort eligibility.
//!
//! Columns are immutable after construction; all interactive state
//! (sort, scroll, selection) lives outside, in the per-widget state.

use vstd::prelude::*;

verus! {

/// How a column claims horizontal space.
#[derive(Clone, Copy, PartialEq, Eq, Structural)]
pub enum ColumnSizing {
    /// A fixed requested width, in cells.
    Hard(u16),
    /// A proportional share of the space left after the hard columns,
    /// in relative weight units.
    Flex(u32),
}

/// A misconfigured column, reported at construction time.
#[derive(Clone, Copy, PartialEq, Eq, Structural, Debug)]
pub enum ConfigError {
    /// The minimum width was 0; truncation still needs one cell.
    ZeroMinWidth,
    /// A flex column was given weight 0.
    ZeroFlexWeight,
}

/// One column of a table: display label, sizing policy, minimum width
/// and whether clicking its header toggles a sort on it.
pub struct Column {
    pub label: String,
    pub sizing: ColumnSizing,
    pub min_width: u16,
    pub sortable: bool,
}

impl Column {
    /// A well-formed column: the minimum width leaves room for at
    /// least one cell, and a flex weight is never zero.
    pub open spec fn wf(self) -> bool {
        &&& self.min_width >= 1
        &&& match self.sizing {
            ColumnSizing::Hard(_) => true,
            ColumnSizing::Flex(w) => w > 0,
        }
    }

    /// Builds a column, rejecting a zero minimum width or a zero flex
    /// weight; a valid configuration is always accepted.
    pub fn new(label: String, sizing: ColumnSizing, min_width: u16, sortable: bool) -> (r: Result<
        Column,
        ConfigError,
    >)
        ensures
            match r {
                Ok(c) => {
                    &&& c.wf()
                    &&& min_width >= 1
                    &&& (sizing matches ColumnSizing::Flex(w) ==> w > 0)
                    &&& c.label == label
                    &&& c.sizing == sizing
                    &&& c.min_width == min_width
                    &&& c.sortable == sortable
                },
                Err(ConfigError::ZeroMinWidth) => min_width == 0,
                Err(ConfigError::ZeroFlexWeight) => min_width >= 1 && sizing
                    == ColumnSizing::Flex(0u32),
            },
    {
        if min_width == 0 {
            return Err(ConfigError::ZeroMinWidth);
        }
        if let ColumnSizing::Flex(w) = sizing {
            if w == 0 {
                return Err(ConfigError::ZeroFlexWeight);
            }
        }
        Ok(Column { label, sizing, min_width, sortable })
    }

    /// Builds a hard column with minimum width 1.
    pub fn new_hard(label: String, width: u16, sortable: bool) -> (c: Column)
        ensures
            c.wf(),
            c.label == label,
            c.sizing == ColumnSizing::Hard(width),
            c.min_width == 1u16,
            c.sortable == sortable,
    {
        Column { label, sizing: ColumnSizing::Hard(width), min_width: 1, sortable }
    }

    /// Builds a flex column with minimum width 1, rejecting weight 0.
    pub fn new_flex(label: String, weight: u32, sortable: bool) -> (r: Result<Column, ConfigError>)
        ensures
            match r {
                Ok(c) => {
                    &&& c.wf()
                    &&& weight > 0
                    &&& c.label == label
                    &&& c.sizing == ColumnSizing::Flex(weight)
                    &&& c.min_width == 1u16
                    &&& c.sortable == sortable
                },
                Err(e) => e == ConfigError::ZeroFlexWeight && weight == 0,
            },
    {
        if weight == 0 {
            return Err(ConfigError::ZeroFlexWeight);
        }
        Ok(Column { label, sizing: ColumnSizing::Flex(weight), min_width: 1, sortable })
    }
}

/// Every column of a set is well formed.
pub open spec fn wf_columns(cols: Seq<Column>) -> bool {
    forall|i: int| 0 <= i < cols.len() ==> #[trigger] cols[i].wf()
}

} // verus!
