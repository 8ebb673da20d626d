//! Column widths of the port grid's table.
use vstd::prelude::*;

verus! {

/// A column width.
#[derive(Clone, Copy, PartialEq, Eq, Structural, Debug)]
pub enum Width {
    /// Exactly this many cells.
    Length(u16),
    /// A share of the space left over.
    Fill(u16),
}

pub open spec fn spec_width_at(i: int, column_count: int, label_width: u16) -> Width {
    if i == 0 || i == column_count - 1 {
        Width::Fill(1)
    } else if i == 1 {
        Width::Length(label_width)
    } else {
        Width::Length(1)
    }
}

/// Widths of the grid table: equal fills for the outer margins (centering
/// the grid), the label column, then one cell per grid column.
pub fn widths_constraints(column_count: usize, label_width: u16) -> (w: Vec<Width>)
    ensures
        w@.len() == column_count,
        forall|i: int|
            0 <= i < column_count ==> #[trigger] w@[i] == spec_width_at(
                i,
                column_count as int,
                label_width,
            ),
{
    let mut w: Vec<Width> = Vec::new();
    let mut i: usize = 0;
    while i < column_count
        invariant
            i <= column_count,
            w@.len() == i,
            forall|k: int|
                0 <= k < i ==> #[trigger] w@[k] == spec_width_at(
                    k,
                    column_count as int,
                    label_width,
                ),
        decreases column_count - i,
    {
        let c = if i == 0 || i == column_count - 1 {
            Width::Fill(1)
        } else if i == 1 {
            Width::Length(label_width)
        } else {
            Width::Length(1)
        };
        w.push(c);
        i = i + 1;
    }
    w
}

} // verus!
