//! Layout decisions of the terminal interface that do not depend on the
//! rendering library.

use vstd::prelude::*;

verus! {

/// The cells of the top border row that receive the OSC 8 hyperlink escape
/// sequences around a right-aligned label.
#[derive(Debug, Clone, Copy, PartialEq, Eq, Structural)]
pub struct HyperlinkCells {
    /// The border row.
    pub row: u16,
    /// The column of the label's first cell, where the opening sequence goes.
    pub open_col: u16,
    /// The column of the label's last cell, where the closing sequence goes,
    /// when it lies inside the area.
    pub close_col: Option<u16>,
}

/// The label's first column: one cell before the area's right edge, minus
/// the label's width (0 when that does not fit).
pub open spec fn spec_label_start(x: u16, width: u16, label_cols: u16) -> int {
    let right = x + width;
    if right >= label_cols + 1 {
        right - (label_cols + 1)
    } else {
        0
    }
}

/// Places a label of `label_cols` cells right-aligned on the top border of
/// the area at (`x`, `y`) of size `width` × `height`, one cell in from the
/// right border character: `None` for an empty area. For an empty label
/// the closing column is the one before the opening column, so the right
/// edge must then lie past column 1.
pub fn osc8_label_cells(x: u16, y: u16, width: u16, height: u16, label_cols: u16) -> (r: Option<
    HyperlinkCells,
>)
    requires
        x + width <= u16::MAX,
        label_cols < u16::MAX,
        label_cols == 0 && height != 0 && width != 0 ==> x + width != 1,
    ensures
        r is None <==> (height == 0 || width == 0),
        r matches Some(c) ==> {
            &&& c.row == y
            &&& c.open_col == spec_label_start(x, width, label_cols)
            &&& c.close_col == (if c.open_col + label_cols - 1 < x + width {
                Some((c.open_col + label_cols - 1) as u16)
            } else {
                None
            })
        },
{
    if height == 0 || width == 0 {
        return None;
    }
    let right = x + width;
    let label_start = if right >= label_cols + 1 {
        right - (label_cols + 1)
    } else {
        0
    };
    let label_end = label_start + label_cols - 1;
    let close_col = if label_end < right {
        Some(label_end)
    } else {
        None
    };
    Some(HyperlinkCells { row: y, open_col: label_start, close_col })
}

} // verus!
