//! Plain-text table rendering.
//!
//! A table is an ordered sequence of rows, each an ordered sequence of cells;
//! any cell that can state its own textual form may appear. Rendering pads
//! every cell on the right with spaces to the width of the widest cell in its
//! column, joins the cells of a row with single spaces, and joins the rows
//! with line breaks.

use vstd::prelude::*;

pub mod cell;
pub mod numeral;
pub mod render;
pub mod text;
pub mod widths;

pub use cell::CellText;
pub use render::render_table;
pub use render::tabular;
pub use text::pad_left;
pub use text::pad_right;
pub use widths::get_col_size_map;

verus! {

/// A two-dimensional collection that can render itself as a column-aligned
/// text block.
pub trait Tabular {
    /// The textual form of every cell, row by row.
    spec fn table_text(&self) -> Seq<Seq<Seq<char>>>;

    /// Render as a column-aligned text block: every cell padded on the right
    /// to its column's width, cells joined by single spaces, rows joined by
    /// line breaks.
    fn to_table(&self) -> (r: String)
        ensures
            r@ == crate::render::render_table(self.table_text()),
    ;
}

impl<D: CellText> Tabular for Vec<Vec<D>> {
    open spec fn table_text(&self) -> Seq<Seq<Seq<char>>> {
        crate::cell::table_view(self@)
    }

    fn to_table(&self) -> (r: String) {
        crate::render::tabular(self)
    }
}

} // verus!
