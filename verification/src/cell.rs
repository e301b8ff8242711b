//! The stringification capability: a cell is any value that can state its own
//! textual form, and the renderer depends on nothing else about it.

use vstd::prelude::*;

verus! {

/// A value that can appear as a table cell: it has a textual form, and
/// `to_cell_text` produces exactly that form.
pub trait CellText {
    /// The textual form of this value, as a sequence of characters.
    spec fn cell_text(&self) -> Seq<char>;

    /// Produce the textual form of this value.
    fn to_cell_text(&self) -> (r: String)
        ensures
            r@ == self.cell_text(),
    ;
}

impl CellText for String {
    open spec fn cell_text(&self) -> Seq<char> {
        self@
    }

    fn to_cell_text(&self) -> (r: String) {
        self.clone()
    }
}

impl<'a> CellText for &'a str {
    open spec fn cell_text(&self) -> Seq<char> {
        (*self)@
    }

    fn to_cell_text(&self) -> (r: String) {
        (*self).to_owned()
    }
}

/// The textual forms of one row of cells, in order.
pub open spec fn row_view<D: CellText>(row: Seq<D>) -> Seq<Seq<char>> {
    row.map(|j: int, c: D| c.cell_text())
}

/// The textual forms of a whole table of cells, row by row.
pub open spec fn table_view<D: CellText>(table: Seq<Vec<D>>) -> Seq<Seq<Seq<char>>> {
    table.map(|i: int, row: Vec<D>| row_view(row@))
}

} // verus!
