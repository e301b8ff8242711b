//! The row renderer: pad every cell to its column's width, join cells with
//! single spaces, join rows with line breaks.

use vstd::prelude::*;
use crate::cell::CellText;
use crate::cell::row_view;
use crate::cell::table_view;
use crate::text::pad_right;
use crate::text::pad_right_text;
use crate::text::lemma_pad_right_text_len;
use crate::text::spaces;
use crate::widths::col_width;
use crate::widths::get_col_size_map;
use crate::widths::is_col_size_map;
use crate::widths::lemma_col_width_ge_cell;
use crate::widths::lemma_col_width_le;
use crate::widths::occupied;

verus! {

/// The separator standing before the cell at index `j` of a row: a single
/// space, except before the first cell.
pub open spec fn cell_sep(j: int) -> Seq<char> {
    if j > 0 {
        seq![' ']
    } else {
        Seq::empty()
    }
}

/// The separator standing before row `i`: a single line break, except before
/// the first row.
pub open spec fn row_sep(i: int) -> Seq<char> {
    if i > 0 {
        seq!['\n']
    } else {
        Seq::empty()
    }
}

/// The cell of `t` at row `i`, index `j`, padded on the right to the width of
/// column `j`.
pub open spec fn padded_cell(t: Seq<Seq<Seq<char>>>, i: int, j: int) -> Seq<char> {
    pad_right_text(t[i][j], col_width(t, j) as int)
}

/// The first `n` cells of row `i` of `t`, padded and joined by single spaces.
pub open spec fn row_text_upto(t: Seq<Seq<Seq<char>>>, i: int, n: int) -> Seq<char>
    decreases n,
{
    if n <= 0 {
        Seq::empty()
    } else {
        row_text_upto(t, i, n - 1) + cell_sep(n - 1) + padded_cell(t, i, n - 1)
    }
}

/// Row `i` of `t` rendered: its cells padded and joined by single spaces.
pub open spec fn row_text(t: Seq<Seq<Seq<char>>>, i: int) -> Seq<char> {
    row_text_upto(t, i, t[i].len() as int)
}

/// The first `m` rows of `t` rendered and joined by line breaks.
pub open spec fn table_text_upto(t: Seq<Seq<Seq<char>>>, m: int) -> Seq<char>
    decreases m,
{
    if m <= 0 {
        Seq::empty()
    } else {
        table_text_upto(t, m - 1) + row_sep(m - 1) + row_text(t, m - 1)
    }
}

/// The whole of `t` rendered: every cell padded on the right to its column's
/// width, cells joined by single spaces, rows joined by line breaks, with no
/// leading or trailing break.
pub open spec fn render_table(t: Seq<Seq<Seq<char>>>) -> Seq<char> {
    table_text_upto(t, t.len() as int)
}

/// Render a table of cells as a column-aligned text block.
pub fn tabular<D: CellText>(table_data: &Vec<Vec<D>>) -> (r: String)
    ensures
        r@ == render_table(table_view(table_data@)),
{
    let ghost t = table_view(table_data@);
    let col_size_map = get_col_size_map(table_data);
    let mut table = String::new();
    let mut i: usize = 0;
    while i < table_data.len()
        invariant
            i <= table_data.len(),
            t == table_view(table_data@),
            t.len() == table_data@.len(),
            forall|k: int| 0 <= k < t.len() ==> #[trigger] t[k] == row_view(table_data@[k]@),
            is_col_size_map(t, col_size_map@),
            table@ == table_text_upto(t, i as int),
        decreases table_data.len() - i,
    {
        if i > 0 {
            proof {
                reveal_strlit("\n");
            }
            table.append("\n");
        }
        proof {
            assert(table@ =~= table_text_upto(t, i as int) + row_sep(i as int) + row_text_upto(
                t,
                i as int,
                0,
            ));
        }
        let row = &table_data[i];
        let ghost cur = t[i as int];
        proof {
            assert(cur == row_view(row@));
        }
        let mut j: usize = 0;
        while j < row.len()
            invariant
                j <= row.len(),
                i < table_data.len(),
                t == table_view(table_data@),
                t.len() == table_data@.len(),
                forall|k: int| 0 <= k < t.len() ==> #[trigger] t[k] == row_view(table_data@[k]@),
                is_col_size_map(t, col_size_map@),
                row == &table_data@[i as int],
                cur == t[i as int],
                cur.len() == row@.len(),
                table@ == table_text_upto(t, i as int) + row_sep(i as int) + row_text_upto(
                    t,
                    i as int,
                    j as int,
                ),
            decreases row.len() - j,
        {
            if j > 0 {
                proof {
                    reveal_strlit(" ");
                }
                table.append(" ");
            }
            proof {
                assert(occupied(t, j as int)) by {
                    assert(j < t[i as int].len());
                }
                assert(col_size_map@.contains_key(j));
            }
            let max_size = col_size_map.get(&j).unwrap();
            proof {
                assert(cur[j as int] == row@[j as int].cell_text());
                lemma_col_width_ge_cell(t, i as int, j as int);
            }
            let padded = pad_right(&row[j], max_size);
            table.append(padded.as_str());
            proof {
                assert(table@ =~= table_text_upto(t, i as int) + row_sep(i as int)
                    + row_text_upto(t, i as int, j + 1));
            }
            j = j + 1;
        }
        proof {
            assert(table@ =~= table_text_upto(t, i + 1));
        }
        i = i + 1;
    }
    table
}

/// Whether every row of `t` has the same number of cells.
pub open spec fn rectangular(t: Seq<Seq<Seq<char>>>) -> bool {
    forall|i: int| 0 <= i < t.len() ==> #[trigger] t[i].len() == t[0].len()
}

/// The character length of a rendered line of `n` cells: the first `n` column
/// widths plus the single-space separators between them.
pub open spec fn line_width(t: Seq<Seq<Seq<char>>>, n: int) -> int
    decreases n,
{
    if n <= 0 {
        0
    } else {
        line_width(t, n - 1) + cell_sep(n - 1).len() + col_width(t, n - 1)
    }
}

/// A rendered row's length is the sum of its columns' widths and separators:
/// it depends on the row's cell count alone, not on the cells.
pub proof fn lemma_row_text_upto_len(t: Seq<Seq<Seq<char>>>, i: int, n: int)
    requires
        0 <= i < t.len(),
        0 <= n <= t[i].len(),
    ensures
        row_text_upto(t, i, n).len() == line_width(t, n),
    decreases n,
{
    if n > 0 {
        lemma_row_text_upto_len(t, i, n - 1);
        lemma_col_width_ge_cell(t, i, n - 1);
        lemma_pad_right_text_len(t[i][n - 1], col_width(t, n - 1) as int);
    }
}

/// In a rectangular table, every rendered line has the same character length:
/// the column widths and separators are consistent across rows.
pub proof fn lemma_rectangular_equal_line_widths(t: Seq<Seq<Seq<char>>>, i1: int, i2: int)
    requires
        rectangular(t),
        0 <= i1 < t.len(),
        0 <= i2 < t.len(),
    ensures
        row_text(t, i1).len() == row_text(t, i2).len(),
{
    lemma_row_text_upto_len(t, i1, t[i1].len() as int);
    lemma_row_text_upto_len(t, i2, t[i2].len() as int);
}

/// The first `n` cells of row `i` of `t` joined by single spaces, with no
/// padding at all.
pub open spec fn bare_row_upto(t: Seq<Seq<Seq<char>>>, i: int, n: int) -> Seq<char>
    decreases n,
{
    if n <= 0 {
        Seq::empty()
    } else {
        bare_row_upto(t, i, n - 1) + cell_sep(n - 1) + t[i][n - 1]
    }
}

/// The first `m` rows of `t`, cells joined by single spaces and rows by line
/// breaks, with no padding at all.
pub open spec fn bare_table_upto(t: Seq<Seq<Seq<char>>>, m: int) -> Seq<char>
    decreases m,
{
    if m <= 0 {
        Seq::empty()
    } else {
        bare_table_upto(t, m - 1) + row_sep(m - 1) + bare_row_upto(t, m - 1, t[m - 1].len() as int)
    }
}

/// The whole of `t` with cells joined by single spaces and rows by line
/// breaks, and no padding: what rendering a table needing no padding gives.
pub open spec fn unpadded_text(t: Seq<Seq<Seq<char>>>) -> Seq<char> {
    bare_table_upto(t, t.len() as int)
}

/// In a table of single-character cells every column's width is one, so each
/// padded cell is the cell itself.
proof fn lemma_single_char_padded_cell(t: Seq<Seq<Seq<char>>>, i: int, j: int)
    requires
        forall|a: int, b: int|
            0 <= a < t.len() && 0 <= b < t[a].len() ==> (#[trigger] t[a][b]).len() == 1,
        0 <= i < t.len(),
        0 <= j < t[i].len(),
    ensures
        padded_cell(t, i, j) == t[i][j],
{
    lemma_col_width_ge_cell(t, i, j);
    lemma_col_width_le(t, j, 1);
    assert(col_width(t, j) == 1);
    assert(padded_cell(t, i, j) =~= t[i][j] + spaces(0));
    assert(padded_cell(t, i, j) =~= t[i][j]);
}

proof fn lemma_single_char_row(t: Seq<Seq<Seq<char>>>, i: int, n: int)
    requires
        forall|a: int, b: int|
            0 <= a < t.len() && 0 <= b < t[a].len() ==> (#[trigger] t[a][b]).len() == 1,
        0 <= i < t.len(),
        0 <= n <= t[i].len(),
    ensures
        row_text_upto(t, i, n) == bare_row_upto(t, i, n),
    decreases n,
{
    if n > 0 {
        lemma_single_char_row(t, i, n - 1);
        lemma_single_char_padded_cell(t, i, n - 1);
    }
}

/// For a table of single-character cells, the rendered output is the cells
/// joined by single spaces and the rows joined by line breaks, with no extra
/// padding anywhere.
pub proof fn lemma_single_char_no_padding(t: Seq<Seq<Seq<char>>>)
    requires
        forall|a: int, b: int|
            0 <= a < t.len() && 0 <= b < t[a].len() ==> (#[trigger] t[a][b]).len() == 1,
    ensures
        render_table(t) == unpadded_text(t),
{
    lemma_single_char_table_upto(t, t.len() as int);
}

proof fn lemma_single_char_table_upto(t: Seq<Seq<Seq<char>>>, m: int)
    requires
        forall|a: int, b: int|
            0 <= a < t.len() && 0 <= b < t[a].len() ==> (#[trigger] t[a][b]).len() == 1,
        m <= t.len(),
    ensures
        table_text_upto(t, m) == bare_table_upto(t, m),
    decreases m,
{
    if m > 0 {
        lemma_single_char_table_upto(t, m - 1);
        lemma_single_char_row(t, m - 1, t[m - 1].len() as int);
    }
}

/// Rendering depends on nothing about a cell but its textual form: two
/// tables whose cells stringify identically, whatever their concrete types,
/// render to identical text.
pub proof fn lemma_render_text_only<A: CellText, B: CellText>(a: Seq<Vec<A>>, b: Seq<Vec<B>>)
    requires
        table_view(a) == table_view(b),
    ensures
        render_table(table_view(a)) == render_table(table_view(b)),
{
}

} // verus!
