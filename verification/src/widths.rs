//! The column width scanner: per column index, the maximum textual length of
//! any cell occupying that index in any row.

use vstd::prelude::*;
use std::collections::HashMap;
use crate::cell::CellText;
use crate::cell::row_view;
use crate::cell::table_view;

verus! {

broadcast use vstd::std_specs::hash::group_hash_axioms;

/// Whether column index `j` appears in at least one row of `t`.
pub open spec fn occupied(t: Seq<Seq<Seq<char>>>, j: int) -> bool {
    exists|i: int| 0 <= i < t.len() && j < t[i].len()
}

/// The width of column `j` of `t`: the maximum textual length of any cell at
/// index `j`, over the rows that reach that index; zero where none does.
pub open spec fn col_width(t: Seq<Seq<Seq<char>>>, j: int) -> nat
    decreases t.len(),
{
    if t.len() == 0 {
        0
    } else {
        let rest = col_width(t.drop_last(), j);
        if j < t.last().len() && t.last()[j].len() > rest {
            t.last()[j].len()
        } else {
            rest
        }
    }
}

/// A column never appearing in `t` has width zero.
pub proof fn lemma_col_width_unoccupied(t: Seq<Seq<Seq<char>>>, j: int)
    requires
        !occupied(t, j),
    ensures
        col_width(t, j) == 0,
    decreases t.len(),
{
    if t.len() > 0 {
        assert(forall|i: int| 0 <= i < t.len() - 1 ==> t.drop_last()[i] == t[i]);
        lemma_col_width_unoccupied(t.drop_last(), j);
        assert(!(j < t.last().len())) by {
            assert(t.last() == t[t.len() - 1]);
        }
    }
}

/// Every cell at index `j` fits in column `j`'s width.
pub proof fn lemma_col_width_ge_cell(t: Seq<Seq<Seq<char>>>, i: int, j: int)
    requires
        0 <= i < t.len(),
        0 <= j < t[i].len(),
    ensures
        t[i][j].len() <= col_width(t, j),
    decreases t.len(),
{
    if i == t.len() - 1 {
        assert(t.last() == t[i]);
    } else {
        assert(t.drop_last()[i] == t[i]);
        lemma_col_width_ge_cell(t.drop_last(), i, j);
    }
}

/// A bound that holds of every cell at index `j` holds of column `j`'s width.
pub proof fn lemma_col_width_le(t: Seq<Seq<Seq<char>>>, j: int, bound: nat)
    requires
        forall|i: int| 0 <= i < t.len() && j < t[i].len() ==> #[trigger] t[i][j].len() <= bound,
    ensures
        col_width(t, j) <= bound,
    decreases t.len(),
{
    if t.len() > 0 {
        assert(forall|i: int| 0 <= i < t.len() - 1 ==> t.drop_last()[i] == t[i]);
        lemma_col_width_le(t.drop_last(), j, bound);
        assert(t.last() == t[t.len() - 1]);
    }
}

/// The textual length of the cell of `row` at index `j`, or zero where the
/// row does not reach that index.
pub open spec fn cell_len(row: Seq<Seq<char>>, j: int) -> nat {
    if 0 <= j < row.len() {
        row[j].len()
    } else {
        0
    }
}

/// The width of column `j` once `row` is taken into account on top of a
/// width of `prev` from earlier rows.
pub open spec fn merged_width(prev: nat, row: Seq<Seq<char>>, j: int) -> nat {
    if cell_len(row, j) > prev {
        cell_len(row, j)
    } else {
        prev
    }
}

/// Extending a row prefix by one row updates each column width to the merge
/// of the old width with that row's cell length at the column.
proof fn lemma_col_width_take_step(t: Seq<Seq<Seq<char>>>, i: int, j: int)
    requires
        0 <= i < t.len(),
        0 <= j,
    ensures
        col_width(t.take(i + 1), j) == merged_width(col_width(t.take(i), j), t[i], j),
{
    assert(t.take(i + 1).drop_last() =~= t.take(i));
    assert(t.take(i + 1).last() == t[i]);
}

/// Extending a row prefix by one row makes occupied exactly the columns that
/// were occupied before together with those the new row reaches.
proof fn lemma_occupied_take_step(t: Seq<Seq<Seq<char>>>, i: int, j: int)
    requires
        0 <= i < t.len(),
    ensures
        occupied(t.take(i + 1), j) <==> (occupied(t.take(i), j) || j < t[i].len()),
{
    let a = t.take(i + 1);
    let b = t.take(i);
    assert(a[i] == t[i]);
    if occupied(a, j) {
        let k = choose|k: int| 0 <= k < a.len() && j < #[trigger] a[k].len();
        if k < i {
            assert(j < b[k].len());
        }
    }
    if occupied(b, j) {
        let k = choose|k: int| 0 <= k < b.len() && j < #[trigger] b[k].len();
        assert(j < a[k].len());
    }
    if j < t[i].len() {
        assert(j < a[i].len());
    }
}

/// What the column width scanner returns for table `t`: an entry for exactly
/// the occupied column indices, each holding that column's width.
pub open spec fn is_col_size_map(t: Seq<Seq<Seq<char>>>, m: Map<usize, usize>) -> bool {
    &&& forall|j: usize| #[trigger]
        m.contains_key(j) ==> occupied(t, j as int) && m[j] == col_width(t, j as int)
    &&& forall|j: usize| #[trigger] occupied(t, j as int) ==> m.contains_key(j)
}

/// Walk all rows and record, per column index, the maximum textual length of
/// any cell occupying that index. Indices appearing in no row are absent.
pub fn get_col_size_map<D: CellText>(table_data: &Vec<Vec<D>>) -> (m: HashMap<usize, usize>)
    ensures
        is_col_size_map(table_view(table_data@), m@),
{
    let ghost t = table_view(table_data@);
    let mut col_size_map: HashMap<usize, usize> = HashMap::new();
    let mut i: usize = 0;
    while i < table_data.len()
        invariant
            i <= table_data.len(),
            t == table_view(table_data@),
            t.len() == table_data@.len(),
            forall|k: int| 0 <= k < t.len() ==> #[trigger] t[k] == row_view(table_data@[k]@),
            is_col_size_map(t.take(i as int), col_size_map@),
        decreases table_data.len() - i,
    {
        let row = &table_data[i];
        let ghost prefix = t.take(i as int);
        let ghost cur = t[i as int];
        proof {
            assert(cur == row_view(row@));
        }
        let mut n: usize = 0;
        while n < row.len()
            invariant
                n <= row.len(),
                i < table_data.len(),
                t == table_view(table_data@),
                t.len() == table_data@.len(),
                forall|k: int| 0 <= k < t.len() ==> #[trigger] t[k] == row_view(table_data@[k]@),
                row == &table_data@[i as int],
                prefix == t.take(i as int),
                cur == t[i as int],
                cur.len() == row@.len(),
                forall|j: usize| j < n ==> #[trigger] col_size_map@.contains_key(j),
                forall|j: usize| #[trigger]
                    col_size_map@.contains_key(j) ==> if j < n {
                        col_size_map@[j] == merged_width(col_width(prefix, j as int), cur, j as int)
                    } else {
                        occupied(prefix, j as int) && col_size_map@[j] == col_width(
                            prefix,
                            j as int,
                        )
                    },
                forall|j: usize|
                    j >= n && #[trigger] occupied(prefix, j as int) ==> col_size_map@.contains_key(
                        j,
                    ),
            decreases row.len() - n,
        {
            let cell_string = row[n].to_cell_text();
            let col_size: usize = cell_string.as_str().unicode_len();
            proof {
                assert(cur[n as int] == row@[n as int].cell_text());
                assert(cell_len(cur, n as int) == col_size);
            }
            match col_size_map.get(&n) {
                Some(current_max) => {
                    if *current_max < col_size {
                        col_size_map.insert(n, col_size);
                    }
                },
                None => {
                    proof {
                        lemma_col_width_unoccupied(prefix, n as int);
                    }
                    col_size_map.insert(n, col_size);
                },
            }
            n = n + 1;
        }
        proof {
            let next = t.take(i + 1);
            assert forall|j: usize| #[trigger]
                col_size_map@.contains_key(j) implies occupied(next, j as int)
                && col_size_map@[j] == col_width(next, j as int) by {
                lemma_col_width_take_step(t, i as int, j as int);
                lemma_occupied_take_step(t, i as int, j as int);
                if !(j < row@.len()) {
                    assert(occupied(prefix, j as int));
                }
            }
            assert forall|j: usize| #[trigger]
                occupied(next, j as int) implies col_size_map@.contains_key(j) by {
                lemma_occupied_take_step(t, i as int, j as int);
            }
        }
        i = i + 1;
    }
    proof {
        assert(t.take(i as int) =~= t);
    }
    col_size_map
}

/// Running the column width scanner twice on the same table yields the same
/// map: its result is pinned, entry by entry, to the table alone.
pub proof fn lemma_scanner_deterministic(
    t: Seq<Seq<Seq<char>>>,
    m1: Map<usize, usize>,
    m2: Map<usize, usize>,
)
    requires
        is_col_size_map(t, m1),
        is_col_size_map(t, m2),
    ensures
        m1 == m2,
{
    assert forall|j: usize| m1.contains_key(j) == m2.contains_key(j) by {
        if m1.contains_key(j) {
            assert(occupied(t, j as int));
        }
        if m2.contains_key(j) {
            assert(occupied(t, j as int));
        }
    }
    assert forall|j: usize| #[trigger] m1.contains_key(j) implies m1[j] == m2[j] by {
        assert(m2.contains_key(j));
    }
    assert(m1 =~= m2);
}

} // verus!
