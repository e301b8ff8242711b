//! Padding primitives: append or prepend spaces to reach a target width.

use vstd::prelude::*;
use crate::cell::CellText;

verus! {

/// `n` space characters (none when `n <= 0`).
pub open spec fn spaces(n: int) -> Seq<char>
    decreases n,
{
    if n <= 0 {
        Seq::empty()
    } else {
        spaces(n - 1).push(' ')
    }
}

pub proof fn lemma_spaces_len(n: int)
    ensures
        spaces(n).len() == if n <= 0 { 0int } else { n },
    decreases n,
{
    if n > 0 {
        lemma_spaces_len(n - 1);
    }
}

/// The textual form of `s` left-aligned in a field of `width` characters:
/// `s` itself, then spaces up to `width`.
pub open spec fn pad_right_text(s: Seq<char>, width: int) -> Seq<char> {
    s + spaces(width - s.len())
}

/// The textual form of `s` right-aligned in a field of `width` characters:
/// spaces up to `width`, then `s` itself.
pub open spec fn pad_left_text(s: Seq<char>, width: int) -> Seq<char> {
    spaces(width - s.len()) + s
}

pub proof fn lemma_pad_right_text_len(s: Seq<char>, width: int)
    requires
        s.len() <= width,
    ensures
        pad_right_text(s, width).len() == width,
{
    lemma_spaces_len(width - s.len());
}

pub proof fn lemma_pad_left_text_len(s: Seq<char>, width: int)
    requires
        s.len() <= width,
    ensures
        pad_left_text(s, width).len() == width,
{
    lemma_spaces_len(width - s.len());
}

/// Append `count` spaces to `out`.
fn push_spaces(out: &mut String, count: usize)
    ensures
        final(out)@ == old(out)@ + spaces(count as int),
{
    let mut k: usize = 0;
    while k < count
        invariant
            k <= count,
            out@ == old(out)@ + spaces(k as int),
        decreases count - k,
    {
        proof {
            reveal_strlit(" ");
        }
        out.append(" ");
        k = k + 1;
        proof {
            assert(out@ =~= old(out)@ + spaces(k as int));
        }
    }
}

/// Left-align: the textual form of `input`, then spaces out to `length`
/// characters.
pub fn pad_right<D: CellText>(input: &D, length: &usize) -> (r: String)
    requires
        input.cell_text().len() <= *length,
    ensures
        r@ == pad_right_text(input.cell_text(), *length as int),
        r@.len() == *length,
{
    let mut input_string = input.to_cell_text();
    let n: usize = input_string.as_str().unicode_len();
    push_spaces(&mut input_string, *length - n);
    proof {
        lemma_pad_right_text_len(input.cell_text(), *length as int);
    }
    input_string
}

/// Right-align: spaces, then the textual form of `input`, making `length`
/// characters in all.
pub fn pad_left<D: CellText>(input: &D, length: &usize) -> (r: String)
    requires
        input.cell_text().len() <= *length,
    ensures
        r@ == pad_left_text(input.cell_text(), *length as int),
        r@.len() == *length,
{
    let input_string = input.to_cell_text();
    let n: usize = input_string.as_str().unicode_len();
    let mut padded_string = String::new();
    push_spaces(&mut padded_string, *length - n);
    padded_string.append(input_string.as_str());
    proof {
        assert(padded_string@ =~= pad_left_text(input.cell_text(), *length as int));
        lemma_pad_left_text_len(input.cell_text(), *length as int);
    }
    padded_string
}

} // verus!
