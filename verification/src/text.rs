//! Reading a selection out of the grid.
//!
//! A row that soft-wrapped is half of a longer line, and putting a newline where the window
//! happened to end is how a copied command comes out with a break in the middle of it. The
//! host reads the selected cells of each row out of its grid; what they mean as text is
//! decided here.
use vstd::prelude::*;

use crate::spell::{is_space, push_str_chars, space, string_of, trim_end};

verus! {

/// One selected cell: what it shows, and whether it is the trailing half of a wide
/// character, which carries a space for the renderer and is not a character at all.
#[derive(Clone, Debug)]
pub struct SelectedCell {
    /// The grapheme cluster the cell shows, or its character.
    pub text: String,
    /// Whether the cell is the second column of a wide character.
    pub spacer: bool,
}

/// The selected cells of one row, and whether the row soft-wrapped into the next.
#[derive(Clone, Debug)]
pub struct SelectedRow {
    /// The cells of the row the selection covers, in order.
    pub cells: Vec<SelectedCell>,
    /// Whether the row wrapped into the next one rather than ending in a line break.
    pub wrapped: bool,
}

/// What a row's selected cells read as: every cell's text but the spacers'.
pub open spec fn cells_text(cells: Seq<SelectedCell>) -> Seq<char>
    decreases cells.len(),
{
    if cells.len() == 0 {
        Seq::empty()
    } else {
        cells_text(cells.drop_last()) + if cells.last().spacer {
            Seq::<char>::empty()
        } else {
            cells.last().text@
        }
    }
}

/// The text of a selection over `rows`: each row's text with its trailing white space cut,
/// and a line break after every row but a wrapped one and, when `closes`, the last, which is
/// then the row the selection ends on.
pub open spec fn joined(rows: Seq<SelectedRow>, closes: bool) -> Seq<char>
    decreases rows.len(),
{
    if rows.len() == 0 {
        Seq::empty()
    } else {
        let row = rows.last();
        joined(rows.drop_last(), false) + trim_end(cells_text(row.cells@)) + if closes
            || row.wrapped {
            Seq::<char>::empty()
        } else {
            seq!['\n']
        }
    }
}

/// The text of the first `i + 1` rows, when more of the selection follows them, is the text
/// of the first `i` and then row `i` with its line break.
proof fn lemma_joined_prefix(rows: Seq<SelectedRow>, i: int)
    requires
        0 <= i < rows.len(),
    ensures
        joined(rows.take(i + 1), false) == joined(rows.take(i), false) + trim_end(
            cells_text(rows[i].cells@),
        ) + if rows[i].wrapped { Seq::<char>::empty() } else { seq!['\n'] },
{
    assert(rows.take(i + 1).drop_last() =~= rows.take(i));
}

/// Cut white space off the end of `out`, but nothing before `start`.
fn cut_trailing_space(out: &mut Vec<char>, start: usize)
    requires
        start <= old(out)@.len(),
    ensures
        final(out)@ == old(out)@.take(start as int) + trim_end(old(out)@.skip(start as int)),
    decreases old(out)@.len() - start,
{
    let ghost before = out@;
    if out.len() > start && space(out[out.len() - 1]) {
        out.pop();
        assert(before.skip(start as int).drop_last() =~= out@.skip(start as int));
        cut_trailing_space(out, start);
        assert(out@.take(start as int) =~= before.take(start as int)) by {
            assert(before.take(start as int) =~= before.drop_last().take(start as int));
        }
    } else {
        assert(before =~= before.take(start as int) + before.skip(start as int));
    }
}

/// The text inside a selection, from the rows it covers: the rows joined with a line break
/// unless a row soft-wrapped into the next, and the trailing white space off every line.
/// `closes` says whether the last row given is the row the selection ends on; when the
/// selection reaches past the grid it is not, and that row ends in a line break too.
pub fn selection_text(rows: &Vec<SelectedRow>, closes: bool) -> (r: String)
    ensures
        r@ == joined(rows@, closes),
{
    let mut out: Vec<char> = Vec::new();
    let n = rows.len();
    let mut i: usize = 0;
    while i < n
        invariant
            n == rows.len(),
            i <= n,
            out@ == joined(rows@.take(i as int), false),
            closes && n > 0 ==> i < n,
        decreases n - i,
    {
        let row = &rows[i];
        let start = out.len();
        let mut k: usize = 0;
        while k < row.cells.len()
            invariant
                k <= row.cells.len(),
                start <= out@.len(),
                out@ == joined(rows@.take(i as int), false) + cells_text(row.cells@.take(k as int)),
                start == joined(rows@.take(i as int), false).len(),
            decreases row.cells.len() - k,
        {
            assert(row.cells@.take(k as int + 1).drop_last() =~= row.cells@.take(k as int));
            if !row.cells[k].spacer {
                push_str_chars(&mut out, row.cells[k].text.as_str());
            }
            assert(out@ =~= joined(rows@.take(i as int), false) + cells_text(row.cells@.take(k as int + 1)));
            k += 1;
        }
        assert(row.cells@.take(row.cells.len() as int) =~= row.cells@);
        let ghost prefix = joined(rows@.take(i as int), false);
        assert(out@.take(start as int) =~= prefix);
        assert(out@.skip(start as int) =~= cells_text(row.cells@));
        cut_trailing_space(&mut out, start);
        let last = i + 1 == n;
        if (!last || !closes) && !row.wrapped {
            out.push('\n');
        }
        proof {
            lemma_joined_prefix(rows@, i as int);
            if last && closes {
                assert(rows@.take(i as int + 1) =~= rows@);
                assert(rows@.take(i as int + 1).drop_last() =~= rows@.take(i as int));
                assert(out@ =~= joined(rows@, true));
            } else {
                assert(out@ =~= joined(rows@.take(i as int + 1), false));
            }
        }
        if last && closes {
            return string_of(&out);
        }
        i += 1;
    }
    proof {
        assert(rows@.take(n as int) =~= rows@);
        if n == 0 {
            assert(joined(rows@, closes) =~= Seq::<char>::empty());
        }
    }
    string_of(&out)
}

} // verus!
