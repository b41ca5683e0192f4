//! Rows of cells: blank rows, the widest row, padding and normalisation.
//!
//! A row is modelled as a `Seq<Seq<char>>`, one text per cell, and a sheet's
//! rows as a sequence of those. The executable functions work on
//! `Vec<String>` and `Vec<Vec<String>>`, whose `deep_view` is that model.

use crate::text::{is_blank, lemma_trimmed_blank, str_is_blank, trim, trimmed};
use vstd::prelude::*;

verus! {

/// A row is blank when each of its cells is blank; a row without cells is
/// blank.
pub open spec fn is_blank_row(row: Seq<Seq<char>>) -> bool {
    forall|j: int| 0 <= j < row.len() ==> is_blank(#[trigger] row[j])
}

/// The width of the widest row, and 0 where there is no row.
pub open spec fn max_width(rows: Seq<Seq<Seq<char>>>) -> nat
    decreases rows.len(),
{
    if rows.len() == 0 {
        0
    } else {
        let before = max_width(rows.drop_last());
        if rows.last().len() > before {
            rows.last().len()
        } else {
            before
        }
    }
}

/// `row` followed by as many empty cells as it lacks to `width`.
pub open spec fn padded(row: Seq<Seq<char>>, width: nat) -> Seq<Seq<char>> {
    if row.len() < width {
        row + Seq::new((width - row.len()) as nat, |j: int| Seq::<char>::empty())
    } else {
        row
    }
}

/// `row` with each cell trimmed.
pub open spec fn trimmed_row(row: Seq<Seq<char>>) -> Seq<Seq<char>> {
    row.map_values(|cell: Seq<char>| trimmed(cell))
}

/// `rows` with each cell of each row trimmed.
pub open spec fn trimmed_grid(rows: Seq<Seq<Seq<char>>>) -> Seq<Seq<Seq<char>>> {
    rows.map_values(|row: Seq<Seq<char>>| trimmed_row(row))
}

/// The test that a row passes when it is not blank.
pub open spec fn visible() -> spec_fn(Seq<Seq<char>>) -> bool {
    |row: Seq<Seq<char>>| !is_blank_row(row)
}

/// The rows that are not blank, in their order.
pub open spec fn visible_rows(rows: Seq<Seq<Seq<char>>>) -> Seq<Seq<Seq<char>>> {
    rows.filter(visible())
}

/// What becomes of a row that is kept: its cells are trimmed where
/// `trim_cells` is set, and it is padded to `width`.
pub open spec fn shaped_row(row: Seq<Seq<char>>, width: nat, trim_cells: bool) -> Seq<Seq<char>> {
    padded(
        if trim_cells {
            trimmed_row(row)
        } else {
            row
        },
        width,
    )
}

/// `shaped_row` for a given width and choice of trimming, as a function on
/// rows.
pub open spec fn shape_to(
    width: nat,
    trim_cells: bool,
) -> spec_fn(Seq<Seq<char>>) -> Seq<Seq<char>> {
    |row: Seq<Seq<char>>| shaped_row(row, width, trim_cells)
}

/// The normal form of `rows`: the rows that are not blank, in their order,
/// each padded to the width of the widest row of `rows` (blank rows count
/// for that width), with its cells trimmed where `trim_cells` is set.
pub open spec fn normalized(rows: Seq<Seq<Seq<char>>>, trim_cells: bool) -> Seq<Seq<Seq<char>>> {
    visible_rows(rows).map_values(shape_to(max_width(rows), trim_cells))
}

/// The number of rows before index `i` that are not blank. Where row `i` is
/// not blank itself, this is its index among the rows that are kept.
pub open spec fn place(rows: Seq<Seq<Seq<char>>>, i: int) -> int {
    visible_rows(rows.take(i)).len() as int
}

/// `max_width` is an upper bound of the widths, and some row reaches it.
pub proof fn lemma_max_width(rows: Seq<Seq<Seq<char>>>)
    ensures
        forall|i: int| 0 <= i < rows.len() ==> (#[trigger] rows[i]).len() <= max_width(rows),
        rows.len() > 0 ==> exists|i: int|
            0 <= i < rows.len() && (#[trigger] rows[i]).len() == max_width(rows),
        rows.len() == 0 ==> max_width(rows) == 0,
    decreases rows.len(),
{
    if rows.len() > 0 {
        let before = rows.drop_last();
        lemma_max_width(before);
        assert forall|i: int| 0 <= i < rows.len() implies (#[trigger] rows[i]).len() <= max_width(
            rows,
        ) by {
            if i < rows.len() - 1 {
                assert(before[i] == rows[i]);
            }
        }
        if rows.last().len() > max_width(before) || before.len() == 0 {
            assert(rows[rows.len() - 1].len() == max_width(rows));
        } else {
            let i = choose|i: int|
                0 <= i < before.len() && (#[trigger] before[i]).len() == max_width(before);
            assert(rows[i].len() == max_width(rows));
        }
    }
}

/// Decides whether a row is blank.
pub fn row_is_blank(row: &Vec<String>) -> (b: bool)
    ensures
        b == is_blank_row(row.deep_view()),
{
    let mut j: usize = 0;
    while j < row.len()
        invariant
            j <= row.len(),
            forall|k: int| 0 <= k < j ==> is_blank(#[trigger] row.deep_view()[k]),
        decreases row.len() - j,
    {
        if !str_is_blank(row[j].as_str()) {
            assert(!is_blank(row.deep_view()[j as int]));
            return false;
        }
        j = j + 1;
    }
    true
}

/// The width of the widest row.
pub fn max_row_width(rows: &Vec<Vec<String>>) -> (width: usize)
    ensures
        width == max_width(rows.deep_view()),
{
    let mut width: usize = 0;
    let mut i: usize = 0;
    while i < rows.len()
        invariant
            i <= rows.len(),
            width == max_width(rows.deep_view().take(i as int)),
        decreases rows.len() - i,
    {
        assert(rows.deep_view().take(i + 1).drop_last() =~= rows.deep_view().take(i as int));
        if rows[i].len() > width {
            width = rows[i].len();
        }
        i = i + 1;
    }
    assert(rows.deep_view().take(rows.len() as int) =~= rows.deep_view());
    width
}

/// A copy of `row` with each cell trimmed.
pub fn trim_row(row: &Vec<String>) -> (out: Vec<String>)
    ensures
        out.deep_view() == trimmed_row(row.deep_view()),
{
    let mut out: Vec<String> = Vec::new();
    let mut j: usize = 0;
    while j < row.len()
        invariant
            j <= row.len(),
            out.len() == j,
            forall|k: int| 0 <= k < j ==> (#[trigger] out[k])@ == trimmed(row[k]@),
        decreases row.len() - j,
    {
        let cell = trim(row[j].as_str()).to_owned();
        out.push(cell);
        j = j + 1;
    }
    out
}

/// A copy of `rows` with each cell trimmed.
pub fn trim_rows(rows: &Vec<Vec<String>>) -> (out: Vec<Vec<String>>)
    ensures
        out.deep_view() == trimmed_grid(rows.deep_view()),
{
    let mut out: Vec<Vec<String>> = Vec::new();
    let mut i: usize = 0;
    while i < rows.len()
        invariant
            i <= rows.len(),
            out.len() == i,
            forall|k: int|
                0 <= k < i ==> (#[trigger] out[k]).deep_view() == trimmed_row(rows[k].deep_view()),
        decreases rows.len() - i,
    {
        out.push(trim_row(&rows[i]));
        i = i + 1;
    }
    out
}

/// A copy of `row`.
pub fn copy_row(row: &Vec<String>) -> (out: Vec<String>)
    ensures
        out.deep_view() == row.deep_view(),
{
    let mut out: Vec<String> = Vec::new();
    let mut j: usize = 0;
    while j < row.len()
        invariant
            j <= row.len(),
            out.len() == j,
            forall|k: int| 0 <= k < j ==> (#[trigger] out[k])@ == row[k]@,
        decreases row.len() - j,
    {
        out.push(row[j].clone());
        j = j + 1;
    }
    out
}

/// Appends empty cells to `row` until it has `width` cells; a row that is
/// already that wide, or wider, is left as it is.
pub fn pad_row(row: &mut Vec<String>, width: usize)
    ensures
        final(row).deep_view() == padded(old(row).deep_view(), width as nat),
{
    let ghost before = row.deep_view();
    while row.len() < width
        invariant
            before.len() <= width ==> row.len() <= width,
            before.len() <= row.len(),
            before.len() >= width ==> row.deep_view() == before,
            forall|k: int| 0 <= k < before.len() ==> (#[trigger] row.deep_view()[k]) == before[k],
            forall|k: int|
                before.len() <= k < row.len() ==> (#[trigger] row.deep_view()[k])
                    == Seq::<char>::empty(),
        decreases width - row.len(),
    {
        let ghost prior = row.deep_view();
        row.push(String::new());
        assert forall|k: int| 0 <= k < row.len() - 1 implies (#[trigger] row.deep_view()[k])
            == prior[k] by {}
    }
}

/// Each row that is kept is one of the rows given, and is not blank.
pub proof fn lemma_visible_rows(rows: Seq<Seq<Seq<char>>>, k: int)
    requires
        0 <= k < visible_rows(rows).len(),
    ensures
        !is_blank_row(visible_rows(rows)[k]),
        rows.contains(visible_rows(rows)[k]),
        visible_rows(rows)[k].len() <= max_width(rows),
{
    rows.lemma_filter_pred(visible(), k);
    rows.lemma_filter_contains_rev(visible(), visible_rows(rows)[k]);
    lemma_max_width(rows);
}

/// Where no row is blank, every row is kept.
pub proof fn lemma_visible_rows_all(rows: Seq<Seq<Seq<char>>>)
    requires
        forall|k: int| 0 <= k < rows.len() ==> !is_blank_row(#[trigger] rows[k]),
    ensures
        visible_rows(rows) == rows,
    decreases rows.len(),
{
    reveal(Seq::filter);
    if rows.len() > 0 {
        let before = rows.drop_last();
        assert forall|k: int| 0 <= k < before.len() implies !is_blank_row(#[trigger] before[k]) by {
            assert(before[k] == rows[k]);
        }
        lemma_visible_rows_all(before);
        assert(!is_blank_row(rows[rows.len() - 1]));
    }
}

/// A row that is not blank stands, among the rows that are kept, at its
/// place.
pub proof fn lemma_place(rows: Seq<Seq<Seq<char>>>, i: int)
    requires
        0 <= i < rows.len(),
        !is_blank_row(rows[i]),
    ensures
        0 <= place(rows, i) < visible_rows(rows).len(),
        visible_rows(rows)[place(rows, i)] == rows[i],
        place(rows, i + 1) == place(rows, i) + 1,
{
    let shorter = rows.take(i);
    let longer = rows.take(i + 1);
    assert(longer =~= shorter.push(rows[i]));
    shorter.lemma_filter_push(rows[i], visible());
    longer.lemma_filter_monotone(rows, visible());
}

/// The place does not go down along the rows.
pub proof fn lemma_place_monotone(rows: Seq<Seq<Seq<char>>>, i: int, j: int)
    requires
        0 <= i <= j <= rows.len(),
    ensures
        place(rows, i) <= place(rows, j),
{
    assert(rows.take(j).take(i) =~= rows.take(i));
    rows.take(j).lemma_filter_take_len(visible(), i);
}

/// Every row of the normal form is exactly as wide as the widest of the rows
/// given, blank or not.
pub proof fn lemma_normalized_widths(rows: Seq<Seq<Seq<char>>>, trim_cells: bool)
    ensures
        forall|k: int|
            0 <= k < normalized(rows, trim_cells).len() ==> (#[trigger] normalized(
                rows,
                trim_cells,
            )[k]).len() == max_width(rows),
{
    let out = normalized(rows, trim_cells);
    assert forall|k: int| 0 <= k < out.len() implies (#[trigger] out[k]).len() == max_width(
        rows,
    ) by {
        lemma_visible_rows(rows, k);
    }
}

/// No row of the normal form is blank.
pub proof fn lemma_normalized_not_blank(rows: Seq<Seq<Seq<char>>>, trim_cells: bool)
    ensures
        forall|k: int|
            0 <= k < normalized(rows, trim_cells).len() ==> !is_blank_row(
                #[trigger] normalized(rows, trim_cells)[k],
            ),
{
    let out = normalized(rows, trim_cells);
    assert forall|k: int| 0 <= k < out.len() implies !is_blank_row(#[trigger] out[k]) by {
        lemma_visible_rows(rows, k);
        lemma_shaped_row_not_blank(visible_rows(rows)[k], max_width(rows), trim_cells);
    }
}

/// Trimming the cells of a row and padding it leave a row that is not blank
/// not blank.
pub proof fn lemma_shaped_row_not_blank(row: Seq<Seq<char>>, width: nat, trim_cells: bool)
    requires
        !is_blank_row(row),
    ensures
        !is_blank_row(shaped_row(row, width, trim_cells)),
{
    let j = choose|j: int| 0 <= j < row.len() && !is_blank(row[j]);
    lemma_trimmed_blank(row[j]);
    assert(!is_blank(shaped_row(row, width, trim_cells)[j]));
}

/// Normalisation keeps the order of the rows: of two rows that are not
/// blank, the earlier one comes out before the later one, each at its place
/// and in its shaped form. With `lemma_visible_rows` this also shows that
/// nothing else comes out.
pub proof fn lemma_normalized_keeps_order(
    rows: Seq<Seq<Seq<char>>>,
    trim_cells: bool,
    i: int,
    j: int,
)
    requires
        0 <= i < j < rows.len(),
        !is_blank_row(rows[i]),
        !is_blank_row(rows[j]),
    ensures
        0 <= place(rows, i) < place(rows, j) < normalized(rows, trim_cells).len(),
        normalized(rows, trim_cells)[place(rows, i)] == shaped_row(
            rows[i],
            max_width(rows),
            trim_cells,
        ),
        normalized(rows, trim_cells)[place(rows, j)] == shaped_row(
            rows[j],
            max_width(rows),
            trim_cells,
        ),
{
    lemma_place(rows, i);
    lemma_place(rows, j);
    lemma_place_monotone(rows, i + 1, j);
}

/// The number of rows that come out is the number of rows that are not
/// blank.
pub proof fn lemma_normalized_len(rows: Seq<Seq<Seq<char>>>, trim_cells: bool)
    ensures
        normalized(rows, trim_cells).len() == place(rows, rows.len() as int),
        normalized(rows, trim_cells).len() <= rows.len(),
{
    assert(rows.take(rows.len() as int) =~= rows);
    rows.lemma_filter_len(visible());
}

/// The normal form of `data`: blank rows are dropped, the others keep their
/// order, have their cells trimmed where `trim_cells` is set, and are padded
/// with empty cells to the width of the widest row of `data`.
pub fn normalize_rows(data: &Vec<Vec<String>>, trim_cells: bool) -> (out: Vec<Vec<String>>)
    ensures
        out.deep_view() == normalized(data.deep_view(), trim_cells),
        forall|k: int|
            0 <= k < out.len() ==> (#[trigger] out[k]).len() == max_width(data.deep_view()),
        forall|k: int| 0 <= k < out.len() ==> !is_blank_row(#[trigger] out.deep_view()[k]),
{
    let width = max_row_width(data);
    let ghost rows = data.deep_view();
    let mut out: Vec<Vec<String>> = Vec::new();
    let mut i: usize = 0;
    assert(visible_rows(rows.take(0)) =~= Seq::empty()) by {
        reveal(Seq::filter);
    }
    while i < data.len()
        invariant
            i <= data.len(),
            rows == data.deep_view(),
            out.deep_view() == visible_rows(rows.take(i as int)).map_values(
                shape_to(width as nat, trim_cells),
            ),
        decreases data.len() - i,
    {
        let ghost shorter = rows.take(i as int);
        proof {
            assert(rows.take(i + 1) =~= shorter.push(rows[i as int]));
            shorter.lemma_filter_push(rows[i as int], visible());
        }
        if !row_is_blank(&data[i]) {
            let mut row = if trim_cells {
                trim_row(&data[i])
            } else {
                copy_row(&data[i])
            };
            pad_row(&mut row, width);
            out.push(row);
            proof {
                visible_rows(shorter).lemma_push_map_commute(
                    shape_to(width as nat, trim_cells),
                    rows[i as int],
                );
            }
        }
        i = i + 1;
    }
    proof {
        assert(rows.take(data.len() as int) =~= rows);
        lemma_normalized_widths(rows, trim_cells);
        lemma_normalized_not_blank(rows, trim_cells);
        assert forall|k: int| 0 <= k < out.len() implies (#[trigger] out[k]).len() == max_width(
            rows,
        ) by {
            assert(normalized(rows, trim_cells)[k].len() == max_width(rows));
        }
        assert forall|k: int| 0 <= k < out.len() implies !is_blank_row(
            #[trigger] out.deep_view()[k],
        ) by {
            assert(out.deep_view()[k] == normalized(rows, trim_cells)[k]);
        }
    }
    out
}

} // verus!
