//! Merging the rows of several sheets into one sequence of rows.

use crate::rows::{
    copy_row, is_blank_row, lemma_visible_rows_all, normalized, row_is_blank, visible,
    visible_rows,
};
use crate::sheet::{SheetData, SheetModel};
use vstd::prelude::*;

verus! {

/// The rows of a sheet that can go into the merged output: all of them, or
/// all but the first where the sheet's header is to be left out.
pub open spec fn candidates(rows: Seq<Seq<Seq<char>>>, skip_header: bool) -> Seq<Seq<Seq<char>>> {
    if skip_header && rows.len() > 0 {
        rows.drop_first()
    } else {
        rows
    }
}

/// Whether the sheet at `index` loses its header: with
/// `first_line_only_once` every sheet but the first does.
pub open spec fn skips_header(index: int, first_line_only_once: bool) -> bool {
    first_line_only_once && index > 0
}

/// The merged rows of `sheets`: sheet after sheet in the order given, each
/// sheet's candidate rows that are not blank, in their order.
pub open spec fn merged(
    sheets: Seq<SheetModel>,
    first_line_only_once: bool,
) -> Seq<Seq<Seq<char>>>
    decreases sheets.len(),
{
    if sheets.len() == 0 {
        Seq::empty()
    } else {
        merged(sheets.drop_last(), first_line_only_once) + visible_rows(
            candidates(
                sheets.last().rows,
                skips_header(sheets.len() - 1, first_line_only_once),
            ),
        )
    }
}

/// The number of rows of all sheets together.
pub open spec fn total_rows(sheets: Seq<SheetModel>) -> nat
    decreases sheets.len(),
{
    if sheets.len() == 0 {
        0
    } else {
        total_rows(sheets.drop_last()) + sheets.last().rows.len()
    }
}

/// The number of blank rows among `rows`.
pub open spec fn blank_rows(rows: Seq<Seq<Seq<char>>>) -> nat {
    (rows.len() - visible_rows(rows).len()) as nat
}

/// The number of blank rows among the candidate rows of all sheets together.
pub open spec fn blank_candidates(sheets: Seq<SheetModel>, first_line_only_once: bool) -> nat
    decreases sheets.len(),
{
    if sheets.len() == 0 {
        0
    } else {
        blank_candidates(sheets.drop_last(), first_line_only_once) + blank_rows(
            candidates(
                sheets.last().rows,
                skips_header(sheets.len() - 1, first_line_only_once),
            ),
        )
    }
}

/// The number of headers left out: with `first_line_only_once`, one for each
/// sheet after the first.
pub open spec fn headers_skipped(sheets: Seq<SheetModel>, first_line_only_once: bool) -> nat {
    if first_line_only_once && sheets.len() > 0 {
        (sheets.len() - 1) as nat
    } else {
        0
    }
}

/// The count of merged rows. Where every sheet after the first has at least
/// one row, the merged rows are all rows of all sheets, less one header for
/// each sheet after the first if `first_line_only_once` is set, less the
/// blank rows among what is left.
pub proof fn lemma_merged_len(sheets: Seq<SheetModel>, first_line_only_once: bool)
    requires
        first_line_only_once ==> forall|i: int|
            1 <= i < sheets.len() ==> (#[trigger] sheets[i]).rows.len() > 0,
    ensures
        merged(sheets, first_line_only_once).len() == total_rows(sheets) - headers_skipped(
            sheets,
            first_line_only_once,
        ) - blank_candidates(sheets, first_line_only_once),
    decreases sheets.len(),
{
    if sheets.len() > 0 {
        let before = sheets.drop_last();
        if first_line_only_once {
            assert forall|i: int| 1 <= i < before.len() implies (#[trigger] before[i]).rows.len()
                > 0 by {
                assert(before[i] == sheets[i]);
            }
        }
        lemma_merged_len(before, first_line_only_once);
        let part = candidates(
            sheets.last().rows,
            skips_header(sheets.len() - 1, first_line_only_once),
        );
        part.lemma_filter_len(visible());
        assert(first_line_only_once && sheets.len() > 1 ==> sheets[sheets.len() - 1].rows.len()
            > 0);
    }
}

/// No merged row is blank.
pub proof fn lemma_merged_not_blank(sheets: Seq<SheetModel>, first_line_only_once: bool, k: int)
    requires
        0 <= k < merged(sheets, first_line_only_once).len(),
    ensures
        !is_blank_row(merged(sheets, first_line_only_once)[k]),
    decreases sheets.len(),
{
    let before = merged(sheets.drop_last(), first_line_only_once);
    if k < before.len() {
        lemma_merged_not_blank(sheets.drop_last(), first_line_only_once, k);
    } else {
        let part = candidates(
            sheets.last().rows,
            skips_header(sheets.len() - 1, first_line_only_once),
        );
        part.lemma_filter_pred(visible(), k - before.len());
    }
}

/// Bringing the merged rows into normal form drops none of them: the merged
/// output has as many rows as were merged.
pub proof fn lemma_merged_output_len(
    sheets: Seq<SheetModel>,
    first_line_only_once: bool,
    trim_cells: bool,
)
    ensures
        normalized(merged(sheets, first_line_only_once), trim_cells).len() == merged(
            sheets,
            first_line_only_once,
        ).len(),
{
    let rows = merged(sheets, first_line_only_once);
    assert forall|k: int| 0 <= k < rows.len() implies !is_blank_row(#[trigger] rows[k]) by {
        lemma_merged_not_blank(sheets, first_line_only_once, k);
    }
    lemma_visible_rows_all(rows);
}

/// Merges the rows of `sheets`, in the order given. Blank rows are left out;
/// with `first_line_only_once`, so is the first row of every sheet but the
/// first.
pub fn merge_sheets(sheets: &Vec<SheetData>, first_line_only_once: bool) -> (out: Vec<Vec<String>>)
    ensures
        out.deep_view() == merged(sheets.deep_view(), first_line_only_once),
{
    let ghost models = sheets.deep_view();
    let mut out: Vec<Vec<String>> = Vec::new();
    let mut s: usize = 0;
    while s < sheets.len()
        invariant
            s <= sheets.len(),
            models == sheets.deep_view(),
            out.deep_view() == merged(models.take(s as int), first_line_only_once),
        decreases sheets.len() - s,
    {
        let rows = &sheets[s].rows;
        let skip_header = first_line_only_once && s > 0;
        let start: usize = if skip_header && rows.len() > 0 {
            1
        } else {
            0
        };
        let ghost grid = rows.deep_view();
        let ghost part = candidates(grid, skip_header);
        let ghost base = out.deep_view();
        let mut r: usize = start;
        assert(visible_rows(part.take(0)) =~= Seq::empty()) by {
            reveal(Seq::filter);
        }
        while r < rows.len()
            invariant
                start <= r <= rows.len(),
                grid == rows.deep_view(),
                part == grid.subrange(start as int, grid.len() as int),
                out.deep_view() == base + visible_rows(part.take(r - start)),
            decreases rows.len() - r,
        {
            let ghost shorter = part.take(r - start);
            let ghost prior = out.deep_view();
            proof {
                assert(part.take(r - start + 1) =~= shorter.push(grid[r as int]));
                shorter.lemma_filter_push(grid[r as int], visible());
            }
            if !row_is_blank(&rows[r]) {
                out.push(copy_row(&rows[r]));
                assert(prior.push(grid[r as int]) =~= base + visible_rows(shorter).push(
                    grid[r as int],
                ));
            }
            r = r + 1;
        }
        proof {
            assert(part.take(rows.len() - start) =~= part);
            let longer = models.take(s + 1);
            assert(longer.drop_last() =~= models.take(s as int));
        }
        s = s + 1;
    }
    assert(models.take(sheets.len() as int) =~= models);
    out
}

} // verus!
