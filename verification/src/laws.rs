//! General laws of the layout engine and the renderer, stated over the
//! mathematical model and proved once for every table.

use vstd::prelude::*;
use crate::render::col_width;
use crate::render::col_width_over;
use crate::render::content_line;
use crate::render::lines_joined;
use crate::render::render_lines;
use crate::render::rendered;
use crate::render::row_lines;
use crate::render::rule_line;
use crate::render::widths_of;
use crate::table::TableModel;

verus! {

/// The length that the columns contribute to any line of a render: per
/// column its width, the two surrounding spaces (or extra rule characters)
/// and one separator.
pub open spec fn widths_total(widths: Seq<nat>) -> int
    decreases widths.len(),
{
    if widths.len() == 0 {
        0
    } else {
        widths_total(widths.drop_last()) + widths.last() + 3
    }
}

/// The shape of the row lines: two per row, the content line of row `j` at
/// position `2 * j` and a rule line right after it.
proof fn lemma_row_lines_props(rows: Seq<Seq<Seq<char>>>, widths: Seq<nat>, sep: char, rule: Seq<char>)
    ensures
        row_lines(rows, widths, sep, rule).len() == 2 * rows.len(),
        forall|j: int|
            0 <= j < rows.len() ==> row_lines(rows, widths, sep, rule)[2 * j] == content_line(
                #[trigger] rows[j],
                widths,
                sep,
            ),
        forall|j: int|
            0 <= j < rows.len() ==> #[trigger] row_lines(rows, widths, sep, rule)[2 * j + 1]
                == rule,
    decreases rows.len(),
{
    if rows.len() > 0 {
        lemma_row_lines_props(rows.drop_last(), widths, sep, rule);
        let prefix = row_lines(rows.drop_last(), widths, sep, rule);
        let pair = seq![content_line(rows.last(), widths, sep), rule];
        let full = row_lines(rows, widths, sep, rule);
        assert(full == prefix + pair);
        assert forall|j: int| 0 <= j < rows.len() implies row_lines(rows, widths, sep, rule)[2 * j]
            == content_line(#[trigger] rows[j], widths, sep) by {
            if j < rows.len() - 1 {
                assert(rows.drop_last()[j] == rows[j]);
                assert(full[2 * j] == prefix[2 * j]);
            } else {
                assert(rows.last() == rows[j]);
                assert(full[2 * j] == pair[0]);
            }
        }
        assert forall|j: int| 0 <= j < rows.len() implies #[trigger] row_lines(
            rows,
            widths,
            sep,
            rule,
        )[2 * j + 1] == rule by {
            if j < rows.len() - 1 {
                assert(full[2 * j + 1] == prefix[2 * j + 1]);
            } else {
                assert(full[2 * j + 1] == pair[1]);
            }
        }
    }
}

/// Law: a full render is exactly `2 * rows + 3` lines — an opening rule
/// line, the title line and a rule line, then a content line and a rule
/// line for every data row.
pub proof fn lemma_render_line_count(t: TableModel)
    ensures
        render_lines(t).len() == 2 * t.rows.len() + 3,
{
    let ws = widths_of(t);
    lemma_row_lines_props(t.rows, ws, t.col_sep, rule_line(ws, t.line_sep, t.cross));
}

/// The column width over the data rows is the maximum of the starting width
/// and every cell length in the column.
proof fn lemma_col_width_over_max(rows: Seq<Seq<Seq<char>>>, base: nat, col: int)
    ensures
        col_width_over(rows, base, col) >= base,
        forall|j: int|
            0 <= j < rows.len() ==> (#[trigger] rows[j])[col].len() <= col_width_over(
                rows,
                base,
                col,
            ),
        col_width_over(rows, base, col) == base || exists|j: int|
            0 <= j < rows.len() && col_width_over(rows, base, col) == (#[trigger] rows[j])[col].len(),
    decreases rows.len(),
{
    if rows.len() > 0 {
        lemma_col_width_over_max(rows.drop_last(), base, col);
        let rest = col_width_over(rows.drop_last(), base, col);
        let full = col_width_over(rows, base, col);
        assert forall|j: int| 0 <= j < rows.len() implies (#[trigger] rows[j])[col].len()
            <= full by {
            if j < rows.len() - 1 {
                assert(rows.drop_last()[j] == rows[j]);
            } else {
                assert(rows.last() == rows[j]);
            }
        }
        if rows.last()[col].len() > rest {
            assert(full == rows[rows.len() - 1][col].len());
        } else {
            if rest != base {
                let j = choose|j: int|
                    0 <= j < rows.drop_last().len() && rest == (#[trigger] rows.drop_last()[j])[col].len();
                assert(rows.drop_last()[j] == rows[j]);
                assert(full == rows[j][col].len());
            }
        }
    }
}

/// Law: the computed width of a column is the greatest character length
/// among the column's title and every row's cell in it — no cell exceeds
/// it, and it equals one of them.
pub proof fn lemma_col_width_is_max(t: TableModel, col: int)
    requires
        0 <= col < t.titles.len(),
    ensures
        col_width(t, col) >= t.titles[col].len(),
        forall|j: int|
            0 <= j < t.rows.len() ==> (#[trigger] t.rows[j])[col].len() <= col_width(t, col),
        col_width(t, col) == t.titles[col].len() || exists|j: int|
            0 <= j < t.rows.len() && col_width(t, col) == (#[trigger] t.rows[j])[col].len(),
{
    lemma_col_width_over_max(t.rows, t.titles[col].len(), col);
}

/// Law: a rule line is one corner character plus, per column, `width + 2`
/// rule characters and one corner — `1 + Σ (width[i] + 3)` characters.
pub proof fn lemma_rule_line_len(widths: Seq<nat>, rule: char, corner: char)
    ensures
        rule_line(widths, rule, corner).len() == 1 + widths_total(widths),
    decreases widths.len(),
{
    if widths.len() > 0 {
        lemma_rule_line_len(widths.drop_last(), rule, corner);
    }
}

/// Law: a content line whose cells all fit their column widths is
/// `1 + Σ (width[i] + 3)` characters long — one separator plus, per column,
/// the cell padded to `width[i]`, two spaces and one separator.
pub proof fn lemma_content_line_len(cells: Seq<Seq<char>>, widths: Seq<nat>, sep: char)
    requires
        cells.len() == widths.len(),
        forall|i: int| 0 <= i < cells.len() ==> (#[trigger] cells[i]).len() <= widths[i],
    ensures
        content_line(cells, widths, sep).len() == 1 + widths_total(widths),
    decreases cells.len(),
{
    if cells.len() > 0 {
        assert forall|i: int| 0 <= i < cells.drop_last().len() implies (#[trigger] cells.drop_last()[i]).len() <= widths.drop_last()[i] by {
            assert(cells.drop_last()[i] == cells[i]);
        }
        lemma_content_line_len(cells.drop_last(), widths.drop_last(), sep);
        assert(cells.last().len() <= widths.last());
    }
}

/// Joining lines of one common length `line_len` yields a text whose length
/// is the number of lines times `line_len` plus the terminator's length.
proof fn lemma_joined_len(lines: Seq<Seq<char>>, term: Seq<char>, line_len: int)
    requires
        forall|i: int| 0 <= i < lines.len() ==> (#[trigger] lines[i]).len() == line_len,
    ensures
        lines_joined(lines, term).len() == lines.len() * (line_len + term.len()),
    decreases lines.len(),
{
    let step = line_len + term.len();
    if lines.len() > 0 {
        assert forall|i: int| 0 <= i < lines.drop_last().len() implies (#[trigger] lines.drop_last()[i]).len() == line_len by {
            assert(lines.drop_last()[i] == lines[i]);
        }
        lemma_joined_len(lines.drop_last(), term, line_len);
        assert(lines.last() == lines[lines.len() - 1]);
        assert((lines.len() - 1) * step + step == lines.len() * step) by (nonlinear_arith);
    }
}

/// From the joined text of lines of one common length, the slot at position
/// `k * (line_len + terminator length)` holds exactly line `k`.
proof fn lemma_joined_extract(lines: Seq<Seq<char>>, term: Seq<char>, line_len: int, k: int)
    requires
        forall|i: int| 0 <= i < lines.len() ==> (#[trigger] lines[i]).len() == line_len,
        0 <= k < lines.len(),
        line_len >= 0,
    ensures
        lines_joined(lines, term).subrange(
            k * (line_len + term.len()),
            k * (line_len + term.len()) + line_len,
        ) == lines[k],
    decreases lines.len(),
{
    let step = line_len + term.len();
    let full = lines_joined(lines, term);
    let prefix = lines_joined(lines.drop_last(), term);
    assert(full == prefix + lines.last() + term);
    assert forall|i: int| 0 <= i < lines.drop_last().len() implies (#[trigger] lines.drop_last()[i]).len() == line_len by {
        assert(lines.drop_last()[i] == lines[i]);
    }
    lemma_joined_len(lines, term, line_len);
    lemma_joined_len(lines.drop_last(), term, line_len);
    assert(k * step >= 0) by (nonlinear_arith)
        requires
            k >= 0,
            step >= 0,
    ;
    if k == lines.len() - 1 {
        assert(prefix.len() == k * step);
        assert(lines.last() == lines[k]);
        assert(full.subrange(k * step, k * step + line_len) =~= lines[k]);
    } else {
        lemma_joined_extract(lines.drop_last(), term, line_len, k);
        assert((k + 1) * step <= (lines.len() - 1) * step) by (nonlinear_arith)
            requires
                0 <= k < lines.len() - 1,
                step >= 0,
        ;
        assert(k * step + line_len <= (k + 1) * step) by (nonlinear_arith)
            requires
                line_len >= 0,
                term.len() >= 0,
                step == line_len + term.len(),
        ;
        assert(lines.drop_last()[k] == lines[k]);
        assert(full.subrange(k * step, k * step + line_len) =~= prefix.subrange(
            k * step,
            k * step + line_len,
        ));
    }
}

/// Law: the rendered text splits back into its lines.  Every line occupies
/// a slot of one common size — its characters, then the terminator — so the
/// text of one render reproduces the renderer's line count and every line's
/// content: the text is `2 * rows + 3` slots long, and slot `k` starts with
/// line `k` of the render.
pub proof fn lemma_rendered_splits_into_lines(t: TableModel, term: Seq<char>, k: int)
    requires
        t.wf(),
        0 <= k < 2 * t.rows.len() + 3,
    ensures
        rendered(t, term).len() == (2 * t.rows.len() + 3) * (1 + widths_total(widths_of(t))
            + term.len()),
        rendered(t, term).subrange(
            k * (1 + widths_total(widths_of(t)) + term.len()),
            k * (1 + widths_total(widths_of(t)) + term.len()) + 1 + widths_total(widths_of(t)),
        ) == render_lines(t)[k],
{
    let line_len = 1 + widths_total(widths_of(t));
    lemma_render_line_count(t);
    lemma_render_line_lengths(t);
    lemma_widths_total_nonneg(widths_of(t));
    lemma_joined_len(render_lines(t), term, line_len);
    lemma_joined_extract(render_lines(t), term, line_len, k);
}

/// The per-column contributions to a line's length are never negative.
proof fn lemma_widths_total_nonneg(widths: Seq<nat>)
    ensures
        widths_total(widths) >= 0,
    decreases widths.len(),
{
    if widths.len() > 0 {
        lemma_widths_total_nonneg(widths.drop_last());
    }
}

/// Law: every line of a render — the rule lines, the title line and every
/// content line — has the same length, `1 + Σ (width[i] + 3)` over the
/// computed column widths.
pub proof fn lemma_render_line_lengths(t: TableModel)
    requires
        t.wf(),
    ensures
        forall|k: int|
            0 <= k < render_lines(t).len() ==> (#[trigger] render_lines(t)[k]).len() == 1
                + widths_total(widths_of(t)),
{
    let ws = widths_of(t);
    let rule = rule_line(ws, t.line_sep, t.cross);
    let head = seq![rule, content_line(t.titles, ws, t.col_sep), rule];
    lemma_rule_line_len(ws, t.line_sep, t.cross);
    assert forall|i: int| 0 <= i < t.titles.len() implies (#[trigger] t.titles[i]).len()
        <= ws[i] by {
        lemma_col_width_is_max(t, i);
    }
    lemma_content_line_len(t.titles, ws, t.col_sep);
    lemma_row_lines_props(t.rows, ws, t.col_sep, rule);
    assert forall|j: int| 0 <= j < t.rows.len() implies content_line(
        #[trigger] t.rows[j],
        ws,
        t.col_sep,
    ).len() == 1 + widths_total(ws) by {
        assert(t.rows[j].len() == t.titles.len());
        assert forall|i: int| 0 <= i < t.rows[j].len() implies (#[trigger] t.rows[j][i]).len()
            <= ws[i] by {
            lemma_col_width_is_max(t, i);
        }
        lemma_content_line_len(t.rows[j], ws, t.col_sep);
    }
    let body = row_lines(t.rows, ws, t.col_sep, rule);
    assert(render_lines(t) == head + body);
    assert forall|k: int| 0 <= k < render_lines(t).len() implies (#[trigger] render_lines(t)[k]).len() == 1 + widths_total(ws) by {
        if k < 3 {
            assert(render_lines(t)[k] == head[k]);
        } else {
            let j = (k - 3) / 2;
            assert(render_lines(t)[k] == body[k - 3]);
            if (k - 3) % 2 == 0 {
                assert(k - 3 == 2 * j);
                assert(0 <= j < t.rows.len());
                assert(body[2 * j] == content_line(t.rows[j], ws, t.col_sep));
            } else {
                assert(k - 3 == 2 * j + 1);
                assert(0 <= j < t.rows.len());
                assert(body[2 * j + 1] == rule);
            }
        }
    }
}

} // verus!
