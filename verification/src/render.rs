//! The layout engine and the renderer: column widths, the shape of rule and
//! content lines, and the functions that stream a table's rendering to a sink.

use vstd::prelude::*;
use vstd::string::StrSliceExecFns;
use vstd::string::StringExecFns;
use crate::sink::Sink;
use crate::sink::StringWriter;
use crate::table::Row;
use crate::table::Table;
use crate::table::TableError;
use crate::table::TableModel;

verus! {

/// The errors a rendering operation reports.
#[derive(Clone, Copy, Debug, PartialEq, Eq, Structural)]
pub enum RenderError {
    /// A sink refused a write or a flush.
    IOFailure,
    /// Bytes handed to a text sink were not valid text.
    EncodingFailure,
}

/// `n` repetitions of the character `c`.
pub open spec fn repeat_char(c: char, n: nat) -> Seq<char> {
    Seq::new(n, |i: int| c)
}

/// How many pad characters bring a cell of length `len` up to `width`:
/// `width - len`, or none when the cell is already wider.
pub open spec fn pad_len(width: int, len: int) -> int {
    if width >= len {
        width - len
    } else {
        0
    }
}

/// The width of column `col` over the data rows alone, starting from the
/// width `base` of the column's title: the maximum of `base` and the length
/// of every row's cell in that column.
pub open spec fn col_width_over(rows: Seq<Seq<Seq<char>>>, base: nat, col: int) -> nat
    decreases rows.len(),
{
    if rows.len() == 0 {
        base
    } else {
        let rest = col_width_over(rows.drop_last(), base, col);
        if rows.last()[col].len() > rest {
            rows.last()[col].len()
        } else {
            rest
        }
    }
}

/// The width of column `col` of table `t`: the maximum character length of
/// the column's title and of every row's cell in that column.
pub open spec fn col_width(t: TableModel, col: int) -> nat {
    col_width_over(t.rows, t.titles[col].len(), col)
}

/// All column widths of table `t`, in column order.
pub open spec fn widths_of(t: TableModel) -> Seq<nat> {
    Seq::new(t.titles.len(), |i: int| col_width(t, i))
}

/// A vector of computed widths, as the sequence of numbers it stands for.
pub open spec fn widths_nat(ws: Seq<usize>) -> Seq<nat> {
    ws.map_values(|w: usize| w as nat)
}

/// A rule line for the given column widths: a corner character, then for
/// each column `width + 2` rule characters followed by a corner character.
pub open spec fn rule_line(widths: Seq<nat>, rule: char, corner: char) -> Seq<char>
    decreases widths.len(),
{
    if widths.len() == 0 {
        seq![corner]
    } else {
        rule_line(widths.drop_last(), rule, corner) + repeat_char(rule, widths.last() + 2)
            + seq![corner]
    }
}

/// A content line: a separator, then for each column a space, the cell, a
/// space, enough further spaces to pad the cell to the column's width, and a
/// separator.  `cells` and `widths` are paired per column.
pub open spec fn content_line(cells: Seq<Seq<char>>, widths: Seq<nat>, sep: char) -> Seq<char>
    decreases cells.len(),
{
    if cells.len() == 0 {
        seq![sep]
    } else {
        content_line(cells.drop_last(), widths.drop_last(), sep) + seq![' '] + cells.last()
            + seq![' ']
            + repeat_char(' ', pad_len(widths.last() as int, cells.last().len() as int) as nat)
            + seq![sep]
    }
}

/// The line pair emitted for each data row: its content line, then a rule
/// line (already given as `rule`).
pub open spec fn row_lines(
    rows: Seq<Seq<Seq<char>>>,
    widths: Seq<nat>,
    sep: char,
    rule: Seq<char>,
) -> Seq<Seq<char>>
    decreases rows.len(),
{
    if rows.len() == 0 {
        Seq::empty()
    } else {
        row_lines(rows.drop_last(), widths, sep, rule) + seq![
            content_line(rows.last(), widths, sep),
            rule,
        ]
    }
}

/// Every line of a full render of table `t`, in order and without line
/// terminators: a rule line, the title line, a rule line, then a content
/// line and a rule line for each data row.
pub open spec fn render_lines(t: TableModel) -> Seq<Seq<char>> {
    let rule = rule_line(widths_of(t), t.line_sep, t.cross);
    seq![rule, content_line(t.titles, widths_of(t), t.col_sep), rule] + row_lines(
        t.rows,
        widths_of(t),
        t.col_sep,
        rule,
    )
}

/// The given lines joined into one text, each line followed by the line
/// terminator.
pub open spec fn lines_joined(lines: Seq<Seq<char>>, terminator: Seq<char>) -> Seq<char>
    decreases lines.len(),
{
    if lines.len() == 0 {
        Seq::empty()
    } else {
        lines_joined(lines.drop_last(), terminator) + lines.last() + terminator
    }
}

/// The complete text of a render of table `t` with the given line
/// terminator.
pub open spec fn rendered(t: TableModel, terminator: Seq<char>) -> Seq<char> {
    lines_joined(render_lines(t), terminator)
}

impl Table {
    /// The width of column `col_idx`: the maximum character length of the
    /// column's title and of every row's cell in that column.  Reports
    /// [`TableError::ColumnIndexError`] when `col_idx` is at or past the
    /// number of columns.
    pub fn get_col_width(&self, col_idx: usize) -> (r: Result<usize, TableError>)
        requires
            self.wf(),
        ensures
            col_idx < self@.titles.len() ==> (r matches Ok(w) && w == col_width(
                self@,
                col_idx as int,
            )),
            col_idx >= self@.titles.len() ==> r == Err::<usize, TableError>(
                TableError::ColumnIndexError,
            ),
    {
        if col_idx >= self.get_column_num() {
            return Err(TableError::ColumnIndexError);
        }
        let mut width: usize = self.title_at(col_idx).as_str().unicode_len();
        let n = self.len();
        for i in 0..n
            invariant
                self.wf(),
                n == self@.rows.len(),
                col_idx < self@.titles.len(),
                width == col_width_over(
                    self@.rows.take(i as int),
                    self@.titles[col_idx as int].len(),
                    col_idx as int,
                ),
        {
            let l = self.cell_at(i, col_idx).as_str().unicode_len();
            if l > width {
                width = l;
            }
            proof {
                assert(self@.rows.take(i + 1).drop_last() =~= self@.rows.take(i as int));
            }
        }
        proof {
            assert(self@.rows.take(self@.rows.len() as int) =~= self@.rows);
        }
        Ok(width)
    }
}

/// Relies on `String::push`: appends the character to the end of the string.
#[verifier::external_body]
fn push_char(s: &mut String, c: char)
    ensures
        final(s)@ == old(s)@ + seq![c],
{
    s.push(c);
}

/// Joining one more line appends that line and the terminator.
proof fn lemma_lines_joined_push(lines: Seq<Seq<char>>, x: Seq<char>, term: Seq<char>)
    ensures
        lines_joined(lines.push(x), term) == lines_joined(lines, term) + x + term,
{
    assert(lines.push(x).drop_last() =~= lines);
    assert(lines.push(x).last() == x);
}

/// The joined text of exactly three lines, written out.
proof fn lemma_lines_joined3(a: Seq<char>, b: Seq<char>, c: Seq<char>, term: Seq<char>)
    ensures
        lines_joined(seq![a, b, c], term) =~= a + term + b + term + c + term,
{
    let e = Seq::<Seq<char>>::empty();
    lemma_lines_joined_push(e, a, term);
    lemma_lines_joined_push(e.push(a), b, term);
    lemma_lines_joined_push(e.push(a).push(b), c, term);
    assert(e.push(a).push(b).push(c) =~= seq![a, b, c]);
}

impl Table {
    /// Write one rule line and a line terminator to `out`: a corner
    /// character, then per column `col_width[i] + 2` rule characters and a
    /// corner character.
    pub fn print_line_separator<S: Sink>(
        &self,
        out: &mut S,
        col_width: &Vec<usize>,
        terminator: &str,
    ) -> (r: Result<(), RenderError>)
        requires
            self.wf(),
            col_width@.len() == self@.titles.len(),
        ensures
            r is Ok ==> final(out).content() == old(out).content() + rule_line(
                widths_nat(col_width@),
                self@.line_sep,
                self@.cross,
            ) + terminator@,
            old(out).infallible() ==> r is Ok,
            final(out).infallible() == old(out).infallible(),
    {
        let mut line = String::new();
        push_char(&mut line, self.cross_char());
        let n = self.get_column_num();
        proof {
            assert(widths_nat(col_width@).take(0) =~= Seq::<nat>::empty());
            assert(line@ =~= rule_line(
                widths_nat(col_width@).take(0),
                self@.line_sep,
                self@.cross,
            ));
        }
        for i in 0..n
            invariant
                self.wf(),
                n == self@.titles.len(),
                col_width@.len() == n,
                line@ == rule_line(
                    widths_nat(col_width@).take(i as int),
                    self@.line_sep,
                    self@.cross,
                ),
        {
            let w = col_width[i];
            let ghost base = line@;
            let mut j: usize = 0;
            while j < w
                invariant
                    j <= w,
                    line@ == base + repeat_char(self@.line_sep, j as nat),
                decreases w - j,
            {
                push_char(&mut line, self.line_sep_char());
                j += 1;
                proof {
                    assert(base + repeat_char(self@.line_sep, j as nat) =~= base + repeat_char(
                        self@.line_sep,
                        (j - 1) as nat,
                    ) + seq![self@.line_sep]);
                }
            }
            push_char(&mut line, self.line_sep_char());
            push_char(&mut line, self.line_sep_char());
            push_char(&mut line, self.cross_char());
            proof {
                let ws = widths_nat(col_width@);
                assert(ws.take(i + 1).drop_last() =~= ws.take(i as int));
                assert(ws.take(i + 1).last() == ws[i as int]);
                assert(line@ =~= rule_line(ws.take(i as int), self@.line_sep, self@.cross)
                    + repeat_char(self@.line_sep, (w + 2) as nat) + seq![self@.cross]);
                assert(line@ =~= rule_line(ws.take(i + 1), self@.line_sep, self@.cross));
            }
        }
        proof {
            assert(widths_nat(col_width@).take(col_width@.len() as int) =~= widths_nat(
                col_width@,
            ));
        }
        match out.write_str(line.as_str()) {
            Ok(_) => {}
            Err(e) => {
                return Err(e);
            }
        }
        match out.write_str(terminator) {
            Ok(_) => {}
            Err(e) => {
                return Err(e);
            }
        }
        Ok(())
    }

    /// Write one content line and a line terminator to `out`: a separator,
    /// then per column a space, the cell of `line`, a space, enough further
    /// spaces to pad the cell to `col_width[i]`, and a separator.
    pub fn print_line<S: Sink>(
        &self,
        out: &mut S,
        line: &Row,
        col_width: &Vec<usize>,
        terminator: &str,
    ) -> (r: Result<(), RenderError>)
        requires
            self.wf(),
            col_width@.len() == self@.titles.len(),
            line.deep_view().len() == self@.titles.len(),
        ensures
            r is Ok ==> final(out).content() == old(out).content() + content_line(
                line.deep_view(),
                widths_nat(col_width@),
                self@.col_sep,
            ) + terminator@,
            old(out).infallible() ==> r is Ok,
            final(out).infallible() == old(out).infallible(),
    {
        let mut s = String::new();
        push_char(&mut s, self.col_sep_char());
        let n = self.get_column_num();
        proof {
            assert(line.deep_view().take(0) =~= Seq::<Seq<char>>::empty());
            assert(s@ =~= content_line(
                line.deep_view().take(0),
                widths_nat(col_width@).take(0),
                self@.col_sep,
            ));
        }
        for i in 0..n
            invariant
                self.wf(),
                n == self@.titles.len(),
                col_width@.len() == n,
                line.deep_view().len() == n,
                s@ == content_line(
                    line.deep_view().take(i as int),
                    widths_nat(col_width@).take(i as int),
                    self@.col_sep,
                ),
        {
            push_char(&mut s, ' ');
            proof {
                assert(line@.len() == line.deep_view().len());
            }
            let cell = &line[i];
            s.append(cell.as_str());
            push_char(&mut s, ' ');
            let cl = cell.as_str().unicode_len();
            let w = col_width[i];
            let pad = if w > cl {
                w - cl
            } else {
                0
            };
            let ghost base = s@;
            let mut j: usize = 0;
            while j < pad
                invariant
                    j <= pad,
                    s@ == base + repeat_char(' ', j as nat),
                decreases pad - j,
            {
                push_char(&mut s, ' ');
                j += 1;
                proof {
                    assert(base + repeat_char(' ', j as nat) =~= base + repeat_char(
                        ' ',
                        (j - 1) as nat,
                    ) + seq![' ']);
                }
            }
            push_char(&mut s, self.col_sep_char());
            proof {
                let cs = line.deep_view();
                let ws = widths_nat(col_width@);
                assert(cs.take(i + 1).drop_last() =~= cs.take(i as int));
                assert(ws.take(i + 1).drop_last() =~= ws.take(i as int));
                assert(cs.take(i + 1).last() == cs[i as int]);
                assert(ws.take(i + 1).last() == ws[i as int]);
                assert(cell@ == cs[i as int]);
                assert(pad == pad_len(ws[i as int] as int, cs[i as int].len() as int));
                assert(s@ =~= content_line(cs.take(i as int), ws.take(i as int), self@.col_sep)
                    + seq![' '] + cs[i as int] + seq![' '] + repeat_char(
                    ' ',
                    pad_len(ws[i as int] as int, cs[i as int].len() as int) as nat,
                ) + seq![self@.col_sep]);
                assert(s@ =~= content_line(cs.take(i + 1), ws.take(i + 1), self@.col_sep));
            }
        }
        proof {
            assert(line.deep_view().take(line.deep_view().len() as int) =~= line.deep_view());
            assert(widths_nat(col_width@).take(col_width@.len() as int) =~= widths_nat(
                col_width@,
            ));
        }
        match out.write_str(s.as_str()) {
            Ok(_) => {}
            Err(e) => {
                return Err(e);
            }
        }
        match out.write_str(terminator) {
            Ok(_) => {}
            Err(e) => {
                return Err(e);
            }
        }
        Ok(())
    }

    /// Render the whole table to `out` and flush it, every line ended with
    /// `terminator`: a rule line, the title line, a rule line, then a
    /// content line and a rule line for each data row.  On success the
    /// sink's content grows by exactly the rendered text; when a write
    /// fails, the sink may be left partially written.
    pub fn print<S: Sink>(&self, out: &mut S, terminator: &str) -> (r: Result<(), RenderError>)
        requires
            self.wf(),
        ensures
            r is Ok ==> final(out).content() == old(out).content() + rendered(
                self@,
                terminator@,
            ),
            old(out).infallible() ==> r is Ok,
            final(out).infallible() == old(out).infallible(),
    {
        let n = self.get_column_num();
        let mut widths: Vec<usize> = Vec::new();
        for i in 0..n
            invariant
                self.wf(),
                n == self@.titles.len(),
                widths@.len() == i,
                forall|k: int| 0 <= k < i ==> widths@[k] == col_width(self@, k),
        {
            let w = match self.get_col_width(i) {
                Ok(w) => w,
                Err(_) => 0,
            };
            widths.push(w);
        }
        proof {
            assert(widths_nat(widths@) =~= widths_of(self@));
        }
        let ghost c0 = out.content();
        let ghost inf0 = out.infallible();
        let ghost ws = widths_of(self@);
        let ghost rule = rule_line(ws, self@.line_sep, self@.cross);
        let ghost title = content_line(self@.titles, ws, self@.col_sep);
        let ghost term = terminator@;
        match self.print_line_separator(out, &widths, terminator) {
            Ok(_) => {}
            Err(e) => {
                return Err(e);
            }
        }
        match self.print_line(out, self.titles_ref(), &widths, terminator) {
            Ok(_) => {}
            Err(e) => {
                return Err(e);
            }
        }
        match self.print_line_separator(out, &widths, terminator) {
            Ok(_) => {}
            Err(e) => {
                return Err(e);
            }
        }
        proof {
            lemma_lines_joined3(rule, title, rule, term);
            assert(out.content() =~= c0 + lines_joined(seq![rule, title, rule], term));
            assert(row_lines(self@.rows.take(0), ws, self@.col_sep, rule) =~= Seq::<
                Seq<char>,
            >::empty());
            assert(seq![rule, title, rule] + row_lines(self@.rows.take(0), ws, self@.col_sep, rule)
                =~= seq![rule, title, rule]);
        }
        let m = self.len();
        for i in 0..m
            invariant
                self.wf(),
                m == self@.rows.len(),
                widths@.len() == self@.titles.len(),
                widths_nat(widths@) == ws,
                ws == widths_of(self@),
                rule == rule_line(ws, self@.line_sep, self@.cross),
                term == terminator@,
                c0 == old(out).content(),
                inf0 == old(out).infallible(),
                out.content() == c0 + lines_joined(
                    seq![rule, title, rule] + row_lines(
                        self@.rows.take(i as int),
                        ws,
                        self@.col_sep,
                        rule,
                    ),
                    term,
                ),
                out.infallible() == inf0,
        {
            proof {
                self.lemma_wf();
                assert(self@.rows[i as int].len() == self@.titles.len());
            }
            match self.print_line(out, self.row_at(i), &widths, terminator) {
                Ok(_) => {}
                Err(e) => {
                    return Err(e);
                }
            }
            match self.print_line_separator(out, &widths, terminator) {
                Ok(_) => {}
                Err(e) => {
                    return Err(e);
                }
            }
            proof {
                let prev = seq![rule, title, rule] + row_lines(
                    self@.rows.take(i as int),
                    ws,
                    self@.col_sep,
                    rule,
                );
                let cl = content_line(self@.rows[i as int], ws, self@.col_sep);
                assert(self@.rows.take(i + 1).drop_last() =~= self@.rows.take(i as int));
                assert(self@.rows.take(i + 1).last() == self@.rows[i as int]);
                assert(row_lines(self@.rows.take(i + 1), ws, self@.col_sep, rule) =~= row_lines(
                    self@.rows.take(i as int),
                    ws,
                    self@.col_sep,
                    rule,
                ) + seq![cl, rule]);
                lemma_lines_joined_push(prev, cl, term);
                lemma_lines_joined_push(prev.push(cl), rule, term);
                assert(seq![rule, title, rule] + row_lines(
                    self@.rows.take(i + 1),
                    ws,
                    self@.col_sep,
                    rule,
                ) =~= prev.push(cl).push(rule));
                assert(out.content() =~= c0 + lines_joined(prev.push(cl).push(rule), term));
            }
        }
        proof {
            assert(self@.rows.take(m as int) =~= self@.rows);
            assert(seq![rule, title, rule] + row_lines(self@.rows, ws, self@.col_sep, rule)
                =~= render_lines(self@));
        }
        match out.flush() {
            Ok(_) => {}
            Err(e) => {
                return Err(e);
            }
        }
        Ok(())
    }

    /// Render the whole table into a fresh `String`, every line ended with
    /// `terminator`.  Rendering to memory never fails, so the result is
    /// always the rendered text.
    pub fn render_to_string(&self, terminator: &str) -> (r: Result<String, RenderError>)
        requires
            self.wf(),
        ensures
            r matches Ok(s) && s@ == rendered(self@, terminator@),
    {
        let mut w = StringWriter::new();
        match self.print(&mut w, terminator) {
            Ok(_) => Ok(w.into_string()),
            Err(e) => Err(e),
        }
    }
}

} // verus!
