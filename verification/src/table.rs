//! The table data model: titles, rows and separator characters, together with
//! the operations that build and mutate a table.

use vstd::prelude::*;

verus! {

/// A row of a table: one display string per column.
pub type Row = Vec<String>;

/// The errors that the table operations report.
#[derive(Clone, Copy, Debug, PartialEq, Eq, Structural)]
pub enum TableError {
    /// A row offered for insertion does not have one cell per column.
    RowArityError,
    /// A column index at or past the number of columns.
    ColumnIndexError,
    /// A row index at or past the number of rows.
    RowIndexError,
}

/// The mathematical model of a table: every string as a sequence of
/// characters, rows as a sequence of cell sequences, and the three
/// separator characters used by the renderer.
#[verifier::ext_equal]
pub struct TableModel {
    /// The title of each column, in column order.
    pub titles: Seq<Seq<char>>,
    /// The data rows, in insertion order; each row holds one cell per column.
    pub rows: Seq<Seq<Seq<char>>>,
    /// The character printed between cells of a content line.
    pub col_sep: char,
    /// The character a rule line is drawn with.
    pub line_sep: char,
    /// The character printed where a rule line crosses a column boundary.
    pub cross: char,
}

impl TableModel {
    /// A model is well formed when every row has exactly one cell per column.
    pub open spec fn wf(self) -> bool {
        forall|i: int|
            0 <= i < self.rows.len() ==> (#[trigger] self.rows[i]).len() == self.titles.len()
    }

    /// The titles and separator characters of `self` and `other` agree; only
    /// the data rows may differ.
    pub open spec fn same_frame(self, other: TableModel) -> bool {
        &&& self.titles == other.titles
        &&& self.col_sep == other.col_sep
        &&& self.line_sep == other.line_sep
        &&& self.cross == other.cross
    }
}

/// A printable table.
///
/// The number of columns is fixed at construction from the number of titles;
/// every row inserted afterwards must have exactly that many cells.
#[derive(Clone, Debug)]
pub struct Table {
    num_cols: usize,
    titles: Vec<String>,
    rows: Vec<Row>,
    col_sep: char,
    line_sep: char,
    sep_cross: char,
}

impl View for Table {
    type V = TableModel;

    closed spec fn view(&self) -> TableModel {
        TableModel {
            titles: self.titles.deep_view(),
            rows: self.rows.deep_view(),
            col_sep: self.col_sep,
            line_sep: self.line_sep,
            cross: self.sep_cross,
        }
    }
}

impl Table {
    /// The internal invariant: the stored column count agrees with the number
    /// of titles, and every stored row has one cell per column.  Constructors
    /// establish it and every method preserves it.
    pub closed spec fn wf(&self) -> bool {
        &&& self.num_cols == self.titles@.len()
        &&& self@.wf()
    }

    /// The model of a well-formed table is itself well formed: every row of
    /// the model has one cell per column.
    pub proof fn lemma_wf(&self)
        requires
            self.wf(),
        ensures
            self@.wf(),
    {
    }

    /// Create a new table whose number of columns equals the length of
    /// `titles`, with no rows and the default separators `|`, `-`, `+`.
    pub fn new(titles: Vec<String>) -> (t: Table)
        ensures
            t.wf(),
            t@.titles == titles.deep_view(),
            t@.rows == Seq::<Seq<Seq<char>>>::empty(),
            t@.col_sep == '|',
            t@.line_sep == '-',
            t@.cross == '+',
    {
        let n = titles.len();
        let t = Table {
            num_cols: n,
            titles,
            rows: Vec::new(),
            col_sep: '|',
            line_sep: '-',
            sep_cross: '+',
        };
        proof {
            assert(t@.rows =~= Seq::<Seq<Seq<char>>>::empty());
        }
        t
    }

    /// Change the separator characters used by the renderer.
    ///
    /// `col` is printed between cells, `line` draws the rule lines, and
    /// `cross` is printed where a rule line meets a column boundary.
    pub fn separators(&mut self, col: char, line: char, cross: char)
        requires
            old(self).wf(),
        ensures
            final(self).wf(),
            final(self)@ == (TableModel {
                col_sep: col,
                line_sep: line,
                cross: cross,
                ..old(self)@
            }),
    {
        self.col_sep = col;
        self.line_sep = line;
        self.sep_cross = cross;
    }

    /// The number of columns.
    pub fn get_column_num(&self) -> (n: usize)
        requires
            self.wf(),
        ensures
            n == self@.titles.len(),
    {
        self.num_cols
    }

    /// The number of rows.
    pub fn len(&self) -> (n: usize)
        requires
            self.wf(),
        ensures
            n == self@.rows.len(),
    {
        self.rows.len()
    }

    /// A mutable reference to the row at index `row`, which must be in
    /// bounds: this is the unchecked fast path, for callers that have
    /// already validated the index ([`Table::get_row`] is the checked
    /// lookup).  The table stays well formed as long as the caller leaves
    /// the row with one cell per column.
    pub fn get_mut_row(&mut self, row: usize) -> (r: &mut Row)
        requires
            old(self).wf(),
            row < old(self)@.rows.len(),
        ensures
            r.deep_view() == old(self)@.rows[row as int],
            final(self)@.rows =~= old(self)@.rows.update(row as int, final(r).deep_view()),
            final(self)@.same_frame(old(self)@),
            final(r).deep_view().len() == old(self)@.titles.len() ==> final(self).wf(),
    {
        &mut self.rows[row]
    }

    /// The title of column `col`, for the renderer.
    pub(crate) fn title_at(&self, col: usize) -> (s: &String)
        requires
            self.wf(),
            col < self@.titles.len(),
        ensures
            s@ == self@.titles[col as int],
    {
        &self.titles[col]
    }

    /// The titles, as the row the renderer lays out like any other.
    pub(crate) fn titles_ref(&self) -> (r: &Row)
        requires
            self.wf(),
        ensures
            r.deep_view() == self@.titles,
    {
        &self.titles
    }

    /// The row at index `row`, for the renderer; the index must be in bounds.
    pub(crate) fn row_at(&self, row: usize) -> (r: &Row)
        requires
            self.wf(),
            row < self@.rows.len(),
        ensures
            r.deep_view() == self@.rows[row as int],
    {
        &self.rows[row]
    }

    /// The cell at (`row`, `col`); both indices must be in bounds.
    pub(crate) fn cell_at(&self, row: usize, col: usize) -> (s: &String)
        requires
            self.wf(),
            row < self@.rows.len(),
            col < self@.titles.len(),
        ensures
            s@ == self@.rows[row as int][col as int],
    {
        proof {
            assert(self@.rows[row as int].len() == self@.titles.len());
        }
        &self.rows[row][col]
    }

    /// The column separator character.
    pub(crate) fn col_sep_char(&self) -> (c: char)
        ensures
            c == self@.col_sep,
    {
        self.col_sep
    }

    /// The rule character.
    pub(crate) fn line_sep_char(&self) -> (c: char)
        ensures
            c == self@.line_sep,
    {
        self.line_sep
    }

    /// The corner character.
    pub(crate) fn cross_char(&self) -> (c: char)
        ensures
            c == self@.cross,
    {
        self.sep_cross
    }

    /// An immutable reference to the row at index `row`, or
    /// [`TableError::RowIndexError`] when the index is out of bounds.
    pub fn get_row(&self, row: usize) -> (r: Result<&Row, TableError>)
        requires
            self.wf(),
        ensures
            row < self@.rows.len() ==> (r matches Ok(v) && v.deep_view() == self@.rows[row as int]),
            row >= self@.rows.len() ==> r == Err::<&Row, TableError>(TableError::RowIndexError),
    {
        if row < self.rows.len() {
            Ok(&self.rows[row])
        } else {
            Err(TableError::RowIndexError)
        }
    }

    /// Append `row` to the table and return its index.
    ///
    /// The row is taken only when it has exactly one cell per column;
    /// otherwise nothing changes and [`TableError::RowArityError`] is
    /// reported.
    pub fn add_row(&mut self, row: Row) -> (r: Result<usize, TableError>)
        requires
            old(self).wf(),
        ensures
            final(self).wf(),
            final(self)@.same_frame(old(self)@),
            row.deep_view().len() == old(self)@.titles.len() ==> (r == Ok::<usize, TableError>(
                old(self)@.rows.len() as usize,
            ) && final(self)@.rows == old(self)@.rows.push(row.deep_view())),
            row.deep_view().len() != old(self)@.titles.len() ==> (r == Err::<usize, TableError>(
                TableError::RowArityError,
            ) && final(self)@ == old(self)@),
    {
        if row.len() != self.num_cols {
            return Err(TableError::RowArityError);
        }
        let idx = self.rows.len();
        self.rows.push(row);
        proof {
            assert(self@.rows =~= old(self)@.rows.push(row.deep_view()));
        }
        Ok(idx)
    }

    /// Append a row of empty cells, one per column, and return its index.
    pub fn add_empty_row(&mut self) -> (r: Result<usize, TableError>)
        requires
            old(self).wf(),
        ensures
            final(self).wf(),
            final(self)@.same_frame(old(self)@),
            r == Ok::<usize, TableError>(old(self)@.rows.len() as usize),
            final(self)@.rows == old(self)@.rows.push(
                Seq::new(old(self)@.titles.len(), |i: int| Seq::<char>::empty()),
            ),
    {
        let n = self.num_cols;
        let mut row: Row = Vec::new();
        for k in 0..n
            invariant
                row@.len() == k,
                forall|i: int| 0 <= i < k ==> (#[trigger] row@[i])@ == Seq::<char>::empty(),
        {
            row.push(String::new());
        }
        proof {
            assert(row.deep_view() =~= Seq::new(
                old(self)@.titles.len(),
                |i: int| Seq::<char>::empty(),
            ));
        }
        self.add_row(row)
    }

    /// Overwrite the cell at (`row`, `column`) with `element`.
    ///
    /// Reports [`TableError::ColumnIndexError`] when `column` is at or past
    /// the number of columns and [`TableError::RowIndexError`] when `row` is
    /// at or past the number of rows; on either error nothing changes.
    pub fn set_element(&mut self, element: String, column: usize, row: usize) -> (r: Result<
        (),
        TableError,
    >)
        requires
            old(self).wf(),
        ensures
            final(self).wf(),
            final(self)@.same_frame(old(self)@),
            column >= old(self)@.titles.len() ==> (r == Err::<(), TableError>(
                TableError::ColumnIndexError,
            ) && final(self)@ == old(self)@),
            column < old(self)@.titles.len() && row >= old(self)@.rows.len() ==> (r == Err::<
                (),
                TableError,
            >(TableError::RowIndexError) && final(self)@ == old(self)@),
            column < old(self)@.titles.len() && row < old(self)@.rows.len() ==> (r == Ok::<
                (),
                TableError,
            >(()) && final(self)@.rows == old(self)@.rows.update(
                row as int,
                old(self)@.rows[row as int].update(column as int, element@),
            )),
    {
        if column >= self.num_cols {
            return Err(TableError::ColumnIndexError);
        }
        if row >= self.rows.len() {
            return Err(TableError::RowIndexError);
        }
        let rowline = self.get_mut_row(row);
        rowline[column] = element;
        proof {
            assert(rowline.deep_view() =~= old(self)@.rows[row as int].update(
                column as int,
                element@,
            ));
        }
        proof {
            assert(self@.rows =~= old(self)@.rows.update(
                row as int,
                old(self)@.rows[row as int].update(column as int, element@),
            ));
        }
        Ok(())
    }

    /// Remove the row at index `row`, shifting the rows behind it down by
    /// one; an out-of-range index is silently skipped.
    pub fn remove_row(&mut self, row: usize)
        requires
            old(self).wf(),
        ensures
            final(self).wf(),
            final(self)@.same_frame(old(self)@),
            row < old(self)@.rows.len() ==> final(self)@.rows == old(self)@.rows.remove(
                row as int,
            ),
            row >= old(self)@.rows.len() ==> final(self)@ == old(self)@,
    {
        if row < self.rows.len() {
            self.rows.remove(row);
            proof {
                assert(self@.rows =~= old(self)@.rows.remove(row as int));
            }
        }
    }
}

} // verus!
