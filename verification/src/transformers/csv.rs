//! The fixed-width table renderer behind the `csv` command: a header row and
//! a rectangular matrix of data rows, rendered between border lines.

use vstd::prelude::*;
use crate::text::{chars_to_string, split_at, split_chars, str_chars};
use crate::transformers::PipelineError;

verus! {

/// The lines of a raw table payload: the pieces between newlines, without
/// the absent line that a trailing newline would otherwise contribute.
pub open spec fn csv_lines(s: Seq<char>) -> Seq<Seq<char>> {
    let ls = split_at(s, '\n');
    if ls.len() > 1 && ls.last().len() == 0 {
        ls.drop_last()
    } else {
        ls
    }
}

/// The header cells of a raw table payload: its first line split on commas.
pub open spec fn csv_header(s: Seq<char>) -> Seq<Seq<char>> {
    split_at(csv_lines(s)[0], ',')
}

/// The data rows of a raw table payload: every later line split on commas.
pub open spec fn csv_rows(s: Seq<char>) -> Seq<Seq<Seq<char>>> {
    Seq::new((csv_lines(s).len() - 1) as nat, |i: int| split_at(csv_lines(s)[i + 1], ','))
}

/// The index of the first row whose cell count differs from `cols`, or -1 if
/// every row matches.
pub open spec fn first_mismatch(rows: Seq<Seq<Seq<char>>>, cols: nat) -> int
    decreases rows.len(),
{
    if rows.len() == 0 {
        -1
    } else if rows[0].len() != cols {
        0
    } else {
        let r = first_mismatch(rows.drop_first(), cols);
        if r < 0 {
            -1
        } else {
            r + 1
        }
    }
}

pub proof fn lemma_first_mismatch_prefix(rows: Seq<Seq<Seq<char>>>, cols: nat, j: int)
    requires
        0 <= j <= rows.len(),
        forall|t: int| 0 <= t < j ==> #[trigger] rows[t].len() == cols,
    ensures
        j < rows.len() && rows[j].len() != cols ==> first_mismatch(rows, cols) == j,
        j == rows.len() ==> first_mismatch(rows, cols) == -1,
    decreases rows.len(),
{
    if rows.len() > 0 && j > 0 {
        lemma_first_mismatch_prefix(rows.drop_first(), cols, j - 1);
    }
}

/// The larger of two widths.
pub open spec fn max2(a: nat, b: nat) -> nat {
    if a >= b {
        a
    } else {
        b
    }
}

/// The widest cell of one row, in characters.
pub open spec fn row_max_w(cells: Seq<Seq<char>>) -> nat
    decreases cells.len(),
{
    if cells.len() == 0 {
        0
    } else {
        max2(row_max_w(cells.drop_last()), cells.last().len())
    }
}

/// The widest cell of the whole table, header included, in characters.
pub open spec fn table_max_w(header: Seq<Seq<char>>, rows: Seq<Seq<Seq<char>>>) -> nat
    decreases rows.len(),
{
    if rows.len() == 0 {
        row_max_w(header)
    } else {
        max2(table_max_w(header, rows.drop_last()), row_max_w(rows.last()))
    }
}

pub proof fn lemma_row_max_w(cells: Seq<Seq<char>>)
    ensures
        forall|i: int| 0 <= i < cells.len() ==> #[trigger] cells[i].len() <= row_max_w(cells),
    decreases cells.len(),
{
    if cells.len() > 0 {
        lemma_row_max_w(cells.drop_last());
        assert forall|i: int| 0 <= i < cells.len() implies #[trigger] cells[i].len()
            <= row_max_w(cells) by {
            if i < cells.len() - 1 {
                assert(cells.drop_last()[i] == cells[i]);
            }
        }
    }
}

pub proof fn lemma_table_max_w(header: Seq<Seq<char>>, rows: Seq<Seq<Seq<char>>>)
    ensures
        row_max_w(header) <= table_max_w(header, rows),
        forall|k: int|
            0 <= k < rows.len() ==> #[trigger] row_max_w(rows[k]) <= table_max_w(header, rows),
    decreases rows.len(),
{
    if rows.len() > 0 {
        lemma_table_max_w(header, rows.drop_last());
        assert forall|k: int| 0 <= k < rows.len() implies #[trigger] row_max_w(rows[k])
            <= table_max_w(header, rows) by {
            if k < rows.len() - 1 {
                assert(rows.drop_last()[k] == rows[k]);
            }
        }
    }
}

/// How many spaces pad a cell of `len` characters to the width `w`.
pub open spec fn pad_width(len: nat, w: nat) -> nat {
    if len <= w {
        (w - len) as nat
    } else {
        0
    }
}

/// `n` space characters.
pub open spec fn spaces(n: nat) -> Seq<char> {
    Seq::new(n, |i: int| ' ')
}

/// Each cell right-padded to the width `w` and followed by the separator.
pub open spec fn render_cells(cells: Seq<Seq<char>>, w: nat, sep: char) -> Seq<char>
    decreases cells.len(),
{
    if cells.len() == 0 {
        Seq::<char>::empty()
    } else {
        cells[0] + spaces(pad_width(cells[0].len(), w)) + seq![sep] + render_cells(
            cells.drop_first(),
            w,
            sep,
        )
    }
}

/// One rendered table row: the separator, the padded cells, a newline.
pub open spec fn render_row(cells: Seq<Seq<char>>, w: nat, sep: char) -> Seq<char> {
    seq![sep] + render_cells(cells, w, sep) + seq!['\n']
}

/// The rendered data rows, in order.
pub open spec fn render_rows(rows: Seq<Seq<Seq<char>>>, w: nat, sep: char) -> Seq<char>
    decreases rows.len(),
{
    if rows.len() == 0 {
        Seq::<char>::empty()
    } else {
        render_row(rows[0], w, sep) + render_rows(rows.drop_first(), w, sep)
    }
}

/// A border line: `tw` repetitions of the header separator, then a newline.
pub open spec fn border(tw: nat, hsep: char) -> Seq<char> {
    Seq::new(tw, |i: int| hsep) + seq!['\n']
}

/// The whole rendered table: border, header row, border, data rows, border.
pub open spec fn spec_render(
    header: Seq<Seq<char>>,
    rows: Seq<Seq<Seq<char>>>,
    hsep: char,
) -> Seq<char> {
    let w = table_max_w(header, rows);
    let cols = header.len();
    let tw = w * cols + cols + 1;
    border(tw, hsep) + render_row(header, w, '|') + border(tw, hsep) + render_rows(rows, w, '|')
        + border(tw, hsep)
}

/// Whether the table's computed width fits the machine's word size.
pub open spec fn csv_dims_ok(s: Seq<char>) -> bool {
    table_max_w(csv_header(s), csv_rows(s)) * csv_header(s).len() + csv_header(s).len() + 1
        <= usize::MAX
}

/// What building a table from a raw payload yields: the rendered table, or
/// the first row whose cell count differs from the header's.
pub open spec fn spec_to_csv(s: Seq<char>) -> Result<Seq<char>, PipelineError> {
    let header = csv_header(s);
    let rows = csv_rows(s);
    let m = first_mismatch(rows, header.len());
    if m >= 0 {
        Err(
            PipelineError::ColumnMismatch {
                line: (m + 1) as usize,
                expected: header.len() as usize,
            },
        )
    } else {
        Ok(spec_render(header, rows, '='))
    }
}

/// Appends `tw` repetitions of `hsep` and a newline to `out`.
fn push_border(tw: usize, hsep: char, out: &mut Vec<char>)
    ensures
        final(out)@ == old(out)@ + border(tw as nat, hsep),
{
    let ghost base = out@;
    let mut i: usize = 0;
    while i < tw
        invariant
            i <= tw,
            out@ == base + Seq::new(i as nat, |j: int| hsep),
        decreases tw - i,
    {
        out.push(hsep);
        i = i + 1;
        proof {
            assert(out@ =~= base + Seq::new(i as nat, |j: int| hsep));
        }
    }
    out.push('\n');
    proof {
        assert(out@ =~= base + border(tw as nat, hsep));
    }
}

/// Appends one rendered row to `out`: the separator, each cell right-padded
/// to the width `w` and followed by the separator, then a newline.
fn push_row_chars(cells: &Vec<String>, w: usize, sep: char, out: &mut Vec<char>)
    requires
        forall|i: int| 0 <= i < cells@.len() ==> (#[trigger] cells@[i])@.len() <= w,
    ensures
        final(out)@ == old(out)@ + render_row(cells.deep_view(), w as nat, sep),
{
    let ghost base = out@;
    let ghost dv = cells.deep_view();
    out.push(sep);
    let mut i: usize = 0;
    proof {
        assert(dv.skip(0) =~~= dv);
    }
    while i < cells.len()
        invariant
            i <= cells.len(),
            dv == cells.deep_view(),
            dv.len() == cells@.len(),
            forall|t: int| 0 <= t < cells@.len() ==> (#[trigger] cells@[t])@.len() <= w,
            out@ + render_cells(dv.skip(i as int), w as nat, sep) == base + seq![sep]
                + render_cells(dv, w as nat, sep),
        decreases cells.len() - i,
    {
        let ghost suffix = dv.skip(i as int);
        let ghost entry = out@;
        proof {
            assert(suffix[0] == dv[i as int]);
            assert(dv[i as int] == cells@[i as int]@);
            assert(suffix.drop_first() =~~= dv.skip(i as int + 1));
        }
        let mut cell = str_chars(cells[i].as_str());
        let n = cell.len();
        out.append(&mut cell);
        let ghost mid = out@;
        let mut k: usize = n;
        while k < w
            invariant
                n <= k <= w,
                out@ == mid + spaces((k - n) as nat),
            decreases w - k,
        {
            out.push(' ');
            k = k + 1;
            proof {
                assert(out@ =~= mid + spaces((k - n) as nat));
            }
        }
        out.push(sep);
        i = i + 1;
        proof {
            assert(out@ =~= entry + (suffix[0] + spaces(pad_width(suffix[0].len(), w as nat))
                + seq![sep]));
            assert(render_cells(suffix, w as nat, sep) == suffix[0] + spaces(
                pad_width(suffix[0].len(), w as nat),
            ) + seq![sep] + render_cells(dv.skip(i as int), w as nat, sep));
            assert(out@ + render_cells(dv.skip(i as int), w as nat, sep) =~= base + seq![sep]
                + render_cells(dv, w as nat, sep));
        }
    }
    proof {
        assert(dv.skip(i as int) =~~= Seq::<Seq<char>>::empty());
        assert(out@ =~= base + seq![sep] + render_cells(dv, w as nat, sep));
    }
    out.push('\n');
    proof {
        assert(out@ =~= base + render_row(dv, w as nat, sep));
    }
}

/// One row of the table (the header is one too), rendered between copies of
/// the column separator.
pub struct Row<'a> {
    pub cell_width: usize,
    pub column_sep: char,
    pub data: &'a Vec<String>,
}

impl<'a> Row<'a> {
    /// Renders this row: the separator, each cell right-padded to
    /// `cell_width`, the separator again after every cell, then a newline.
    pub fn render(&self) -> (r: String)
        requires
            forall|i: int|
                0 <= i < self.data@.len() ==> (#[trigger] self.data@[i])@.len()
                    <= self.cell_width,
        ensures
            r@ == render_row(self.data.deep_view(), self.cell_width as nat, self.column_sep),
    {
        let mut out: Vec<char> = Vec::new();
        push_row_chars(self.data, self.cell_width, self.column_sep, &mut out);
        chars_to_string(&out)
    }
}

/// The table model: a header, a rectangular matrix of rows, and the widths
/// computed once at construction.
pub struct Csv {
    pub header: Vec<String>,
    pub header_sep: char,
    pub rows: Vec<Vec<String>>,
    pub max_cell_width: usize,
    pub table_width: usize,
}

impl Csv {
    /// The computed widths agree with the stored header and rows.
    pub open spec fn wf(&self) -> bool {
        &&& self.max_cell_width as nat == table_max_w(
            self.header.deep_view(),
            self.rows.deep_view(),
        )
        &&& self.table_width as int == self.max_cell_width as int * self.header@.len()
            + self.header@.len() + 1
    }

    /// Constructs a table and computes its derived widths.
    pub fn new(header: Vec<String>, rows: Vec<Vec<String>>, header_sep: char) -> (r: Csv)
        requires
            table_max_w(header.deep_view(), rows.deep_view()) * header@.len() + header@.len() + 1
                <= usize::MAX,
        ensures
            r.header == header,
            r.rows == rows,
            r.header_sep == header_sep,
            r.wf(),
    {
        let mut csv = Csv { header, rows, header_sep, max_cell_width: 0, table_width: 0 };
        csv.init();
        csv
    }

    fn init(&mut self)
        requires
            table_max_w(old(self).header.deep_view(), old(self).rows.deep_view())
                * old(self).header@.len() + old(self).header@.len() + 1 <= usize::MAX,
        ensures
            final(self).header == old(self).header,
            final(self).rows == old(self).rows,
            final(self).header_sep == old(self).header_sep,
            final(self).wf(),
    {
        let ghost hdv = self.header.deep_view();
        let ghost rdv = self.rows.deep_view();
        let mut m: usize = 0;
        let mut i: usize = 0;
        proof {
            assert(hdv.take(0) =~~= Seq::<Seq<char>>::empty());
        }
        while i < self.header.len()
            invariant
                i <= self.header@.len(),
                *self == *old(self),
                hdv == self.header.deep_view(),
                hdv.len() == self.header@.len(),
                m as nat == row_max_w(hdv.take(i as int)),
            decreases self.header@.len() - i,
        {
            proof {
                assert(hdv[i as int] == self.header@[i as int]@);
                assert(hdv.take(i as int + 1).drop_last() =~~= hdv.take(i as int));
                assert(hdv.take(i as int + 1).last() == hdv[i as int]);
            }
            let len = self.header[i].as_str().unicode_len();
            if m <= len {
                m = len;
            }
            i = i + 1;
        }
        proof {
            assert(hdv.take(hdv.len() as int) =~~= hdv);
            assert(rdv.take(0) =~~= Seq::<Seq<Seq<char>>>::empty());
        }
        let mut k: usize = 0;
        while k < self.rows.len()
            invariant
                k <= self.rows@.len(),
                *self == *old(self),
                hdv == self.header.deep_view(),
                rdv == self.rows.deep_view(),
                rdv.len() == self.rows@.len(),
                m as nat == table_max_w(hdv, rdv.take(k as int)),
            decreases self.rows@.len() - k,
        {
            let ghost m_start = m as nat;
            let ghost rowdv = rdv[k as int];
            proof {
                assert(rowdv == self.rows@[k as int].deep_view());
                assert(rowdv.take(0) =~~= Seq::<Seq<char>>::empty());
            }
            let row = &self.rows[k];
            let mut j: usize = 0;
            while j < row.len()
                invariant
                    j <= row@.len(),
                    rowdv == row.deep_view(),
                    rowdv.len() == row@.len(),
                    m as nat == max2(m_start, row_max_w(rowdv.take(j as int))),
                decreases row@.len() - j,
            {
                proof {
                    assert(rowdv[j as int] == row@[j as int]@);
                    assert(rowdv.take(j as int + 1).drop_last() =~~= rowdv.take(j as int));
                    assert(rowdv.take(j as int + 1).last() == rowdv[j as int]);
                }
                let len = row[j].as_str().unicode_len();
                if m <= len {
                    m = len;
                }
                j = j + 1;
            }
            k = k + 1;
            proof {
                assert(rowdv.take(rowdv.len() as int) =~~= rowdv);
                assert(rdv.take(k as int).drop_last() =~~= rdv.take(k as int - 1));
                assert(rdv.take(k as int).last() == rdv[k as int - 1]);
            }
        }
        proof {
            assert(rdv.take(rdv.len() as int) =~~= rdv);
            assert(m as nat == table_max_w(hdv, rdv));
        }
        let cols = self.header.len();
        self.max_cell_width = m;
        self.table_width = m * cols + cols + 1;
    }

    /// The longest cell, in characters, across the header and all rows.
    pub fn max_cell_width(&self) -> (r: usize)
        requires
            self.wf(),
        ensures
            r as nat == table_max_w(self.header.deep_view(), self.rows.deep_view()),
    {
        self.max_cell_width
    }

    /// The width of a rendered border line.
    pub fn table_width(&self) -> (r: usize)
        requires
            self.wf(),
        ensures
            r as int == table_max_w(self.header.deep_view(), self.rows.deep_view())
                * self.header@.len() + self.header@.len() + 1,
    {
        self.table_width
    }

    /// Renders the whole table: border, header row, border, data rows,
    /// border.
    pub fn render(&self) -> (r: String)
        requires
            self.wf(),
        ensures
            r@ == spec_render(self.header.deep_view(), self.rows.deep_view(), self.header_sep),
    {
        let ghost hdv = self.header.deep_view();
        let ghost rdv = self.rows.deep_view();
        proof {
            lemma_row_max_w(hdv);
            lemma_table_max_w(hdv, rdv);
            assert forall|i: int| 0 <= i < self.header@.len() implies (
            #[trigger] self.header@[i])@.len() <= self.max_cell_width by {
                assert(hdv[i] == self.header@[i]@);
            }
        }
        let mut out: Vec<char> = Vec::new();
        push_border(self.table_width, self.header_sep, &mut out);
        let header_row = Row { cell_width: self.max_cell_width, column_sep: '|', data: &self.header };
        let rendered = header_row.render();
        let mut rendered_chars = str_chars(rendered.as_str());
        out.append(&mut rendered_chars);
        push_border(self.table_width, self.header_sep, &mut out);
        let ghost pre = out@;
        let ghost w = self.max_cell_width as nat;
        proof {
            assert(rdv.skip(0) =~~= rdv);
        }
        let mut k: usize = 0;
        while k < self.rows.len()
            invariant
                k <= self.rows@.len(),
                rdv == self.rows.deep_view(),
                rdv.len() == self.rows@.len(),
                w == self.max_cell_width as nat,
                self.wf(),
                hdv == self.header.deep_view(),
                out@ + render_rows(rdv.skip(k as int), w, '|') == pre + render_rows(rdv, w, '|'),
            decreases self.rows@.len() - k,
        {
            let ghost suffix = rdv.skip(k as int);
            let ghost entry = out@;
            proof {
                assert(suffix[0] == rdv[k as int]);
                assert(suffix.drop_first() =~~= rdv.skip(k as int + 1));
                lemma_row_max_w(rdv[k as int]);
                lemma_table_max_w(hdv, rdv);
                assert(rdv[k as int] == self.rows@[k as int].deep_view());
                assert forall|j: int| 0 <= j < self.rows@[k as int]@.len() implies (
                #[trigger] self.rows@[k as int]@[j])@.len() <= self.max_cell_width by {
                    assert(rdv[k as int][j] == self.rows@[k as int]@[j]@);
                    assert(rdv[k as int][j].len() <= row_max_w(rdv[k as int]));
                    assert(row_max_w(rdv[k as int]) <= table_max_w(hdv, rdv));
                }
            }
            let data_row = Row { cell_width: self.max_cell_width, column_sep: '|', data: &self.rows[k] };
            let rendered_data = data_row.render();
            let mut rendered_data_chars = str_chars(rendered_data.as_str());
            out.append(&mut rendered_data_chars);
            k = k + 1;
            proof {
                assert(out@ + render_rows(rdv.skip(k as int), w, '|') =~= pre + render_rows(
                    rdv,
                    w,
                    '|',
                ));
            }
        }
        proof {
            assert(rdv.skip(k as int) =~~= Seq::<Seq<Seq<char>>>::empty());
            assert(out@ =~= pre + render_rows(rdv, w, '|'));
        }
        push_border(self.table_width, self.header_sep, &mut out);
        proof {
            assert(out@ =~= spec_render(hdv, rdv, self.header_sep));
        }
        chars_to_string(&out)
    }
}

/// Parses a raw multi-line payload into a table and renders it; fails with
/// the 0-based line number of the first row whose cell count differs from
/// the header's.
pub fn to_csv(input: String) -> (r: Result<String, PipelineError>)
    requires
        csv_dims_ok(input@),
    ensures
        crate::transformers::result_chars(r) == spec_to_csv(input@),
{
    let chars = str_chars(input.as_str());
    let mut lines = split_chars(&chars, '\n');
    if lines.len() > 1 {
        let last_is_empty = lines[lines.len() - 1].len() == 0;
        if last_is_empty {
            let ghost before = lines.deep_view();
            let _dropped = lines.pop();
            proof {
                assert(lines.deep_view() =~~= before.drop_last());
            }
        }
    }
    proof {
        assert(lines.deep_view() =~~= csv_lines(input@));
    }
    let ghost header_spec = csv_header(input@);
    let ghost rows_spec = csv_rows(input@);
    let header_cells = split_chars(&lines[0], ',');
    let cols = header_cells.len();
    proof {
        assert(lines.deep_view()[0] == lines@[0]@);
        assert(header_cells.deep_view() == header_spec);
        assert(cols as nat == header_spec.len());
    }
    let mut rows_cells: Vec<Vec<Vec<char>>> = Vec::new();
    let mut k: usize = 1;
    proof {
        assert(rows_spec.take(0) =~~= Seq::<Seq<Seq<char>>>::empty());
    }
    while k < lines.len()
        invariant
            1 <= k <= lines@.len(),
            lines.deep_view() == csv_lines(input@),
            lines.deep_view().len() == lines@.len(),
            header_spec == csv_header(input@),
            rows_spec == csv_rows(input@),
            cols as nat == header_spec.len(),
            rows_spec.len() == lines@.len() - 1,
            rows_cells.deep_view() == rows_spec.take(k as int - 1),
            forall|t: int| 0 <= t < k - 1 ==> #[trigger] rows_spec[t].len() == cols as nat,
        decreases lines@.len() - k,
    {
        let cells = split_chars(&lines[k], ',');
        proof {
            assert(lines.deep_view()[k as int] == lines@[k as int]@);
            assert(rows_spec[k as int - 1] == split_at(csv_lines(input@)[k as int], ','));
            assert(cells.deep_view() == rows_spec[k as int - 1]);
        }
        if cells.len() != cols {
            proof {
                lemma_first_mismatch_prefix(rows_spec, cols as nat, k as int - 1);
                assert(first_mismatch(rows_spec, header_spec.len()) == k as int - 1);
            }
            return Err(PipelineError::ColumnMismatch { line: k, expected: cols });
        }
        let ghost before_rows = rows_cells.deep_view();
        rows_cells.push(cells);
        k = k + 1;
        proof {
            assert(rows_cells.deep_view() =~~= before_rows.push(rows_spec[k as int - 2]));
            assert(rows_cells.deep_view() =~~= rows_spec.take(k as int - 1));
        }
    }
    proof {
        assert(rows_spec.take(rows_spec.len() as int) =~~= rows_spec);
        lemma_first_mismatch_prefix(rows_spec, cols as nat, rows_spec.len() as int);
        assert(first_mismatch(rows_spec, header_spec.len()) == -1);
    }
    let mut header: Vec<String> = Vec::new();
    let mut i: usize = 0;
    proof {
        assert(header_cells.deep_view().take(0) =~~= Seq::<Seq<char>>::empty());
    }
    while i < header_cells.len()
        invariant
            i <= header_cells@.len(),
            header_cells.deep_view().len() == header_cells@.len(),
            header.deep_view() == header_cells.deep_view().take(i as int),
        decreases header_cells@.len() - i,
    {
        let ghost before = header.deep_view();
        header.push(chars_to_string(&header_cells[i]));
        i = i + 1;
        proof {
            assert(header.deep_view() =~~= before.push(header_cells.deep_view()[i as int - 1]));
            assert(header.deep_view() =~~= header_cells.deep_view().take(i as int));
        }
    }
    proof {
        assert(header_cells.deep_view().take(header_cells@.len() as int) =~~= header_spec);
    }
    let mut rows: Vec<Vec<String>> = Vec::new();
    let mut t: usize = 0;
    proof {
        assert(rows_cells.deep_view().take(0) =~~= Seq::<Seq<Seq<char>>>::empty());
    }
    while t < rows_cells.len()
        invariant
            t <= rows_cells@.len(),
            rows_cells.deep_view() == rows_spec,
            rows_cells.deep_view().len() == rows_cells@.len(),
            rows.deep_view() == rows_spec.take(t as int),
        decreases rows_cells@.len() - t,
    {
        let row_cells = &rows_cells[t];
        let mut row: Vec<String> = Vec::new();
        let mut j: usize = 0;
        proof {
            assert(row_cells.deep_view().take(0) =~~= Seq::<Seq<char>>::empty());
            assert(row_cells.deep_view() == rows_spec[t as int]);
        }
        while j < row_cells.len()
            invariant
                j <= row_cells@.len(),
                row_cells.deep_view().len() == row_cells@.len(),
                row.deep_view() == row_cells.deep_view().take(j as int),
            decreases row_cells@.len() - j,
        {
            let ghost before = row.deep_view();
            row.push(chars_to_string(&row_cells[j]));
            j = j + 1;
            proof {
                assert(row.deep_view() =~~= before.push(row_cells.deep_view()[j as int - 1]));
                assert(row.deep_view() =~~= row_cells.deep_view().take(j as int));
            }
        }
        let ghost before_rows = rows.deep_view();
        rows.push(row);
        t = t + 1;
        proof {
            assert(row_cells.deep_view().take(row_cells@.len() as int) =~~= rows_spec[t as int
                - 1]);
            assert(rows.deep_view() =~~= before_rows.push(rows_spec[t as int - 1]));
            assert(rows.deep_view() =~~= rows_spec.take(t as int));
        }
    }
    proof {
        assert(rows_spec.take(rows_cells@.len() as int) =~~= rows_spec);
        assert(header.deep_view() == header_spec);
        assert(rows.deep_view() == rows_spec);
        assert(header@.len() == header_spec.len());
    }
    let table = Csv::new(header, rows, '=');
    let out = table.render();
    proof {
        assert(out@ == spec_render(header_spec, rows_spec, '='));
    }
    Ok(out)
}

} // verus!
