//! Text tables with columns as wide as their widest cell.
use vstd::prelude::*;
use vstd::string::StringExecFns;
use vstd::string::StrSliceExecFns;
use vstd::utf8::encode_utf8;

verus! {

/// The number of spaces between the widest cell of a column and the next
/// column.
pub const PADDING: usize = 3;

/// How a column reads its cell off a row.
pub trait Cell {
    /// The rows that the cell is read off.
    type Row;

    /// The text of the cell for `row`.
    spec fn text(&self, row: &Self::Row) -> Seq<char>;

    /// Computes the text of the cell for `row`.
    fn cell(&self, row: &Self::Row) -> (s: String)
        ensures
            s@ == self.text(row),
    ;
}

/// The number of bytes that `text` takes.
pub open spec fn bytes(text: Seq<char>) -> nat {
    encode_utf8(text).len()
}

/// The number of bytes of the longest of `texts`, 0 if there is none.
pub open spec fn widest(texts: Seq<Seq<char>>) -> nat
    decreases texts.len(),
{
    if texts.len() == 0 {
        0
    } else if bytes(texts.last()) > widest(texts.drop_last()) {
        bytes(texts.last())
    } else {
        widest(texts.drop_last())
    }
}

/// `n` spaces.
pub open spec fn spaces(n: nat) -> Seq<char> {
    Seq::new(n, |i: int| ' ')
}

/// `text`, followed by as many spaces as it has fewer characters than
/// `width`.
pub open spec fn padded(text: Seq<char>, width: nat) -> Seq<char> {
    if text.len() < width {
        text + spaces((width - text.len()) as nat)
    } else {
        text
    }
}

/// The cells of one line, each padded to the width of its column.
pub open spec fn cells_line(texts: Seq<Seq<char>>, widths: Seq<nat>) -> Seq<char>
    decreases texts.len(),
{
    if texts.len() == 0 {
        Seq::empty()
    } else {
        cells_line(texts.drop_last(), widths) + padded(texts.last(), widths[texts.len() - 1])
    }
}

/// The given lines one after the other, each ended by a line feed.
pub open spec fn lines(all: Seq<Seq<char>>) -> Seq<char>
    decreases all.len(),
{
    if all.len() == 0 {
        Seq::empty()
    } else {
        lines(all.drop_last()) + all.last() + seq!['\n']
    }
}

/// The width of a column titled `title` whose cells hold `texts`: the bytes of
/// the title or of the longest cell, whichever are more, and the padding. It
/// never exceeds `usize::MAX`.
pub open spec fn column_width(title: Seq<char>, texts: Seq<Seq<char>>) -> nat {
    let longest = if bytes(title) > widest(texts) {
        bytes(title)
    } else {
        widest(texts)
    };
    if longest + PADDING > usize::MAX {
        usize::MAX as nat
    } else {
        longest + PADDING as nat
    }
}

/// The cells of column `c` of `rows`, from the first row to the last.
pub open spec fn column_texts(rows: Seq<Seq<Seq<char>>>, c: int) -> Seq<Seq<char>> {
    Seq::new(rows.len(), |r: int| rows[r][c])
}

/// The widths of the columns of a table with the given titles and rows.
pub open spec fn table_widths(titles: Seq<Seq<char>>, rows: Seq<Seq<Seq<char>>>) -> Seq<nat> {
    Seq::new(titles.len(), |c: int| column_width(titles[c], column_texts(rows, c)))
}

/// A table as text: a line of titles, then a line for each row, every cell
/// padded to the width of its column.
pub open spec fn table_text(titles: Seq<Seq<char>>, rows: Seq<Seq<Seq<char>>>) -> Seq<char> {
    let widths = table_widths(titles, rows);
    lines(
        seq![cells_line(titles, widths)] + Seq::new(
            rows.len(),
            |r: int| cells_line(rows[r], widths),
        ),
    )
}

/// Appends spaces to `text` until it has `width` characters.
pub fn pad(text: &str, width: usize) -> (r: String)
    ensures
        r@ == padded(text@, width as nat),
{
    let mut out = String::from_str(text);
    let have: usize = text.unicode_len();
    if have >= width {
        return out;
    }
    let missing: usize = width - have;
    let mut i: usize = 0;
    assert(out@ =~= text@ + spaces(0));
    while i < missing
        invariant
            i <= missing,
            out@ == text@ + spaces(i as nat),
        decreases missing - i,
    {
        proof {
            reveal_strlit(" ");
            assert(" "@ =~= seq![' ']);
            assert((text@ + spaces(i as nat)) + seq![' '] =~= text@ + spaces((i + 1) as nat));
        }
        out.append(" ");
        i += 1;
    }
    out
}

/// One column of a table: its header, and how to read its cell off a row.
pub struct Column<V: Cell> {
    header: &'static str,
    value: V,
}

impl<V: Cell> Column<V> {
    /// The header of the column.
    pub closed spec fn title(&self) -> Seq<char> {
        self.header@
    }

    /// What reads the cells of the column.
    pub closed spec fn source(&self) -> V {
        self.value
    }

    /// The texts of the cells of this column for `rows`, in order.
    pub open spec fn texts(&self, rows: Seq<V::Row>) -> Seq<Seq<char>> {
        Seq::new(rows.len(), |i: int| self.source().text(&rows[i]))
    }

    /// The width of this column for `rows`.
    pub open spec fn spec_width(&self, rows: Seq<V::Row>) -> nat {
        column_width(self.title(), self.texts(rows))
    }

    /// A column titled `header` whose cells are read by `value`.
    pub fn new(header: &'static str, value: V) -> (column: Column<V>)
        ensures
            column.title() == header@,
            column.source() == value,
    {
        Column { header, value }
    }

    /// The header of the column.
    pub fn header(&self) -> (h: &'static str)
        ensures
            h@ == self.title(),
    {
        self.header
    }

    /// Computes the text of the cell of this column for `row`.
    pub fn cell(&self, row: &V::Row) -> (s: String)
        ensures
            s@ == self.source().text(row),
    {
        self.value.cell(row)
    }

    /// Computes the width of this column for `rows`.
    pub fn width(&self, rows: &[V::Row]) -> (w: usize)
        ensures
            w == self.spec_width(rows@),
    {
        let ghost texts = self.texts(rows@);
        let mut longest: usize = 0;
        let mut i: usize = 0;
        assert(texts.take(0) =~= Seq::<Seq<char>>::empty());
        while i < rows.len()
            invariant
                i <= rows.len(),
                texts == self.texts(rows@),
                longest == widest(texts.take(i as int)),
            decreases rows.len() - i,
        {
            let text = self.cell(&rows[i]);
            let here: usize = text.as_str().as_bytes().len();
            proof {
                let next = texts.take(i + 1);
                assert(next.drop_last() =~= texts.take(i as int));
                assert(next.last() == text@);
            }
            if here > longest {
                longest = here;
            }
            i += 1;
        }
        assert(texts.take(rows.len() as int) =~= texts);
        let titled: usize = self.header.as_bytes().len();
        let most: usize = if titled > longest {
            titled
        } else {
            longest
        };
        most.saturating_add(PADDING)
    }
}

/// A table: its columns, and the rows that it shows.
pub struct Table<'a, V: Cell> {
    pub cols: Vec<Column<V>>,
    pub data: &'a [V::Row],
}

impl<'a, V: Cell> Table<'a, V> {
    /// The widths of the columns, in order.
    pub open spec fn widths(&self) -> Seq<nat> {
        Seq::new(self.cols@.len(), |c: int| self.cols@[c].spec_width(self.data@))
    }

    /// The headers of the columns, in order.
    pub open spec fn titles(&self) -> Seq<Seq<char>> {
        Seq::new(self.cols@.len(), |c: int| self.cols@[c].title())
    }

    /// The texts of the cells of `row`, in the order of the columns.
    pub open spec fn row_texts(&self, row: &V::Row) -> Seq<Seq<char>> {
        Seq::new(self.cols@.len(), |c: int| self.cols@[c].source().text(row))
    }

    /// The texts of all cells, row by row.
    pub open spec fn cells(&self) -> Seq<Seq<Seq<char>>> {
        Seq::new(self.data@.len(), |r: int| self.row_texts(&self.data@[r]))
    }

    /// The table as text.
    pub open spec fn rendered(&self) -> Seq<char> {
        table_text(self.titles(), self.cells())
    }

    /// Writes the table out as text.
    pub fn render(&self) -> (out: String)
        ensures
            out@ == self.rendered(),
    {
        let ghost widths = self.widths();
        let ghost titles = self.titles();
        proof {
            assert forall|c: int| 0 <= c < self.cols@.len() implies #[trigger] widths[c]
                == table_widths(titles, self.cells())[c] by {
                assert(column_texts(self.cells(), c) =~= self.cols@[c].texts(self.data@));
            }
            assert(widths =~= table_widths(titles, self.cells()));
        }
        let mut column_widths: Vec<usize> = Vec::new();
        let mut c: usize = 0;
        while c < self.cols.len()
            invariant
                c <= self.cols.len(),
                column_widths.len() == c,
                widths == self.widths(),
                forall|k: int| 0 <= k < c ==> column_widths[k] == widths[k],
            decreases self.cols.len() - c,
        {
            column_widths.push(self.cols[c].width(self.data));
            c += 1;
        }
        let ghost all = seq![cells_line(titles, widths)] + Seq::new(
            self.data@.len(),
            |r: int| cells_line(self.row_texts(&self.data@[r]), widths),
        );

        // The headers.
        let mut out = String::new();
        let mut c: usize = 0;
        assert(titles.take(0) =~= Seq::<Seq<char>>::empty());
        while c < self.cols.len()
            invariant
                c <= self.cols.len(),
                column_widths.len() == self.cols.len(),
                widths == self.widths(),
                titles == self.titles(),
                forall|k: int| 0 <= k < self.cols.len() ==> column_widths[k] == widths[k],
                out@ == cells_line(titles.take(c as int), widths),
            decreases self.cols.len() - c,
        {
            let text = pad(self.cols[c].header(), column_widths[c]);
            proof {
                let next = titles.take(c + 1);
                assert(next.drop_last() =~= titles.take(c as int));
                assert(next.last() == titles[c as int]);
            }
            out.append(text.as_str());
            c += 1;
        }
        assert(titles.take(self.cols.len() as int) =~= titles);
        proof {
            reveal_strlit("\n");
            assert("\n"@ =~= seq!['\n']);
        }
        out.append("\n");
        assert(all.take(1) =~= seq![cells_line(titles, widths)]);
        assert(out@ =~= lines(all.take(1))) by {
            assert(all.take(1).drop_last() =~= Seq::<Seq<char>>::empty());
            assert(lines(all.take(1).drop_last()) =~= Seq::<char>::empty());
        }

        // The rows.
        let mut r: usize = 0;
        while r < self.data.len()
            invariant
                r <= self.data.len(),
                column_widths.len() == self.cols.len(),
                widths == self.widths(),
                all == seq![cells_line(self.titles(), widths)] + Seq::new(
                    self.data@.len(),
                    |r: int| cells_line(self.row_texts(&self.data@[r]), widths),
                ),
                forall|k: int| 0 <= k < self.cols.len() ==> column_widths[k] == widths[k],
                out@ == lines(all.take(r + 1)),
            decreases self.data.len() - r,
        {
            let row = &self.data[r];
            let ghost texts = self.row_texts(row);
            let ghost before = out@;
            let mut c: usize = 0;
            assert(texts.take(0) =~= Seq::<Seq<char>>::empty());
            assert(out@ =~= before + cells_line(texts.take(0), widths));
            while c < self.cols.len()
                invariant
                    c <= self.cols.len(),
                    column_widths.len() == self.cols.len(),
                    widths == self.widths(),
                    texts == self.row_texts(row),
                    forall|k: int| 0 <= k < self.cols.len() ==> column_widths[k] == widths[k],
                    out@ == before + cells_line(texts.take(c as int), widths),
                decreases self.cols.len() - c,
            {
                let value = self.cols[c].cell(row);
                let text = pad(value.as_str(), column_widths[c]);
                proof {
                    let next = texts.take(c + 1);
                    assert(next.drop_last() =~= texts.take(c as int));
                    assert(next.last() == texts[c as int]);
                    assert(before + cells_line(next, widths) =~= before + cells_line(
                        texts.take(c as int),
                        widths,
                    ) + text@);
                }
                out.append(text.as_str());
                c += 1;
            }
            assert(texts.take(self.cols.len() as int) =~= texts);
            proof {
                reveal_strlit("\n");
                assert("\n"@ =~= seq!['\n']);
                let next = all.take(r + 2);
                assert(next.drop_last() =~= all.take(r + 1));
                assert(next.last() == cells_line(texts, widths));
                assert(lines(next) =~= before + cells_line(texts, widths) + seq!['\n']);
            }
            out.append("\n");
            r += 1;
        }
        assert(all.take(self.data.len() + 1) =~= all);
        assert(all =~= seq![cells_line(titles, widths)] + Seq::new(
            self.cells().len(),
            |r: int| cells_line(self.cells()[r], widths),
        ));
        out
    }
}

} // verus!
