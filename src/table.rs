//! The column table and its rendering.
use vstd::prelude::*;
use vstd::utf8::encode_utf8;
use crate::model::{
    byte_len,
    entry_at, line_prefix, max_column_len, max_entry_len, max_entry_len_all, padding, rendered,
    rows_text, view_column, view_columns, ColumnsModel,
};

verus! {

/// Relies on `String::push`: appends the one character to the end.
#[verifier::external_body]
fn push_char(s: &mut String, ch: char)
    ensures
        final(s)@ == old(s)@.push(ch),
{
    s.push(ch);
}

/// A padding run of `size` characters: spaces, with `separator` at index
/// `size / 2`. A run of length zero is empty.
pub fn spaces(size: usize, separator: char) -> (r: String)
    ensures
        r@ == padding(size as nat, separator),
{
    let mut run = String::new();
    let mut i: usize = 0;
    while i < size
        invariant
            i <= size,
            run@ == padding(size as nat, separator).take(i as int),
        decreases size - i,
    {
        if i == size / 2 {
            push_char(&mut run, separator);
        } else {
            push_char(&mut run, ' ');
        }
        i += 1;
        assert(run@ =~= padding(size as nat, separator).take(i as int));
    }
    assert(run@ =~= padding(size as nat, separator));
    run
}

/// The error of a configuration that names a column the table lacks.
#[derive(Debug, Clone, Copy, PartialEq, Eq, Structural)]
pub enum ColumnsError {
    IndexOutOfRange,
}

/// Columns of text entries, with the pad width each entry is padded to and
/// the character set in the middle of each padding run.
///
/// The table borrows its entries; every configuration call returns a new
/// table and leaves its receiver as it was.
#[derive(Debug)]
pub struct Columns<'a> {
    inner: Vec<Vec<&'a str>>,
    tabsize: usize,
    largest: usize,
    separator: char,
}

impl<'a> View for Columns<'a> {
    type V = ColumnsModel;

    closed spec fn view(&self) -> ColumnsModel {
        ColumnsModel {
            columns: view_columns(self.inner@),
            tab_size: self.tabsize as nat,
            separator: self.separator,
        }
    }
}

/// No entry of a column is longer than its longest one.
proof fn lemma_entry_within(col: Seq<Seq<char>>, j: int)
    requires
        0 <= j < col.len(),
    ensures
        byte_len(col[j]) <= max_entry_len(col),
    decreases col.len(),
{
    if j < col.len() - 1 {
        lemma_entry_within(col.drop_last(), j);
    }
}

/// The length in bytes of an entry of a table whose entries all fit in a
/// `usize`.
fn entry_len(s: &str) -> (r: usize)
    requires
        byte_len(s@) <= usize::MAX,
    ensures
        r == byte_len(s@),
{
    s.len()
}

/// The longest entry of a column, in bytes.
fn longest_entry(col: &Vec<&str>) -> (r: usize)
    requires
        max_entry_len(view_column(col@)) <= usize::MAX,
    ensures
        r == max_entry_len(view_column(col@)),
{
    let mut size: usize = 0;
    let mut j: usize = 0;
    while j < col.len()
        invariant
            j <= col@.len(),
            max_entry_len(view_column(col@)) <= usize::MAX,
            size == max_entry_len(view_column(col@).take(j as int)),
        decreases col@.len() - j,
    {
        proof {
            lemma_entry_within(view_column(col@), j as int);
            assert(view_column(col@)[j as int] == col@[j as int]@);
        }
        let n = entry_len(col[j]);
        assert(view_column(col@).take(j + 1).drop_last() =~= view_column(col@).take(j as int));
        if n > size {
            size = n;
        }
        j += 1;
    }
    assert(view_column(col@).take(j as int) =~= view_column(col@));
    size
}

/// The longest entry over all columns, in bytes.
fn longest_entry_all(cols: &Vec<Vec<&str>>) -> (r: usize)
    requires
        max_entry_len_all(view_columns(cols@)) <= usize::MAX,
    ensures
        r == max_entry_len_all(view_columns(cols@)),
{
    let mut size: usize = 0;
    let mut c: usize = 0;
    while c < cols.len()
        invariant
            c <= cols@.len(),
            max_entry_len_all(view_columns(cols@)) <= usize::MAX,
            size == max_entry_len_all(view_columns(cols@).take(c as int)),
        decreases cols@.len() - c,
    {
        proof {
            lemma_column_within_all(view_columns(cols@), c as int);
            assert(view_columns(cols@)[c as int] == view_column(cols@[c as int]@));
        }
        let n = longest_entry(&cols[c]);
        assert(view_columns(cols@).take(c + 1).drop_last() =~= view_columns(cols@).take(c as int));
        if n > size {
            size = n;
        }
        c += 1;
    }
    assert(view_columns(cols@).take(c as int) =~= view_columns(cols@));
    size
}

/// The number of entries of the longest column.
fn longest_column(cols: &Vec<Vec<&str>>) -> (r: usize)
    ensures
        r == max_column_len(view_columns(cols@)),
{
    let mut count: usize = 0;
    let mut c: usize = 0;
    while c < cols.len()
        invariant
            c <= cols@.len(),
            count == max_column_len(view_columns(cols@).take(c as int)),
        decreases cols@.len() - c,
    {
        let n = cols[c].len();
        assert(view_columns(cols@).take(c + 1).drop_last() =~= view_columns(cols@).take(c as int));
        if n > count {
            count = n;
        }
        c += 1;
    }
    assert(view_columns(cols@).take(c as int) =~= view_columns(cols@));
    count
}

/// The widest entry of one column is no wider than the widest entry of the
/// whole table.
proof fn lemma_column_within_all(cols: Seq<Seq<Seq<char>>>, k: int)
    requires
        0 <= k < cols.len(),
    ensures
        max_entry_len(cols[k]) <= max_entry_len_all(cols),
    decreases cols.len(),
{
    if k < cols.len() - 1 {
        lemma_column_within_all(cols.drop_last(), k);
    }
}

/// A copy of the columns, entry for entry.
fn copy_columns<'a>(cols: &Vec<Vec<&'a str>>) -> (r: Vec<Vec<&'a str>>)
    ensures
        r@.len() == cols@.len(),
        forall|c: int| 0 <= c < cols@.len() ==> #[trigger] r@[c]@ == cols@[c]@,
{
    let mut out: Vec<Vec<&'a str>> = Vec::new();
    let mut c: usize = 0;
    while c < cols.len()
        invariant
            c <= cols@.len(),
            out@.len() == c,
            forall|k: int| 0 <= k < c ==> #[trigger] out@[k]@ == cols@[k]@,
        decreases cols@.len() - c,
    {
        let col = &cols[c];
        let mut copy: Vec<&'a str> = Vec::new();
        let mut j: usize = 0;
        while j < col.len()
            invariant
                j <= col@.len(),
                copy@ == col@.take(j as int),
            decreases col@.len() - j,
        {
            copy.push(col[j]);
            assert(copy@ =~= col@.take(j + 1));
            j += 1;
        }
        assert(copy@ =~= col@);
        out.push(copy);
        c += 1;
    }
    out
}

/// The same columns, seen entry for entry, make the same model.
proof fn lemma_copy_same_view(a: Seq<Vec<&str>>, b: Seq<Vec<&str>>)
    requires
        a.len() == b.len(),
        forall|c: int| 0 <= c < a.len() ==> #[trigger] a[c]@ == b[c]@,
    ensures
        view_columns(a) == view_columns(b),
{
    assert(view_columns(a) =~~= view_columns(b));
}

impl<'a> Clone for Columns<'a> {
    fn clone(&self) -> (r: Self)
        ensures
            r@ == self@,
    {
        proof {
            use_type_invariant(self);
        }
        let inner = copy_columns(&self.inner);
        proof {
            lemma_copy_same_view(inner@, self.inner@);
        }
        Columns { inner, tabsize: self.tabsize, largest: self.largest, separator: self.separator }
    }
}

impl<'a> Columns<'a> {
    #[verifier::type_invariant]
    closed spec fn inv(&self) -> bool {
        &&& self.largest == max_column_len(view_columns(self.inner@))
        &&& max_entry_len_all(view_columns(self.inner@)) + 3 <= usize::MAX
    }

    /// A table of the given columns, padded to the widest entry plus three,
    /// with no visible separator.
    pub fn from_columns(columns: Vec<Vec<&'a str>>) -> (r: Self)
        requires
            max_entry_len_all(view_columns(columns@)) + 3 <= usize::MAX,
        ensures
            r@ == (ColumnsModel {
                columns: view_columns(columns@),
                tab_size: max_entry_len_all(view_columns(columns@)) + 3,
                separator: ' ',
            }),
    {
        let tabsize = longest_entry_all(&columns) + 3;
        let largest = longest_column(&columns);
        Columns { inner: columns, tabsize, largest, separator: ' ' }
    }

    /// A table of one column, padded to its widest entry plus three, with no
    /// visible separator.
    pub fn from_single_column(column: Vec<&'a str>) -> (r: Self)
        requires
            max_entry_len(view_column(column@)) + 3 <= usize::MAX,
        ensures
            r@ == (ColumnsModel {
                columns: seq![view_column(column@)],
                tab_size: max_entry_len(view_column(column@)) + 3,
                separator: ' ',
            }),
    {
        let ghost col = view_column(column@);
        let columns = vec![column];
        proof {
            let cols = view_columns(columns@);
            assert(cols =~= seq![col]);
            assert(cols.drop_last() =~= Seq::<Seq<Seq<char>>>::empty());
            assert(max_entry_len_all(cols.drop_last()) == 0);
            assert(max_entry_len_all(cols) == max_entry_len(col));
            assert(max_column_len(cols.drop_last()) == 0);
            assert(max_column_len(cols) == col.len());
            assert(col.len() == column@.len());
        }
        Self::from_columns(columns)
    }

    /// Renders the table: for each row, the entries of that row in column
    /// order, each but the last column's padded to the pad width, and a
    /// newline after each row.
    pub fn make_columns(&self) -> (r: String)
        ensures
            r@ == rendered(self@),
    {
        proof {
            use_type_invariant(self);
        }
        let ghost cols = view_columns(self.inner@);
        let ghost width = self.tabsize as nat;
        let ghost sep = self.separator;
        let ncols = self.inner.len();
        let mut out = String::new();
        let mut i: usize = 0;
        while i < self.largest
            invariant
                i <= self.largest,
                ncols == self.inner@.len(),
                cols == view_columns(self.inner@),
                max_entry_len_all(cols) + 3 <= usize::MAX,
                width == self.tabsize,
                sep == self.separator,
                out@ == rows_text(cols, i as int, width, sep),
            decreases self.largest - i,
        {
            let mut line = String::new();
            let mut c: usize = 0;
            while c < ncols
                invariant
                    c <= ncols,
                    ncols == self.inner@.len(),
                    cols == view_columns(self.inner@),
                    max_entry_len_all(cols) + 3 <= usize::MAX,
                    width == self.tabsize,
                    sep == self.separator,
                    line@ == line_prefix(cols, i as int, c as int, width, sep),
                decreases ncols - c,
            {
                let column = &self.inner[c];
                let entry: &str = if i < column.len() {
                    column[i]
                } else {
                    proof {
                        reveal_strlit("");
                    }
                    ""
                };
                assert(entry@ == entry_at(cols, c as int, i as int));
                line.append(entry);
                proof {
                    if i < column@.len() {
                        lemma_column_within_all(cols, c as int);
                        lemma_entry_within(cols[c as int], i as int);
                        assert(cols[c as int] == view_column(self.inner@[c as int]@));
                        assert(cols[c as int][i as int] == entry@);
                    } else {
                        assert(encode_utf8(entry@) =~= Seq::<u8>::empty());
                    }
                }
                let len = entry_len(entry);
                if c + 1 < ncols && len < self.tabsize {
                    let pad = spaces(self.tabsize - len, self.separator);
                    line.append(pad.as_str());
                }
                assert(line@ =~= line_prefix(cols, i as int, c + 1, width, sep));
                c += 1;
            }
            push_char(&mut line, '\n');
            out.append(line.as_str());
            assert(out@ =~= rows_text(cols, i + 1, width, sep));
            i += 1;
        }
        out
    }
    /// The same table with the pad width set to `tabsize`.
    pub fn set_tabsize(self, tabsize: usize) -> (r: Self)
        ensures
            r@ == (ColumnsModel { tab_size: tabsize as nat, ..self@ }),
    {
        proof {
            use_type_invariant(&self);
        }
        Columns { inner: self.inner, tabsize, largest: self.largest, separator: self.separator }
    }

    /// The same table with the pad width set to the widest entry of column
    /// `column_number` plus three; `IndexOutOfRange` where the table has no
    /// such column.
    pub fn base_tabsize_in(&self, column_number: usize) -> (r: Result<Self, ColumnsError>)
        ensures
            match r {
                Ok(t) => column_number < self@.columns.len() && t@ == (ColumnsModel {
                    tab_size: max_entry_len(self@.columns[column_number as int]) + 3,
                    ..self@
                }),
                Err(e) => column_number >= self@.columns.len() && e == ColumnsError::IndexOutOfRange,
            },
    {
        proof {
            use_type_invariant(self);
        }
        if column_number >= self.inner.len() {
            return Err(ColumnsError::IndexOutOfRange);
        }
        proof {
            lemma_column_within_all(view_columns(self.inner@), column_number as int);
        }
        let size = longest_entry(&self.inner[column_number]);
        let inner = copy_columns(&self.inner);
        proof {
            lemma_copy_same_view(inner@, self.inner@);
        }
        Ok(Columns { inner, tabsize: size + 3, largest: self.largest, separator: self.separator })
    }

    /// The same table with `separator` set in the middle of each padding run.
    pub fn with_separator(self, separator: char) -> (r: Self)
        ensures
            r@ == (ColumnsModel { separator, ..self@ }),
    {
        proof {
            use_type_invariant(&self);
        }
        Columns { inner: self.inner, tabsize: self.tabsize, largest: self.largest, separator }
    }

    /// The pad width.
    pub fn tabsize(&self) -> (r: usize)
        ensures
            r == self@.tab_size,
    {
        self.tabsize
    }

    /// The number of rows: the length of the longest column.
    pub fn row_count(&self) -> (r: usize)
        ensures
            r == max_column_len(self@.columns),
    {
        proof {
            use_type_invariant(self);
        }
        self.largest
    }

    /// The character set in the middle of each padding run.
    pub fn separator(&self) -> (r: char)
        ensures
            r == self@.separator,
    {
        self.separator
    }

    /// The number of columns.
    pub fn column_count(&self) -> (r: usize)
        ensures
            r == self@.columns.len(),
    {
        self.inner.len()
    }
}

} // verus!
