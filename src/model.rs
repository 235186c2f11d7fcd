//! The mathematical model of a table and of its rendered text.
use vstd::prelude::*;
use vstd::utf8::encode_utf8;

verus! {

/// What a table is: its columns of entries (each entry as its characters),
/// the pad width, and the character placed in the middle
/// of each padding run.
pub struct ColumnsModel {
    pub columns: Seq<Seq<Seq<char>>>,
    pub tab_size: nat,
    pub separator: char,
}

/// The text that a table renders to: one line for each entry of its longest
/// column, each ended by a newline.
pub open spec fn rendered(m: ColumnsModel) -> Seq<char> {
    rows_text(m.columns, max_column_len(m.columns) as int, m.tab_size, m.separator)
}

/// The entries of one column, each as its characters.
pub open spec fn view_column(col: Seq<&str>) -> Seq<Seq<char>> {
    col.map_values(|s: &str| s@)
}

/// The columns of a table, each entry as its characters.
pub open spec fn view_columns(cols: Seq<Vec<&str>>) -> Seq<Seq<Seq<char>>> {
    cols.map_values(|col: Vec<&str>| view_column(col@))
}

/// The length of an entry: the number of bytes of its UTF-8 encoding.
pub open spec fn byte_len(s: Seq<char>) -> nat {
    encode_utf8(s).len()
}

/// The longest entry of one column, in bytes.
pub open spec fn max_entry_len(col: Seq<Seq<char>>) -> nat
    decreases col.len(),
{
    if col.len() == 0 {
        0
    } else {
        let rest = max_entry_len(col.drop_last());
        if byte_len(col.last()) > rest {
            byte_len(col.last())
        } else {
            rest
        }
    }
}

/// The longest entry over all columns, in bytes.
pub open spec fn max_entry_len_all(cols: Seq<Seq<Seq<char>>>) -> nat
    decreases cols.len(),
{
    if cols.len() == 0 {
        0
    } else {
        let rest = max_entry_len_all(cols.drop_last());
        let here = max_entry_len(cols.last());
        if here > rest {
            here
        } else {
            rest
        }
    }
}

/// The number of entries of the longest column: the number of output rows.
pub open spec fn max_column_len(cols: Seq<Seq<Seq<char>>>) -> nat
    decreases cols.len(),
{
    if cols.len() == 0 {
        0
    } else {
        let rest = max_column_len(cols.drop_last());
        if cols.last().len() > rest {
            cols.last().len()
        } else {
            rest
        }
    }
}

/// The entry of column `c` at row `i`, or the empty text where the column is
/// shorter than that.
pub open spec fn entry_at(cols: Seq<Seq<Seq<char>>>, c: int, i: int) -> Seq<char> {
    if 0 <= i < cols[c].len() {
        cols[c][i]
    } else {
        Seq::empty()
    }
}

/// A padding run of `n` characters: spaces, with `sep` at index `n / 2`.
pub open spec fn padding(n: nat, sep: char) -> Seq<char> {
    Seq::new(n, |j: int| if j == n / 2 { sep } else { ' ' })
}

/// What column `c` contributes to row `i`: its entry, followed by a padding
/// run of `width` less the entry's length in bytes, unless it is the last
/// column or the entry is not shorter than `width`.
pub open spec fn cell(cols: Seq<Seq<Seq<char>>>, c: int, i: int, width: nat, sep: char) -> Seq<char> {
    let e = entry_at(cols, c, i);
    if c + 1 < cols.len() && byte_len(e) < width {
        e + padding((width - byte_len(e)) as nat, sep)
    } else {
        e
    }
}

/// The cells of the first `k` columns of row `i`, one after another.
pub open spec fn line_prefix(
    cols: Seq<Seq<Seq<char>>>,
    i: int,
    k: int,
    width: nat,
    sep: char,
) -> Seq<char>
    decreases k,
{
    if k <= 0 {
        Seq::empty()
    } else {
        line_prefix(cols, i, k - 1, width, sep) + cell(cols, k - 1, i, width, sep)
    }
}

/// Row `i` of the output, without its newline.
pub open spec fn line(cols: Seq<Seq<Seq<char>>>, i: int, width: nat, sep: char) -> Seq<char> {
    line_prefix(cols, i, cols.len() as int, width, sep)
}

/// The first `n` rows of the output, each followed by a newline.
pub open spec fn rows_text(cols: Seq<Seq<Seq<char>>>, n: int, width: nat, sep: char) -> Seq<char>
    decreases n,
{
    if n <= 0 {
        Seq::empty()
    } else {
        rows_text(cols, n - 1, width, sep) + line(cols, n - 1, width, sep) + seq!['\n']
    }
}

/// How many times `ch` occurs in `s`.
pub open spec fn count_char(s: Seq<char>, ch: char) -> nat
    decreases s.len(),
{
    if s.len() == 0 {
        0
    } else {
        count_char(s.drop_last(), ch) + if s.last() == ch { 1nat } else { 0nat }
    }
}

} // verus!
