//! Properties of rendering that hold for every table.
use vstd::prelude::*;
use crate::model::{
    byte_len, cell, count_char, entry_at, line, line_prefix, max_column_len, padding, rendered,
    rows_text,
};
use crate::table::Columns;

verus! {

/// Counting a character in a concatenation adds the counts of the parts.
proof fn lemma_count_concat(a: Seq<char>, b: Seq<char>, ch: char)
    ensures
        count_char(a + b, ch) == count_char(a, ch) + count_char(b, ch),
    decreases b.len(),
{
    if b.len() > 0 {
        assert((a + b).drop_last() =~= a + b.drop_last());
        lemma_count_concat(a, b.drop_last(), ch);
    } else {
        assert(a + b =~= a);
    }
}

/// A character that does not occur is counted zero times.
proof fn lemma_count_absent(s: Seq<char>, ch: char)
    requires
        !s.contains(ch),
    ensures
        count_char(s, ch) == 0,
    decreases s.len(),
{
    if s.len() > 0 {
        assert(!s.drop_last().contains(ch)) by {
            if s.drop_last().contains(ch) {
                let j = choose|j: int| 0 <= j < s.drop_last().len() && s.drop_last()[j] == ch;
                assert(s[j] == ch);
            }
        }
        assert(s[s.len() - 1] != ch);
        lemma_count_absent(s.drop_last(), ch);
    }
}

/// No row of a table holds a newline when neither its entries nor its
/// separator do.
proof fn lemma_line_prefix_no_newline(t: &Columns, i: int, k: int)
    requires
        t@.separator != '\n',
        forall|c: int, j: int|
            0 <= c < t@.columns.len() && 0 <= j < t@.columns[c].len()
                ==> !(#[trigger] t@.columns[c][j]).contains('\n'),
        k <= t@.columns.len(),
    ensures
        count_char(line_prefix(t@.columns, i, k, t@.tab_size, t@.separator), '\n') == 0,
    decreases k,
{
    let m = t@;
    if k > 0 {
        lemma_line_prefix_no_newline(t, i, k - 1);
        let e = entry_at(m.columns, k - 1, i);
        if 0 <= i < m.columns[k - 1].len() {
            lemma_count_absent(e, '\n');
        }
        let c = cell(m.columns, k - 1, i, m.tab_size, m.separator);
        if k < m.columns.len() && byte_len(e) < m.tab_size {
            let p = padding((m.tab_size - byte_len(e)) as nat, m.separator);
            assert(!p.contains('\n'));
            lemma_count_absent(p, '\n');
            lemma_count_concat(e, p, '\n');
        }
        lemma_count_concat(line_prefix(m.columns, i, k - 1, m.tab_size, m.separator), c, '\n');
    }
}

/// The first `n` rows of the output hold exactly `n` newlines.
proof fn lemma_rows_newlines(t: &Columns, n: int)
    requires
        t@.separator != '\n',
        forall|c: int, j: int|
            0 <= c < t@.columns.len() && 0 <= j < t@.columns[c].len()
                ==> !(#[trigger] t@.columns[c][j]).contains('\n'),
        0 <= n,
    ensures
        count_char(rows_text(t@.columns, n, t@.tab_size, t@.separator), '\n') == n,
    decreases n,
{
    let m = t@;
    if n > 0 {
        lemma_rows_newlines(t, n - 1);
        let before = rows_text(m.columns, n - 1, m.tab_size, m.separator);
        let l = line(m.columns, n - 1, m.tab_size, m.separator);
        lemma_line_prefix_no_newline(t, n - 1, m.columns.len() as int);
        lemma_count_concat(before, l, '\n');
        lemma_count_concat(before + l, seq!['\n'], '\n');
        assert(seq!['\n'].drop_last() =~= Seq::<char>::empty());
        assert(count_char(Seq::<char>::empty(), '\n') == 0);
        assert(count_char(seq!['\n'], '\n') == 1);
    }
}

/// Rendering gives one line per row: where no entry and not the separator is
/// a newline, the text holds exactly as many newlines as the longest column
/// has entries, and a non-empty text ends with a newline.
pub proof fn lemma_render_line_count(t: &Columns)
    requires
        t@.separator != '\n',
        forall|c: int, j: int|
            0 <= c < t@.columns.len() && 0 <= j < t@.columns[c].len()
                ==> !(#[trigger] t@.columns[c][j]).contains('\n'),
    ensures
        count_char(rendered(t@), '\n') == max_column_len(t@.columns),
        rendered(t@).len() > 0 ==> rendered(t@).last() == '\n',
{
    lemma_rows_newlines(t, max_column_len(t@.columns) as int);
}

/// Rendering depends on the table alone: two renderings of the same table
/// are the same text.
pub proof fn lemma_render_repeatable(t: &Columns, first: Seq<char>, second: Seq<char>)
    requires
        first == rendered(t@),
        second == rendered(t@),
    ensures
        first == second,
{
}

/// A padding run after an entry shorter than the pad width, in any column but
/// the last, is as long as the pad width less the entry's length in bytes, is spaces throughout but for the
/// separator at half its length (rounded down), and adds nothing where that
/// length is zero; an entry at least as wide as the pad width gets no run.
pub proof fn lemma_separator_at_midpoint(t: &Columns, c: int, i: int)
    requires
        0 <= c < t@.columns.len(),
    ensures
        ({
            let m = t@;
            let e = entry_at(m.columns, c, i);
            let run = padding((m.tab_size - byte_len(e)) as nat, m.separator);
            &&& c + 1 < m.columns.len() && byte_len(e) < m.tab_size ==> {
                &&& cell(m.columns, c, i, m.tab_size, m.separator) == e + run
                &&& run.len() == m.tab_size - byte_len(e)
                &&& run[(run.len() / 2) as int] == m.separator
                &&& forall|j: int| 0 <= j < run.len() && j != run.len() / 2 ==> run[j] == ' '
            }
            &&& byte_len(e) >= m.tab_size ==> cell(m.columns, c, i, m.tab_size, m.separator) == e
            &&& padding(0, m.separator) == Seq::<char>::empty()
        }),
{
    assert(padding(0, t@.separator) =~= Seq::<char>::empty());
}

/// A table of no columns renders to the empty text.
pub proof fn lemma_empty_table_renders_empty(t: &Columns)
    requires
        t@.columns.len() == 0,
    ensures
        rendered(t@) == Seq::<char>::empty(),
{
}

} // verus!
