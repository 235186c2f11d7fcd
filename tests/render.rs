use columns::{spaces, Columns, ColumnsError};

fn three_columns() -> Columns<'static> {
    Columns::from_columns(vec![
        vec!["text", "should", "be"],
        vec!["in", "different", "columns"],
        vec!["even", "in", "more", "than", "two"],
    ])
}

#[test]
fn single_column_is_never_padded() {
    let t = Columns::from_single_column(vec!["a", "bb", "ccc"]);
    assert_eq!(t.tabsize(), 6);
    assert_eq!(t.row_count(), 3);
    assert_eq!(t.make_columns(), "a\nbb\nccc\n");
}

#[test]
fn three_columns_worked_example() {
    let t = three_columns();
    assert_eq!(t.row_count(), 5);
    assert_eq!(t.tabsize(), 12);
    assert_eq!(t.column_count(), 3);
    let text = t.make_columns();
    let lines: Vec<&str> = text.split('\n').collect();
    assert_eq!(lines[0], "text        in          even");
    assert_eq!(lines[1], "should      different   in");
    assert_eq!(lines[2], "be          columns     more");
    assert_eq!(lines[3], "                        than");
    assert_eq!(lines[4], "                        two");
    assert_eq!(lines[5], "");
    assert_eq!(lines.len(), 6);
}

#[test]
fn tabsize_from_first_column_ignores_the_others() {
    let t = Columns::from_columns(vec![
        vec!["a", "b", "c"],
        vec!["big", "text", "that makes you annoyed"],
    ]);
    assert_eq!(t.tabsize(), 25);
    let based = t.base_tabsize_in(0).unwrap();
    assert_eq!(based.tabsize(), 4);
    assert_eq!(based.make_columns(), "a   big\nb   text\nc   that makes you annoyed\n");
}

#[test]
fn tabsize_from_second_column() {
    let t = Columns::from_columns(vec![vec!["a", "b"], vec!["longer", "x"]]);
    let based = t.base_tabsize_in(1).unwrap();
    assert_eq!(based.tabsize(), 9);
    assert_eq!(based.make_columns(), "a        longer\nb        x\n");
}

#[test]
fn tabsize_from_missing_column_fails_and_keeps_the_table() {
    let t = Columns::from_columns(vec![vec!["a", "b", "c"], vec!["big", "text"]]);
    let before = t.make_columns();
    assert_eq!(t.base_tabsize_in(2).unwrap_err(), ColumnsError::IndexOutOfRange);
    assert_eq!(t.base_tabsize_in(usize::MAX).unwrap_err(), ColumnsError::IndexOutOfRange);
    assert_eq!(t.make_columns(), before);
    assert_eq!(t.tabsize(), 7);
}

#[test]
fn tabsize_from_column_of_empty_table_fails() {
    let t = Columns::from_columns(vec![]);
    assert_eq!(t.base_tabsize_in(0).unwrap_err(), ColumnsError::IndexOutOfRange);
}

#[test]
fn rendering_twice_gives_the_same_text() {
    let t = three_columns();
    let first = t.make_columns();
    let second = t.make_columns();
    assert_eq!(first, second);
    assert_eq!(t.clone().make_columns(), first);
}

#[test]
fn separator_sits_in_the_middle_of_the_run() {
    let t = Columns::from_columns(vec![vec!["ab", "cd"], vec!["x", "y"]])
        .set_tabsize(6)
        .with_separator('-');
    assert_eq!(t.separator(), '-');
    assert_eq!(t.make_columns(), "ab  - x\ncd  - y\n");
}

#[test]
fn zero_length_run_adds_nothing() {
    let t = Columns::from_columns(vec![vec!["ab"], vec!["x"]])
        .set_tabsize(2)
        .with_separator('-');
    assert_eq!(t.make_columns(), "abx\n");
}

#[test]
fn run_of_one_is_the_separator() {
    let t = Columns::from_columns(vec![vec!["abcd", "x"], vec!["y", "z"]])
        .set_tabsize(2)
        .with_separator('|');
    assert_eq!(t.make_columns(), "abcdy\nx|z\n");
}

#[test]
fn padding_runs() {
    assert_eq!(spaces(4, '-'), "  - ");
    assert_eq!(spaces(5, '-'), "  -  ");
    assert_eq!(spaces(1, '-'), "-");
    assert_eq!(spaces(0, '-'), "");
    assert_eq!(spaces(3, ' '), "   ");
}

#[test]
fn empty_table_renders_nothing() {
    let t = Columns::from_columns(vec![]);
    assert_eq!(t.row_count(), 0);
    assert_eq!(t.tabsize(), 3);
    assert_eq!(t.make_columns(), "");
}

#[test]
fn empty_columns_render_nothing() {
    let t = Columns::from_columns(vec![vec![], vec![]]);
    assert_eq!(t.row_count(), 0);
    assert_eq!(t.make_columns(), "");
    assert_eq!(Columns::from_single_column(vec![]).make_columns(), "");
}

#[test]
fn empty_entries_are_still_padded() {
    let t = Columns::from_columns(vec![vec![""], vec![""]]);
    assert_eq!(t.tabsize(), 3);
    assert_eq!(t.make_columns(), "   \n");
}

#[test]
fn one_line_per_row() {
    let t = three_columns();
    let text = t.make_columns();
    assert_eq!(text.matches('\n').count(), t.row_count());
    assert!(text.ends_with('\n'));
}

#[test]
fn identical_columns_are_placed_by_position() {
    let t = Columns::from_columns(vec![vec!["a", "b"], vec!["a", "b"]]);
    assert_eq!(t.make_columns(), "a   a\nb   b\n");
}

#[test]
fn width_counts_bytes() {
    let t = Columns::from_columns(vec![vec!["héllo"], vec!["x"]]);
    assert_eq!(t.tabsize(), 9);
    assert_eq!(t.make_columns(), "héllo   x\n");
}

#[test]
fn tabsize_counts_bytes_of_one_column() {
    let t = Columns::from_columns(vec![vec!["é"]]);
    assert_eq!(t.tabsize(), 5);
    assert_eq!(t.base_tabsize_in(0).unwrap().tabsize(), 5);
    let two = Columns::from_columns(vec![vec!["é"], vec!["ab"]]);
    assert_eq!(two.tabsize(), 5);
    assert_eq!(two.base_tabsize_in(0).unwrap().tabsize(), 5);
}

#[test]
fn run_after_multibyte_entry_is_sized_in_bytes() {
    let t = Columns::from_columns(vec![vec!["é"], vec!["x"]]).set_tabsize(6);
    assert_eq!(t.make_columns(), "é    x\n");
    let sep = t.with_separator('-');
    assert_eq!(sep.make_columns(), "é  - x\n");
    let exact = sep.set_tabsize(2);
    assert_eq!(exact.make_columns(), "éx\n");
    let fits = Columns::from_columns(vec![vec!["é"], vec!["x"]]);
    assert_eq!(fits.tabsize(), 5);
    let text = fits.make_columns();
    assert_eq!(text, "é   x\n");
    assert_eq!(text.lines().next().unwrap().len(), 6);
}

#[test]
fn set_tabsize_keeps_the_rest() {
    let t = three_columns().with_separator('*').set_tabsize(5);
    assert_eq!(t.tabsize(), 5);
    assert_eq!(t.separator(), '*');
    assert_eq!(t.row_count(), 5);
    assert_eq!(t.make_columns().lines().next().unwrap(), "text*in * even");
}
