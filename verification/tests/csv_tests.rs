use threaded_transform::prompt::event::Command;
use threaded_transform::transformers::csv::{Csv, Row};
use threaded_transform::transformers::{transform, PipelineError};

#[test]
fn csv_render_exact_small_table() {
    let out = transform(String::from("a,bb\n1,22\n"), Command::Csv).unwrap();
    assert_eq!(out, "=======\n|a |bb|\n=======\n|1 |22|\n=======\n");
}

#[test]
fn csv_render_without_trailing_newline() {
    let out = transform(String::from("a,bb\n1,22"), Command::Csv).unwrap();
    assert_eq!(out, "=======\n|a |bb|\n=======\n|1 |22|\n=======\n");
}

#[test]
fn csv_widths_are_recomputed_at_construction() {
    let header = vec![String::from("a"), String::from("bb")];
    let rows = vec![vec![String::from("1"), String::from("22")]];
    let table = Csv::new(header, rows, '=');
    assert_eq!(table.max_cell_width(), 2);
    assert_eq!(table.table_width(), 7);
}

#[test]
fn csv_column_mismatch_names_the_line() {
    let err = transform(String::from("a,b\n1,2,3\n"), Command::Csv).unwrap_err();
    assert_eq!(err, PipelineError::ColumnMismatch { line: 1, expected: 2 });
    assert_eq!(
        err.message(),
        "Mismatched columns count at line 1, (all rows should have 2 columns)"
    );
}

#[test]
fn csv_first_mismatch_wins() {
    let err = transform(String::from("a,b\n1,2\n3\n4,5,6\n"), Command::Csv).unwrap_err();
    assert_eq!(err, PipelineError::ColumnMismatch { line: 2, expected: 2 });
}

#[test]
fn csv_header_only_table() {
    let out = transform(String::from("a,bb\n"), Command::Csv).unwrap();
    assert_eq!(out, "=======\n|a |bb|\n=======\n=======\n");
}

#[test]
fn row_render_pads_each_cell() {
    let cells = vec![String::from("a"), String::from("bb")];
    let row = Row { cell_width: 3, column_sep: '|', data: &cells };
    assert_eq!(row.render(), "|a  |bb |\n");
}
