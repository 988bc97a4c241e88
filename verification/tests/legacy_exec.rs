use granite_adapter::exec_output::extract_rows_affected;
use granite_adapter::exec_output::legacy_exec_result;
use granite_adapter::exec_output::parse_legacy_exec_output;
use granite_adapter::exec_output::parse_row_count_line;
use granite_adapter::exec_output::split_table_row;

#[test]
fn parses_legacy_select_rows() {
    let output = "id | name\n-- | ----\n1 | Ada\n2 | Grace\n(2 row(s))\n";
    let result = parse_legacy_exec_output(output, 7).unwrap();
    assert_eq!(result.columns, vec!["id", "name"]);
    assert_eq!(
        result.rows,
        vec![
            vec!["1".to_string(), "Ada".to_string()],
            vec!["2".to_string(), "Grace".to_string()]
        ]
    );
    assert_eq!(result.duration_ms, 7);
    assert_eq!(result.rows_affected, Some(2));
    assert_eq!(result.message.as_deref(), Some("2 row(s)"));
}

#[test]
fn parses_legacy_message_only() {
    let output = "3 row(s) inserted\n";
    let result = parse_legacy_exec_output(output, 12).unwrap();
    assert!(result.columns.is_empty());
    assert!(result.rows.is_empty());
    assert_eq!(result.duration_ms, 12);
    assert_eq!(result.rows_affected, Some(3));
    assert_eq!(result.message.as_deref(), Some("3 row(s) inserted"));
}

#[test]
fn parses_legacy_zero_row_select() {
    let output = "id | name\n-- | ----\n(0 row(s))\n";
    let result = parse_legacy_exec_output(output, 5).unwrap();
    assert_eq!(result.columns, vec!["id", "name"]);
    assert!(result.rows.is_empty());
    assert_eq!(result.duration_ms, 5);
    assert_eq!(result.rows_affected, None);
    assert_eq!(result.message.as_deref(), Some("0 row(s)"));
}

#[test]
fn rejects_row_with_wrong_cell_count() {
    let output = "id | name\n-- | ----\n1 | Ada | extra\n(1 row(s))\n";
    let err = parse_legacy_exec_output(output, 1).unwrap_err();
    assert_eq!(err, "row column count mismatch");
}

#[test]
fn rejects_empty_output() {
    let err = parse_legacy_exec_output("   \n\n  \n", 1).unwrap_err();
    assert_eq!(err, "granitectl returned no output");
}

#[test]
fn rejects_header_without_separator() {
    let err = parse_legacy_exec_output("(5 row(s))\n", 3).unwrap_err();
    assert_eq!(err, "unexpected table output");
}

#[test]
fn derives_count_from_data_rows_without_trailer() {
    let output = "a | b\n--+--\nx | y\nz | w\n";
    let result = parse_legacy_exec_output(output, 2).unwrap();
    assert_eq!(result.columns, vec!["a", "b"]);
    assert_eq!(result.rows.len(), 2);
    assert_eq!(result.rows_affected, Some(2));
    assert_eq!(result.message.as_deref(), Some("2 row(s)"));
}

#[test]
fn zero_trailer_never_counts_as_affected() {
    let output = "a | b\n--+--\nx | y\n(0 row(s))\n";
    let result = parse_legacy_exec_output(output, 6).unwrap();
    assert_eq!(result.rows.len(), 1);
    assert_eq!(result.rows_affected, None);
    assert_eq!(result.message.as_deref(), Some("0 row(s)"));
}

#[test]
fn status_message_with_zero_count_keeps_none() {
    let result = parse_legacy_exec_output("0 row(s) updated\n", 4).unwrap();
    assert_eq!(result.rows_affected, None);
    assert_eq!(result.message.as_deref(), Some("0 row(s) updated"));
}

#[test]
fn legacy_exec_result_matches_parser() {
    let output = "n\n-\n42\n(1 row(s))\n";
    let result = legacy_exec_result(output, 9).unwrap();
    assert_eq!(result.columns, vec!["n"]);
    assert_eq!(result.rows, vec![vec!["42".to_string()]]);
    assert_eq!(result.duration_ms, 9);
    assert_eq!(result.rows_affected, Some(1));
    assert_eq!(result.message.as_deref(), Some("1 row(s)"));
}

#[test]
fn parses_output_with_carriage_returns() {
    let output = "id | name\r\n-- | ----\r\n1 | Ada\r\n(1 row(s))\r\n";
    let result = parse_legacy_exec_output(output, 3).unwrap();
    assert_eq!(result.columns, vec!["id", "name"]);
    assert_eq!(result.rows, vec![vec!["1".to_string(), "Ada".to_string()]]);
    assert_eq!(result.rows_affected, Some(1));
}

#[test]
fn unrecognized_trailer_stays_a_data_row() {
    let output = "a\n-\n(done)\n";
    let result = parse_legacy_exec_output(output, 2).unwrap();
    assert_eq!(result.rows, vec![vec!["(done)".to_string()]]);
    assert_eq!(result.rows_affected, Some(1));
    assert_eq!(result.message.as_deref(), Some("1 row(s)"));
}

#[test]
fn splits_and_trims_table_cells() {
    assert_eq!(split_table_row("  a  | b |c "), vec!["a", "b", "c"]);
    assert_eq!(split_table_row(""), vec![""]);
    assert_eq!(split_table_row(" x "), vec!["x"]);
}

#[test]
fn recognizes_row_count_trailers() {
    assert_eq!(parse_row_count_line("(2 row(s))"), Some(2));
    assert_eq!(parse_row_count_line("  (0 row(s))  "), Some(0));
    assert_eq!(parse_row_count_line("(2 rows)"), None);
    assert_eq!(parse_row_count_line("2 row(s)"), None);
    assert_eq!(parse_row_count_line("(x row(s))"), None);
    assert_eq!(parse_row_count_line("()"), None);
}

#[test]
fn extracts_leading_digit_runs() {
    assert_eq!(extract_rows_affected("3 row(s) inserted"), Some(3));
    assert_eq!(extract_rows_affected("updated 12 rows"), Some(12));
    assert_eq!(extract_rows_affected("0 row(s) deleted"), None);
    assert_eq!(extract_rows_affected("nothing here"), None);
    assert_eq!(extract_rows_affected("done 40 of 50"), Some(40));
}
