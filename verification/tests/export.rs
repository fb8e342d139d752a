use invar::export::{csv_field, csv_line};
use invar::data::timestamp::{format_created, is_timestamp};
use invar::data::{Cell, Column, Table};
use invar::export::{
    cell_write, column_format, column_formats, metadata_table, rvtools_sheet_order, row_writes,
    sheet_order, sheet_writes, CellWrite, ColumnFormat,
};

fn table(name: &str, columns: Vec<Column>, rows: Vec<Vec<Cell>>) -> Table {
    let mut t = Table::new(name, columns);
    t.rows = rows;
    t
}

#[test]
fn a_number_column_is_decimal_only_when_a_value_has_a_fraction() {
    let t = table(
        "vInfo",
        vec![Column::number("CPUs"), Column::number("Size")],
        vec![
            vec![Cell::Number(400), Cell::Number(150)],
            vec![Cell::Empty, Cell::Number(200)],
        ],
    );
    assert_eq!(column_format(&t, 0), ColumnFormat::Integer);
    assert_eq!(column_format(&t, 1), ColumnFormat::Decimal);
}

#[test]
fn a_text_column_of_timestamps_is_a_date_column() {
    let t = table(
        "vSnapshot",
        vec![Column::text("Date"), Column::text("Mixed"), Column::text("Blank"), Column::bool("On")],
        vec![
            vec![Cell::Text("2026-01-02T03:04:05Z".into()), Cell::Text("2026-01-02T03:04:05Z".into()), Cell::Empty, Cell::Bool(true)],
            vec![Cell::Empty, Cell::Text("soon".into()), Cell::Text(String::new()), Cell::Bool(false)],
        ],
    );
    assert_eq!(column_formats(&t), vec![ColumnFormat::Date, ColumnFormat::Text, ColumnFormat::Text, ColumnFormat::Text]);
}

#[test]
fn booleans_are_written_as_words() {
    assert!(matches!(cell_write(&Cell::Bool(true), ColumnFormat::Text), CellWrite::Text(s) if s == "True"));
    assert!(matches!(cell_write(&Cell::Bool(false), ColumnFormat::Text), CellWrite::Text(s) if s == "False"));
    assert!(matches!(cell_write(&Cell::Empty, ColumnFormat::Decimal), CellWrite::Blank));
    assert!(matches!(
        cell_write(&Cell::Number(1234), ColumnFormat::Integer),
        CellWrite::Number { hundredths: 1234, integer: true }
    ));
    assert!(matches!(cell_write(&Cell::Text("2026-01-02T03:04:05Z".into()), ColumnFormat::Date), CellWrite::Date(_)));
    assert!(matches!(cell_write(&Cell::Text("not a date".into()), ColumnFormat::Date), CellWrite::Text(_)));
    assert!(matches!(cell_write(&Cell::Text("2026-01-02T03:04:05Z".into()), ColumnFormat::Text), CellWrite::Text(_)));
}

#[test]
fn a_cell_past_the_last_column_is_text() {
    let w = row_writes(&vec![Cell::Number(100), Cell::Number(100)], &vec![ColumnFormat::Integer]);
    assert!(matches!(w[0], CellWrite::Number { integer: true, .. }));
    assert!(matches!(w[1], CellWrite::Number { integer: false, .. }));
}

#[test]
fn every_row_of_a_sheet_is_written() {
    let t = table("vInfo", vec![Column::number("n")], vec![vec![Cell::Number(100)], vec![Cell::Number(250)]]);
    let w = sheet_writes(&t);
    assert_eq!(w.len(), 2);
    assert!(matches!(w[1][0], CellWrite::Number { hundredths: 250, integer: false }));
}

#[test]
fn sheets_follow_rvtools_order_and_none_is_dropped() {
    let tables = vec![
        table("vHealth", Vec::new(), Vec::new()),
        table("Custom", Vec::new(), Vec::new()),
        table("vInfo", Vec::new(), Vec::new()),
        table("vHost", Vec::new(), Vec::new()),
        table("vInfo", Vec::new(), Vec::new()),
    ];
    assert_eq!(sheet_order(&tables), vec![2, 3, 0, 1]);
    assert_eq!(rvtools_sheet_order()[0], "vInfo");
    assert_eq!(rvtools_sheet_order().len(), 27);
}

#[test]
fn the_metadata_sheet_names_this_tool() {
    let t = metadata_table(&vec!["vc1".to_string(), "vc2".to_string()], "invar", "0.1.0", "2026/01/02 03:04:05");
    assert_eq!(t.name, "vMetaData");
    assert_eq!(t.columns.len(), 4);
    assert_eq!(t.columns[0].label, "RVTools major version");
    assert_eq!(t.rows.len(), 2);
    assert!(matches!(&t.rows[0][1], Cell::Text(s) if s == "invar 0.1.0"));
    assert!(matches!(&t.rows[1][3], Cell::Text(s) if s == "vc2"));
}

#[test]
fn timestamps_are_shown_the_rvtools_way() {
    assert!(is_timestamp("2026-01-02T03:04:05Z"));
    assert!(!is_timestamp("yesterday"));
    assert_eq!(format_created("2026-01-02T03:04:05Z"), "2026/01/02 03:04:05");
    assert_eq!(format_created("2026-01-02T03:04:05+02:00"), "2026/01/02 01:04:05");
    assert_eq!(format_created("2026-01-02T03:04:05.123Z"), "2026/01/02 03:04:05");
    assert_eq!(format_created("not a time"), "not a time");
}

#[test]
fn csv_fields_are_quoted_only_when_they_must_be() {
    assert_eq!(csv_field("plain"), "plain");
    assert_eq!(csv_field("a,b"), "\"a,b\"");
    assert_eq!(csv_field("say \"hi\""), "\"say \"\"hi\"\"\"");
    assert_eq!(csv_field("two\nlines"), "\"two\nlines\"");
    assert_eq!(csv_field(""), "");
    assert_eq!(csv_line(&vec!["vm,1".to_string(), "on".to_string(), String::new()]), "\"vm,1\",on,");
}
