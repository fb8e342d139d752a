use invar::command::{
    all_warnings, eq_ignore_ascii_case, exit_code, parse_args, select_sheets, sheet_list,
    total_rows, Command,
};
use invar::data::snapshot::sheets;
use invar::data::Table;

fn argv(a: &[&str]) -> Vec<String> {
    a.iter().map(|s| s.to_string()).collect()
}

#[test]
fn an_output_is_required() {
    assert_eq!(
        parse_args(&argv(&[])).err().as_deref(),
        Some("nothing to write: pass --xlsx, --csv, or both")
    );
    assert_eq!(
        parse_args(&argv(&["--quiet"])).err().as_deref(),
        Some("nothing to write: pass --xlsx, --csv, or both")
    );
}

#[test]
fn flags_are_read_into_the_arguments() {
    match parse_args(&argv(&[
        "--xlsx", "out.xlsx", "--config", "c.json", "--sheets", " vInfo, ,vHost ", "--quiet",
        "--include-file-info",
    ])) {
        Ok(Command::Run(a)) => {
            assert_eq!(a.xlsx.as_deref(), Some("out.xlsx"));
            assert_eq!(a.config.as_deref(), Some("c.json"));
            assert_eq!(a.csv, None);
            assert_eq!(a.sheets, Some(vec!["vInfo".to_string(), "vHost".to_string()]));
            assert!(a.quiet);
            assert!(a.include_file_info);
        }
        _ => panic!("a complete command line runs"),
    }
}

#[test]
fn a_flag_without_its_value_names_itself() {
    assert_eq!(parse_args(&argv(&["--csv"])).err().as_deref(), Some("--csv needs a value"));
    assert_eq!(
        parse_args(&argv(&["--xlsx", "a", "--sheets"])).err().as_deref(),
        Some("--sheets needs a value")
    );
}

#[test]
fn an_unknown_argument_is_an_error() {
    assert_eq!(
        parse_args(&argv(&["--xlsx", "a", "--bogus"])).err().as_deref(),
        Some("unknown argument: --bogus")
    );
}

#[test]
fn help_and_the_sheet_list_answer_at_once() {
    assert!(matches!(parse_args(&argv(&["-h"])), Ok(Command::Help)));
    assert!(matches!(parse_args(&argv(&["--help", "--bogus"])), Ok(Command::Help)));
    assert!(matches!(parse_args(&argv(&["--list-sheets"])), Ok(Command::ListSheets)));
    assert!(parse_args(&argv(&["--bogus", "--help"])).is_err());
}

#[test]
fn a_sheet_list_is_split_and_trimmed() {
    assert_eq!(sheet_list("a, b ,,c"), vec!["a", "b", "c"]);
    assert!(sheet_list("").is_empty());
    assert!(sheet_list(" , ").is_empty());
}

#[test]
fn sheet_names_match_ignoring_ascii_case() {
    assert!(eq_ignore_ascii_case("vInfo", "VINFO"));
    assert!(eq_ignore_ascii_case("vhost", "vHost"));
    assert!(!eq_ignore_ascii_case("vInfo", "vInf"));
    assert!(!eq_ignore_ascii_case("a[", "A{"));
    assert!(eq_ignore_ascii_case("", ""));
}

#[test]
fn requested_sheets_are_chosen_in_the_order_given() {
    let specs = sheets();
    let req = Some(vec!["VHEALTH".to_string(), "vinfo".to_string(), "vInfo".to_string()]);
    assert_eq!(select_sheets(&specs, &req, false), Ok(vec![4, 0, 0]));
}

#[test]
fn an_unknown_sheet_name_is_an_error() {
    let specs = sheets();
    let req = Some(vec!["vInfo".to_string(), "vInfoo".to_string(), "nope".to_string()]);
    assert_eq!(
        select_sheets(&specs, &req, false),
        Err("no such sheet: vInfoo. Run --list-sheets for the names.".to_string())
    );
}

#[test]
fn by_default_every_sheet_is_chosen() {
    let specs = sheets();
    assert_eq!(select_sheets(&specs, &None, false), Ok(vec![0, 1, 2, 3, 4]));
    assert_eq!(select_sheets(&specs, &None, true), Ok(vec![0, 1, 2, 3, 4]));
}

#[test]
fn the_exit_status_tells_a_short_inventory_from_a_clean_one() {
    assert_eq!(exit_code(&Ok(Vec::new())), 0);
    assert_eq!(exit_code(&Ok(vec!["vc1: down".to_string()])), 2);
    assert_eq!(exit_code(&Err("no config".to_string())), 1);
}

#[test]
fn warnings_and_rows_are_gathered_across_tables() {
    let mut a = Table::new("a", Vec::new());
    a.warnings.push("one".to_string());
    a.rows.push(Vec::new());
    let mut b = Table::new("b", Vec::new());
    b.warnings.push("two".to_string());
    b.warnings.push("three".to_string());
    b.rows.push(Vec::new());
    b.rows.push(Vec::new());
    let tables = vec![a, b];
    assert_eq!(all_warnings(&tables), vec!["one", "two", "three"]);
    assert_eq!(total_rows(&tables), 3);
}
