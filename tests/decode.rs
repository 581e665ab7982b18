use elixlsx::error::ExcelError;
use elixlsx::term::Term;
use elixlsx::wb_writer::write_excel;
use elixlsx::workbook::{Sheet, Workbook};

fn atom(s: &str) -> Term {
    Term::Atom(s.to_string())
}

fn bin(s: &str) -> Term {
    Term::Binary(s.to_string())
}

fn dict(entries: Vec<(&str, Term)>) -> Term {
    Term::Dict(entries.into_iter().map(|(k, v)| (atom(k), v)).collect())
}

fn one_row() -> Term {
    Term::List(vec![Term::List(vec![bin("a"), Term::Integer(2)])])
}

#[test]
fn sheet_defaults() {
    let s = Sheet::decode(dict(vec![("rows", one_row())])).unwrap();
    assert_eq!(s.name, "");
    assert!(s.show_grid_lines);
    assert_eq!(s.pane_freeze, None);
    assert_eq!(s.col_widths.len(), 0);
    assert!(s.merge_cells.is_empty());
}

#[test]
fn sheet_fields() {
    let widths = Term::Dict(vec![(Term::Integer(2), Term::Integer(15)), (Term::Integer(1), Term::Integer(9))]);
    let merges = Term::List(vec![Term::Tuple(vec![bin("A1"), bin("C1")])]);
    let s = Sheet::decode(dict(vec![
        ("name", bin("Data")),
        ("rows", one_row()),
        ("col_widths", widths),
        ("row_heights", Term::Dict(vec![(Term::Integer(1), Term::Integer(40))])),
        ("merge_cells", merges),
        ("pane_freeze", Term::Tuple(vec![Term::Integer(0), Term::Integer(1)])),
        ("show_grid_lines", atom("false")),
    ]))
    .unwrap();
    assert_eq!(s.name, "Data");
    assert_eq!(s.col_widths.entries(), &vec![(1, 9), (2, 15)]);
    assert_eq!(s.row_heights.get(1), Some(40));
    assert_eq!(s.merge_cells, vec![("A1".to_string(), "C1".to_string())]);
    assert_eq!(s.pane_freeze, Some((0, 1)));
    assert!(!s.show_grid_lines);
}

#[test]
fn sheet_requires_rows() {
    assert_eq!(Sheet::decode(dict(vec![("name", bin("x"))])).unwrap_err(), ExcelError::BadArg);
    assert_eq!(Sheet::decode(bin("x")).unwrap_err(), ExcelError::BadArg);
}

#[test]
fn sheet_rejects_malformed_maps() {
    let bad_widths = dict(vec![("rows", one_row()), ("col_widths", Term::Dict(vec![(bin("A"), Term::Integer(3))]))]);
    assert_eq!(Sheet::decode(bad_widths).unwrap_err(), ExcelError::BadArg);
    let bad_merge = dict(vec![("rows", one_row()), ("merge_cells", Term::List(vec![bin("A1:B1")]))]);
    assert_eq!(Sheet::decode(bad_merge).unwrap_err(), ExcelError::BadArg);
}

#[test]
fn workbook_time_stamps() {
    let w = Workbook::decode(dict(vec![("datetime", Term::Integer(0))]), "now".to_string()).unwrap();
    assert_eq!(w.datetime, "1970-01-01T00:00:00");
    assert!(w.sheets.is_empty());
    let w = Workbook::decode(dict(vec![("datetime", Term::Integer(86400 + 3661))]), "now".to_string()).unwrap();
    assert_eq!(w.datetime, "1970-01-02T01:01:01");
    let w = Workbook::decode(dict(vec![("datetime", bin("2021-05-06T07:08:09Z"))]), "now".to_string()).unwrap();
    assert_eq!(w.datetime, "2021-05-06T07:08:09Z");
    let w = Workbook::decode(dict(vec![]), "now".to_string()).unwrap();
    assert_eq!(w.datetime, "now");
    let w = Workbook::decode(dict(vec![("datetime", Term::Integer(i64::MAX))]), "now".to_string()).unwrap();
    assert_eq!(w.datetime, "now");
}

#[test]
fn workbook_sheets_in_order() {
    let sheets = Term::List(vec![
        dict(vec![("name", bin("first")), ("rows", one_row())]),
        dict(vec![("name", bin("second")), ("rows", Term::List(vec![]))]),
    ]);
    let w = Workbook::decode(dict(vec![("sheets", sheets)]), "now".to_string()).unwrap();
    assert_eq!(w.sheets.len(), 2);
    assert_eq!(w.sheets[0].name, "first");
    assert_eq!(w.sheets[1].name, "second");
    let parts = write_excel(&w).unwrap();
    let wb = &parts.iter().find(|(k, _)| k == "xl/workbook.xml").unwrap().1;
    assert!(wb.find("first").unwrap() < wb.find("second").unwrap());
}

#[test]
fn workbook_rejects_bad_sheets() {
    let sheets = Term::List(vec![dict(vec![("name", bin("no rows"))])]);
    assert_eq!(Workbook::decode(dict(vec![("sheets", sheets)]), "now".to_string()).unwrap_err(), ExcelError::BadArg);
    assert_eq!(Workbook::decode(dict(vec![("sheets", bin("x"))]), "now".to_string()).unwrap_err(), ExcelError::BadArg);
    assert_eq!(Workbook::decode(Term::Other, "now".to_string()).unwrap_err(), ExcelError::BadArg);
}

#[test]
fn rows_must_be_lists() {
    let mut s = Sheet::new("S".to_string());
    s.rows = Term::List(vec![bin("not a row")]);
    let w = Workbook { sheets: vec![s], datetime: "t".to_string() };
    assert_eq!(write_excel(&w).unwrap_err(), ExcelError::BadArg);
}
