use elixlsx::cell::{date_time, CellValue, DateTime};
use elixlsx::error::ExcelError;
use elixlsx::int_map::IntMap;
use elixlsx::model::CellStyle;
use elixlsx::term::Term;
use elixlsx::wb_compiler::make_workbook_comp_info;
use elixlsx::wb_writer::{create_excel, write_excel};
use elixlsx::workbook::{Sheet, Workbook};
use elixlsx::worksheet::{split_into_content_style, write_sheet};
use elixlsx::xl_styles::write_xl_styles;

fn bin(s: &str) -> Term {
    Term::Binary(s.to_string())
}

fn atom(s: &str) -> Term {
    Term::Atom(s.to_string())
}

fn kw(k: &str, v: Term) -> Term {
    Term::Tuple(vec![atom(k), v])
}

fn rows(rs: Vec<Vec<Term>>) -> Term {
    Term::List(rs.into_iter().map(Term::List).collect())
}

fn workbook(sheets: Vec<Sheet>) -> Workbook {
    Workbook { sheets, datetime: "2020-01-01T00:00:00Z".to_string() }
}

fn part<'a>(parts: &'a [(String, String)], name: &str) -> &'a str {
    parts.iter().find(|(k, _)| k == name).map(|(_, v)| v.as_str()).unwrap()
}

#[test]
fn date_format_number_is_timestamp() {
    let styled = Term::List(vec![Term::Integer(44000), Term::List(vec![kw("num_format", bin("yyyy-mm-dd"))])]);
    let wb = workbook(vec![]);
    let mut wci = make_workbook_comp_info(&wb);
    let (v, sid) = split_into_content_style(&styled, &mut wci).unwrap();
    assert!(matches!(v, CellValue::ExcelTS(ref s) if s == "44000"));
    assert_eq!(sid, 2);
    let plain = Term::List(vec![Term::Integer(44000), Term::List(vec![kw("num_format", bin(""))])]);
    let (v, sid) = split_into_content_style(&plain, &mut wci).unwrap();
    assert!(matches!(v, CellValue::Number(ref s) if s == "44000"));
    assert_eq!(sid, 0);
}

#[test]
fn classification_of_shapes() {
    assert!(matches!(CellValue::new(&Term::Integer(-7), false), CellValue::Number(ref s) if s == "-7"));
    assert!(matches!(CellValue::new(&Term::Real("1.5".to_string()), true), CellValue::ExcelTS(ref s) if s == "1.5"));
    assert!(matches!(CellValue::new(&bin("hi"), true), CellValue::String(ref s) if s == "hi"));
    assert!(matches!(CellValue::new(&atom("empty"), false), CellValue::Empty));
    assert!(matches!(CellValue::new(&atom("nil"), false), CellValue::Unrecognized));
    assert!(matches!(CellValue::new(&Term::Other, false), CellValue::Unrecognized));
    let ts = Term::Tuple(vec![atom("excelts"), bin("43000.5")]);
    assert!(matches!(CellValue::new(&ts, false), CellValue::ExcelTS(ref s) if s == "43000.5"));
    let f = Term::Tuple(vec![atom("formula"), bin("SUM(A1:A2)")]);
    assert!(matches!(CellValue::new(&f, false), CellValue::Formula(ref s, ref o) if s == "SUM(A1:A2)" && o.is_empty()));
    let bad = Term::Tuple(vec![atom("other"), bin("x")]);
    assert!(matches!(CellValue::new(&bad, false), CellValue::Unrecognized));
}

fn date_term(y: i64, m: i64, d: i64) -> Term {
    Term::Tuple(vec![
        Term::Tuple(vec![Term::Integer(y), Term::Integer(m), Term::Integer(d)]),
        Term::Tuple(vec![Term::Integer(13), Term::Integer(45), Term::Integer(10)]),
    ])
}

#[test]
fn date_tuples_under_date_format() {
    match CellValue::new(&date_term(2020, 2, 29), true) {
        CellValue::Date(DateTime { year, month, day, hour, minute, second }) => {
            assert_eq!((year, month, day, hour, minute, second), (2020, 2, 29, 13, 45, 10));
        }
        other => panic!("unexpected {:?}", other),
    }
    assert!(matches!(CellValue::new(&date_term(2019, 2, 29), true), CellValue::Unrecognized));
    assert!(matches!(CellValue::new(&date_term(2020, 13, 1), true), CellValue::Unrecognized));
    assert!(matches!(CellValue::new(&date_term(2020, 2, 29), false), CellValue::Unrecognized));
}

#[test]
fn style_from_properties() {
    let props = vec![
        kw("bold", atom("true")),
        kw("size", Term::Integer(14)),
        kw("bg_color", bin("#FF0000")),
        kw("yyyymmdd", atom("true")),
        kw("left", Term::List(vec![kw("style", bin("dash_dot")), kw("color", bin("#00FF00"))])),
    ];
    let st = CellStyle::new(&props).unwrap();
    let f = st.font.as_ref().unwrap();
    assert!(f.bold && !f.italic);
    assert_eq!(f.size, 14);
    assert_eq!(st.fill, "#FF0000");
    assert_eq!(st.numfmt, "yyyy-mm-dd");
    assert!(st.is_date());
    assert_eq!(st.border.left.type_, "left");
    assert_eq!(st.border.left.style, "dash_dot");
    assert_eq!(st.border.right.style, "");
    assert!(!st.is_default());
}

#[test]
fn empty_properties_give_default_style() {
    let st = CellStyle::new(&[]).unwrap();
    assert!(st.font.is_none());
    assert!(st.is_default());
    assert!(!st.is_date());
}

#[test]
fn malformed_properties_are_bad_arg() {
    assert_eq!(CellStyle::new(&[kw("size", bin("big"))]).unwrap_err(), ExcelError::BadArg);
    assert_eq!(CellStyle::new(&[bin("not a pair")]).unwrap_err(), ExcelError::BadArg);
    assert_eq!(CellStyle::new(&[kw("left", Term::Integer(1))]).unwrap_err(), ExcelError::BadArg);
    let sheet = Sheet {
        rows: rows(vec![vec![Term::List(vec![bin("x"), Term::List(vec![kw("color", Term::Other)])])]]),
        ..Sheet::new("S".to_string())
    };
    assert_eq!(write_excel(&workbook(vec![sheet])).unwrap_err(), ExcelError::BadArg);
}

#[test]
fn end_to_end_one_sheet() {
    let mut sheet = Sheet::new("Sheet1".to_string());
    sheet.rows = rows(vec![vec![Term::List(vec![bin("hello"), Term::List(vec![])]), Term::Integer(42)]]);
    let parts = write_excel(&workbook(vec![sheet])).unwrap();
    let names: Vec<&str> = parts.iter().map(|(k, _)| k.as_str()).collect();
    assert_eq!(
        names,
        vec![
            "docProps/app.xml",
            "docProps/core.xml",
            "_rels/.rels",
            "xl/worksheets/sheet1.xml",
            "xl/styles.xml",
            "xl/sharedStrings.xml",
            "xl/workbook.xml",
            "xl/_rels/workbook.xml.rels",
            "[Content_Types].xml",
        ]
    );
    let sst = part(&parts, "xl/sharedStrings.xml");
    assert!(sst.contains("count=\"1\" uniqueCount=\"1\""));
    assert_eq!(sst.matches("<si>").count(), 1);
    assert!(sst.contains("<si><t>hello</t></si>"));
    let styles = part(&parts, "xl/styles.xml");
    assert!(styles.contains("<cellXfs count=\"1\">"));
    let ws = part(&parts, "xl/worksheets/sheet1.xml");
    assert!(ws.contains("<c r=\"A1\" s=\"0\" t=\"s\"><v>1</v></c>"));
    assert!(ws.contains("<c r=\"B1\" s=\"0\" t=\"n\"><v>42</v></c>"));
    assert!(ws.contains("<row r=\"1\">"));
    let ct = part(&parts, "[Content_Types].xml");
    assert_eq!(ct.matches("/xl/worksheets/").count(), 1);
    assert!(ct.contains("/xl/worksheets/sheet1.xml"));
    let wbx = part(&parts, "xl/workbook.xml");
    assert!(wbx.contains("<sheet name=\"Sheet1\" sheetId=\"1\" state=\"visible\" r:id=\"rId2\"/>"));
    let rels = part(&parts, "xl/_rels/workbook.xml.rels");
    assert!(rels.contains("Id=\"rId2\""));
    assert!(rels.contains("<Relationship Id=\"rId3\" Type=\"http://schemas.openxmlformats.org/officeDocument/2006/relationships/sharedStrings\""));
    let core = part(&parts, "docProps/core.xml");
    assert!(core.contains("<dc:language>en-US</dc:language>"));
    assert!(core.contains("<cp:revision>1</cp:revision>"));
    assert!(core.contains(">2020-01-01T00:00:00Z</dcterms:created>"));
}

#[test]
fn unstyled_cells_reference_style_zero() {
    let mut sheet = Sheet::new("S".to_string());
    sheet.rows = rows(vec![
        vec![bin("a"), Term::Integer(1), Term::List(vec![bin("b")])],
        vec![atom("empty"), Term::List(vec![Term::Integer(3), Term::List(vec![])])],
    ]);
    let parts = write_excel(&workbook(vec![sheet])).unwrap();
    let ws = part(&parts, "xl/worksheets/sheet1.xml");
    assert_eq!(ws.matches("<c ").count(), 5);
    assert_eq!(ws.matches(" s=\"0\"").count(), 5);
    let styles = part(&parts, "xl/styles.xml");
    assert!(styles.contains("<cellXfs count=\"1\">"));
    assert_eq!(styles.matches("<xf ").count(), 2);
}

#[test]
fn merge_freeze_gridlines() {
    let mut sheet = Sheet::new("S".to_string());
    sheet.merge_cells = vec![("A1".to_string(), "B1".to_string())];
    sheet.pane_freeze = Some((1, 1));
    sheet.show_grid_lines = false;
    let wb = workbook(vec![sheet]);
    let mut wci = make_workbook_comp_info(&wb);
    let mut out = String::new();
    write_sheet(&mut out, &wb.sheets[0], &mut wci).unwrap();
    assert!(out.contains("<sheetView workbookViewId=\"0\" showGridLines=\"0\">"));
    assert!(out.contains("<pane xSplit=\"1\" ySplit=\"1\" topLeftCell=\"B2\" activePane=\"bottomRight\" state=\"frozen\"/>"));
    assert!(out.contains("<mergeCells count=\"1\"><mergeCell ref=\"A1:B1\"/></mergeCells>"));
}

#[test]
fn freeze_rows_only_and_columns_only() {
    let mut rows_only = Sheet::new("S".to_string());
    rows_only.pane_freeze = Some((0, 2));
    let mut cols_only = Sheet::new("T".to_string());
    cols_only.pane_freeze = Some((3, 0));
    let wb = workbook(vec![rows_only, cols_only]);
    let mut wci = make_workbook_comp_info(&wb);
    let mut a = String::new();
    write_sheet(&mut a, &wb.sheets[0], &mut wci).unwrap();
    assert!(a.contains("topLeftCell=\"A3\" activePane=\"topRight\""));
    let mut b = String::new();
    write_sheet(&mut b, &wb.sheets[1], &mut wci).unwrap();
    assert!(b.contains("topLeftCell=\"D1\" activePane=\"bottomLeft\""));
    assert!(b.contains("showGridLines") == false);
}

#[test]
fn widths_heights_and_cells() {
    let mut sheet = Sheet::new("R&D".to_string());
    sheet.col_widths.insert(3, 20);
    sheet.col_widths.insert(1, 10);
    sheet.col_widths.insert(3, 25);
    sheet.row_heights.insert(2, 30);
    let mut opts = Vec::new();
    opts.push((bin("value"), Term::Integer(3)));
    sheet.rows = rows(vec![
        vec![Term::Tuple(vec![atom("formula"), bin("A2<B2"), Term::Dict(opts)])],
        vec![atom("empty"), Term::Real("2.5".to_string()), bin("x&y")],
    ]);
    let parts = write_excel(&workbook(vec![sheet])).unwrap();
    let ws = part(&parts, "xl/worksheets/sheet1.xml");
    assert!(ws.contains("<cols><col min=\"1\" max=\"1\" width=\"10\" customWidth=\"1\"/><col min=\"3\" max=\"3\" width=\"25\" customWidth=\"1\"/></cols>"));
    assert!(ws.contains("<c r=\"A1\" s=\"0\"><f>A2&lt;B2</f><v>3</v></c>"));
    assert!(ws.contains("<row r=\"2\" customHeight=\"1\" ht=\"30\"><c r=\"A2\" s=\"0\"></c><c r=\"B2\" s=\"0\" t=\"n\"><v>2.5</v></c><c r=\"C2\" s=\"0\" t=\"s\"><v>1</v></c></row>"));
    let sst = part(&parts, "xl/sharedStrings.xml");
    assert!(sst.contains("<si><t>x&amp;y</t></si>"));
    let wbx = part(&parts, "xl/workbook.xml");
    assert!(wbx.contains("name=\"R&amp;D\""));
}

#[test]
fn int_map_keeps_keys_sorted() {
    let mut m = IntMap::new();
    m.insert(5, 1);
    m.insert(-2, 7);
    m.insert(5, 9);
    m.insert(0, 0);
    assert_eq!(m.entries(), &vec![(-2, 7), (0, 0), (5, 9)]);
    assert_eq!(m.get(5), Some(9));
    assert_eq!(m.get(4), None);
}

#[test]
fn styles_part_references() {
    let bold = || Term::List(vec![kw("bold", atom("true")), kw("wrap_text", atom("true")), kw("align_horizontal", atom("center"))]);
    let mut sheet = Sheet::new("S".to_string());
    sheet.rows = rows(vec![vec![
        Term::List(vec![bin("a"), bold()]),
        Term::List(vec![bin("b"), Term::List(vec![kw("bg_color", bin("#112233")), kw("num_format", bin("0.00"))])]),
        Term::List(vec![bin("c"), bold()]),
    ]]);
    let wb = workbook(vec![sheet]);
    let mut wci = make_workbook_comp_info(&wb);
    let mut ws = String::new();
    write_sheet(&mut ws, &wb.sheets[0], &mut wci).unwrap();
    assert!(ws.contains("<c r=\"A1\" s=\"2\" t=\"s\">"));
    assert!(ws.contains("<c r=\"B1\" s=\"3\" t=\"s\">"));
    assert!(ws.contains("<c r=\"C1\" s=\"2\" t=\"s\">"));
    let mut st = String::new();
    write_xl_styles(&mut st, &mut wci);
    assert!(st.contains("<cellXfs count=\"3\">"));
    assert!(st.contains("<xf borderId=\"1\" fillId=\"0\" fontId=\"2\" numFmtId=\"0\" xfId=\"0\" applyAlignment=\"1\"><alignment wrapText=\"1\" horizontal=\"center\"/></xf>"));
    assert!(st.contains("<xf borderId=\"1\" fillId=\"3\" fontId=\"0\" numFmtId=\"165\" xfId=\"0\"></xf>"));
    assert!(st.contains("<numFmts count=\"1\"><numFmt numFmtId=\"165\" formatCode=\"0.00\"/></numFmts>"));
    assert!(st.contains("<fonts count=\"2\"><font /><font><b val=\"1\"/></font></fonts>"));
    assert!(st.contains("<fills count=\"3\">"));
    assert!(st.contains("<patternFill patternType=\"solid\"><fgColor rgb=\"#112233\" /></patternFill>"));
    assert!(st.contains("<borders count=\"2\"><border /><border diagonalUp=\"false\" diagonalDown=\"false\"><left></left><right></right><top></top><bottom></bottom><diagonal></diagonal></border></borders>"));
}

#[test]
fn create_excel_from_fresh_state() {
    let wb = workbook(vec![Sheet::new("A".to_string()), Sheet::new("B".to_string())]);
    let wci = make_workbook_comp_info(&wb);
    assert_eq!(wci.next_free_xl_rid, 4);
    assert_eq!(wci.sheet_info[1].rid, "rId3");
    assert_eq!(wci.sheet_info[1].filename, "sheet2.xml");
    let parts = create_excel(&wb, wci).unwrap();
    assert_eq!(parts.len(), 10);
    let rels = part(&parts, "xl/_rels/workbook.xml.rels");
    assert!(rels.contains("<Relationship Id=\"rId4\""));
    assert!(part(&parts, "xl/worksheets/sheet2.xml").contains("<sheetData></sheetData>"));
}

#[test]
fn date_time_needs_calendar_day_and_time_of_day() {
    let d = date_time(2021, 3, 4, 5, 6, 7, true).unwrap();
    assert_eq!((d.year, d.month, d.day, d.hour, d.minute, d.second), (2021, 3, 4, 5, 6, 7));
    assert!(date_time(2021, 3, 4, 5, 6, 7, false).is_none());
    assert!(date_time(2021, 3, 4, 24, 0, 0, true).is_none());
    assert!(date_time(2021, 3, 4, 0, 60, 0, true).is_none());
    assert!(date_time(2021, 3, 4, 0, 0, -1, true).is_none());
}
