//! The worksheet part: one pass over a sheet's rows and cells that writes the
//! sheet's XML and interns every string and cell style it meets.
use vstd::prelude::*;
use crate::cell::{CellValue, CellValueView, classify};
use crate::db::{id_in, interned};
use crate::error::ExcelError;
use crate::escape::escape_text;
use crate::int_map::{IntMap, lookup};
use crate::model::{CellStyle, CellStyleView, has_yy, pairs_view, style_is_default};
use crate::style::{style_of, style_ok};
use crate::term::Term;
use crate::text::{int_text, nat_text};
use crate::util::{cell_ref, to_excel_coords};
use crate::wb_compiler::{TablesView, WorkbookCompInfo};
use crate::workbook::Sheet;
use crate::xml_writer::{XmlWriter, attrs_text, write_attrs, write_escaped, write_int, write_nat};

verus! {

/// The style properties of a styled cell `[value, props]` or `[value | props]`:
/// a second element that is a list holds them, else they follow the value.
pub open spec fn style_props(items: Seq<Term>) -> Seq<Term> {
    if items.len() == 2 && items[1] is List {
        items[1]->List_0@
    } else {
        items.drop_first()
    }
}

/// The value of a cell and its style, `None` for the default style; `None`
/// overall when the style properties are malformed.
pub open spec fn cell_split(cell: Term) -> Option<(CellValueView, Option<CellStyleView>)> {
    match cell {
        Term::List(items) => if items@.len() == 0 {
            Some((CellValueView::Unrecognized, None))
        } else {
            let props = style_props(items@);
            if !style_ok(props) {
                None
            } else {
                let st = style_of(props);
                let v = classify(items@[0], has_yy(st.numfmt));
                if style_is_default(st) {
                    Some((v, None))
                } else {
                    Some((v, Some(st)))
                }
            }
        },
        _ => Some((classify(cell, false), None)),
    }
}

/// The value under `key`, the last one where it occurs more than once.
pub open spec fn pair_get(o: Seq<(Seq<char>, Seq<char>)>, key: Seq<char>) -> Option<Seq<char>>
    decreases o.len(),
{
    if o.len() == 0 {
        None
    } else if o.last().0 == key {
        Some(o.last().1)
    } else {
        pair_get(o.drop_last(), key)
    }
}

/// `<c r="ref" s="style"`.
pub open spec fn c_open(r: Seq<char>, sid: nat) -> Seq<char> {
    "<c r=\""@ + r + "\" s=\""@ + nat_text(sid) + "\""@
}

/// The XML of one cell with style reference `sid`, and the string table after it.
pub open spec fn cell_frag(v: CellValueView, r: Seq<char>, sid: nat, strings: Seq<Seq<char>>) -> (
    Seq<char>,
    Seq<Seq<char>>,
) {
    match v {
        CellValueView::String(s) => {
            let t = interned(strings, s);
            (c_open(r, sid) + " t=\"s\"><v>"@ + nat_text(id_in(t, s) as nat) + "</v></c>"@, t)
        },
        CellValueView::Number(n) => (c_open(r, sid) + " t=\"n\"><v>"@ + n + "</v></c>"@, strings),
        CellValueView::ExcelTS(n) => (c_open(r, sid) + " t=\"n\"><v>"@ + n + "</v></c>"@, strings),
        CellValueView::Formula(f, o) => {
            let cached = match pair_get(o, "value"@) {
                Some(x) => "<v>"@ + escape_text(x) + "</v>"@,
                None => Seq::empty(),
            };
            (c_open(r, sid) + "><f>"@ + escape_text(f) + "</f>"@ + cached + "</c>"@, strings)
        },
        CellValueView::Empty => (c_open(r, sid) + "></c>"@, strings),
        _ => (Seq::empty(), strings),
    }
}

/// The XML of the cell at `row`, `col`, and the tables after it; `None` when
/// its style properties are malformed.
pub open spec fn cell_xml(cell: Term, row: int, col: int, t: TablesView) -> Option<
    (Seq<char>, TablesView),
> {
    match cell_split(cell) {
        None => None,
        Some((v, st)) => {
            let styles = match st {
                None => t.styles,
                Some(s) => interned(t.styles, s),
            };
            let sid: nat = match st {
                None => 0,
                Some(s) => (id_in(styles, s) + 1) as nat,
            };
            let (x, strings) = cell_frag(v, cell_ref(row, col), sid, t.strings);
            Some((x, TablesView { strings, styles }))
        },
    }
}

/// The XML of a row's cells, threaded through the tables.
pub open spec fn cells_xml(cells: Seq<Term>, row: int, t: TablesView) -> Option<
    (Seq<char>, TablesView),
>
    decreases cells.len(),
{
    if cells.len() == 0 {
        Some((Seq::empty(), t))
    } else {
        match cells_xml(cells.drop_last(), row, t) {
            None => None,
            Some((x, t1)) => match cell_xml(cells.last(), row, cells.len() as int, t1) {
                None => None,
                Some((y, t2)) => Some((x + y, t2)),
            },
        }
    }
}

/// The height registered for a row, if any.
pub open spec fn height_of(heights: Seq<(i32, i32)>, row: int) -> Option<i32> {
    if i32::MIN <= row <= i32::MAX {
        lookup(heights, row as i32)
    } else {
        None
    }
}

/// The attributes of a row element.
pub open spec fn row_attrs(row: nat, heights: Seq<(i32, i32)>) -> Seq<(Seq<char>, Seq<char>)> {
    match height_of(heights, row as int) {
        Some(h) => seq![
            ("r"@, nat_text(row)),
            ("customHeight"@, "1"@),
            ("ht"@, int_text(h as int)),
        ],
        None => seq![("r"@, nat_text(row))],
    }
}

/// The XML of the rows, threaded through the tables; `None` when a row is not
/// a list or a cell's style properties are malformed.
pub open spec fn rows_xml(rows: Seq<Term>, heights: Seq<(i32, i32)>, t: TablesView) -> Option<
    (Seq<char>, TablesView),
>
    decreases rows.len(),
{
    if rows.len() == 0 {
        Some((Seq::empty(), t))
    } else {
        match rows_xml(rows.drop_last(), heights, t) {
            None => None,
            Some((x, t1)) => {
                let row = rows.len();
                match rows.last() {
                    Term::List(cells) => match cells_xml(cells@, row as int, t1) {
                        None => None,
                        Some((y, t2)) => Some(
                            (
                                x + "<row"@ + attrs_text(row_attrs(row, heights)) + ">"@ + y
                                    + "</row>"@,
                                t2,
                            ),
                        ),
                    },
                    _ => None,
                }
            },
        }
    }
}

/// Builds the attributes of the row element for `row_index`: its number and,
/// where one is registered, its custom height.
pub fn get_row_attr(row_index: usize, row_heights: &IntMap) -> (r: Vec<(String, String)>)
    requires
        row_heights.wf(),
    ensures
        pairs_view(r@) == row_attrs(row_index as nat, row_heights@),
{
    let mut idx = String::new();
    write_nat(&mut idx, row_index as u128);
    let mut re: Vec<(String, String)> = Vec::new();
    re.push((String::from_str("r"), idx));
    let h = if row_index <= i32::MAX as usize {
        row_heights.get(row_index as i32)
    } else {
        None
    };
    if let Some(height) = h {
        let mut hs = String::new();
        write_int(&mut hs, height as i128);
        re.push((String::from_str("customHeight"), String::from_str("1")));
        re.push((String::from_str("ht"), hs));
    }
    assert(pairs_view(re@) =~= row_attrs(row_index as nat, row_heights@));
    re
}

/// Nothing but the two tables that the worksheets fill has changed.
pub open spec fn only_tables_changed(a: WorkbookCompInfo, b: WorkbookCompInfo) -> bool {
    &&& a.sheet_info == b.sheet_info
    &&& a.fontdb == b.fontdb
    &&& a.filldb == b.filldb
    &&& a.numfmtdb == b.numfmtdb
    &&& a.borderstyledb == b.borderstyledb
    &&& a.next_free_xl_rid == b.next_free_xl_rid
}

/// Splits a cell into its value and its style reference: 0 for a bare value or
/// a style that asks for nothing, else the style's interned id plus 1. A styled cell
/// is a list of the value and then its style properties. The value is
/// classified under the style's date-ness.
pub fn split_into_content_style(cell: &Term, wci: &mut WorkbookCompInfo) -> (r: Result<
    (CellValue, u128),
    ExcelError,
>)
    requires
        old(wci).wf(),
    ensures
        final(wci).wf(),
        only_tables_changed(*old(wci), *final(wci)),
        final(wci).stringdb == old(wci).stringdb,
        r is Ok <==> cell_split(*cell) is Some,
        r is Ok ==> ({
            let (v, st) = cell_split(*cell)->0;
            &&& r->Ok_0.0@ == v
            &&& final(wci).cellstyledb@ == match st {
                None => old(wci).cellstyledb@,
                Some(s) => interned(old(wci).cellstyledb@, s),
            }
            &&& r->Ok_0.1 == match st {
                None => 0,
                Some(s) => id_in(final(wci).cellstyledb@, s) + 1,
            }
        }),
{
    match cell {
        Term::List(items) => {
            if items.len() == 0 {
                return Ok((CellValue::Unrecognized, 0));
            }
            let props: &[Term] = if items.len() == 2 {
                match &items[1] {
                    Term::List(p) => p.as_slice(),
                    _ => &items.as_slice()[1..2],
                }
            } else {
                &items.as_slice()[1..items.len()]
            };
            assert(props@ =~= style_props(items@));
            let cell_style = CellStyle::new(props)?;
            let cell_value = CellValue::new(&items[0], cell_style.is_date());
            if cell_style.is_default() {
                Ok((cell_value, 0))
            } else {
                let id = wci.cellstyledb.get_id(&cell_style);
                Ok((cell_value, id as u128 + 1))
            }
        },
        _ => Ok((CellValue::new(cell, false), 0)),
    }
}

fn write_c_open<W: XmlWriter>(w: &mut W, r: &String, style_id: u128)
    ensures
        final(w).written() == old(w).written() + c_open(r@, style_id as nat),
{
    w.write_string("<c r=\"");
    w.write_string(r.as_str());
    w.write_string("\" s=\"");
    write_nat(w, style_id);
    w.write_string("\"");
    assert(final(w).written() =~= old(w).written() + c_open(r@, style_id as nat));
}

fn find_pair<'a>(o: &'a Vec<(String, String)>, key: &str) -> (r: Option<&'a String>)
    ensures
        r is Some <==> pair_get(pairs_view(o@), key@) is Some,
        r is Some ==> r->0@ == pair_get(pairs_view(o@), key@)->0,
{
    let k = String::from_str(key);
    let mut i = o.len();
    assert(pairs_view(o@).subrange(0, i as int) =~= pairs_view(o@));
    while i > 0
        invariant
            i <= o@.len(),
            k@ == key@,
            pair_get(pairs_view(o@), key@) == pair_get(pairs_view(o@).subrange(0, i as int), key@),
        decreases i,
    {
        let ghost pre = pairs_view(o@).subrange(0, i as int);
        proof {
            assert(pre.drop_last() =~= pairs_view(o@).subrange(0, i - 1));
        }
        if o[i - 1].0 == k {
            return Some(&o[i - 1].1);
        }
        i = i - 1;
    }
    None
}

/// Writes the XML of one cell at reference `r`, interning a string value.
fn write_cell<W: XmlWriter>(
    w: &mut W,
    value: &CellValue,
    r: &String,
    style_id: u128,
    wci: &mut WorkbookCompInfo,
)
    requires
        old(wci).wf(),
    ensures
        final(wci).wf(),
        only_tables_changed(*old(wci), *final(wci)),
        final(wci).cellstyledb == old(wci).cellstyledb,
        final(w).written() == old(w).written() + cell_frag(
            value@,
            r@,
            style_id as nat,
            old(wci).stringdb@,
        ).0,
        final(wci).stringdb@ == cell_frag(value@, r@, style_id as nat, old(wci).stringdb@).1,
{
    match value {
        CellValue::String(string) => {
            let id = wci.stringdb.get_id(string);
            write_c_open(w, r, style_id);
            w.write_string(" t=\"s\"><v>");
            write_nat(w, id as u128);
            w.write_string("</v></c>");
            proof {
                let t = interned(old(wci).stringdb@, string@);
                if old(wci).stringdb@.contains(string@) {
                } else {
                    crate::db::lemma_id_in_unique(t, string@, id as int);
                }
            }
        },
        CellValue::Number(num) => {
            write_c_open(w, r, style_id);
            w.write_string(" t=\"n\"><v>");
            w.write_string(num.as_str());
            w.write_string("</v></c>");
        },
        CellValue::ExcelTS(num) => {
            write_c_open(w, r, style_id);
            w.write_string(" t=\"n\"><v>");
            w.write_string(num.as_str());
            w.write_string("</v></c>");
        },
        CellValue::Formula(formula, opts) => {
            write_c_open(w, r, style_id);
            w.write_string("><f>");
            write_escaped(w, formula);
            w.write_string("</f>");
            if let Some(v) = find_pair(opts, "value") {
                w.write_string("<v>");
                write_escaped(w, v);
                w.write_string("</v>");
            }
            w.write_string("</c>");
        },
        CellValue::Empty => {
            write_c_open(w, r, style_id);
            w.write_string("></c>");
        },
        _ => {},
    }
    assert(final(w).written() =~= old(w).written() + cell_frag(
        value@,
        r@,
        style_id as nat,
        old(wci).stringdb@,
    ).0);
}

/// Writes the cells of row `row_index`, interning strings and styles as they come.
pub fn write_sheet_cols<W: XmlWriter>(
    w: &mut W,
    row: &Vec<Term>,
    row_index: usize,
    wci: &mut WorkbookCompInfo,
) -> (r: Result<(), ExcelError>)
    requires
        old(wci).wf(),
    ensures
        final(wci).wf(),
        only_tables_changed(*old(wci), *final(wci)),
        r is Ok <==> cells_xml(row@, row_index as int, old(wci).tables()) is Some,
        r is Ok ==> ({
            let (x, t) = cells_xml(row@, row_index as int, old(wci).tables())->0;
            final(w).written() == old(w).written() + x && final(wci).tables() == t
        }),
{
    let ghost t0 = wci.tables();
    let ghost mut acc: Seq<char> = Seq::empty();
    let n = row.len();
    let mut i: usize = 0;
    while i < n
        invariant
            n == row@.len(),
            i <= n,
            wci.wf(),
            only_tables_changed(*old(wci), *wci),
            t0 == old(wci).tables(),
            w.written() == old(w).written() + acc,
            cells_xml(row@.subrange(0, i as int), row_index as int, t0) == Some((acc, wci.tables())),
        decreases n - i,
    {
        let ghost sub = row@.subrange(0, i as int + 1);
        proof {
            assert(sub.drop_last() =~= row@.subrange(0, i as int));
            assert(sub.last() == row@[i as int]);
        }
        let ghost before = *wci;
        let (content, style_id) = match split_into_content_style(&row[i], wci) {
            Ok(p) => p,
            Err(e) => {
                proof {
                    lemma_cells_prefix_fails(row@, row_index as int, t0, i as int + 1);
                }
                return Err(e);
            },
        };
        let r = to_excel_coords(row_index as i128, i as i128 + 1);
        write_cell(w, &content, &r, style_id, wci);
        proof {
            acc = acc + (cell_xml(row@[i as int], row_index as int, i as int + 1, before.tables())->0).0;
        }
        i = i + 1;
    }
    assert(row@.subrange(0, n as int) =~= row@);
    Ok(())
}

/// Once a prefix of the cells fails, the whole row fails.
proof fn lemma_cells_prefix_fails(cells: Seq<Term>, row: int, t: TablesView, k: int)
    requires
        0 <= k <= cells.len(),
        cells_xml(cells.subrange(0, k), row, t) is None,
    ensures
        cells_xml(cells, row, t) is None,
    decreases cells.len() - k,
{
    if k < cells.len() {
        let s = cells.subrange(0, k + 1);
        assert(s.drop_last() =~= cells.subrange(0, k));
        lemma_cells_prefix_fails(cells, row, t, k + 1);
    } else {
        assert(cells.subrange(0, k) =~= cells);
    }
}

/// The XML of the sheet's rows; `None` when the rows are not a list of lists or
/// a cell's style properties are malformed.
pub open spec fn sheet_rows_xml(sheet: Sheet, t: TablesView) -> Option<(Seq<char>, TablesView)> {
    match sheet.rows {
        Term::List(rs) => rows_xml(rs@, sheet.row_heights@, t),
        _ => None,
    }
}

/// Writes every row of the sheet, numbered from 1, interning as it goes.
#[verifier::rlimit(30)]
pub fn write_sheet_rows<W: XmlWriter>(w: &mut W, sheet: &Sheet, wci: &mut WorkbookCompInfo) -> (r:
    Result<(), ExcelError>)
    requires
        old(wci).wf(),
        sheet.wf(),
    ensures
        final(wci).wf(),
        only_tables_changed(*old(wci), *final(wci)),
        r is Ok <==> sheet_rows_xml(*sheet, old(wci).tables()) is Some,
        r is Ok ==> ({
            let (x, t) = sheet_rows_xml(*sheet, old(wci).tables())->0;
            final(w).written() == old(w).written() + x && final(wci).tables() == t
        }),
{
    let rows = match &sheet.rows {
        Term::List(rs) => rs,
        _ => return Err(ExcelError::BadArg),
    };
    let ghost t0 = wci.tables();
    let ghost heights = sheet.row_heights@;
    let ghost mut acc: Seq<char> = Seq::empty();
    let n = rows.len();
    let mut i: usize = 0;
    while i < n
        invariant
            n == rows@.len(),
            sheet.rows == Term::List(*rows),
            i <= n,
            sheet.wf(),
            heights == sheet.row_heights@,
            wci.wf(),
            only_tables_changed(*old(wci), *wci),
            t0 == old(wci).tables(),
            w.written() == old(w).written() + acc,
            rows_xml(rows@.subrange(0, i as int), heights, t0) == Some((acc, wci.tables())),
        decreases n - i,
    {
        let ghost sub = rows@.subrange(0, i as int + 1);
        proof {
            assert(sub.drop_last() =~= rows@.subrange(0, i as int));
            assert(sub.last() == rows@[i as int]);
        }
        let cells = match &rows[i] {
            Term::List(cells) => cells,
            _ => {
                proof {
                    lemma_rows_prefix_fails(rows@, heights, t0, i as int + 1);
                }
                return Err(ExcelError::BadArg);
            },
        };
        let ghost t_before = wci.tables();
        let attrs = get_row_attr(i + 1, &sheet.row_heights);
        w.write_string("<row");
        write_attrs(w, &attrs);
        w.write_string(">");
        match write_sheet_cols(w, cells, i + 1, wci) {
            Ok(()) => {},
            Err(e) => {
                proof {
                    lemma_rows_prefix_fails(rows@, heights, t0, i as int + 1);
                }
                return Err(e);
            },
        }
        w.write_string("</row>");
        proof {
            let y = (cells_xml(cells@, i as int + 1, t_before)->0).0;
            acc = acc + "<row"@ + attrs_text(row_attrs((i + 1) as nat, heights)) + ">"@ + y
                + "</row>"@;
            assert(w.written() =~= old(w).written() + acc);
        }
        i = i + 1;
    }
    assert(rows@.subrange(0, n as int) =~= rows@);
    Ok(())
}

/// Once a prefix of the rows fails, the whole sheet fails.
proof fn lemma_rows_prefix_fails(
    rows: Seq<Term>,
    heights: Seq<(i32, i32)>,
    t: TablesView,
    k: int,
)
    requires
        0 <= k <= rows.len(),
        rows_xml(rows.subrange(0, k), heights, t) is None,
    ensures
        rows_xml(rows, heights, t) is None,
    decreases rows.len() - k,
{
    if k < rows.len() {
        let s = rows.subrange(0, k + 1);
        assert(s.drop_last() =~= rows.subrange(0, k));
        lemma_rows_prefix_fails(rows, heights, t, k + 1);
    } else {
        assert(rows.subrange(0, k) =~= rows);
    }
}

/// The active pane of a frozen view: below the frozen rows, right of the
/// frozen columns, or both.
pub open spec fn pane_name(pf: Option<(i32, i32)>) -> Seq<char> {
    match pf {
        Some((x, y)) => if y == 0 {
            "bottomLeft"@
        } else if x == 0 {
            "topRight"@
        } else if x > 0 && y > 0 {
            "bottomRight"@
        } else {
            Seq::empty()
        },
        None => Seq::empty(),
    }
}

/// The content of the sheet view: the frozen pane, if any, and the selection.
pub open spec fn sheet_view_text(pf: Option<(i32, i32)>) -> Seq<char> {
    match pf {
        Some((x, y)) => if x > 0 || y > 0 {
            "<pane xSplit=\""@ + int_text(x as int) + "\" ySplit=\""@ + int_text(y as int)
                + "\" topLeftCell=\""@ + cell_ref(y + 1, x + 1) + "\" activePane=\""@
                + pane_name(pf) + "\" state=\"frozen\"/><selection pane=\""@ + pane_name(pf)
                + "\" activeCell=\"A1\" sqref=\"A1\"/>"@
        } else {
            "<selection activeCell=\"A1\" sqref=\"A1\"/>"@
        },
        None => "<selection activeCell=\"A1\" sqref=\"A1\"/>"@,
    }
}

/// The content of a sheet view for the sheet's pane freeze.
pub fn make_sheet_view(sheet: &Sheet) -> (r: String)
    ensures
        r@ == sheet_view_text(sheet.pane_freeze),
{
    let mut s = String::new();
    match sheet.pane_freeze {
        Some((x, y)) if x > 0 || y > 0 => {
            let pane = if y == 0 {
                "bottomLeft"
            } else if x == 0 {
                "topRight"
            } else if x > 0 && y > 0 {
                "bottomRight"
            } else {
                ""
            };
            proof {
                reveal_strlit("");
            }
            let top_left_cell = to_excel_coords(y as i128 + 1, x as i128 + 1);
            s.append("<pane xSplit=\"");
            write_int(&mut s, x as i128);
            s.append("\" ySplit=\"");
            write_int(&mut s, y as i128);
            s.append("\" topLeftCell=\"");
            s.append(top_left_cell.as_str());
            s.append("\" activePane=\"");
            s.append(pane);
            s.append("\" state=\"frozen\"/><selection pane=\"");
            s.append(pane);
            s.append("\" activeCell=\"A1\" sqref=\"A1\"/>");
        },
        _ => {
            s.append("<selection activeCell=\"A1\" sqref=\"A1\"/>");
        },
    }
    assert(s@ =~= sheet_view_text(sheet.pane_freeze));
    s
}

/// One `<col>` element per width, in the order given.
pub open spec fn col_entries(s: Seq<(i32, i32)>) -> Seq<char>
    decreases s.len(),
{
    if s.len() == 0 {
        Seq::empty()
    } else {
        let (c, wd) = s.last();
        col_entries(s.drop_last()) + "<col min=\""@ + int_text(c as int) + "\" max=\""@ + int_text(
            c as int,
        ) + "\" width=\""@ + int_text(wd as int) + "\" customWidth=\"1\"/>"@
    }
}

/// The column widths block, present only when some width is set.
pub open spec fn cols_text(s: Seq<(i32, i32)>) -> Seq<char> {
    if s.len() == 0 {
        Seq::empty()
    } else {
        "<cols>"@ + col_entries(s) + "</cols>"@
    }
}

/// Writes the column widths in column order.
pub fn write_col_widths<W: XmlWriter>(w: &mut W, sheet: &Sheet)
    ensures
        final(w).written() == old(w).written() + cols_text(sheet.col_widths@),
{
    let li = sheet.col_widths.entries();
    let n = li.len();
    if n == 0 {
        assert(old(w).written() + cols_text(sheet.col_widths@) =~= old(w).written());
        return;
    }
    w.write_string("<cols>");
    let ghost w1 = w.written();
    for i in 0..n
        invariant
            n == li@.len(),
            li@ == sheet.col_widths@,
            w.written() == w1 + col_entries(li@.subrange(0, i as int)),
    {
        proof {
            let s = li@.subrange(0, i as int + 1);
            assert(s.drop_last() =~= li@.subrange(0, i as int));
        }
        let (col, width) = li[i];
        w.write_string("<col min=\"");
        write_int(w, col as i128);
        w.write_string("\" max=\"");
        write_int(w, col as i128);
        w.write_string("\" width=\"");
        write_int(w, width as i128);
        w.write_string("\" customWidth=\"1\"/>");
        assert(w.written() =~= w1 + col_entries(li@.subrange(0, i as int + 1)));
    }
    assert(li@.subrange(0, n as int) =~= li@);
    w.write_string("</cols>");
    assert(final(w).written() =~= old(w).written() + cols_text(sheet.col_widths@));
}

/// One `<mergeCell>` element per range, in the order given.
pub open spec fn merge_entries(m: Seq<(Seq<char>, Seq<char>)>) -> Seq<char>
    decreases m.len(),
{
    if m.len() == 0 {
        Seq::empty()
    } else {
        merge_entries(m.drop_last()) + "<mergeCell ref=\""@ + m.last().0 + ":"@ + m.last().1
            + "\"/>"@
    }
}

/// The merged ranges block, present only when some range is merged.
pub open spec fn merges_text(m: Seq<(Seq<char>, Seq<char>)>) -> Seq<char> {
    if m.len() == 0 {
        Seq::empty()
    } else {
        "<mergeCells count=\""@ + nat_text(m.len()) + "\">"@ + merge_entries(m)
            + "</mergeCells>"@
    }
}

/// Writes the merged ranges, `from:to` each.
pub fn write_merge_cells<W: XmlWriter>(w: &mut W, merge_cells: &Vec<(String, String)>)
    ensures
        final(w).written() == old(w).written() + merges_text(pairs_view(merge_cells@)),
{
    let ghost m = pairs_view(merge_cells@);
    let n = merge_cells.len();
    if n == 0 {
        assert(old(w).written() + merges_text(m) =~= old(w).written());
        return;
    }
    w.write_string("<mergeCells count=\"");
    write_nat(w, n as u128);
    w.write_string("\">");
    let ghost w1 = w.written();
    for i in 0..n
        invariant
            n == merge_cells@.len(),
            m == pairs_view(merge_cells@),
            w.written() == w1 + merge_entries(m.subrange(0, i as int)),
    {
        proof {
            let s = m.subrange(0, i as int + 1);
            assert(s.drop_last() =~= m.subrange(0, i as int));
        }
        w.write_string("<mergeCell ref=\"");
        w.write_string(merge_cells[i].0.as_str());
        w.write_string(":");
        w.write_string(merge_cells[i].1.as_str());
        w.write_string("\"/>");
        assert(w.written() =~= w1 + merge_entries(m.subrange(0, i as int + 1)));
    }
    assert(m.subrange(0, n as int) =~= m);
    w.write_string("</mergeCells>");
    assert(final(w).written() =~= old(w).written() + merges_text(m));
}

/// Start of a worksheet part, up to the attributes of its sheet view.
pub const SHEET_HEAD: &'static str = "<?xml version=\"1.0\" encoding=\"UTF-8\" standalone=\"yes\"?>\n<worksheet xmlns=\"http://schemas.openxmlformats.org/spreadsheetml/2006/main\" xmlns:r=\"http://schemas.openxmlformats.org/officeDocument/2006/relationships\"><sheetPr filterMode=\"false\"><pageSetUpPr fitToPage=\"false\"/></sheetPr><dimension ref=\"A1\"/><sheetViews><sheetView workbookViewId=\"0\"";

/// Between the sheet view's content and the column widths.
pub const SHEET_VIEW_END: &'static str = "</sheetView></sheetViews><sheetFormatPr defaultRowHeight=\"12.8\"/>";

/// End of a worksheet part.
pub const SHEET_TAIL: &'static str = "<pageMargins left=\"0.75\" right=\"0.75\" top=\"1\" bottom=\"1.0\" header=\"0.5\" footer=\"0.5\"/></worksheet>";

/// The worksheet part of a sheet and the tables after it; `None` when some
/// cell's style properties are malformed.
#[verifier::opaque]
pub open spec fn sheet_xml(sheet: Sheet, t: TablesView) -> Option<(Seq<char>, TablesView)> {
    match sheet_rows_xml(sheet, t) {
        None => None,
        Some((rows, t2)) => Some(
            (
                SHEET_HEAD@ + (if sheet.show_grid_lines {
                    Seq::empty()
                } else {
                    " showGridLines=\"0\""@
                }) + ">"@ + sheet_view_text(sheet.pane_freeze) + SHEET_VIEW_END@ + cols_text(
                    sheet.col_widths@,
                ) + "<sheetData>"@ + rows + "</sheetData>"@ + merges_text(
                    pairs_view(sheet.merge_cells@),
                ) + SHEET_TAIL@,
                t2,
            ),
        ),
    }
}

/// Writes the worksheet part of a sheet, interning its strings and cell styles.
#[verifier::rlimit(60)]
pub fn write_sheet<W: XmlWriter>(w: &mut W, sheet: &Sheet, wci: &mut WorkbookCompInfo) -> (r:
    Result<(), ExcelError>)
    requires
        old(wci).wf(),
        sheet.wf(),
    ensures
        final(wci).wf(),
        only_tables_changed(*old(wci), *final(wci)),
        r is Ok <==> sheet_xml(*sheet, old(wci).tables()) is Some,
        r is Ok ==> ({
            let (x, t) = sheet_xml(*sheet, old(wci).tables())->0;
            final(w).written() == old(w).written() + x && final(wci).tables() == t
        }),
{
    w.write_string(SHEET_HEAD);
    if !sheet.show_grid_lines {
        w.write_string(" showGridLines=\"0\"");
    }
    w.write_string(">");
    let view = make_sheet_view(sheet);
    w.write_string(view.as_str());
    w.write_string(SHEET_VIEW_END);
    write_col_widths(w, sheet);
    w.write_string("<sheetData>");
    let rows = write_sheet_rows(w, sheet, wci);
    if rows.is_err() {
        reveal(sheet_xml);
        return rows;
    }
    w.write_string("</sheetData>");
    write_merge_cells(w, &sheet.merge_cells);
    w.write_string(SHEET_TAIL);
    reveal(sheet_xml);
    assert(final(w).written() =~= old(w).written() + (sheet_xml(*sheet, old(wci).tables())->0).0);
    Ok(())
}

} // verus!
