//! Assembles the package: the worksheets first, which fill the tables, then
//! every part that reads the finished tables.
use vstd::prelude::*;
use crate::error::ExcelError;
use crate::model::pairs_view;
use crate::wb_compiler::{
    SheetCompInfo, TablesView, WorkbookCompInfo, make_workbook_comp_info, sheet_info_ok,
};
use crate::workbook::{Sheet, Workbook};
use crate::cell::CellValueView;
use crate::db::{lemma_interned_step, no_dups};
use crate::model::{CellStyleView, style_is_default};
use crate::style::{style_of, style_ok};
use crate::term::{Term, kw_get};
use crate::util::cell_ref;
use crate::worksheet::{
    cell_frag, cell_split, cell_xml, cells_xml, only_tables_changed, rows_xml, sheet_xml,
    style_props, write_sheet,
};
use crate::xl_styles::{StyleTables, styles_xml, write_xl_styles, xfs_xml};
use crate::xml_templates::{
    PACKAGE_RELS, content_types_xml, doc_props_app, doc_props_app_xml, doc_props_core,
    doc_props_core_xml, string_db_xml, wite_string_db, workbook_xml, write_content_types,
    write_workbook_xml, write_xl_rels, xl_rels_xml, rels_dotrels,
};

verus! {

/// The worksheet parts of the sheets in order, threaded through the tables;
/// `None` when some sheet fails.
pub open spec fn worksheets_xml(sheets: Seq<Sheet>, t: TablesView) -> Option<
    (Seq<Seq<char>>, TablesView),
>
    decreases sheets.len(),
{
    if sheets.len() == 0 {
        Some((Seq::empty(), t))
    } else {
        match worksheets_xml(sheets.drop_last(), t) {
            None => None,
            Some((xs, t1)) => match sheet_xml(sheets.last(), t1) {
                None => None,
                Some((x, t2)) => Some((xs.push(x), t2)),
            },
        }
    }
}

pub open spec fn empty_tables() -> TablesView {
    TablesView { strings: Seq::empty(), styles: Seq::empty() }
}

pub open spec fn empty_style_tables() -> StyleTables {
    StyleTables { fonts: Seq::empty(), fills: Seq::empty(), numfmts: Seq::empty(), borders: Seq::empty() }
}

/// Every part of the package, by archive path, for a workbook whose sheets go
/// under `scis`; `None` when some cell's style properties are malformed.
pub open spec fn package_parts(wb: Workbook, scis: Seq<SheetCompInfo>) -> Option<
    Seq<(Seq<char>, Seq<char>)>,
> {
    match worksheets_xml(wb.sheets@, empty_tables()) {
        None => None,
        Some((xs, t)) => {
            let n = wb.sheets@.len();
            Some(
                seq![
                    ("docProps/app.xml"@, doc_props_app_xml("1.00"@)),
                    ("docProps/core.xml"@, doc_props_core_xml(wb.datetime@, "en-US"@, 1)),
                    ("_rels/.rels"@, PACKAGE_RELS@),
                ] + Seq::new(n, |k: int| ("xl/worksheets/"@ + scis[k].filename@, xs[k])) + seq![
                    ("xl/styles.xml"@, styles_xml(t.styles, empty_style_tables()).0),
                    ("xl/sharedStrings.xml"@, string_db_xml(t.strings)),
                    ("xl/workbook.xml"@, workbook_xml(wb.sheets@, scis)),
                    ("xl/_rels/workbook.xml.rels"@, xl_rels_xml(scis, (n + 2) as nat)),
                    ("[Content_Types].xml"@, content_types_xml(scis)),
                ],
            )
        },
    }
}

/// A compilation state as made for `wb`, with nothing interned yet.
pub open spec fn fresh_for(wci: WorkbookCompInfo, wb: Workbook) -> bool {
    &&& wci.wf()
    &&& sheet_info_ok(wci.sheet_info@, wb.sheets@.len(), 2)
    &&& wci.next_free_xl_rid == wb.sheets@.len() + 2
    &&& wci.tables() == empty_tables()
    &&& wci.style_tables() == empty_style_tables()
}

fn path(dir: &str, name: &String) -> (r: String)
    ensures
        r@ == dir@ + name@,
{
    let mut p = String::from_str(dir);
    p.append(name.as_str());
    p
}

/// The worksheet entries: archive path and part of each sheet, in order.
pub open spec fn worksheet_entries_ok(
    entries: Seq<(Seq<char>, Seq<char>)>,
    scis: Seq<SheetCompInfo>,
    xs: Seq<Seq<char>>,
) -> bool {
    &&& entries.len() == xs.len()
    &&& forall|k: int|
        0 <= k < xs.len() ==> (#[trigger] entries[k]) == ("xl/worksheets/"@ + scis[k].filename@, xs[k])
}

/// Compiles every sheet in order into its worksheet part, filling the tables.
fn compile_worksheets(workbook: &Workbook, wci: &mut WorkbookCompInfo) -> (r: Result<
    Vec<(String, String)>,
    ExcelError,
>)
    requires
        workbook.wf(),
        old(wci).wf(),
        old(wci).sheet_info@.len() == workbook.sheets@.len(),
    ensures
        final(wci).wf(),
        only_tables_changed(*old(wci), *final(wci)),
        r is Ok <==> worksheets_xml(workbook.sheets@, old(wci).tables()) is Some,
        r is Ok ==> ({
            let (xs, t) = worksheets_xml(workbook.sheets@, old(wci).tables())->0;
            &&& worksheet_entries_ok(pairs_view(r->Ok_0@), old(wci).sheet_info@, xs)
            &&& xs.len() == workbook.sheets@.len()
            &&& final(wci).tables() == t
        }),
{
    let ghost t0 = wci.tables();
    let ghost scis = wci.sheet_info@;
    let mut data: Vec<(String, String)> = Vec::new();
    let n = workbook.sheets.len();
    let ghost mut xs: Seq<Seq<char>> = Seq::empty();
    for i in 0..n
        invariant
            n == workbook.sheets@.len(),
            workbook.wf(),
            wci.wf(),
            only_tables_changed(*old(wci), *wci),
            scis == old(wci).sheet_info@,
            scis.len() == n,
            t0 == old(wci).tables(),
            worksheets_xml(workbook.sheets@.subrange(0, i as int), t0) == Some((xs, wci.tables())),
            worksheet_entries_ok(pairs_view(data@), scis, xs),
            xs.len() == i,
    {
        let ghost sub = workbook.sheets@.subrange(0, i as int + 1);
        proof {
            assert(sub.drop_last() =~= workbook.sheets@.subrange(0, i as int));
            assert(sub.last() == workbook.sheets@[i as int]);
            assert(workbook.sheets@[i as int].wf());
        }
        let ghost before = *wci;
        let mut x = String::new();
        match write_sheet(&mut x, &workbook.sheets[i], wci) {
            Ok(()) => {},
            Err(e) => {
                proof {
                    lemma_worksheets_prefix_fails(workbook.sheets@, t0, i as int + 1);
                }
                return Err(e);
            },
        }
        let p = path("xl/worksheets/", &wci.sheet_info[i].filename);
        let ghost old_data = data@;
        data.push((p, x));
        proof {
            xs = xs.push((sheet_xml(workbook.sheets@[i as int], before.tables())->0).0);
            let e = pairs_view(data@);
            assert forall|k: int| 0 <= k < xs.len() implies (#[trigger] e[k]) == (
                "xl/worksheets/"@ + scis[k].filename@,
                xs[k],
            ) by {
                assert(e[k] == (data@[k].0@, data@[k].1@));
                if k < i {
                    assert(data@[k] == old_data[k]);
                    assert(pairs_view(old_data)[k] == (old_data[k].0@, old_data[k].1@));
                }
            }
        }
    }
    assert(workbook.sheets@.subrange(0, n as int) =~= workbook.sheets@);
    Ok(data)
}

/// Compiles the workbook into the parts of its package, in this order: document
/// properties, package relationships, the worksheets, then the styles, shared
/// strings, workbook manifest and its relationships, and the content types.
#[verifier::rlimit(30)]
pub fn create_excel(workbook: &Workbook, wci: WorkbookCompInfo) -> (r: Result<
    Vec<(String, String)>,
    ExcelError,
>)
    requires
        workbook.wf(),
        fresh_for(wci, *workbook),
    ensures
        r is Ok <==> package_parts(*workbook, wci.sheet_info@) is Some,
        r is Ok ==> pairs_view(r->Ok_0@) == package_parts(*workbook, wci.sheet_info@)->0,
{
    let mut wci = wci;
    let ghost scis = wci.sheet_info@;
    let n = workbook.sheets.len();
    let mut data: Vec<(String, String)> = Vec::new();
    data.push((String::from_str("docProps/app.xml"), doc_props_app(String::from_str("1.00"))));
    data.push(
        (
            String::from_str("docProps/core.xml"),
            doc_props_core(workbook.datetime.clone(), None, None),
        ),
    );
    data.push((String::from_str("_rels/.rels"), rels_dotrels()));
    let mut sheets = compile_worksheets(workbook, &mut wci)?;
    let ghost xs = (worksheets_xml(workbook.sheets@, empty_tables())->0).0;
    let ghost t = wci.tables();
    let ghost d0 = pairs_view(data@);
    let ghost d1 = pairs_view(sheets@);
    data.append(&mut sheets);
    proof {
        assert(pairs_view(data@) =~= d0 + d1);
    }
    let mut styles = String::new();
    write_xl_styles(&mut styles, &mut wci);
    let mut strings = String::new();
    wite_string_db(&mut strings, &wci.stringdb);
    let mut wb = String::new();
    write_workbook_xml(&mut wb, &workbook.sheets, &wci.sheet_info);
    let mut rels = String::new();
    write_xl_rels(&mut rels, &wci.sheet_info, wci.next_free_xl_rid);
    let mut ct = String::new();
    write_content_types(&mut ct, &wci.sheet_info);
    let ghost d2 = pairs_view(data@);
    data.push((String::from_str("xl/styles.xml"), styles));
    data.push((String::from_str("xl/sharedStrings.xml"), strings));
    data.push((String::from_str("xl/workbook.xml"), wb));
    data.push((String::from_str("xl/_rels/workbook.xml.rels"), rels));
    data.push((String::from_str("[Content_Types].xml"), ct));
    proof {
        let parts = package_parts(*workbook, scis)->0;
        let tail = seq![
            ("xl/styles.xml"@, styles_xml(t.styles, empty_style_tables()).0),
            ("xl/sharedStrings.xml"@, string_db_xml(t.strings)),
            ("xl/workbook.xml"@, workbook_xml(workbook.sheets@, scis)),
            ("xl/_rels/workbook.xml.rels"@, xl_rels_xml(scis, (n + 2) as nat)),
            ("[Content_Types].xml"@, content_types_xml(scis)),
        ];
        assert(pairs_view(data@) =~= d2 + tail);
        assert(d1 =~= Seq::new(n as nat, |k: int| ("xl/worksheets/"@ + scis[k].filename@, xs[k])));
        assert(pairs_view(data@) =~= parts);
    }
    Ok(data)
}

proof fn lemma_worksheets_prefix_fails(sheets: Seq<Sheet>, t: TablesView, k: int)
    requires
        0 <= k <= sheets.len(),
        worksheets_xml(sheets.subrange(0, k), t) is None,
    ensures
        worksheets_xml(sheets, t) is None,
    decreases sheets.len() - k,
{
    if k < sheets.len() {
        let s = sheets.subrange(0, k + 1);
        assert(s.drop_last() =~= sheets.subrange(0, k));
        lemma_worksheets_prefix_fails(sheets, t, k + 1);
    } else {
        assert(sheets.subrange(0, k) =~= sheets);
    }
}

/// Compiles a workbook into its package parts, from a fresh compilation state.
pub fn write_excel(workbook: &Workbook) -> (r: Result<Vec<(String, String)>, ExcelError>)
    requires
        workbook.wf(),
        workbook.sheets@.len() + 2 <= usize::MAX,
    ensures
        r is Ok <==> worksheets_xml(workbook.sheets@, empty_tables()) is Some,
        r is Ok ==> exists|scis: Seq<SheetCompInfo>|
            sheet_info_ok(scis, workbook.sheets@.len(), 2) && pairs_view(r->Ok_0@)
                == package_parts(*workbook, scis)->0,
{
    let wci = make_workbook_comp_info(workbook);
    create_excel(workbook, wci)
}

/// A cell that carries no style properties: a bare value, an empty list, or a
/// list of the value with no properties after it.
pub open spec fn carries_no_style(c: Term) -> bool {
    match c {
        Term::List(items) => items@.len() == 0 || style_props(items@).len() == 0,
        _ => true,
    }
}

/// The sheet's rows are a list of lists whose cells carry no style properties.
pub open spec fn sheet_unstyled(sheet: Sheet) -> bool {
    match sheet.rows {
        Term::List(rs) => forall|r: int|
            0 <= r < rs@.len() ==> match #[trigger] rs@[r] {
                Term::List(cells) => forall|c: int|
                    0 <= c < cells@.len() ==> carries_no_style(#[trigger] cells@[c]),
                _ => false,
            },
        _ => false,
    }
}

/// Every sheet's rows are lists of cells that carry no style properties.
pub open spec fn workbook_unstyled(wb: Workbook) -> bool {
    forall|i: int| 0 <= i < wb.sheets@.len() ==> sheet_unstyled(#[trigger] wb.sheets@[i])
}

/// A cell without style properties references the default style 0 and interns no style.
pub proof fn lemma_unstyled_cell(c: Term, row: int, col: int, t: TablesView)
    requires
        carries_no_style(c),
    ensures
        cell_split(c) is Some,
        (cell_split(c)->0).1 is None,
        cell_xml(c, row, col, t) is Some,
        (cell_xml(c, row, col, t)->0).1.styles == t.styles,
        (cell_xml(c, row, col, t)->0).0 == cell_frag(
            (cell_split(c)->0).0,
            cell_ref(row, col),
            0,
            t.strings,
        ).0,
{
    if let Term::List(items) = c {
        if items@.len() > 0 {
            let props = style_props(items@);
            assert(forall|k: Seq<char>| kw_get(props, k) is None);
            assert(style_ok(props));
            assert(style_is_default(style_of(props)));
        }
    }
}

proof fn lemma_unstyled_cells(cells: Seq<Term>, row: int, t: TablesView)
    requires
        forall|c: int| 0 <= c < cells.len() ==> carries_no_style(#[trigger] cells[c]),
    ensures
        cells_xml(cells, row, t) is Some,
        (cells_xml(cells, row, t)->0).1.styles == t.styles,
    decreases cells.len(),
{
    if cells.len() > 0 {
        let p = cells.drop_last();
        assert forall|c: int| 0 <= c < p.len() implies carries_no_style(#[trigger] p[c]) by {
            assert(p[c] == cells[c]);
        }
        lemma_unstyled_cells(p, row, t);
        let t1 = (cells_xml(p, row, t)->0).1;
        assert(carries_no_style(cells[cells.len() - 1]));
        lemma_unstyled_cell(cells.last(), row, cells.len() as int, t1);
    }
}

proof fn lemma_unstyled_rows(rows: Seq<Term>, heights: Seq<(i32, i32)>, t: TablesView)
    requires
        forall|r: int|
            0 <= r < rows.len() ==> match #[trigger] rows[r] {
                Term::List(cells) => forall|c: int|
                    0 <= c < cells@.len() ==> carries_no_style(#[trigger] cells@[c]),
                _ => false,
            },
    ensures
        rows_xml(rows, heights, t) is Some,
        (rows_xml(rows, heights, t)->0).1.styles == t.styles,
    decreases rows.len(),
{
    if rows.len() > 0 {
        let p = rows.drop_last();
        assert forall|r: int| 0 <= r < p.len() implies match #[trigger] p[r] {
            Term::List(cells) => forall|c: int|
                0 <= c < cells@.len() ==> carries_no_style(#[trigger] cells@[c]),
            _ => false,
        } by {
            assert(p[r] == rows[r]);
        }
        lemma_unstyled_rows(p, heights, t);
        let t1 = (rows_xml(p, heights, t)->0).1;
        assert(match rows[rows.len() - 1] {
            Term::List(cells) => forall|c: int|
                0 <= c < cells@.len() ==> carries_no_style(#[trigger] cells@[c]),
            _ => false,
        });
        if let Term::List(cells) = rows.last() {
            lemma_unstyled_cells(cells@, rows.len() as int, t1);
        }
    }
}

proof fn lemma_unstyled_sheets(sheets: Seq<Sheet>, t: TablesView)
    requires
        forall|i: int| 0 <= i < sheets.len() ==> sheet_unstyled(#[trigger] sheets[i]),
    ensures
        worksheets_xml(sheets, t) is Some,
        (worksheets_xml(sheets, t)->0).1.styles == t.styles,
    decreases sheets.len(),
{
    if sheets.len() > 0 {
        let p = sheets.drop_last();
        assert forall|i: int| 0 <= i < p.len() implies sheet_unstyled(#[trigger] p[i]) by {
            assert(p[i] == sheets[i]);
        }
        lemma_unstyled_sheets(p, t);
        let t1 = (worksheets_xml(p, t)->0).1;
        let last = sheets.last();
        assert(sheet_unstyled(sheets[sheets.len() - 1]));
        if let Term::List(rs) = last.rows {
            lemma_unstyled_rows(rs@, last.row_heights@, t1);
        }
        reveal(sheet_xml);
    }
}

/// A workbook whose cells carry no style properties compiles, its worksheet
/// cells all reference style 0, and its styles part holds no format record
/// beyond the default one: the cell-style table stays empty.
pub proof fn lemma_unstyled_workbook(wb: Workbook)
    requires
        workbook_unstyled(wb),
    ensures
        worksheets_xml(wb.sheets@, empty_tables()) is Some,
        (worksheets_xml(wb.sheets@, empty_tables())->0).1.styles.len() == 0,
        xfs_xml((worksheets_xml(wb.sheets@, empty_tables())->0).1.styles, empty_style_tables()).0
            == Seq::<char>::empty(),
{
    lemma_unstyled_sheets(wb.sheets@, empty_tables());
    let st = (worksheets_xml(wb.sheets@, empty_tables())->0).1.styles;
    assert(st =~= Seq::<CellStyleView>::empty());
}

/// `b` extends `a`: every entry of `a` keeps its position, so no id changes.
pub open spec fn extends<V>(a: Seq<V>, b: Seq<V>) -> bool {
    a.len() <= b.len() && forall|i: int| 0 <= i < a.len() ==> #[trigger] b[i] == a[i]
}

proof fn lemma_cell_grows(c: Term, row: int, col: int, t: TablesView)
    requires
        no_dups(t.strings),
        no_dups(t.styles),
        cell_xml(c, row, col, t) is Some,
    ensures
        no_dups((cell_xml(c, row, col, t)->0).1.strings),
        no_dups((cell_xml(c, row, col, t)->0).1.styles),
        extends(t.strings, (cell_xml(c, row, col, t)->0).1.strings),
        extends(t.styles, (cell_xml(c, row, col, t)->0).1.styles),
{
    let (v, st) = cell_split(c)->0;
    if let Some(s) = st {
        lemma_interned_step(t.styles, s);
    }
    if let CellValueView::String(x) = v {
        lemma_interned_step(t.strings, x);
    }
}

proof fn lemma_cells_grow(cells: Seq<Term>, row: int, t: TablesView)
    requires
        no_dups(t.strings),
        no_dups(t.styles),
        cells_xml(cells, row, t) is Some,
    ensures
        no_dups((cells_xml(cells, row, t)->0).1.strings),
        no_dups((cells_xml(cells, row, t)->0).1.styles),
        extends(t.strings, (cells_xml(cells, row, t)->0).1.strings),
        extends(t.styles, (cells_xml(cells, row, t)->0).1.styles),
    decreases cells.len(),
{
    if cells.len() > 0 {
        let p = cells.drop_last();
        lemma_cells_grow(p, row, t);
        let t1 = (cells_xml(p, row, t)->0).1;
        lemma_cell_grows(cells.last(), row, cells.len() as int, t1);
    }
}

proof fn lemma_rows_grow(rows: Seq<Term>, heights: Seq<(i32, i32)>, t: TablesView)
    requires
        no_dups(t.strings),
        no_dups(t.styles),
        rows_xml(rows, heights, t) is Some,
    ensures
        no_dups((rows_xml(rows, heights, t)->0).1.strings),
        no_dups((rows_xml(rows, heights, t)->0).1.styles),
        extends(t.strings, (rows_xml(rows, heights, t)->0).1.strings),
        extends(t.styles, (rows_xml(rows, heights, t)->0).1.styles),
    decreases rows.len(),
{
    if rows.len() > 0 {
        let p = rows.drop_last();
        lemma_rows_grow(p, heights, t);
        let t1 = (rows_xml(p, heights, t)->0).1;
        if let Term::List(cells) = rows.last() {
            lemma_cells_grow(cells@, rows.len() as int, t1);
        }
    }
}

/// Compiling sheets only ever appends to the string and cell-style tables:
/// every id given out earlier keeps its value, and no value is held twice.
pub proof fn lemma_tables_grow(sheets: Seq<Sheet>, t: TablesView)
    requires
        no_dups(t.strings),
        no_dups(t.styles),
        worksheets_xml(sheets, t) is Some,
    ensures
        no_dups((worksheets_xml(sheets, t)->0).1.strings),
        no_dups((worksheets_xml(sheets, t)->0).1.styles),
        extends(t.strings, (worksheets_xml(sheets, t)->0).1.strings),
        extends(t.styles, (worksheets_xml(sheets, t)->0).1.styles),
    decreases sheets.len(),
{
    if sheets.len() > 0 {
        let p = sheets.drop_last();
        lemma_tables_grow(p, t);
        let t1 = (worksheets_xml(p, t)->0).1;
        let last = sheets.last();
        reveal(sheet_xml);
        if let Term::List(rs) = last.rows {
            lemma_rows_grow(rs@, last.row_heights@, t1);
        }
    }
}

} // verus!
