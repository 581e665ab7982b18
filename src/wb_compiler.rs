//! The state of one compilation: sheet file names and relationship ids, and
//! the interning tables that the worksheets fill.
use vstd::prelude::*;
use crate::db::DB;
use crate::model::{BorderStyle, CellStyle, CellStyleView, Font};
use crate::text::nat_text;
use crate::workbook::Workbook;
use crate::xml_writer::write_nat;

verus! {

/// Where one sheet goes: its relationship id, file name and sheet id.
#[derive(Debug)]
pub struct SheetCompInfo {
    pub rid: String,
    pub filename: String,
    pub sheet_id: usize,
}

/// `rId` and the number.
pub open spec fn rid_text(n: nat) -> Seq<char> {
    "rId"@ + nat_text(n)
}

/// `sheet`, the number and `.xml`.
pub open spec fn sheet_file(n: nat) -> Seq<char> {
    "sheet"@ + nat_text(n) + ".xml"@
}

impl SheetCompInfo {
    pub fn make(idx: usize, rid: usize) -> (r: SheetCompInfo)
        ensures
            r.rid@ == rid_text(rid as nat),
            r.filename@ == sheet_file(idx as nat),
            r.sheet_id == idx,
    {
        let mut r = String::from_str("rId");
        write_nat(&mut r, rid as u128);
        let mut f = String::from_str("sheet");
        write_nat(&mut f, idx as u128);
        f.append(".xml");
        SheetCompInfo { rid: r, filename: f, sheet_id: idx }
    }
}

/// What the worksheets have interned: shared strings and cell styles.
pub struct TablesView {
    pub strings: Seq<Seq<char>>,
    pub styles: Seq<CellStyleView>,
}

/// The state of a compilation.
pub struct WorkbookCompInfo {
    pub sheet_info: Vec<SheetCompInfo>,
    pub stringdb: DB<String>,
    pub fontdb: DB<Font>,
    pub filldb: DB<String>,
    pub cellstyledb: DB<CellStyle>,
    pub numfmtdb: DB<String>,
    pub borderstyledb: DB<BorderStyle>,
    pub next_free_xl_rid: usize,
}

/// Sheet `k` (0-based) is `sheet{k+1}.xml` with id `k + 1` and relationship id `rId{first + k}`.
pub open spec fn sheet_info_ok(info: Seq<SheetCompInfo>, n: nat, first: nat) -> bool {
    &&& info.len() == n
    &&& forall|k: int|
        0 <= k < n ==> (#[trigger] info[k]).sheet_id == k + 1 && info[k].rid@ == rid_text(
            (first + k) as nat,
        ) && info[k].filename@ == sheet_file((k + 1) as nat)
}

impl WorkbookCompInfo {
    pub open spec fn wf(&self) -> bool {
        &&& self.stringdb.wf()
        &&& self.fontdb.wf()
        &&& self.filldb.wf()
        &&& self.cellstyledb.wf()
        &&& self.numfmtdb.wf()
        &&& self.borderstyledb.wf()
    }

    /// The tables that the worksheets fill.
    pub open spec fn tables(&self) -> TablesView {
        TablesView { strings: self.stringdb@, styles: self.cellstyledb@ }
    }
}

/// Sheet entries for `n` sheets whose relationship ids start at `first_free_rid`,
/// and the first relationship id left after them.
pub fn make_sheet_info(n: usize, first_free_rid: usize) -> (r: (Vec<SheetCompInfo>, usize))
    requires
        n + first_free_rid <= usize::MAX,
    ensures
        sheet_info_ok(r.0@, n as nat, first_free_rid as nat),
        r.1 == first_free_rid + n,
{
    let mut li: Vec<SheetCompInfo> = Vec::new();
    for x in 0..n
        invariant
            n + first_free_rid <= usize::MAX,
            sheet_info_ok(li@, x as nat, first_free_rid as nat),
    {
        li.push(SheetCompInfo::make(x + 1, x + first_free_rid));
    }
    (li, first_free_rid + n)
}

/// A fresh compilation state for the workbook: sheet relationship ids start at
/// 2 (1 is the styles part), and every table is empty.
pub fn make_workbook_comp_info(workbook: &Workbook) -> (r: WorkbookCompInfo)
    requires
        workbook.sheets@.len() + 2 <= usize::MAX,
    ensures
        r.wf(),
        sheet_info_ok(r.sheet_info@, workbook.sheets@.len(), 2),
        r.next_free_xl_rid == workbook.sheets@.len() + 2,
        r.stringdb@ == Seq::<Seq<char>>::empty(),
        r.fontdb@ == Seq::<crate::model::FontView>::empty(),
        r.filldb@ == Seq::<Seq<char>>::empty(),
        r.cellstyledb@ == Seq::<CellStyleView>::empty(),
        r.numfmtdb@ == Seq::<Seq<char>>::empty(),
        r.borderstyledb@ == Seq::<crate::model::BorderStyleView>::empty(),
{
    let (sci, next_rid) = make_sheet_info(workbook.sheets.len(), 2);
    WorkbookCompInfo {
        sheet_info: sci,
        stringdb: DB::new(),
        fontdb: DB::new(),
        filldb: DB::new(),
        cellstyledb: DB::new(),
        numfmtdb: DB::new(),
        borderstyledb: DB::new(),
        next_free_xl_rid: next_rid,
    }
}

} // verus!
