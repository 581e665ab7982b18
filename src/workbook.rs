//! The description of a workbook: its sheets, their rows of cells, and the
//! sheet-level settings.
use vstd::prelude::*;
use crate::int_map::IntMap;
use crate::term::Term;

verus! {

/// One sheet. Its rows are a host list of lists; each cell is a host value: a
/// bare value, or a list of the value and its style properties.
#[derive(Debug)]
pub struct Sheet {
    pub name: String,
    pub rows: Term,
    /// Width of each 1-based column that has one.
    pub col_widths: IntMap,
    /// Height of each 1-based row that has one.
    pub row_heights: IntMap,
    /// Merged ranges, each from one cell reference to another.
    pub merge_cells: Vec<(String, String)>,
    /// Frozen columns and rows.
    pub pane_freeze: Option<(i32, i32)>,
    pub show_grid_lines: bool,
}

impl Sheet {
    pub open spec fn wf(&self) -> bool {
        self.col_widths.wf() && self.row_heights.wf()
    }

    /// A sheet with no rows and default settings.
    pub fn new(name: String) -> (r: Sheet)
        ensures
            r.wf(),
            r.name@ == name@,
            r.rows matches Term::List(v) && v@.len() == 0,
            r.col_widths@.len() == 0,
            r.row_heights@.len() == 0,
            r.merge_cells@.len() == 0,
            r.pane_freeze is None,
            r.show_grid_lines,
    {
        Sheet {
            name,
            rows: Term::List(Vec::new()),
            col_widths: IntMap::new(),
            row_heights: IntMap::new(),
            merge_cells: Vec::new(),
            pane_freeze: None,
            show_grid_lines: true,
        }
    }
}

/// A workbook: its sheets in order and its creation time stamp.
#[derive(Debug)]
pub struct Workbook {
    pub sheets: Vec<Sheet>,
    pub datetime: String,
}

impl Workbook {
    pub open spec fn wf(&self) -> bool {
        forall|i: int| 0 <= i < self.sheets@.len() ==> (#[trigger] self.sheets@[i]).wf()
    }
}

} // verus!
