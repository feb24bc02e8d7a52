//! The open workbook together with the map from the frontend's sheet ids to
//! the workbook's sheet names.

use vstd::prelude::*;
use crate::sheet_map::SheetMap;
use crate::workbook::{
    workbook_sheets, sheet_count, sheet_id_at, sheet_name_at, sheet_loaded, sheet_is_loaded, sheets_loaded,
    SheetFacts,
};

verus! {

/// The map from id to name that the sheets give, a later sheet overriding an
/// earlier one with the same id.
pub open spec fn ids_to_names(sheets: Seq<SheetFacts>) -> Map<Seq<char>, Seq<char>>
    decreases sheets.len(),
{
    if sheets.len() == 0 {
        Map::empty()
    } else {
        ids_to_names(sheets.drop_last()).insert(sheets.last().0, sheets.last().1)
    }
}

/// Maps each sheet's id to its name.
pub fn sheet_map_of(workbook: &umya_spreadsheet::Workbook) -> (res: SheetMap)
    ensures
        res@ == ids_to_names(workbook_sheets(*workbook)),
{
    let ghost sheets = workbook_sheets(*workbook);
    let n = sheet_count(workbook);
    let mut map = SheetMap::new();
    let mut i: usize = 0;
    while i < n
        invariant
            n == sheets.len(),
            sheets == workbook_sheets(*workbook),
            i <= n,
            map@ == ids_to_names(sheets.take(i as int)),
        decreases n - i,
    {
        let id = sheet_id_at(workbook, i);
        let name = sheet_name_at(workbook, i);
        map.insert(id, name);
        assert(sheets.take(i + 1).drop_last() =~= sheets.take(i as int));
        i = i + 1;
    }
    assert(sheets.take(n as int) =~= sheets);
    map
}

/// Whether every sheet of the workbook is parsed, none left as raw XML by a
/// lazy read. Edits ask for this.
pub fn all_sheets_loaded(workbook: &umya_spreadsheet::Workbook) -> (res: bool)
    ensures
        res == sheets_loaded(*workbook),
{
    let n = sheet_count(workbook);
    let mut i: usize = 0;
    while i < n
        invariant
            n == workbook_sheets(*workbook).len(),
            i <= n,
            forall|k: int| 0 <= k < i ==> #[trigger] sheet_is_loaded(*workbook, k),
        decreases n - i,
    {
        if !sheet_loaded(workbook, i) {
            return false;
        }
        i = i + 1;
    }
    true
}

/// The workbook and its sheet map, kept under one lock: separate locks would
/// let a reader pair a new sheet map with an old workbook.
pub struct WorkbookState {
    pub workbook: umya_spreadsheet::Workbook,
    pub sheet_map: SheetMap,
}

impl WorkbookState {
    /// Takes a workbook, mapping each of its sheets' ids to its name.
    pub fn new(workbook: umya_spreadsheet::Workbook) -> (res: WorkbookState)
        ensures
            res.workbook == workbook,
            res.sheet_map@ == ids_to_names(workbook_sheets(workbook)),
    {
        let sheet_map = sheet_map_of(&workbook);
        WorkbookState { workbook, sheet_map }
    }

    /// Replaces the workbook, and the sheet map with that of the new one.
    pub fn replace(&mut self, workbook: umya_spreadsheet::Workbook)
        ensures
            final(self).workbook == workbook,
            final(self).sheet_map@ == ids_to_names(workbook_sheets(workbook)),
    {
        self.sheet_map = sheet_map_of(&workbook);
        self.workbook = workbook;
    }
}

} // verus!
