//! Properties of the library as a whole, over the contracts of its
//! functions.

use vstd::prelude::*;
use crate::error::Error;
use crate::json::JsonNumber;
use crate::model::{Op, CellData};
use crate::ops::{
    attribute_plan, cell_plan,
    NumericEdit, Plan, CellChange, plan, carried_out, cell_changed, unchanged, read_coordinate,
    coordinate_error,
};
use crate::serialize::{CellSnapshot, renders};
use crate::legacy::{
    Write, writes_applied, written, last_write, lemma_last_write_is_a_write, grid_shows, saved, payload_ok,
    payload_sheet, payload_writes, write_in_grid,
};
use crate::json::Json;
use crate::workbook::{
    workbook_sheets, workbook_cells, has_sheet, sheet_index, cell_key, lemma_sheet_index, CellKey,
    CellFacts, sheet_is_empty,
};

verus! {

/// An operation the editor does not model (a kind other than adding a
/// sheet, adding or replacing; or an add or replace whose path does not
/// start at "data") changes nothing and succeeds.
pub proof fn lemma_unmodelled_ops_change_nothing(
    op: Op,
    old: umya_spreadsheet::Workbook,
    new: umya_spreadsheet::Workbook,
    old_map: Map<Seq<char>, Seq<char>>,
    new_map: Map<Seq<char>, Seq<char>>,
    res: Result<Option<NumericEdit>, Error>,
)
    requires
        carried_out(old, new, old_map, new_map, res, plan(op, workbook_sheets(old), old_map)),
        !(op.op is AddSheet),
        !(op.op is Add || op.op is Replace) || op.segment_spec(0) != "data"@,
    ensures
        res matches Ok(None),
        unchanged(old, new),
        new_map == old_map,
{
}

/// A refused operation changes neither the workbook's sheets and cells nor
/// the sheet map.
pub proof fn lemma_refusal_changes_nothing(
    op: Op,
    old: umya_spreadsheet::Workbook,
    new: umya_spreadsheet::Workbook,
    old_map: Map<Seq<char>, Seq<char>>,
    new_map: Map<Seq<char>, Seq<char>>,
    res: Result<Option<NumericEdit>, Error>,
)
    requires
        carried_out(old, new, old_map, new_map, res, plan(op, workbook_sheets(old), old_map)),
        res is Err,
    ensures
        unchanged(old, new),
        new_map == old_map,
{
}

/// A value edit reads back: after an add or replace of `m` or `v` at a
/// zero-based (row, column) of a known sheet, the cell at the one-based
/// (column + 1, row + 1) of that sheet shows the value's text, keeps the
/// font and the style (its background among them) it had, and no other
/// cell changes.
pub proof fn lemma_value_edit_reads_back(
    op: Op,
    old: umya_spreadsheet::Workbook,
    new: umya_spreadsheet::Workbook,
    old_map: Map<Seq<char>, Seq<char>>,
    new_map: Map<Seq<char>, Seq<char>>,
    res: Result<Option<NumericEdit>, Error>,
    row: u64,
    column: u64,
)
    requires
        carried_out(old, new, old_map, new_map, res, plan(op, workbook_sheets(old), old_map)),
        op.op is Add || op.op is Replace,
        op.segment_spec(0) == "data"@,
        op.path@.len() > 2,
        op.path@[1] == Json::Number(JsonNumber::PosInt(row)),
        op.path@[2] == Json::Number(JsonNumber::PosInt(column)),
        row < u32::MAX,
        column < u32::MAX,
        op.segment_spec(3) == "m"@ || op.segment_spec(3) == "v"@,
        old_map.contains_key(op.id@),
        has_sheet(workbook_sheets(old), old_map[op.id@]),
    ensures
        res matches Ok(None),
        new_map == old_map,
        workbook_sheets(new) == workbook_sheets(old),
        ({
            let key = cell_key(workbook_sheets(old), old_map[op.id@], (column + 1) as u32, (row + 1) as u32);
            &&& workbook_cells(new).contains_key(key)
            &&& workbook_cells(new)[key].0 == op.value.text_spec()
            &&& !workbook_cells(new)[key].1
            &&& workbook_cells(old).contains_key(key) ==> workbook_cells(new)[key].2 == workbook_cells(old)[key].2
            &&& workbook_cells(old).contains_key(key) ==> workbook_cells(new)[key].3 == workbook_cells(old)[key].3
            &&& workbook_cells(new).remove(key) == workbook_cells(old).remove(key)
        }),
{
    reveal_strlit("ct");
    reveal_strlit("m");
    reveal_strlit("v");
    assert("m"@.len() == 1 && "v"@.len() == 1 && "ct"@.len() == 2);
    assert("m"@ != "ct"@ && "v"@ != "ct"@);
    assert(read_coordinate(op, 1) == Some((row + 1) as u32));
    assert(read_coordinate(op, 2) == Some((column + 1) as u32));
    let sheet = old_map[op.id@];
    let c = (column + 1) as u32;
    let r = (row + 1) as u32;
    assert(attribute_plan(op, sheet, c, r) == Plan::Cell(sheet, c, r, CellChange::Text(op.value.text_spec())));
    assert(cell_plan(op, workbook_sheets(old), old_map) == attribute_plan(op, sheet, c, r));
    assert(plan(op, workbook_sheets(old), old_map) == cell_plan(op, workbook_sheets(old), old_map));
    let key = cell_key(workbook_sheets(old), old_map[op.id@], (column + 1) as u32, (row + 1) as u32);
    assert(workbook_cells(new).dom().contains(key));
}

/// An added sheet is reachable: after a sheet is added for an id, the map
/// sends that id to the new sheet's name, which is the last sheet, and it
/// has no cells.
pub proof fn lemma_added_sheet_is_reachable(
    op: Op,
    old: umya_spreadsheet::Workbook,
    new: umya_spreadsheet::Workbook,
    old_map: Map<Seq<char>, Seq<char>>,
    new_map: Map<Seq<char>, Seq<char>>,
    res: Result<Option<NumericEdit>, Error>,
)
    requires
        carried_out(old, new, old_map, new_map, res, plan(op, workbook_sheets(old), old_map)),
        op.op is AddSheet,
        res is Ok,
    ensures
        ({
            let name = op.value.get_spec("name"@)->0.str_spec()->0;
            let id = op.value.get_spec("id"@)->0.str_spec()->0;
            &&& new_map.contains_key(id)
            &&& new_map[id] == name
            &&& has_sheet(workbook_sheets(new), name)
            &&& sheet_index(workbook_sheets(new), name) == workbook_sheets(old).len()
            &&& sheet_is_empty(workbook_cells(new), sheet_index(workbook_sheets(new), name))
        }),
{
    let sheets = workbook_sheets(old);
    let name = op.value.get_spec("name"@)->0.str_spec()->0;
    let pushed = workbook_sheets(new);
    assert(pushed[sheets.len() as int].1 == name);
    lemma_sheet_index(sheets, name);
    lemma_sheet_index(pushed, name);
    lemma_first_index_after_push(sheets, pushed[sheets.len() as int], name);
}

proof fn lemma_first_index_after_push(
    sheets: Seq<(Seq<char>, Seq<char>)>,
    extra: (Seq<char>, Seq<char>),
    name: Seq<char>,
)
    requires
        !has_sheet(sheets, name),
        extra.1 == name,
    ensures
        sheet_index(sheets.push(extra), name) == sheets.len(),
    decreases sheets.len(),
{
    if sheets.len() > 0 {
        assert(sheets[0].1 != name);
        assert(sheets.push(extra).drop_first() =~= sheets.drop_first().push(extra));
        assert(!has_sheet(sheets.drop_first(), name)) by {
            if has_sheet(sheets.drop_first(), name) {
                let i = choose|i: int| 0 <= i < sheets.drop_first().len() && #[trigger] sheets.drop_first()[i].1 == name;
                assert(sheets[i + 1].1 == name);
            }
        }
        lemma_first_index_after_push(sheets.drop_first(), extra, name);
    }
}

/// Coordinates round-trip: the cell that an edit at zero-based (row,
/// column) reaches is rendered back at that same zero-based (row, column).
pub proof fn lemma_coordinates_round_trip(op: Op, cell: CellSnapshot, data: CellData)
    requires
        read_coordinate(op, 1) is Some,
        read_coordinate(op, 2) is Some,
        cell.row == read_coordinate(op, 1)->0,
        cell.column == read_coordinate(op, 2)->0,
        renders(data, cell),
    ensures
        data.r as int == op.path@[1].u64_spec()->0,
        data.c as int == op.path@[2].u64_spec()->0,
{
}

/// A coordinate outside what a one-based `u32` can hold is refused, with
/// the segment's number in the message, and changes nothing.
pub proof fn lemma_out_of_range_column_is_refused(
    op: Op,
    old: umya_spreadsheet::Workbook,
    new: umya_spreadsheet::Workbook,
    old_map: Map<Seq<char>, Seq<char>>,
    new_map: Map<Seq<char>, Seq<char>>,
    res: Result<Option<NumericEdit>, Error>,
)
    requires
        carried_out(old, new, old_map, new_map, res, plan(op, workbook_sheets(old), old_map)),
        op.op is Add || op.op is Replace,
        op.segment_spec(0) == "data"@,
        op.path@.len() > 2,
        op.path@[2].u64_spec() is None || op.path@[2].u64_spec()->0 >= u32::MAX,
    ensures
        res matches Err(e) && e@ == coordinate_error(2),
        unchanged(old, new),
        new_map == old_map,
{
}

/// Retyping a cell to the general format keeps what it shows, its font and
/// its whole style; the cell holds that text, not a number, afterwards.
pub proof fn lemma_general_retype_keeps_value(
    old: umya_spreadsheet::Workbook,
    new: umya_spreadsheet::Workbook,
    sheet: Seq<char>,
    column: u32,
    row: u32,
)
    requires
        cell_changed(old, new, sheet, column, row, CellChange::KeepValue),
        workbook_cells(old).contains_key(cell_key(workbook_sheets(old), sheet, column, row)),
    ensures
        ({
            let key = cell_key(workbook_sheets(old), sheet, column, row);
            let before = workbook_cells(old)[key];
            workbook_cells(new) == workbook_cells(old).insert(key, (before.0, false, before.2, before.3))
        }),
{
    let key = cell_key(workbook_sheets(old), sheet, column, row);
    let before = workbook_cells(old)[key];
    let expected = workbook_cells(old).insert(key, (before.0, false, before.2, before.3));
    assert(workbook_cells(new) =~= expected) by {
        assert(workbook_cells(new).dom() =~= expected.dom());
        assert forall|k| #[trigger] workbook_cells(new).contains_key(k) implies workbook_cells(new)[k] == expected[k] by {
            if k != key {
                assert(workbook_cells(new).remove(key)[k] == workbook_cells(old).remove(key)[k]);
            }
        }
    }
}

/// Retyping a cell to the general format twice changes nothing the second
/// time.
pub proof fn lemma_general_retype_is_idempotent(
    first: umya_spreadsheet::Workbook,
    second: umya_spreadsheet::Workbook,
    third: umya_spreadsheet::Workbook,
    sheet: Seq<char>,
    column: u32,
    row: u32,
)
    requires
        cell_changed(first, second, sheet, column, row, CellChange::KeepValue),
        cell_changed(second, third, sheet, column, row, CellChange::KeepValue),
    ensures
        workbook_sheets(third) == workbook_sheets(second),
        workbook_cells(third) == workbook_cells(second),
{
    let key = cell_key(workbook_sheets(first), sheet, column, row);
    let mid = workbook_cells(second);
    let last = workbook_cells(third);
    assert(mid.contains_key(key));
    assert(last =~= mid) by {
        assert(last.dom() =~= mid.dom());
        assert forall|k| #[trigger] last.contains_key(k) implies last[k] == mid[k] by {
            if k != key {
                assert(last.remove(key)[k] == mid.remove(key)[k]);
            }
        }
    }
}

/// Saving back the texts that a sheet's cells already show keeps every
/// cell's text, font and style, and adds no cell.
pub proof fn lemma_saving_shown_texts_keeps_them(
    old: Map<CellKey, CellFacts>,
    new: Map<CellKey, CellFacts>,
    sheet: int,
    writes: Seq<Write>,
)
    requires
        writes_applied(old, new, sheet, writes),
        forall|j: int| 0 <= j < writes.len() ==> {
            let key: CellKey = (sheet, (#[trigger] writes[j]).0, writes[j].1);
            old.contains_key(key) && old[key].0 == writes[j].2
        },
    ensures
        new.dom() == old.dom(),
        forall|k: CellKey| #[trigger] old.contains_key(k) ==> {
            &&& new[k].0 == old[k].0
            &&& new[k].2 == old[k].2
            &&& new[k].3 == old[k].3
        },
{
    assert forall|k: CellKey| #[trigger] new.contains_key(k) <==> old.contains_key(k) by {
        if written(sheet, writes, k) {
            lemma_last_write_is_a_write(writes, k.1, k.2);
            let j = choose|j: int| 0 <= j < writes.len() && #[trigger] writes[j] == (k.1, k.2, last_write(writes, k.1, k.2)->0);
            assert(old.contains_key((sheet, writes[j].0, writes[j].1)));
        }
    }
    assert(new.dom() =~= old.dom());
    assert forall|k: CellKey| #[trigger] old.contains_key(k) implies {
        &&& new[k].0 == old[k].0
        &&& new[k].2 == old[k].2
        &&& new[k].3 == old[k].3
    } by {
        if written(sheet, writes, k) {
            lemma_last_write_is_a_write(writes, k.1, k.2);
            let j = choose|j: int| 0 <= j < writes.len() && #[trigger] writes[j] == (k.1, k.2, last_write(writes, k.1, k.2)->0);
            assert(old[(sheet, writes[j].0, writes[j].1)].0 == writes[j].2);
        }
    }
}

/// Whatever an operation comes to, no sheet is removed, renamed or
/// reordered (the old sheets stay in front), and no key of the sheet map is
/// removed.
pub proof fn lemma_nothing_is_lost(
    op: Op,
    old: umya_spreadsheet::Workbook,
    new: umya_spreadsheet::Workbook,
    old_map: Map<Seq<char>, Seq<char>>,
    new_map: Map<Seq<char>, Seq<char>>,
    res: Result<Option<NumericEdit>, Error>,
)
    requires
        carried_out(old, new, old_map, new_map, res, plan(op, workbook_sheets(old), old_map)),
    ensures
        workbook_sheets(old).len() <= workbook_sheets(new).len(),
        forall|i: int| 0 <= i < workbook_sheets(old).len() ==>
            #[trigger] workbook_sheets(new)[i] == workbook_sheets(old)[i],
        forall|k: Seq<char>| #[trigger] old_map.contains_key(k) ==> new_map.contains_key(k),
{
}

/// Where every name in the sheet map names a sheet of the workbook (as
/// after `WorkbookState::new`), every name in it still does after any
/// operation, whatever its result.
pub proof fn lemma_sheet_map_keeps_naming_sheets(
    op: Op,
    old: umya_spreadsheet::Workbook,
    new: umya_spreadsheet::Workbook,
    old_map: Map<Seq<char>, Seq<char>>,
    new_map: Map<Seq<char>, Seq<char>>,
    res: Result<Option<NumericEdit>, Error>,
)
    requires
        carried_out(old, new, old_map, new_map, res, plan(op, workbook_sheets(old), old_map)),
        forall|k: Seq<char>| #[trigger] old_map.contains_key(k) ==> has_sheet(workbook_sheets(old), old_map[k]),
    ensures
        forall|k: Seq<char>| #[trigger] new_map.contains_key(k) ==> has_sheet(workbook_sheets(new), new_map[k]),
{
    let sheets = workbook_sheets(old);
    let after = workbook_sheets(new);
    lemma_nothing_is_lost(op, old, new, old_map, new_map, res);
    assert forall|k: Seq<char>| #[trigger] new_map.contains_key(k) implies has_sheet(after, new_map[k]) by {
        match plan(op, sheets, old_map) {
            Plan::AddSheet(id, name) => {
                if k == id {
                    assert(after[sheets.len() as int].1 == name);
                } else {
                    let i = choose|i: int| 0 <= i < sheets.len() && #[trigger] sheets[i].1 == old_map[k];
                    assert(after[i] == sheets[i]);
                }
            },
            _ => {
                let i = choose|i: int| 0 <= i < sheets.len() && #[trigger] sheets[i].1 == old_map[k];
                assert(after[i] == sheets[i]);
            },
        }
    }
}

/// Saving back a serialized sheet keeps it: where a valid payload names
/// the sheet that a grid shows, and each of its writes is a cell of that
/// grid at its one-based place with the grid's text, storing it adds no
/// sheet and no cell, and every cell keeps its text, font and style.
pub proof fn lemma_saving_a_serialized_sheet_keeps_it(
    old: umya_spreadsheet::Workbook,
    new: umya_spreadsheet::Workbook,
    grid: Map<u32, Map<u32, Seq<char>>>,
    index: int,
    data: Json,
)
    requires
        payload_ok(data),
        sheet_index(workbook_sheets(old), payload_sheet(data)->0) == index,
        0 <= index,
        grid_shows(grid, workbook_cells(old), index),
        forall|j: int| 0 <= j < payload_writes(data)->0.len() ==>
            #[trigger] write_in_grid(grid, payload_writes(data)->0[j]),
        saved(old, new, data),
    ensures
        workbook_sheets(new) == workbook_sheets(old),
        workbook_cells(new).dom() == workbook_cells(old).dom(),
        forall|k: CellKey| #[trigger] workbook_cells(old).contains_key(k) ==> {
            &&& workbook_cells(new)[k].0 == workbook_cells(old)[k].0
            &&& workbook_cells(new)[k].2 == workbook_cells(old)[k].2
            &&& workbook_cells(new)[k].3 == workbook_cells(old)[k].3
        },
{
    let sheets = workbook_sheets(old);
    let name = payload_sheet(data)->0;
    let writes = payload_writes(data)->0;
    let cells = workbook_cells(old);
    lemma_sheet_index(sheets, name);
    assert(has_sheet(sheets, name));
    assert forall|j: int| 0 <= j < writes.len() implies {
        let key: CellKey = (index, (#[trigger] writes[j]).0, writes[j].1);
        cells.contains_key(key) && cells[key].0 == writes[j].2
    } by {
        assert(write_in_grid(grid, writes[j]));
        let (r, c) = choose|r: u32, c: u32| grid.contains_key(r) && #[trigger] grid[r].contains_key(c)
            && writes[j].0 == c + 1 && writes[j].1 == r + 1 && writes[j].2 == grid[r][c];
        let key: CellKey = (index, (c + 1) as u32, (r + 1) as u32);
        assert(cells.contains_key(key));
        assert(cells.contains_key(key) && key.0 == index);
        assert(grid[r][c] == cells[key].0);
    }
    lemma_saving_shown_texts_keeps_them(cells, workbook_cells(new), index, writes);
}

} // verus!
