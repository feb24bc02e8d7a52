//! The first frontend protocol: x-spreadsheet's grid, sent and received as
//! nested row / "cells" / column objects.

use vstd::prelude::*;
use crate::json::{Json, parse_json, parsed_json};
use crate::grid::{
    CellText, GridRow, grid_of, grid_view, grid_wf, group_rows, one_based, is_one_based, lemma_grid_of_places,
};
use crate::text::{decimal, parse_u32, parse_u32_spec, str_eq};
use crate::workbook::{
    workbook_sheets, workbook_cells, has_sheet, sheet_index, CellKey, CellFacts,
    new_sheet, sheet_by_name_mut_ok, set_value_string, sheets_loaded, sheet_is_loaded, lemma_sheet_index,
    sheet_count, sheet_name_at, sheet_cell_texts, texts_of_sheet,
};

verus! {

/// A cell write: one-based column and row, and the text.
pub type Write = (u32, u32, Seq<char>);

/// A cell write that a payload asks for.
#[derive(Debug)]
pub struct CellWrite {
    /// One-based column.
    pub column: u32,
    /// One-based row.
    pub row: u32,
    pub text: String,
}

/// The writes, by their plain values.
pub open spec fn writes_view(writes: Seq<CellWrite>) -> Seq<Write> {
    writes.map_values(|w: CellWrite| (w.column, w.row, w.text@))
}

/// Writes that come before what the rest of the payload gives, when the
/// rest can be read at all.
pub open spec fn prepend(head: Seq<Write>, tail: Option<Seq<Write>>) -> Option<Seq<Write>> {
    match tail {
        Some(t) => Some(head + t),
        None => None,
    }
}

proof fn lemma_prepend_assoc(a: Seq<Write>, b: Seq<Write>, tail: Option<Seq<Write>>)
    ensures
        prepend(a, prepend(b, tail)) == prepend(a + b, tail),
{
    if let Some(t) = tail {
        assert((a + b) + t =~= a + (b + t));
    }
}

proof fn lemma_writes_view_push(writes: Seq<CellWrite>, w: CellWrite)
    ensures
        writes_view(writes.push(w)) == writes_view(writes) + seq![(w.column, w.row, w.text@)],
{
    assert(writes_view(writes.push(w)) =~= writes_view(writes) + seq![(w.column, w.row, w.text@)]);
}

/// The one-based cell that zero-based column and row keys name: both keys
/// parse as `u32` and stay below `u32::MAX`.
pub open spec fn position(column_key: Seq<char>, row_key: Seq<char>) -> Option<(u32, u32)> {
    match (parse_u32_spec(column_key), parse_u32_spec(row_key)) {
        (Some(c), Some(r)) => if c < u32::MAX && r < u32::MAX {
            Some(((c + 1) as u32, (r + 1) as u32))
        } else {
            None
        },
        _ => None,
    }
}

/// The writes of a non-empty cell object: one per "text" member, whose
/// value must be a string.
pub open spec fn text_writes(members: Seq<(String, Json)>, pos: Option<(u32, u32)>) -> Option<Seq<Write>>
    decreases members.len(),
{
    if members.len() == 0 {
        Some(Seq::empty())
    } else {
        let rest = text_writes(members.drop_first(), pos);
        if members[0].0@ == "text"@ {
            match (pos, members[0].1.str_spec()) {
                (Some(p), Some(t)) => prepend(seq![(p.0, p.1, t)], rest),
                _ => None,
            }
        } else {
            rest
        }
    }
}

/// The writes of a cell: an empty cell object clears the cell, others set
/// their "text".
pub open spec fn cell_writes(cell: Json, pos: Option<(u32, u32)>) -> Option<Seq<Write>> {
    match cell {
        Json::Object { members, .. } => if members@.len() == 0 {
            match pos {
                Some(p) => Some(seq![(p.0, p.1, Seq::<char>::empty())]),
                None => None,
            }
        } else {
            text_writes(members@, pos)
        },
        _ => None,
    }
}

/// The writes of a row's "cells" object, column by column.
pub open spec fn column_writes(columns: Seq<(String, Json)>, row_key: Seq<char>) -> Option<Seq<Write>>
    decreases columns.len(),
{
    if columns.len() == 0 {
        Some(Seq::empty())
    } else {
        match cell_writes(columns[0].1, position(columns[0].0@, row_key)) {
            Some(w) => prepend(w, column_writes(columns.drop_first(), row_key)),
            None => None,
        }
    }
}

/// The writes of a row object: its "cells" members.
pub open spec fn row_writes(members: Seq<(String, Json)>, row_key: Seq<char>) -> Option<Seq<Write>>
    decreases members.len(),
{
    if members.len() == 0 {
        Some(Seq::empty())
    } else {
        let rest = row_writes(members.drop_first(), row_key);
        if members[0].0@ == "cells"@ {
            match members[0].1 {
                Json::Object { members: columns, .. } => match column_writes(columns@, row_key) {
                    Some(w) => prepend(w, rest),
                    None => None,
                },
                _ => None,
            }
        } else {
            rest
        }
    }
}

/// The writes of the "rows" object, row by row; its "len" member is not a
/// row.
pub open spec fn rows_writes(rows: Seq<(String, Json)>) -> Option<Seq<Write>>
    decreases rows.len(),
{
    if rows.len() == 0 {
        Some(Seq::empty())
    } else {
        let rest = rows_writes(rows.drop_first());
        if rows[0].0@ == "len"@ {
            rest
        } else {
            match rows[0].1 {
                Json::Object { members, .. } => match row_writes(members@, rows[0].0@) {
                    Some(w) => prepend(w, rest),
                    None => None,
                },
                _ => None,
            }
        }
    }
}

/// The writes a payload asks for, in order; none when it is malformed.
pub open spec fn payload_writes(data: Json) -> Option<Seq<Write>> {
    match data.get_spec("rows"@) {
        Some(Json::Object { members, .. }) => rows_writes(members@),
        _ => None,
    }
}

/// The sheet a payload names.
pub open spec fn payload_sheet(data: Json) -> Option<Seq<char>> {
    match data.get_spec("name"@) {
        Some(n) => n.str_spec(),
        None => None,
    }
}

/// A payload that names its sheet and whose writes can all be read.
pub open spec fn payload_ok(data: Json) -> bool {
    payload_sheet(data) is Some && payload_writes(data) is Some
}

/// The one-based cell that zero-based column and row keys name.
fn position_exec(column_key: &str, row_key: &str) -> (res: Option<(u32, u32)>)
    ensures
        res == position(column_key@, row_key@),
{
    match (parse_u32(column_key), parse_u32(row_key)) {
        (Some(c), Some(r)) => if c < 4294967295u32 && r < 4294967295u32 {
            Some((c + 1, r + 1))
        } else {
            None
        },
        _ => None,
    }
}

fn text_writes_exec(members: &Vec<(String, Json)>, pos: Option<(u32, u32)>) -> (res: Option<Vec<CellWrite>>)
    ensures
        match res {
            Some(w) => text_writes(members@, pos) == Some(writes_view(w@)),
            None => text_writes(members@, pos) is None,
        },
{
    let mut acc: Vec<CellWrite> = Vec::new();
    let n = members.len();
    let mut i: usize = 0;
    assert(members@.skip(0) =~= members@);
    assert(writes_view(acc@) =~= Seq::<Write>::empty());
    while i < n
        invariant
            n == members@.len(),
            i <= n,
            text_writes(members@, pos) == prepend(writes_view(acc@), text_writes(members@.skip(i as int), pos)),
        decreases n - i,
    {
        assert(members@.skip(i as int).drop_first() =~= members@.skip(i + 1));
        assert(members@.skip(i as int)[0] == members@[i as int]);
        let (key, value) = &members[i];
        if str_eq(key.as_str(), "text") {
            match (pos, value.as_str()) {
                (Some(p), Some(t)) => {
                    let w = CellWrite { column: p.0, row: p.1, text: String::from_str(t) };
                    proof {
                        lemma_writes_view_push(acc@, w);
                        lemma_prepend_assoc(writes_view(acc@), seq![(p.0, p.1, t@)],
                            text_writes(members@.skip(i + 1), pos));
                    }
                    acc.push(w);
                },
                _ => return None,
            }
        }
        i = i + 1;
    }
    assert(members@.skip(n as int) =~= Seq::<(String, Json)>::empty());
    assert(writes_view(acc@) + Seq::<Write>::empty() =~= writes_view(acc@));
    Some(acc)
}

fn cell_writes_exec(cell: &Json, pos: Option<(u32, u32)>) -> (res: Option<Vec<CellWrite>>)
    ensures
        match res {
            Some(w) => cell_writes(*cell, pos) == Some(writes_view(w@)),
            None => cell_writes(*cell, pos) is None,
        },
{
    match cell {
        Json::Object { members, .. } => {
            if members.len() == 0 {
                match pos {
                    Some(p) => {
                        let mut acc: Vec<CellWrite> = Vec::new();
                        let w = CellWrite { column: p.0, row: p.1, text: String::new() };
                        acc.push(w);
                        assert(writes_view(acc@) =~= seq![(p.0, p.1, Seq::<char>::empty())]);
                        Some(acc)
                    },
                    None => None,
                }
            } else {
                text_writes_exec(members, pos)
            }
        },
        _ => None,
    }
}

fn column_writes_exec(columns: &Vec<(String, Json)>, row_key: &str) -> (res: Option<Vec<CellWrite>>)
    ensures
        match res {
            Some(w) => column_writes(columns@, row_key@) == Some(writes_view(w@)),
            None => column_writes(columns@, row_key@) is None,
        },
{
    let mut acc: Vec<CellWrite> = Vec::new();
    let n = columns.len();
    let mut i: usize = 0;
    assert(columns@.skip(0) =~= columns@);
    assert(writes_view(acc@) =~= Seq::<Write>::empty());
    while i < n
        invariant
            n == columns@.len(),
            i <= n,
            column_writes(columns@, row_key@)
                == prepend(writes_view(acc@), column_writes(columns@.skip(i as int), row_key@)),
        decreases n - i,
    {
        assert(columns@.skip(i as int).drop_first() =~= columns@.skip(i + 1));
        assert(columns@.skip(i as int)[0] == columns@[i as int]);
        let (key, cell) = &columns[i];
        let pos = position_exec(key.as_str(), row_key);
        match cell_writes_exec(cell, pos) {
            Some(mut w) => {
                let ghost before = acc@;
                let ghost added = w@;
                proof {
                    lemma_prepend_assoc(writes_view(acc@), writes_view(w@),
                        column_writes(columns@.skip(i + 1), row_key@));
                }
                acc.append(&mut w);
                assert(writes_view(acc@) =~= writes_view(before) + writes_view(added)) by {
                    assert(acc@ =~= before + added);
                }
            },
            None => return None,
        }
        i = i + 1;
    }
    assert(columns@.skip(n as int) =~= Seq::<(String, Json)>::empty());
    assert(writes_view(acc@) + Seq::<Write>::empty() =~= writes_view(acc@));
    Some(acc)
}

fn row_writes_exec(members: &Vec<(String, Json)>, row_key: &str) -> (res: Option<Vec<CellWrite>>)
    ensures
        match res {
            Some(w) => row_writes(members@, row_key@) == Some(writes_view(w@)),
            None => row_writes(members@, row_key@) is None,
        },
{
    let mut acc: Vec<CellWrite> = Vec::new();
    let n = members.len();
    let mut i: usize = 0;
    assert(members@.skip(0) =~= members@);
    assert(writes_view(acc@) =~= Seq::<Write>::empty());
    while i < n
        invariant
            n == members@.len(),
            i <= n,
            row_writes(members@, row_key@)
                == prepend(writes_view(acc@), row_writes(members@.skip(i as int), row_key@)),
        decreases n - i,
    {
        assert(members@.skip(i as int).drop_first() =~= members@.skip(i + 1));
        assert(members@.skip(i as int)[0] == members@[i as int]);
        let (key, value) = &members[i];
        if str_eq(key.as_str(), "cells") {
            match value {
                Json::Object { members: columns, .. } => match column_writes_exec(columns, row_key) {
                    Some(mut w) => {
                        let ghost before = acc@;
                        let ghost added = w@;
                        proof {
                            lemma_prepend_assoc(writes_view(acc@), writes_view(w@),
                                row_writes(members@.skip(i + 1), row_key@));
                        }
                        acc.append(&mut w);
                        assert(writes_view(acc@) =~= writes_view(before) + writes_view(added)) by {
                            assert(acc@ =~= before + added);
                        }
                    },
                    None => return None,
                },
                _ => return None,
            }
        }
        i = i + 1;
    }
    assert(members@.skip(n as int) =~= Seq::<(String, Json)>::empty());
    assert(writes_view(acc@) + Seq::<Write>::empty() =~= writes_view(acc@));
    Some(acc)
}

fn rows_writes_exec(rows: &Vec<(String, Json)>) -> (res: Option<Vec<CellWrite>>)
    ensures
        match res {
            Some(w) => rows_writes(rows@) == Some(writes_view(w@)),
            None => rows_writes(rows@) is None,
        },
{
    let mut acc: Vec<CellWrite> = Vec::new();
    let n = rows.len();
    let mut i: usize = 0;
    assert(rows@.skip(0) =~= rows@);
    assert(writes_view(acc@) =~= Seq::<Write>::empty());
    while i < n
        invariant
            n == rows@.len(),
            i <= n,
            rows_writes(rows@) == prepend(writes_view(acc@), rows_writes(rows@.skip(i as int))),
        decreases n - i,
    {
        assert(rows@.skip(i as int).drop_first() =~= rows@.skip(i + 1));
        assert(rows@.skip(i as int)[0] == rows@[i as int]);
        let (key, value) = &rows[i];
        if !str_eq(key.as_str(), "len") {
            match value {
                Json::Object { members, .. } => match row_writes_exec(members, key.as_str()) {
                    Some(mut w) => {
                        let ghost before = acc@;
                        let ghost added = w@;
                        proof {
                            lemma_prepend_assoc(writes_view(acc@), writes_view(w@),
                                rows_writes(rows@.skip(i + 1)));
                        }
                        acc.append(&mut w);
                        assert(writes_view(acc@) =~= writes_view(before) + writes_view(added)) by {
                            assert(acc@ =~= before + added);
                        }
                    },
                    None => return None,
                },
                _ => return None,
            }
        }
        i = i + 1;
    }
    assert(rows@.skip(n as int) =~= Seq::<(String, Json)>::empty());
    assert(writes_view(acc@) + Seq::<Write>::empty() =~= writes_view(acc@));
    Some(acc)
}

/// The writes a payload asks for, in order; `None` when it is malformed.
pub fn writes_of(data: &Json) -> (res: Option<Vec<CellWrite>>)
    ensures
        match res {
            Some(w) => payload_writes(*data) == Some(writes_view(w@)),
            None => payload_writes(*data) is None,
        },
{
    match data.get("rows") {
        Some(rows) => match rows {
            Json::Object { members, .. } => rows_writes_exec(members),
            _ => None,
        },
        None => None,
    }
}

/// The sheet a payload names; `None` when it names none.
pub fn sheet_of(data: &Json) -> (res: Option<&str>)
    ensures
        match res {
            Some(s) => payload_sheet(*data) == Some(s@),
            None => payload_sheet(*data) is None,
        },
{
    match data.get("name") {
        Some(n) => n.as_str(),
        None => None,
    }
}

/// Whether a payload names its sheet and all its writes can be read; the
/// writes panic on any other payload.
pub fn payload_is_valid(data: &Json) -> (res: bool)
    ensures
        res == payload_ok(*data),
{
    sheet_of(data).is_some() && writes_of(data).is_some()
}

/// The text of the last write to a cell, if any.
pub open spec fn last_write(writes: Seq<Write>, column: u32, row: u32) -> Option<Seq<char>>
    decreases writes.len(),
{
    if writes.len() == 0 {
        None
    } else if writes.last().0 == column && writes.last().1 == row {
        Some(writes.last().2)
    } else {
        last_write(writes.drop_last(), column, row)
    }
}

/// The text of the last write to a cell is the text of one of its writes.
pub proof fn lemma_last_write_is_a_write(writes: Seq<Write>, column: u32, row: u32)
    requires
        last_write(writes, column, row) is Some,
    ensures
        exists|j: int| 0 <= j < writes.len() && #[trigger] writes[j] == (column, row, last_write(writes, column, row)->0),
    decreases writes.len(),
{
    if !(writes.last().0 == column && writes.last().1 == row) {
        lemma_last_write_is_a_write(writes.drop_last(), column, row);
        let j = choose|j: int| 0 <= j < writes.drop_last().len()
            && #[trigger] writes.drop_last()[j] == (column, row, last_write(writes.drop_last(), column, row)->0);
        assert(writes[j] == writes.drop_last()[j]);
    } else {
        assert(writes[writes.len() - 1] == (column, row, last_write(writes, column, row)->0));
    }
}

/// The cells of sheet `sheet` that the writes reach.
pub open spec fn written(sheet: int, writes: Seq<Write>, key: CellKey) -> bool {
    key.0 == sheet && last_write(writes, key.1, key.2) is Some
}

/// The cells after the writes to sheet `sheet`: each written cell exists
/// holding the text of its last write, and keeps its font and style if it
/// existed; every other cell is as it was.
pub open spec fn writes_applied(
    old: Map<CellKey, CellFacts>,
    new: Map<CellKey, CellFacts>,
    sheet: int,
    writes: Seq<Write>,
) -> bool {
    &&& forall|k: CellKey| #[trigger] new.contains_key(k) <==> (old.contains_key(k) || written(sheet, writes, k))
    &&& forall|k: CellKey| #[trigger] new.contains_key(k) && !written(sheet, writes, k) ==> new[k] == old[k]
    &&& forall|k: CellKey| #[trigger] written(sheet, writes, k) ==> {
        &&& new[k].0 == last_write(writes, k.1, k.2)->0
        &&& !new[k].1
        &&& old.contains_key(k) ==> new[k].2 == old[k].2
        &&& old.contains_key(k) ==> new[k].3 == old[k].3
    }
}

/// What storing a valid payload does: the sheet it names is kept, or
/// added when no sheet has that name (holding only the cells written), and
/// its cells take the writes.
pub open spec fn saved(old: umya_spreadsheet::Workbook, new: umya_spreadsheet::Workbook, data: Json) -> bool {
    let name = payload_sheet(data)->0;
    let sheets = workbook_sheets(old);
    &&& workbook_sheets(new) == if has_sheet(sheets, name) {
        sheets
    } else {
        sheets.push((decimal(sheets.len() + 1), name))
    }
    &&& !has_sheet(sheets, name) ==> forall|k: CellKey| #[trigger] workbook_cells(new).contains_key(k)
        && k.0 == sheets.len() ==> written(sheets.len() as int, payload_writes(data)->0, k)
    &&& writes_applied(
        workbook_cells(old),
        workbook_cells(new),
        sheet_index(workbook_sheets(new), name),
        payload_writes(data)->0,
    )
}

/// Stores the cells a payload sends: the sheet it names is taken, or added
/// when missing, and each write sets a cell's value as text, in order.
pub fn save_cell(workbook: &mut umya_spreadsheet::Workbook, data: &Json)
    requires
        payload_ok(*data),
        sheets_loaded(*old(workbook)),
    ensures
        sheets_loaded(*final(workbook)),
        saved(*old(workbook), *final(workbook), *data),
{
    let name = match sheet_of(data) {
        Some(n) => n,
        None => return,
    };
    let writes = match writes_of(data) {
        Some(w) => w,
        None => return,
    };
    let ghost start = workbook_cells(*workbook);
    proof { lemma_sheet_index(workbook_sheets(*workbook), name@); }
    if !sheet_by_name_mut_ok(workbook, name) {
        let ghost before = workbook_sheets(*workbook);
        let _ = new_sheet(workbook, name);
        assert(workbook_sheets(*workbook)[before.len() as int].1 == name@);
    }
    proof { lemma_sheet_index(workbook_sheets(*workbook), name@); }
    let ghost sheets = workbook_sheets(*workbook);
    let ghost index = sheet_index(sheets, name@);
    let ghost all = writes_view(writes@);
    assert(has_sheet(sheets, name@));
    assert(writes_view(writes@).take(0) =~= Seq::<Write>::empty());
    let n = writes.len();
    let mut i: usize = 0;
    while i < n
        invariant
            n == writes@.len(),
            i <= n,
            all == writes_view(writes@),
            workbook_sheets(*workbook) == sheets,
            sheets_loaded(*workbook),
            has_sheet(sheets, name@),
            index == sheet_index(sheets, name@),
            writes_applied(start, workbook_cells(*workbook), index, all.take(i as int)),
        decreases n - i,
    {
        let ghost mid = workbook_cells(*workbook);
        let ghost mid_wb = *workbook;
        proof { lemma_sheet_index(sheets, name@); }
        let w = &writes[i];
        set_value_string(workbook, name, w.column, w.row, w.text.as_str());
        proof {
            let done = all.take(i as int);
            let next = all.take(i + 1);
            assert(next.drop_last() =~= done);
            assert(next.last() == (w.column, w.row, w.text@));
            let key: CellKey = (index, w.column, w.row);
            let new = workbook_cells(*workbook);
            assert forall|j: int| 0 <= j < sheets.len() implies #[trigger] sheet_is_loaded(*workbook, j) by {
                assert(sheet_is_loaded(mid_wb, j));
            }
            assert(written(index, next, key));
            assert forall|k: CellKey| #[trigger] new.contains_key(k) <==> (start.contains_key(k) || written(index, next, k)) by {
                if k != key {
                    assert(new.contains_key(k) == mid.contains_key(k));
                    assert(written(index, next, k) == written(index, done, k));
                }
            }
            assert forall|k: CellKey| #[trigger] new.contains_key(k) && !written(index, next, k) implies new[k] == start[k] by {
                assert(written(index, next, k) == written(index, done, k) || k == key);
                assert(new.remove(key)[k] == mid.remove(key)[k]);
            }
            assert forall|k: CellKey| #[trigger] written(index, next, k) implies {
                &&& new[k].0 == last_write(next, k.1, k.2)->0
                &&& !new[k].1
                &&& start.contains_key(k) ==> new[k].2 == start[k].2
                &&& start.contains_key(k) ==> new[k].3 == start[k].3
            } by {
                if k != key {
                    assert(written(index, done, k));
                    assert(new.remove(key)[k] == mid.remove(key)[k]);
                } else if start.contains_key(k) {
                    assert(mid.contains_key(k));
                }
            }
        }
        i = i + 1;
    }
    assert(all.take(n as int) =~= all);
}

/// Stores the cells that payload text sends: the text is parsed as JSON,
/// and stored where it is a valid payload. Text that does not parse, or a
/// payload that is not valid, changes nothing and gives `false`.
pub fn save_cell_payload(workbook: &mut umya_spreadsheet::Workbook, payload: &str) -> (res: bool)
    requires
        sheets_loaded(*old(workbook)),
    ensures
        sheets_loaded(*final(workbook)),
        res == (parsed_json(payload@) matches Some(d) && payload_ok(d)),
        res ==> saved(*old(workbook), *final(workbook), parsed_json(payload@)->0),
        !res ==> *final(workbook) == *old(workbook),
{
    let data = match parse_json(payload) {
        Some(d) => d,
        None => return false,
    };
    if !payload_is_valid(&data) {
        return false;
    }
    save_cell(workbook, &data);
    true
}

/// A sheet's cells, as the workbook holds them.
#[derive(Debug)]
pub struct SheetCells {
    pub name: String,
    pub cells: Vec<CellText>,
}

/// A sheet as the first protocol sends it: its name and its cell texts by
/// zero-based row and column.
#[derive(Debug)]
pub struct GridSheet {
    pub name: String,
    pub rows: Vec<GridRow>,
}

/// Renders every sheet as its name and its grid of cell texts.
pub fn serialize(sheets: &Vec<SheetCells>) -> (res: Vec<GridSheet>)
    requires
        forall|i: int| 0 <= i < sheets@.len() ==> one_based(#[trigger] sheets@[i].cells@),
    ensures
        res@.len() == sheets@.len(),
        forall|i: int| 0 <= i < res@.len() ==> {
            &&& (#[trigger] res@[i]).name@ == sheets@[i].name@
            &&& grid_wf(res@[i].rows@)
            &&& grid_view(res@[i].rows@) == grid_of(sheets@[i].cells@)
        },
{
    let mut res: Vec<GridSheet> = Vec::new();
    let mut i: usize = 0;
    while i < sheets.len()
        invariant
            i <= sheets@.len(),
            forall|k: int| 0 <= k < sheets@.len() ==> one_based(#[trigger] sheets@[k].cells@),
            res@.len() == i,
            forall|k: int| 0 <= k < i ==> {
                &&& (#[trigger] res@[k]).name@ == sheets@[k].name@
                &&& grid_wf(res@[k].rows@)
                &&& grid_view(res@[k].rows@) == grid_of(sheets@[k].cells@)
            },
        decreases sheets@.len() - i,
    {
        let sheet = &sheets[i];
        assert(one_based(sheets@[i as int].cells@));
        let rows = group_rows(&sheet.cells);
        res.push(GridSheet { name: sheet.name.clone(), rows });
        i = i + 1;
    }
    res
}

/// The grid shows exactly the cells of the sheet at `index`: each at its
/// zero-based row and column, with its displayed value.
pub open spec fn grid_shows(grid: Map<u32, Map<u32, Seq<char>>>, cells: Map<CellKey, CellFacts>, index: int) -> bool {
    &&& forall|k: CellKey| #[trigger] cells.contains_key(k) && k.0 == index ==> {
        let r = (k.2 - 1) as u32;
        let c = (k.1 - 1) as u32;
        &&& grid.contains_key(r)
        &&& grid[r].contains_key(c)
        &&& grid[r][c] == cells[k].0
    }
    &&& forall|r: u32, c: u32| grid.contains_key(r) && #[trigger] grid[r].contains_key(c) ==>
        cells.contains_key((index, (c + 1) as u32, (r + 1) as u32))
}

/// A write that a grid shows: a cell of the grid, at its one-based column
/// and row, with the grid's text.
pub open spec fn write_in_grid(grid: Map<u32, Map<u32, Seq<char>>>, w: Write) -> bool {
    exists|r: u32, c: u32| grid.contains_key(r) && #[trigger] grid[r].contains_key(c)
        && w.0 == c + 1 && w.1 == r + 1 && w.2 == grid[r][c]
}

/// Every cell of the workbook's sheets sits at a one-based place.
pub open spec fn cells_one_based(wb: umya_spreadsheet::Workbook) -> bool {
    forall|k: CellKey| #[trigger] workbook_cells(wb).contains_key(k) && 0 <= k.0 < workbook_sheets(wb).len()
        ==> k.1 >= 1 && k.2 >= 1
}

/// Reads each sheet of the workbook as its name and its cells' texts.
pub fn workbook_sheet_cells(workbook: &umya_spreadsheet::Workbook) -> (res: Vec<SheetCells>)
    requires
        sheets_loaded(*workbook),
    ensures
        res@.len() == workbook_sheets(*workbook).len(),
        forall|i: int| 0 <= i < res@.len() ==> {
            &&& (#[trigger] res@[i]).name@ == workbook_sheets(*workbook)[i].1
            &&& texts_of_sheet(workbook_cells(*workbook), i, res@[i].cells@)
        },
{
    let n = sheet_count(workbook);
    let mut res: Vec<SheetCells> = Vec::new();
    let mut i: usize = 0;
    while i < n
        invariant
            n == workbook_sheets(*workbook).len(),
            sheets_loaded(*workbook),
            i <= n,
            res@.len() == i,
            forall|k: int| 0 <= k < i ==> {
                &&& (#[trigger] res@[k]).name@ == workbook_sheets(*workbook)[k].1
                &&& texts_of_sheet(workbook_cells(*workbook), k, res@[k].cells@)
            },
        decreases n - i,
    {
        let name = sheet_name_at(workbook, i);
        let cells = sheet_cell_texts(workbook, i);
        res.push(SheetCells { name, cells });
        i = i + 1;
    }
    res
}

/// Renders every sheet of the workbook as its name and its grid of cell
/// texts; `None` where a cell sits in column or row 0, which has no
/// zero-based place.
pub fn serialize_workbook(workbook: &umya_spreadsheet::Workbook) -> (res: Option<Vec<GridSheet>>)
    requires
        sheets_loaded(*workbook),
    ensures
        res is Some <==> cells_one_based(*workbook),
        res matches Some(g) ==> {
            &&& g@.len() == workbook_sheets(*workbook).len()
            &&& forall|i: int| 0 <= i < g@.len() ==> {
                &&& (#[trigger] g@[i]).name@ == workbook_sheets(*workbook)[i].1
                &&& grid_wf(g@[i].rows@)
                &&& grid_shows(grid_view(g@[i].rows@), workbook_cells(*workbook), i)
            }
        },
{
    let ghost cells = workbook_cells(*workbook);
    let sheets = workbook_sheet_cells(workbook);
    let mut i: usize = 0;
    while i < sheets.len()
        invariant
            i <= sheets@.len(),
            sheets@.len() == workbook_sheets(*workbook).len(),
            cells == workbook_cells(*workbook),
            forall|k: int| 0 <= k < sheets@.len() ==> texts_of_sheet(cells, k, (#[trigger] sheets@[k]).cells@),
            forall|k: int| 0 <= k < i ==> one_based((#[trigger] sheets@[k]).cells@),
        decreases sheets@.len() - i,
    {
        if !is_one_based(&sheets[i].cells) {
            proof {
                let texts = sheets@[i as int].cells@;
                assert(texts_of_sheet(cells, i as int, texts));
                let j = choose|j: int| 0 <= j < texts.len() && !((#[trigger] texts[j]).row >= 1 && texts[j].column >= 1);
                let key: CellKey = (i as int, texts[j].column, texts[j].row);
                assert(cells.contains_key(key));
            }
            return None;
        }
        i = i + 1;
    }
    assert(cells_one_based(*workbook)) by {
        assert forall|k: CellKey| #[trigger] cells.contains_key(k) && 0 <= k.0 < workbook_sheets(*workbook).len()
            implies k.1 >= 1 && k.2 >= 1 by {
            let texts = sheets@[k.0].cells@;
            assert(texts_of_sheet(cells, k.0, texts));
            let j = choose|j: int| 0 <= j < texts.len() && (#[trigger] texts[j]).column == k.1 && texts[j].row == k.2;
            assert(one_based(texts));
        }
    }
    let grids = serialize(&sheets);
    assert forall|i: int| 0 <= i < grids@.len() implies
        grid_shows(grid_view((#[trigger] grids@[i]).rows@), cells, i) by {
        let texts = sheets@[i].cells@;
        assert(texts_of_sheet(cells, i, texts));
        assert(one_based(texts));
        lemma_grid_of_places(texts);
        assert forall|k: CellKey| #[trigger] cells.contains_key(k) && k.0 == i implies {
            let r = (k.2 - 1) as u32;
            let c = (k.1 - 1) as u32;
            &&& grid_of(texts).contains_key(r)
            &&& grid_of(texts)[r].contains_key(c)
            &&& grid_of(texts)[r][c] == cells[k].0
        } by {
            let j = choose|j: int| 0 <= j < texts.len() && (#[trigger] texts[j]).column == k.1 && texts[j].row == k.2;
            assert(cells[(i, texts[j].column, texts[j].row)].0 == texts[j].text@);
        }
        assert forall|r: u32, c: u32| grid_of(texts).contains_key(r) && #[trigger] grid_of(texts)[r].contains_key(c) implies
            cells.contains_key((i, (c + 1) as u32, (r + 1) as u32)) by {
            let j = choose|j: int| 0 <= j < texts.len() && (#[trigger] texts[j]).row == r + 1 && texts[j].column == c + 1;
            assert(cells.contains_key((i, texts[j].column, texts[j].row)));
        }
    }
    Some(grids)
}

} // verus!
