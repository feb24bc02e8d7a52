//! What each kind of cell edit does, stated over the operation's path and
//! value and over the workbook before and after, from the contract of
//! `apply_op`; and what a rendered cell carries of its raw value.

use vstd::prelude::*;
use crate::error::Error;
use crate::json::{Json, JsonNumber};
use crate::model::{Op, CellData};
use crate::ops::{NumericEdit, plan, carried_out, attribute_plan, unchanged};
use crate::serialize::{CellSnapshot, RawValue, renders, font_families};
use crate::workbook::{workbook_sheets, workbook_cells, has_sheet, sheet_index, SheetFacts};

verus! {

/// An add or replace under `data` at zero-based `row` and `column` (path
/// segments 1 and 2), of a sheet that the map names for the operation's id
/// and that the workbook has.
pub open spec fn edits_cell(
    op: Op,
    sheets: Seq<SheetFacts>,
    map: Map<Seq<char>, Seq<char>>,
    row: u64,
    column: u64,
) -> bool {
    &&& op.op is Add || op.op is Replace
    &&& op.segment_spec(0) == "data"@
    &&& op.path@.len() > 2
    &&& op.path@[1] == Json::Number(JsonNumber::PosInt(row))
    &&& op.path@[2] == Json::Number(JsonNumber::PosInt(column))
    &&& row < u32::MAX
    &&& column < u32::MAX
    &&& map.contains_key(op.id@)
    &&& has_sheet(sheets, map[op.id@])
}

/// A cell edit comes to the attribute edit of the one-based cell one past
/// the path's row and column, on the sheet the map names.
proof fn lemma_edit_reaches_cell(
    op: Op,
    sheets: Seq<SheetFacts>,
    map: Map<Seq<char>, Seq<char>>,
    row: u64,
    column: u64,
)
    requires
        edits_cell(op, sheets, map, row, column),
    ensures
        plan(op, sheets, map) == attribute_plan(op, map[op.id@], (column + 1) as u32, (row + 1) as u32),
{
}

/// The attribute names that an edit's fourth path segment can hold, as
/// characters.
proof fn lemma_attribute_names()
    ensures
        "ct"@ == seq!['c', 't'],
        "m"@ == seq!['m'],
        "v"@ == seq!['v'],
        "ff"@ == seq!['f', 'f'],
        "fs"@ == seq!['f', 's'],
        "bl"@ == seq!['b', 'l'],
        "it"@ == seq!['i', 't'],
        "cl"@ == seq!['c', 'l'],
        "n"@ == seq!['n'],
{
    reveal_strlit("ct");
    reveal_strlit("m");
    reveal_strlit("v");
    reveal_strlit("ff");
    reveal_strlit("fs");
    reveal_strlit("bl");
    reveal_strlit("it");
    reveal_strlit("cl");
    reveal_strlit("n");
    assert("ct"@ =~= seq!['c', 't']);
    assert("m"@ =~= seq!['m']);
    assert("v"@ =~= seq!['v']);
    assert("ff"@ =~= seq!['f', 'f']);
    assert("fs"@ =~= seq!['f', 's']);
    assert("bl"@ =~= seq!['b', 'l']);
    assert("it"@ =~= seq!['i', 't']);
    assert("cl"@ =~= seq!['c', 'l']);
    assert("n"@ =~= seq!['n']);
}

/// A font-size edit whose value is a number is handed back for the cell one
/// past the path's row and column (the cell a value edit at that path
/// reaches), on the sheet the map names, with that number; nothing else
/// changes.
pub proof fn lemma_font_size_edit_names_its_cell(
    op: Op,
    old: umya_spreadsheet::Workbook,
    new: umya_spreadsheet::Workbook,
    old_map: Map<Seq<char>, Seq<char>>,
    new_map: Map<Seq<char>, Seq<char>>,
    res: Result<Option<NumericEdit>, Error>,
    row: u64,
    column: u64,
    size: JsonNumber,
)
    requires
        carried_out(old, new, old_map, new_map, res, plan(op, workbook_sheets(old), old_map)),
        edits_cell(op, workbook_sheets(old), old_map, row, column),
        op.segment_spec(3) == "fs"@,
        op.value == Json::Number(size),
    ensures
        res matches Ok(Some(NumericEdit::FontSize { sheet, column: c, row: r, size: s }))
            && sheet@ == old_map[op.id@] && c == column + 1 && r == row + 1 && s == size,
        unchanged(old, new),
        new_map == old_map,
{
    lemma_edit_reaches_cell(op, workbook_sheets(old), old_map, row, column);
    lemma_attribute_names();
    let a = op.segment_spec(3);
    assert(a[1] == 's');
    assert(a != "ct"@ && a != "m"@ && a != "v"@ && a != "ff"@);
}

/// A whole-cell replacement (a path of just `data`, row and column) whose
/// format names the numeric type "n" is handed back for the cell one past
/// the path's row and column, on the sheet the map names: with the number
/// when the value `v` is a number, and with the text to parse when it is a
/// string; nothing else changes.
pub proof fn lemma_numeric_replacement_names_its_cell(
    op: Op,
    old: umya_spreadsheet::Workbook,
    new: umya_spreadsheet::Workbook,
    old_map: Map<Seq<char>, Seq<char>>,
    new_map: Map<Seq<char>, Seq<char>>,
    res: Result<Option<NumericEdit>, Error>,
    row: u64,
    column: u64,
    format: Json,
    tag: Json,
)
    requires
        carried_out(old, new, old_map, new_map, res, plan(op, workbook_sheets(old), old_map)),
        edits_cell(op, workbook_sheets(old), old_map, row, column),
        op.path@.len() == 3,
        op.value is Object,
        op.value.get_spec("ct"@) == Some(format),
        format.get_spec("t"@) == Some(tag),
        tag.str_spec() == Some("n"@),
    ensures
        op.value.get_spec("v"@) matches Some(Json::Number(n)) ==> (
            res matches Ok(Some(NumericEdit::Number { sheet, column: c, row: r, number }))
            && sheet@ == old_map[op.id@] && c == column + 1 && r == row + 1 && number == n
            && unchanged(old, new)),
        op.value.get_spec("v"@) matches Some(Json::String(t)) ==> (
            res matches Ok(Some(NumericEdit::ParsedText { sheet, column: c, row: r, text }))
            && sheet@ == old_map[op.id@] && c == column + 1 && r == row + 1 && text@ == t@
            && unchanged(old, new)),
        new_map == old_map,
{
    lemma_edit_reaches_cell(op, workbook_sheets(old), old_map, row, column);
    lemma_attribute_names();
    reveal_strlit("");
    assert(op.segment_spec(3) =~= Seq::<char>::empty());
}

/// A bold, italic or strikethrough edit leaves the cell one past the path's
/// row and column with a font whose flag is on exactly when the value is
/// the integer 1 (fortune-sheet sends 1 or 0); the cell keeps its value, and
/// no other cell changes.
pub proof fn lemma_toggles_follow_the_value(
    op: Op,
    old: umya_spreadsheet::Workbook,
    new: umya_spreadsheet::Workbook,
    old_map: Map<Seq<char>, Seq<char>>,
    new_map: Map<Seq<char>, Seq<char>>,
    res: Result<Option<NumericEdit>, Error>,
    row: u64,
    column: u64,
)
    requires
        carried_out(old, new, old_map, new_map, res, plan(op, workbook_sheets(old), old_map)),
        edits_cell(op, workbook_sheets(old), old_map, row, column),
        op.segment_spec(3) == "bl"@ || op.segment_spec(3) == "it"@ || op.segment_spec(3) == "cl"@,
    ensures
        res matches Ok(None),
        new_map == old_map,
        workbook_sheets(new) == workbook_sheets(old),
        ({
            let key = (sheet_index(workbook_sheets(old), old_map[op.id@]), (column + 1) as u32, (row + 1) as u32);
            let on = op.value == Json::Number(JsonNumber::PosInt(1));
            let before = workbook_cells(old);
            let after = workbook_cells(new);
            &&& after.contains_key(key)
            &&& after[key].2 is Some
            &&& op.segment_spec(3) == "bl"@ ==> (after[key].2->0).1 == on
            &&& op.segment_spec(3) == "it"@ ==> (after[key].2->0).2 == on
            &&& op.segment_spec(3) == "cl"@ ==> (after[key].2->0).3 == on
            &&& before.contains_key(key) ==> after[key].0 == before[key].0 && after[key].1 == before[key].1
            &&& after.remove(key) == before.remove(key)
        }),
{
    lemma_edit_reaches_cell(op, workbook_sheets(old), old_map, row, column);
    lemma_attribute_names();
    let a = op.segment_spec(3);
    assert(a != "ct"@ && a != "m"@ && a != "v"@ && a != "ff"@ && a != "fs"@) by {
        assert(a[0] == 'b' || a[0] == 'i' || a[0] == 'c');
        if a[0] == 'c' {
            assert(a[1] == 'l');
        }
    }
    if a != "bl"@ {
        assert(a[0] != 'b');
    }
    if a != "it"@ {
        assert(a[0] != 'i');
    }
    let key = (sheet_index(workbook_sheets(old), old_map[op.id@]), (column + 1) as u32, (row + 1) as u32);
    assert(workbook_cells(new).dom().contains(key));
    if op.value == Json::Number(JsonNumber::PosInt(1)) {
        assert(op.value.u64_spec() == Some(1u64));
    } else {
        assert(op.value.u64_spec() != Some(1u64));
    }
}

/// A format edit (`ct` with no further path segment) whose format object
/// does not name "n" rewrites the cell one past the path's row and column
/// as text: the cell exists afterwards, shows what it showed before (empty
/// for a new cell), holds no number, keeps its font and style, and no other
/// cell changes.
pub proof fn lemma_text_format_keeps_shown_value(
    op: Op,
    old: umya_spreadsheet::Workbook,
    new: umya_spreadsheet::Workbook,
    old_map: Map<Seq<char>, Seq<char>>,
    new_map: Map<Seq<char>, Seq<char>>,
    res: Result<Option<NumericEdit>, Error>,
    row: u64,
    column: u64,
)
    requires
        carried_out(old, new, old_map, new_map, res, plan(op, workbook_sheets(old), old_map)),
        edits_cell(op, workbook_sheets(old), old_map, row, column),
        op.segment_spec(3) == "ct"@,
        op.segment_spec(4).len() == 0,
        forall|t: Json| op.value.get_spec("t"@) == Some(t) ==> t.str_spec() != Some("n"@),
    ensures
        res matches Ok(None),
        new_map == old_map,
        workbook_sheets(new) == workbook_sheets(old),
        ({
            let key = (sheet_index(workbook_sheets(old), old_map[op.id@]), (column + 1) as u32, (row + 1) as u32);
            let before = workbook_cells(old);
            let after = workbook_cells(new);
            &&& after.contains_key(key)
            &&& !after[key].1
            &&& before.contains_key(key) ==> after[key].0 == before[key].0
                && after[key].2 == before[key].2 && after[key].3 == before[key].3
            &&& !before.contains_key(key) ==> after[key].0 == Seq::<char>::empty()
            &&& after.remove(key) == before.remove(key)
        }),
{
    lemma_edit_reaches_cell(op, workbook_sheets(old), old_map, row, column);
    lemma_attribute_names();
    let key = (sheet_index(workbook_sheets(old), old_map[op.id@]), (column + 1) as u32, (row + 1) as u32);
    assert(workbook_cells(new).dom().contains(key));
    match op.value.get_spec("t"@) {
        Some(t) => assert(t.str_spec() != Some("n"@)),
        None => {},
    }
}

/// A format edit (`ct` with no further path segment) whose format object
/// names "n" is handed back as a retype of the cell one past the path's
/// row and column, on the sheet the map names; nothing else changes.
pub proof fn lemma_numeric_format_names_its_cell(
    op: Op,
    old: umya_spreadsheet::Workbook,
    new: umya_spreadsheet::Workbook,
    old_map: Map<Seq<char>, Seq<char>>,
    new_map: Map<Seq<char>, Seq<char>>,
    res: Result<Option<NumericEdit>, Error>,
    row: u64,
    column: u64,
    tag: Json,
)
    requires
        carried_out(old, new, old_map, new_map, res, plan(op, workbook_sheets(old), old_map)),
        edits_cell(op, workbook_sheets(old), old_map, row, column),
        op.segment_spec(3) == "ct"@,
        op.segment_spec(4).len() == 0,
        op.value.get_spec("t"@) == Some(tag),
        tag.str_spec() == Some("n"@),
    ensures
        res matches Ok(Some(NumericEdit::Retype { sheet, column: c, row: r }))
            && sheet@ == old_map[op.id@] && c == column + 1 && r == row + 1,
        unchanged(old, new),
        new_map == old_map,
{
    lemma_edit_reaches_cell(op, workbook_sheets(old), old_map, row, column);
    lemma_attribute_names();
}

/// A font edit (`ff`) names the font of the cell one past the path's row
/// and column: by its index into fortune-sheet's font list, or by a name
/// sent as text. The cell keeps its value and its other font flags, and no
/// other cell changes.
pub proof fn lemma_font_edit_sets_the_family(
    op: Op,
    old: umya_spreadsheet::Workbook,
    new: umya_spreadsheet::Workbook,
    old_map: Map<Seq<char>, Seq<char>>,
    new_map: Map<Seq<char>, Seq<char>>,
    res: Result<Option<NumericEdit>, Error>,
    row: u64,
    column: u64,
)
    requires
        carried_out(old, new, old_map, new_map, res, plan(op, workbook_sheets(old), old_map)),
        edits_cell(op, workbook_sheets(old), old_map, row, column),
        op.segment_spec(3) == "ff"@,
    ensures
        res matches Ok(None),
        new_map == old_map,
        workbook_sheets(new) == workbook_sheets(old),
        ({
            let key = (sheet_index(workbook_sheets(old), old_map[op.id@]), (column + 1) as u32, (row + 1) as u32);
            let before = workbook_cells(old);
            let after = workbook_cells(new);
            &&& after.contains_key(key)
            &&& after[key].2 is Some
            &&& (op.value matches Json::Number(JsonNumber::PosInt(i)) ==>
                (i < 13 ==> (after[key].2->0).0 == font_families()[i as int]))
            &&& (op.value matches Json::String(name) ==> (after[key].2->0).0 == name@)
            &&& before.contains_key(key) ==> after[key].0 == before[key].0 && after[key].1 == before[key].1
            &&& (before.contains_key(key) && before[key].2 is Some) ==> {
                let was = before[key].2->0;
                let now = after[key].2->0;
                now.1 == was.1 && now.2 == was.2 && now.3 == was.3
            }
            &&& after.remove(key) == before.remove(key)
        }),
{
    lemma_edit_reaches_cell(op, workbook_sheets(old), old_map, row, column);
    lemma_attribute_names();
    let a = op.segment_spec(3);
    assert(a[1] == 'f');
    assert(a != "ct"@ && a != "m"@ && a != "v"@);
    let key = (sheet_index(workbook_sheets(old), old_map[op.id@]), (column + 1) as u32, (row + 1) as u32);
    assert(workbook_cells(new).dom().contains(key));
}

/// A whole-cell replacement (a path of just `data`, row and column) whose
/// format names a type other than "n", and which carries a value `v`,
/// writes the text of `v` into the cell one past the path's row and column:
/// a string without quotes, null as nothing, anything else as its JSON text.
/// The cell holds no number afterwards, an existing cell keeps its font and
/// style, and no other cell changes.
pub proof fn lemma_text_replacement_writes_its_text(
    op: Op,
    old: umya_spreadsheet::Workbook,
    new: umya_spreadsheet::Workbook,
    old_map: Map<Seq<char>, Seq<char>>,
    new_map: Map<Seq<char>, Seq<char>>,
    res: Result<Option<NumericEdit>, Error>,
    row: u64,
    column: u64,
    format: Json,
    tag: Json,
    value: Json,
)
    requires
        carried_out(old, new, old_map, new_map, res, plan(op, workbook_sheets(old), old_map)),
        edits_cell(op, workbook_sheets(old), old_map, row, column),
        op.path@.len() == 3,
        op.value is Object,
        op.value.get_spec("ct"@) == Some(format),
        format.get_spec("t"@) == Some(tag),
        tag.str_spec() is Some,
        tag.str_spec() != Some("n"@),
        op.value.get_spec("v"@) == Some(value),
    ensures
        res matches Ok(None),
        new_map == old_map,
        workbook_sheets(new) == workbook_sheets(old),
        ({
            let key = (sheet_index(workbook_sheets(old), old_map[op.id@]), (column + 1) as u32, (row + 1) as u32);
            let before = workbook_cells(old);
            let after = workbook_cells(new);
            &&& after.contains_key(key)
            &&& after[key].0 == value.text_spec()
            &&& (value matches Json::String(t) ==> after[key].0 == t@)
            &&& value is Null ==> after[key].0.len() == 0
            &&& !after[key].1
            &&& before.contains_key(key) ==> after[key].2 == before[key].2 && after[key].3 == before[key].3
            &&& after.remove(key) == before.remove(key)
        }),
{
    lemma_edit_reaches_cell(op, workbook_sheets(old), old_map, row, column);
    lemma_attribute_names();
    reveal_strlit("");
    assert(op.segment_spec(3) =~= Seq::<char>::empty());
    let key = (sheet_index(workbook_sheets(old), old_map[op.id@]), (column + 1) as u32, (row + 1) as u32);
    assert(workbook_cells(new).dom().contains(key));
}

/// A rendered cell carries its raw value: the text of a plain, lazy or
/// rich-text string as a JSON string under the general tag, a number by
/// its JSON text under the numeric tag, a boolean as a JSON boolean; only
/// an empty or error cell, or a number that is not finite, renders null.
/// It shows its displayed value.
pub proof fn lemma_rendered_cells_carry_their_raw_value(data: CellData, cell: CellSnapshot)
    requires
        renders(data, cell),
    ensures
        data.v.m@ == cell.text@,
        cell.raw matches RawValue::String(t) ==> data.v.v == Json::String(t) && data.v.ct.t@ == "g"@,
        cell.raw matches RawValue::Lazy(t) ==> data.v.v == Json::String(t) && data.v.ct.t@ == "g"@,
        cell.raw matches RawValue::RichText(t) ==> data.v.v == Json::String(t) && data.v.ct.t@ == "g"@,
        cell.raw matches RawValue::Numeric(Some(t)) ==>
            data.v.v == Json::Number(JsonNumber::Float(t)) && data.v.ct.t@ == "n"@,
        cell.raw matches RawValue::Numeric(None) ==> data.v.ct.t@ == "n"@,
        cell.raw matches RawValue::Bool(b) ==> data.v.v == Json::Bool(b) && data.v.ct.t@ == "g"@,
        data.v.v is Null ==> (cell.raw is Empty || cell.raw is Error || cell.raw matches RawValue::Numeric(None)),
{
}

} // verus!
