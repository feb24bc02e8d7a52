//! Applies the frontend's edit operations back onto the workbook.
//!
//! Each operation is decided here: which sheet, which cell, what changes,
//! or which error. The edits that need floating-point arithmetic (numbers
//! and font sizes) are handed back to the caller as a [`NumericEdit`], to be
//! performed right away, before the next operation.

use vstd::prelude::*;
use crate::error::{Error, ErrorView};
use crate::json::{Json, JsonNumber};
use crate::model::{Op, OpKind};
use crate::sheet_map::SheetMap;
use crate::text::{decimal, str_eq, u64_text};
use crate::serialize::{font_families, font_family};
use crate::workbook::{
    workbook_sheets, workbook_cells, has_sheet, cell_key, only_cell_touched, prior_text,
    font_edited, value_written, FontFacts, SheetFacts, new_sheet, sheet_by_name_mut_ok,
    cell_value, set_value_string, set_font_name, set_font_bold, set_font_italic,
    set_font_strike, named_sheet_loaded, loaded_kept, sheets_loaded, sheet_is_loaded, lemma_sheet_index,
    sheet_is_empty,
};

verus! {

/// A cell edit that needs floating-point arithmetic. Each names the sheet
/// by name and the cell by one-based column and row; performing one first
/// takes the cell with `Worksheet::cell_mut`.
#[derive(Debug)]
pub enum NumericEdit {
    /// The cell becomes numeric: it takes its numeric value, or its text
    /// parsed as a number; when neither exists it stays as it is.
    Retype { sheet: String, column: u32, row: u32 },
    /// The cell's font takes this size.
    FontSize { sheet: String, column: u32, row: u32, size: JsonNumber },
    /// The cell takes this number as its value.
    Number { sheet: String, column: u32, row: u32, number: JsonNumber },
    /// The cell takes this text parsed as a number when it parses, and the
    /// text itself otherwise.
    ParsedText { sheet: String, column: u32, row: u32, text: String },
}

/// A numeric edit by its plain values.
pub enum NumericEditView {
    Retype(Seq<char>, u32, u32),
    FontSize(Seq<char>, u32, u32, JsonNumber),
    Number(Seq<char>, u32, u32, JsonNumber),
    ParsedText(Seq<char>, u32, u32, Seq<char>),
}

impl View for NumericEdit {
    type V = NumericEditView;

    open spec fn view(&self) -> NumericEditView {
        match self {
            NumericEdit::Retype { sheet, column, row } => NumericEditView::Retype(sheet@, *column, *row),
            NumericEdit::FontSize { sheet, column, row, size } =>
                NumericEditView::FontSize(sheet@, *column, *row, *size),
            NumericEdit::Number { sheet, column, row, number } =>
                NumericEditView::Number(sheet@, *column, *row, *number),
            NumericEdit::ParsedText { sheet, column, row, text } =>
                NumericEditView::ParsedText(sheet@, *column, *row, text@),
        }
    }
}

/// What an operation does to one cell.
pub enum CellChange {
    /// The cell is taken (created if missing) and its displayed value
    /// written back as text: a cell retyped to the general format.
    KeepValue,
    /// The value becomes this text.
    Text(Seq<char>),
    /// The font name becomes this.
    FontName(Seq<char>),
    Bold(bool),
    Italic(bool),
    Strike(bool),
}

/// What an operation comes to.
pub enum Plan {
    /// The operation is refused with this error; nothing changes.
    Fail(ErrorView),
    /// Nothing changes.
    Nothing,
    /// A sheet with this name is added, and this id mapped to it.
    AddSheet(Seq<char>, Seq<char>),
    /// One cell of the named sheet, at one-based column and row, changes.
    Cell(Seq<char>, u32, u32, CellChange),
    /// The caller performs this edit; nothing else changes.
    Numeric(NumericEditView),
}

/// The error for a path segment that is not a coordinate.
pub open spec fn coordinate_error(index: nat) -> ErrorView {
    ErrorView::MalformedOp("path segment "@ + decimal(index) + " is not a valid coordinate"@)
}

/// Path segment `index` as a one-based coordinate: a zero-based integer
/// whose successor fits in a `u32`.
pub open spec fn read_coordinate(op: Op, index: int) -> Option<u32> {
    if 0 <= index < op.path@.len() {
        match op.path@[index].u64_spec() {
            Some(v) => if v < u32::MAX { Some((v + 1) as u32) } else { None },
            None => None,
        }
    } else {
        None
    }
}

/// fortune-sheet sends these toggles as 1 or 0.
pub open spec fn enabled_spec(value: Json) -> bool {
    value.u64_spec() == Some(1u64)
}

/// The font name that an `ff` edit sets. fortune-sheet names a font by its
/// index into its font list, and may also send a name; any other value
/// (an index past the list among them) names no font, the empty text.
pub open spec fn font_choice(value: Json) -> Seq<char> {
    match value {
        Json::String(s) => s@,
        Json::Number(JsonNumber::PosInt(i)) => if i < font_families().len() {
            font_families()[i as int]
        } else {
            Seq::empty()
        },
        _ => Seq::empty(),
    }
}

/// The format object names the numeric type.
pub open spec fn numeric_format(value: Json) -> bool {
    match value.get_spec("t"@) {
        Some(t) => t.str_spec() == Some("n"@),
        None => false,
    }
}

/// The cell type that a replacement's format names.
pub open spec fn replacement_type(value: Json) -> Option<Seq<char>> {
    match value.get_spec("ct"@) {
        Some(format) => match format.get_spec("t"@) {
            Some(t) => t.str_spec(),
            None => None,
        },
        None => None,
    }
}

/// A whole-cell replacement, as emitted when value and format change
/// together. Style-only changes carry no format or no value, and store
/// nothing.
pub open spec fn replace_plan(value: Json, sheet: Seq<char>, column: u32, row: u32) -> Plan {
    if !(value is Object) {
        Plan::Fail(ErrorView::MalformedOp("cell replacement has no value object"@))
    } else {
        match replacement_type(value) {
            None => Plan::Nothing,
            Some(cell_type) => match value.get_spec("v"@) {
                None => Plan::Nothing,
                Some(new_value) => if cell_type == "n"@ {
                    match new_value {
                        Json::Number(n) => Plan::Numeric(NumericEditView::Number(sheet, column, row, n)),
                        Json::String(t) => Plan::Numeric(NumericEditView::ParsedText(sheet, column, row, t@)),
                        _ => Plan::Cell(sheet, column, row, CellChange::Text(new_value.text_spec())),
                    }
                } else {
                    Plan::Cell(sheet, column, row, CellChange::Text(new_value.text_spec()))
                },
            },
        }
    }
}

/// An edit of one cell, chosen by path segments 3 and 4.
pub open spec fn attribute_plan(op: Op, sheet: Seq<char>, column: u32, row: u32) -> Plan {
    let attribute = op.segment_spec(3);
    if attribute == "ct"@ {
        if op.segment_spec(4).len() == 0 {
            if numeric_format(op.value) {
                Plan::Numeric(NumericEditView::Retype(sheet, column, row))
            } else {
                Plan::Cell(sheet, column, row, CellChange::KeepValue)
            }
        } else {
            Plan::Nothing
        }
    } else if attribute == "m"@ || attribute == "v"@ {
        Plan::Cell(sheet, column, row, CellChange::Text(op.value.text_spec()))
    } else if attribute == "ff"@ {
        Plan::Cell(sheet, column, row, CellChange::FontName(font_choice(op.value)))
    } else if attribute == "fs"@ {
        match op.value {
            Json::Number(n) => Plan::Numeric(NumericEditView::FontSize(sheet, column, row, n)),
            _ => Plan::Nothing,
        }
    } else if attribute == "bl"@ {
        Plan::Cell(sheet, column, row, CellChange::Bold(enabled_spec(op.value)))
    } else if attribute == "it"@ {
        Plan::Cell(sheet, column, row, CellChange::Italic(enabled_spec(op.value)))
    } else if attribute == "cl"@ {
        Plan::Cell(sheet, column, row, CellChange::Strike(enabled_spec(op.value)))
    } else if attribute.len() == 0 {
        replace_plan(op.value, sheet, column, row)
    } else {
        Plan::Nothing
    }
}

/// A change to one cell: path segments 1 and 2 are its zero-based row and
/// column, `id` names its sheet through the sheet map.
pub open spec fn cell_plan(op: Op, sheets: Seq<SheetFacts>, map: Map<Seq<char>, Seq<char>>) -> Plan {
    match read_coordinate(op, 2) {
        None => Plan::Fail(coordinate_error(2)),
        Some(column) => match read_coordinate(op, 1) {
            None => Plan::Fail(coordinate_error(1)),
            Some(row) => if !map.contains_key(op.id@) {
                Plan::Fail(ErrorView::UnknownSheet(op.id@))
            } else if !has_sheet(sheets, map[op.id@]) {
                Plan::Fail(ErrorView::UnknownSheet(map[op.id@]))
            } else {
                attribute_plan(op, map[op.id@], column, row)
            },
        },
    }
}

/// A new sheet: the value object names it and gives its id; a name that a
/// sheet already has is refused by the workbook.
pub open spec fn add_sheet_plan(op: Op, sheets: Seq<SheetFacts>) -> Plan {
    if !(op.value is Object) {
        Plan::Fail(ErrorView::MalformedOp("addSheet has no value object"@))
    } else {
        match op.value.get_spec("name"@) {
            Some(n) if n.str_spec() is Some => match op.value.get_spec("id"@) {
                Some(i) if i.str_spec() is Some => {
                    let name = n.str_spec()->0;
                    if has_sheet(sheets, name) {
                        Plan::Fail(ErrorView::MalformedOp("Name Duplicate"@))
                    } else {
                        Plan::AddSheet(i.str_spec()->0, name)
                    }
                },
                _ => Plan::Fail(ErrorView::MalformedOp("addSheet has no id"@)),
            },
            _ => Plan::Fail(ErrorView::MalformedOp("addSheet has no name"@)),
        }
    }
}

/// What an operation comes to, given the workbook's sheets and the sheet
/// map. Operations that are not modelled come to nothing.
pub open spec fn plan(op: Op, sheets: Seq<SheetFacts>, map: Map<Seq<char>, Seq<char>>) -> Plan {
    match op.op {
        OpKind::AddSheet => add_sheet_plan(op, sheets),
        OpKind::Add | OpKind::Replace => if op.segment_spec(0) == "data"@ {
            cell_plan(op, sheets, map)
        } else {
            Plan::Nothing
        },
        _ => Plan::Nothing,
    }
}

/// The sheets and cells of the workbook are as they were.
pub open spec fn unchanged(old: umya_spreadsheet::Workbook, new: umya_spreadsheet::Workbook) -> bool {
    &&& workbook_sheets(new) == workbook_sheets(old)
    &&& workbook_cells(new) == workbook_cells(old)
}

/// The cell at `(column, row)` of the named sheet changed as `change` says,
/// and nothing else did.
pub open spec fn cell_changed(
    old: umya_spreadsheet::Workbook,
    new: umya_spreadsheet::Workbook,
    sheet: Seq<char>,
    column: u32,
    row: u32,
    change: CellChange,
) -> bool {
    let key = cell_key(workbook_sheets(old), sheet, column, row);
    let old_cells = workbook_cells(old);
    let new_cells = workbook_cells(new);
    &&& workbook_sheets(new) == workbook_sheets(old)
    &&& match change {
        CellChange::KeepValue => {
            &&& only_cell_touched(old_cells, new_cells, key)
            &&& new_cells[key].0 == prior_text(old_cells, key)
            &&& !new_cells[key].1
            &&& old_cells.contains_key(key) ==> new_cells[key].2 == old_cells[key].2
            &&& old_cells.contains_key(key) ==> new_cells[key].3 == old_cells[key].3
        },
        CellChange::Text(t) => value_written(old, new, sheet, column, row, t),
        CellChange::FontName(n) => font_edited(old_cells, new_cells, key,
            |f: FontFacts| (n, f.1, f.2, f.3), |f: FontFacts| f.0 == n),
        CellChange::Bold(on) => font_edited(old_cells, new_cells, key,
            |f: FontFacts| (f.0, on, f.2, f.3), |f: FontFacts| f.1 == on),
        CellChange::Italic(on) => font_edited(old_cells, new_cells, key,
            |f: FontFacts| (f.0, f.1, on, f.3), |f: FontFacts| f.2 == on),
        CellChange::Strike(on) => font_edited(old_cells, new_cells, key,
            |f: FontFacts| (f.0, f.1, f.2, on), |f: FontFacts| f.3 == on),
    }
}

/// The workbook, the sheet map and the result are what `plan` says.
pub open spec fn carried_out(
    old: umya_spreadsheet::Workbook,
    new: umya_spreadsheet::Workbook,
    old_map: Map<Seq<char>, Seq<char>>,
    new_map: Map<Seq<char>, Seq<char>>,
    res: Result<Option<NumericEdit>, Error>,
    plan: Plan,
) -> bool {
    match plan {
        Plan::Fail(e) => res matches Err(x) && x@ == e && unchanged(old, new) && new_map == old_map,
        Plan::Nothing => res matches Ok(None) && unchanged(old, new) && new_map == old_map,
        Plan::AddSheet(id, name) => {
            &&& res matches Ok(None)
            &&& workbook_sheets(new) == workbook_sheets(old).push(
                (decimal(workbook_sheets(old).len() + 1), name))
            &&& workbook_cells(new) == workbook_cells(old)
            &&& sheet_is_empty(workbook_cells(new), workbook_sheets(old).len() as int)
            &&& new_map == old_map.insert(id, name)
        },
        Plan::Cell(sheet, column, row, change) => {
            &&& res matches Ok(None)
            &&& cell_changed(old, new, sheet, column, row, change)
            &&& new_map == old_map
        },
        Plan::Numeric(e) => res matches Ok(Some(x)) && x@ == e && unchanged(old, new) && new_map == old_map,
    }
}

/// fortune-sheet encodes toggles as 1 or 0 rather than as booleans.
pub fn is_enabled(value: &Json) -> (res: bool)
    ensures
        res == enabled_spec(*value),
        res == (*value == Json::Number(JsonNumber::PosInt(1))),
{
    match value.as_u64() {
        Some(v) => v == 1,
        None => false,
    }
}

/// Renders a JSON scalar as cell text: strings lose their quotes, null
/// becomes empty, and anything else is its JSON text.
pub fn as_text(value: &Json) -> (res: String)
    ensures
        res@ == value.text_spec(),
        *value matches Json::String(t) ==> res@ == t@,
        *value is Null ==> res@.len() == 0,
        *value matches Json::Number(JsonNumber::Float(t)) ==> res@ == t@,
        *value matches Json::Array { text, .. } ==> res@ == text@,
        *value matches Json::Object { text, .. } ==> res@ == text@,
{
    value.as_text()
}

/// Path segment `index` as a one-based coordinate: fortune-sheet is
/// zero-based, umya-spreadsheet one-based.
fn read_coordinate_exec(op: &Op, index: usize) -> (res: Result<u32, Error>)
    ensures
        match read_coordinate(*op, index as int) {
            Some(v) => res matches Ok(x) && x == v,
            None => res matches Err(e) && e@ == coordinate_error(index as nat),
        },
{
    let value = if index < op.path.len() { op.path[index].as_u64() } else { None };
    match value {
        Some(v) => if v < 4294967295u64 {
            return Ok((v + 1) as u32);
        },
        None => {},
    }
    let mut message = String::from_str("path segment ");
    let digits = u64_text(index as u64);
    message.append(digits.as_str());
    message.append(" is not a valid coordinate");
    Err(Error::MalformedOp(message))
}

/// Path segments 1 and 2 are the zero-based row and column; the result is
/// the one-based `(column, row)`. The column is read first.
pub fn coordinate(op: &Op) -> (res: Result<(u32, u32), Error>)
    ensures
        match read_coordinate(*op, 2) {
            None => res matches Err(e) && e@ == coordinate_error(2),
            Some(column) => match read_coordinate(*op, 1) {
                None => res matches Err(e) && e@ == coordinate_error(1),
                Some(row) => res matches Ok(p) && p == (column, row),
            },
        },
{
    let column = read_coordinate_exec(op, 2)?;
    let row = read_coordinate_exec(op, 1)?;
    Ok((column, row))
}

/// Whether the format object names the numeric type.
fn is_numeric_format(value: &Json) -> (res: bool)
    ensures
        res == numeric_format(*value),
{
    match value.get("t") {
        Some(t) => match t.as_str() {
            Some(s) => str_eq(s, "n"),
            None => false,
        },
        None => false,
    }
}

/// Rewrites a cell's value as text, keeping it as it reads; the numeric
/// retype is handed back.
fn retype_cell(
    workbook: &mut umya_spreadsheet::Workbook,
    sheet: &String,
    column: u32,
    row: u32,
    value: &Json,
) -> (res: Option<NumericEdit>)
    requires
        has_sheet(workbook_sheets(*old(workbook)), sheet@),
        named_sheet_loaded(*old(workbook), sheet@),
    ensures
        loaded_kept(*old(workbook), *final(workbook)),
        numeric_format(*value) ==> (res matches Some(e) && e@ == NumericEditView::Retype(sheet@, column, row)
            && unchanged(*old(workbook), *final(workbook))),
        !numeric_format(*value) ==> res is None
            && cell_changed(*old(workbook), *final(workbook), sheet@, column, row, CellChange::KeepValue),
{
    if is_numeric_format(value) {
        return Some(NumericEdit::Retype { sheet: sheet.clone(), column, row });
    }
    let ghost before = *workbook;
    proof { lemma_sheet_index(workbook_sheets(before), sheet@); }
    let text = cell_value(workbook, sheet.as_str(), column, row);
    let ghost between = *workbook;
    set_value_string(workbook, sheet.as_str(), column, row, text.as_str());
    proof {
        let key = cell_key(workbook_sheets(before), sheet@, column, row);
        let c0 = workbook_cells(before);
        let c1 = workbook_cells(between);
        let c2 = workbook_cells(*workbook);
        assert(c1.contains_key(key));
        assert(c2.dom() =~= c0.dom().insert(key));
        assert(c2.remove(key) =~= c0.remove(key));
    }
    None
}

/// The cell type that a replacement's format names.
fn replacement_type_exec(value: &Json) -> (res: Option<&str>)
    ensures
        match res {
            Some(s) => replacement_type(*value) == Some(s@),
            None => replacement_type(*value) is None,
        },
{
    match value.get("ct") {
        Some(format) => match format.get("t") {
            Some(t) => t.as_str(),
            None => None,
        },
        None => None,
    }
}

/// Replaces a cell wholesale, as emitted when value and format change
/// together.
fn replace_cell(
    workbook: &mut umya_spreadsheet::Workbook,
    sheet: &String,
    column: u32,
    row: u32,
    value: &Json,
) -> (res: Result<Option<NumericEdit>, Error>)
    requires
        has_sheet(workbook_sheets(*old(workbook)), sheet@),
        named_sheet_loaded(*old(workbook), sheet@),
    ensures
        loaded_kept(*old(workbook), *final(workbook)),
        carried_out(*old(workbook), *final(workbook), Map::empty(), Map::empty(), res,
            replace_plan(*value, sheet@, column, row)),
{
    if !value.is_object() {
        return Err(Error::MalformedOp(String::from_str("cell replacement has no value object")));
    }
    // Style-only changes arrive without a format, and carry no value to store.
    let cell_type = match replacement_type_exec(value) {
        Some(t) => t,
        None => return Ok(None),
    };
    let new_value = match value.get("v") {
        Some(v) => v,
        None => return Ok(None),
    };
    if str_eq(cell_type, "n") {
        match new_value {
            Json::Number(n) => {
                return Ok(Some(NumericEdit::Number { sheet: sheet.clone(), column, row, number: n.copy() }));
            },
            Json::String(t) => {
                return Ok(Some(NumericEdit::ParsedText { sheet: sheet.clone(), column, row, text: t.clone() }));
            },
            _ => {},
        }
    }
    let text = new_value.as_text();
    set_value_string(workbook, sheet.as_str(), column, row, text.as_str());
    Ok(None)
}

/// Applies one edit of one cell of a known sheet, chosen by path
/// segments 3 and 4.
fn apply_attribute(
    workbook: &mut umya_spreadsheet::Workbook,
    sheet: &String,
    column: u32,
    row: u32,
    op: &Op,
) -> (res: Result<Option<NumericEdit>, Error>)
    requires
        has_sheet(workbook_sheets(*old(workbook)), sheet@),
        named_sheet_loaded(*old(workbook), sheet@),
    ensures
        loaded_kept(*old(workbook), *final(workbook)),
        carried_out(*old(workbook), *final(workbook), Map::empty(), Map::empty(), res,
            attribute_plan(*op, sheet@, column, row)),
{
    let attribute = op.segment(3);
    let name = sheet.as_str();
    proof {
        reveal_strlit("");
        assert(""@ =~= Seq::<char>::empty());
    }
    if str_eq(attribute, "ct") {
        if str_eq(op.segment(4), "") {
            return Ok(retype_cell(workbook, sheet, column, row, &op.value));
        }
        assert(op.segment_spec(4).len() != 0) by {
            if op.segment_spec(4).len() == 0 {
                assert(op.segment_spec(4) =~= Seq::<char>::empty());
            }
        }
        Ok(None)
    } else if str_eq(attribute, "m") || str_eq(attribute, "v") {
        let text = op.value.as_text();
        set_value_string(workbook, name, column, row, text.as_str());
        Ok(None)
    } else if str_eq(attribute, "ff") {
        let font: &str = match &op.value {
            Json::String(s) => s.as_str(),
            Json::Number(JsonNumber::PosInt(i)) => if *i < 13 {
                font_family(*i as usize)
            } else {
                ""
            },
            _ => "",
        };
        set_font_name(workbook, name, column, row, font);
        Ok(None)
    } else if str_eq(attribute, "fs") {
        match &op.value {
            Json::Number(n) => Ok(Some(NumericEdit::FontSize { sheet: sheet.clone(), column, row, size: n.copy() })),
            _ => Ok(None),
        }
    } else if str_eq(attribute, "bl") {
        set_font_bold(workbook, name, column, row, is_enabled(&op.value));
        Ok(None)
    } else if str_eq(attribute, "it") {
        set_font_italic(workbook, name, column, row, is_enabled(&op.value));
        Ok(None)
    } else if str_eq(attribute, "cl") {
        set_font_strike(workbook, name, column, row, is_enabled(&op.value));
        Ok(None)
    } else if str_eq(attribute, "") {
        replace_cell(workbook, sheet, column, row, &op.value)
    } else {
        assert(attribute@.len() != 0) by {
            if attribute@.len() == 0 {
                assert(attribute@ =~= Seq::<char>::empty());
            }
        }
        Ok(None)
    }
}

/// Applies a change to one cell: finds the coordinate, then the sheet
/// through the sheet map, then the edit.
fn apply_cell_change(
    workbook: &mut umya_spreadsheet::Workbook,
    sheet_map: &SheetMap,
    op: &Op,
) -> (res: Result<Option<NumericEdit>, Error>)
    requires
        sheets_loaded(*old(workbook)),
    ensures
        sheets_loaded(*final(workbook)),
        carried_out(*old(workbook), *final(workbook), Map::empty(), Map::empty(), res,
            cell_plan(*op, workbook_sheets(*old(workbook)), sheet_map@)),
{
    let (column, row) = coordinate(op)?;
    let sheet = match sheet_map.get(op.id.as_str()) {
        Some(name) => name,
        None => return Err(Error::UnknownSheet(op.id.clone())),
    };
    let ghost before = *workbook;
    proof { lemma_sheet_index(workbook_sheets(before), sheet@); }
    if !sheet_by_name_mut_ok(workbook, sheet.as_str()) {
        return Err(Error::UnknownSheet(sheet.clone()));
    }
    let ghost between = *workbook;
    let res = apply_attribute(workbook, sheet, column, row, op);
    assert(sheets_loaded(*workbook)) by {
        assert forall|i: int| 0 <= i < workbook_sheets(*workbook).len() implies #[trigger] sheet_is_loaded(*workbook, i) by {
            assert(sheet_is_loaded(between, i) == sheet_is_loaded(before, i));
        }
    }
    res
}

/// Adds the sheet that the value object names, and maps its id to it.
fn add_sheet(
    workbook: &mut umya_spreadsheet::Workbook,
    sheet_map: &mut SheetMap,
    op: &Op,
) -> (res: Result<Option<NumericEdit>, Error>)
    requires
        sheets_loaded(*old(workbook)),
    ensures
        sheets_loaded(*final(workbook)),
        carried_out(*old(workbook), *final(workbook), old(sheet_map)@, final(sheet_map)@, res,
            add_sheet_plan(*op, workbook_sheets(*old(workbook)))),
{
    if !op.value.is_object() {
        return Err(Error::MalformedOp(String::from_str("addSheet has no value object")));
    }
    let name = match op.value.get("name") {
        Some(v) => match v.as_str() {
            Some(s) => s,
            None => return Err(Error::MalformedOp(String::from_str("addSheet has no name"))),
        },
        None => return Err(Error::MalformedOp(String::from_str("addSheet has no name"))),
    };
    let id = match op.value.get("id") {
        Some(v) => match v.as_str() {
            Some(s) => s,
            None => return Err(Error::MalformedOp(String::from_str("addSheet has no id"))),
        },
        None => return Err(Error::MalformedOp(String::from_str("addSheet has no id"))),
    };
    match new_sheet(workbook, name) {
        Ok(()) => {},
        Err(message) => return Err(Error::MalformedOp(message)),
    }
    sheet_map.insert(String::from_str(id), String::from_str(name));
    Ok(None)
}

/// Applies one frontend edit to the workbook. Operations that are not
/// modelled are skipped. An edit that needs floating-point arithmetic is
/// handed back, for the caller to perform before the next operation.
pub fn apply_op(
    workbook: &mut umya_spreadsheet::Workbook,
    sheet_map: &mut SheetMap,
    op: &Op,
) -> (res: Result<Option<NumericEdit>, Error>)
    requires
        sheets_loaded(*old(workbook)),
    ensures
        sheets_loaded(*final(workbook)),
        carried_out(*old(workbook), *final(workbook), old(sheet_map)@, final(sheet_map)@, res,
            plan(*op, workbook_sheets(*old(workbook)), old(sheet_map)@)),
{
    match op.op {
        OpKind::AddSheet => add_sheet(workbook, sheet_map, op),
        OpKind::Add | OpKind::Replace => {
            if str_eq(op.segment(0), "data") {
                apply_cell_change(workbook, sheet_map, op)
            } else {
                Ok(None)
            }
        },
        _ => Ok(None),
    }
}

} // verus!
