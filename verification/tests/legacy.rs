use serde_json::Value;
use spreadsheet::grid::{group_rows, CellText, GridRow};
use spreadsheet::json::{Json, JsonNumber};
use spreadsheet::legacy::{
    payload_is_valid, save_cell, save_cell_payload, serialize, serialize_workbook, workbook_sheet_cells, writes_of,
    SheetCells,
};

fn to_json(v: &Value) -> Json {
    match v {
        Value::Null => Json::Null,
        Value::Bool(b) => Json::Bool(*b),
        Value::Number(n) => Json::Number(if let Some(u) = n.as_u64() {
            JsonNumber::PosInt(u)
        } else if let Some(i) = n.as_i64() {
            JsonNumber::NegInt(i)
        } else {
            JsonNumber::Float(n.to_string())
        }),
        Value::String(s) => Json::String(s.clone()),
        Value::Array(a) => Json::Array { items: a.iter().map(to_json).collect(), text: v.to_string() },
        Value::Object(m) => Json::Object {
            members: m.iter().map(|(k, x)| (k.clone(), to_json(x))).collect(),
            text: v.to_string(),
        },
    }
}

fn parse(text: &str) -> Json {
    to_json(&serde_json::from_str::<Value>(text).unwrap())
}

fn cell(row: u32, column: u32, text: &str) -> CellText {
    CellText { row, column, text: text.to_owned() }
}

fn text_at(rows: &[GridRow], row: u32, column: u32) -> Option<&str> {
    rows.iter()
        .find(|r| r.row == row)
        .and_then(|r| r.cells.iter().find(|c| c.column == column))
        .map(|c| c.text.as_str())
}

#[test]
fn cells_group_by_row_then_column() {
    let rows = group_rows(&vec![cell(1, 1, "a"), cell(2, 3, "b"), cell(1, 2, "c"), cell(1, 1, "later")]);
    assert_eq!(rows.len(), 2);
    assert_eq!(text_at(&rows, 0, 0), Some("a"));
    assert_eq!(text_at(&rows, 0, 1), Some("c"));
    assert_eq!(text_at(&rows, 1, 2), Some("b"));
    assert_eq!(text_at(&rows, 1, 0), None);
    assert_eq!(rows.iter().find(|r| r.row == 0).unwrap().cells.len(), 2);
}

#[test]
fn sheets_serialize_by_name() {
    let sheets = vec![
        SheetCells { name: "S".to_owned(), cells: vec![cell(4, 5, "x")] },
        SheetCells { name: "T".to_owned(), cells: Vec::new() },
    ];
    let out = serialize(&sheets);
    assert_eq!(out.len(), 2);
    assert_eq!(out[0].name, "S");
    assert_eq!(text_at(&out[0].rows, 3, 4), Some("x"));
    assert!(out[1].rows.is_empty());
}

#[test]
fn payload_writes_follow_rows_and_cells() {
    let data = parse(r#"{"name": "Sheet1", "rows": {"len": 100, "0": {"cells": {"0": {"text": "a"}, "2": {}}, "height": 20}, "3": {"cells": {"1": {"style": 1, "text": "b"}}}}}"#);
    assert!(payload_is_valid(&data));
    let writes = writes_of(&data).unwrap();
    let seen: Vec<(u32, u32, &str)> = writes.iter().map(|w| (w.column, w.row, w.text.as_str())).collect();
    assert_eq!(seen, vec![(1, 1, "a"), (3, 1, ""), (2, 4, "b")]);
}

#[test]
fn malformed_payloads_are_recognised() {
    let cases = [
        r#"{"rows": {}}"#,
        r#"{"name": 1, "rows": {}}"#,
        r#"{"name": "S"}"#,
        r#"{"name": "S", "rows": {"0": 5}}"#,
        r#"{"name": "S", "rows": {"0": {"cells": 5}}}"#,
        r#"{"name": "S", "rows": {"0": {"cells": {"1": 5}}}}"#,
        r#"{"name": "S", "rows": {"x": {"cells": {"1": {}}}}}"#,
        r#"{"name": "S", "rows": {"0": {"cells": {"1": {"text": 5}}}}}"#,
        r#"{"name": "S", "rows": {"4294967295": {"cells": {"1": {}}}}}"#,
    ];
    for case in cases {
        assert!(!payload_is_valid(&parse(case)), "{case}");
    }
    assert!(payload_is_valid(&parse(r#"{"name": "S", "rows": {"x": {"cells": {"y": {"style": 2}}}}}"#)));
}

#[test]
fn saving_cells_writes_them_in_order() {
    let mut workbook = umya_spreadsheet::new_file();
    workbook.sheet_by_name_mut("Sheet1").unwrap().cell_mut((1u32, 1u32)).set_value_string("old");
    let data = parse(r#"{"name": "Sheet1", "rows": {"0": {"cells": {"0": {"text": "new"}, "1": {}}}}}"#);
    save_cell(&mut workbook, &data);
    let sheet = workbook.sheet_by_name("Sheet1").unwrap();
    assert_eq!(sheet.cell((1u32, 1u32)).unwrap().value(), "new");
    assert_eq!(sheet.cell((2u32, 1u32)).unwrap().value(), "");
}

#[test]
fn saving_cells_adds_a_missing_sheet() {
    let mut workbook = umya_spreadsheet::new_file();
    let data = parse(r#"{"name": "Fresh", "rows": {"1": {"cells": {"2": {"text": "z"}}}}}"#);
    save_cell(&mut workbook, &data);
    assert_eq!(workbook.sheet_count(), 2);
    assert_eq!(workbook.sheet_collection()[1].sheet_id(), "2");
    assert_eq!(workbook.sheet_by_name("Fresh").unwrap().cell((3u32, 2u32)).unwrap().value(), "z");
}

#[test]
fn saving_back_shown_texts_keeps_them() {
    let mut workbook = umya_spreadsheet::new_file();
    {
        let sheet = workbook.sheet_by_name_mut("Sheet1").unwrap();
        sheet.cell_mut((1u32, 1u32)).set_value_string("a");
        sheet.cell_mut((2u32, 3u32)).set_value_number(4.5);
        sheet.cell_mut((2u32, 3u32)).style_mut().set_background_color("FF0000FF");
    }
    let data = parse(r#"{"name": "Sheet1", "rows": {"0": {"cells": {"0": {"text": "a"}}}, "2": {"cells": {"1": {"text": "4.5"}}}}}"#);
    save_cell(&mut workbook, &data);
    let sheet = workbook.sheet_by_name("Sheet1").unwrap();
    assert_eq!(sheet.cell((1u32, 1u32)).unwrap().value(), "a");
    assert_eq!(sheet.cell((2u32, 3u32)).unwrap().value(), "4.5");
    assert!(sheet.cell((2u32, 3u32)).unwrap().style().fill().is_some());
    assert_eq!(sheet.cells().len(), 2);
}

#[test]
fn payload_text_is_parsed_then_saved() {
    let mut workbook = umya_spreadsheet::new_file();
    let text = r#"{"name": "Sheet1", "rows": {"1": {"cells": {"0": {"text": "parsed"}, "2": {"text": "-7"}}}}}"#;
    assert!(save_cell_payload(&mut workbook, text));
    let sheet = workbook.sheet_by_name("Sheet1").unwrap();
    assert_eq!(sheet.cell((1u32, 2u32)).unwrap().value(), "parsed");
    assert_eq!(sheet.cell((3u32, 2u32)).unwrap().value(), "-7");
}

#[test]
fn unparsable_or_invalid_payload_text_changes_nothing() {
    let mut workbook = umya_spreadsheet::new_file();
    assert!(!save_cell_payload(&mut workbook, r#"{"name": "Sheet1", "rows": "#));
    assert!(!save_cell_payload(&mut workbook, r#"{"name": "Other", "rows": {"x": {"cells": {"0": {"text": "a"}}}}}"#));
    assert!(!save_cell_payload(&mut workbook, "[1, 2]"));
    assert_eq!(workbook.sheet_count(), 1);
    assert!(workbook.sheet_by_name("Sheet1").unwrap().cells().is_empty());
}

#[test]
fn workbooks_serialize_to_their_cell_grids() {
    let mut workbook = umya_spreadsheet::new_file();
    {
        let sheet = workbook.sheet_by_name_mut("Sheet1").unwrap();
        sheet.cell_mut((1u32, 1u32)).set_value_string("a");
        sheet.cell_mut((3u32, 2u32)).set_value_number(2.5);
    }
    workbook.new_sheet("Empty").unwrap();
    let read = workbook_sheet_cells(&workbook);
    assert_eq!(read.len(), 2);
    assert_eq!(read[0].cells.len(), 2);
    let grids = serialize_workbook(&workbook).unwrap();
    assert_eq!(grids.len(), 2);
    assert_eq!(grids[0].name, "Sheet1");
    assert_eq!(text_at(&grids[0].rows, 0, 0), Some("a"));
    assert_eq!(text_at(&grids[0].rows, 1, 2), Some("2.5"));
    assert_eq!(text_at(&grids[0].rows, 1, 1), None);
    assert_eq!(grids[1].name, "Empty");
    assert!(grids[1].rows.is_empty());
}

#[test]
fn a_cell_in_column_zero_has_no_grid_place() {
    let mut workbook = umya_spreadsheet::new_file();
    workbook.sheet_by_name_mut("Sheet1").unwrap().cell_mut((0u32, 1u32)).set_value_string("z");
    assert!(serialize_workbook(&workbook).is_none());
}

#[test]
fn saving_a_serialized_sheet_back_keeps_it() {
    let mut workbook = umya_spreadsheet::new_file();
    {
        let sheet = workbook.sheet_by_name_mut("Sheet1").unwrap();
        sheet.cell_mut((1u32, 1u32)).set_value_string("a");
        sheet.cell_mut((2u32, 4u32)).set_value_number(8.0);
    }
    let grids = serialize_workbook(&workbook).unwrap();
    let rows: Vec<String> = grids[0]
        .rows
        .iter()
        .map(|row| {
            let cells: Vec<String> =
                row.cells.iter().map(|cell| format!(r#""{}": {{"text": "{}"}}"#, cell.column, cell.text)).collect();
            format!(r#""{}": {{"cells": {{{}}}}}"#, row.row, cells.join(", "))
        })
        .collect();
    let payload = format!(r#"{{"name": "{}", "rows": {{{}}}}}"#, grids[0].name, rows.join(", "));
    assert!(save_cell_payload(&mut workbook, &payload));
    assert_eq!(workbook.sheet_count(), 1);
    let sheet = workbook.sheet_by_name("Sheet1").unwrap();
    assert_eq!(sheet.cells().len(), 2);
    assert_eq!(sheet.cell((1u32, 1u32)).unwrap().value(), "a");
    assert_eq!(sheet.cell((2u32, 4u32)).unwrap().value(), "8");
}
