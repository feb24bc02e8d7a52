use serde_json::Value;
use spreadsheet::error::Error;
use spreadsheet::json::{Json, JsonNumber};
use spreadsheet::model::{Op, OpKind};
use spreadsheet::ops::{apply_op, as_text, coordinate, is_enabled, NumericEdit};
use spreadsheet::serialize::{to_cell_data, CellSnapshot, RawValue};
use spreadsheet::sheet_map::SheetMap;

fn to_json(v: &Value) -> Json {
    match v {
        Value::Null => Json::Null,
        Value::Bool(b) => Json::Bool(*b),
        Value::Number(n) => Json::Number(if let Some(u) = n.as_u64() {
            JsonNumber::PosInt(u)
        } else if let Some(i) = n.as_i64() {
            JsonNumber::NegInt(i)
        } else {
            JsonNumber::Float(n.to_string())
        }),
        Value::String(s) => Json::String(s.clone()),
        Value::Array(a) => Json::Array { items: a.iter().map(to_json).collect(), text: v.to_string() },
        Value::Object(m) => Json::Object {
            members: m.iter().map(|(k, x)| (k.clone(), to_json(x))).collect(),
            text: v.to_string(),
        },
    }
}

fn parse(text: &str) -> Json {
    to_json(&serde_json::from_str::<Value>(text).unwrap())
}

fn sheet_map() -> SheetMap {
    let mut map = SheetMap::new();
    map.insert("1".to_owned(), "Sheet1".to_owned());
    map
}

fn value_op(path: &str, value: &str) -> Op {
    let path = match parse(path) {
        Json::Array { items, .. } => items,
        _ => unreachable!(),
    };
    Op { op: OpKind::Replace, id: "1".to_owned(), path, value: parse(value) }
}

/// Applies operations in order the way the application does, performing
/// the numeric edits in between.
fn apply(
    workbook: &mut umya_spreadsheet::Workbook,
    sheet_map: &mut SheetMap,
    ops: Vec<Op>,
) -> Result<(), Error> {
    for op in ops {
        if let Some(edit) = apply_op(workbook, sheet_map, &op)? {
            perform(workbook, edit);
        }
    }
    Ok(())
}

fn number_of(n: &JsonNumber) -> f64 {
    match n {
        JsonNumber::PosInt(u) => *u as f64,
        JsonNumber::NegInt(i) => *i as f64,
        JsonNumber::Float(t) => t.parse().unwrap(),
    }
}

fn perform(workbook: &mut umya_spreadsheet::Workbook, edit: NumericEdit) {
    match edit {
        NumericEdit::Retype { sheet, column, row } => {
            let cell = workbook.sheet_by_name_mut(&sheet).unwrap().cell_mut((column, row));
            let number = cell.value_number().or_else(|| cell.value().parse::<f64>().ok());
            if let Some(number) = number {
                cell.set_value_number(number);
            }
        }
        NumericEdit::FontSize { sheet, column, row, size } => {
            let cell = workbook.sheet_by_name_mut(&sheet).unwrap().cell_mut((column, row));
            cell.style_mut().font_mut().font_size_mut().set_val(number_of(&size));
        }
        NumericEdit::Number { sheet, column, row, number } => {
            let cell = workbook.sheet_by_name_mut(&sheet).unwrap().cell_mut((column, row));
            cell.set_value_number(number_of(&number));
        }
        NumericEdit::ParsedText { sheet, column, row, text } => {
            let cell = workbook.sheet_by_name_mut(&sheet).unwrap().cell_mut((column, row));
            match text.parse::<f64>() {
                Ok(number) => cell.set_value_number(number),
                Err(_) => cell.set_value_string(text),
            };
        }
    }
}

#[test]
fn string_values_are_unquoted() {
    assert_eq!(as_text(&Json::String("foo".to_owned())), "foo");
    assert_eq!(as_text(&Json::String("".to_owned())), "");
}

#[test]
fn numbers_survive_a_text_path() {
    assert_eq!(as_text(&to_json(&Value::from(42))), "42");
    assert_eq!(as_text(&to_json(&Value::from(12.5))), "12.5");
    assert_eq!(as_text(&to_json(&Value::from(-3))), "-3");
}

#[test]
fn booleans_render_without_quotes() {
    assert_eq!(as_text(&to_json(&Value::from(true))), "true");
    assert_eq!(as_text(&to_json(&Value::from(false))), "false");
}

#[test]
fn null_becomes_empty() {
    assert_eq!(as_text(&to_json(&Value::Null)), "");
}

#[test]
fn editing_a_value_keeps_the_cell_style() {
    let mut workbook = umya_spreadsheet::new_file();
    {
        let cell = workbook.sheet_by_name_mut("Sheet1").unwrap().cell_mut((1u32, 1u32));
        cell.set_value_number(42.0);
        cell.style_mut().set_background_color("FFFF0000");
        cell.style_mut().font_mut().font_bold_mut().set_val(true);
    }

    let op = value_op(r#"["data", 0, 0, "v"]"#, r#""hello""#);
    apply(&mut workbook, &mut sheet_map(), vec![op]).unwrap();

    let cell = workbook.sheet_by_name_mut("Sheet1").unwrap().cell_mut((1u32, 1u32));
    assert_eq!(cell.value(), "hello");
    assert!(cell.style().fill().is_some(), "background was dropped");
    assert_eq!(cell.style().font().map(|font| font.bold()), Some(true), "bold was dropped");
}

#[test]
fn out_of_range_coordinates_are_rejected() {
    let mut workbook = umya_spreadsheet::new_file();
    let path = format!(r#"["data", {}, 0, "v"]"#, u64::from(u32::MAX) + 1);
    let op = value_op(&path, r#""x""#);

    let result = apply(&mut workbook, &mut sheet_map(), vec![op]);

    assert!(matches!(result, Err(Error::MalformedOp(_))), "expected rejection, got {result:?}");
}

#[test]
fn retyping_parses_text_into_a_number() {
    let mut workbook = umya_spreadsheet::new_file();
    workbook.sheet_by_name_mut("Sheet1").unwrap().cell_mut((1u32, 1u32)).set_value_string("42");

    let op = value_op(r#"["data", 0, 0, "ct"]"#, r#"{ "t": "n" }"#);
    apply(&mut workbook, &mut sheet_map(), vec![op]).unwrap();

    let cell = workbook.sheet_by_name_mut("Sheet1").unwrap().cell_mut((1u32, 1u32));
    assert_eq!(cell.value_number(), Some(42.0));
}

#[test]
fn numeric_retype_is_handed_back_with_its_cell() {
    let mut workbook = umya_spreadsheet::new_file();
    let op = value_op(r#"["data", 4, 2, "ct"]"#, r#"{ "t": "n" }"#);
    match apply_op(&mut workbook, &mut sheet_map(), &op).unwrap() {
        Some(NumericEdit::Retype { sheet, column, row }) => {
            assert_eq!(sheet, "Sheet1");
            assert_eq!((column, row), (3, 5));
        }
        other => panic!("expected a retype, got {other:?}"),
    }
}

#[test]
fn general_retype_keeps_the_displayed_value() {
    let mut workbook = umya_spreadsheet::new_file();
    workbook.sheet_by_name_mut("Sheet1").unwrap().cell_mut((1u32, 1u32)).set_value_number(7.5);
    let op = value_op(r#"["data", 0, 0, "ct"]"#, r#"{ "t": "g" }"#);
    assert!(apply_op(&mut workbook, &mut sheet_map(), &op).unwrap().is_none());
    let cell = workbook.sheet_by_name_mut("Sheet1").unwrap().cell_mut((1u32, 1u32));
    assert_eq!(cell.value(), "7.5");
    assert_eq!(cell.value_number(), None);
}

#[test]
fn general_retype_twice_keeps_value_and_style() {
    let mut workbook = umya_spreadsheet::new_file();
    {
        let cell = workbook.sheet_by_name_mut("Sheet1").unwrap().cell_mut((1u32, 1u32));
        cell.set_value_number(7.5);
        cell.style_mut().set_background_color("FF00FF00");
    }
    let op = value_op(r#"["data", 0, 0, "ct"]"#, r#"{ "t": "g" }"#);
    assert!(apply_op(&mut workbook, &mut sheet_map(), &op).unwrap().is_none());
    let once = workbook.sheet_by_name("Sheet1").unwrap().cell((1u32, 1u32)).unwrap().clone();
    assert!(apply_op(&mut workbook, &mut sheet_map(), &op).unwrap().is_none());
    let twice = workbook.sheet_by_name("Sheet1").unwrap().cell((1u32, 1u32)).unwrap().clone();
    assert_eq!(once.value(), "7.5");
    assert_eq!(twice.value(), "7.5");
    assert_eq!(once.style(), twice.style());
    assert!(twice.style().fill().is_some());
}

#[test]
fn format_edits_with_a_subpath_change_nothing() {
    let mut workbook = umya_spreadsheet::new_file();
    workbook.sheet_by_name_mut("Sheet1").unwrap().cell_mut((1u32, 1u32)).set_value_number(7.5);
    let op = value_op(r#"["data", 0, 0, "ct", "fa"]"#, r#""General""#);
    assert!(apply_op(&mut workbook, &mut sheet_map(), &op).unwrap().is_none());
    let cell = workbook.sheet_by_name_mut("Sheet1").unwrap().cell_mut((1u32, 1u32));
    assert_eq!(cell.value_number(), Some(7.5));
}

#[test]
fn value_edit_reads_back_at_the_shifted_cell() {
    let mut workbook = umya_spreadsheet::new_file();
    let op = value_op(r#"["data", 2, 5, "m"]"#, "12.5");
    apply(&mut workbook, &mut sheet_map(), vec![op]).unwrap();
    let sheet = workbook.sheet_by_name("Sheet1").unwrap();
    assert_eq!(sheet.cell((6u32, 3u32)).unwrap().value(), "12.5");
    assert_eq!(sheet.cell((6u32, 3u32)).unwrap().value_number(), None);
}

#[test]
fn coordinate_error_names_the_segment() {
    let op = value_op(r#"["data", 0, "x", "v"]"#, "1");
    match coordinate(&op) {
        Err(e) => assert_eq!(e.to_string(), "malformed operation: path segment 2 is not a valid coordinate"),
        Ok(p) => panic!("expected an error, got {p:?}"),
    }
    let op = value_op(r#"["data", -1, 3, "v"]"#, "1");
    match coordinate(&op) {
        Err(e) => assert_eq!(e.to_string(), "malformed operation: path segment 1 is not a valid coordinate"),
        Ok(p) => panic!("expected an error, got {p:?}"),
    }
    let op = value_op(r#"["data", 4294967294, 0, "v"]"#, "1");
    assert_eq!(coordinate(&op).unwrap(), (1, 4294967295));
}

#[test]
fn unknown_sheet_ids_are_rejected() {
    let mut workbook = umya_spreadsheet::new_file();
    let mut op = value_op(r#"["data", 0, 0, "v"]"#, r#""x""#);
    op.id = "9".to_owned();
    match apply_op(&mut workbook, &mut sheet_map(), &op) {
        Err(Error::UnknownSheet(id)) => assert_eq!(id, "9"),
        other => panic!("expected an unknown sheet, got {other:?}"),
    }
}

#[test]
fn sheet_names_missing_from_the_workbook_are_rejected() {
    let mut workbook = umya_spreadsheet::new_file();
    let mut map = SheetMap::new();
    map.insert("1".to_owned(), "Gone".to_owned());
    let op = value_op(r#"["data", 0, 0, "v"]"#, r#""x""#);
    match apply_op(&mut workbook, &mut map, &op) {
        Err(Error::UnknownSheet(name)) => assert_eq!(name, "Gone"),
        other => panic!("expected an unknown sheet, got {other:?}"),
    }
}

#[test]
fn unmodelled_ops_are_skipped() {
    let mut workbook = umya_spreadsheet::new_file();
    let mut op = value_op(r#"["data", 0, 0, "v"]"#, r#""x""#);
    op.op = OpKind::DeleteRowCol;
    assert!(apply_op(&mut workbook, &mut sheet_map(), &op).unwrap().is_none());
    let mut op = value_op(r#"["config", 0, 0, "v"]"#, r#""x""#);
    op.op = OpKind::Add;
    assert!(apply_op(&mut workbook, &mut sheet_map(), &op).unwrap().is_none());
    assert!(workbook.sheet_by_name("Sheet1").unwrap().cell((1u32, 1u32)).is_none());
}

#[test]
fn adding_a_sheet_maps_its_id() {
    let mut workbook = umya_spreadsheet::new_file();
    let mut map = sheet_map();
    let op = Op { op: OpKind::AddSheet, id: String::new(), path: Vec::new(), value: parse(r#"{"name": "Two", "id": "abc"}"#) };
    assert!(apply_op(&mut workbook, &mut map, &op).unwrap().is_none());
    assert_eq!(map.get("abc").map(String::as_str), Some("Two"));
    assert_eq!(workbook.sheet_collection()[1].name(), "Two");
    assert_eq!(workbook.sheet_collection()[1].sheet_id(), "2");

    let mut edit = value_op(r#"["data", 0, 0, "v"]"#, r#""here""#);
    edit.id = "abc".to_owned();
    apply_op(&mut workbook, &mut map, &edit).unwrap();
    assert_eq!(workbook.sheet_by_name("Two").unwrap().cell((1u32, 1u32)).unwrap().value(), "here");
}

#[test]
fn adding_a_sheet_with_a_taken_name_is_refused() {
    let mut workbook = umya_spreadsheet::new_file();
    let mut map = sheet_map();
    let op = Op { op: OpKind::AddSheet, id: String::new(), path: Vec::new(), value: parse(r#"{"name": "Sheet1", "id": "2"}"#) };
    match apply_op(&mut workbook, &mut map, &op) {
        Err(Error::MalformedOp(message)) => assert_eq!(message, "Name Duplicate"),
        other => panic!("expected a refusal, got {other:?}"),
    }
    assert!(map.get("2").is_none());
    assert_eq!(workbook.sheet_count(), 1);
}

#[test]
fn adding_a_sheet_needs_a_value_a_name_and_an_id() {
    let mut workbook = umya_spreadsheet::new_file();
    let cases = [
        ("null", "addSheet has no value object"),
        (r#"{"id": "2"}"#, "addSheet has no name"),
        (r#"{"name": 5, "id": "2"}"#, "addSheet has no name"),
        (r#"{"name": "Two"}"#, "addSheet has no id"),
    ];
    for (value, expected) in cases {
        let op = Op { op: OpKind::AddSheet, id: String::new(), path: Vec::new(), value: parse(value) };
        match apply_op(&mut workbook, &mut sheet_map(), &op) {
            Err(Error::MalformedOp(message)) => assert_eq!(message, expected),
            other => panic!("expected a refusal, got {other:?}"),
        }
    }
}

#[test]
fn font_toggles_follow_one_and_zero() {
    let mut workbook = umya_spreadsheet::new_file();
    let mut map = sheet_map();
    for (attribute, value) in [("bl", "1"), ("it", "1"), ("cl", "1"), ("it", "0")] {
        let op = value_op(&format!(r#"["data", 0, 0, "{attribute}"]"#), value);
        apply_op(&mut workbook, &mut map, &op).unwrap();
    }
    let font = workbook.sheet_by_name("Sheet1").unwrap().cell((1u32, 1u32)).unwrap().style().font().unwrap().clone();
    assert!(font.bold());
    assert!(!font.italic());
    assert!(font.strikethrough());
    assert!(is_enabled(&parse("1")));
    assert!(!is_enabled(&parse("true")));
    assert!(!is_enabled(&parse("2")));
    assert!(!is_enabled(&parse(r#""1""#)));
}

#[test]
fn font_name_and_size_edits() {
    let mut workbook = umya_spreadsheet::new_file();
    let mut map = sheet_map();
    let op = value_op(r#"["data", 1, 1, "ff"]"#, r#""Arial""#);
    apply(&mut workbook, &mut map, vec![op]).unwrap();
    let op = value_op(r#"["data", 1, 1, "fs"]"#, "14");
    match apply_op(&mut workbook, &mut map, &op).unwrap() {
        Some(NumericEdit::FontSize { sheet, column, row, size: JsonNumber::PosInt(14) }) => {
            assert_eq!((sheet.as_str(), column, row), ("Sheet1", 2, 2));
        }
        other => panic!("expected a font size, got {other:?}"),
    }
    let op = value_op(r#"["data", 1, 1, "fs"]"#, r#""big""#);
    assert!(apply_op(&mut workbook, &mut map, &op).unwrap().is_none());
    let font_at = |workbook: &umya_spreadsheet::Workbook| {
        workbook.sheet_by_name("Sheet1").unwrap().cell((2u32, 2u32)).unwrap().style().font().unwrap().font_name().val().to_owned()
    };
    assert_eq!(font_at(&workbook), "Arial");
    let op = value_op(r#"["data", 1, 1, "ff"]"#, "3");
    apply(&mut workbook, &mut map, vec![op]).unwrap();
    assert_eq!(font_at(&workbook), "Verdana");
    let op = value_op(r#"["data", 1, 1, "ff"]"#, "0");
    apply(&mut workbook, &mut map, vec![op]).unwrap();
    assert_eq!(font_at(&workbook), "Times New Roman");
    let op = value_op(r#"["data", 1, 1, "ff"]"#, "13");
    apply(&mut workbook, &mut map, vec![op]).unwrap();
    assert_eq!(font_at(&workbook), "");
}

#[test]
fn replacements_store_by_format() {
    let mut workbook = umya_spreadsheet::new_file();
    let mut map = sheet_map();
    let op = value_op(r#"["data", 0, 0]"#, r#"{"ct": {"t": "n"}, "v": 3.25}"#);
    match apply_op(&mut workbook, &mut map, &op).unwrap() {
        Some(NumericEdit::Number { number: JsonNumber::Float(text), column: 1, row: 1, .. }) => assert_eq!(text, "3.25"),
        other => panic!("expected a number, got {other:?}"),
    }
    let op = value_op(r#"["data", 0, 0]"#, r#"{"ct": {"t": "n"}, "v": "7"}"#);
    match apply_op(&mut workbook, &mut map, &op).unwrap() {
        Some(NumericEdit::ParsedText { text, .. }) => assert_eq!(text, "7"),
        other => panic!("expected parsed text, got {other:?}"),
    }
    let op = value_op(r#"["data", 0, 1]"#, r#"{"ct": {"t": "n"}, "v": true}"#);
    assert!(apply_op(&mut workbook, &mut map, &op).unwrap().is_none());
    let op = value_op(r#"["data", 0, 2]"#, r#"{"ct": {"t": "g"}, "v": 5}"#);
    assert!(apply_op(&mut workbook, &mut map, &op).unwrap().is_none());
    let sheet = workbook.sheet_by_name("Sheet1").unwrap();
    assert_eq!(sheet.cell((2u32, 1u32)).unwrap().value(), "true");
    assert_eq!(sheet.cell((3u32, 1u32)).unwrap().value(), "5");
}

#[test]
fn style_only_replacements_store_nothing() {
    let mut workbook = umya_spreadsheet::new_file();
    let mut map = sheet_map();
    let op = value_op(r#"["data", 0, 0]"#, r#"{"bl": 1}"#);
    assert!(apply_op(&mut workbook, &mut map, &op).unwrap().is_none());
    let op = value_op(r#"["data", 0, 0]"#, r#"{"ct": {"t": "g"}}"#);
    assert!(apply_op(&mut workbook, &mut map, &op).unwrap().is_none());
    assert!(workbook.sheet_by_name("Sheet1").unwrap().cell((1u32, 1u32)).is_none());
    let op = value_op(r#"["data", 0, 0]"#, r#""text""#);
    match apply_op(&mut workbook, &mut map, &op) {
        Err(Error::MalformedOp(message)) => assert_eq!(message, "cell replacement has no value object"),
        other => panic!("expected a refusal, got {other:?}"),
    }
}

#[test]
fn segments_read_strings_only() {
    let op = value_op(r#"["data", 0, 0, 5]"#, "1");
    assert_eq!(op.segment(0), "data");
    assert_eq!(op.segment(1), "");
    assert_eq!(op.segment(3), "");
    assert_eq!(op.segment(9), "");
}


#[test]
fn refused_edits_leave_the_workbook_alone() {
    let mut workbook = umya_spreadsheet::new_file();
    workbook.sheet_by_name_mut("Sheet1").unwrap().cell_mut((1u32, 1u32)).set_value_string("kept");
    let mut map = sheet_map();
    let mut op = value_op(r#"["data", 0, 0, "v"]"#, r#""lost""#);
    op.id = "missing".to_owned();
    assert!(apply_op(&mut workbook, &mut map, &op).is_err());
    let op = value_op(r#"["data", 0, 0]"#, "5");
    assert!(apply_op(&mut workbook, &mut map, &op).is_err());
    assert_eq!(workbook.sheet_by_name("Sheet1").unwrap().cell((1u32, 1u32)).unwrap().value(), "kept");
    assert_eq!(workbook.sheet_by_name("Sheet1").unwrap().cells().len(), 1);
    assert!(map.get("missing").is_none());
}

#[test]
fn edited_cells_render_back_at_their_coordinates() {
    let mut workbook = umya_spreadsheet::new_file();
    let op = value_op(r#"["data", 6, 9, "v"]"#, r#""here""#);
    apply(&mut workbook, &mut sheet_map(), vec![op]).unwrap();
    let sheet = workbook.sheet_by_name("Sheet1").unwrap();
    let cell = sheet.cells()[0];
    let snapshot = CellSnapshot {
        row: cell.coordinate().row_num(),
        column: cell.coordinate().col_num(),
        raw: RawValue::String(cell.value().to_string()),
        text: cell.value().to_string(),
        background: None,
        font: None,
    };
    let data = to_cell_data(&snapshot);
    assert_eq!((data.r, data.c), (6, 9));
    assert_eq!(data.v.m, "here");
}
