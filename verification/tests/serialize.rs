use spreadsheet::color::{argb_to_hex, color_resolves, to_hex, try_to_hex};
use spreadsheet::json::{Json, JsonNumber};
use spreadsheet::serialize::{
    font_family_index, to_cell_data, to_sheets, to_value, CellSnapshot, FontSnapshot, RawValue,
    SheetSnapshot,
};

fn plain_cell(row: u32, column: u32, raw: RawValue, text: &str) -> CellSnapshot {
    CellSnapshot { row, column, raw, text: text.to_owned(), background: None, font: None }
}

#[test]
fn colors_drop_their_alpha() {
    assert_eq!(argb_to_hex("FFFF0000"), "#FF0000");
    assert_eq!(argb_to_hex("00FF00"), "#00FF00");
    assert_eq!(argb_to_hex(""), "#");
    assert_eq!(argb_to_hex("123456789"), "#123456789");
    assert_eq!(argb_to_hex("éFFFFFF"), "#FFFFFF");
}

#[test]
fn workbook_colors_become_hex() {
    let mut color = umya_spreadsheet::Color::default();
    color.set_argb_str("FF00FF00");
    let workbook = umya_spreadsheet::new_file();
    assert_eq!(to_hex(&color, workbook.theme()), "#00FF00");
}

#[test]
fn themed_colors_resolve_against_the_theme() {
    let workbook = umya_spreadsheet::new_file();
    let theme = workbook.theme();
    let mut color = umya_spreadsheet::Color::default();
    color.set_theme_index(4);
    assert!(color_resolves(&color, theme));
    let plain = to_hex(&color, theme);
    assert_eq!(plain, format!("#{}", color.argb_with_theme(theme)));
    assert_eq!(plain.len(), 7);
    color.set_tint(0.5);
    assert!(color_resolves(&color, theme));
    let tinted = to_hex(&color, theme);
    assert_eq!(tinted, format!("#{}", color.argb_with_theme(theme)));
    assert_ne!(tinted, plain);
}

#[test]
fn unresolvable_tints_are_detected() {
    let workbook = umya_spreadsheet::new_file();
    let theme = workbook.theme();
    let mut color = umya_spreadsheet::Color::default();
    color.set_theme_index(4);
    color.set_tint(f64::NAN);
    assert!(!color_resolves(&color, theme));
    color.set_tint(1.0e12);
    assert!(!color_resolves(&color, theme));
    color.set_tint(-1.0e12);
    assert!(!color_resolves(&color, theme));
    assert_eq!(try_to_hex(&color, theme), None);
    color.set_tint(-0.25);
    assert!(color_resolves(&color, theme));
    assert_eq!(try_to_hex(&color, theme), Some(to_hex(&color, theme)));
}

#[test]
fn font_families_by_index() {
    assert_eq!(font_family_index("Times New Roman"), 0);
    assert_eq!(font_family_index("Arial"), 1);
    assert_eq!(font_family_index("Chinese Lishu"), 12);
    assert_eq!(font_family_index("Calibri"), 0);
    assert_eq!(font_family_index("arial"), 0);
}

#[test]
fn raw_values_and_type_tags() {
    let (value, tag) = to_value(&RawValue::Numeric(Some("42.0".to_owned())));
    assert!(matches!(value, Json::Number(JsonNumber::Float(ref t)) if t == "42.0"));
    assert_eq!(tag, "n");
    let (value, tag) = to_value(&RawValue::Numeric(None));
    assert!(matches!(value, Json::Null));
    assert_eq!(tag, "n");
    let (value, tag) = to_value(&RawValue::Lazy("x".to_owned()));
    assert!(matches!(value, Json::String(ref t) if t == "x"));
    assert_eq!(tag, "g");
    let (value, tag) = to_value(&RawValue::Bool(true));
    assert!(matches!(value, Json::Bool(true)));
    assert_eq!(tag, "g");
    assert!(matches!(to_value(&RawValue::Error).0, Json::Null));
    assert!(matches!(to_value(&RawValue::Empty).0, Json::Null));
}

#[test]
fn cells_render_zero_based_with_defaults() {
    let data = to_cell_data(&plain_cell(3, 2, RawValue::String("hi".to_owned()), "hi"));
    assert_eq!((data.r, data.c), (2, 1));
    assert_eq!(data.v.ct.fa, "General");
    assert_eq!(data.v.ct.t, "g");
    assert_eq!(data.v.bg, "");
    assert_eq!((data.v.ff, data.v.fc.as_str(), data.v.fs.as_str()), (0, "", "0"));
    assert_eq!((data.v.bl, data.v.it, data.v.cl), (0, 0, 0));
    assert_eq!(data.v.m, "hi");
}

#[test]
fn cells_render_their_font_and_background() {
    let mut cell = plain_cell(1, 1, RawValue::Numeric(Some("2.5".to_owned())), "2.5");
    cell.background = Some("#FF0000".to_owned());
    cell.font = Some(FontSnapshot {
        name: "Verdana".to_owned(),
        size: "11".to_owned(),
        color: "#000000".to_owned(),
        bold: true,
        italic: false,
        strike: true,
    });
    let data = to_cell_data(&cell);
    assert_eq!((data.r, data.c), (0, 0));
    assert_eq!(data.v.ct.t, "n");
    assert_eq!(data.v.bg, "#FF0000");
    assert_eq!((data.v.ff, data.v.fc.as_str(), data.v.fs.as_str()), (3, "#000000", "11"));
    assert_eq!((data.v.bl, data.v.it, data.v.cl), (1, 0, 1));
}

#[test]
fn sheets_are_numbered_in_order() {
    let sheets = vec![
        SheetSnapshot { name: "A".to_owned(), id: "1".to_owned(), cells: vec![plain_cell(1, 1, RawValue::Empty, "")] },
        SheetSnapshot { name: "B".to_owned(), id: "7".to_owned(), cells: Vec::new() },
    ];
    let rendered = to_sheets(&sheets);
    assert_eq!(rendered.len(), 2);
    assert_eq!((rendered[0].name.as_str(), rendered[0].id.as_str(), rendered[0].order), ("A", "1", 0));
    assert_eq!((rendered[1].name.as_str(), rendered[1].id.as_str(), rendered[1].order), ("B", "7", 1));
    assert_eq!(rendered[0].celldata.len(), 1);
    assert!(rendered[1].celldata.is_empty());
}
