use spreadsheet::sheet_map::SheetMap;
use spreadsheet::state::{all_sheets_loaded, sheet_map_of, WorkbookState};

#[test]
fn sheet_maps_follow_the_workbook() {
    let mut workbook = umya_spreadsheet::new_file();
    workbook.new_sheet("Second").unwrap();
    let map = sheet_map_of(&workbook);
    assert_eq!(map.get("1").map(String::as_str), Some("Sheet1"));
    assert_eq!(map.get("2").map(String::as_str), Some("Second"));
    assert!(map.get("3").is_none());
}

#[test]
fn replacing_the_workbook_replaces_the_map() {
    let mut state = WorkbookState::new(umya_spreadsheet::new_file());
    assert_eq!(state.sheet_map.get("1").map(String::as_str), Some("Sheet1"));
    let mut other = umya_spreadsheet::new_file_empty_worksheet();
    other.new_sheet("Only").unwrap();
    state.replace(other);
    assert_eq!(state.sheet_map.get("1").map(String::as_str), Some("Only"));
    assert_eq!(state.workbook.sheet_count(), 1);
    let empty = WorkbookState::new(umya_spreadsheet::new_file_empty_worksheet());
    assert!(empty.sheet_map.get("1").is_none());
}

#[test]
fn sheet_map_reads_back_what_was_written() {
    let mut map = SheetMap::new();
    assert!(map.get("a").is_none());
    map.insert("a".to_owned(), "One".to_owned());
    map.insert("b".to_owned(), "Two".to_owned());
    map.insert("a".to_owned(), "Three".to_owned());
    assert_eq!(map.get("a").map(String::as_str), Some("Three"));
    assert_eq!(map.get("b").map(String::as_str), Some("Two"));
}

#[test]
fn new_workbooks_have_every_sheet_loaded() {
    let mut workbook = umya_spreadsheet::new_file();
    assert!(all_sheets_loaded(&workbook));
    workbook.new_sheet("Second").unwrap();
    assert!(all_sheets_loaded(&workbook));
}
