//! Verified core of a spreadsheet editor that bridges a browser grid
//! (fortune-sheet) and xlsx workbooks (umya-spreadsheet).

pub mod text;
pub mod json;
pub mod error;
pub mod model;
pub mod workbook;
pub mod sheet_map;
pub mod state;
pub mod ops;
pub mod color;
pub mod serialize;
pub mod legacy;
pub mod grid;
pub mod laws;
pub mod edit_laws;
