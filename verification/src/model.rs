//! The shapes exchanged with the frontend: its edit operations, and the
//! worksheets in the form fortune-sheet renders.

use vstd::prelude::*;
use crate::json::Json;

verus! {

/// Mirrors fortune-sheet's `Op["op"]` union.
#[derive(Debug, Clone, Copy, PartialEq, Eq, Structural)]
pub enum OpKind {
    Add,
    Remove,
    Replace,
    InsertRowCol,
    DeleteRowCol,
    AddSheet,
    DeleteSheet,
}

/// A single change emitted by the frontend. `id` is optional upstream and
/// empty when absent; `value` is null when absent.
#[derive(Debug)]
pub struct Op {
    pub op: OpKind,
    pub id: String,
    pub path: Vec<Json>,
    pub value: Json,
}

impl Op {
    /// The path segment at `index` when it is a string, else the empty text.
    pub open spec fn segment_spec(self, index: int) -> Seq<char> {
        if 0 <= index < self.path@.len() {
            match self.path@[index].str_spec() {
                Some(s) => s,
                None => Seq::empty(),
            }
        } else {
            Seq::empty()
        }
    }

    /// The path segment at `index` when it is a string, else `""`.
    pub fn segment(&self, index: usize) -> (res: &str)
        ensures
            res@ == self.segment_spec(index as int),
    {
        proof { reveal_strlit(""); }
        if index < self.path.len() {
            match self.path[index].as_str() {
                Some(s) => s,
                None => "",
            }
        } else {
            ""
        }
    }
}

/// Cell format: `fa` is the format definition, `t` the type ("g" general,
/// "n" numeric).
#[derive(Debug)]
pub struct CellFormat {
    pub fa: String,
    pub t: String,
}

/// Mirrors fortune-sheet's `Cell` type; the short names are theirs.
#[derive(Debug)]
pub struct CellAttributes {
    /// Cell format.
    pub ct: CellFormat,
    /// Background color, `#RRGGBB`, or empty.
    pub bg: String,
    /// Font family, as an index into fortune-sheet's font list.
    pub ff: u32,
    /// Font color.
    pub fc: String,
    /// Bold, 1 or 0.
    pub bl: u8,
    /// Italic, 1 or 0.
    pub it: u8,
    /// Font size, by the decimal text of the workbook's value.
    pub fs: String,
    /// Strikethrough, 1 or 0.
    pub cl: u8,
    /// Raw value.
    pub v: Json,
    /// Displayed value.
    pub m: String,
}

/// A single cell, addressed by zero-based row and column.
#[derive(Debug)]
pub struct CellData {
    pub r: u32,
    pub c: u32,
    pub v: CellAttributes,
}

/// A worksheet in the shape fortune-sheet expects.
#[derive(Debug)]
pub struct Sheet {
    pub name: String,
    pub id: String,
    pub order: usize,
    pub celldata: Vec<CellData>,
}

} // verus!
