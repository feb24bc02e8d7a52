//! Renders worksheets in the shape fortune-sheet renders.
//!
//! The workbook's cells arrive as snapshots: the plain values that the
//! rendering reads from each umya-spreadsheet cell, with colors already in
//! `#RRGGBB` form and floating-point values by their decimal text.

use vstd::prelude::*;
use crate::json::{Json, JsonNumber};
use crate::model::{CellAttributes, CellData, CellFormat, Sheet};
use crate::text::str_eq;

verus! {

/// A cell's raw value, by umya-spreadsheet's variants.
pub enum RawValue {
    String(String),
    Lazy(String),
    /// Rich text, by its plain text.
    RichText(String),
    /// A number, by its JSON text; none when it is not finite.
    Numeric(Option<String>),
    Bool(bool),
    Error,
    Empty,
}

/// What the rendering reads of a cell's font.
pub struct FontSnapshot {
    pub name: String,
    /// The size, by its decimal text.
    pub size: String,
    /// The color, `#RRGGBB`.
    pub color: String,
    pub bold: bool,
    pub italic: bool,
    pub strike: bool,
}

/// What the rendering reads of a cell.
pub struct CellSnapshot {
    /// One-based row.
    pub row: u32,
    /// One-based column.
    pub column: u32,
    pub raw: RawValue,
    /// The displayed value.
    pub text: String,
    /// The pattern fill's background color, `#RRGGBB`, if there is one.
    pub background: Option<String>,
    pub font: Option<FontSnapshot>,
}

/// What the rendering reads of a worksheet.
pub struct SheetSnapshot {
    pub name: String,
    pub id: String,
    pub cells: Vec<CellSnapshot>,
}

/// fortune-sheet identifies fonts by index, not by name.
pub open spec fn font_families() -> Seq<Seq<char>> {
    seq![
        "Times New Roman"@, "Arial"@, "Tahoma"@, "Verdana"@, "Microsoft Yahei"@, "Song"@,
        "ST Heiti"@, "ST Kaiti"@, "ST FangSong"@, "ST Song"@, "Chinese New Wei"@,
        "Chinese Xingkai"@, "Chinese Lishu"@,
    ]
}

pub(crate) fn font_family(index: usize) -> (res: &'static str)
    requires
        index < 13,
    ensures
        res@ == font_families()[index as int],
{
    if index == 0 { "Times New Roman" }
    else if index == 1 { "Arial" }
    else if index == 2 { "Tahoma" }
    else if index == 3 { "Verdana" }
    else if index == 4 { "Microsoft Yahei" }
    else if index == 5 { "Song" }
    else if index == 6 { "ST Heiti" }
    else if index == 7 { "ST Kaiti" }
    else if index == 8 { "ST FangSong" }
    else if index == 9 { "ST Song" }
    else if index == 10 { "Chinese New Wei" }
    else if index == 11 { "Chinese Xingkai" }
    else { "Chinese Lishu" }
}

/// The index of the first family from `from` on with this name, or 0.
pub open spec fn family_index_from(name: Seq<char>, from: int) -> nat
    decreases 13 - from,
{
    if from < 0 || from >= 13 {
        0
    } else if font_families()[from] == name {
        from as nat
    } else {
        family_index_from(name, from + 1)
    }
}

/// fortune-sheet's index of a font family, 0 for one it does not list.
pub open spec fn family_index(name: Seq<char>) -> nat {
    family_index_from(name, 0)
}

/// The index fortune-sheet gives a font family; 0 when it lists none of
/// that name.
pub fn font_family_index(name: &str) -> (res: u32)
    ensures
        res == family_index(name@),
{
    let mut i: usize = 0;
    while i < 13
        invariant
            i <= 13,
            family_index(name@) == family_index_from(name@, i as int),
        decreases 13 - i,
    {
        if str_eq(font_family(i), name) {
            return i as u32;
        }
        i = i + 1;
    }
    0
}

/// A flag as fortune-sheet's 1 or 0.
pub open spec fn flag(b: bool) -> u8 {
    if b { 1 } else { 0 }
}

fn flag_exec(b: bool) -> (res: u8)
    ensures
        res == flag(b),
{
    if b { 1 } else { 0 }
}

/// The raw value and fortune-sheet's type tag: numbers are "n", all else
/// "g".
pub open spec fn raw_json(raw: RawValue) -> Json {
    match raw {
        RawValue::String(t) => Json::String(t),
        RawValue::Lazy(t) => Json::String(t),
        RawValue::RichText(t) => Json::String(t),
        RawValue::Numeric(Some(t)) => Json::Number(JsonNumber::Float(t)),
        RawValue::Numeric(None) => Json::Null,
        RawValue::Bool(b) => Json::Bool(b),
        RawValue::Error => Json::Null,
        RawValue::Empty => Json::Null,
    }
}

/// fortune-sheet's type tag: "n" numeric, "g" general.
pub open spec fn raw_tag(raw: RawValue) -> Seq<char> {
    match raw {
        RawValue::Numeric(_) => "n"@,
        _ => "g"@,
    }
}

/// Returns the raw value and fortune-sheet's type tag.
pub fn to_value(raw: &RawValue) -> (res: (Json, &'static str))
    ensures
        res.0 == raw_json(*raw),
        res.1@ == raw_tag(*raw),
        *raw matches RawValue::String(t) ==> res.0 == Json::String(t) && res.1@ == "g"@,
        *raw matches RawValue::Lazy(t) ==> res.0 == Json::String(t) && res.1@ == "g"@,
        *raw matches RawValue::RichText(t) ==> res.0 == Json::String(t) && res.1@ == "g"@,
        *raw matches RawValue::Numeric(Some(t)) ==> res.0 == Json::Number(JsonNumber::Float(t)) && res.1@ == "n"@,
        *raw matches RawValue::Bool(b) ==> res.0 == Json::Bool(b) && res.1@ == "g"@,
        res.0 is Null ==> (*raw is Empty || *raw is Error || *raw matches RawValue::Numeric(None)),
{
    match raw {
        RawValue::String(t) => (Json::String(t.clone()), "g"),
        RawValue::Lazy(t) => (Json::String(t.clone()), "g"),
        RawValue::RichText(t) => (Json::String(t.clone()), "g"),
        RawValue::Numeric(Some(t)) => (Json::Number(JsonNumber::Float(t.clone())), "n"),
        RawValue::Numeric(None) => (Json::Null, "n"),
        RawValue::Bool(b) => (Json::Bool(*b), "g"),
        RawValue::Error => (Json::Null, "g"),
        RawValue::Empty => (Json::Null, "g"),
    }
}

/// The font attributes fortune-sheet shows.
pub struct FontStyle {
    pub family: u32,
    pub size: String,
    pub color: String,
    pub bold: u8,
    pub italic: u8,
    pub strike: u8,
}

/// The attributes of a cell without a font: family 0, size 0, no color,
/// no flags.
pub fn default_font_style() -> (res: FontStyle)
    ensures
        res.family == 0,
        res.size@ == "0"@,
        res.color@ == Seq::<char>::empty(),
        res.bold == 0 && res.italic == 0 && res.strike == 0,
{
    FontStyle { family: 0, size: String::from_str("0"), color: String::new(), bold: 0, italic: 0, strike: 0 }
}

/// The font attributes of a font.
pub fn to_font_style(font: &FontSnapshot) -> (res: FontStyle)
    ensures
        res.family == family_index(font.name@),
        res.size@ == font.size@,
        res.color@ == font.color@,
        res.bold == flag(font.bold),
        res.italic == flag(font.italic),
        res.strike == flag(font.strike),
{
    FontStyle {
        family: font_family_index(font.name.as_str()),
        size: font.size.clone(),
        color: font.color.clone(),
        bold: flag_exec(font.bold),
        italic: flag_exec(font.italic),
        strike: flag_exec(font.strike),
    }
}

/// A cell as fortune-sheet renders it: zero-based coordinates, the
/// general format with the type tag, the background (empty without one),
/// the font's attributes (defaults without a font), the raw value and the
/// displayed value.
pub open spec fn renders(data: CellData, cell: CellSnapshot) -> bool {
    &&& data.r == cell.row - 1
    &&& data.c == cell.column - 1
    &&& data.v.ct.fa@ == "General"@
    &&& data.v.ct.t@ == raw_tag(cell.raw)
    &&& data.v.bg@ == match cell.background { Some(h) => h@, None => Seq::empty() }
    &&& match cell.font {
        Some(f) => {
            &&& data.v.ff == family_index(f.name@)
            &&& data.v.fc@ == f.color@
            &&& data.v.fs@ == f.size@
            &&& data.v.bl == flag(f.bold)
            &&& data.v.it == flag(f.italic)
            &&& data.v.cl == flag(f.strike)
        },
        None => {
            &&& data.v.ff == 0
            &&& data.v.fc@ == Seq::<char>::empty()
            &&& data.v.fs@ == "0"@
            &&& data.v.bl == 0 && data.v.it == 0 && data.v.cl == 0
        },
    }
    &&& data.v.v == raw_json(cell.raw)
    &&& data.v.m@ == cell.text@
}

/// Renders one cell. Workbook coordinates are one-based.
pub fn to_cell_data(cell: &CellSnapshot) -> (res: CellData)
    requires
        cell.row >= 1,
        cell.column >= 1,
    ensures
        renders(res, *cell),
{
    let (value, cell_type) = to_value(&cell.raw);
    let font = match &cell.font {
        Some(f) => to_font_style(f),
        None => default_font_style(),
    };
    let background = match &cell.background {
        Some(h) => h.clone(),
        None => String::new(),
    };
    CellData {
        // fortune-sheet is zero-based; umya-spreadsheet is one-based.
        r: cell.row - 1,
        c: cell.column - 1,
        v: CellAttributes {
            ct: CellFormat { fa: String::from_str("General"), t: String::from_str(cell_type) },
            bg: background,
            ff: font.family,
            fc: font.color,
            bl: font.bold,
            it: font.italic,
            fs: font.size,
            cl: font.strike,
            v: value,
            m: cell.text.clone(),
        },
    }
}

/// Coordinates are one-based in every cell of every sheet.
pub open spec fn one_based(sheets: Seq<SheetSnapshot>) -> bool {
    forall|i: int, j: int|
        0 <= i < sheets.len() && 0 <= j < sheets[i].cells@.len()
            ==> (#[trigger] sheets[i].cells@[j]).row >= 1 && sheets[i].cells@[j].column >= 1
}

/// A sheet as fortune-sheet renders it: name, id, its place, and its cells
/// in order.
pub open spec fn renders_sheet(sheet: Sheet, snapshot: SheetSnapshot, order: int) -> bool {
    &&& sheet.name@ == snapshot.name@
    &&& sheet.id@ == snapshot.id@
    &&& sheet.order == order
    &&& sheet.celldata@.len() == snapshot.cells@.len()
    &&& forall|j: int| 0 <= j < sheet.celldata@.len()
        ==> renders(#[trigger] sheet.celldata@[j], snapshot.cells@[j])
}

/// Renders every sheet, numbering them in order.
pub fn to_sheets(sheets: &Vec<SheetSnapshot>) -> (res: Vec<Sheet>)
    requires
        one_based(sheets@),
    ensures
        res@.len() == sheets@.len(),
        forall|i: int| 0 <= i < res@.len() ==> renders_sheet(#[trigger] res@[i], sheets@[i], i),
{
    let mut res: Vec<Sheet> = Vec::new();
    let mut order: usize = 0;
    while order < sheets.len()
        invariant
            order <= sheets@.len(),
            one_based(sheets@),
            res@.len() == order,
            forall|i: int| 0 <= i < order ==> renders_sheet(#[trigger] res@[i], sheets@[i], i),
        decreases sheets@.len() - order,
    {
        let snapshot = &sheets[order];
        let mut celldata: Vec<CellData> = Vec::new();
        let mut j: usize = 0;
        while j < snapshot.cells.len()
            invariant
                order < sheets@.len(),
                *snapshot == sheets@[order as int],
                one_based(sheets@),
                j <= snapshot.cells@.len(),
                celldata@.len() == j,
                forall|k: int| 0 <= k < j ==> renders(#[trigger] celldata@[k], snapshot.cells@[k]),
            decreases snapshot.cells@.len() - j,
        {
            assert(sheets@[order as int].cells@[j as int].row >= 1);
            celldata.push(to_cell_data(&snapshot.cells[j]));
            j = j + 1;
        }
        res.push(Sheet {
            name: snapshot.name.clone(),
            id: snapshot.id.clone(),
            order,
            celldata,
        });
        order = order + 1;
    }
    res
}

} // verus!
