//! The workbook, as umya-spreadsheet holds it, and the calls this library
//! makes on it.
//!
//! A workbook is seen through two names: the list of its sheets, each by id
//! and name, and the facts of each cell that this library reads or writes:
//! its displayed value, whether it holds a number, and, when its style has a
//! font, the font's name and its bold, italic and strikethrough flags, and
//! its whole style. Cells are keyed by the index of their sheet and their
//! one-based column and row. A sheet that a lazy read left as raw XML is
//! parsed on first use, which can fail; the calls that reach a sheet's cells
//! ask for it to be parsed already.

use vstd::prelude::*;
use crate::text::decimal;
use crate::grid::CellText;

verus! {

#[verifier::external_type_specification]
#[verifier::external_body]
pub struct ExWorkbook(umya_spreadsheet::Workbook);

#[verifier::external_type_specification]
#[verifier::external_body]
pub struct ExColor(umya_spreadsheet::Color);

#[verifier::external_type_specification]
#[verifier::external_body]
pub struct ExTheme(umya_spreadsheet::drawing::Theme);

#[verifier::external_type_specification]
#[verifier::external_body]
pub struct ExStyle(umya_spreadsheet::Style);

/// A sheet by id and name.
pub type SheetFacts = (Seq<char>, Seq<char>);

/// A font by name, bold, italic and strikethrough.
pub type FontFacts = (Seq<char>, bool, bool, bool);

/// A cell by its displayed value (`Cell::value`), whether its raw value is
/// a number, the font of its style, if it has one, and its whole style
/// (`Cell::style`).
pub type CellFacts = (Seq<char>, bool, Option<FontFacts>, umya_spreadsheet::Style);

/// A cell's place: sheet index, one-based column, one-based row.
pub type CellKey = (int, u32, u32);

/// The sheets of a workbook, in order, by id and name.
pub uninterp spec fn workbook_sheets(wb: umya_spreadsheet::Workbook) -> Seq<SheetFacts>;

/// The cells of a workbook.
pub uninterp spec fn workbook_cells(wb: umya_spreadsheet::Workbook) -> Map<CellKey, CellFacts>;

/// Whether the sheet at `index` is parsed: `Workbook::sheet` gives it
/// rather than refusing it as not yet deserialized.
pub uninterp spec fn sheet_is_loaded(wb: umya_spreadsheet::Workbook, index: int) -> bool;

/// Every sheet of the workbook is parsed.
pub open spec fn sheets_loaded(wb: umya_spreadsheet::Workbook) -> bool {
    forall|i: int| 0 <= i < workbook_sheets(wb).len() ==> #[trigger] sheet_is_loaded(wb, i)
}

/// Each sheet of `old` is parsed in `new` exactly when it was in `old`.
pub open spec fn loaded_kept(old: umya_spreadsheet::Workbook, new: umya_spreadsheet::Workbook) -> bool {
    forall|i: int| 0 <= i < workbook_sheets(old).len() ==>
        #[trigger] sheet_is_loaded(new, i) == sheet_is_loaded(old, i)
}

/// The first sheet named `name` is parsed.
pub open spec fn named_sheet_loaded(wb: umya_spreadsheet::Workbook, name: Seq<char>) -> bool {
    sheet_is_loaded(wb, sheet_index(workbook_sheets(wb), name))
}

/// No cell belongs to the sheet at `index`.
pub open spec fn sheet_is_empty(cells: Map<CellKey, CellFacts>, index: int) -> bool {
    forall|k: CellKey| #[trigger] cells.contains_key(k) ==> k.0 != index
}

/// Whether some sheet has this name.
pub open spec fn has_sheet(sheets: Seq<SheetFacts>, name: Seq<char>) -> bool {
    exists|i: int| 0 <= i < sheets.len() && #[trigger] sheets[i].1 == name
}

/// The index of the first sheet with this name, or -1.
pub open spec fn sheet_index(sheets: Seq<SheetFacts>, name: Seq<char>) -> int
    decreases sheets.len(),
{
    if sheets.len() == 0 {
        -1
    } else if sheets[0].1 == name {
        0
    } else {
        let rest = sheet_index(sheets.drop_first(), name);
        if rest < 0 { -1 } else { rest + 1 }
    }
}

/// The font a freshly styled font starts from.
pub open spec fn default_font() -> FontFacts {
    ("Calibri"@, false, false, false)
}

/// The font a font edit starts from: the cell's own font, the default font
/// when the cell exists without one, and nothing known for a new cell.
pub open spec fn prior_font(cells: Map<CellKey, CellFacts>, key: CellKey) -> Option<FontFacts> {
    if cells.contains_key(key) {
        match cells[key].2 {
            Some(f) => Some(f),
            None => Some(default_font()),
        }
    } else {
        None
    }
}

/// The displayed value a cell has before an edit: its own, or empty for a
/// cell that does not exist yet.
pub open spec fn prior_text(cells: Map<CellKey, CellFacts>, key: CellKey) -> Seq<char> {
    if cells.contains_key(key) { cells[key].0 } else { Seq::empty() }
}

/// Whether a cell holds a number before an edit; a new cell holds none.
pub open spec fn prior_numeric(cells: Map<CellKey, CellFacts>, key: CellKey) -> bool {
    cells.contains_key(key) && cells[key].1
}

/// Only the cell at `key` may differ, and it exists afterwards.
pub open spec fn only_cell_touched(
    old: Map<CellKey, CellFacts>,
    new: Map<CellKey, CellFacts>,
    key: CellKey,
) -> bool {
    &&& new.dom() == old.dom().insert(key)
    &&& new.remove(key) == old.remove(key)
}

/// The key of a cell of the first sheet named `sheet`.
pub open spec fn cell_key(sheets: Seq<SheetFacts>, sheet: Seq<char>, column: u32, row: u32) -> CellKey {
    (sheet_index(sheets, sheet), column, row)
}

/// A font edit: only the cell at `key` changes, its value stays, and its
/// font becomes `edit` applied to the font it had (or, for a new cell,
/// satisfies `fresh`).
pub open spec fn font_edited(
    old: Map<CellKey, CellFacts>,
    new: Map<CellKey, CellFacts>,
    key: CellKey,
    edit: spec_fn(FontFacts) -> FontFacts,
    fresh: spec_fn(FontFacts) -> bool,
) -> bool {
    &&& only_cell_touched(old, new, key)
    &&& new[key].0 == prior_text(old, key)
    &&& new[key].1 == prior_numeric(old, key)
    &&& match prior_font(old, key) {
        Some(f) => new[key].2 == Some(edit(f)),
        None => new[key].2 is Some && fresh(new[key].2->0),
    }
}

/// `cell_mut` then `value` on an existing sheet: only that cell may be
/// created, nothing else changes, and `res` is its value (empty for a new
/// cell).
pub open spec fn value_read(
    old: umya_spreadsheet::Workbook,
    new: umya_spreadsheet::Workbook,
    sheet: Seq<char>,
    column: u32,
    row: u32,
    res: Seq<char>,
) -> bool {
    let key = cell_key(workbook_sheets(old), sheet, column, row);
    let old_cells = workbook_cells(old);
    let new_cells = workbook_cells(new);
    &&& only_cell_touched(old_cells, new_cells, key)
    &&& old_cells.contains_key(key) ==> new_cells[key] == old_cells[key]
    &&& new_cells[key].0 == prior_text(old_cells, key)
    &&& new_cells[key].1 == prior_numeric(old_cells, key)
    &&& res == new_cells[key].0
}

/// `cell_mut` then `set_value_string` on an existing sheet: only that cell
/// changes, its value becomes the text `text`, and an existing cell keeps
/// its style.
pub open spec fn value_written(
    old: umya_spreadsheet::Workbook,
    new: umya_spreadsheet::Workbook,
    sheet: Seq<char>,
    column: u32,
    row: u32,
    text: Seq<char>,
) -> bool {
    let key = cell_key(workbook_sheets(old), sheet, column, row);
    let old_cells = workbook_cells(old);
    let new_cells = workbook_cells(new);
    &&& only_cell_touched(old_cells, new_cells, key)
    &&& new_cells[key].0 == text
    &&& !new_cells[key].1
    &&& old_cells.contains_key(key) ==> new_cells[key].2 == old_cells[key].2
    &&& old_cells.contains_key(key) ==> new_cells[key].3 == old_cells[key].3
}

pub proof fn lemma_sheet_index(sheets: Seq<SheetFacts>, name: Seq<char>)
    ensures
        has_sheet(sheets, name) <==> sheet_index(sheets, name) >= 0,
        sheet_index(sheets, name) >= -1,
        has_sheet(sheets, name) ==> {
            let k = sheet_index(sheets, name);
            &&& 0 <= k < sheets.len()
            &&& sheets[k].1 == name
        },
    decreases sheets.len(),
{
    if sheets.len() > 0 {
        lemma_sheet_index(sheets.drop_first(), name);
        if sheets[0].1 != name {
            if has_sheet(sheets, name) {
                let i = choose|i: int| 0 <= i < sheets.len() && #[trigger] sheets[i].1 == name;
                assert(sheets.drop_first()[i - 1].1 == name);
            }
            if has_sheet(sheets.drop_first(), name) {
                let i = choose|i: int| 0 <= i < sheets.drop_first().len() && #[trigger] sheets.drop_first()[i].1 == name;
                assert(sheets[i + 1].1 == name);
            }
        }
    }
}

/// Appending a sheet keeps the index of every name already present.
pub proof fn lemma_sheet_index_push(sheets: Seq<SheetFacts>, extra: SheetFacts, name: Seq<char>)
    requires
        has_sheet(sheets, name),
    ensures
        sheet_index(sheets.push(extra), name) == sheet_index(sheets, name),
    decreases sheets.len(),
{
    lemma_sheet_index(sheets, name);
    if sheets[0].1 != name {
        assert(sheets.push(extra).drop_first() =~= sheets.drop_first().push(extra));
        let i = choose|i: int| 0 <= i < sheets.len() && #[trigger] sheets[i].1 == name;
        assert(sheets.drop_first()[i - 1].1 == name);
        lemma_sheet_index_push(sheets.drop_first(), extra, name);
    }
}

/// `Workbook::sheet_count`: the number of sheets.
#[verifier::external_body]
pub(crate) fn sheet_count(wb: &umya_spreadsheet::Workbook) -> (res: usize)
    ensures
        res == workbook_sheets(*wb).len(),
{
    wb.sheet_count()
}

/// `Worksheet::sheet_id` of the sheet at `index` in
/// `Workbook::sheet_collection_no_check`.
#[verifier::external_body]
pub(crate) fn sheet_id_at(wb: &umya_spreadsheet::Workbook, index: usize) -> (res: String)
    requires
        index < workbook_sheets(*wb).len(),
    ensures
        res@ == workbook_sheets(*wb)[index as int].0,
{
    wb.sheet_collection_no_check()[index].sheet_id().to_string()
}

/// `Worksheet::name` of the sheet at `index` in
/// `Workbook::sheet_collection_no_check`.
#[verifier::external_body]
pub(crate) fn sheet_name_at(wb: &umya_spreadsheet::Workbook, index: usize) -> (res: String)
    requires
        index < workbook_sheets(*wb).len(),
    ensures
        res@ == workbook_sheets(*wb)[index as int].1,
{
    wb.sheet_collection_no_check()[index].name().to_string()
}

/// `Workbook::new_sheet`: refuses a name that a sheet already has (the
/// error displays as "Name Duplicate"); otherwise appends an empty sheet
/// with that name, whose id is the new number of sheets in decimal, which
/// is parsed (it holds no raw XML) and has no cells. The error is handed back by its
/// text.
#[verifier::external_body]
pub(crate) fn new_sheet(wb: &mut umya_spreadsheet::Workbook, name: &str) -> (res: Result<(), String>)
    ensures
        res is Ok <==> !has_sheet(workbook_sheets(*old(wb)), name@),
        res is Ok ==> workbook_sheets(*final(wb)) == workbook_sheets(*old(wb)).push(
            (decimal(workbook_sheets(*old(wb)).len() + 1), name@),
        ),
        res is Ok ==> workbook_cells(*final(wb)) == workbook_cells(*old(wb)),
        res is Ok ==> sheet_is_empty(workbook_cells(*final(wb)), workbook_sheets(*old(wb)).len() as int),
        res is Ok ==> loaded_kept(*old(wb), *final(wb)),
        res is Ok ==> sheet_is_loaded(*final(wb), workbook_sheets(*old(wb)).len() as int),
        res matches Err(m) ==> m@ == "Name Duplicate"@ && *final(wb) == *old(wb),
{
    wb.new_sheet(name).map(|_| ()).map_err(|error| error.to_string())
}

/// `Workbook::sheet_by_name_mut` succeeds: some sheet has the name. On a
/// parsed sheet it changes nothing.
#[verifier::external_body]
pub(crate) fn sheet_by_name_mut_ok(wb: &mut umya_spreadsheet::Workbook, name: &str) -> (res: bool)
    requires
        has_sheet(workbook_sheets(*old(wb)), name@) ==> named_sheet_loaded(*old(wb), name@),
    ensures
        loaded_kept(*old(wb), *final(wb)),
        res == has_sheet(workbook_sheets(*old(wb)), name@),
        workbook_sheets(*final(wb)) == workbook_sheets(*old(wb)),
        workbook_cells(*final(wb)) == workbook_cells(*old(wb)),
{
    wb.sheet_by_name_mut(name).is_ok()
}

/// `Cell::value` of the cell that `Worksheet::cell_mut` gives for
/// `(column, row)` on the first sheet named `sheet`; `cell_mut` creates an
/// empty cell when there is none.
#[verifier::external_body]
pub(crate) fn cell_value(wb: &mut umya_spreadsheet::Workbook, sheet: &str, column: u32, row: u32) -> (res: String)
    requires
        has_sheet(workbook_sheets(*old(wb)), sheet@),
        named_sheet_loaded(*old(wb), sheet@),
    ensures
        workbook_sheets(*final(wb)) == workbook_sheets(*old(wb)),
        loaded_kept(*old(wb), *final(wb)),
        value_read(*old(wb), *final(wb), sheet@, column, row, res@),
{
    wb.sheet_by_name_mut(sheet).unwrap().cell_mut((column, row)).value().to_string()
}

/// `Cell::set_value_string` on the cell that `Worksheet::cell_mut` gives
/// for `(column, row)` on the first sheet named `sheet`: the value becomes
/// `text` and the style stays.
#[verifier::external_body]
pub(crate) fn set_value_string(wb: &mut umya_spreadsheet::Workbook, sheet: &str, column: u32, row: u32, text: &str)
    requires
        has_sheet(workbook_sheets(*old(wb)), sheet@),
        named_sheet_loaded(*old(wb), sheet@),
    ensures
        workbook_sheets(*final(wb)) == workbook_sheets(*old(wb)),
        loaded_kept(*old(wb), *final(wb)),
        value_written(*old(wb), *final(wb), sheet@, column, row, text@),
{
    wb.sheet_by_name_mut(sheet).unwrap().cell_mut((column, row)).set_value_string(text);
}

/// `FontName::set_val` on `Style::font_mut` of the cell that
/// `Worksheet::cell_mut` gives; `font_mut` starts from the default font
/// when the style has none.
#[verifier::external_body]
pub(crate) fn set_font_name(wb: &mut umya_spreadsheet::Workbook, sheet: &str, column: u32, row: u32, name: &str)
    requires
        has_sheet(workbook_sheets(*old(wb)), sheet@),
        named_sheet_loaded(*old(wb), sheet@),
    ensures
        workbook_sheets(*final(wb)) == workbook_sheets(*old(wb)),
        loaded_kept(*old(wb), *final(wb)),
        font_edited(
            workbook_cells(*old(wb)),
            workbook_cells(*final(wb)),
            cell_key(workbook_sheets(*old(wb)), sheet@, column, row),
            |f: FontFacts| (name@, f.1, f.2, f.3),
            |f: FontFacts| f.0 == name@,
        ),
{
    wb.sheet_by_name_mut(sheet).unwrap().cell_mut((column, row)).style_mut().font_mut().font_name_mut().set_val(name);
}

/// `Bold::set_val` on `Style::font_mut` of the cell that
/// `Worksheet::cell_mut` gives.
#[verifier::external_body]
pub(crate) fn set_font_bold(wb: &mut umya_spreadsheet::Workbook, sheet: &str, column: u32, row: u32, on: bool)
    requires
        has_sheet(workbook_sheets(*old(wb)), sheet@),
        named_sheet_loaded(*old(wb), sheet@),
    ensures
        workbook_sheets(*final(wb)) == workbook_sheets(*old(wb)),
        loaded_kept(*old(wb), *final(wb)),
        font_edited(
            workbook_cells(*old(wb)),
            workbook_cells(*final(wb)),
            cell_key(workbook_sheets(*old(wb)), sheet@, column, row),
            |f: FontFacts| (f.0, on, f.2, f.3),
            |f: FontFacts| f.1 == on,
        ),
{
    wb.sheet_by_name_mut(sheet).unwrap().cell_mut((column, row)).style_mut().font_mut().font_bold_mut().set_val(on);
}

/// `Italic::set_val` on `Style::font_mut` of the cell that
/// `Worksheet::cell_mut` gives.
#[verifier::external_body]
pub(crate) fn set_font_italic(wb: &mut umya_spreadsheet::Workbook, sheet: &str, column: u32, row: u32, on: bool)
    requires
        has_sheet(workbook_sheets(*old(wb)), sheet@),
        named_sheet_loaded(*old(wb), sheet@),
    ensures
        workbook_sheets(*final(wb)) == workbook_sheets(*old(wb)),
        loaded_kept(*old(wb), *final(wb)),
        font_edited(
            workbook_cells(*old(wb)),
            workbook_cells(*final(wb)),
            cell_key(workbook_sheets(*old(wb)), sheet@, column, row),
            |f: FontFacts| (f.0, f.1, on, f.3),
            |f: FontFacts| f.2 == on,
        ),
{
    wb.sheet_by_name_mut(sheet).unwrap().cell_mut((column, row)).style_mut().font_mut().font_italic_mut().set_val(on);
}

/// `Strike::set_val` on `Style::font_mut` of the cell that
/// `Worksheet::cell_mut` gives.
#[verifier::external_body]
pub(crate) fn set_font_strike(wb: &mut umya_spreadsheet::Workbook, sheet: &str, column: u32, row: u32, on: bool)
    requires
        has_sheet(workbook_sheets(*old(wb)), sheet@),
        named_sheet_loaded(*old(wb), sheet@),
    ensures
        workbook_sheets(*final(wb)) == workbook_sheets(*old(wb)),
        loaded_kept(*old(wb), *final(wb)),
        font_edited(
            workbook_cells(*old(wb)),
            workbook_cells(*final(wb)),
            cell_key(workbook_sheets(*old(wb)), sheet@, column, row),
            |f: FontFacts| (f.0, f.1, f.2, on),
            |f: FontFacts| f.3 == on,
        ),
{
    wb.sheet_by_name_mut(sheet).unwrap().cell_mut((column, row)).style_mut().font_mut().font_strike_mut().set_val(on);
}

/// What `Color::argb_with_theme` gives for a color and a theme.
pub uninterp spec fn argb_text(color: umya_spreadsheet::Color, theme: umya_spreadsheet::drawing::Theme) -> Seq<char>;

/// The bits of the tint that `Color::tint` gives (0 when the color has none).
pub uninterp spec fn tint_bits(color: umya_spreadsheet::Color) -> u64;

/// What `Color::theme_index` gives (0 when the color has none).
pub uninterp spec fn theme_index_of(color: umya_spreadsheet::Color) -> u32;

/// The theme's color texts, `ColorScheme::color_map` of its elements.
pub uninterp spec fn theme_colors(theme: umya_spreadsheet::drawing::Theme) -> Seq<Seq<char>>;

/// A tint whose magnitude is below 2^23 (NaN and infinities are not): a
/// luminance moved by it fits in an `i32`.
pub open spec fn tint_is_moderate(bits: u64) -> bool {
    bits % 0x8000_0000_0000_0000 < 0x4160_0000_0000_0000
}

/// An ASCII hexadecimal digit.
pub open spec fn is_hex_digit(c: char) -> bool {
    ('0' <= c && c <= '9') || ('a' <= c && c <= 'f') || ('A' <= c && c <= 'F')
}

/// Text that starts with six hexadecimal digits, as `RRGGBB`.
pub open spec fn starts_with_rgb(text: Seq<char>) -> bool {
    text.len() >= 6 && forall|i: int| 0 <= i < 6 ==> #[trigger] is_hex_digit(text[i])
}

/// A color that `Color::argb_with_theme` resolves without panicking: its
/// tint is moderate, and the theme color it may name is `RRGGBB` text.
/// (This asks a little more than the function needs: it also asks it of a
/// color that names no theme color or has no tint.)
pub open spec fn color_resolvable(color: umya_spreadsheet::Color, theme: umya_spreadsheet::drawing::Theme) -> bool {
    let index = theme_index_of(color) as int;
    let colors = theme_colors(theme);
    &&& tint_is_moderate(tint_bits(color))
    &&& index < colors.len() ==> starts_with_rgb(colors[index])
}

/// `Color::tint`, by the bits of the float.
#[verifier::external_body]
pub(crate) fn color_tint_bits(color: &umya_spreadsheet::Color) -> (res: u64)
    ensures
        res == tint_bits(*color),
{
    color.tint().to_bits()
}

/// `Color::theme_index`.
#[verifier::external_body]
pub(crate) fn color_theme_index(color: &umya_spreadsheet::Color) -> (res: u32)
    ensures
        res == theme_index_of(*color),
{
    color.theme_index()
}

/// `ColorScheme::color_map` of the theme's elements.
#[verifier::external_body]
pub(crate) fn theme_color_map(theme: &umya_spreadsheet::drawing::Theme) -> (res: Vec<String>)
    ensures
        res.deep_view() == theme_colors(*theme),
{
    theme.theme_elements().color_scheme().color_map()
}

/// `Color::argb_with_theme`: the color as hex text, resolved against the
/// theme. A themed color with a tint goes through an `i32` cast that
/// panics on a tint out of range, and through a split of the theme's
/// `RRGGBB` text that panics on other text; `requires` rules both out.
#[verifier::external_body]
pub(crate) fn argb_with_theme(color: &umya_spreadsheet::Color, theme: &umya_spreadsheet::drawing::Theme) -> (res: String)
    requires
        color_resolvable(*color, *theme),
    ensures
        res@ == argb_text(*color, *theme),
{
    color.argb_with_theme(theme).to_string()
}

/// `Workbook::sheet` at `index` succeeds: the sheet is parsed.
#[verifier::external_body]
pub(crate) fn sheet_loaded(wb: &umya_spreadsheet::Workbook, index: usize) -> (res: bool)
    requires
        index < workbook_sheets(*wb).len(),
    ensures
        res == sheet_is_loaded(*wb, index as int),
{
    wb.sheet(index).is_ok()
}

/// The texts list the cells of the sheet at `index`, each once: every
/// entry is such a cell, by column, row and displayed value, and every such
/// cell has an entry.
pub open spec fn texts_of_sheet(cells: Map<CellKey, CellFacts>, index: int, texts: Seq<CellText>) -> bool {
    &&& forall|i: int, j: int| 0 <= i < j < texts.len() ==>
        (#[trigger] texts[i].column, texts[i].row) != (#[trigger] texts[j].column, texts[j].row)
    &&& forall|i: int| 0 <= i < texts.len() ==> {
        let key: CellKey = (index, (#[trigger] texts[i]).column, texts[i].row);
        cells.contains_key(key) && cells[key].0 == texts[i].text@
    }
    &&& forall|k: CellKey| #[trigger] cells.contains_key(k) && k.0 == index ==>
        exists|i: int| 0 <= i < texts.len() && (#[trigger] texts[i]).column == k.1 && texts[i].row == k.2
}

/// `Worksheet::cells` of the parsed sheet at `index`, each cell by its
/// coordinate's column and row and its `Cell::value`. A sheet holds its
/// cells in a map keyed by coordinate, so each appears once; the order is
/// not stated.
#[verifier::external_body]
pub(crate) fn sheet_cell_texts(wb: &umya_spreadsheet::Workbook, index: usize) -> (res: Vec<CellText>)
    requires
        index < workbook_sheets(*wb).len(),
        sheet_is_loaded(*wb, index as int),
    ensures
        texts_of_sheet(workbook_cells(*wb), index as int, res@),
{
    wb.sheet_collection_no_check()[index]
        .cells()
        .into_iter()
        .map(|cell| CellText {
            row: cell.coordinate().row_num(),
            column: cell.coordinate().col_num(),
            text: cell.value().to_string(),
        })
        .collect()
}

} // verus!
