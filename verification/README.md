# spreadsheet

The core of a desktop spreadsheet editor: a browser grid (fortune-sheet, and
before it x-spreadsheet) edits xlsx workbooks held by umya-spreadsheet.

`src/` is the library, verified with Verus:

- `json` — the JSON values the frontend sends, as plain data.
- `model` — the frontend's operations and the sheet shapes it renders.
- `workbook` — the workbook as umya-spreadsheet holds it: its sheets and the
  facts of its cells, and the calls made on it. Edits reach parsed sheets
  only; `app/` parses what a lazy read left as raw XML before it edits.
- `ops` — how each frontend operation changes the workbook, or why it is
  refused; edits that need floating-point arithmetic are handed back.
- `serialize`, `color` — rendering cells and colors for the frontend.
- `state`, `sheet_map` — the open workbook and the map from sheet ids to names.
- `grid`, `legacy` — the first frontend protocol: rows of cells, and payloads
  of cell texts.
- `text` — decimal rendering and parsing, string comparison.
- `laws` — properties that span the functions above.

`app/` is the Tauri application around it: commands, file I/O, serde
conversions, and the floating-point edits. `tests/` exercises the library.
