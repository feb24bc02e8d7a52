//! A grid of cell texts grouped by row, then by column: the shape the first
//! frontend protocol sends and receives.

use vstd::prelude::*;

verus! {

/// The map that a sequence of (key, value) pairs builds, a later pair
/// overriding an earlier one with the same key.
pub open spec fn assoc<V>(pairs: Seq<(u32, V)>) -> Map<u32, V>
    decreases pairs.len(),
{
    if pairs.len() == 0 {
        Map::empty()
    } else {
        assoc(pairs.drop_last()).insert(pairs.last().0, pairs.last().1)
    }
}

/// No key occurs twice.
pub open spec fn keys_distinct<V>(pairs: Seq<(u32, V)>) -> bool {
    forall|i: int, j: int| 0 <= i < j < pairs.len() ==> #[trigger] pairs[i].0 != #[trigger] pairs[j].0
}

proof fn lemma_distinct_init<V>(pairs: Seq<(u32, V)>)
    requires
        keys_distinct(pairs),
        pairs.len() > 0,
    ensures
        keys_distinct(pairs.drop_last()),
{
    let init = pairs.drop_last();
    assert forall|a: int, b: int| 0 <= a < b < init.len() implies #[trigger] init[a].0 != #[trigger] init[b].0 by {
        assert(init[a] == pairs[a] && init[b] == pairs[b]);
    }
}

pub proof fn lemma_assoc_lookup<V>(pairs: Seq<(u32, V)>, i: int)
    requires
        keys_distinct(pairs),
        0 <= i < pairs.len(),
    ensures
        assoc(pairs).contains_key(pairs[i].0),
        assoc(pairs)[pairs[i].0] == pairs[i].1,
    decreases pairs.len(),
{
    if i < pairs.len() - 1 {
        let init = pairs.drop_last();
        assert(init[i] == pairs[i]);
        lemma_distinct_init(pairs);
        lemma_assoc_lookup(init, i);
        assert(pairs[i].0 != pairs[pairs.len() - 1].0);
    }
}

pub proof fn lemma_assoc_absent<V>(pairs: Seq<(u32, V)>, key: u32)
    requires
        forall|i: int| 0 <= i < pairs.len() ==> #[trigger] pairs[i].0 != key,
    ensures
        !assoc(pairs).contains_key(key),
    decreases pairs.len(),
{
    if pairs.len() > 0 {
        let init = pairs.drop_last();
        assert forall|i: int| 0 <= i < init.len() implies #[trigger] init[i].0 != key by {
            assert(init[i] == pairs[i]);
        }
        lemma_assoc_absent(init, key);
    }
}

pub proof fn lemma_assoc_update<V>(pairs: Seq<(u32, V)>, i: int, v: V)
    requires
        keys_distinct(pairs),
        0 <= i < pairs.len(),
    ensures
        assoc(pairs.update(i, (pairs[i].0, v))) == assoc(pairs).insert(pairs[i].0, v),
        keys_distinct(pairs.update(i, (pairs[i].0, v))),
    decreases pairs.len(),
{
    let updated = pairs.update(i, (pairs[i].0, v));
    let init = pairs.drop_last();
    lemma_distinct_init(pairs);
    assert forall|a: int, b: int| 0 <= a < b < updated.len() implies #[trigger] updated[a].0 != #[trigger] updated[b].0 by {
        assert(updated[a].0 == pairs[a].0 && updated[b].0 == pairs[b].0);
    }
    if i == pairs.len() - 1 {
        assert(updated.drop_last() =~= init);
        assert(assoc(updated) =~= assoc(pairs).insert(pairs[i].0, v));
    } else {
        assert(updated.drop_last() =~= init.update(i, (pairs[i].0, v)));
        assert(init[i] == pairs[i]);
        lemma_assoc_update(init, i, v);
        assert(pairs[i].0 != pairs.last().0);
        assert(updated.last() == pairs.last());
        assert(assoc(updated) =~= assoc(pairs).insert(pairs[i].0, v));
    }
}

/// A cell's text at a zero-based column.
#[derive(Debug)]
pub struct GridCell {
    pub column: u32,
    pub text: String,
}

/// The cells of a zero-based row.
#[derive(Debug)]
pub struct GridRow {
    pub row: u32,
    pub cells: Vec<GridCell>,
}

/// The cells of a row, by column.
pub open spec fn cells_pairs(cells: Seq<GridCell>) -> Seq<(u32, Seq<char>)> {
    cells.map_values(|c: GridCell| (c.column, c.text@))
}

/// The rows of a grid, by row.
pub open spec fn rows_pairs(rows: Seq<GridRow>) -> Seq<(u32, Map<u32, Seq<char>>)> {
    rows.map_values(|r: GridRow| (r.row, assoc(cells_pairs(r.cells@))))
}

/// A grid as the map from row to the map from column to text.
pub open spec fn grid_view(rows: Seq<GridRow>) -> Map<u32, Map<u32, Seq<char>>> {
    assoc(rows_pairs(rows))
}

/// Each row occurs once, and each column once within its row.
pub open spec fn grid_wf(rows: Seq<GridRow>) -> bool {
    &&& keys_distinct(rows_pairs(rows))
    &&& forall|i: int| 0 <= i < rows.len() ==> keys_distinct(cells_pairs(#[trigger] rows[i].cells@))
}

/// A cell's text at a one-based row and column.
#[derive(Debug)]
pub struct CellText {
    pub row: u32,
    pub column: u32,
    pub text: String,
}

/// The grid that cells give: every cell at its zero-based row and column,
/// the first cell at a place winning over later ones.
pub open spec fn grid_of(cells: Seq<CellText>) -> Map<u32, Map<u32, Seq<char>>>
    decreases cells.len(),
{
    if cells.len() == 0 {
        Map::empty()
    } else {
        let g = grid_of(cells.drop_last());
        let r = (cells.last().row - 1) as u32;
        let c = (cells.last().column - 1) as u32;
        if g.contains_key(r) {
            if g[r].contains_key(c) {
                g
            } else {
                g.insert(r, g[r].insert(c, cells.last().text@))
            }
        } else {
            g.insert(r, Map::empty().insert(c, cells.last().text@))
        }
    }
}

/// Coordinates are one-based.
pub open spec fn one_based(cells: Seq<CellText>) -> bool {
    forall|i: int| 0 <= i < cells.len() ==> (#[trigger] cells[i]).row >= 1 && cells[i].column >= 1
}

/// Whether every cell sits at a one-based place.
pub fn is_one_based(cells: &Vec<CellText>) -> (res: bool)
    ensures
        res == one_based(cells@),
{
    let mut i: usize = 0;
    while i < cells.len()
        invariant
            i <= cells@.len(),
            forall|k: int| 0 <= k < i ==> (#[trigger] cells@[k]).row >= 1 && cells@[k].column >= 1,
        decreases cells@.len() - i,
    {
        if cells[i].row < 1 || cells[i].column < 1 {
            return false;
        }
        i = i + 1;
    }
    true
}

/// No two cells share a place.
pub open spec fn places_distinct(cells: Seq<CellText>) -> bool {
    forall|i: int, j: int| 0 <= i < j < cells.len() ==>
        (#[trigger] cells[i].column, cells[i].row) != (#[trigger] cells[j].column, cells[j].row)
}

/// Cells with distinct places each show in the grid they give, at their
/// zero-based place, and the grid shows nothing else.
pub proof fn lemma_grid_of_places(cells: Seq<CellText>)
    requires
        one_based(cells),
        places_distinct(cells),
    ensures
        forall|i: int| 0 <= i < cells.len() ==> {
            let r = ((#[trigger] cells[i]).row - 1) as u32;
            let c = (cells[i].column - 1) as u32;
            &&& grid_of(cells).contains_key(r)
            &&& grid_of(cells)[r].contains_key(c)
            &&& grid_of(cells)[r][c] == cells[i].text@
        },
        forall|r: u32, c: u32| grid_of(cells).contains_key(r) && #[trigger] grid_of(cells)[r].contains_key(c) ==>
            exists|i: int| 0 <= i < cells.len() && (#[trigger] cells[i]).row == r + 1 && cells[i].column == c + 1,
    decreases cells.len(),
{
    if cells.len() > 0 {
        let init = cells.drop_last();
        assert forall|i: int, j: int| 0 <= i < j < init.len() implies
            (#[trigger] init[i].column, init[i].row) != (#[trigger] init[j].column, init[j].row) by {
            assert(init[i] == cells[i] && init[j] == cells[j]);
        }
        assert forall|i: int| 0 <= i < init.len() implies (#[trigger] init[i]).row >= 1 && init[i].column >= 1 by {
            assert(init[i] == cells[i]);
        }
        lemma_grid_of_places(init);
        let g = grid_of(init);
        let last = cells.last();
        let n = cells.len() - 1;
        assert(cells[n] == last);
        let r0 = (last.row - 1) as u32;
        let c0 = (last.column - 1) as u32;
        if g.contains_key(r0) && g[r0].contains_key(c0) {
            let i = choose|i: int| 0 <= i < init.len() && (#[trigger] init[i]).row == r0 + 1 && init[i].column == c0 + 1;
            assert(init[i] == cells[i]);
            assert((cells[i].column, cells[i].row) != (cells[n].column, cells[n].row));
            assert(false);
        }
        let full = grid_of(cells);
        assert forall|i: int| 0 <= i < cells.len() implies {
            let r = ((#[trigger] cells[i]).row - 1) as u32;
            let c = (cells[i].column - 1) as u32;
            &&& full.contains_key(r)
            &&& full[r].contains_key(c)
            &&& full[r][c] == cells[i].text@
        } by {
            if i < n {
                assert(init[i] == cells[i]);
                assert((cells[i].column, cells[i].row) != (cells[n].column, cells[n].row));
            }
        }
        assert forall|r: u32, c: u32| full.contains_key(r) && #[trigger] full[r].contains_key(c) implies
            exists|i: int| 0 <= i < cells.len() && (#[trigger] cells[i]).row == r + 1 && cells[i].column == c + 1 by {
            if r == r0 && c == c0 {
                assert(cells[n].row == r + 1 && cells[n].column == c + 1);
            } else {
                assert(g.contains_key(r) && g[r].contains_key(c));
                let i = choose|i: int| 0 <= i < init.len() && (#[trigger] init[i]).row == r + 1 && init[i].column == c + 1;
                assert(cells[i] == init[i]);
            }
        }
    }
}

/// Groups cells by row, then by column, the first cell at a place winning.
pub fn group_rows(cells: &Vec<CellText>) -> (res: Vec<GridRow>)
    requires
        one_based(cells@),
    ensures
        grid_wf(res@),
        grid_view(res@) == grid_of(cells@),
{
    let mut rows: Vec<GridRow> = Vec::new();
    let n = cells.len();
    let mut k: usize = 0;
    assert(cells@.take(0) =~= Seq::<CellText>::empty());
    assert(rows_pairs(rows@) =~= Seq::<(u32, Map<u32, Seq<char>>)>::empty());
    while k < n
        invariant
            n == cells@.len(),
            k <= n,
            one_based(cells@),
            grid_wf(rows@),
            grid_view(rows@) == grid_of(cells@.take(k as int)),
        decreases n - k,
    {
        let cell = &cells[k];
        assert(cells@.take(k + 1).drop_last() =~= cells@.take(k as int));
        assert(cells@.take(k + 1).last() == cells@[k as int]);
        let r = cell.row - 1;
        let c = cell.column - 1;
        let ghost g = grid_view(rows@);
        // Find the row.
        let mut i: usize = 0;
        while i < rows.len()
            invariant
                i <= rows@.len(),
                forall|j: int| 0 <= j < i ==> #[trigger] rows@[j].row != r,
            ensures
                i <= rows@.len(),
                i < rows@.len() ==> rows@[i as int].row == r,
                forall|j: int| 0 <= j < i ==> #[trigger] rows@[j].row != r,
            decreases rows@.len() - i,
        {
            if rows[i].row == r {
                break;
            }
            i = i + 1;
        }
        if i == rows.len() {
            proof {
                assert forall|j: int| 0 <= j < rows_pairs(rows@).len() implies #[trigger] rows_pairs(rows@)[j].0 != r by {
                    assert(rows_pairs(rows@)[j].0 == rows@[j].row);
                }
                lemma_assoc_absent(rows_pairs(rows@), r);
            }
            let mut row_cells: Vec<GridCell> = Vec::new();
            row_cells.push(GridCell { column: c, text: cell.text.clone() });
            let new_row = GridRow { row: r, cells: row_cells };
            let ghost before = rows@;
            proof {
                assert(cells_pairs(new_row.cells@) =~= seq![(c, cell.text@)]);
                assert(cells_pairs(new_row.cells@).drop_last() =~= Seq::<(u32, Seq<char>)>::empty());
                assert(assoc(Seq::<(u32, Seq<char>)>::empty()) == Map::<u32, Seq<char>>::empty());
                assert(assoc(cells_pairs(new_row.cells@)) =~= Map::<u32, Seq<char>>::empty().insert(c, cell.text@));
            }
            rows.push(new_row);
            proof {
                assert(rows_pairs(rows@) =~= rows_pairs(before).push((r, assoc(cells_pairs(new_row.cells@)))));
                assert(rows_pairs(rows@).drop_last() =~= rows_pairs(before));
                assert forall|a: int, b: int| 0 <= a < b < rows_pairs(rows@).len()
                    implies #[trigger] rows_pairs(rows@)[a].0 != #[trigger] rows_pairs(rows@)[b].0 by {
                    if b == before.len() {
                        assert(rows_pairs(rows@)[a].0 == before[a].row);
                    } else {
                        assert(rows_pairs(rows@)[a] == rows_pairs(before)[a]);
                        assert(rows_pairs(rows@)[b] == rows_pairs(before)[b]);
                    }
                }
                assert forall|j: int| 0 <= j < rows@.len() implies keys_distinct(cells_pairs(#[trigger] rows@[j].cells@)) by {
                    if j < before.len() {
                        assert(rows@[j] == before[j]);
                    }
                }
            }
        } else {
            let ghost row_index = i as int;
            proof {
                assert(rows_pairs(rows@)[row_index].0 == r);
                lemma_assoc_lookup(rows_pairs(rows@), row_index);
            }
            // Find the column.
            let mut j: usize = 0;
            let mut found = false;
            while j < rows[i].cells.len() && !found
                invariant
                    i < rows@.len(),
                    j <= rows@[i as int].cells@.len(),
                    found ==> j < rows@[i as int].cells@.len() && rows@[i as int].cells@[j as int].column == c,
                    !found ==> forall|m: int| 0 <= m < j ==> #[trigger] rows@[i as int].cells@[m].column != c,
                decreases rows@[i as int].cells@.len() - j, if found { 0int } else { 1int },
            {
                if rows[i].cells[j].column == c {
                    found = true;
                } else {
                    j = j + 1;
                }
            }
            let ghost old_cells = rows@[row_index].cells@;
            if found {
                proof {
                    let m = j as int;
                    assert(cells_pairs(old_cells)[m].0 == c);
                    lemma_assoc_lookup(cells_pairs(old_cells), m);
                }
            } else {
                proof {
                    assert forall|m: int| 0 <= m < cells_pairs(old_cells).len() implies #[trigger] cells_pairs(old_cells)[m].0 != c by {
                        assert(cells_pairs(old_cells)[m].0 == old_cells[m].column);
                    }
                    lemma_assoc_absent(cells_pairs(old_cells), c);
                }
                let ghost before = rows@;
                let mut row = rows.remove(i);
                assert(row == before[row_index]);
                row.cells.push(GridCell { column: c, text: cell.text.clone() });
                proof {
                    let new_pairs = cells_pairs(row.cells@);
                    assert(new_pairs =~= cells_pairs(old_cells).push((c, cell.text@)));
                    assert(new_pairs.drop_last() =~= cells_pairs(old_cells));
                    assert(keys_distinct(new_pairs)) by {
                        assert forall|a: int, b: int| 0 <= a < b < new_pairs.len()
                            implies #[trigger] new_pairs[a].0 != #[trigger] new_pairs[b].0 by {
                            if b == old_cells.len() {
                                assert(new_pairs[a].0 == old_cells[a].column);
                            } else {
                                assert(new_pairs[a] == cells_pairs(old_cells)[a]);
                                assert(new_pairs[b] == cells_pairs(old_cells)[b]);
                            }
                        }
                    }
                    lemma_assoc_update(rows_pairs(before), row_index, assoc(new_pairs));
                }
                rows.insert(i, row);
                proof {
                    assert(rows@ =~= before.update(row_index, row));
                    assert(rows_pairs(rows@) =~= rows_pairs(before).update(row_index,
                        (rows_pairs(before)[row_index].0, assoc(cells_pairs(row.cells@)))));
                    assert forall|m: int| 0 <= m < rows@.len() implies keys_distinct(cells_pairs(#[trigger] rows@[m].cells@)) by {
                        if m != row_index {
                            assert(rows@[m] == before[m]);
                        }
                    }
                }
            }
        }
        k = k + 1;
    }
    assert(cells@.take(n as int) =~= cells@);
    rows
}

} // verus!
