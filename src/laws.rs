use crate::geometry::CellScale;
use crate::table::{
    all_in_block, block_cells, distinct_places, growth_cells, has_place, inside,
    lemma_block_cells, lemma_block_empty, lemma_cells_resize_same, lemma_filter_keeps_all,
    lemma_resize_wf, resized_cells, Cell,
};
use vstd::prelude::*;

verus! {

/// Resizing a table's cells twice to the same size changes nothing after
/// the first time: no cell is created twice and none is removed twice.
pub proof fn lemma_resize_idempotent(
    cells: Seq<Cell>,
    r0: int,
    c0: int,
    r1: int,
    c1: int,
    scale: CellScale,
)
    requires
        0 <= r0 <= u32::MAX,
        0 <= c0 <= u32::MAX,
        0 <= r1 <= u32::MAX,
        0 <= c1 <= u32::MAX,
        all_in_block(cells, 0, r0, 0, c0),
        distinct_places(cells),
        forall|r: int, c: int| 0 <= r < r0 && 0 <= c < c0 ==> #[trigger] has_place(cells, r, c),
    ensures
        resized_cells(resized_cells(cells, r0, c0, r1, c1, scale), r1, c1, r1, c1, scale)
            == resized_cells(cells, r0, c0, r1, c1, scale),
{
    lemma_resize_wf(cells, r0, c0, r1, c1, scale);
    lemma_cells_resize_same(resized_cells(cells, r0, c0, r1, c1, scale), r1, c1, scale);
}

/// No cell that a growth adds lies inside the grid it grew from.
proof fn lemma_growth_outside(r0: int, c0: int, r1: int, c1: int, scale: CellScale)
    requires
        0 <= r0 <= r1 <= u32::MAX,
        0 <= c0 <= c1 <= u32::MAX,
    ensures
        forall|i: int|
            0 <= i < growth_cells(r0, c0, r1, c1, scale).len() ==> !(#[trigger] growth_cells(
                r0,
                c0,
                r1,
                c1,
                scale,
            )[i].row < r0 && growth_cells(r0, c0, r1, c1, scale)[i].column < c0),
{
    reveal(growth_cells);
    let g1 = block_cells(r0, r1, 0, c0, scale);
    let g2 = block_cells(0, r0, c0, c1, scale);
    let g3 = block_cells(r0, r1, c0, c1, scale);
    let g = growth_cells(r0, c0, r1, c1, scale);
    assert(g == g1 + g2 + g3);
    lemma_block_cells(r0, r1, 0, c0, scale);
    lemma_block_cells(0, r0, c0, c1, scale);
    lemma_block_cells(r0, r1, c0, c1, scale);
    assert forall|i: int| 0 <= i < g.len() implies !(#[trigger] g[i].row < r0 && g[i].column
        < c0) by {
        if i < g1.len() {
            assert(g[i] == g1[i]);
        } else if i < g1.len() + g2.len() {
            assert(g[i] == g2[i - g1.len()]);
        } else {
            assert(g[i] == g3[i - g1.len() - g2.len()]);
        }
    }
}

/// A filter that no element passes keeps nothing.
proof fn lemma_filter_drops_all(s: Seq<Cell>, rows: int, columns: int)
    requires
        forall|i: int| 0 <= i < s.len() ==> !(#[trigger] s[i].row < rows && s[i].column < columns),
    ensures
        s.filter(inside(rows, columns)) == Seq::<Cell>::empty(),
    decreases s.len(),
{
    if s.len() > 0 {
        let t = s.drop_last();
        assert(s =~= t.push(s.last()));
        assert forall|i: int| 0 <= i < t.len() implies !(#[trigger] t[i].row < rows && t[i].column
            < columns) by {
            assert(t[i] == s[i]);
        }
        lemma_filter_drops_all(t, rows, columns);
        t.lemma_filter_push(s.last(), inside(rows, columns));
        assert(s[s.len() - 1] == s.last());
    } else {
        assert(s.filter(inside(rows, columns)) =~= Seq::<Cell>::empty()) by {
            reveal(Seq::filter);
        }
    }
}

/// Shrinking in both directions adds no cell.
proof fn lemma_no_growth_when_shrinking(r0: int, c0: int, r1: int, c1: int, scale: CellScale)
    requires
        0 <= r0 <= r1 <= u32::MAX,
        0 <= c0 <= c1 <= u32::MAX,
    ensures
        growth_cells(r1, c1, r0, c0, scale) == Seq::<Cell>::empty(),
{
    reveal(growth_cells);
    lemma_block_empty(r1, r0, 0, c0, scale);
    lemma_block_empty(0, r0, c1, c0, scale);
    lemma_block_empty(r1, r0, c1, c0, scale);
    assert(growth_cells(r1, c1, r0, c0, scale) =~= Seq::<Cell>::empty());
}

/// Growing keeps every cell in place and appends the new ones.
proof fn lemma_grow_keeps_prefix(
    cells: Seq<Cell>,
    r0: int,
    c0: int,
    r1: int,
    c1: int,
    scale: CellScale,
)
    requires
        0 <= r0 <= r1 <= u32::MAX,
        0 <= c0 <= c1 <= u32::MAX,
        all_in_block(cells, 0, r0, 0, c0),
    ensures
        resized_cells(cells, r0, c0, r1, c1, scale) == cells + growth_cells(r0, c0, r1, c1, scale),
{
    reveal(resized_cells);
    let g = growth_cells(r0, c0, r1, c1, scale);
    assert(all_in_block(cells, 0, r1, 0, c1));
    lemma_filter_keeps_all(cells, r1, c1);
}

/// Filtering a grown sequence by the old grid drops exactly what was added.
proof fn lemma_shrink_drops_growth(
    cells: Seq<Cell>,
    r0: int,
    c0: int,
    r1: int,
    c1: int,
    scale: CellScale,
)
    requires
        0 <= r0 <= r1 <= u32::MAX,
        0 <= c0 <= c1 <= u32::MAX,
        all_in_block(cells, 0, r0, 0, c0),
    ensures
        (cells + growth_cells(r0, c0, r1, c1, scale)).filter(inside(r0, c0)) == cells,
{
    let g = growth_cells(r0, c0, r1, c1, scale);
    lemma_filter_keeps_all(cells, r0, c0);
    Seq::filter_distributes_over_add(cells, g, inside(r0, c0));
    lemma_growth_outside(r0, c0, r1, c1, scale);
    lemma_filter_drops_all(g, r0, c0);
    assert(cells + Seq::<Cell>::empty() =~= cells);
}

/// Growing a table's cells to a larger size and shrinking them back gives
/// back the same cells, in the same order.
pub proof fn lemma_grow_then_shrink_back(
    cells: Seq<Cell>,
    r0: int,
    c0: int,
    r1: int,
    c1: int,
    scale: CellScale,
)
    requires
        0 <= r0 <= r1 <= u32::MAX,
        0 <= c0 <= c1 <= u32::MAX,
        all_in_block(cells, 0, r0, 0, c0),
    ensures
        resized_cells(resized_cells(cells, r0, c0, r1, c1, scale), r1, c1, r0, c0, scale) == cells,
{
    let x = resized_cells(cells, r0, c0, r1, c1, scale);
    lemma_grow_keeps_prefix(cells, r0, c0, r1, c1, scale);
    lemma_shrink_drops_growth(cells, r0, c0, r1, c1, scale);
    lemma_no_growth_when_shrinking(r0, c0, r1, c1, scale);
    assert(x.filter(inside(r0, c0)) == cells);
    assert(resized_cells(x, r1, c1, r0, c0, scale) =~= cells) by {
        reveal(resized_cells);
    }
}

} // verus!
