use crate::actions::Actions;
use crate::geometry::{columns_between, columns_for, rows_between, rows_for, CellScale, Point};
use vstd::prelude::*;

verus! {

/// One cell of a table: its grid coordinate and the offset of its centre
/// from the table's anchor (x rightward, y upward; cells lie below the anchor).
#[derive(Clone, Copy, Debug, PartialEq, Eq, Structural)]
pub struct Cell {
    pub row: u32,
    pub column: u32,
    pub offset_x: i128,
    pub offset_y: i128,
}

impl Cell {
    /// The cell at `(row, column)` for a uniform cell size. Its centre lies
    /// half a cell into the cell (halves round down for odd sizes).
    pub open spec fn at(row: int, column: int, scale: CellScale) -> Cell {
        Cell {
            row: row as u32,
            column: column as u32,
            offset_x: (column * scale.width + scale.width / 2) as i128,
            offset_y: (-(row * scale.height + scale.height / 2)) as i128,
        }
    }

    pub fn new(row: u32, column: u32, scale: CellScale) -> (r: Cell)
        ensures
            r == Cell::at(row as int, column as int, scale),
    {
        let w = scale.width as i128;
        let h = scale.height as i128;
        assert((column as int) * (w as int) <= 0xffff_ffff * 0xffff_ffff) by (nonlinear_arith)
            requires
                column <= 0xffff_ffff,
                0 <= w <= 0xffff_ffff,
        ;
        assert((row as int) * (h as int) <= 0xffff_ffff * 0xffff_ffff) by (nonlinear_arith)
            requires
                row <= 0xffff_ffff,
                0 <= h <= 0xffff_ffff,
        ;
        Cell {
            row,
            column,
            offset_x: column as i128 * w + w / 2,
            offset_y: -(row as i128 * h + h / 2),
        }
    }
}

/// Two cells stand at the same grid coordinate.
pub open spec fn same_place(a: Cell, b: Cell) -> bool {
    a.row == b.row && a.column == b.column
}

/// No two cells of `s` share a coordinate.
pub open spec fn distinct_places(s: Seq<Cell>) -> bool {
    forall|i: int, j: int|
        0 <= i < s.len() && 0 <= j < s.len() && i != j ==> !same_place(#[trigger] s[i], #[trigger] s[j])
}

/// Some cell of `s` stands at `(r, c)`.
pub open spec fn has_place(s: Seq<Cell>, r: int, c: int) -> bool {
    exists|i: int| 0 <= i < s.len() && s[i].row == r && s[i].column == c
}

/// Every cell of `s` lies in rows `r_lo..r_hi` and columns `c_lo..c_hi`.
pub open spec fn all_in_block(s: Seq<Cell>, r_lo: int, r_hi: int, c_lo: int, c_hi: int) -> bool {
    forall|i: int|
        0 <= i < s.len() ==> r_lo <= (#[trigger] s[i]).row < r_hi && c_lo <= s[i].column < c_hi
}

/// The cells of row `r`, columns `c_lo..c_hi`, left to right.
pub open spec fn row_cells(r: int, c_lo: int, c_hi: int, scale: CellScale) -> Seq<Cell>
    decreases c_hi - c_lo,
{
    if c_hi <= c_lo {
        Seq::empty()
    } else {
        row_cells(r, c_lo, c_hi - 1, scale).push(Cell::at(r, c_hi - 1, scale))
    }
}

/// The cells of rows `r_lo..r_hi` and columns `c_lo..c_hi`, row by row.
pub open spec fn block_cells(r_lo: int, r_hi: int, c_lo: int, c_hi: int, scale: CellScale) -> Seq<
    Cell,
>
    decreases r_hi - r_lo,
{
    if r_hi <= r_lo {
        Seq::empty()
    } else {
        block_cells(r_lo, r_hi - 1, c_lo, c_hi, scale) + row_cells(r_hi - 1, c_lo, c_hi, scale)
    }
}

/// The cells a table gains when it goes from `r0 x c0` to `r1 x c1`: new
/// rows under the kept columns, new columns beside the kept rows, and the
/// corner of new rows and new columns.
#[verifier::opaque]
pub open spec fn growth_cells(r0: int, c0: int, r1: int, c1: int, scale: CellScale) -> Seq<Cell> {
    let kept_rows = if r0 <= r1 { r0 } else { r1 };
    let kept_columns = if c0 <= c1 { c0 } else { c1 };
    block_cells(r0, r1, 0, kept_columns, scale) + block_cells(0, kept_rows, c0, c1, scale)
        + block_cells(r0, r1, c0, c1, scale)
}

/// Whether a cell lies within the first `rows` rows and `columns` columns.
pub open spec fn inside(rows: int, columns: int) -> spec_fn(Cell) -> bool {
    |c: Cell| c.row < rows && c.column < columns
}

/// The cells of a table resized from `r0 x c0` to `r1 x c1`: the cells
/// that still fit, in their order, then the cells it gains.
#[verifier::opaque]
pub open spec fn resized_cells(
    cells: Seq<Cell>,
    r0: int,
    c0: int,
    r1: int,
    c1: int,
    scale: CellScale,
) -> Seq<Cell> {
    cells.filter(inside(r1, c1)) + growth_cells(r0, c0, r1, c1, scale)
}

proof fn lemma_row_cells(r: int, c_lo: int, c_hi: int, scale: CellScale)
    requires
        0 <= r <= u32::MAX,
        0 <= c_lo,
        c_hi <= u32::MAX + 1,
    ensures
        row_cells(r, c_lo, c_hi, scale).len() == if c_hi <= c_lo { 0 } else { c_hi - c_lo },
        forall|i: int|
            0 <= i < row_cells(r, c_lo, c_hi, scale).len() ==> #[trigger] row_cells(
                r,
                c_lo,
                c_hi,
                scale,
            )[i] == Cell::at(r, c_lo + i, scale),
    decreases c_hi - c_lo,
{
    if c_hi > c_lo {
        lemma_row_cells(r, c_lo, c_hi - 1, scale);
    }
}

/// A block holds each of its coordinates exactly once, and nothing else.
pub(crate) proof fn lemma_block_cells(r_lo: int, r_hi: int, c_lo: int, c_hi: int, scale: CellScale)
    requires
        0 <= r_lo,
        r_hi <= u32::MAX + 1,
        0 <= c_lo,
        c_hi <= u32::MAX + 1,
    ensures
        all_in_block(block_cells(r_lo, r_hi, c_lo, c_hi, scale), r_lo, r_hi, c_lo, c_hi),
        distinct_places(block_cells(r_lo, r_hi, c_lo, c_hi, scale)),
        forall|i: int|
            0 <= i < block_cells(r_lo, r_hi, c_lo, c_hi, scale).len() ==> #[trigger] block_cells(
                r_lo,
                r_hi,
                c_lo,
                c_hi,
                scale,
            )[i] == Cell::at(
                block_cells(r_lo, r_hi, c_lo, c_hi, scale)[i].row as int,
                block_cells(r_lo, r_hi, c_lo, c_hi, scale)[i].column as int,
                scale,
            ),
        forall|r: int, c: int|
            r_lo <= r < r_hi && c_lo <= c < c_hi ==> #[trigger] has_place(
                block_cells(r_lo, r_hi, c_lo, c_hi, scale),
                r,
                c,
            ),
    decreases r_hi - r_lo,
{
    let b = block_cells(r_lo, r_hi, c_lo, c_hi, scale);
    if r_hi > r_lo {
        let a = block_cells(r_lo, r_hi - 1, c_lo, c_hi, scale);
        let w = row_cells(r_hi - 1, c_lo, c_hi, scale);
        lemma_block_cells(r_lo, r_hi - 1, c_lo, c_hi, scale);
        lemma_row_cells(r_hi - 1, c_lo, c_hi, scale);
        assert(b == a + w);
        assert forall|i: int| 0 <= i < b.len() implies r_lo <= (#[trigger] b[i]).row < r_hi
            && c_lo <= b[i].column < c_hi && b[i] == Cell::at(b[i].row as int, b[i].column as int, scale) by {
            if i >= a.len() {
                assert(b[i] == w[i - a.len()]);
            } else {
                assert(b[i] == a[i]);
            }
        }
        assert forall|i: int, j: int|
            0 <= i < b.len() && 0 <= j < b.len() && i != j implies !same_place(
            #[trigger] b[i],
            #[trigger] b[j],
        ) by {
            if i < a.len() && j < a.len() {
                assert(b[i] == a[i] && b[j] == a[j]);
            } else if i >= a.len() && j >= a.len() {
                assert(b[i] == w[i - a.len()] && b[j] == w[j - a.len()]);
            } else if i < a.len() {
                assert(b[i] == a[i] && b[j] == w[j - a.len()]);
            } else {
                assert(b[j] == a[j] && b[i] == w[i - a.len()]);
            }
        }
        assert forall|r: int, c: int| r_lo <= r < r_hi && c_lo <= c < c_hi implies #[trigger] has_place(
            b,
            r,
            c,
        ) by {
            if r < r_hi - 1 {
                assert(has_place(a, r, c));
                let i = choose|i: int| 0 <= i < a.len() && a[i].row == r && a[i].column == c;
                assert(b[i] == a[i]);
            } else {
                let i = a.len() + (c - c_lo);
                assert(b[i] == w[c - c_lo]);
            }
        }
    }
}

/// Appends the cells of rows `r_lo..r_hi`, columns `c_lo..c_hi`, row by row.
fn push_block(cells: &mut Vec<Cell>, r_lo: u32, r_hi: u32, c_lo: u32, c_hi: u32, scale: CellScale)
    ensures
        final(cells)@ == old(cells)@ + block_cells(
            r_lo as int,
            r_hi as int,
            c_lo as int,
            c_hi as int,
            scale,
        ),
{
    let ghost start = cells@;
    let mut r: u32 = r_lo;
    while r < r_hi
        invariant
            r_lo <= r,
            r <= r_hi || r == r_lo,
            cells@ == start + block_cells(r_lo as int, r as int, c_lo as int, c_hi as int, scale),
        decreases r_hi - r,
    {
        let ghost before = cells@;
        let mut c: u32 = c_lo;
        while c < c_hi
            invariant
                r_lo <= r < r_hi,
                c_lo <= c,
                c <= c_hi || c == c_lo,
                cells@ == before + row_cells(r as int, c_lo as int, c as int, scale),
            decreases c_hi - c,
        {
            let cell = Cell::new(r, c, scale);
            cells.push(cell);
            assert(cells@ =~= before + row_cells(r as int, c_lo as int, c as int + 1, scale));
            c = c + 1;
        }
        assert(row_cells(r as int, c_lo as int, c as int, scale) == row_cells(
            r as int,
            c_lo as int,
            c_hi as int,
            scale,
        ));
        assert(cells@ =~= start + block_cells(
            r_lo as int,
            r as int + 1,
            c_lo as int,
            c_hi as int,
            scale,
        ));
        r = r + 1;
    }
    assert(block_cells(r_lo as int, r as int, c_lo as int, c_hi as int, scale) == block_cells(
        r_lo as int,
        r_hi as int,
        c_lo as int,
        c_hi as int,
        scale,
    ));
}

/// The cells of `cells` within the first `rows` rows and `columns` columns,
/// in their order.
fn retain_inside(cells: &Vec<Cell>, rows: u32, columns: u32) -> (r: Vec<Cell>)
    ensures
        r@ == cells@.filter(inside(rows as int, columns as int)),
{
    let ghost pred = inside(rows as int, columns as int);
    let mut out: Vec<Cell> = Vec::new();
    let mut i: usize = 0;
    while i < cells.len()
        invariant
            0 <= i <= cells@.len(),
            pred == inside(rows as int, columns as int),
            out@ == cells@.subrange(0, i as int).filter(pred),
        decreases cells@.len() - i,
    {
        let cell = cells[i];
        proof {
            let s = cells@.subrange(0, i as int);
            assert(cells@.subrange(0, i as int + 1) =~= s.push(cell));
            s.lemma_filter_push(cell, pred);
            assert(inside(rows as int, columns as int)(cell) == (cell.row < rows && cell.column < columns));
        }
        if cell.row < rows && cell.column < columns {
            out.push(cell);
        }
        i = i + 1;
    }
    assert(cells@.subrange(0, cells@.len() as int) =~= cells@);
    out
}

/// Filtering keeps distinct coordinates distinct and only keeps cells of
/// the original sequence.
proof fn lemma_filter_places(s: Seq<Cell>, rows: int, columns: int)
    ensures
        distinct_places(s) ==> distinct_places(s.filter(inside(rows, columns))),
        forall|i: int|
            0 <= i < s.filter(inside(rows, columns)).len() ==> s.contains(
                #[trigger] s.filter(inside(rows, columns))[i],
            ),
    decreases s.len(),
{
    let p = inside(rows, columns);
    s.filter_lemma(p);
    if s.len() > 0 {
        let t = s.drop_last();
        let e = s.last();
        lemma_filter_places(t, rows, columns);
        assert(s =~= t.push(e));
        t.lemma_filter_push(e, p);
        t.filter_lemma(p);
        if distinct_places(s) {
            assert(distinct_places(t)) by {
                assert forall|i: int, j: int|
                    0 <= i < t.len() && 0 <= j < t.len() && i != j implies !same_place(
                    #[trigger] t[i],
                    #[trigger] t[j],
                ) by {
                    assert(t[i] == s[i] && t[j] == s[j]);
                }
            }
            let f = t.filter(p);
            if p(e) {
                let g = f.push(e);
                assert forall|i: int, j: int|
                    0 <= i < g.len() && 0 <= j < g.len() && i != j implies !same_place(
                    #[trigger] g[i],
                    #[trigger] g[j],
                ) by {
                    if i < f.len() && j < f.len() {
                        assert(g[i] == f[i] && g[j] == f[j]);
                    } else {
                        let k = if i < f.len() { i } else { j };
                        assert(g[k] == f[k]);
                        assert(t.contains(f[k]));
                        let m = choose|m: int| 0 <= m < t.len() && t[m] == f[k];
                        assert(s[m] == t[m]);
                        assert(s[s.len() - 1] == e);
                    }
                }
            }
        }
    }
}

/// A filter that every element passes keeps the whole sequence.
pub(crate) proof fn lemma_filter_keeps_all(s: Seq<Cell>, rows: int, columns: int)
    requires
        all_in_block(s, 0, rows, 0, columns),
    ensures
        s.filter(inside(rows, columns)) == s,
    decreases s.len(),
{
    if s.len() > 0 {
        let t = s.drop_last();
        assert(s =~= t.push(s.last()));
        assert(all_in_block(t, 0, rows, 0, columns)) by {
            assert forall|i: int| 0 <= i < t.len() implies 0 <= (#[trigger] t[i]).row < rows
                && 0 <= t[i].column < columns by {
                assert(t[i] == s[i]);
            }
        }
        lemma_filter_keeps_all(t, rows, columns);
        t.lemma_filter_push(s.last(), inside(rows, columns));
        assert(s[s.len() - 1] == s.last());
    }
}

/// The sizes of a table's rows (or columns) after it changes to `n` of
/// them: the first sizes that remain are kept, new ones take `size`.
pub open spec fn resized_sizes(sizes: Seq<u32>, n: int, size: u32) -> Seq<u32> {
    if n <= sizes.len() {
        sizes.take(n)
    } else {
        sizes + Seq::new((n - sizes.len()) as nat, |i: int| size)
    }
}

fn resize_sizes(sizes: &mut Vec<u32>, n: u32, size: u32)
    ensures
        final(sizes)@ == resized_sizes(old(sizes)@, n as int, size),
{
    if (n as usize) <= sizes.len() {
        sizes.truncate(n as usize);
        assert(sizes@ =~= resized_sizes(old(sizes)@, n as int, size));
    } else {
        let ghost start = sizes@;
        while sizes.len() < n as usize
            invariant
                start.len() <= sizes@.len() <= n,
                sizes@ =~= start + Seq::new((sizes@.len() - start.len()) as nat, |i: int| size),
            decreases n - sizes@.len(),
        {
            sizes.push(size);
            assert(sizes@ =~= start + Seq::new((sizes@.len() - start.len()) as nat, |i: int| size));
        }
    }
}

/// The state of a table: its size, the sizes of its rows and columns, its
/// top-left anchor and its cells.
pub struct TableModel {
    pub num_rows: u32,
    pub num_columns: u32,
    pub cell_heights: Seq<u32>,
    pub cell_widths: Seq<u32>,
    pub anchor: Point,
    pub cells: Seq<Cell>,
}

impl TableModel {
    /// One height per row, one width per column, and exactly one cell at
    /// each coordinate of the grid.
    #[verifier::opaque]
    pub open spec fn wf(self) -> bool {
        &&& self.cell_heights.len() == self.num_rows
        &&& self.cell_widths.len() == self.num_columns
        &&& all_in_block(self.cells, 0, self.num_rows as int, 0, self.num_columns as int)
        &&& distinct_places(self.cells)
        &&& forall|r: int, c: int|
            0 <= r < self.num_rows && 0 <= c < self.num_columns ==> #[trigger] has_place(
                self.cells,
                r,
                c,
            )
    }

    /// A table just placed at `anchor`: no rows, no columns, no cells.
    pub open spec fn empty_at(anchor: Point) -> TableModel {
        TableModel {
            num_rows: 0,
            num_columns: 0,
            cell_heights: Seq::empty(),
            cell_widths: Seq::empty(),
            anchor,
            cells: Seq::empty(),
        }
    }

    /// The table after a drag from its anchor to `to`.
    pub open spec fn resized(self, to: Point, scale: CellScale) -> TableModel {
        let r1 = rows_for(self.anchor, to, scale);
        let c1 = columns_for(self.anchor, to, scale);
        TableModel {
            num_rows: r1 as u32,
            num_columns: c1 as u32,
            cell_heights: resized_sizes(self.cell_heights, r1, scale.height),
            cell_widths: resized_sizes(self.cell_widths, c1, scale.width),
            anchor: self.anchor,
            cells: resized_cells(
                self.cells,
                self.num_rows as int,
                self.num_columns as int,
                r1,
                c1,
                scale,
            ),
        }
    }

    /// A table with no rows or no columns.
    pub open spec fn is_degenerate(self) -> bool {
        self.num_rows == 0 || self.num_columns == 0
    }

    /// The parts of well-formedness that do not need the grid's coverage.
    pub proof fn lemma_wf_bounds(self)
        requires
            self.wf(),
        ensures
            self.cell_heights.len() == self.num_rows,
            self.cell_widths.len() == self.num_columns,
            all_in_block(self.cells, 0, self.num_rows as int, 0, self.num_columns as int),
    {
        reveal(TableModel::wf);
    }
}

/// A table on the canvas, anchored at its top-left corner.
pub struct TableHead {
    pub num_rows: u32,
    pub num_columns: u32,
    pub cell_heights: Vec<u32>,
    pub cell_widths: Vec<u32>,
    pub anchor: Point,
    pub cells: Vec<Cell>,
}

impl View for TableHead {
    type V = TableModel;

    open spec fn view(&self) -> TableModel {
        TableModel {
            num_rows: self.num_rows,
            num_columns: self.num_columns,
            cell_heights: self.cell_heights@,
            cell_widths: self.cell_widths@,
            anchor: self.anchor,
            cells: self.cells@,
        }
    }
}

/// The cells after a resize from `r0 x c0` to `r1 x c1` still hold each
/// coordinate of the new grid exactly once.
pub(crate) proof fn lemma_resize_wf(cells: Seq<Cell>, r0: int, c0: int, r1: int, c1: int, scale: CellScale)
    requires
        0 <= r0 <= u32::MAX,
        0 <= c0 <= u32::MAX,
        0 <= r1 <= u32::MAX,
        0 <= c1 <= u32::MAX,
        all_in_block(cells, 0, r0, 0, c0),
        distinct_places(cells),
        forall|r: int, c: int| 0 <= r < r0 && 0 <= c < c0 ==> #[trigger] has_place(cells, r, c),
    ensures
        all_in_block(resized_cells(cells, r0, c0, r1, c1, scale), 0, r1, 0, c1),
        distinct_places(resized_cells(cells, r0, c0, r1, c1, scale)),
        forall|r: int, c: int|
            0 <= r < r1 && 0 <= c < c1 ==> #[trigger] has_place(
                resized_cells(cells, r0, c0, r1, c1, scale),
                r,
                c,
            ),
{
    reveal(growth_cells);
    reveal(resized_cells);
    let p = inside(r1, c1);
    let f = cells.filter(p);
    let kr = if r0 <= r1 { r0 } else { r1 };
    let kc = if c0 <= c1 { c0 } else { c1 };
    let g1 = block_cells(r0, r1, 0, kc, scale);
    let g2 = block_cells(0, kr, c0, c1, scale);
    let g3 = block_cells(r0, r1, c0, c1, scale);
    let all = resized_cells(cells, r0, c0, r1, c1, scale);
    assert(all == f + g1 + g2 + g3);
    lemma_filter_places(cells, r1, c1);
    cells.filter_lemma(p);
    lemma_block_cells(r0, r1, 0, kc, scale);
    lemma_block_cells(0, kr, c0, c1, scale);
    lemma_block_cells(r0, r1, c0, c1, scale);
    // Where each cell of the result comes from, and what that says of its place.
    assert forall|i: int| 0 <= i < all.len() implies {
        &&& 0 <= (#[trigger] all[i]).row < r1 && 0 <= all[i].column < c1
        &&& (i < f.len() ==> all[i] == f[i] && all[i].row < r0 && all[i].column < c0)
        &&& (f.len() <= i < f.len() + g1.len() ==> all[i] == g1[i - f.len()] && all[i].row >= r0
            && all[i].column < c0)
        &&& (f.len() + g1.len() <= i < f.len() + g1.len() + g2.len() ==> all[i] == g2[i - f.len()
            - g1.len()] && all[i].row < r0 && all[i].column >= c0)
        &&& (f.len() + g1.len() + g2.len() <= i ==> all[i] == g3[i - f.len() - g1.len() - g2.len()]
            && all[i].row >= r0 && all[i].column >= c0)
    } by {
        if i < f.len() {
            assert(all[i] == f[i]);
            assert(p(f[i]));
            assert(cells.contains(f[i]));
            let m = choose|m: int| 0 <= m < cells.len() && cells[m] == f[i];
            assert(cells[m].row < r0);
        } else if i < f.len() + g1.len() {
            assert(all[i] == g1[i - f.len()]);
        } else if i < f.len() + g1.len() + g2.len() {
            assert(all[i] == g2[i - f.len() - g1.len()]);
        } else {
            assert(all[i] == g3[i - f.len() - g1.len() - g2.len()]);
        }
    }
    assert forall|i: int, j: int|
        0 <= i < all.len() && 0 <= j < all.len() && i != j implies !same_place(
        #[trigger] all[i],
        #[trigger] all[j],
    ) by {
        let a = f.len();
        let b = a + g1.len();
        let c = b + g2.len();
        if i < a && j < a {
            assert(f[i] == all[i] && f[j] == all[j]);
        } else if a <= i < b && a <= j < b {
            assert(g1[i - a] == all[i] && g1[j - a] == all[j]);
        } else if b <= i < c && b <= j < c {
            assert(g2[i - b] == all[i] && g2[j - b] == all[j]);
        } else if c <= i && c <= j {
            assert(g3[i - c] == all[i] && g3[j - c] == all[j]);
        }
    }
    assert forall|r: int, c: int| 0 <= r < r1 && 0 <= c < c1 implies #[trigger] has_place(
        all,
        r,
        c,
    ) by {
        if r < r0 && c < c0 {
            assert(has_place(cells, r, c));
            let m = choose|m: int| 0 <= m < cells.len() && cells[m].row == r && cells[m].column == c;
            cells.lemma_filter_contains(p, m);
            assert(f.contains(cells[m]));
            let k = choose|k: int| 0 <= k < f.len() && f[k] == cells[m];
            assert(all[k] == f[k]);
        } else if r >= r0 && c < c0 {
            assert(has_place(g1, r, c));
            let k = choose|k: int| 0 <= k < g1.len() && g1[k].row == r && g1[k].column == c;
            assert(all[f.len() + k] == g1[k]);
        } else if r < r0 && c >= c0 {
            assert(has_place(g2, r, c));
            let k = choose|k: int| 0 <= k < g2.len() && g2[k].row == r && g2[k].column == c;
            assert(all[f.len() + g1.len() + k] == g2[k]);
        } else {
            assert(has_place(g3, r, c));
            let k = choose|k: int| 0 <= k < g3.len() && g3[k].row == r && g3[k].column == c;
            assert(all[f.len() + g1.len() + g2.len() + k] == g3[k]);
        }
    }
}

impl TableHead {
    /// A new table anchored at `anchor`, with no rows, columns or cells yet.
    pub fn with_transform(anchor: Point) -> (r: TableHead)
        ensures
            r@ == TableModel::empty_at(anchor),
            r@.wf(),
    {
        let r = TableHead {
            num_rows: 0,
            num_columns: 0,
            cell_heights: Vec::new(),
            cell_widths: Vec::new(),
            anchor,
            cells: Vec::new(),
        };
        assert(r@.cells =~= Seq::<Cell>::empty());
        reveal(TableModel::wf);
        r
    }

    /// Resizes the table to the drag from its anchor to `to`: creates each
    /// cell the grid gains exactly once and removes each cell that falls
    /// outside it; the cells that stay are untouched.
    pub fn resize_to(&mut self, to: Point, scale: CellScale)
        requires
            old(self)@.wf(),
            scale.wf(),
        ensures
            final(self)@ == old(self)@.resized(to, scale),
            final(self)@.wf(),
    {
        let r0 = self.num_rows;
        let c0 = self.num_columns;
        let r1 = rows_between(self.anchor, to, scale);
        let c1 = columns_between(self.anchor, to, scale);
        let ghost old_cells = self.cells@;
        proof {
            reveal(TableModel::wf);
        }
        if r1 < r0 || c1 < c0 {
            // Only a shrink can leave cells outside the grid.
            self.cells = retain_inside(&self.cells, r1, c1);
        } else {
            proof {
                lemma_filter_keeps_all(old_cells, r1 as int, c1 as int);
            }
        }
        let kept_rows = if r0 <= r1 { r0 } else { r1 };
        let kept_columns = if c0 <= c1 { c0 } else { c1 };
        push_block(&mut self.cells, r0, r1, 0, kept_columns, scale);
        push_block(&mut self.cells, 0, kept_rows, c0, c1, scale);
        push_block(&mut self.cells, r0, r1, c0, c1, scale);
        resize_sizes(&mut self.cell_heights, r1, scale.height);
        resize_sizes(&mut self.cell_widths, c1, scale.width);
        self.num_rows = r1;
        self.num_columns = c1;
        proof {
            reveal(growth_cells);
            reveal(resized_cells);
            assert(self.cells@ =~= resized_cells(
                old_cells,
                r0 as int,
                c0 as int,
                r1 as int,
                c1 as int,
                scale,
            ));
            lemma_resize_wf(old_cells, r0 as int, c0 as int, r1 as int, c1 as int, scale);
        }
    }
}

/// A block with no columns, or no rows, has no cells.
pub(crate) proof fn lemma_block_empty(r_lo: int, r_hi: int, c_lo: int, c_hi: int, scale: CellScale)
    requires
        0 <= r_lo,
        r_hi <= u32::MAX + 1,
        0 <= c_lo,
        c_hi <= u32::MAX + 1,
        r_hi <= r_lo || c_hi <= c_lo,
    ensures
        block_cells(r_lo, r_hi, c_lo, c_hi, scale) == Seq::<Cell>::empty(),
{
    let b = block_cells(r_lo, r_hi, c_lo, c_hi, scale);
    lemma_block_cells(r_lo, r_hi, c_lo, c_hi, scale);
    if b.len() > 0 {
        assert(r_lo <= b[0].row < r_hi && c_lo <= b[0].column < c_hi);
    }
    assert(b =~= Seq::<Cell>::empty());
}

/// The cells gained by growing from `r0 x c0` to `r1 x c1` are exactly the
/// coordinates of the larger grid that the smaller one lacks, each once,
/// each placed by its coordinate.
pub proof fn lemma_growth_partition(r0: int, c0: int, r1: int, c1: int, scale: CellScale)
    requires
        0 <= r0 <= r1 <= u32::MAX,
        0 <= c0 <= c1 <= u32::MAX,
    ensures
        distinct_places(growth_cells(r0, c0, r1, c1, scale)),
        forall|i: int|
            0 <= i < growth_cells(r0, c0, r1, c1, scale).len() ==> #[trigger] growth_cells(
                r0,
                c0,
                r1,
                c1,
                scale,
            )[i] == Cell::at(
                growth_cells(r0, c0, r1, c1, scale)[i].row as int,
                growth_cells(r0, c0, r1, c1, scale)[i].column as int,
                scale,
            ),
        forall|r: int, c: int|
            #[trigger] has_place(growth_cells(r0, c0, r1, c1, scale), r, c) <==> (0 <= r < r1 && 0
                <= c < c1 && !(r < r0 && c < c0)),
{
    reveal(growth_cells);
    reveal(resized_cells);
    let g1 = block_cells(r0, r1, 0, c0, scale);
    let g2 = block_cells(0, r0, c0, c1, scale);
    let g3 = block_cells(r0, r1, c0, c1, scale);
    let g = growth_cells(r0, c0, r1, c1, scale);
    assert(g == g1 + g2 + g3);
    lemma_block_cells(r0, r1, 0, c0, scale);
    lemma_block_cells(0, r0, c0, c1, scale);
    lemma_block_cells(r0, r1, c0, c1, scale);
    let a = g1.len();
    let b = a + g2.len();
    assert forall|i: int| 0 <= i < g.len() implies {
        &&& (i < a ==> g[i] == g1[i])
        &&& (a <= i < b ==> g[i] == g2[i - a])
        &&& (b <= i ==> g[i] == g3[i - b])
        &&& #[trigger] g[i] == Cell::at(g[i].row as int, g[i].column as int, scale)
        &&& 0 <= g[i].row < r1 && 0 <= g[i].column < c1 && !(g[i].row < r0 && g[i].column < c0)
    } by {
        if i < a {
            assert(g[i] == g1[i]);
        } else if i < b {
            assert(g[i] == g2[i - a]);
        } else {
            assert(g[i] == g3[i - b]);
        }
    }
    assert forall|i: int, j: int|
        0 <= i < g.len() && 0 <= j < g.len() && i != j implies !same_place(
        #[trigger] g[i],
        #[trigger] g[j],
    ) by {
        if i < a && j < a {
            assert(g1[i] == g[i] && g1[j] == g[j]);
        } else if a <= i < b && a <= j < b {
            assert(g2[i - a] == g[i] && g2[j - a] == g[j]);
        } else if b <= i && b <= j {
            assert(g3[i - b] == g[i] && g3[j - b] == g[j]);
        }
    }
    assert forall|r: int, c: int| #[trigger] has_place(g, r, c) <==> (0 <= r < r1 && 0 <= c < c1
        && !(r < r0 && c < c0)) by {
        if 0 <= r < r1 && 0 <= c < c1 && !(r < r0 && c < c0) {
            if r >= r0 && c < c0 {
                assert(has_place(g1, r, c));
                let k = choose|k: int| 0 <= k < g1.len() && g1[k].row == r && g1[k].column == c;
                assert(g[k] == g1[k]);
            } else if r < r0 {
                assert(has_place(g2, r, c));
                let k = choose|k: int| 0 <= k < g2.len() && g2[k].row == r && g2[k].column == c;
                assert(g[a + k] == g2[k]);
            } else {
                assert(has_place(g3, r, c));
                let k = choose|k: int| 0 <= k < g3.len() && g3[k].row == r && g3[k].column == c;
                assert(g[b + k] == g3[k]);
            }
        }
    }
}

/// Resizing cells to the size they already have keeps them all.
pub(crate) proof fn lemma_cells_resize_same(cells: Seq<Cell>, r1: int, c1: int, scale: CellScale)
    requires
        0 <= r1 <= u32::MAX,
        0 <= c1 <= u32::MAX,
        all_in_block(cells, 0, r1, 0, c1),
    ensures
        resized_cells(cells, r1, c1, r1, c1, scale) == cells,
{
    reveal(growth_cells);
    reveal(resized_cells);
    lemma_filter_keeps_all(cells, r1, c1);
    lemma_block_empty(r1, r1, 0, c1, scale);
    lemma_block_empty(0, r1, c1, c1, scale);
    lemma_block_empty(r1, r1, c1, c1, scale);
    assert(resized_cells(cells, r1, c1, r1, c1, scale) =~= cells);
}

} // verus!
