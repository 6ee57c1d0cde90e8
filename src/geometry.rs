use vstd::prelude::*;

verus! {

/// A point in world coordinates (x grows rightward, y grows upward).
#[derive(Clone, Copy, Debug, PartialEq, Eq, Structural)]
pub struct Point {
    pub x: i32,
    pub y: i32,
}

impl Point {
    pub open spec fn origin() -> Point {
        Point { x: 0, y: 0 }
    }

    /// The zero point, used as the sentinel of an idle action.
    pub fn zero() -> (r: Point)
        ensures
            r == Point::origin(),
    {
        Point { x: 0, y: 0 }
    }
}

/// The width and height of one table cell.
#[derive(Clone, Copy, Debug, PartialEq, Eq, Structural)]
pub struct CellScale {
    pub width: u32,
    pub height: u32,
}

impl CellScale {
    /// A usable scale has no zero side.
    pub open spec fn wf(self) -> bool {
        self.width > 0 && self.height > 0
    }
}

/// How many whole cells of size `size` fit in `extent`: `floor(extent / size)`,
/// clamped to zero for a negative extent.
#[verifier::opaque]
pub open spec fn cells_spanned(extent: int, size: int) -> int {
    if extent <= 0 {
        0
    } else {
        extent / size
    }
}

/// Number of cells spanned by an extent that fits in 33 signed bits.
pub fn span_count(extent: i64, size: u32) -> (r: u32)
    requires
        size > 0,
        -0x1_0000_0000 < extent < 0x1_0000_0000,
    ensures
        r == cells_spanned(extent as int, size as int),
{
    reveal(cells_spanned);
    if extent <= 0 {
        0
    } else {
        let q: i64 = extent / (size as i64);
        assert(q <= extent) by (nonlinear_arith)
            requires
                q == (extent as int) / (size as int),
                extent > 0,
                size > 0,
        ;
        q as u32
    }
}

/// A span of an extent that fits in 33 signed bits fits in 32 unsigned bits.
pub proof fn lemma_cells_spanned_bounds(extent: int, size: int)
    requires
        size > 0,
        -0x1_0000_0000 < extent < 0x1_0000_0000,
    ensures
        0 <= cells_spanned(extent, size) <= u32::MAX,
{
    reveal(cells_spanned);
    if extent > 0 {
        assert(0 <= extent / size <= extent) by (nonlinear_arith)
            requires
                extent > 0,
                size > 0,
        ;
    }
}

/// Rows spanned by a drag from `anchor` to `to`: rows grow downward.
pub open spec fn rows_for(anchor: Point, to: Point, scale: CellScale) -> int {
    cells_spanned(anchor.y - to.y, scale.height as int)
}

/// Columns spanned by a drag from `anchor` to `to`: columns grow rightward.
pub open spec fn columns_for(anchor: Point, to: Point, scale: CellScale) -> int {
    cells_spanned(to.x - anchor.x, scale.width as int)
}

/// Rows of cells between `anchor` and `to`, downward from the anchor.
pub fn rows_between(anchor: Point, to: Point, scale: CellScale) -> (r: u32)
    requires
        scale.wf(),
    ensures
        r == rows_for(anchor, to, scale),
{
    span_count(anchor.y as i64 - to.y as i64, scale.height)
}

/// Columns of cells between `anchor` and `to`, rightward from the anchor.
pub fn columns_between(anchor: Point, to: Point, scale: CellScale) -> (r: u32)
    requires
        scale.wf(),
    ensures
        r == columns_for(anchor, to, scale),
{
    span_count(to.x as i64 - anchor.x as i64, scale.width)
}

} // verus!
