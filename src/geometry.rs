use vstd::prelude::*;

use crate::grid::{Cell, GRID_COLS, GRID_ROWS, SUB_COLS, SUB_ROWS};

verus! {

/// The size of the screen that the grids cover, in pixels.
#[derive(Clone, Copy, Debug, PartialEq, Eq, Structural)]
pub struct Screen {
    pub width: u32,
    pub height: u32,
}

/// An axis-aligned rectangle in screen pixels.
#[derive(Clone, Copy, Debug, PartialEq, Eq, Structural)]
pub struct PixelRect {
    pub x: u32,
    pub y: u32,
    pub width: u32,
    pub height: u32,
}

/// A pixel position on the screen.
#[derive(Clone, Copy, Debug, PartialEq, Eq, Structural)]
pub struct Point {
    pub x: u32,
    pub y: u32,
}

impl PixelRect {
    /// `inner` lies wholly within `self`.
    pub open spec fn contains_rect(self, inner: PixelRect) -> bool {
        &&& self.x <= inner.x
        &&& self.y <= inner.y
        &&& inner.x + inner.width <= self.x + self.width
        &&& inner.y + inner.height <= self.y + self.height
    }

    pub open spec fn contains_point(self, p: Point) -> bool {
        self.x <= p.x < self.x + self.width && self.y <= p.y < self.y + self.height
    }
}

impl Screen {
    pub open spec fn cell_width(self) -> int {
        self.width as int / GRID_COLS as int
    }

    pub open spec fn cell_height(self) -> int {
        self.height as int / GRID_ROWS as int
    }

    pub open spec fn sub_width(self) -> int {
        self.cell_width() / SUB_COLS as int
    }

    pub open spec fn sub_height(self) -> int {
        self.cell_height() / SUB_ROWS as int
    }

    /// The pixels of a primary cell.
    pub open spec fn primary_rect_of(self, cell: Cell) -> PixelRect {
        PixelRect {
            x: (cell.col * self.cell_width()) as u32,
            y: (cell.row * self.cell_height()) as u32,
            width: self.cell_width() as u32,
            height: self.cell_height() as u32,
        }
    }

    /// The pixels of sub-grid cell `sub` inside primary cell `pinned`.
    pub open spec fn sub_rect_of(self, pinned: Cell, sub: Cell) -> PixelRect {
        PixelRect {
            x: (pinned.col * self.cell_width() + sub.col * self.sub_width()) as u32,
            y: (pinned.row * self.cell_height() + sub.row * self.sub_height()) as u32,
            width: self.sub_width() as u32,
            height: self.sub_height() as u32,
        }
    }

    /// Where the pointer goes for sub-grid cell `sub` inside `pinned`: the sub-cell's center.
    pub open spec fn target_of(self, pinned: Cell, sub: Cell) -> Point {
        let r = self.sub_rect_of(pinned, sub);
        Point { x: (r.x + r.width / 2) as u32, y: (r.y + r.height / 2) as u32 }
    }

    /// The pixels of a primary cell.
    pub fn primary_rect(&self, cell: Cell) -> (r: PixelRect)
        requires
            cell.in_primary(),
        ensures
            r == self.primary_rect_of(cell),
            r.x == cell.col * self.cell_width(),
            r.y == cell.row * self.cell_height(),
            r.x + r.width <= self.width,
            r.y + r.height <= self.height,
    {
        let cw = self.width / 13;
        let ch = self.height / 13;
        proof {
            lemma_span_fits(cell.col as int, self.width as int, 13);
            lemma_span_fits(cell.row as int, self.height as int, 13);
        }
        PixelRect {
            x: cell.col as u32 * cw,
            y: cell.row as u32 * ch,
            width: cw,
            height: ch,
        }
    }

    /// The pixels of sub-grid cell `sub` inside primary cell `pinned`.
    pub fn sub_rect(&self, pinned: Cell, sub: Cell) -> (r: PixelRect)
        requires
            pinned.in_primary(),
            sub.in_sub(),
        ensures
            r == self.sub_rect_of(pinned, sub),
            r.x == pinned.col * self.cell_width() + sub.col * self.sub_width(),
            r.y == pinned.row * self.cell_height() + sub.row * self.sub_height(),
            self.primary_rect_of(pinned).contains_rect(r),
    {
        let outer = self.primary_rect(pinned);
        let sw = outer.width / 6;
        let sh = outer.height / 4;
        proof {
            lemma_span_fits(sub.col as int, outer.width as int, 6);
            lemma_span_fits(sub.row as int, outer.height as int, 4);
            assert(outer.width as int == self.cell_width());
            assert(outer.height as int == self.cell_height());
            assert(sw as int == self.sub_width());
            assert(sh as int == self.sub_height());
        }
        PixelRect {
            x: outer.x + sub.col as u32 * sw,
            y: outer.y + sub.row as u32 * sh,
            width: sw,
            height: sh,
        }
    }

    /// The pixel at the center of sub-grid cell `sub` inside primary cell `pinned`.
    pub fn sub_target(&self, pinned: Cell, sub: Cell) -> (p: Point)
        requires
            pinned.in_primary(),
            sub.in_sub(),
        ensures
            p == self.target_of(pinned, sub),
            self.sub_rect_of(pinned, sub).width > 0 && self.sub_rect_of(pinned, sub).height > 0
                ==> self.sub_rect_of(pinned, sub).contains_point(p),
    {
        let r = self.sub_rect(pinned, sub);
        let outer = self.primary_rect(pinned);
        Point { x: r.x + r.width / 2, y: r.y + r.height / 2 }
    }
}

/// The `i`th of `n` equal slots of a span ends within the span.
proof fn lemma_span_fits(i: int, total: int, n: int)
    requires
        0 <= i < n,
        0 <= total,
        0 < n,
    ensures
        0 <= i * (total / n),
        i * (total / n) + total / n <= total,
{
    let q = total / n;
    assert(0 <= q);
    assert(n * q <= total) by (nonlinear_arith)
        requires
            q == total / n,
            0 < n,
            0 <= total,
    ;
    assert(i * q + q <= n * q) by (nonlinear_arith)
        requires
            0 <= i < n,
            0 <= q,
    ;
    assert(0 <= i * q) by (nonlinear_arith)
        requires
            0 <= i,
            0 <= q,
    ;
}

} // verus!
