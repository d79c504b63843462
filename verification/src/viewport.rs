//! The viewport: the visible rectangle of the plane, and the mapping from
//! pixels of a grid to points of that rectangle.
use vstd::prelude::*;
use crate::fixed::{floor_div, LIMIT, ONE};

verus! {

/// Size of the pixel grid, in pixels.
#[derive(Clone, Copy, Debug, PartialEq, Eq, Structural)]
pub struct Grid {
    pub width: usize,
    pub height: usize,
}

impl Grid {
    /// A grid has at least one pixel each way, and its pixel count fits in a
    /// `usize`.
    pub open spec fn wf(&self) -> bool {
        &&& self.width > 0
        &&& self.height > 0
        &&& self.width * self.height <= usize::MAX
    }

    /// Number of pixels of the grid.
    pub open spec fn area(&self) -> int {
        self.width * self.height
    }

    /// Makes a grid, or `None` if a side is zero or the pixel count does not
    /// fit in a `usize`.
    pub fn new(width: usize, height: usize) -> (r: Option<Grid>)
        ensures
            r is Some <==> (Grid { width, height }).wf(),
            r matches Some(g) ==> g.width == width && g.height == height,
    {
        if width == 0 || height == 0 {
            return None;
        }
        match width.checked_mul(height) {
            Some(_) => Some(Grid { width, height }),
            None => None,
        }
    }

    /// Number of pixels of the grid.
    pub fn len(&self) -> (n: usize)
        requires
            self.wf(),
        ensures
            n == self.area(),
    {
        self.width * self.height
    }
}

/// The visible rectangle of the plane, by its four bounds in fixed-point
/// units.
#[derive(Clone, Copy, Debug, PartialEq, Eq, Structural)]
pub struct Viewport {
    pub top: i64,
    pub left: i64,
    pub right: i64,
    pub bottom: i64,
}

impl Viewport {
    /// The rectangle is not degenerate (`top > bottom`, `right > left`) and
    /// every bound is within `LIMIT` of zero.
    pub open spec fn wf(&self) -> bool {
        &&& self.bottom < self.top
        &&& self.left < self.right
        &&& -LIMIT <= self.left
        &&& self.right <= LIMIT
        &&& -LIMIT <= self.bottom
        &&& self.top <= LIMIT
    }

    /// Width of the rectangle: `right - left`.
    pub open spec fn spec_width(&self) -> int {
        self.right - self.left
    }

    /// Height of the rectangle: `top - bottom`.
    pub open spec fn spec_height(&self) -> int {
        self.top - self.bottom
    }

    /// Abscissa of the centre: `(left + right) / 2`, rounded down.
    pub open spec fn spec_center_x(&self) -> int {
        (self.left + self.right) / 2
    }

    /// Ordinate of the centre: `(top + bottom) / 2`, rounded down.
    pub open spec fn spec_center_y(&self) -> int {
        (self.top + self.bottom) / 2
    }

    /// Abscissa of pixel column `col` on a grid `width` pixels wide:
    /// `left + col * (right - left) / width`, the product divided last and
    /// rounded down.
    pub open spec fn plane_x(&self, width: int, col: int) -> int {
        self.left + (col * (self.right - self.left)) / width
    }

    /// Ordinate of pixel row `row` on a grid `height` pixels high, row 0 at
    /// the top: `top - row * (top - bottom) / height`, the product divided
    /// last and rounded down.
    pub open spec fn plane_y(&self, height: int, row: int) -> int {
        self.top - (row * (self.top - self.bottom)) / height
    }

    /// The point of the plane that pixel `(row, col)` of `grid` stands for.
    pub open spec fn plane_point(&self, grid: Grid, row: int, col: int) -> (int, int) {
        (self.plane_x(grid.width as int, col), self.plane_y(grid.height as int, row))
    }

    /// Makes a viewport from its four bounds, or `None` if they do not form
    /// a well-formed rectangle.
    pub fn new(top: i64, left: i64, right: i64, bottom: i64) -> (r: Option<Viewport>)
        ensures
            r is Some <==> (Viewport { top, left, right, bottom }).wf(),
            r matches Some(v) ==> v == (Viewport { top, left, right, bottom }),
    {
        if bottom < top && left < right && -LIMIT <= left && right <= LIMIT && -LIMIT <= bottom
            && top <= LIMIT {
            Some(Viewport { top, left, right, bottom })
        } else {
            None
        }
    }

    /// The viewport that shows the whole set: from `-2.0` to `1.0` across and
    /// from `-1.5` to `1.5` upward.
    pub fn full() -> (v: Viewport)
        ensures
            v.wf(),
            2 * v.top == 3 * ONE,
            v.left == -2 * ONE,
            v.right == ONE,
            v.bottom == -v.top,
    {
        let half: i64 = ONE / 2;
        Viewport { top: ONE + half, left: 0 - 2 * ONE, right: ONE, bottom: 0 - (ONE + half) }
    }

    /// Width of the rectangle.
    pub fn width(&self) -> (w: i64)
        requires
            self.wf(),
        ensures
            w == self.spec_width(),
            w > 0,
    {
        self.right - self.left
    }

    /// Height of the rectangle.
    pub fn height(&self) -> (h: i64)
        requires
            self.wf(),
        ensures
            h == self.spec_height(),
            h > 0,
    {
        self.top - self.bottom
    }

    /// Centre of the rectangle, abscissa first.
    pub fn center(&self) -> (c: (i64, i64))
        requires
            self.wf(),
        ensures
            c.0 == self.spec_center_x(),
            c.1 == self.spec_center_y(),
            self.left <= c.0 < self.right,
            self.bottom <= c.1 < self.top,
    {
        let x: i128 = floor_div((self.left + self.right) as i128, 2);
        let y: i128 = floor_div((self.top + self.bottom) as i128, 2);
        (x as i64, y as i64)
    }

    /// Maps pixel `(row, col)` of `grid` to its point of the plane, abscissa
    /// first. Row 0 is the top of the image; row `height` and column `width`
    /// stand for the bottom and the right bound.
    pub fn point_at(&self, grid: &Grid, row: usize, col: usize) -> (p: (i64, i64))
        requires
            self.wf(),
            grid.wf(),
            row <= grid.height,
            col <= grid.width,
        ensures
            (p.0 as int, p.1 as int) == self.plane_point(*grid, row as int, col as int),
            self.left <= p.0 <= self.right,
            self.bottom <= p.1 <= self.top,
    {
        let w: i128 = (self.right - self.left) as i128;
        let h: i128 = (self.top - self.bottom) as i128;
        proof {
            assert(0 <= col * w <= grid.width * w) by (nonlinear_arith)
                requires 0 <= col <= grid.width, w > 0;
            assert(0 <= row * h <= grid.height * h) by (nonlinear_arith)
                requires 0 <= row <= grid.height, h > 0;
            assert(grid.width * w <= 0x1_0000_0000_0000_0000 * w) by (nonlinear_arith)
                requires grid.width <= 0x1_0000_0000_0000_0000, w > 0;
            assert(grid.height * h <= 0x1_0000_0000_0000_0000 * h) by (nonlinear_arith)
                requires grid.height <= 0x1_0000_0000_0000_0000, h > 0;
        }
        let dx: i128 = floor_div((col as i128) * w, grid.width as i128);
        let dy: i128 = floor_div((row as i128) * h, grid.height as i128);
        proof {
            assert(0 <= dx <= w) by (nonlinear_arith)
                requires
                    dx * grid.width <= col * w < dx * grid.width + grid.width,
                    0 <= col * w <= grid.width * w,
                    grid.width > 0;
            assert(0 <= dy <= h) by (nonlinear_arith)
                requires
                    dy * grid.height <= row * h < dy * grid.height + grid.height,
                    0 <= row * h <= grid.height * h,
                    grid.height > 0;
        }
        ((self.left as i128 + dx) as i64, (self.top as i128 - dy) as i64)
    }
}

/// Pixel `(0, 0)` stands for the top-left corner of the viewport exactly.
pub proof fn lemma_first_pixel_is_top_left(view: Viewport, grid: Grid)
    requires
        grid.wf(),
    ensures
        view.plane_point(grid, 0, 0) == (view.left as int, view.top as int),
{
    assert(0int / (grid.width as int) == 0);
    assert(0int / (grid.height as int) == 0);
    assert(0 * (view.right - view.left) == 0);
    assert(0 * (view.top - view.bottom) == 0);
}

} // verus!
