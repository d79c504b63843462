//! The frame renderer: a colour for every pixel of the grid.
use vstd::prelude::*;
use vstd::arithmetic::div_mod::lemma_fundamental_div_mod_converse;
use rayon::iter::{IndexedParallelIterator, ParallelIterator};
use rayon::slice::ParallelSliceMut;
use crate::color::{shade, shade_pixel};
use crate::config::WIDTH;
use crate::escape::{escape_index, is_point_in_mandelbrot};
use crate::viewport::{Grid, Viewport};

verus! {

/// Colour of pixel `(row, col)`: the shade of the escape result of the point
/// the pixel stands for.
pub open spec fn pixel_color(view: Viewport, grid: Grid, row: int, col: int, max_iter: nat) -> int {
    shade(escape_index(view.plane_point(grid, row, col), max_iter), max_iter)
}

/// Computes the colour of one pixel.
pub fn color_at(view: &Viewport, grid: &Grid, row: usize, col: usize, max_iter: usize) -> (c: u32)
    requires
        view.wf(),
        grid.wf(),
        row < grid.height,
        col < grid.width,
    ensures
        c == pixel_color(*view, *grid, row as int, col as int, max_iter as nat),
{
    let (x, y) = view.point_at(grid, row, col);
    let escape: Option<usize> = is_point_in_mandelbrot(x, y, max_iter);
    shade_pixel(escape, max_iter)
}

/// Paints one row of the image: `line` becomes row `row` of the frame.
pub fn draw_row(line: &mut [u32], view: &Viewport, grid: &Grid, row: usize, max_iter: usize)
    requires
        view.wf(),
        grid.wf(),
        row < grid.height,
        old(line)@.len() == grid.width,
    ensures
        final(line)@.len() == old(line)@.len(),
        forall|col: int|
            0 <= col < grid.width ==> final(line)@[col] == #[trigger] pixel_color(
                *view,
                *grid,
                row as int,
                col,
                max_iter as nat,
            ),
{
    let n: usize = grid.width;
    let mut col: usize = 0;
    while col < n
        invariant
            view.wf(),
            grid.wf(),
            row < grid.height,
            n == grid.width,
            line@.len() == n,
            col <= n,
            forall|k: int|
                0 <= k < col ==> line@[k] == #[trigger] pixel_color(
                    *view,
                    *grid,
                    row as int,
                    k,
                    max_iter as nat,
                ),
        decreases n - col,
    {
        line[col] = color_at(view, grid, row, col, max_iter);
        col += 1;
    }
}

/// Hands the rows of `buffer` to `rayon`'s worker pool:
/// `par_chunks_mut(grid.width)` cuts the buffer into rows, `enumerate`
/// numbers them from the top, and `for_each` runs `draw_row` on each.
///
/// Trusted: that the chunk numbered `p / grid.width` holds the element at
/// index `p` at offset `p % grid.width`, that every chunk is visited once,
/// and that nothing else in the buffer changes. What `draw_row` leaves in a
/// chunk is its own verified postcondition.
#[verifier::external_body]
fn draw_rows_in_parallel(buffer: &mut Vec<u32>, view: &Viewport, grid: &Grid, max_iter: usize)
    requires
        view.wf(),
        grid.wf(),
        old(buffer)@.len() == grid.area(),
    ensures
        final(buffer)@.len() == old(buffer)@.len(),
        forall|p: int|
            0 <= p < final(buffer)@.len() ==> #[trigger] final(buffer)@[p] == pixel_color(
                *view,
                *grid,
                p / (grid.width as int),
                p % (grid.width as int),
                max_iter as nat,
            ),
{
    buffer.par_chunks_mut(grid.width).enumerate().for_each(
        |(row, line)| draw_row(line, view, grid, row, max_iter),
    );
}

/// The frame renderer: overwrites the whole row-major `buffer` with the
/// image of `view`, pixel `(row, col)` at index `row * grid.width + col`.
pub fn draw_mandelbrot(buffer: &mut Vec<u32>, view: &Viewport, grid: &Grid, max_iter: usize)
    requires
        view.wf(),
        grid.wf(),
        old(buffer)@.len() == grid.area(),
    ensures
        final(buffer)@.len() == old(buffer)@.len(),
        forall|row: int, col: int|
            0 <= row < grid.height && 0 <= col < grid.width ==> final(buffer)@[row * grid.width
                + col] == #[trigger] pixel_color(*view, *grid, row, col, max_iter as nat),
{
    draw_rows_in_parallel(buffer, view, grid, max_iter);
    proof {
        let w: int = grid.width as int;
        assert forall|row: int, col: int| 0 <= row < grid.height && 0 <= col < grid.width implies
            buffer@[row * grid.width + col] == #[trigger] pixel_color(
            *view,
            *grid,
            row,
            col,
            max_iter as nat,
        ) by {
            let p: int = row * w + col;
            assert(0 <= row * w && row * w + w <= w * grid.height) by (nonlinear_arith)
                requires 0 <= row < grid.height, w > 0;
            assert(row * w == w * row) by (nonlinear_arith);
            lemma_fundamental_div_mod_converse(p, w, row, col);
        }
    }
}

/// Whether index `p` of the buffer lies in row `row` between columns `left`
/// (included) and `right` (excluded).
pub open spec fn in_span(p: int, row: int, left: int, right: int) -> bool {
    left <= p - row * WIDTH < right
}

/// Whether index `p` of the buffer lies in the rectangle of rows
/// `top..bottom` and columns `left..right`.
pub open spec fn in_square(p: int, top: int, bottom: int, left: int, right: int) -> bool {
    exists|row: int| top <= row < bottom && #[trigger] in_span(p, row, left, right)
}

/// Fills the rectangle from `top_left` (included) to `bottom_right`
/// (excluded), each given as `(row, column)`, with `color`, on a buffer
/// `WIDTH` pixels wide. Every other pixel keeps its colour.
pub fn draw_square(
    buffer: &mut Vec<u32>,
    top_left: (usize, usize),
    bottom_right: (usize, usize),
    color: u32,
)
    requires
        top_left.0 < bottom_right.0 && top_left.1 < bottom_right.1 ==> (bottom_right.0 - 1) * WIDTH
            + (bottom_right.1 - 1) < old(buffer).len(),
    ensures
        final(buffer)@.len() == old(buffer)@.len(),
        forall|p: int|
            0 <= p < final(buffer)@.len() ==> #[trigger] final(buffer)@[p] == (if in_square(
                p,
                top_left.0 as int,
                bottom_right.0 as int,
                top_left.1 as int,
                bottom_right.1 as int,
            ) {
                color
            } else {
                old(buffer)@[p]
            }),
{
    let (top, left) = top_left;
    let (bot, right) = bottom_right;
    let mut i: usize = top;
    while i < bot
        invariant
            top <= i,
            i <= bot || i == top,
            buffer@.len() == old(buffer)@.len(),
            top < bot && left < right ==> (bot - 1) * WIDTH + (right - 1) < buffer.len(),
            forall|p: int|
                0 <= p < buffer@.len() ==> #[trigger] buffer@[p] == (if in_square(
                    p,
                    top as int,
                    i as int,
                    left as int,
                    right as int,
                ) {
                    color
                } else {
                    old(buffer)@[p]
                }),
        decreases bot - i,
    {
        let mut j: usize = left;
        while j < right
            invariant
                top <= i < bot,
                left <= j,
                j <= right || j == left,
                buffer@.len() == old(buffer)@.len(),
                top < bot && left < right ==> (bot - 1) * WIDTH + (right - 1) < buffer.len(),
                forall|p: int|
                    0 <= p < buffer@.len() ==> #[trigger] buffer@[p] == (if in_square(
                        p,
                        top as int,
                        i as int,
                        left as int,
                        right as int,
                    ) || in_span(p, i as int, left as int, j as int) {
                        color
                    } else {
                        old(buffer)@[p]
                    }),
            decreases right - j,
        {
            let ghost before = buffer@;
            assert(i * WIDTH + j <= (bot - 1) * WIDTH + (right - 1)) by (nonlinear_arith)
                requires i <= bot - 1, j <= right - 1;
            let q: usize = i * WIDTH + j;
            buffer[q] = color;
            proof {
                assert forall|p: int| 0 <= p < buffer@.len() implies #[trigger] buffer@[p] == (
                if in_square(p, top as int, i as int, left as int, right as int) || in_span(
                    p,
                    i as int,
                    left as int,
                    j + 1,
                ) {
                    color
                } else {
                    old(buffer)@[p]
                }) by {
                    assert(before[p] == (if in_square(
                        p,
                        top as int,
                        i as int,
                        left as int,
                        right as int,
                    ) || in_span(p, i as int, left as int, j as int) {
                        color
                    } else {
                        old(buffer)@[p]
                    }));
                }
            }
            j += 1;
        }
        proof {
            assert forall|p: int| 0 <= p < buffer@.len() implies #[trigger] buffer@[p] == (
            if in_square(p, top as int, i + 1, left as int, right as int) {
                color
            } else {
                old(buffer)@[p]
            }) by {
                let here: bool = in_span(p, i as int, left as int, right as int);
                assert(here ==> in_span(p, i as int, left as int, j as int));
                assert(in_span(p, i as int, left as int, j as int) ==> here);
                if in_square(p, top as int, i + 1, left as int, right as int) {
                    let r: int = choose|r: int|
                        top <= r < i + 1 && #[trigger] in_span(p, r, left as int, right as int);
                    if r < i {
                        assert(in_square(p, top as int, i as int, left as int, right as int));
                    }
                }
                if in_square(p, top as int, i as int, left as int, right as int) {
                    let r: int = choose|r: int|
                        top <= r < i && #[trigger] in_span(p, r, left as int, right as int);
                    assert(top <= r < i + 1 && in_span(p, r, left as int, right as int));
                }
            }
        }
        i += 1;
    }
    proof {
        assert forall|p: int| 0 <= p < buffer@.len() implies #[trigger] buffer@[p] == (
        if in_square(p, top as int, bot as int, left as int, right as int) {
            color
        } else {
            old(buffer)@[p]
        }) by {
            if i > bot {
                assert(!in_square(p, top as int, i as int, left as int, right as int));
                assert(!in_square(p, top as int, bot as int, left as int, right as int));
            }
        }
    }
}

} // verus!
