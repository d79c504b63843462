//! One frame of the interactive explorer: what to do with the viewport and
//! the pixel buffer given what the display surface reports.
use vstd::prelude::*;
use crate::fixed::ONE;
use crate::render::{draw_mandelbrot, pixel_color};
use crate::viewport::{Grid, Viewport};
use crate::zoom::{zoom, zoomed, Direction, ZoomStep};

verus! {

/// What the display surface reports for one frame: whether the zoom-in and
/// the zoom-out control are held, and the pixel under the cursor as
/// `(column, row)`, if the cursor can be read.
#[derive(Clone, Copy, Debug)]
pub struct Input {
    pub zoom_in: bool,
    pub zoom_out: bool,
    pub cursor: Option<(usize, usize)>,
}

/// The zoom step an input asks for: zooming in where that control is held,
/// zooming out where only the other is, and none where neither is held or
/// the cursor cannot be read.
pub open spec fn requested(input: Input, factor: i64) -> Option<ZoomStep> {
    if input.zoom_in {
        match input.cursor {
            Some(c) => Some(
                ZoomStep { column: c.0, row: c.1, direction: Direction::In, factor },
            ),
            None => None,
        }
    } else if input.zoom_out {
        match input.cursor {
            Some(c) => Some(
                ZoomStep { column: c.0, row: c.1, direction: Direction::Out, factor },
            ),
            None => None,
        }
    } else {
        None
    }
}

/// Reads the zoom step that an input asks for.
pub fn request(input: &Input, factor: i64) -> (r: Option<ZoomStep>)
    ensures
        r == requested(*input, factor),
{
    let direction: Direction = if input.zoom_in {
        Direction::In
    } else if input.zoom_out {
        Direction::Out
    } else {
        return None;
    };
    match input.cursor {
        Some(c) => Some(ZoomStep { column: c.0, row: c.1, direction, factor }),
        None => None,
    }
}

/// Advances the explorer by one frame.
///
/// Where the input asks for a zoom step, the viewport takes that step and
/// the whole buffer is rendered anew from the viewport that results; the
/// function then returns `true`. Otherwise viewport and buffer stay as they
/// are, and it returns `false`.
pub fn tick(
    view: &mut Viewport,
    buffer: &mut Vec<u32>,
    grid: &Grid,
    input: &Input,
    factor: i64,
    t: i64,
    max_iter: usize,
) -> (redrawn: bool)
    requires
        old(view).wf(),
        grid.wf(),
        old(buffer)@.len() == grid.area(),
        0 < t < ONE,
        input.cursor matches Some(c) ==> c.0 <= grid.width && c.1 <= grid.height,
    ensures
        final(view).wf(),
        final(buffer)@.len() == old(buffer)@.len(),
        redrawn == (requested(*input, factor) is Some),
        match requested(*input, factor) {
            Some(step) => {
                &&& *final(view) == zoomed(*old(view), *grid, step, t as int)
                &&& forall|row: int, col: int|
                    0 <= row < grid.height && 0 <= col < grid.width ==> final(buffer)@[row
                        * grid.width + col] == #[trigger] pixel_color(
                        *final(view),
                        *grid,
                        row,
                        col,
                        max_iter as nat,
                    )
            },
            None => *final(view) == *old(view) && final(buffer)@ == old(buffer)@,
        },
{
    match request(input, factor) {
        Some(step) => {
            let next: Viewport = zoom(view, grid, &step, t);
            *view = next;
            draw_mandelbrot(buffer, view, grid, max_iter);
            true
        },
        None => false,
    }
}

} // verus!
