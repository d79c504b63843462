//! The zoom controller: one frame's step of the viewport toward the cursor,
//! and the exponent that makes the zoom speed independent of the frame rate.
use vstd::prelude::*;
use crate::fixed::{floor_div, LIMIT, ONE};
use crate::viewport::{Grid, Viewport};

verus! {

/// Which way a zoom step scales the viewport.
#[derive(Clone, Copy, Debug, PartialEq, Eq, Structural)]
pub enum Direction {
    /// The rectangle shrinks: its half-extents are divided by the factor.
    In,
    /// The rectangle grows: its half-extents are multiplied by the factor.
    Out,
}

/// One zoom step as asked for: the pixel the cursor is on, by column and
/// row, which way to zoom, and by which fixed-point factor.
#[derive(Clone, Copy, Debug, PartialEq, Eq, Structural)]
pub struct ZoomStep {
    pub column: usize,
    pub row: usize,
    pub direction: Direction,
    pub factor: i64,
}

/// A centre coordinate moved the fraction `t` of the way toward `p`:
/// `center * (1 - t) + p * t`, rounded down.
pub open spec fn recenter(center: int, p: int, t: int) -> int {
    (center * (ONE - t) + p * t) / (ONE as int)
}

/// A half-extent scaled by the factor `z`: divided by it and rounded down to
/// zoom in, multiplied by it and rounded up to zoom out.
pub open spec fn rescale(half: int, direction: Direction, z: int) -> int {
    match direction {
        Direction::In => (half * ONE) / z,
        Direction::Out => (half * z + (ONE - 1)) / (ONE as int),
    }
}

/// The bounds a zoom step aims at, as `(top, left, right, bottom)`: the
/// recentred centre, plus and minus the rescaled half-extents.
pub open spec fn target(view: Viewport, grid: Grid, step: ZoomStep, t: int) -> (int, int, int, int) {
    let p = view.plane_point(grid, step.row as int, step.column as int);
    let cx = recenter(view.spec_center_x(), p.0, t);
    let cy = recenter(view.spec_center_y(), p.1, t);
    let hw = rescale(view.spec_width() / 2, step.direction, step.factor as int);
    let hh = rescale(view.spec_height() / 2, step.direction, step.factor as int);
    (cy + hh, cx - hw, cx + hw, cy - hh)
}

/// Whether four bounds `(top, left, right, bottom)` form a well-formed
/// viewport.
pub open spec fn admissible(b: (int, int, int, int)) -> bool {
    &&& b.3 < b.0
    &&& b.1 < b.2
    &&& -LIMIT <= b.1
    &&& b.2 <= LIMIT
    &&& -LIMIT <= b.3
    &&& b.0 <= LIMIT
}

/// The viewport after a zoom step: the target bounds where the factor is
/// positive and they form a well-formed viewport, the viewport as it was
/// otherwise.
pub open spec fn zoomed(view: Viewport, grid: Grid, step: ZoomStep, t: int) -> Viewport {
    let b = target(view, grid, step, t);
    if step.factor > 0 && admissible(b) {
        Viewport { top: b.0 as i64, left: b.1 as i64, right: b.2 as i64, bottom: b.3 as i64 }
    } else {
        view
    }
}

/// The viewport after a sequence of zoom steps, first step first.
pub open spec fn zoomed_all(view: Viewport, grid: Grid, steps: Seq<ZoomStep>, t: int) -> Viewport
    decreases steps.len(),
{
    if steps.len() == 0 {
        view
    } else {
        zoomed(zoomed_all(view, grid, steps.drop_last(), t), grid, steps.last(), t)
    }
}

/// A zoom step keeps a well-formed viewport well formed: `top > bottom`,
/// `right > left`, and every bound within `LIMIT`.
pub proof fn lemma_zoom_keeps_well_formed(view: Viewport, grid: Grid, step: ZoomStep, t: int)
    requires
        view.wf(),
    ensures
        zoomed(view, grid, step, t).wf(),
{
}

/// Any sequence of zoom steps, in and out, keeps a well-formed viewport well
/// formed.
pub proof fn lemma_zoom_sequence_keeps_well_formed(
    view: Viewport,
    grid: Grid,
    steps: Seq<ZoomStep>,
    t: int,
)
    requires
        view.wf(),
    ensures
        zoomed_all(view, grid, steps, t).wf(),
    decreases steps.len(),
{
    if steps.len() > 0 {
        lemma_zoom_sequence_keeps_well_formed(view, grid, steps.drop_last(), t);
        lemma_zoom_keeps_well_formed(
            zoomed_all(view, grid, steps.drop_last(), t),
            grid,
            steps.last(),
            t,
        );
    }
}

/// Moves one centre coordinate toward `p`.
fn recenter_coordinate(center: i64, p: i64, t: i64) -> (c: i64)
    requires
        -LIMIT <= center <= LIMIT,
        -LIMIT <= p <= LIMIT,
        0 < t < ONE,
    ensures
        c == recenter(center as int, p as int, t as int),
        -LIMIT <= c <= LIMIT,
{
    let keep: i128 = (ONE - t) as i128;
    let ghost a: int = LIMIT * keep;
    let ghost b: int = LIMIT * t;
    let ghost top: int = LIMIT * ONE;
    proof {
        assert(-a <= center * keep <= a) by (nonlinear_arith)
            requires -LIMIT <= center <= LIMIT, keep >= 0, a == LIMIT * keep;
        assert(-b <= p * t <= b) by (nonlinear_arith)
            requires -LIMIT <= p <= LIMIT, t >= 0, b == LIMIT * t;
        assert(a + b == top && a >= 0 && b >= 0) by (nonlinear_arith)
            requires keep == ONE - t, a == LIMIT * keep, b == LIMIT * t, top == LIMIT * ONE,
                keep >= 0, t >= 0, LIMIT >= 0;
        assert(top == 0x2_0000_0000_0000_0000_0000_0000_0000int);
    }
    let n: i128 = (center as i128) * keep + (p as i128) * (t as i128);
    let q: i128 = floor_div(n, ONE as i128);
    proof {
        assert(-LIMIT <= q <= LIMIT) by (nonlinear_arith)
            requires
                q * ONE <= n < q * ONE + ONE,
                -top <= n <= top,
                top == LIMIT * ONE,
                ONE > 0;
    }
    q as i64
}

/// Scales one half-extent by a positive factor.
fn rescale_extent(half: i64, direction: Direction, z: i64) -> (h: i128)
    requires
        0 <= half <= LIMIT,
        z > 0,
    ensures
        h == rescale(half as int, direction, z as int),
        0 <= h <= 0x1000_0000_0000_0000_0000_0000_0000_0000,
{
    match direction {
        Direction::In => {
            proof {
                assert(0 <= half * ONE <= LIMIT * ONE) by (nonlinear_arith)
                    requires 0 <= half <= LIMIT, ONE > 0;
                assert(LIMIT * ONE == 0x2_0000_0000_0000_0000_0000_0000_0000int);
            }
            let n: i128 = (half as i128) * (ONE as i128);
            let q: i128 = floor_div(n, z as i128);
            proof {
                assert(0 <= q <= n) by (nonlinear_arith)
                    requires q * z <= n < q * z + z, n >= 0, z >= 1;
            }
            q
        },
        Direction::Out => {
            proof {
                assert(0 <= half * z <= LIMIT * 0x8000_0000_0000_0000) by (nonlinear_arith)
                    requires 0 <= half <= LIMIT, 0 < z <= 0x8000_0000_0000_0000;
                assert(LIMIT * 0x8000_0000_0000_0000 == 0x1000_0000_0000_0000_0000_0000_0000_0000int);
            }
            let n: i128 = (half as i128) * (z as i128) + ((ONE - 1) as i128);
            let q: i128 = floor_div(n, ONE as i128);
            proof {
                assert(0 <= q <= n) by (nonlinear_arith)
                    requires q * ONE <= n < q * ONE + ONE, n >= 0, ONE >= 1;
            }
            q
        },
    }
}

/// The zoom controller: one frame's step of `view`.
///
/// Maps the cursor to its point of the plane, moves the centre the fraction
/// `t` of the way toward it, scales the half-extents by the step's factor,
/// and derives the four bounds. Where the factor is not positive, or the
/// bounds would be degenerate or reach beyond `LIMIT`, the viewport is
/// returned as it was.
pub fn zoom(view: &Viewport, grid: &Grid, step: &ZoomStep, t: i64) -> (next: Viewport)
    requires
        view.wf(),
        grid.wf(),
        step.column <= grid.width,
        step.row <= grid.height,
        0 < t < ONE,
    ensures
        next == zoomed(*view, *grid, *step, t as int),
        next.wf(),
{
    if step.factor <= 0 {
        return *view;
    }
    let (px, py) = view.point_at(grid, step.row, step.column);
    let (cx, cy) = view.center();
    let ncx: i64 = recenter_coordinate(cx, px, t);
    let ncy: i64 = recenter_coordinate(cy, py, t);
    let half_w: i128 = floor_div(view.width() as i128, 2);
    let half_h: i128 = floor_div(view.height() as i128, 2);
    let hw: i128 = rescale_extent(half_w as i64, step.direction, step.factor);
    let hh: i128 = rescale_extent(half_h as i64, step.direction, step.factor);
    let top: i128 = ncy as i128 + hh;
    let left: i128 = ncx as i128 - hw;
    let right: i128 = ncx as i128 + hw;
    let bottom: i128 = ncy as i128 - hh;
    let limit: i128 = LIMIT as i128;
    if bottom < top && left < right && -limit <= left && right <= limit && -limit <= bottom && top
        <= limit {
        Viewport { top: top as i64, left: left as i64, right: right as i64, bottom: bottom as i64 }
    } else {
        *view
    }
}

/// The exponent of the frame-rate compensation, as the fraction
/// `numerator / denominator`: the target frame rate over the frame rate
/// achieved, which is the target rate times the seconds elapsed. With no
/// elapsed time measured (zero) the achieved rate counts as the target rate,
/// and the exponent is 1.
pub open spec fn exponent(elapsed_nanos: int, target_fps: int) -> (int, int) {
    if elapsed_nanos == 0 {
        (1, 1)
    } else {
        (target_fps * elapsed_nanos, 1_000_000_000)
    }
}

/// Computes the exponent to which the base zoom factor is raised for a frame
/// that took `elapsed_nanos` nanoseconds.
pub fn zoom_exponent(elapsed_nanos: u64, target_fps: u64) -> (e: (u128, u128))
    ensures
        (e.0 as int, e.1 as int) == exponent(elapsed_nanos as int, target_fps as int),
        e.1 > 0,
{
    if elapsed_nanos == 0 {
        (1, 1)
    } else {
        proof {
            assert(target_fps * elapsed_nanos <= 0xFFFF_FFFF_FFFF_FFFF * 0xFFFF_FFFF_FFFF_FFFF)
                by (nonlinear_arith)
                requires
                    0 <= target_fps <= 0xFFFF_FFFF_FFFF_FFFF,
                    0 <= elapsed_nanos <= 0xFFFF_FFFF_FFFF_FFFF;
        }
        ((target_fps as u128) * (elapsed_nanos as u128), 1_000_000_000)
    }
}

/// A frame that took `k` times as long gets `k` times the exponent.
pub proof fn lemma_exponent_scales_with_elapsed(elapsed_nanos: int, k: int, target_fps: int)
    requires
        elapsed_nanos > 0,
        k > 0,
    ensures
        exponent(k * elapsed_nanos, target_fps).1 == exponent(elapsed_nanos, target_fps).1,
        exponent(k * elapsed_nanos, target_fps).0 == k * exponent(elapsed_nanos, target_fps).0,
{
    assert(k * elapsed_nanos > 0) by (nonlinear_arith)
        requires k > 0, elapsed_nanos > 0;
    assert(target_fps * (k * elapsed_nanos) == k * (target_fps * elapsed_nanos))
        by (nonlinear_arith);
}

} // verus!
