use mandelbrot::config::{FRAMERATE, SMOOTHING, ZOOM};
use mandelbrot::fixed::{LIMIT, ONE};
use mandelbrot::viewport::{Grid, Viewport};
use mandelbrot::zoom::{zoom, zoom_exponent, Direction, ZoomStep};

fn grid() -> Grid {
    Grid::new(500, 500).unwrap()
}

fn step(column: usize, row: usize, direction: Direction, factor: i64) -> ZoomStep {
    ZoomStep { column, row, direction, factor }
}

fn bounds(v: &Viewport) -> (i64, i64, i64, i64) {
    (v.top, v.left, v.right, v.bottom)
}

fn well_formed(v: &Viewport) -> bool {
    v.bottom < v.top
        && v.left < v.right
        && -LIMIT <= v.left
        && v.right <= LIMIT
        && -LIMIT <= v.bottom
        && v.top <= LIMIT
}

#[test]
fn configured_factors_are_the_decimal_values() {
    assert_eq!(ZOOM, (1.005f64 * (ONE as f64)).round() as i64);
    assert_eq!(SMOOTHING, (0.1f64 * (ONE as f64)).round() as i64);
    assert_eq!(FRAMERATE, 60);
}

#[test]
fn zoom_in_at_the_center_keeps_the_center() {
    let v = zoom(&Viewport::full(), &grid(), &step(250, 250, Direction::In, ZOOM), SMOOTHING);
    assert_eq!(
        bounds(&v),
        (6721790488612681, -8973590302297929, 4469990674927433, -6721790488612681)
    );
    assert_eq!(v.center(), (-ONE / 2, 0));
}

#[test]
fn zoom_out_at_the_center_keeps_the_center() {
    let v = zoom(&Viewport::full(), &grid(), &step(250, 250, Direction::Out, ZOOM), SMOOTHING);
    assert_eq!(
        bounds(&v),
        (6789176438261022, -9040976251946270, 4537376624575774, -6789176438261022)
    );
    assert_eq!(v.center(), (-ONE / 2, 0));
}

#[test]
fn zoom_moves_the_center_a_tenth_of_the_way_to_the_cursor() {
    let v = zoom(&Viewport::full(), &grid(), &step(0, 0, Direction::In, ZOOM), SMOOTHING);
    assert_eq!(
        bounds(&v),
        (7397330432718256, -9649130246403504, 3794450730821858, -6046250544507106)
    );
    let w = zoom(&Viewport::full(), &grid(), &step(500, 500, Direction::Out, ZOOM), SMOOTHING);
    assert_eq!(
        bounds(&w),
        (6113636494155447, -8365436307840695, 5212916568681349, -7464716382366597)
    );
}

#[test]
fn zoom_by_two_halves_the_extents() {
    let v = zoom(&Viewport::full(), &grid(), &step(125, 375, Direction::In, 2 * ONE), SMOOTHING);
    assert_eq!(
        bounds(&v),
        (3039929748475084, -5967269506265908, 788129934789836, -3715469692580660)
    );
    assert_eq!(v.width(), 3 * ONE / 2);
    assert_eq!(v.height(), 3 * ONE / 2);
}

#[test]
fn factor_one_changes_only_the_center() {
    let full = Viewport::full();
    let same = zoom(&full, &grid(), &step(250, 250, Direction::In, ONE), SMOOTHING);
    assert_eq!(same, full);
    let out = zoom(&full, &grid(), &step(250, 250, Direction::Out, ONE), SMOOTHING);
    assert_eq!(out, full);
    let moved = zoom(&full, &grid(), &step(500, 250, Direction::In, ONE), ONE / 2);
    assert_eq!(moved.width(), full.width());
    assert_eq!(moved.height(), full.height());
    // The cursor is on the right bound, at 1.0; half the way from -0.5 is 0.25.
    assert_eq!(moved.center(), (ONE / 4, 0));
}

#[test]
fn factor_that_is_not_positive_leaves_the_viewport() {
    let full = Viewport::full();
    for factor in [0i64, -1, -ONE, i64::MIN] {
        assert_eq!(zoom(&full, &grid(), &step(10, 20, Direction::In, factor), SMOOTHING), full);
        assert_eq!(zoom(&full, &grid(), &step(10, 20, Direction::Out, factor), SMOOTHING), full);
    }
}

#[test]
fn step_that_would_collapse_the_viewport_is_dropped() {
    // The largest factor still leaves the full viewport 1.5 * 2^41 units each way.
    let full = Viewport::full();
    let v = zoom(&full, &grid(), &step(250, 250, Direction::In, i64::MAX), SMOOTHING);
    assert_eq!(
        bounds(&v),
        (3298534883328, -2255098348568576, -2248501278801920, -3298534883328)
    );
    // A half-extent of 2047 units divided by it rounds down to nothing.
    let small = Viewport::new(2047, -2047, 2047, -2047).unwrap();
    let s = zoom(&small, &grid(), &step(250, 250, Direction::In, i64::MAX), SMOOTHING);
    assert_eq!(s, small);
    // One unit more and a single unit is left each way.
    let above = Viewport::new(2048, -2048, 2048, -2048).unwrap();
    let a = zoom(&above, &grid(), &step(250, 250, Direction::In, i64::MAX), SMOOTHING);
    assert_eq!(bounds(&a), (1, -1, 1, -1));
    let tiny = Viewport::new(1, -1, 1, -1).unwrap();
    let w = zoom(&tiny, &grid(), &step(250, 250, Direction::In, ZOOM), SMOOTHING);
    assert_eq!(w, tiny);
}

#[test]
fn step_that_would_leave_the_plane_is_dropped() {
    let full = Viewport::full();
    let v = zoom(&full, &grid(), &step(250, 250, Direction::Out, i64::MAX), SMOOTHING);
    assert_eq!(v, full);
    let wide = Viewport::new(LIMIT, -LIMIT, LIMIT, -LIMIT).unwrap();
    let w = zoom(&wide, &grid(), &step(250, 250, Direction::Out, ZOOM), SMOOTHING);
    assert_eq!(w, wide);
    let x = zoom(&wide, &grid(), &step(250, 250, Direction::Out, ONE), SMOOTHING);
    assert_eq!(x, wide);
}

#[test]
fn smallest_viewport_can_still_grow() {
    let tiny = Viewport::new(1, -1, 1, -1).unwrap();
    let v = zoom(&tiny, &grid(), &step(250, 250, Direction::Out, ZOOM), SMOOTHING);
    assert_eq!(bounds(&v), (2, -2, 2, -2));
    let w = zoom(&v, &grid(), &step(250, 250, Direction::Out, ZOOM), SMOOTHING);
    assert_eq!(bounds(&w), (3, -3, 3, -3));
}

#[test]
fn viewport_stays_well_formed_through_any_run_of_steps() {
    let g = grid();
    let mut v = Viewport::full();
    let mut seed: u64 = 0x9E3779B97F4A7C15;
    for round in 0..20000usize {
        seed = seed.wrapping_mul(6364136223846793005).wrapping_add(1442695040888963407);
        let column = ((seed >> 33) % 501) as usize;
        let row = ((seed >> 13) % 501) as usize;
        let direction = if round % 7000 < 5000 { Direction::In } else { Direction::Out };
        let factor = match round % 11 {
            0 => 3 * ONE,
            1 => ONE / 3,
            2 => 0,
            _ => ZOOM,
        };
        v = zoom(&v, &g, &step(column, row, direction, factor), SMOOTHING);
        assert!(well_formed(&v));
        assert!(Viewport::new(v.top, v.left, v.right, v.bottom).is_some());
    }
}

#[test]
fn zooming_in_for_long_stops_at_the_grid_of_the_plane() {
    let g = grid();
    let mut v = Viewport::full();
    for _ in 0..20000usize {
        v = zoom(&v, &g, &step(250, 250, Direction::In, ZOOM), SMOOTHING);
    }
    assert!(well_formed(&v));
    assert_eq!(v.width(), 2);
    assert_eq!(v.height(), 2);
}

#[test]
fn zooming_out_for_long_stops_inside_the_limit() {
    let g = grid();
    let mut v = Viewport::full();
    for _ in 0..20000usize {
        v = zoom(&v, &g, &step(250, 250, Direction::Out, ZOOM), SMOOTHING);
    }
    assert!(well_formed(&v));
    assert!(v.width() > 500 * ONE);
}

#[test]
fn exponent_is_one_when_no_time_was_measured() {
    assert_eq!(zoom_exponent(0, 60), (1, 1));
    assert_eq!(zoom_exponent(0, 0), (1, 1));
    assert_eq!(zoom_exponent(0, u64::MAX), (1, 1));
}

#[test]
fn exponent_is_target_rate_times_elapsed_seconds() {
    // A frame of exactly 1/60 s at 60 frames a second: exponent 1.
    let (n, d) = zoom_exponent(1_000_000_000 / 60 * 60, 1);
    assert_eq!((n, d), (999_999_960, 1_000_000_000));
    assert_eq!(zoom_exponent(16_666_667, 60), (1_000_000_020, 1_000_000_000));
    assert_eq!(zoom_exponent(1_000_000_000, 60), (60_000_000_000, 1_000_000_000));
    assert_eq!(zoom_exponent(1, 0), (0, 1_000_000_000));
    assert_eq!(
        zoom_exponent(u64::MAX, u64::MAX),
        ((u64::MAX as u128) * (u64::MAX as u128), 1_000_000_000)
    );
}

#[test]
fn frame_twice_as_long_gets_twice_the_exponent() {
    for elapsed in [1u64, 8_000_000, 16_666_667, 33_000_000, 250_000_000] {
        let (n1, d1) = zoom_exponent(elapsed, FRAMERATE);
        for k in [2u64, 3, 10] {
            let (nk, dk) = zoom_exponent(k * elapsed, FRAMERATE);
            assert_eq!(dk, d1);
            assert_eq!(nk, (k as u128) * n1);
            // The factors themselves, as the display loop computes them.
            let z1 = 1.005f64.powf(n1 as f64 / d1 as f64);
            let zk = 1.005f64.powf(nk as f64 / dk as f64);
            let ratio = zk.ln() / z1.ln();
            assert!((ratio - k as f64).abs() < 1e-6 * k as f64);
        }
    }
}
