//! The escape-time evaluator: how many steps of `z <- z^2 + c` a point of the
//! plane survives before it leaves the disc of radius 2.
use vstd::prelude::*;
use crate::fixed::{div_toward_zero, lemma_trunc_div_is_odd, trunc_div, ONE};
use crate::complex::{complex_add, complex_mul, complex_norm_sqr};

verus! {

/// Square of the escape radius in squared fixed-point units: `4 * ONE^2 = 2^106`.
pub const RADIUS_SQ: i128 = 0x400_0000_0000_0000_0000_0000_0000;

/// One step of the iteration: `z^2 + c`, each component of the square rounded
/// toward zero to the fixed-point grid before `c` is added. Rounding toward
/// zero treats a value and its negative alike, so the step of a conjugate is
/// the conjugate of the step.
pub open spec fn step(z: (int, int), c: (int, int)) -> (int, int) {
    (
        trunc_div(z.0 * z.0 - z.1 * z.1, ONE as int) + c.0,
        trunc_div(z.0 * z.1 + z.1 * z.0, ONE as int) + c.1,
    )
}

/// The mirror image of a point below the real axis: its complex conjugate.
pub open spec fn mirror(z: (int, int)) -> (int, int) {
    (z.0, -z.1)
}

/// Whether `z` lies strictly outside the disc of radius 2: `|z|^2 > 4`.
pub open spec fn escaped(z: (int, int)) -> bool {
    z.0 * z.0 + z.1 * z.1 > 4 * ONE * ONE
}

/// The orbit of `0` under `z <- z^2 + c` after `n` steps.
pub open spec fn orbit(c: (int, int), n: nat) -> (int, int)
    decreases n,
{
    if n == 0 {
        (0, 0)
    } else {
        step(orbit(c, (n - 1) as nat), c)
    }
}

/// The least `k < max_iter` such that the orbit has escaped after step `k`
/// (steps counted from 0), or `None` if there is none.
pub open spec fn escape_index(c: (int, int), max_iter: nat) -> Option<nat>
    decreases max_iter,
{
    if max_iter == 0 {
        None
    } else {
        match escape_index(c, (max_iter - 1) as nat) {
            Some(k) => Some(k),
            None => if escaped(orbit(c, max_iter)) {
                Some((max_iter - 1) as nat)
            } else {
                None
            },
        }
    }
}

/// An executable escape result read as a mathematical one.
pub open spec fn index_view(r: Option<usize>) -> Option<nat> {
    match r {
        Some(k) => Some(k as nat),
        None => None,
    }
}

/// A point that has not escaped has both components within `[-2, 2]`.
pub proof fn lemma_inside_is_bounded(z: (int, int))
    requires
        !escaped(z),
    ensures
        -2 * ONE <= z.0 <= 2 * ONE,
        -2 * ONE <= z.1 <= 2 * ONE,
{
    let t: int = 2 * ONE;
    assert(4 * ONE * ONE == t * t) by (nonlinear_arith)
        requires t == 2 * ONE;
    assert(z.0 * z.0 >= 0 && z.1 * z.1 >= 0) by (nonlinear_arith);
    assert(z.0 > t ==> z.0 * z.0 > t * t) by (nonlinear_arith)
        requires t >= 0;
    assert(z.0 < -t ==> z.0 * z.0 > t * t) by (nonlinear_arith)
        requires t >= 0;
    assert(z.1 > t ==> z.1 * z.1 > t * t) by (nonlinear_arith)
        requires t >= 0;
    assert(z.1 < -t ==> z.1 * z.1 > t * t) by (nonlinear_arith)
        requires t >= 0;
}

/// What `escape_index` returns, said without recursion: `Some(k)` exactly
/// when step `k` is the first after which the orbit has escaped and
/// `k < max_iter`; `None` exactly when no step below `max_iter` escapes.
pub proof fn lemma_escape_index_is_first(c: (int, int), max_iter: nat)
    ensures
        match escape_index(c, max_iter) {
            Some(k) => {
                &&& k < max_iter
                &&& escaped(orbit(c, k + 1))
                &&& forall|j: nat| j < k ==> !escaped(#[trigger] orbit(c, j + 1))
            },
            None => forall|j: nat| j < max_iter ==> !escaped(#[trigger] orbit(c, j + 1)),
        },
    decreases max_iter,
{
    if max_iter > 0 {
        let m: nat = (max_iter - 1) as nat;
        lemma_escape_index_is_first(c, m);
        if escape_index(c, m) is None {
            assert(orbit(c, max_iter) == orbit(c, m + 1));
        }
    }
}

/// Raising the iteration limit never changes an escape index already found,
/// and an escape found only under the larger limit lies at or beyond the
/// smaller one.
pub proof fn lemma_escape_index_monotone(c: (int, int), small: nat, large: nat)
    requires
        small <= large,
    ensures
        escape_index(c, small) is Some ==> escape_index(c, large) == escape_index(c, small),
        escape_index(c, small) is None ==> match escape_index(c, large) {
            Some(k) => small <= k,
            None => true,
        },
    decreases large,
{
    if small < large {
        lemma_escape_index_monotone(c, small, (large - 1) as nat);
    }
}

/// The first step from 0 lands on the parameter itself.
pub proof fn lemma_first_step_is_parameter(c: (int, int))
    ensures
        orbit(c, 1) == c,
{
    assert(orbit(c, 0) == (0int, 0int));
    assert(orbit(c, 1) == step(orbit(c, 0), c));
    assert(0int / (ONE as int) == 0);
}

/// A point outside the disc of radius 2 escapes at index 0, whatever the
/// positive iteration limit.
pub proof fn lemma_outside_escapes_at_once(x: int, y: int, max_iter: nat)
    requires
        x * x + y * y > 4 * ONE * ONE,
        max_iter > 0,
    ensures
        escape_index((x, y), max_iter) == Some(0nat),
{
    let c = (x, y);
    lemma_first_step_is_parameter(c);
    assert(escape_index(c, 0) is None);
    assert(escape_index(c, 1) == Some(0nat));
    lemma_escape_index_monotone(c, 1, max_iter);
}

/// The step of a conjugate is the conjugate of the step.
pub proof fn lemma_step_of_mirror(z: (int, int), c: (int, int))
    ensures
        step(mirror(z), mirror(c)) == mirror(step(z, c)),
{
    let a: int = z.0;
    let b: int = z.1;
    assert((-b) * (-b) == b * b) by (nonlinear_arith);
    assert(a * (-b) + (-b) * a == -(a * b + b * a)) by (nonlinear_arith);
    lemma_trunc_div_is_odd(a * b + b * a, ONE as int);
}

/// Whether a point has escaped does not depend on the side of the real axis
/// it lies on.
pub proof fn lemma_escaped_of_mirror(z: (int, int))
    ensures
        escaped(mirror(z)) == escaped(z),
{
    assert((-z.1) * (-z.1) == z.1 * z.1) by (nonlinear_arith);
}

/// The orbit of a conjugate parameter is the conjugate orbit.
pub proof fn lemma_orbit_of_mirror(c: (int, int), n: nat)
    ensures
        orbit(mirror(c), n) == mirror(orbit(c, n)),
    decreases n,
{
    if n > 0 {
        lemma_orbit_of_mirror(c, (n - 1) as nat);
        lemma_step_of_mirror(orbit(c, (n - 1) as nat), c);
    }
}

/// A point and its mirror image below the real axis have the same escape
/// result, whatever the iteration limit.
pub proof fn lemma_mirror_point_has_same_index(x: int, y: int, max_iter: nat)
    ensures
        escape_index((x, -y), max_iter) == escape_index((x, y), max_iter),
    decreases max_iter,
{
    if max_iter > 0 {
        lemma_mirror_point_has_same_index(x, y, (max_iter - 1) as nat);
        lemma_orbit_of_mirror((x, y), max_iter);
        lemma_escaped_of_mirror(orbit((x, y), max_iter));
        assert(mirror((x, y)) == (x, -y));
    }
}

/// The orbit of the origin stays at the origin.
pub proof fn lemma_origin_orbit_is_fixed(n: nat)
    ensures
        orbit((0int, 0int), n) == (0int, 0int),
    decreases n,
{
    if n > 0 {
        lemma_origin_orbit_is_fixed((n - 1) as nat);
        assert(0int / (ONE as int) == 0);
    }
}

/// The origin never escapes, whatever the iteration limit.
pub proof fn lemma_origin_never_escapes(max_iter: nat)
    ensures
        escape_index((0int, 0int), max_iter) is None,
    decreases max_iter,
{
    if max_iter > 0 {
        lemma_origin_never_escapes((max_iter - 1) as nat);
        lemma_origin_orbit_is_fixed(max_iter);
    }
}

/// Tests whether the point `(re, im)` lies strictly outside the disc of
/// radius 2.
pub fn has_escaped(re: i64, im: i64) -> (b: bool)
    ensures
        b == escaped((re as int, im as int)),
{
    let edge: i64 = 2 * ONE;
    if re > edge || re < -edge || im > edge || im < -edge {
        proof {
            if !escaped((re as int, im as int)) {
                lemma_inside_is_bounded((re as int, im as int));
            }
        }
        true
    } else {
        let n: i128 = complex_norm_sqr(re, im);
        n > RADIUS_SQ
    }
}

/// Advances the orbit by one step from a point `z` within `[-2, 2]` in both
/// components, for a parameter `c` within `[-2, 2]` in both components.
fn advance(z_re: i64, z_im: i64, c_re: i64, c_im: i64) -> (w: (i64, i64))
    requires
        -2 * ONE <= z_re <= 2 * ONE,
        -2 * ONE <= z_im <= 2 * ONE,
        -2 * ONE <= c_re <= 2 * ONE,
        -2 * ONE <= c_im <= 2 * ONE,
    ensures
        (w.0 as int, w.1 as int) == step((z_re as int, z_im as int), (c_re as int, c_im as int)),
{
    let (s_re, s_im) = complex_mul(z_re, z_im, z_re, z_im);
    proof {
        let t: int = 2 * ONE;
        assert(0 <= z_re * z_re <= t * t) by (nonlinear_arith)
            requires -t <= z_re <= t;
        assert(0 <= z_im * z_im <= t * t) by (nonlinear_arith)
            requires -t <= z_im <= t;
        assert(-(t * t) <= z_re * z_im <= t * t) by (nonlinear_arith)
            requires -t <= z_re <= t, -t <= z_im <= t;
        assert(z_im * z_re == z_re * z_im) by (nonlinear_arith);
        assert(t * t == 4 * ONE * ONE) by (nonlinear_arith)
            requires t == 2 * ONE;
    }
    let q_re: i128 = div_toward_zero(s_re, ONE as i128);
    let q_im: i128 = div_toward_zero(s_im, ONE as i128);
    proof {
        assert(-8 * ONE <= q_re <= 8 * ONE) by (nonlinear_arith)
            requires
                s_re >= 0 ==> 0 <= q_re * ONE <= s_re,
                s_re <= 0 ==> s_re <= q_re * ONE <= 0,
                -8 * ONE * ONE <= s_re <= 8 * ONE * ONE,
                ONE > 0;
        assert(-8 * ONE <= q_im <= 8 * ONE) by (nonlinear_arith)
            requires
                s_im >= 0 ==> 0 <= q_im * ONE <= s_im,
                s_im <= 0 ==> s_im <= q_im * ONE <= 0,
                -8 * ONE * ONE <= s_im <= 8 * ONE * ONE,
                ONE > 0;
    }
    let (w_re, w_im) = complex_add(q_re as i64, q_im as i64, c_re, c_im);
    (w_re as i64, w_im as i64)
}

/// The escape-time evaluator.
///
/// Iterates `z <- z^2 + c` from `z = 0` with `c = x + yi`, and after each
/// step tests whether `|z|^2 > 4`. Returns the index of the first step after
/// which the test holds, counted from 0, or `None` if none of the first
/// `max_iter` steps escapes.
pub fn is_point_in_mandelbrot(x: i64, y: i64, max_iter: usize) -> (r: Option<usize>)
    ensures
        index_view(r) == escape_index((x as int, y as int), max_iter as nat),
        match r {
            Some(k) => {
                &&& k < max_iter
                &&& escaped(orbit((x as int, y as int), (k + 1) as nat))
                &&& forall|j: nat| j < k ==> !escaped(#[trigger] orbit((x as int, y as int), j + 1))
            },
            None => forall|j: nat|
                j < max_iter ==> !escaped(#[trigger] orbit((x as int, y as int), j + 1)),
        },
{
    let ghost c: (int, int) = (x as int, y as int);
    if max_iter == 0 {
        return None;
    }
    // The first step from 0 lands on `c` itself, whatever its size; every
    // later step starts from a point that has not escaped.
    proof {
        lemma_first_step_is_parameter(c);
        assert(escape_index(c, 0) is None);
    }
    if has_escaped(x, y) {
        proof {
            assert(escape_index(c, 1) == Some(0nat));
            lemma_escape_index_monotone(c, 1, max_iter as nat);
            lemma_escape_index_is_first(c, max_iter as nat);
        }
        return Some(0);
    }
    proof {
        lemma_inside_is_bounded(c);
    }
    let mut z_re: i64 = x;
    let mut z_im: i64 = y;
    let mut i: usize = 1;
    while i < max_iter
        invariant
            1 <= i <= max_iter,
            c == (x as int, y as int),
            (z_re as int, z_im as int) == orbit(c, i as nat),
            !escaped((z_re as int, z_im as int)),
            -2 * ONE <= x <= 2 * ONE,
            -2 * ONE <= y <= 2 * ONE,
            escape_index(c, i as nat) is None,
        decreases max_iter - i,
    {
        proof {
            lemma_inside_is_bounded((z_re as int, z_im as int));
        }
        let (w_re, w_im) = advance(z_re, z_im, x, y);
        proof {
            assert(orbit(c, (i + 1) as nat) == step(orbit(c, i as nat), c));
        }
        if has_escaped(w_re, w_im) {
            proof {
                assert(escape_index(c, (i + 1) as nat) == Some(i as nat));
                lemma_escape_index_monotone(c, (i + 1) as nat, max_iter as nat);
                lemma_escape_index_is_first(c, max_iter as nat);
            }
            return Some(i);
        }
        z_re = w_re;
        z_im = w_im;
        i += 1;
    }
    proof {
        lemma_escape_index_is_first(c, max_iter as nat);
    }
    None
}

} // verus!
