//! Colours: packed RGB values and the two-colour gradient that shades a pixel
//! by its escape index.
use vstd::prelude::*;

verus! {

/// Colour of a point that escapes at once.
pub const LIGHT: u32 = 0xFFFFFF;

/// Colour of a point that escapes at the very last step, and of every point
/// that does not escape.
pub const DARK: u32 = 0x000000;

/// Red channel of a packed colour.
pub open spec fn red(color: u32) -> int {
    (color as int / 0x10000) % 0x100
}

/// Green channel of a packed colour.
pub open spec fn green(color: u32) -> int {
    (color as int / 0x100) % 0x100
}

/// Blue channel of a packed colour.
pub open spec fn blue(color: u32) -> int {
    color as int % 0x100
}

/// The packed colour with the given channels.
pub open spec fn pack(r: int, g: int, b: int) -> int {
    r * 0x10000 + g * 0x100 + b
}

/// One channel of the gradient at `t = k / max_iter`:
/// `light * (1 - t) + dark * t`, rounded down.
pub open spec fn mix(light: int, dark: int, k: int, max_iter: int) -> int {
    (light * (max_iter - k) + dark * k) / max_iter
}

/// The gradient at `t = k / max_iter`, channel by channel.
pub open spec fn blend(light: u32, dark: u32, k: int, max_iter: int) -> int {
    pack(
        mix(red(light), red(dark), k, max_iter),
        mix(green(light), green(dark), k, max_iter),
        mix(blue(light), blue(dark), k, max_iter),
    )
}

/// Colour of a pixel by its escape result: the gradient from `LIGHT` to
/// `DARK` at the escape index, `DARK` for a point that did not escape.
pub open spec fn shade(escape: Option<nat>, max_iter: nat) -> int {
    match escape {
        Some(k) => blend(LIGHT, DARK, k as int, max_iter as int),
        None => DARK as int,
    }
}

/// A channel of the gradient lies in the channel range.
pub proof fn lemma_mix_in_range(light: int, dark: int, k: int, max_iter: int)
    requires
        0 <= light <= 255,
        0 <= dark <= 255,
        0 <= k < max_iter,
    ensures
        0 <= mix(light, dark, k, max_iter) <= 255,
        0 <= light * (max_iter - k) + dark * k <= 255 * max_iter,
{
    let n: int = light * (max_iter - k) + dark * k;
    assert(0 <= light * (max_iter - k) <= 255 * (max_iter - k)) by (nonlinear_arith)
        requires 0 <= light <= 255, 0 <= max_iter - k;
    assert(0 <= dark * k <= 255 * k) by (nonlinear_arith)
        requires 0 <= dark <= 255, 0 <= k;
    assert(0 <= n / max_iter <= 255) by (nonlinear_arith)
        requires 0 <= n <= 255 * max_iter, max_iter > 0;
}

/// Computes one channel of the gradient.
fn mix_channel(light: u32, dark: u32, k: usize, max_iter: usize) -> (c: u32)
    requires
        light <= 255,
        dark <= 255,
        k < max_iter,
    ensures
        c == mix(light as int, dark as int, k as int, max_iter as int),
        c <= 255,
{
    proof {
        lemma_mix_in_range(light as int, dark as int, k as int, max_iter as int);
        assert(light * (max_iter - k) <= 255 * (max_iter - k)) by (nonlinear_arith)
            requires 0 <= light <= 255, 0 <= max_iter - k;
        assert(dark * k <= 255 * k) by (nonlinear_arith)
            requires 0 <= dark <= 255, 0 <= k;
    }
    let rest: u128 = (max_iter - k) as u128;
    let n: u128 = (light as u128) * rest + (dark as u128) * (k as u128);
    (n / (max_iter as u128)) as u32
}

/// Interpolates between two packed colours at `t = k / max_iter`, each
/// channel on its own.
pub fn blend_colors(light: u32, dark: u32, k: usize, max_iter: usize) -> (c: u32)
    requires
        k < max_iter,
    ensures
        c == blend(light, dark, k as int, max_iter as int),
        c <= 0xFFFFFF,
{
    let r: u32 = mix_channel((light / 0x10000) % 0x100, (dark / 0x10000) % 0x100, k, max_iter);
    let g: u32 = mix_channel((light / 0x100) % 0x100, (dark / 0x100) % 0x100, k, max_iter);
    let b: u32 = mix_channel(light % 0x100, dark % 0x100, k, max_iter);
    r * 0x10000 + g * 0x100 + b
}

/// Colour of a pixel by its escape result.
pub fn shade_pixel(escape: Option<usize>, max_iter: usize) -> (c: u32)
    requires
        escape matches Some(k) ==> k < max_iter,
    ensures
        c == shade(crate::escape::index_view(escape), max_iter as nat),
        c <= 0xFFFFFF,
{
    match escape {
        Some(k) => blend_colors(LIGHT, DARK, k, max_iter),
        None => DARK,
    }
}

/// A point that escapes at once is drawn in the light colour.
pub proof fn lemma_shade_of_first_step(max_iter: nat)
    requires
        max_iter > 0,
    ensures
        shade(Some(0nat), max_iter) == LIGHT,
{
    let m: int = max_iter as int;
    assert(red(LIGHT) == 255 && green(LIGHT) == 255 && blue(LIGHT) == 255);
    assert((255 * m + 0 * 0) / m == 255) by (nonlinear_arith)
        requires m > 0;
    assert(mix(255, 0, 0, m) == 255);
    assert(red(DARK) == 0 && green(DARK) == 0 && blue(DARK) == 0);
}

} // verus!
