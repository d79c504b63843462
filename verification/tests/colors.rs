use mandelbrot::color::{blend_colors, shade_pixel, DARK, LIGHT};

#[test]
fn point_in_the_set_is_dark() {
    assert_eq!(shade_pixel(None, 100), DARK);
    assert_eq!(shade_pixel(None, 1), 0x000000);
    assert_eq!(shade_pixel(None, 0), 0x000000);
}

#[test]
fn immediate_escape_is_light() {
    assert_eq!(shade_pixel(Some(0), 100), LIGHT);
    assert_eq!(shade_pixel(Some(0), 1), 0xFFFFFF);
}

#[test]
fn gradient_values_on_one_hundred_steps() {
    // 255 * 99 / 100 = 252.45
    assert_eq!(shade_pixel(Some(1), 100), 0xFCFCFC);
    // 255 * 50 / 100 = 127.5
    assert_eq!(shade_pixel(Some(50), 100), 0x7F7F7F);
    // 255 * 1 / 100 = 2.55
    assert_eq!(shade_pixel(Some(99), 100), 0x020202);
    // 255 * 75 / 100 = 191.25
    assert_eq!(shade_pixel(Some(25), 100), 0xBFBFBF);
}

#[test]
fn gradient_darkens_with_the_escape_index() {
    let mut last = shade_pixel(Some(0), 100);
    for k in 1..100usize {
        let c = shade_pixel(Some(k), 100);
        assert!(c < last);
        assert_eq!(c >> 16, (c >> 8) & 0xFF);
        assert_eq!(c >> 16, c & 0xFF);
        last = c;
    }
}

#[test]
fn channels_are_blended_one_by_one() {
    // red 255 -> 0, green 128 -> 0, blue 0 -> 255 at t = 1/4
    assert_eq!(blend_colors(0xFF8000, 0x0000FF, 1, 4), 0xBF603F);
    assert_eq!(blend_colors(0xFF8000, 0x0000FF, 0, 4), 0xFF8000);
    // t = 3/4: red 63.75, green 32, blue 191.25
    assert_eq!(blend_colors(0xFF8000, 0x0000FF, 3, 4), 0x3F20BF);
    // equal colours stay put
    assert_eq!(blend_colors(0x123456, 0x123456, 7, 9), 0x123456);
}

#[test]
fn bits_above_the_channels_are_dropped() {
    assert_eq!(blend_colors(0xFF112233, 0xFF112233, 1, 2), 0x112233);
    assert_eq!(blend_colors(0xAB000000, 0xCD0000FF, 0, 2), 0x000000);
}

#[test]
fn very_large_limits_do_not_overflow() {
    assert_eq!(blend_colors(0xFFFFFF, 0x000000, 0, usize::MAX), 0xFFFFFF);
    assert_eq!(blend_colors(0xFFFFFF, 0xFFFFFF, usize::MAX - 1, usize::MAX), 0xFFFFFF);
    assert_eq!(blend_colors(0x000000, 0xFFFFFF, usize::MAX - 1, usize::MAX), 0xFEFEFE);
}
