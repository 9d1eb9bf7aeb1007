use julia_viewer::color::colorize;
use julia_viewer::color::get_color;
use julia_viewer::color::hsb_to_rgb;
use julia_viewer::color::Rgba;
use julia_viewer::color::COLOR_UNIT;
use julia_viewer::MAX_ITER;

#[test]
fn primary_hues_give_pure_channels() {
    assert_eq!(hsb_to_rgb(0, COLOR_UNIT, COLOR_UNIT), (255, 0, 0));
    assert_eq!(hsb_to_rgb(120, COLOR_UNIT, COLOR_UNIT), (0, 255, 0));
    assert_eq!(hsb_to_rgb(240, COLOR_UNIT, COLOR_UNIT), (0, 0, 255));
}

#[test]
fn mid_sextant_hue_splits_channels() {
    // hue 30: halfway through the first sextant.
    assert_eq!(hsb_to_rgb(30, COLOR_UNIT, COLOR_UNIT), (255, 127, 0));
}

#[test]
fn half_brightness_halves_channels() {
    assert_eq!(hsb_to_rgb(0, COLOR_UNIT, 32768), (127, 0, 0));
}

#[test]
fn zero_saturation_is_white() {
    assert_eq!(hsb_to_rgb(200, 0, COLOR_UNIT), (255, 255, 255));
}

#[test]
fn exhausted_budget_is_black() {
    assert_eq!(colorize(10, 10, 100), Rgba { r: 0, g: 0, b: 0, a: 255 });
    assert_eq!(colorize(7, 7, 333), Rgba { r: 0, g: 0, b: 0, a: 255 });
    assert_eq!(colorize(0, 0, 100), Rgba { r: 0, g: 0, b: 0, a: 255 });
    assert_eq!(get_color(MAX_ITER), Rgba { r: 0, g: 0, b: 0, a: 255 });
}

#[test]
fn escaping_count_gets_hue_rotated_color() {
    // count 1 of 10 with factor 100: hue 10, sextant 0.
    assert_eq!(colorize(1, 10, 100), Rgba { r: 255, g: 42, b: 0, a: 255 });
    assert_eq!(get_color(1), Rgba { r: 255, g: 42, b: 0, a: 255 });
}

#[test]
fn counts_a_period_apart_get_the_same_color() {
    // factor 720 over budget 100 wraps the hue every 50 counts.
    assert_eq!(colorize(10, 100, 720), colorize(60, 100, 720));
    assert_eq!(colorize(3, 100, 720), colorize(53, 100, 720));
}

#[test]
fn alpha_is_always_opaque() {
    for count in 0..=10u32 {
        assert_eq!(colorize(count, 10, 100).a, 255);
    }
}
