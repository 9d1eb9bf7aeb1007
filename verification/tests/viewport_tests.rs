use julia_viewer::fixed::mul_div;
use julia_viewer::fixed::mul_fix;
use julia_viewer::session::plane_param;
use julia_viewer::viewport::Viewport;
use julia_viewer::Complex;

#[test]
fn mul_fix_scales_products() {
    // 1.5 * 2.0 == 3.0
    assert_eq!(mul_fix(98304, 131072), 196608);
    // -1.5 * 2.0 == -3.0
    assert_eq!(mul_fix(-98304, 131072), -196608);
    // -3.0 * 1.0 == -3.0
    assert_eq!(mul_fix(-196608, 65536), -196608);
}

#[test]
fn mul_div_truncates_toward_zero() {
    assert_eq!(mul_div(7, 3, 2), 10);
    assert_eq!(mul_div(-7, 3, 2), -10);
    assert_eq!(mul_div(7, -3, 2), -10);
}

#[test]
fn mul_fix_truncates_toward_zero() {
    assert_eq!(mul_fix(1, 1), 0);
    assert_eq!(mul_fix(-1, 1), 0);
    assert_eq!(mul_fix(1, -1), 0);
}

#[test]
fn build_wide_surface_expands_only_x() {
    // 800 / 200 = 4 > 2, the base aspect ratio: x expands, y keeps its base.
    let vp = Viewport::build(800, 200);
    assert_eq!(vp.x_range, 524288);
    assert_eq!(vp.y_range, 131072);
    assert_eq!(vp.x_start, -262144);
    assert_eq!(vp.y_start, 65536);
}

#[test]
fn build_tall_surface_expands_only_y() {
    // 200 / 800 < 2: y expands, x keeps its base.
    let vp = Viewport::build(200, 800);
    assert_eq!(vp.x_range, 262144);
    assert_eq!(vp.y_range, 1048576);
}

#[test]
fn build_matching_surface_keeps_both_bases() {
    // 800 / 400 equals the base aspect ratio exactly: nothing expands.
    let vp = Viewport::build(800, 400);
    assert_eq!(vp.x_range, 262144);
    assert_eq!(vp.y_range, 131072);
}

#[test]
fn build_default_surface() {
    let vp = Viewport::build(800, 600);
    assert_eq!(vp.x_range, 262144);
    assert_eq!(vp.y_range, 196608);
    assert_eq!(vp.x_start, -131072);
    assert_eq!(vp.y_start, 98304);
    assert_eq!(vp.x_inc, 328);
    assert_eq!(vp.y_inc, 328);
}

#[test]
fn top_left_pixel_maps_to_viewport_corner() {
    let vp = Viewport::build(800, 600);
    let p = vp.pixel_to_plane(0, 0);
    assert_eq!(p, Complex { re: vp.x_start, im: vp.y_start });
}

#[test]
fn bottom_right_pixel_approximates_opposite_corner() {
    let vp = Viewport::build(800, 600);
    let p = vp.pixel_to_plane(799, 599);
    assert_eq!(p, Complex { re: 130744, im: -97976 });
    // Exactly one increment step short of the exact corner
    // (x_start + x_range, y_start - y_range) on each axis.
    let x_gap = (vp.x_start + vp.x_range) - p.re;
    assert_eq!(x_gap, vp.x_inc);
    let y_gap = p.im - (vp.y_start - vp.y_range);
    assert_eq!(y_gap, vp.y_inc);
}

#[test]
fn pixel_to_plane_extrapolates_outside_grid() {
    let vp = Viewport::build(800, 600);
    let p = vp.pixel_to_plane(-100, 700);
    // -100 * 262144 / 800 and 700 * 196608 / 600, both exact here.
    assert_eq!(p.re, vp.x_start - 32768);
    assert_eq!(p.im, vp.y_start - 229376);
}

#[test]
fn plane_param_inside_grid_matches_pixel_mapping() {
    let vp = Viewport::build(800, 600);
    // The center pixel maps exactly onto the plane origin.
    assert_eq!(plane_param(&vp, 400, 300), Complex { re: 0, im: 0 });
    assert_eq!(plane_param(&vp, 400, 300), vp.pixel_to_plane(400, 300));
}

#[test]
fn plane_param_clamps_outside_grid() {
    let vp = Viewport::build(800, 600);
    assert_eq!(plane_param(&vp, -10, -10), vp.pixel_to_plane(0, 0));
    assert_eq!(plane_param(&vp, 800, 600), vp.pixel_to_plane(799, 599));
}
