use julia_viewer::color::colorize;
use julia_viewer::engine::escape;
use julia_viewer::render::render;
use julia_viewer::session::Session;
use julia_viewer::viewport::Viewport;
use julia_viewer::Complex;
use julia_viewer::COLOR_FACTOR;
use julia_viewer::DEFAULT_C_IM;
use julia_viewer::DEFAULT_C_RE;
use julia_viewer::HEIGHT;
use julia_viewer::MAX_ITER;
use julia_viewer::WIDTH;

fn zero() -> Complex {
    Complex { re: 0, im: 0 }
}

#[test]
fn origin_never_escapes_under_zero_parameter() {
    assert_eq!(escape(zero(), zero(), 0), 0);
    assert_eq!(escape(zero(), zero(), 7), 7);
    assert_eq!(escape(zero(), zero(), 100), 100);
}

#[test]
fn point_on_escape_radius_escapes_after_one_step() {
    // |z| == 2.0 exactly: still inside, but z * z leaves the radius.
    let z = Complex { re: 131072, im: 0 };
    assert_eq!(escape(z, zero(), 10), 1);
}

#[test]
fn point_outside_escape_radius_escapes_immediately() {
    let z = Complex { re: 196608, im: 0 };
    assert_eq!(escape(z, zero(), 10), 0);
}

#[test]
fn escape_count_is_monotone_in_the_budget() {
    // (1.0, 1.0) under c == 0 escapes at the second iteration.
    let z = Complex { re: 65536, im: 65536 };
    let counts: Vec<u32> = (0..6u32).map(|budget| escape(z, zero(), budget)).collect();
    assert_eq!(counts, vec![0, 1, 2, 2, 2, 2]);
    for pair in counts.windows(2) {
        assert!(pair[0] <= pair[1]);
    }
}

#[test]
fn render_writes_every_pixel_of_a_small_frame() {
    let vp = Viewport::build(4, 2);
    let mut buf: Vec<u8> = Vec::new();
    render(&mut buf, &vp, zero(), 3);
    let expected: Vec<u8> = vec![
        255, 0, 0, 255, // (-2.0, 1.0) escapes immediately, hue 0
        229, 255, 0, 255, // (-1.0, 1.0) escapes at 2, hue 66
        0, 0, 0, 255, // (0.0, 1.0) never escapes: black
        229, 255, 0, 255, // (1.0, 1.0) escapes at 2, hue 66
        255, 140, 0, 255, // (-2.0, 0.0) escapes at 1, hue 33
        0, 0, 0, 255, // (-1.0, 0.0) never escapes: black
        0, 0, 0, 255, // (0.0, 0.0) never escapes: black
        0, 0, 0, 255, // (1.0, 0.0) never escapes: black
    ];
    assert_eq!(buf, expected);
}

#[test]
fn render_overwrites_previous_content() {
    let vp = Viewport::build(4, 2);
    let mut buf: Vec<u8> = vec![7; 99];
    render(&mut buf, &vp, zero(), 3);
    assert_eq!(buf.len(), 4 * 2 * 4);
    assert_eq!(buf[0], 255);
}

#[test]
fn session_starts_with_the_default_parameter() {
    let s = Session::new(WIDTH, HEIGHT);
    assert_eq!(s.c, Complex { re: DEFAULT_C_RE, im: DEFAULT_C_IM });
    assert_eq!(s.viewport, Viewport::build(WIDTH, HEIGHT));
}

#[test]
fn pointer_moves_redefine_the_parameter() {
    let mut s = Session::new(WIDTH, HEIGHT);
    s.pointer_moved(400, 300);
    assert_eq!(s.c, Complex { re: 0, im: 0 });
    // Positions outside the surface are clamped onto it.
    s.pointer_moved(-5, 10_000);
    assert_eq!(s.c, s.viewport.pixel_to_plane(0, 599));
    assert_eq!(s.viewport, Viewport::build(WIDTH, HEIGHT));
}

#[test]
fn center_pixel_classified_deterministically() {
    let vp = Viewport::build(WIDTH, HEIGHT);
    let c = Complex { re: DEFAULT_C_RE, im: DEFAULT_C_IM };
    let z = vp.pixel_to_plane(400, 300);
    let first = escape(z, c, MAX_ITER);
    let second = escape(z, c, MAX_ITER);
    assert_eq!(first, second);
    let color = colorize(first, MAX_ITER, COLOR_FACTOR);
    assert_eq!(color, colorize(second, MAX_ITER, COLOR_FACTOR));
    assert_eq!(color.a, 255);
}

#[test]
fn full_frame_has_expected_size_and_opaque_alpha() {
    let mut s = Session::new(WIDTH, HEIGHT);
    s.pointer_moved(400, 300);
    let mut buf: Vec<u8> = Vec::new();
    s.render_frame(&mut buf, MAX_ITER);
    assert_eq!(buf.len(), (WIDTH * HEIGHT * 4) as usize);
    for pixel in buf.chunks_exact(4) {
        assert_eq!(pixel[3], 255);
    }
}
