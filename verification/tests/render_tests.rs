use mandelbrot::buffer::{Drawable, ImageBuffer};
use mandelbrot::fixed::FIX_ONE;
use mandelbrot::render::Mandelbrot;

const CENTER_RE: i64 = -12582912; // -0.75 in fixed point

#[test]
fn new_derives_height_by_the_width_rule() {
    // height = width / 1.75, truncated
    assert_eq!(Mandelbrot::new(100, 0, 0, FIX_ONE).height(), 57);
    assert_eq!(Mandelbrot::new(100, 0, 0, FIX_ONE).width(), 100);
    assert_eq!(Mandelbrot::new(4000, CENTER_RE, 0, FIX_ONE).height(), 2285);
    assert_eq!(Mandelbrot::new(2, 0, 0, FIX_ONE).height(), 1);
}

#[test]
fn try_new_validates_the_configuration() {
    assert!(Mandelbrot::try_new(100, CENTER_RE, 0, FIX_ONE).is_some());
    // width 0 or 1, a non-positive zoom and a far-out centre are rejected
    assert!(Mandelbrot::try_new(0, 0, 0, FIX_ONE).is_none());
    assert!(Mandelbrot::try_new(1, 0, 0, FIX_ONE).is_none());
    assert!(Mandelbrot::try_new(100, 0, 0, 0).is_none());
    assert!(Mandelbrot::try_new(100, 0, 0, -FIX_ONE).is_none());
    assert!(Mandelbrot::try_new(100, i64::MAX, 0, FIX_ONE).is_none());
    assert!(Mandelbrot::try_new(100, 0, i64::MIN, FIX_ONE).is_none());
    assert!(Mandelbrot::try_new(90000, 0, 0, FIX_ONE).is_none());
    let m = Mandelbrot::try_new(700, CENTER_RE, 0, 2 * FIX_ONE).unwrap();
    assert_eq!(m.width(), 700);
    assert_eq!(m.height(), 400);
}

#[test]
fn end_to_end_small_frame() {
    // a 100x57 frame centred on (-0.75, 0) at unit zoom
    let m = Mandelbrot::new(100, CENTER_RE, 0, FIX_ONE);
    assert_eq!(m.width(), 100);
    assert_eq!(m.height(), 57);
    let buf = m.render_to_buffer();
    assert_eq!(buf.width(), 100);
    assert_eq!(buf.height(), 57);
    let bytes = buf.into_bytes();
    assert_eq!(bytes.len(), 100 * 57);
    // the (0, 0) pixel maps to (-2.5, -1.0), far outside: zero iterations
    assert_eq!(bytes[0], 0);
    // one column right of it the orbit survives exactly one check more
    assert_eq!(bytes[50], 1);
    // the centre pixel is near the set's boundary and iterates deep
    assert_eq!(bytes[28 * 100 + 50], 178);
}

#[test]
fn calc_pixel_matches_the_rendered_frame() {
    let m = Mandelbrot::new(100, CENTER_RE, 0, FIX_ONE);
    let bytes = m.render_to_buffer().into_bytes();
    assert_eq!(m.calc_pixel(50, 28), 178);
    assert_eq!(u16::from(bytes[28 * 100 + 50]), m.calc_pixel(50, 28));
    assert_eq!(u16::from(bytes[13 * 100 + 7]), m.calc_pixel(7, 13));
}

#[test]
fn rendering_twice_gives_identical_buffers() {
    let m = Mandelbrot::new(64, CENTER_RE, 0, 2 * FIX_ONE);
    let first = m.render_to_buffer().into_bytes();
    let second = m.render_to_buffer().into_bytes();
    assert_eq!(first, second);
}

#[test]
fn render_into_supplied_canvas_matches_fresh_buffer() {
    let m = Mandelbrot::new(50, 0, 0, FIX_ONE);
    let mut canvas = ImageBuffer::new(m.width(), m.height());
    m.render(&mut canvas);
    assert_eq!(canvas.into_bytes(), m.render_to_buffer().into_bytes());
}

#[test]
fn buffer_draw_and_get_roundtrip() {
    let mut buf = ImageBuffer::new(3, 2);
    assert_eq!(buf.get(2, 1), 0);
    buf.draw(2, 1, 7);
    buf.draw(0, 0, 9);
    assert_eq!(buf.get(2, 1), 7);
    assert_eq!(buf.get(0, 0), 9);
    assert_eq!(buf.get(1, 1), 0);
    let bytes = buf.into_bytes();
    assert_eq!(bytes, vec![9, 0, 0, 0, 0, 7]);
}
