use mandelbrot::escape::ComplexPoint;
use mandelbrot::fixed::FIX_ONE;
use mandelbrot::viewport::{map_pixel, ViewportConfig, OFFSET_IM, OFFSET_RE};

fn centred_conf(zoom: i64) -> ViewportConfig {
    ViewportConfig { max_iter: 256, w: 100, h: 57, center_re: 0, center_im: 0, zoom }
}

#[test]
fn corner_pixels_at_unit_zoom() {
    // pixel (0, 0) lands exactly on (-1.75, -1.0); the far corner on
    // (1.75 - 3.5/w, 1.0 - 2.0/h), truncated once
    let conf = centred_conf(FIX_ONE);
    let near = map_pixel(&conf, 0, 0);
    assert_eq!(near.re, -OFFSET_RE);
    assert_eq!(near.im, -OFFSET_IM);
    let far = map_pixel(&conf, 99, 56);
    assert_eq!(far.re, 28772925);
    assert_eq!(far.im, 16188541);
}

#[test]
fn doubling_zoom_halves_the_corner_deviation() {
    let conf = centred_conf(2 * FIX_ONE);
    let c = map_pixel(&conf, 0, 0);
    assert_eq!(c.re, -OFFSET_RE / 2);
    assert_eq!(c.im, -OFFSET_IM / 2);
}

#[test]
fn growing_zoom_shrinks_the_deviation() {
    // with the centre at the origin the deviation is the mapped point itself
    let mut last: Option<ComplexPoint> = None;
    for zoom in [FIX_ONE, 2 * FIX_ONE, 4 * FIX_ONE, 8 * FIX_ONE, 16 * FIX_ONE] {
        let c = map_pixel(&centred_conf(zoom), 7, 13);
        if let Some(prev) = last {
            assert!(c.re.abs() <= prev.re.abs());
            assert!(c.im.abs() <= prev.im.abs());
        }
        last = Some(c);
    }
}

#[test]
fn centre_pixel_maps_near_the_centre() {
    let conf = ViewportConfig {
        max_iter: 256,
        w: 100,
        h: 57,
        center_re: -12582912,  // -0.75
        center_im: 0,
        zoom: FIX_ONE,
    };
    let c = map_pixel(&conf, 50, 28);
    // column 50 sits exactly on the centre; row 28 is within one row of it
    assert_eq!(c.re, -12582912);
    assert_eq!(c.im, -294337);
}
