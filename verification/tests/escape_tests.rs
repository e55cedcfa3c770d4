use mandelbrot::escape::{escape_time, ComplexPoint};
use mandelbrot::fixed::FIX_ONE;

fn fix(x: f64) -> i64 {
    (x * FIX_ONE as f64) as i64
}

#[test]
fn origin_never_escapes() {
    // the classic interior point: its orbit is constant zero, so the full
    // cap runs out and the convention reports max_iter - 1
    let c = ComplexPoint { re: 0, im: 0 };
    assert_eq!(escape_time(c, 256), 255);
}

#[test]
fn far_point_escapes_immediately() {
    // |2 + 2i| > 2 already at the first check, before any update
    let c = ComplexPoint { re: fix(2.0), im: fix(2.0) };
    assert_eq!(escape_time(c, 256), 0);
}

#[test]
fn minus_one_cycles_forever() {
    // -1 orbits between -1 and 0, never escaping
    let c = ComplexPoint { re: -fix(1.0), im: 0 };
    assert_eq!(escape_time(c, 256), 255);
}

#[test]
fn outside_left_corner_escapes_at_once() {
    // the point the (0, 0) pixel of a centred 100x57 viewport maps to
    let c = ComplexPoint { re: -41943040, im: -16777216 };
    assert_eq!(escape_time(c, 256), 0);
}

#[test]
fn zero_cap_reports_zero() {
    let c = ComplexPoint { re: fix(0.3), im: fix(0.1) };
    assert_eq!(escape_time(c, 0), 0);
}

#[test]
fn count_stays_within_cap() {
    // every reported count is below the cap (or 0 for a zero cap)
    for xi in -8..=8i64 {
        for yi in -8..=8i64 {
            let c = ComplexPoint { re: xi * FIX_ONE / 2, im: yi * FIX_ONE / 2 };
            let n = escape_time(c, 256);
            assert!(n <= 255);
            let n64 = escape_time(c, 64);
            assert!(n64 <= 63);
        }
    }
}

#[test]
fn conjugate_points_report_equal_counts() {
    // the set is symmetric about the real axis
    let samples: [(i64, i64, u16); 4] = [
        (5033164, 10066329, 13),
        (-20132659, 6710886, 5),
        (1677721, 15099494, 3),
        (-8388608, 13421772, 3),
    ];
    for (re, im, expect) in samples {
        let up = escape_time(ComplexPoint { re, im }, 256);
        let down = escape_time(ComplexPoint { re, im: -im }, 256);
        assert_eq!(up, expect);
        assert_eq!(down, expect);
    }
}
