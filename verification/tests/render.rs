use fractal_render::bitmap::{bmp_file_size, read_le4, FileHeader, Image, InfoHeader};
use fractal_render::error::RenderError;
use fractal_render::fixed::FP;
use fractal_render::fractal::{interp_color, Creator, Stage};
use fractal_render::mandelbrot::{get_iterations, MAX_ITERATIONS};
use fractal_render::rgb::Rgb;

#[test]
fn iterate_escapes_immediately() {
    // |c| > 2: the very first orbit step leaves the escape radius.
    assert_eq!(get_iterations(3 * FP, 0, 100), 0);
    assert_eq!(get_iterations(0, -3 * FP, 100), 0);
    assert_eq!(get_iterations(2 * FP, 2 * FP, 1000), 0);
}

#[test]
fn iterate_origin_capped() {
    // The origin's orbit never moves, so it never escapes.
    assert_eq!(get_iterations(0, 0, 50), 50);
    assert_eq!(get_iterations(0, 0, 1000), 1000);
}

#[test]
fn iterate_interior_point_capped() {
    // c = -2 + 0i: the orbit reaches the fixed point 2 and stays put.
    assert_eq!(get_iterations(-2 * FP, 0, 30), 30);
}

#[test]
fn iterate_exact_escape_count() {
    // c = 2: z1 = 2 (|z| = 2, not yet out), z2 = 6 (out): one completed step.
    assert_eq!(get_iterations(2 * FP, 0, 50), 1);
}

#[test]
fn iterate_deterministic() {
    let a = get_iterations(FP / 4, -FP / 3, 200);
    let b = get_iterations(FP / 4, -FP / 3, 200);
    assert_eq!(a, b);
}

#[test]
fn map_center_pixel_hits_plane_origin() {
    // Pixel (w/2 + w/4, h/2), zoom centre at the image centre, equal
    // scales: the mapped coordinate is exactly the plane origin.
    let r = Creator::do_zoom(600, 300, 800, 600, 300, 300, (400, 300));
    assert_eq!(r, (0, 0));
}

#[test]
fn map_exact_corner_value() {
    // Pixel (0, 0) of the default frame maps to (-2, -1) exactly.
    let r = Creator::do_zoom(0, 0, 800, 600, 300, 300, (400, 300));
    assert_eq!(r, (-2 * FP, -FP));
}

#[test]
fn max_iterations_default() {
    assert_eq!(MAX_ITERATIONS, 1000);
}

#[test]
fn rgb_new_and_sub() {
    let a = Rgb::new(5, 6, 7);
    assert_eq!((a.red, a.green, a.blue), (5, 6, 7));
    let d = a.sub(Rgb::new(1, 2, 3));
    assert_eq!(d, Rgb::new(4, 4, 4));
}

#[test]
fn default_headers() {
    let fh = FileHeader::default();
    assert_eq!(fh.header, [b'B', b'M']);
    assert_eq!(fh.file_size, 0);
    assert_eq!(fh.reserved, 0);
    let ih = InfoHeader::default();
    assert_eq!(ih.header_size, 40);
    assert_eq!(ih.planes, 1);
    assert_eq!(ih.bits_per_pixel, 24);
    assert_eq!(ih.compression, 0);
}

#[test]
fn set_pixel_writes_bgr() {
    let mut img = Image::new(3, 2);
    img.set_pixel(1, 0, 9, 8, 7);
    // Pixel (1, 0) starts at byte 3; bytes are blue, green, red.
    assert_eq!(img.pixels[3], 7);
    assert_eq!(img.pixels[4], 8);
    assert_eq!(img.pixels[5], 9);
    // Neighbouring pixels stay zero.
    assert_eq!(&img.pixels[0..3], &[0, 0, 0]);
    assert_eq!(&img.pixels[6..9], &[0, 0, 0]);
}

#[test]
fn file_size_ok_and_overflow() {
    assert_eq!(bmp_file_size(800, 600), Ok(54 + 800 * 600 * 3));
    assert_eq!(
        bmp_file_size(30000, 30000),
        Err(RenderError::NumericConversion)
    );
}

#[test]
fn header_bytes_roundtrip() {
    // Writing an image and re-reading its header bytes recovers the
    // width, the height and the file size.
    let img = Image::new(10, 10);
    let bytes = img.file_bytes().unwrap();
    assert_eq!(bytes.len(), 14 + 40 + 300);
    assert_eq!(bytes[0], b'B');
    assert_eq!(bytes[1], b'M');
    assert_eq!(read_le4(&bytes, 2), 354);
    assert_eq!(read_le4(&bytes, 6), 0);
    assert_eq!(read_le4(&bytes, 10), 54);
    assert_eq!(read_le4(&bytes, 14), 40);
    assert_eq!(read_le4(&bytes, 18), 10);
    assert_eq!(read_le4(&bytes, 22), 10);
    assert_eq!(bytes[26], 1);
    assert_eq!(bytes[27], 0);
    assert_eq!(bytes[28], 24);
    assert_eq!(bytes[29], 0);
}

#[test]
fn interp_color_zero_total_is_start() {
    // An empty band never divides by zero: the start colour comes back.
    let start = Rgb::new(10, 20, 30);
    let end = Rgb::new(50, 60, 70);
    assert_eq!(interp_color(start, end, 5, 0), start);
}

#[test]
fn interp_color_exact_values() {
    let black = Rgb::new(0, 0, 0);
    let white = Rgb::new(255, 255, 255);
    assert_eq!(interp_color(black, white, 1, 2), Rgb::new(127, 127, 127));
    assert_eq!(interp_color(black, white, 0, 7), black);
    let mid = interp_color(Rgb::new(10, 0, 100), Rgb::new(20, 200, 150), 3, 4);
    assert_eq!(mid, Rgb::new(10 + 10 * 3 / 4, 150, 100 + 50 * 3 / 4));
}

#[test]
fn configuration_error_without_two_ranges() {
    let mut c = Creator::new(4, 4, 2, 2, (2, 2), 10);
    assert_eq!(c.create_fractal(), Err(RenderError::Configuration));
    let mut c = Creator::new(4, 4, 2, 2, (2, 2), 10);
    c.add_color_range(0, Rgb::new(0, 0, 0));
    assert_eq!(c.create_fractal(), Err(RenderError::Configuration));
}

#[test]
fn get_range_of_default_ramp() {
    let mut c = Creator::new(8, 8, 4, 4, (4, 4), 1000);
    c.add_color_range(0, Rgb::new(0, 0, 0));
    c.add_color_range(300, Rgb::new(255, 0, 0));
    c.add_color_range(500, Rgb::new(255, 255, 0));
    c.add_color_range(1000, Rgb::new(255, 255, 255));
    // Thresholds sit above the scaled cap, so every count lands in the
    // first band, right up to one below the cap.
    assert_eq!(c.get_range(999), 0);
    assert_eq!(c.get_range(0), 0);
    assert_eq!(c.get_range(1000), 0);
    // Monotonic: band indices never decrease with the count.
    let mut prev = c.get_range(0);
    for it in 1..=1000 {
        let b = c.get_range(it);
        assert!(b >= prev);
        prev = b;
    }
}

#[test]
fn range_totals_sum_equals_histogram_sum() {
    let mut c = Creator::new(10, 10, 5, 5, (5, 5), 50);
    c.add_color_range(0, Rgb::new(0, 0, 0));
    c.add_color_range(1000, Rgb::new(255, 255, 255));
    let bytes = c.create_fractal().unwrap();
    assert_eq!(bytes.len(), 14 + 40 + 300);
    let hist_sum: u64 = c.histogram.iter().sum();
    let totals_sum: u64 = c.range_totals.iter().sum();
    assert_eq!(totals_sum, hist_sum);
    // The histogram counts exactly the non-capped pixels.
    let escaped = c.fractal.iter().filter(|&&it| it != 50).count() as u64;
    assert_eq!(hist_sum, escaped);
}

#[test]
fn end_to_end_small_greyscale_render() {
    // 10 x 10 frame, zoom centre at the plane centre, two colour stops
    // black -> white, cap 50: every pixel is either solid black (capped)
    // or a grey strictly below white, and the file is exactly
    // 14 + 40 + 300 bytes.
    let mut c = Creator::new(10, 10, 5, 5, (5, 5), 50);
    c.add_color_range(0, Rgb::new(0, 0, 0));
    c.add_color_range(1000, Rgb::new(255, 255, 255));
    let bytes = c.create_fractal().unwrap();
    assert_eq!(c.stage, Stage::Rendered);
    assert_eq!(bytes.len(), 354);
    let mut saw_capped = false;
    let mut saw_grey = false;
    for p in 0..100 {
        let b = bytes[54 + 3 * p];
        let g = bytes[54 + 3 * p + 1];
        let r = bytes[54 + 3 * p + 2];
        assert_eq!(r, g);
        assert_eq!(g, b);
        assert!(b < 255);
        if c.fractal[p] == 50 {
            assert_eq!(b, 0);
            saw_capped = true;
        } else {
            saw_grey = true;
        }
    }
    assert!(saw_capped);
    assert!(saw_grey);
}

#[test]
fn cumulative_density_matches_prefix_sums() {
    let mut c = Creator::new(10, 10, 5, 5, (5, 5), 50);
    c.add_color_range(0, Rgb::new(0, 0, 0));
    c.add_color_range(1000, Rgb::new(255, 255, 255));
    c.calculate_iterations();
    assert_eq!(c.stage, Stage::IterationsComputed);
    assert_eq!(c.cumulative_density(0), 0);
    for up_to in 1..=50u32 {
        let expected: u64 = c.histogram[..up_to as usize].iter().sum();
        assert_eq!(c.cumulative_density(up_to), expected);
    }
}

#[test]
fn record_skips_capped_counts() {
    let mut c = Creator::new(4, 4, 2, 2, (2, 2), 10);
    c.record(3);
    c.record(3);
    c.record(10);
    assert_eq!(c.histogram[3], 2);
    let total: u64 = c.histogram.iter().sum();
    assert_eq!(total, 2);
}

#[test]
fn multi_band_render_stays_consistent() {
    let mut c = Creator::new(24, 16, 8, 8, (12, 8), 200);
    c.add_color_range(0, Rgb::new(0, 0, 0));
    c.add_color_range(300, Rgb::new(255, 0, 0));
    c.add_color_range(500, Rgb::new(255, 255, 0));
    c.add_color_range(1000, Rgb::new(255, 255, 255));
    let bytes = c.create_fractal().unwrap();
    assert_eq!(bytes.len(), 54 + 24 * 16 * 3);
    let hist_sum: u64 = c.histogram.iter().sum();
    let totals_sum: u64 = c.range_totals.iter().sum();
    assert_eq!(totals_sum, hist_sum);
    assert_eq!(read_le4(&bytes, 18), 24);
    assert_eq!(read_le4(&bytes, 22), 16);
}
