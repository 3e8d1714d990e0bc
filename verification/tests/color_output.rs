use ray_tracer::color::quantize;
use ray_tracer::color::write_color;
use ray_tracer::color::write_color_raw;
use ray_tracer::color::write_decimal;
use ray_tracer::color::write_header;
use ray_tracer::color::write_pixels;
use ray_tracer::Scalar;
use ray_tracer::Vec3;

fn chan(x: f64) -> Scalar {
    Scalar::from_bits(x.to_bits())
}

fn shade(r: f64, g: f64, b: f64) -> Vec3 {
    Vec3::new(chan(r), chan(g), chan(b))
}

fn expected_level(x: f64) -> u8 {
    (256.0 * x.clamp(0.0, 0.999)) as i32 as u8
}

#[test]
fn white_quantizes_to_full_levels() {
    assert_eq!(quantize(chan(1.0)), 255);
    let mut out = Vec::new();
    write_color(&mut out, shade(1.0, 1.0, 1.0));
    assert_eq!(out, b"255 255 255\n".to_vec());
}

#[test]
fn white_stays_white_for_any_sample_count() {
    for samples in [1, 2, 3, 7, 10, 100, 500, 1000] {
        let sum = samples as f64;
        let averaged = (sum * (1.0 / samples as f64)).sqrt();
        assert_eq!(quantize(chan(averaged)), 255, "{samples} samples");
    }
}

#[test]
fn black_quantizes_to_zero() {
    assert_eq!(quantize(chan(0.0)), 0);
    assert_eq!(quantize(chan(-0.0)), 0);
    let mut out = Vec::new();
    write_color(&mut out, shade(0.0, 0.0, 0.0));
    assert_eq!(out, b"0 0 0\n".to_vec());
}

#[test]
fn quantize_exact_values() {
    assert_eq!(quantize(chan(0.5)), 128);
    assert_eq!(quantize(chan(0.25)), 64);
    assert_eq!(quantize(chan(0.999)), 255);
    assert_eq!(quantize(chan(0.99609375)), 255);
    assert_eq!(quantize(chan(0.9960937499999999)), 254);
    assert_eq!(quantize(chan(0.00390625)), 1);
    assert_eq!(quantize(chan(0.0039062499999999996)), 0);
    assert_eq!(quantize(chan(0.7)), 179);
    assert_eq!(quantize(chan(0.1)), 25);
}

#[test]
fn quantize_clamps_out_of_range_channels() {
    assert_eq!(quantize(chan(2.0)), 255);
    assert_eq!(quantize(chan(1e300)), 255);
    assert_eq!(quantize(chan(f64::INFINITY)), 255);
    assert_eq!(quantize(chan(-1.0)), 0);
    assert_eq!(quantize(chan(f64::NEG_INFINITY)), 0);
    assert_eq!(quantize(chan(5e-324)), 0);
}

#[test]
fn quantize_sends_nan_to_zero() {
    assert_eq!(quantize(chan(f64::NAN)), 0);
    assert_eq!(quantize(chan(-f64::NAN)), 0);
    assert_eq!(quantize(chan((-1.0f64).sqrt())), 0);
}

#[test]
fn quantize_matches_scaling_and_truncation() {
    let mut x = 0.0f64;
    while x < 1.2 {
        assert_eq!(quantize(chan(x)), expected_level(x), "level of {x}");
        x += 0.000731;
    }
    for k in 0..=256 {
        let edge = k as f64 / 256.0;
        for y in [edge, f64::from_bits(edge.to_bits().wrapping_sub(1)), f64::from_bits(edge.to_bits() + 1)] {
            if y.is_finite() && y >= 0.0 {
                assert_eq!(quantize(chan(y)), expected_level(y), "level of {y}");
            }
        }
    }
}

#[test]
fn quantize_never_decreases() {
    let mut last = 0u8;
    let mut x = -0.1f64;
    while x < 1.1 {
        let level = quantize(chan(x));
        assert!(level >= last);
        last = level;
        x += 0.0003;
    }
    assert_eq!(last, 255);
}

#[test]
fn decimal_text_of_numbers() {
    for n in [0u32, 1, 9, 10, 11, 99, 100, 255, 1200, 65535, 4_294_967_295] {
        let mut out = Vec::new();
        write_decimal(&mut out, n);
        assert_eq!(out, format!("{n}").into_bytes());
    }
}

#[test]
fn decimal_text_is_appended() {
    let mut out = b"x=".to_vec();
    write_decimal(&mut out, 42);
    assert_eq!(out, b"x=42".to_vec());
}

#[test]
fn text_pixel_is_one_line() {
    let mut out = Vec::new();
    write_color(&mut out, shade(0.5, 0.7, 1.0));
    write_color(&mut out, shade(0.0, 0.1, 2.0));
    assert_eq!(out, b"128 179 255\n0 25 255\n".to_vec());
}

#[test]
fn raw_pixel_is_three_bytes() {
    let mut out = vec![7u8];
    write_color_raw(&mut out, shade(0.5, 0.7, 1.0));
    assert_eq!(out, vec![7u8, 128, 179, 255]);
}

#[test]
fn text_and_raw_agree_on_the_levels() {
    let colours = [(0.0, 0.5, 1.0), (0.2, 0.4, 0.6), (0.999, 0.001, 0.33), (1.5, -0.5, f64::NAN)];
    for (r, g, b) in colours {
        let mut text = Vec::new();
        write_color(&mut text, shade(r, g, b));
        let mut raw = Vec::new();
        write_color_raw(&mut raw, shade(r, g, b));
        assert_eq!(text, format!("{} {} {}\n", raw[0], raw[1], raw[2]).into_bytes());
    }
}

#[test]
fn text_header() {
    let mut out = Vec::new();
    write_header(&mut out, 1200, 800, false);
    assert_eq!(out, b"P3\n1200 800\n255\n".to_vec());
}

#[test]
fn raw_header() {
    let mut out = Vec::new();
    write_header(&mut out, 400, 225, true);
    assert_eq!(out, b"P6\n400 225\n255\n".to_vec());
}

#[test]
fn pixels_are_written_in_order_as_text() {
    let shades = vec![shade(1.0, 0.0, 0.5), shade(0.25, 0.25, 0.25), shade(0.0, 0.0, 0.0)];
    let mut out = b"#".to_vec();
    write_pixels(&mut out, &shades, false);
    assert_eq!(out, b"#255 0 128\n64 64 64\n0 0 0\n".to_vec());
}

#[test]
fn pixels_are_written_in_order_as_raw_bytes() {
    let shades = vec![shade(1.0, 0.0, 0.5), shade(0.25, 0.25, 0.25), shade(0.0, 0.0, 0.0)];
    let mut out = Vec::new();
    write_pixels(&mut out, &shades, true);
    assert_eq!(out, vec![255u8, 0, 128, 64, 64, 64, 0, 0, 0]);
}

#[test]
fn no_pixels_write_nothing() {
    let mut out = b"kept".to_vec();
    write_pixels(&mut out, &Vec::new(), true);
    write_pixels(&mut out, &Vec::new(), false);
    assert_eq!(out, b"kept".to_vec());
}

#[test]
fn whole_image_is_header_and_pixels() {
    let shades = vec![shade(1.0, 1.0, 1.0), shade(0.0, 0.0, 0.0)];
    let mut out = Vec::new();
    write_header(&mut out, 2, 1, true);
    write_pixels(&mut out, &shades, true);
    let mut want = b"P6\n2 1\n255\n".to_vec();
    want.extend_from_slice(&[255, 255, 255, 0, 0, 0]);
    assert_eq!(out, want);
    assert_eq!(out.len(), 11 + 3 * shades.len());
}

#[test]
fn decimal_text_reads_back() {
    for n in [0u32, 7, 10, 255, 1200, 99999, u32::MAX] {
        let mut out = Vec::new();
        write_decimal(&mut out, n);
        assert!(out.iter().all(|b| b.is_ascii_digit()));
        assert!(out[0] != b'0' || n == 0);
        let text = String::from_utf8(out).unwrap();
        assert_eq!(text.parse::<u32>().unwrap(), n);
    }
}

#[test]
fn quantize_matches_scaling_and_truncation_on_arbitrary_encodings() {
    let mut state = 0x2545_f491_4f6c_dd1du64;
    for _ in 0..20000 {
        state ^= state << 13;
        state ^= state >> 7;
        state ^= state << 17;
        let x = f64::from_bits(state);
        assert_eq!(quantize(Scalar::from_bits(state)), expected_level(x), "level of {x}");
        let unit = f64::from_bits((state >> 12) | 0x3ff0_0000_0000_0000) - 1.0;
        assert_eq!(quantize(chan(unit)), expected_level(unit), "level of {unit}");
    }
}
