use nearest_color::distance::{color_distance, color_distance_sq, isqrt};
use nearest_color::hex::ColorRGB;
use nearest_color::ycbcr::{
    convert_hex, convert_rgb, convert_ycbcr, ColorYCbCr, UNITS_PER_ONE, UNITS_PER_STEP,
};

fn point(y: i32, cb: i32, cr: i32) -> ColorYCbCr {
    ColorYCbCr { y, cb, cr }
}

#[test]
fn units_are_what_the_fields_count() {
    assert_eq!(UNITS_PER_ONE, 255_000_000);
    assert_eq!(UNITS_PER_STEP, 1_000_000_000_000);
}

#[test]
fn black_and_white_have_no_chroma() {
    assert_eq!(convert_ycbcr(ColorRGB { r: 0, g: 0, b: 0 }), point(0, 0, 0));
    assert_eq!(convert_ycbcr(ColorRGB { r: 255, g: 255, b: 255 }), point(UNITS_PER_ONE, 0, 0));
}

#[test]
fn primaries_have_the_exact_points() {
    // y = 0.299, cb = 0.564 * (0 - 0.299), cr = 0.713 * (1 - 0.299)
    assert_eq!(
        convert_ycbcr(ColorRGB { r: 255, g: 0, b: 0 }),
        point(76_245_000, -43_002_180, 127_452_315)
    );
    // y = 0.587, cb = 0.564 * (0 - 0.587), cr = 0.713 * (0 - 0.587)
    assert_eq!(
        convert_ycbcr(ColorRGB { r: 0, g: 255, b: 0 }),
        point(149_685_000, -84_422_340, -106_725_405)
    );
    // y = 0.114, cb = 0.564 * (1 - 0.114), cr = 0.713 * (0 - 0.114)
    assert_eq!(
        convert_ycbcr(ColorRGB { r: 0, g: 0, b: 255 }),
        point(29_070_000, 127_424_520, -20_726_910)
    );
}

#[test]
fn a_mixed_colour_has_the_exact_point() {
    // luma = 299 * 254 + 587 * 1 + 114 * 1 = 76_647
    assert_eq!(
        convert_ycbcr(ColorRGB { r: 254, g: 1, b: 1 }),
        point(76_647_000, 564 * (1000 - 76_647), 713 * (254_000 - 76_647))
    );
}

#[test]
fn every_sampled_colour_survives_the_round_trip() {
    let mut levels: Vec<u8> = (0..=255u16).step_by(5).map(|v| v as u8).collect();
    levels.extend([1, 2, 127, 128, 253, 254]);
    for &r in &levels {
        for &g in &levels {
            for &b in &levels {
                let rgb = ColorRGB { r, g, b };
                assert_eq!(convert_rgb(convert_ycbcr(rgb)), rgb);
            }
        }
    }
}

#[test]
fn corners_of_the_cube_survive_the_round_trip() {
    for r in [0u8, 255] {
        for g in [0u8, 255] {
            for b in [0u8, 255] {
                let rgb = ColorRGB { r, g, b };
                assert_eq!(convert_rgb(convert_ycbcr(rgb)), rgb);
            }
        }
    }
}

#[test]
fn a_half_rounds_up() {
    // 0.5 / 255 is 500_000 units: exactly halfway between levels 0 and 1.
    assert_eq!(convert_rgb(point(500_000, 0, 0)), ColorRGB { r: 1, g: 1, b: 1 });
    assert_eq!(convert_rgb(point(499_999, 0, 0)), ColorRGB { r: 0, g: 0, b: 0 });
    assert_eq!(convert_rgb(point(1_500_000, 0, 0)), ColorRGB { r: 2, g: 2, b: 2 });
    assert_eq!(convert_rgb(point(1_499_999, 0, 0)), ColorRGB { r: 1, g: 1, b: 1 });
    assert_eq!(convert_rgb(point(254_500_000, 0, 0)), ColorRGB { r: 255, g: 255, b: 255 });
    assert_eq!(convert_rgb(point(254_499_999, 0, 0)), ColorRGB { r: 254, g: 254, b: 254 });
}

#[test]
fn points_outside_the_cube_are_clamped() {
    assert_eq!(convert_rgb(point(300_000_000, 0, 0)), ColorRGB { r: 255, g: 255, b: 255 });
    assert_eq!(convert_rgb(point(-1, 0, 0)), ColorRGB { r: 0, g: 0, b: 0 });
    assert_eq!(convert_rgb(point(i32::MAX, i32::MAX, i32::MAX)), ColorRGB { r: 255, g: 0, b: 255 });
    assert_eq!(convert_rgb(point(i32::MIN, i32::MIN, i32::MIN)), ColorRGB { r: 0, g: 125, b: 0 });
    assert_eq!(convert_rgb(point(0, i32::MAX, i32::MIN)), ColorRGB { r: 0, g: 255, b: 255 });
}

#[test]
fn chroma_moves_the_channels_by_the_inverse_coefficients() {
    // y = 0.5, cr = 0.1: r = 0.5 + 0.1402, g = 0.5 - 0.0714136, b = 0.5
    assert_eq!(
        convert_rgb(point(127_500_000, 0, 25_500_000)),
        ColorRGB { r: 163, g: 109, b: 128 }
    );
    // y = 0.5, cb = 0.1: r = 0.5, g = 0.5 - 0.0344136, b = 0.5 + 0.1772
    assert_eq!(
        convert_rgb(point(127_500_000, 25_500_000, 0)),
        ColorRGB { r: 128, g: 119, b: 173 }
    );
}

#[test]
fn points_are_written_as_hex() {
    assert_eq!(convert_hex(convert_ycbcr(ColorRGB { r: 254, g: 1, b: 171 })), "#FE01AB");
    assert_eq!(convert_hex(point(0, 0, 0)), "#000000");
    assert_eq!(convert_hex(point(UNITS_PER_ONE, 0, 0)), "#FFFFFF");
    assert_eq!(convert_hex(point(500_000, 0, 0)), "#010101");
}

#[test]
fn squared_distance_is_the_sum_of_squares() {
    assert_eq!(color_distance_sq(point(0, 0, 0), point(3, 4, 12)), 169);
    assert_eq!(color_distance_sq(point(1, 2, 3), point(-1, -2, -3)), 4 + 16 + 36);
    assert_eq!(color_distance_sq(point(10, 0, 0), point(0, 0, 0)), 100);
}

#[test]
fn squared_distance_of_the_farthest_points_does_not_wrap() {
    let low = point(i32::MIN, i32::MIN, i32::MIN);
    let high = point(i32::MAX, i32::MAX, i32::MAX);
    let side: u128 = (1u128 << 32) - 1;
    assert_eq!(color_distance_sq(low, high), 3 * side * side);
    assert_eq!(color_distance(low, high), 7_439_101_571);
}

#[test]
fn distance_is_the_root_rounded_down() {
    assert_eq!(color_distance(point(0, 0, 0), point(3, 4, 12)), 13);
    assert_eq!(color_distance(point(0, 0, 0), point(1, 1, 0)), 1);
    assert_eq!(color_distance(point(0, 0, 0), point(2, 2, 1)), 3);
    assert_eq!(color_distance(point(0, 0, 0), point(2, 2, 0)), 2);
}

#[test]
fn distance_is_symmetric() {
    let a = convert_ycbcr(ColorRGB { r: 12, g: 200, b: 77 });
    let b = convert_ycbcr(ColorRGB { r: 250, g: 3, b: 91 });
    assert_eq!(color_distance_sq(a, b), color_distance_sq(b, a));
    assert_eq!(color_distance(a, b), color_distance(b, a));
    assert!(color_distance(a, b) > 0);
}

#[test]
fn distance_is_zero_only_between_equal_points() {
    let a = convert_ycbcr(ColorRGB { r: 12, g: 200, b: 77 });
    assert_eq!(color_distance_sq(a, a), 0);
    assert_eq!(color_distance(a, a), 0);
    let near = ColorYCbCr { y: a.y + 1, ..a };
    assert_eq!(color_distance_sq(a, near), 1);
    assert_eq!(color_distance(a, near), 1);
}

#[test]
fn integer_square_roots() {
    assert_eq!(isqrt(0), 0);
    assert_eq!(isqrt(1), 1);
    assert_eq!(isqrt(2), 1);
    assert_eq!(isqrt(3), 1);
    assert_eq!(isqrt(4), 2);
    assert_eq!(isqrt(99), 9);
    assert_eq!(isqrt(100), 10);
    assert_eq!(isqrt(1 << 64), 1 << 32);
    assert_eq!(isqrt((1 << 64) - 1), (1 << 32) - 1);
    assert_eq!(isqrt(u128::MAX), u64::MAX);
}
