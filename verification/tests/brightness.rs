use image::{DynamicImage, ImageBuffer};
use wasm_image_validator::brightness::calculate_brightness;
use wasm_image_validator::grid::{PixelGrid, Rgb};
use wasm_image_validator::score::Score;

fn as_float(score: Score) -> f64 {
    score.whole() as f64 + score.numerator() as f64 / score.denominator() as f64
}

fn color_grid(width: u32, height: u32, colors: Vec<Rgb>) -> PixelGrid {
    let gray = vec![0u8; colors.len()];
    PixelGrid::new(width, height, colors, gray).unwrap()
}

#[test]
fn test_brightness_calculation() {
    let white_img = DynamicImage::ImageRgb8(ImageBuffer::from_fn(100, 100, |_, _| {
        image::Rgb([255, 255, 255])
    }));
    let brightness = as_float(calculate_brightness(&PixelGrid::from_image(&white_img)));
    assert!((brightness - 1.0).abs() < 0.01);

    let black_img =
        DynamicImage::ImageRgb8(ImageBuffer::from_fn(100, 100, |_, _| image::Rgb([0, 0, 0])));
    let brightness = as_float(calculate_brightness(&PixelGrid::from_image(&black_img)));
    assert!((brightness - 0.0).abs() < 0.01);
}

#[test]
fn white_is_exactly_one_and_black_exactly_zero() {
    let white = color_grid(4, 3, vec![Rgb { r: 255, g: 255, b: 255 }; 12]);
    let score = calculate_brightness(&white);
    assert_eq!((score.whole(), score.numerator()), (1, 0));
    assert_eq!(score.denominator(), 2_550_000 * 12);
    let black = color_grid(4, 3, vec![Rgb { r: 0, g: 0, b: 0 }; 12]);
    let score = calculate_brightness(&black);
    assert_eq!((score.whole(), score.numerator()), (0, 0));
    assert_eq!(score.denominator(), 2_550_000 * 12);
}

#[test]
fn each_channel_has_its_weight() {
    let red = calculate_brightness(&color_grid(1, 1, vec![Rgb { r: 255, g: 0, b: 0 }]));
    assert_eq!((red.whole(), red.numerator(), red.denominator()), (0, 2126 * 255, 2_550_000));
    let green = calculate_brightness(&color_grid(1, 1, vec![Rgb { r: 0, g: 255, b: 0 }]));
    assert_eq!((green.whole(), green.numerator(), green.denominator()), (0, 7152 * 255, 2_550_000));
    let blue = calculate_brightness(&color_grid(1, 1, vec![Rgb { r: 0, g: 0, b: 255 }]));
    assert_eq!((blue.whole(), blue.numerator(), blue.denominator()), (0, 722 * 255, 2_550_000));
}

#[test]
fn brightness_is_the_mean_over_all_pixels() {
    let colors = vec![
        Rgb { r: 10, g: 20, b: 30 },
        Rgb { r: 0, g: 0, b: 0 },
        Rgb { r: 255, g: 255, b: 255 },
        Rgb { r: 1, g: 2, b: 3 },
        Rgb { r: 200, g: 100, b: 50 },
        Rgb { r: 9, g: 8, b: 7 },
    ];
    let total: u128 = colors
        .iter()
        .map(|c| 2126 * c.r as u128 + 7152 * c.g as u128 + 722 * c.b as u128)
        .sum();
    let wide = calculate_brightness(&color_grid(3, 2, colors.clone()));
    assert_eq!(wide.whole(), 0);
    assert_eq!(wide.numerator(), total);
    assert_eq!(wide.denominator(), 2_550_000 * 6);
    let tall = calculate_brightness(&color_grid(2, 3, colors));
    assert_eq!(tall.numerator(), total);
    let expected = (0.2126 * (10.0 + 255.0 + 1.0 + 200.0 + 9.0)
        + 0.7152 * (20.0 + 255.0 + 2.0 + 100.0 + 8.0)
        + 0.0722 * (30.0 + 255.0 + 3.0 + 50.0 + 7.0))
        / 255.0
        / 6.0;
    assert!((as_float(wide) - expected).abs() < 1e-12);
}

#[test]
fn brightness_reads_the_color_plane_only() {
    let colors = vec![Rgb { r: 90, g: 91, b: 92 }; 4];
    let a = PixelGrid::new(2, 2, colors.clone(), vec![0, 0, 0, 0]).unwrap();
    let b = PixelGrid::new(2, 2, colors, vec![255, 1, 2, 3]).unwrap();
    let (a, b) = (calculate_brightness(&a), calculate_brightness(&b));
    assert_eq!(a.numerator(), b.numerator());
    assert_eq!(a.denominator(), b.denominator());
}

#[test]
fn a_grid_without_pixels_has_brightness_zero() {
    for (w, h) in [(0u32, 0u32), (0, 7), (7, 0)] {
        let score = calculate_brightness(&color_grid(w, h, vec![]));
        assert_eq!((score.whole(), score.numerator(), score.denominator()), (0, 0, 1));
        assert_eq!(as_float(score), 0.0);
    }
}

#[test]
fn raising_channels_never_lowers_brightness() {
    let base: Vec<Rgb> = (0..20u32)
        .map(|i| Rgb { r: (i * 5) as u8, g: (i * 11 % 120) as u8, b: (i * 3) as u8 })
        .collect();
    let mut previous = calculate_brightness(&color_grid(5, 4, base.clone())).numerator();
    for factor in [1u32, 2] {
        let scaled: Vec<Rgb> = base
            .iter()
            .map(|c| Rgb {
                r: (c.r as u32 * factor) as u8,
                g: (c.g as u32 * factor) as u8,
                b: (c.b as u32 * factor) as u8,
            })
            .collect();
        let now = calculate_brightness(&color_grid(5, 4, scaled)).numerator();
        assert!(now >= previous);
        previous = now;
    }
    let mut one_up = base.clone();
    one_up[7].b += 1;
    let raised = calculate_brightness(&color_grid(5, 4, one_up)).numerator();
    let plain = calculate_brightness(&color_grid(5, 4, base)).numerator();
    assert_eq!(raised, plain + 722);
}
