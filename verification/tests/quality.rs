use wasm_image_validator::grid::{PixelGrid, Rgb};
use wasm_image_validator::quality::{
    analyze_image_quality, overall_quality, ImageQualityResult, BLUR_THRESHOLD, BRIGHT_TENTHS,
    DARK_TENTHS,
};
use wasm_image_validator::score::Score;

fn ratio(num: u128, den: u128) -> Score {
    Score::from_ratio(num, den).unwrap()
}

fn flags(v: &ImageQualityResult) -> (bool, bool, bool, bool) {
    (v.is_blurry, v.is_too_dark, v.is_too_bright, v.is_good_quality)
}

#[test]
fn thresholds_have_their_values() {
    assert_eq!(BLUR_THRESHOLD, 100);
    assert_eq!(DARK_TENTHS, 3);
    assert_eq!(BRIGHT_TENTHS, 8);
}

#[test]
fn blur_threshold_is_strict() {
    let mid = ratio(1, 2);
    assert!(!ImageQualityResult::classify(ratio(100, 1), mid).is_blurry);
    assert!(ImageQualityResult::classify(ratio(999_999, 10_000), mid).is_blurry);
    assert!(!ImageQualityResult::classify(ratio(1_000_001, 10_000), mid).is_blurry);
    assert!(ImageQualityResult::classify(Score::zero(), mid).is_blurry);
    assert!(ImageQualityResult::classify(Score::new(99, 80, 81).unwrap(), mid).is_blurry);
    assert!(!ImageQualityResult::classify(Score::new(100, 0, 81).unwrap(), mid).is_blurry);
}

#[test]
fn dark_threshold_is_strict() {
    let sharp = ratio(500, 1);
    assert!(!ImageQualityResult::classify(sharp, ratio(3, 10)).is_too_dark);
    assert!(!ImageQualityResult::classify(sharp, ratio(765_000, 2_550_000)).is_too_dark);
    assert!(ImageQualityResult::classify(sharp, ratio(764_999, 2_550_000)).is_too_dark);
    assert!(!ImageQualityResult::classify(sharp, ratio(765_001, 2_550_000)).is_too_dark);
    assert!(ImageQualityResult::classify(sharp, Score::zero()).is_too_dark);
}

#[test]
fn bright_threshold_is_strict() {
    let sharp = ratio(500, 1);
    assert!(!ImageQualityResult::classify(sharp, ratio(8, 10)).is_too_bright);
    assert!(!ImageQualityResult::classify(sharp, ratio(2_040_000, 2_550_000)).is_too_bright);
    assert!(ImageQualityResult::classify(sharp, ratio(2_040_001, 2_550_000)).is_too_bright);
    assert!(!ImageQualityResult::classify(sharp, ratio(2_039_999, 2_550_000)).is_too_bright);
    assert!(ImageQualityResult::classify(sharp, ratio(1, 1)).is_too_bright);
}

#[test]
fn classify_keeps_the_scores() {
    let v = ImageQualityResult::classify(ratio(7, 2), ratio(1, 4));
    assert_eq!((v.blur_score.whole(), v.blur_score.numerator(), v.blur_score.denominator()), (3, 1, 2));
    assert_eq!((v.brightness.whole(), v.brightness.numerator(), v.brightness.denominator()), (0, 1, 4));
}

#[test]
fn good_quality_means_no_flag_for_every_combination() {
    for blurry in [false, true] {
        for dark in [false, true] {
            for bright in [false, true] {
                assert_eq!(overall_quality(blurry, dark, bright), !blurry && !dark && !bright);
            }
        }
    }
    assert!(overall_quality(false, false, false));
}

#[test]
fn every_verdict_that_scores_can_give() {
    let sharp = ratio(100, 1);
    let soft = ratio(99, 1);
    let dark = ratio(29, 100);
    let fine = ratio(1, 2);
    let bright = ratio(81, 100);
    assert_eq!(flags(&ImageQualityResult::classify(sharp, fine)), (false, false, false, true));
    assert_eq!(flags(&ImageQualityResult::classify(sharp, dark)), (false, true, false, false));
    assert_eq!(flags(&ImageQualityResult::classify(sharp, bright)), (false, false, true, false));
    assert_eq!(flags(&ImageQualityResult::classify(soft, fine)), (true, false, false, false));
    assert_eq!(flags(&ImageQualityResult::classify(soft, dark)), (true, true, false, false));
    assert_eq!(flags(&ImageQualityResult::classify(soft, bright)), (true, false, true, false));
}

#[test]
fn a_sharp_and_well_lit_grid_is_good() {
    let gray: Vec<u8> = (0..25).map(|i| if i % 2 == 0 { 0 } else { 255 }).collect();
    let colors = vec![Rgb { r: 128, g: 128, b: 128 }; 25];
    let v = analyze_image_quality(&PixelGrid::new(5, 5, colors, gray).unwrap());
    assert_eq!(flags(&v), (false, false, false, true));
    assert_eq!(v.blur_score.whole() * 81 + v.blur_score.numerator(), 80 * 1020 * 1020);
    assert_eq!(v.brightness.numerator(), 128 * 10_000 * 25);
    assert_eq!(v.brightness.denominator(), 2_550_000 * 25);
}

#[test]
fn a_uniform_grid_is_blurry() {
    let v = analyze_image_quality(
        &PixelGrid::new(6, 4, vec![Rgb { r: 120, g: 130, b: 140 }; 24], vec![129; 24]).unwrap(),
    );
    assert_eq!((v.blur_score.whole(), v.blur_score.numerator()), (0, 0));
    assert_eq!(flags(&v), (true, false, false, false));
}

#[test]
fn white_is_too_bright_and_black_too_dark() {
    let white = analyze_image_quality(
        &PixelGrid::new(3, 3, vec![Rgb { r: 255, g: 255, b: 255 }; 9], vec![255; 9]).unwrap(),
    );
    assert_eq!(flags(&white), (true, false, true, false));
    let black = analyze_image_quality(
        &PixelGrid::new(3, 3, vec![Rgb { r: 0, g: 0, b: 0 }; 9], vec![0; 9]).unwrap(),
    );
    assert_eq!(flags(&black), (true, true, false, false));
}

#[test]
fn a_grid_without_pixels_is_dark_and_blurry() {
    let v = analyze_image_quality(&PixelGrid::new(0, 0, vec![], vec![]).unwrap());
    assert_eq!(flags(&v), (true, true, false, false));
    assert_eq!((v.brightness.whole(), v.brightness.numerator(), v.brightness.denominator()), (0, 0, 1));
    assert_eq!((v.blur_score.whole(), v.blur_score.numerator(), v.blur_score.denominator()), (0, 0, 1));
}

#[test]
fn blur_of_just_under_and_just_over_one_hundred() {
    // 5 columns, 3 rows, all dark but one pixel on the top border, above the
    // last of the three interior pixels: the responses are 0, 0 and its level.
    let mut gray = vec![0u8; 15];
    gray[3] = 21;
    let colors = vec![Rgb { r: 128, g: 128, b: 128 }; 15];
    let v = analyze_image_quality(&PixelGrid::new(5, 3, colors.clone(), gray.clone()).unwrap());
    // (3 * 21^2 - 21^2) / 9 = 98
    assert_eq!(
        (v.blur_score.whole(), v.blur_score.numerator(), v.blur_score.denominator()),
        (98, 0, 9)
    );
    assert!(v.is_blurry);
    assert!(!v.is_good_quality);
    gray[3] = 22;
    let v = analyze_image_quality(&PixelGrid::new(5, 3, colors, gray).unwrap());
    // (3 * 22^2 - 22^2) / 9 = 968 / 9 = 107 + 5/9
    assert_eq!(
        (v.blur_score.whole(), v.blur_score.numerator(), v.blur_score.denominator()),
        (107, 5, 9)
    );
    assert!(!v.is_blurry);
    assert!(v.is_good_quality);
}
