//! The quality verdict, which holds two scores and the flags that fixed
//! thresholds derive from them.

use crate::brightness::{brightness, calculate_brightness};
use crate::grid::PixelGrid;
use crate::score::{Ratio, Score};
use crate::sharpness::{blur_score, calculate_blur_score};
use vstd::prelude::*;

verus! {

/// An image is blurry where its blur score is below this number.
pub const BLUR_THRESHOLD: u64 = 100;

/// An image is too dark where its brightness is below this many tenths.
pub const DARK_TENTHS: u64 = 3;

/// An image is too bright where its brightness is above this many tenths.
pub const BRIGHT_TENTHS: u64 = 8;

/// The blur threshold as a number: 100.
pub open spec fn blur_threshold() -> Ratio {
    Ratio { num: BLUR_THRESHOLD as int, den: 1 }
}

/// The lower brightness threshold as a number: 3/10.
pub open spec fn dark_threshold() -> Ratio {
    Ratio { num: DARK_TENTHS as int, den: 10 }
}

/// The upper brightness threshold as a number: 8/10.
pub open spec fn bright_threshold() -> Ratio {
    Ratio { num: BRIGHT_TENTHS as int, den: 10 }
}

/// The quality verdict on one image.
#[derive(Clone, Copy, Debug)]
pub struct ImageQualityResult {
    /// The variance of the Laplacian responses; higher is sharper.
    pub blur_score: Score,
    /// The blur score is below 100.
    pub is_blurry: bool,
    /// The mean luma, between 0 and 1.
    pub brightness: Score,
    /// The brightness is below 3/10.
    pub is_too_dark: bool,
    /// The brightness is above 8/10.
    pub is_too_bright: bool,
    /// The image is neither blurry nor too dark nor too bright.
    pub is_good_quality: bool,
}

/// Whether an image with the three flags is of good quality: none of them is set.
pub fn overall_quality(is_blurry: bool, is_too_dark: bool, is_too_bright: bool) -> (good: bool)
    ensures
        good == (!is_blurry && !is_too_dark && !is_too_bright),
{
    !is_blurry && !is_too_dark && !is_too_bright
}

impl ImageQualityResult {
    /// The four flags are those that the thresholds derive from the two
    /// scores, by strict comparison.
    pub open spec fn consistent(&self) -> bool {
        &&& self.blur_score.proper()
        &&& self.brightness.proper()
        &&& self.is_blurry == self.blur_score@.lt(blur_threshold())
        &&& self.is_too_dark == self.brightness@.lt(dark_threshold())
        &&& self.is_too_bright == bright_threshold().lt(self.brightness@)
        &&& self.is_good_quality == (!self.is_blurry && !self.is_too_dark && !self.is_too_bright)
    }

    /// The verdict on an image with the given scores.
    pub fn classify(blur_score: Score, brightness: Score) -> (verdict: ImageQualityResult)
        ensures
            verdict.blur_score == blur_score,
            verdict.brightness == brightness,
            verdict.consistent(),
    {
        proof {
            use_type_invariant(&blur_score);
            use_type_invariant(&brightness);
        }
        let is_blurry = blur_score.lt_fraction(BLUR_THRESHOLD, 1);
        let is_too_dark = brightness.lt_fraction(DARK_TENTHS, 10);
        let is_too_bright = brightness.gt_fraction(BRIGHT_TENTHS, 10);
        let is_good_quality = overall_quality(is_blurry, is_too_dark, is_too_bright);
        ImageQualityResult {
            blur_score,
            is_blurry,
            brightness,
            is_too_dark,
            is_too_bright,
            is_good_quality,
        }
    }

    /// A verdict is good exactly where none of its three flags is set.
    pub proof fn lemma_good_iff_no_flag(&self)
        requires
            self.consistent(),
        ensures
            self.is_good_quality <==> !self.is_blurry && !self.is_too_dark && !self.is_too_bright,
    {
    }

    /// The thresholds are strict: a score that equals its threshold does not
    /// set the flag.
    pub proof fn lemma_thresholds_strict(&self)
        requires
            self.consistent(),
        ensures
            self.blur_score@.same(blur_threshold()) ==> !self.is_blurry,
            self.brightness@.same(dark_threshold()) ==> !self.is_too_dark,
            self.brightness@.same(bright_threshold()) ==> !self.is_too_bright,
    {
    }

    /// No image is both too dark and too bright.
    pub proof fn lemma_dark_excludes_bright(&self)
        requires
            self.consistent(),
        ensures
            !(self.is_too_dark && self.is_too_bright),
    {
        self.brightness.lemma_proper();
    }
}

/// The verdict on `grid`: its blur score, its brightness, and the flags that
/// the thresholds derive from them.
pub fn analyze_image_quality(grid: &PixelGrid) -> (verdict: ImageQualityResult)
    ensures
        verdict.consistent(),
        verdict.blur_score@ == blur_score(grid@),
        verdict.brightness@ == brightness(grid@),
        0 <= verdict.blur_score@.num,
        0 <= verdict.brightness@.num <= verdict.brightness@.den,
{
    let blur_score = calculate_blur_score(grid);
    let brightness = calculate_brightness(grid);
    proof {
        blur_score.lemma_proper();
    }
    ImageQualityResult::classify(blur_score, brightness)
}

} // verus!
