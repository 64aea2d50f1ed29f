//! What holds of every grid and every verdict.
//!
//! Each law speaks of a verdict `v` on a grid `g` as `analyze_image_quality`
//! returns it: consistent flags, and the scores of `g`.

use crate::brightness::{
    brightness,
    lemma_luma_total_monotonic,
    lemma_luma_total_range,
    lemma_luma_total_uniform,
    luma,
    luma_total,
    no_brighter,
    FULL_LUMA,
};
use crate::grid::{lemma_index_in_range, GridView, Rgb};
use crate::quality::ImageQualityResult;
use crate::score::Ratio;
use crate::sharpness::{blur_score, laplacian, laplacians};
use crate::stats::{
    lemma_constant_sample,
    lemma_variance_forms_agree,
    population_variance,
    within,
};
use vstd::arithmetic::div_mod::{lemma_div_pos_is_pos, lemma_mod_bound, lemma_multiply_divide_lt};
use vstd::prelude::*;

verus! {

/// `v` is a verdict on `g`.
pub open spec fn verdict_on(v: ImageQualityResult, g: GridView) -> bool {
    &&& v.consistent()
    &&& v.blur_score@ == blur_score(g)
    &&& v.brightness@ == brightness(g)
}

/// Every pixel of `g` has the color `c`.
pub open spec fn uniform_color(g: GridView, c: Rgb) -> bool {
    forall|i: int| 0 <= i < g.colors.len() ==> #[trigger] g.colors[i] == c
}

/// Every pixel of `g` has the gray level `level`.
pub open spec fn uniform_gray(g: GridView, level: u8) -> bool {
    forall|i: int| 0 <= i < g.gray.len() ==> #[trigger] g.gray[i] == level
}

/// The blur score is the population variance of the Laplacian responses by
/// its definition, a number that is never negative.
pub proof fn lemma_blur_score_is_variance(g: GridView)
    ensures
        blur_score(g).same(population_variance(laplacians(g))),
        blur_score(g).num >= 0,
        blur_score(g).den > 0,
{
    lemma_variance_forms_agree(laplacians(g));
}

/// The brightness of every grid lies between 0 and 1.
pub proof fn lemma_brightness_in_unit_interval(g: GridView)
    requires
        g.wf(),
    ensures
        0 <= brightness(g).num <= brightness(g).den,
        brightness(g).den > 0,
{
    lemma_luma_total_range(g.colors);
}

/// A grid in which every pixel is white has brightness 1 and is too bright.
/// This needs one pixel at least: a grid without pixels has brightness 0.
pub proof fn lemma_white_is_too_bright(g: GridView, v: ImageQualityResult)
    requires
        g.wf(),
        g.pixel_count() > 0,
        uniform_color(g, Rgb { r: 255, g: 255, b: 255 }),
        verdict_on(v, g),
    ensures
        v.brightness@.same(Ratio { num: 1, den: 1 }),
        v.is_too_bright,
        !v.is_too_dark,
        !v.is_good_quality,
{
    let white = Rgb { r: 255, g: 255, b: 255 };
    lemma_luma_total_uniform(g.colors, white);
    assert(luma(white) == FULL_LUMA);
    assert(FULL_LUMA * g.pixel_count() > 0) by (nonlinear_arith)
        requires
            g.pixel_count() > 0,
    ;
}

/// A grid in which every pixel is black has brightness 0 and is too dark.
pub proof fn lemma_black_is_too_dark(g: GridView, v: ImageQualityResult)
    requires
        g.wf(),
        uniform_color(g, Rgb { r: 0, g: 0, b: 0 }),
        verdict_on(v, g),
    ensures
        v.brightness@.num == 0,
        v.is_too_dark,
        !v.is_too_bright,
        !v.is_good_quality,
{
    let black = Rgb { r: 0, g: 0, b: 0 };
    lemma_luma_total_uniform(g.colors, black);
    assert(luma(black) == 0);
    assert(0 * g.colors.len() == 0) by (nonlinear_arith);
    lemma_brightness_in_unit_interval(g);
}

/// A grid without pixels has brightness 0, and so is too dark.
pub proof fn lemma_empty_grid_is_dark(g: GridView, v: ImageQualityResult)
    requires
        g.wf(),
        g.pixel_count() == 0,
        verdict_on(v, g),
    ensures
        v.brightness@ == (Ratio { num: 0, den: 1 }),
        v.blur_score@ == (Ratio { num: 0, den: 1 }),
        v.is_too_dark,
        v.is_blurry,
        !v.is_good_quality,
{
    assert(g.width == 0 || g.height == 0) by (nonlinear_arith)
        requires
            g.width * g.height == 0,
    ;
}

/// Raising channel values never lowers the brightness: where no channel of
/// any pixel of `a` exceeds the same channel of the same pixel of `b`, the
/// brightness of `a` does not exceed that of `b`.
pub proof fn lemma_brightness_monotonic(a: GridView, b: GridView)
    requires
        a.wf(),
        b.wf(),
        a.width == b.width,
        a.height == b.height,
        forall|i: int| 0 <= i < a.colors.len() ==> no_brighter(#[trigger] a.colors[i], b.colors[i]),
    ensures
        brightness(a).le(brightness(b)),
{
    lemma_luma_total_monotonic(a.colors, b.colors);
    let n = a.pixel_count() as int;
    if n > 0 {
        let d = FULL_LUMA * n;
        let x = luma_total(a.colors);
        let y = luma_total(b.colors);
        assert(x * d <= y * d) by (nonlinear_arith)
            requires
                x <= y,
                d == FULL_LUMA * n,
                n > 0,
        ;
    }
}

/// A grid with fewer than three columns or fewer than three rows has no
/// Laplacian responses and blur score 0, and so is blurry.
pub proof fn lemma_small_grid_is_blurry(g: GridView, v: ImageQualityResult)
    requires
        g.width < 3 || g.height < 3,
        verdict_on(v, g),
    ensures
        laplacians(g).len() == 0,
        v.blur_score@ == (Ratio { num: 0, den: 1 }),
        v.is_blurry,
        !v.is_good_quality,
{
}

/// The interior pixel that the `k`-th Laplacian response belongs to, and the
/// places of its neighbors in the gray plane.
proof fn lemma_response_place(g: GridView, k: int)
    requires
        g.wf(),
        g.width >= 3,
        g.height >= 3,
        0 <= k < (g.width - 2) * (g.height - 2),
    ensures
        1 <= 1 + k % (g.width - 2) <= g.width - 2,
        1 <= 1 + k / (g.width - 2) <= g.height - 2,
        laplacians(g)[k] == laplacian(g, 1 + k % (g.width - 2), 1 + k / (g.width - 2)),
{
    let across = g.width - 2;
    let down = g.height - 2;
    lemma_mod_bound(k, across);
    lemma_div_pos_is_pos(k, across);
    lemma_multiply_divide_lt(k, across, down);
}

/// A grid whose pixels all have the same gray level has blur score 0 exactly,
/// every Laplacian response being 0, and so is blurry.
pub proof fn lemma_uniform_gray_is_blurry(g: GridView, level: u8, v: ImageQualityResult)
    requires
        g.wf(),
        uniform_gray(g, level),
        verdict_on(v, g),
    ensures
        within(laplacians(g), 0, 0),
        v.blur_score@.num == 0,
        population_variance(laplacians(g)).num == 0,
        v.is_blurry,
        !v.is_good_quality,
{
    let s = laplacians(g);
    assert(within(s, 0, 0)) by {
        assert forall|k: int| 0 <= k < s.len() implies 0 <= #[trigger] s[k] <= 0 by {
            let w = g.width as int;
            let h = g.height as int;
            lemma_response_place(g, k);
            let x = 1 + k % (w - 2);
            let y = 1 + k / (w - 2);
            lemma_index_in_range(x, y, w, h);
            lemma_index_in_range(x, y - 1, w, h);
            lemma_index_in_range(x, y + 1, w, h);
            lemma_index_in_range(x - 1, y, w, h);
            lemma_index_in_range(x + 1, y, w, h);
            assert(g.gray[y * w + x] == level);
            assert(g.gray[(y - 1) * w + x] == level);
            assert(g.gray[(y + 1) * w + x] == level);
            assert(g.gray[y * w + (x - 1)] == level);
            assert(g.gray[y * w + (x + 1)] == level);
        }
    }
    lemma_constant_sample(s, 0);
    lemma_variance_forms_agree(s);
}

} // verus!
