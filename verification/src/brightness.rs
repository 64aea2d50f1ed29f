//! Brightness: the luma-weighted mean of the color channels.

use crate::grid::{GridView, PixelGrid, Rgb};
use crate::score::{Ratio, Score};
use vstd::prelude::*;

verus! {

/// The weight of the red channel in the luma of a pixel, in ten-thousandths.
pub const RED_WEIGHT: u32 = 2126;

/// The weight of the green channel in the luma of a pixel, in
/// ten-thousandths.
pub const GREEN_WEIGHT: u32 = 7152;

/// The weight of the blue channel in the luma of a pixel, in ten-thousandths.
pub const BLUE_WEIGHT: u32 = 722;

/// The luma of a pixel at full intensity in all channels: the three weights
/// add up to 10000, times the channel maximum 255.
pub const FULL_LUMA: u32 = 2550000;

/// The luma of one pixel, in units of `1 / FULL_LUMA`: the channels weighted
/// by 2126, 7152 and 722 ten-thousandths. Dividing by `FULL_LUMA` brings each
/// channel from 0..=255 to the unit interval and the weights to their sum 1.
pub open spec fn luma(c: Rgb) -> int {
    RED_WEIGHT * c.r + GREEN_WEIGHT * c.g + BLUE_WEIGHT * c.b
}

/// The sum of the lumas of `colors`.
pub open spec fn luma_total(colors: Seq<Rgb>) -> int
    decreases colors.len(),
{
    if colors.len() == 0 {
        0
    } else {
        luma_total(colors.drop_last()) + luma(colors.last())
    }
}

/// The brightness of a grid: the mean luma of its pixels, a number between
/// 0 and 1. A grid without pixels has brightness zero.
pub open spec fn brightness(g: GridView) -> Ratio {
    if g.pixel_count() == 0 {
        Ratio { num: 0, den: 1 }
    } else {
        Ratio { num: luma_total(g.colors), den: FULL_LUMA * g.pixel_count() }
    }
}

/// No channel of `a` exceeds the same channel of `b`.
pub open spec fn no_brighter(a: Rgb, b: Rgb) -> bool {
    a.r <= b.r && a.g <= b.g && a.b <= b.b
}

/// The luma total of any pixels lies between zero and `FULL_LUMA` for each.
pub proof fn lemma_luma_total_range(colors: Seq<Rgb>)
    ensures
        0 <= luma_total(colors) <= FULL_LUMA * colors.len(),
    decreases colors.len(),
{
    if colors.len() > 0 {
        lemma_luma_total_range(colors.drop_last());
    }
}

/// Taking one more pixel adds its luma to the total.
proof fn lemma_luma_total_step(colors: Seq<Rgb>, i: int)
    requires
        0 <= i < colors.len(),
    ensures
        luma_total(colors.take(i + 1)) == luma_total(colors.take(i)) + luma(colors[i]),
{
    assert(colors.take(i + 1).drop_last() =~= colors.take(i));
    assert(colors.take(i + 1).last() == colors[i]);
}

/// Raising channels never lowers the luma total.
pub proof fn lemma_luma_total_monotonic(a: Seq<Rgb>, b: Seq<Rgb>)
    requires
        a.len() == b.len(),
        forall|i: int| 0 <= i < a.len() ==> no_brighter(#[trigger] a[i], b[i]),
    ensures
        luma_total(a) <= luma_total(b),
    decreases a.len(),
{
    if a.len() > 0 {
        let n = a.len() as int;
        assert(no_brighter(a[n - 1], b[n - 1]));
        assert forall|i: int| 0 <= i < a.drop_last().len() implies no_brighter(
            #[trigger] a.drop_last()[i],
            b.drop_last()[i],
        ) by {
            assert(no_brighter(a[i], b[i]));
        }
        lemma_luma_total_monotonic(a.drop_last(), b.drop_last());
    }
}

/// Pixels that all have the color `c` have `luma(c)` for each as their total.
pub proof fn lemma_luma_total_uniform(colors: Seq<Rgb>, c: Rgb)
    requires
        forall|i: int| 0 <= i < colors.len() ==> #[trigger] colors[i] == c,
    ensures
        luma_total(colors) == luma(c) * colors.len(),
    decreases colors.len(),
{
    let n = colors.len() as int;
    if n == 0 {
        assert(luma(c) * 0 == 0) by (nonlinear_arith);
    } else {
        assert(colors.last() == colors[n - 1]);
        assert forall|i: int| 0 <= i < colors.drop_last().len() implies #[trigger] colors.drop_last()[i]
            == c by {
            assert(colors[i] == c);
        }
        lemma_luma_total_uniform(colors.drop_last(), c);
        assert(luma(c) * (n - 1) + luma(c) == luma(c) * n) by (nonlinear_arith);
    }
}

/// The brightness of `grid`: the mean over all pixels of the luma, each
/// channel taken as a fraction of 255 and weighted by 2126, 7152 and 722
/// ten-thousandths. A grid without pixels has brightness zero.
pub fn calculate_brightness(grid: &PixelGrid) -> (score: Score)
    ensures
        score.proper(),
        score@ == brightness(grid@),
        0 <= score@.num <= score@.den,
{
    let colors = grid.colors();
    let count: usize = colors.len();
    if count == 0 {
        return Score::zero();
    }
    let mut total: u128 = 0;
    let mut i: usize = 0;
    while i < count
        invariant
            count == colors@.len(),
            0 <= i <= count,
            total == luma_total(colors@.take(i as int)),
            total <= FULL_LUMA * i,
        decreases count - i,
    {
        let c: Rgb = colors[i];
        proof {
            lemma_luma_total_step(colors@, i as int);
        }
        let y: u128 = RED_WEIGHT as u128 * c.r as u128 + GREEN_WEIGHT as u128 * c.g as u128
            + BLUE_WEIGHT as u128 * c.b as u128;
        total = total + y;
        i = i + 1;
    }
    proof {
        assert(colors@.take(count as int) =~= colors@);
    }
    let full: u128 = FULL_LUMA as u128 * count as u128;
    let made = Score::from_ratio(total, full);
    made.unwrap()
}

} // verus!
