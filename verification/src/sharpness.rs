//! Sharpness: the variance of the discrete Laplacian of the gray levels.

use crate::grid::{lemma_index_in_range, GridView, PixelGrid};
use crate::score::{Ratio, Score};
use crate::stats::{ints, population_variance, population_variance_of, variance_by_moments, within};
use vstd::arithmetic::div_mod::lemma_fundamental_div_mod_converse;
use vstd::prelude::*;

verus! {

/// The response of the 4-neighbor Laplacian kernel
/// `[[0, 1, 0], [1, -4, 1], [0, 1, 0]]` at the pixel in column `x` of row
/// `y`, which has all four neighbors inside the grid.
pub open spec fn laplacian(g: GridView, x: int, y: int) -> int {
    g.gray_at(x, y - 1) + g.gray_at(x, y + 1) + g.gray_at(x - 1, y) + g.gray_at(x + 1, y) - 4
        * g.gray_at(x, y)
}

/// The Laplacian responses of the interior pixels, row by row from the top,
/// each row from the left. Border pixels have no response; a grid narrower or
/// shorter than three pixels has no interior.
pub open spec fn laplacians(g: GridView) -> Seq<int> {
    if g.width < 3 || g.height < 3 {
        Seq::empty()
    } else {
        let across = g.width - 2;
        let down = g.height - 2;
        Seq::new((across * down) as nat, |k: int| laplacian(g, 1 + k % across, 1 + k / across))
    }
}

/// The blur score of a grid: the population variance of its Laplacian
/// responses. Higher is sharper.
pub open spec fn blur_score(g: GridView) -> Ratio {
    variance_by_moments(laplacians(g))
}

/// The place of an interior pixel in the sequence of responses.
proof fn lemma_interior_place(x: int, y: int, across: int, down: int)
    requires
        1 <= x <= across,
        1 <= y <= down,
    ensures
        0 <= (y - 1) * across + (x - 1) < across * down,
        ((y - 1) * across + (x - 1)) % across == x - 1,
        ((y - 1) * across + (x - 1)) / across == y - 1,
        y * across == (y - 1) * across + across,
{
    lemma_index_in_range(x - 1, y - 1, across, down);
    lemma_fundamental_div_mod_converse((y - 1) * across + (x - 1), across, y - 1, x - 1);
    assert(y * across == (y - 1) * across + across) by (nonlinear_arith);
}

/// The places of an interior pixel and of its four neighbors in the planes.
proof fn lemma_neighbors_in_range(x: int, y: int, width: int, height: int)
    requires
        1 <= x < width - 1,
        1 <= y < height - 1,
    ensures
        width <= y * width + x < width * height - width,
        (y - 1) * width + x == y * width + x - width,
        (y + 1) * width + x == y * width + x + width,
        y * width + (x - 1) == y * width + x - 1,
        y * width + (x + 1) == y * width + x + 1,
{
    lemma_index_in_range(x, y - 1, width, height);
    lemma_index_in_range(x, y + 1, width, height);
    assert((y - 1) * width + x == y * width + x - width) by (nonlinear_arith);
    assert((y + 1) * width + x == y * width + x + width) by (nonlinear_arith);
}

/// The Laplacian responses of the interior pixels of `grid`, row by row.
pub fn laplacian_values(grid: &PixelGrid) -> (values: Vec<i32>)
    ensures
        ints(values@) == laplacians(grid@),
        within(ints(values@), -1020, 1020),
{
    let gray = grid.gray();
    let mut values: Vec<i32> = Vec::new();
    if grid.width() < 3 || grid.height() < 3 {
        assert(ints(values@) =~= laplacians(grid@));
        return values;
    }
    let width: usize = grid.width() as usize;
    let height: usize = grid.height() as usize;
    let ghost g = grid@;
    let ghost across = width - 2;
    let ghost down = height - 2;
    let mut y: usize = 1;
    while y < height - 1
        invariant
            g == grid@,
            g.wf(),
            gray@ == g.gray,
            width == g.width,
            height == g.height,
            width >= 3,
            height >= 3,
            across == width - 2,
            down == height - 2,
            width * height == gray.len(),
            1 <= y <= height - 1,
            values@.len() == (y - 1) * across,
            forall|k: int|
                0 <= k < values@.len() ==> -1020 <= #[trigger] values@[k] <= 1020 && values@[k]
                    == laplacian(g, 1 + k % across, 1 + k / across),
        decreases height - y,
    {
        let mut x: usize = 1;
        while x < width - 1
            invariant
                g == grid@,
                g.wf(),
                gray@ == g.gray,
                width == g.width,
                height == g.height,
                width >= 3,
                height >= 3,
                across == width - 2,
                down == height - 2,
                width * height == gray.len(),
                1 <= y < height - 1,
                1 <= x <= width - 1,
                values@.len() == (y - 1) * across + (x - 1),
                forall|k: int|
                    0 <= k < values@.len() ==> -1020 <= #[trigger] values@[k] <= 1020
                        && values@[k] == laplacian(g, 1 + k % across, 1 + k / across),
            decreases width - x,
        {
            proof {
                lemma_neighbors_in_range(x as int, y as int, width as int, height as int);
                lemma_interior_place(x as int, y as int, across as int, down as int);
            }
            let at: usize = y * width + x;
            let center: i32 = gray[at] as i32;
            let top: i32 = gray[at - width] as i32;
            let bottom: i32 = gray[at + width] as i32;
            let left: i32 = gray[at - 1] as i32;
            let right: i32 = gray[at + 1] as i32;
            let response: i32 = top + bottom + left + right - 4 * center;
            assert(response == laplacian(g, x as int, y as int));
            values.push(response);
            x = x + 1;
        }
        proof {
            assert(y * across == (y - 1) * across + across) by (nonlinear_arith);
        }
        y = y + 1;
    }
    proof {
        assert(values@.len() == across * down) by (nonlinear_arith)
            requires
                values@.len() == (y - 1) * across,
                y == height - 1,
                down == height - 2,
        ;
        assert(ints(values@) =~= laplacians(g));
    }
    values
}

/// The blur score of `grid`: the population variance of the Laplacian
/// responses of its interior pixels, and zero where the grid has no interior.
pub fn calculate_blur_score(grid: &PixelGrid) -> (score: Score)
    ensures
        score.proper(),
        score@ == blur_score(grid@),
        score@.same(population_variance(laplacians(grid@))),
{
    let values = laplacian_values(grid);
    population_variance_of(values.as_slice())
}

} // verus!
