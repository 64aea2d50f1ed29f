//! The pixel grid that the analyzers read.

use vstd::prelude::*;

verus! {

/// The three 8-bit channel intensities of one pixel.
#[derive(Clone, Copy, Debug, PartialEq, Eq)]
pub struct Rgb {
    pub r: u8,
    pub g: u8,
    pub b: u8,
}

/// A pixel grid as contracts speak of it: `width * height` pixels in row-major
/// order, each with its color and its gray level.
pub struct GridView {
    pub width: nat,
    pub height: nat,
    pub colors: Seq<Rgb>,
    pub gray: Seq<u8>,
}

impl GridView {
    /// Both planes hold exactly one entry for each pixel.
    pub open spec fn wf(self) -> bool {
        &&& self.colors.len() == self.width * self.height
        &&& self.gray.len() == self.width * self.height
    }

    /// The number of pixels.
    pub open spec fn pixel_count(self) -> nat {
        self.width * self.height
    }

    /// The color of the pixel in column `x` of row `y`.
    pub open spec fn color_at(self, x: int, y: int) -> Rgb {
        self.colors[y * self.width + x]
    }

    /// The gray level of the pixel in column `x` of row `y`.
    pub open spec fn gray_at(self, x: int, y: int) -> int {
        self.gray[y * self.width + x] as int
    }
}

/// A rectangular grid of pixels. Each pixel has three 8-bit color channels
/// and an 8-bit gray level, the latter as the decoder derived it.
#[derive(Debug)]
pub struct PixelGrid {
    width: u32,
    height: u32,
    colors: Vec<Rgb>,
    gray: Vec<u8>,
}

impl View for PixelGrid {
    type V = GridView;

    closed spec fn view(&self) -> GridView {
        GridView {
            width: self.width as nat,
            height: self.height as nat,
            colors: self.colors@,
            gray: self.gray@,
        }
    }
}

/// A pixel inside a grid of `width` columns and `height` rows has its place
/// inside the row-major planes.
pub proof fn lemma_index_in_range(x: int, y: int, width: int, height: int)
    by (nonlinear_arith)
    requires
        0 <= x < width,
        0 <= y < height,
    ensures
        0 <= y * width + x < width * height,
        0 <= y * width <= y * width + x,
{
    assert(y * width + width == (y + 1) * width);
    assert((y + 1) * width <= height * width);
}

impl PixelGrid {
    /// Every grid is well formed.
    #[verifier::type_invariant]
    pub closed spec fn wf(&self) -> bool {
        self@.wf()
    }

    /// A grid of `width` columns and `height` rows from its two planes in
    /// row-major order; `None` unless each plane has `width * height` entries.
    pub fn new(width: u32, height: u32, colors: Vec<Rgb>, gray: Vec<u8>) -> (grid: Option<
        PixelGrid,
    >)
        ensures
            grid is Some <==> colors@.len() == width * height && gray@.len() == width * height,
            grid matches Some(g) ==> g.wf() && g@ == (GridView {
                width: width as nat,
                height: height as nat,
                colors: colors@,
                gray: gray@,
            }),
    {
        assert(width * height <= 0xffff_ffff * 0xffff_ffff) by (nonlinear_arith)
            requires
                0 <= width <= 0xffff_ffff,
                0 <= height <= 0xffff_ffff,
        ;
        let count: u64 = (width as u64) * (height as u64);
        if colors.len() as u64 == count && gray.len() as u64 == count {
            Some(PixelGrid { width, height, colors, gray })
        } else {
            None
        }
    }

    /// The number of columns.
    pub fn width(&self) -> (w: u32)
        ensures
            w == self@.width,
    {
        self.width
    }

    /// The number of rows.
    pub fn height(&self) -> (h: u32)
        ensures
            h == self@.height,
    {
        self.height
    }

    /// The colors of the pixels in row-major order.
    pub fn colors(&self) -> (plane: &[Rgb])
        ensures
            plane@ == self@.colors,
            self@.wf(),
    {
        proof {
            use_type_invariant(self);
        }
        self.colors.as_slice()
    }

    /// The gray levels of the pixels in row-major order.
    pub fn gray(&self) -> (plane: &[u8])
        ensures
            plane@ == self@.gray,
            self@.wf(),
    {
        proof {
            use_type_invariant(self);
        }
        self.gray.as_slice()
    }
}

} // verus!
