//! Decoded images held as rows of RGBA pixels.

use vstd::prelude::*;

verus! {

/// One pixel: red, green, blue and alpha channels of eight bits each.
#[derive(Clone, Copy, Debug, PartialEq, Eq, Structural)]
pub struct Pixel {
    pub r: u8,
    pub g: u8,
    pub b: u8,
    pub a: u8,
}

/// What a raster holds: its size and its rows, top to bottom.
pub ghost struct RasterView {
    pub width: nat,
    pub height: nat,
    pub rows: Seq<Seq<Pixel>>,
}

impl RasterView {
    /// `height` rows of `width` pixels each.
    pub open spec fn wf(self) -> bool {
        &&& self.rows.len() == self.height
        &&& forall|y: int| 0 <= y < self.height ==> #[trigger] self.rows[y].len() == self.width
    }

    /// The pixel in column `x` of row `y`.
    pub open spec fn pixel(self, x: int, y: int) -> Pixel {
        self.rows[y][x]
    }
}

/// A rectangular image of `width` by `height` pixels.
#[derive(Debug)]
pub struct Raster {
    width: u32,
    height: u32,
    rows: Vec<Vec<Pixel>>,
}

impl View for Raster {
    type V = RasterView;

    closed spec fn view(&self) -> RasterView {
        RasterView {
            width: self.width as nat,
            height: self.height as nat,
            rows: self.rows@.map_values(|row: Vec<Pixel>| row@),
        }
    }
}

impl Raster {
    #[verifier::type_invariant]
    pub(crate) closed spec fn inv(&self) -> bool {
        self@.wf()
    }

    /// A raster of `width` by `height` pixels, all equal to `fill`.
    pub fn filled(width: u32, height: u32, fill: Pixel) -> (r: Raster)
        ensures
            r@.wf(),
            r@.width == width,
            r@.height == height,
            forall|x: int, y: int| 0 <= x < width && 0 <= y < height ==> r@.pixel(x, y) == fill,
    {
        let mut rows: Vec<Vec<Pixel>> = Vec::new();
        let mut y: u32 = 0;
        while y < height
            invariant
                y <= height,
                rows@.len() == y,
                forall|j: int| 0 <= j < y ==> #[trigger] rows@[j]@ == Seq::new(width as nat, |i: int| fill),
            decreases height - y,
        {
            let mut row: Vec<Pixel> = Vec::new();
            let mut x: u32 = 0;
            while x < width
                invariant
                    x <= width,
                    row@ == Seq::new(x as nat, |i: int| fill),
                decreases width - x,
            {
                row.push(fill);
                x = x + 1;
                assert(row@ =~= Seq::new(x as nat, |i: int| fill));
            }
            rows.push(row);
            y = y + 1;
        }
        let r = Raster { width, height, rows };
        assert(r@.wf());
        r
    }

    /// A raster of `width` by `height` pixels read from `pixels`, which lists them
    /// row by row, top to bottom and left to right; `None` where the buffer does not
    /// hold exactly `width * height` pixels.
    pub fn from_pixels(width: u32, height: u32, pixels: &Vec<Pixel>) -> (r: Option<Raster>)
        ensures
            r is Some <==> pixels@.len() == width * height,
            r matches Some(img) ==> {
                &&& img@.wf()
                &&& img@.width == width
                &&& img@.height == height
                &&& forall|x: int, y: int|
                    0 <= x < width && 0 <= y < height ==> #[trigger] img@.pixel(x, y)
                        == pixels@[y * width + x]
            },
    {
        assert(width * height <= u64::MAX) by (nonlinear_arith)
            requires
                width <= u32::MAX,
                height <= u32::MAX,
        ;
        if pixels.len() as u64 != width as u64 * height as u64 {
            return None;
        }
        let n = pixels.len();
        let mut rows: Vec<Vec<Pixel>> = Vec::new();
        let mut start: usize = 0;
        let mut y: u32 = 0;
        while y < height
            invariant
                y <= height,
                pixels@.len() == width * height,
                n == pixels@.len(),
                start == y * width,
                rows@.len() == y,
                forall|j: int| 0 <= j < y ==> (#[trigger] rows@[j]@).len() == width,
                forall|j: int, i: int|
                    0 <= j < y && 0 <= i < width ==> #[trigger] rows@[j]@[i] == pixels@[j * width + i],
            decreases height - y,
        {
            proof {
                lemma_row_end(width as int, height as int, y as int);
            }
            let mut row: Vec<Pixel> = Vec::new();
            let mut x: u32 = 0;
            while x < width
                invariant
                    x <= width,
                    y < height,
                    pixels@.len() == width * height,
                    start == y * width,
                    n == pixels@.len(),
                    start + width <= n,
                    row@.len() == x,
                    forall|i: int| 0 <= i < x ==> #[trigger] row@[i] == pixels@[y * width + i],
                decreases width - x,
            {
                row.push(pixels[start + x as usize]);
                x = x + 1;
            }
            rows.push(row);
            start = start + width as usize;
            y = y + 1;
            assert(start == y * width) by (nonlinear_arith)
                requires
                    start == (y - 1) * width + width,
            ;
        }
        let img = Raster { width, height, rows };
        assert(img@.wf());
        Some(img)
    }

    /// All pixels, row by row, top to bottom and left to right.
    pub fn to_pixels(&self) -> (pixels: Vec<Pixel>)
        ensures
            pixels@.len() == self@.width * self@.height,
            forall|x: int, y: int|
                0 <= x < self@.width && 0 <= y < self@.height ==> pixels@[y * self@.width + x]
                    == #[trigger] self@.pixel(x, y),
    {
        proof {
            use_type_invariant(self);
        }
        let width = self.width;
        let height = self.height;
        let mut pixels: Vec<Pixel> = Vec::new();
        let mut y: u32 = 0;
        while y < height
            invariant
                self@.wf(),
                width == self@.width,
                height == self@.height,
                y <= height,
                pixels@.len() == y * width,
                forall|j: int, i: int|
                    0 <= j < y && 0 <= i < width ==> pixels@[j * width + i]
                        == #[trigger] self@.pixel(i, j),
            decreases height - y,
        {
            let row = &self.rows[y as usize];
            assert(row@ == self@.rows[y as int]);
            assert(row@.len() == width);
            let mut x: u32 = 0;
            while x < width
                invariant
                    self@.wf(),
                    width == self@.width,
                    y < height,
                    row@ == self@.rows[y as int],
                    row@.len() == width,
                    x <= width,
                    pixels@.len() == y * width + x,
                    forall|j: int, i: int|
                        0 <= j < y && 0 <= i < width ==> pixels@[j * width + i]
                            == #[trigger] self@.pixel(i, j),
                    forall|i: int| 0 <= i < x ==> pixels@[y * width + i] == #[trigger] self@.pixel(i, y as int),
                decreases width - x,
            {
                let ghost before = pixels@;
                pixels.push(row[x as usize]);
                assert forall|j: int, i: int| 0 <= j < y && 0 <= i < width implies pixels@[j * width + i]
                    == #[trigger] self@.pixel(i, j) by {
                    lemma_row_major_bound(width as int, y as int, i, j);
                    assert(pixels@[j * width + i] == before[j * width + i]);
                }
                x = x + 1;
            }
            y = y + 1;
            assert(pixels@.len() == y * width) by (nonlinear_arith)
                requires
                    pixels@.len() == (y - 1) * width + width,
            ;
        }
        assert(pixels@.len() == width * height) by (nonlinear_arith)
            requires
                pixels@.len() == y * width,
                y == height,
        ;
        pixels
    }

    /// A raster made of `rows`, each of which holds `width` pixels.
    pub(crate) fn from_rows(width: u32, height: u32, rows: Vec<Vec<Pixel>>) -> (r: Raster)
        requires
            rows@.len() == height,
            forall|y: int| 0 <= y < height ==> (#[trigger] rows@[y]@).len() == width,
        ensures
            r@.width == width,
            r@.height == height,
            r@.rows == rows@.map_values(|row: Vec<Pixel>| row@),
            r@.wf(),
    {
        let r = Raster { width, height, rows };
        assert(r@.wf());
        r
    }

    /// The number of pixels in each row.
    pub fn width(&self) -> (w: u32)
        ensures
            w == self@.width,
            self@.wf(),
    {
        proof {
            use_type_invariant(self);
        }
        self.width
    }

    /// The number of rows.
    pub fn height(&self) -> (h: u32)
        ensures
            h == self@.height,
            self@.wf(),
    {
        proof {
            use_type_invariant(self);
        }
        self.height
    }

    /// The width and height together.
    pub fn dimensions(&self) -> (d: (u32, u32))
        ensures
            d.0 == self@.width,
            d.1 == self@.height,
            self@.wf(),
    {
        (self.width(), self.height())
    }

    /// The pixel in column `x` of row `y`.
    pub fn pixel(&self, x: u32, y: u32) -> (p: Pixel)
        requires
            x < self@.width,
            y < self@.height,
        ensures
            p == self@.pixel(x as int, y as int),
    {
        proof {
            use_type_invariant(self);
            assert(self@.rows[y as int] == self.rows@[y as int]@);
        }
        self.rows[y as usize][x as usize]
    }

    /// Row `y`, left to right.
    pub fn row(&self, y: u32) -> (row: &Vec<Pixel>)
        requires
            y < self@.height,
        ensures
            row@ == self@.rows[y as int],
            row@.len() == self@.width,
    {
        proof {
            use_type_invariant(self);
        }
        &self.rows[y as usize]
    }
}

/// In a row-major layout of `rows` rows of `width` cells, cell `i` of row `j`
/// comes before the first cell of row `rows`.
pub(crate) proof fn lemma_row_major_bound(width: int, rows: int, i: int, j: int)
    requires
        0 <= i < width,
        0 <= j < rows,
    ensures
        0 <= j * width + i < rows * width,
{
    assert(0 <= j * width + i < rows * width) by (nonlinear_arith)
        requires
            0 <= i < width,
            0 <= j < rows,
    ;
}

/// In a row-major layout of `rows` rows of `width` cells, row `j` ends no later
/// than the whole layout.
proof fn lemma_row_end(width: int, rows: int, j: int)
    requires
        0 <= width,
        0 <= j < rows,
    ensures
        0 <= j * width,
        j * width + width <= rows * width,
{
    assert(0 <= j * width && j * width + width <= rows * width) by (nonlinear_arith)
        requires
            0 <= width,
            0 <= j < rows,
    ;
}

} // verus!
