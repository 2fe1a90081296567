//! The image grid: a rectangle of pixels held in an `image::RgbaImage`.

use vstd::prelude::*;
use vstd::arithmetic::div_mod::lemma_fundamental_div_mod_converse;
use crate::color::Pixel;

verus! {

/// A rectangular grid of RGBA pixels.
///
/// The pixels live in an `image::RgbaImage`, which this type keeps to itself
/// and which the verifier does not look into: what it holds is known through
/// `grid_width`, `grid_height` and `grid_pixels` alone. Its width and height
/// are fixed when the grid is made.
#[verifier::external_body]
pub struct ImageGrid {
    buffer: image::RgbaImage,
}

/// The number of columns of the buffer, as `ImageBuffer::width` reports it.
pub uninterp spec fn grid_width(grid: ImageGrid) -> nat;

/// The number of rows of the buffer, as `ImageBuffer::height` reports it.
pub uninterp spec fn grid_height(grid: ImageGrid) -> nat;

/// The pixel that the buffer holds at each position `(column, row)`.
pub uninterp spec fn grid_pixels(grid: ImageGrid) -> Map<(u32, u32), Pixel>;

/// What a grid is to the contracts of this crate.
pub struct GridView {
    pub width: nat,
    pub height: nat,
    pub pixels: Map<(u32, u32), Pixel>,
}

impl GridView {
    /// Whether `at` lies inside the grid.
    pub open spec fn contains(self, at: (u32, u32)) -> bool {
        at.0 < self.width && at.1 < self.height
    }

    /// Every position inside the grid holds a pixel.
    pub open spec fn wf(self) -> bool {
        forall|at: (u32, u32)| self.contains(at) ==> #[trigger] self.pixels.dom().contains(at)
    }

    /// The pixels row by row, each row from left to right.
    pub open spec fn row_major(self) -> Seq<Pixel> {
        Seq::new(
            self.width * self.height,
            |k: int| self.pixels[((k % self.width as int) as u32, (k / self.width as int) as u32)],
        )
    }
}

/// The grid of the given size whose rows, from the top, are laid end to end
/// in `pixels`.
pub open spec fn grid_of(width: nat, height: nat, pixels: Seq<Pixel>) -> GridView {
    GridView {
        width,
        height,
        pixels: Map::new(
            |at: (u32, u32)| at.0 < width && at.1 < height,
            |at: (u32, u32)| pixels[at.1 * width + at.0],
        ),
    }
}

/// Whether a buffer for a grid of this size can be allocated.
pub open spec fn size_fits(width: nat, height: nat) -> bool {
    4 * width <= usize::MAX && 4 * (width * height) <= isize::MAX
}

/// `a` comes before `b` when the grid is read row by row from the top.
pub open spec fn scans_before(a: (u32, u32), b: (u32, u32)) -> bool {
    a.1 < b.1 || (a.1 == b.1 && a.0 < b.0)
}

impl View for ImageGrid {
    type V = GridView;

    open spec fn view(&self) -> GridView {
        GridView {
            width: grid_width(*self),
            height: grid_height(*self),
            pixels: grid_pixels(*self),
        }
    }
}

/// `ImageBuffer::new`: a buffer of the given size in which every channel of
/// every pixel is zero. It panics when the buffer would not fit a `Vec`,
/// which the precondition rules out.
#[verifier::external_body]
pub(crate) fn buffer_new(width: u32, height: u32) -> (grid: ImageGrid)
    requires
        size_fits(width as nat, height as nat),
    ensures
        grid_width(grid) == width,
        grid_height(grid) == height,
        grid_pixels(grid) == Map::new(
            |at: (u32, u32)| at.0 < width && at.1 < height,
            |at: (u32, u32)| Pixel { red: 0, green: 0, blue: 0, alpha: 0 },
        ),
{
    ImageGrid { buffer: image::RgbaImage::new(width, height) }
}

/// `ImageBuffer::dimensions`: the width and the height of the buffer. The
/// buffer is never shorter than that many pixels, so it holds one at every
/// position below them.
#[verifier::external_body]
pub(crate) fn buffer_dimensions(grid: &ImageGrid) -> (size: (u32, u32))
    ensures
        size.0 == grid_width(*grid),
        size.1 == grid_height(*grid),
        forall|at: (u32, u32)|
            at.0 < size.0 && at.1 < size.1 ==> #[trigger] grid_pixels(*grid).dom().contains(at),
{
    grid.buffer.dimensions()
}

/// `ImageBuffer::get_pixel`: the four channels stored at `(x, y)`. It panics
/// outside the buffer, which the precondition rules out.
#[verifier::external_body]
pub(crate) fn buffer_get(grid: &ImageGrid, x: u32, y: u32) -> (pixel: Pixel)
    requires
        x < grid_width(*grid),
        y < grid_height(*grid),
    ensures
        grid_pixels(*grid).contains_pair((x, y), pixel),
{
    let image::Rgba([red, green, blue, alpha]) = *grid.buffer.get_pixel(x, y);
    Pixel { red, green, blue, alpha }
}

/// `ImageBuffer::put_pixel`: stores the four channels at `(x, y)` and leaves
/// the size and every other pixel alone. It panics outside the buffer, which
/// the precondition rules out.
#[verifier::external_body]
pub(crate) fn buffer_put(grid: &mut ImageGrid, x: u32, y: u32, pixel: Pixel)
    requires
        x < grid_width(*old(grid)),
        y < grid_height(*old(grid)),
    ensures
        grid_width(*final(grid)) == grid_width(*old(grid)),
        grid_height(*final(grid)) == grid_height(*old(grid)),
        grid_pixels(*final(grid)) == grid_pixels(*old(grid)).insert((x, y), pixel),
{
    grid.buffer.put_pixel(x, y, image::Rgba([pixel.red, pixel.green, pixel.blue, pixel.alpha]));
}

impl ImageGrid {
    /// The number of columns and the number of rows.
    pub fn dimensions(&self) -> (size: (u32, u32))
        ensures
            size.0 == self@.width,
            size.1 == self@.height,
            self@.wf(),
    {
        buffer_dimensions(self)
    }

    /// The number of columns.
    pub fn width(&self) -> (width: u32)
        ensures
            width == self@.width,
    {
        buffer_dimensions(self).0
    }

    /// The number of rows.
    pub fn height(&self) -> (height: u32)
        ensures
            height == self@.height,
    {
        buffer_dimensions(self).1
    }

    /// The pixel at column `x` of row `y`, or `None` outside the grid.
    pub fn pixel(&self, x: u32, y: u32) -> (pixel: Option<Pixel>)
        ensures
            pixel == if self@.contains((x, y)) {
                Some(self@.pixels[(x, y)])
            } else {
                None
            },
    {
        let (width, height) = buffer_dimensions(self);
        if x < width && y < height {
            Some(buffer_get(self, x, y))
        } else {
            None
        }
    }

    /// Makes the grid of the given size from its pixels, given row by row
    /// from the top and each row from left to right.
    ///
    /// The result is `None` when the number of pixels is not `width * height`
    /// or when a buffer of that size cannot be allocated.
    pub fn from_pixels(width: u32, height: u32, pixels: &Vec<Pixel>) -> (grid: Option<ImageGrid>)
        ensures
            grid is Some <==> pixels.len() == width * height && size_fits(
                width as nat,
                height as nat,
            ),
            grid matches Some(g) ==> g@ == grid_of(width as nat, height as nat, pixels@) && g@.wf(),
    {
        assert(width * height <= 0xffff_ffff * 0xffff_ffff) by (nonlinear_arith)
            requires
                width <= 0xffff_ffff,
                height <= 0xffff_ffff,
        ;
        let count: u64 = (width as u64) * (height as u64);
        if pixels.len() as u64 != count || width as u64 > (usize::MAX as u64) / 4 || count > (
        isize::MAX as u64) / 4 {
            return None;
        }
        let mut grid = buffer_new(width, height);
        let mut k: usize = 0;
        for y in 0..height
            invariant
                grid@.width == width,
                grid@.height == height,
                pixels.len() == width * height,
                k == y * width,
                grid@.pixels == Map::new(
                    |at: (u32, u32)| at.0 < width && at.1 < height,
                    |at: (u32, u32)|
                        if at.1 < y {
                            pixels[at.1 * width + at.0]
                        } else {
                            Pixel { red: 0, green: 0, blue: 0, alpha: 0 }
                        },
                ),
        {
            for x in 0..width
                invariant
                    y < height,
                    grid@.width == width,
                    grid@.height == height,
                    pixels.len() == width * height,
                    k == y * width + x,
                    grid@.pixels == Map::new(
                        |at: (u32, u32)| at.0 < width && at.1 < height,
                        |at: (u32, u32)|
                            if scans_before(at, (x, y)) {
                                pixels[at.1 * width + at.0]
                            } else {
                                Pixel { red: 0, green: 0, blue: 0, alpha: 0 }
                            },
                    ),
            {
                assert(y * width + x < width * height) by (nonlinear_arith)
                    requires
                        x < width,
                        y < height,
                ;
                buffer_put(&mut grid, x, y, pixels[k]);
                k += 1;
            }
            assert((y + 1) * width == y * width + width) by (nonlinear_arith);
        }
        assert(grid@.pixels =~= grid_of(width as nat, height as nat, pixels@).pixels);
        Some(grid)
    }

    /// The pixels of the grid, row by row from the top and each row from
    /// left to right.
    pub fn to_pixels(&self) -> (pixels: Vec<Pixel>)
        ensures
            pixels@ == self@.row_major(),
    {
        let (width, height) = buffer_dimensions(self);
        let mut pixels: Vec<Pixel> = Vec::new();
        assert(0 * width == 0) by (nonlinear_arith);
        for y in 0..height
            invariant
                self@.width == width,
                self@.height == height,
                pixels.len() == y * width,
                forall|k: int| 0 <= k < pixels.len() ==> pixels[k] == self@.row_major()[k],
        {
            for x in 0..width
                invariant
                    y < height,
                    self@.width == width,
                    self@.height == height,
                    pixels.len() == y * width + x,
                    forall|k: int| 0 <= k < pixels.len() ==> pixels[k] == self@.row_major()[k],
            {
                let pixel = buffer_get(self, x, y);
                proof {
                    let k = y * width + x;
                    assert(k < width * height) by (nonlinear_arith)
                        requires
                            k == y * width + x,
                            x < width,
                            y < height,
                    ;
                    lemma_fundamental_div_mod_converse(k, width as int, y as int, x as int);
                }
                pixels.push(pixel);
            }
            assert((y + 1) * width == y * width + width) by (nonlinear_arith);
        }
        assert(height * width == width * height) by (nonlinear_arith);
        pixels
    }
}

} // verus!
