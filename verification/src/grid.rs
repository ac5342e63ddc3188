//! Pictures as grids of pixels, and the cutting of a picture into tiles.
//!
//! A picture is held as rows of pixels from the top down, each pixel as four
//! samples: red, green, blue and alpha, one byte each.

use vstd::arithmetic::div_mod::lemma_fundamental_div_mod_converse;
use vstd::prelude::*;
use vstd::slice::slice_subrange;

verus! {

/// A picture as a value of mathematics: its size in pixels and its samples.
pub struct Picture {
    pub width: nat,
    pub height: nat,
    pub samples: Seq<u8>,
}

impl Picture {
    /// There are four samples to each pixel, no more and no fewer.
    pub open spec fn well_formed(self) -> bool {
        self.samples.len() == self.width * self.height * 4
    }

    /// The sample of one channel of the pixel in column `x` of row `y`.
    pub open spec fn sample(self, x: int, y: int, channel: int) -> u8 {
        self.samples[(y * self.width + x) * 4 + channel]
    }

    /// The rectangle of `width` by `height` pixels whose top left corner is
    /// the pixel in column `x` of row `y`, as a picture of its own.
    pub open spec fn crop(self, x: nat, y: nat, width: nat, height: nat) -> Picture {
        Picture {
            width,
            height,
            samples: Seq::new(
                width * height * 4,
                |i: int|
                    self.sample(x + (i / 4) % (width as int), y + (i / 4) / (width as int), i % 4),
            ),
        }
    }

    /// The width of a tile when the picture is cut into `cols` columns: what
    /// is left over at the right edge belongs to no tile.
    pub open spec fn tile_width(self, cols: nat) -> nat {
        self.width / cols
    }

    /// The height of a tile when the picture is cut into `rows` rows: what is
    /// left over at the bottom edge belongs to no tile.
    pub open spec fn tile_height(self, rows: nat) -> nat {
        self.height / rows
    }

    /// The tile in row `row` and column `col` of the grid of `rows` by `cols`
    /// tiles.
    pub open spec fn tile(self, rows: nat, cols: nat, row: nat, col: nat) -> Picture {
        self.crop(
            col * self.tile_width(cols),
            row * self.tile_height(rows),
            self.tile_width(cols),
            self.tile_height(rows),
        )
    }

    /// All tiles of the grid, row by row from the top, each row from the
    /// left.
    pub open spec fn tiles(self, rows: nat, cols: nat) -> Seq<Picture> {
        Seq::new(
            rows * cols,
            |k: int| self.tile(rows, cols, (k / (cols as int)) as nat, (k % (cols as int)) as nat),
        )
    }
}

/// The place of the tile in row `row` and column `col` when the tiles of a
/// grid of `cols` columns are counted row by row from the top, each row from
/// the left, starting with 0.
pub open spec fn tile_place(cols: nat, row: nat, col: nat) -> int {
    (row * cols + col) as int
}

/// The place of a sample in a crop: the sample of channel `channel` of the
/// pixel in column `i` of row `j` is the `((j * width + i) * 4 + channel)`-th,
/// and that number gives the three back.
proof fn lemma_sample_place(width: int, i: int, j: int, channel: int)
    requires
        0 <= i < width,
        0 <= j,
        0 <= channel < 4,
    ensures
        ({
            let k = (j * width + i) * 4 + channel;
            &&& k % 4 == channel
            &&& (k / 4) % width == i
            &&& (k / 4) / width == j
        }),
{
    let k = (j * width + i) * 4 + channel;
    lemma_fundamental_div_mod_converse(k / 4, width, j, i);
}

/// A crop holds the pixels of the rectangle it was cut from: the pixel in
/// column `i` of row `j` of the crop is the pixel in column `x + i` of row
/// `y + j` of the picture.
pub proof fn law_crop_keeps_pixels(
    picture: Picture,
    x: nat,
    y: nat,
    width: nat,
    height: nat,
    i: int,
    j: int,
    channel: int,
)
    requires
        0 <= i < width,
        0 <= j < height,
        0 <= channel < 4,
    ensures
        picture.crop(x, y, width, height).well_formed(),
        picture.crop(x, y, width, height).sample(i, j, channel) == picture.sample(
            x + i,
            y + j,
            channel,
        ),
{
    lemma_sample_place(width as int, i, j, channel);
    let k = (j * width + i) * 4 + channel;
    assert(0 <= k < width * height * 4) by (nonlinear_arith)
        requires
            0 <= i < width,
            0 <= j < height,
            0 <= channel < 4,
            k == (j * width + i) * 4 + channel,
    ;
}

/// Rows of a rectangle inside a picture lie inside its samples.
proof fn lemma_row_inside(big_width: int, big_height: int, x: int, row: int, width: int)
    requires
        0 <= x,
        0 <= width,
        x + width <= big_width,
        0 <= row < big_height,
    ensures
        0 <= (row * big_width + x) * 4,
        (row * big_width + x) * 4 + width * 4 <= big_width * big_height * 4,
        big_width * 4 <= big_width * big_height * 4,
        width * 4 <= big_width * big_height * 4,
{
    assert(row * big_width + big_width <= big_height * big_width) by (nonlinear_arith)
        requires
            0 <= row < big_height,
            0 <= big_width,
    ;
    assert(0 <= row * big_width) by (nonlinear_arith)
        requires
            0 <= row,
            0 <= big_width,
    ;
    assert(big_width <= big_width * big_height) by (nonlinear_arith)
        requires
            0 <= big_width,
            0 < big_height,
    ;
}

/// A picture in memory.
#[derive(Debug, PartialEq, Eq)]
pub struct PixelGrid {
    width: u32,
    height: u32,
    samples: Vec<u8>,
}

impl View for PixelGrid {
    type V = Picture;

    closed spec fn view(&self) -> Picture {
        Picture {
            width: self.width as nat,
            height: self.height as nat,
            samples: self.samples@,
        }
    }
}

impl PixelGrid {
    #[verifier::type_invariant]
    spec fn sized(self) -> bool {
        self.samples@.len() == self.width * self.height * 4
    }

    /// Makes a picture of `width` by `height` pixels out of its samples.
    ///
    /// There is no such picture, and the answer is nothing, where the number
    /// of samples is not four times the number of pixels.
    pub fn new(width: u32, height: u32, samples: Vec<u8>) -> (r: Option<PixelGrid>)
        ensures
            r is Some <==> samples@.len() == width * height * 4,
            r matches Some(grid) ==> grid@ == (Picture {
                width: width as nat,
                height: height as nat,
                samples: samples@,
            }) && grid@.well_formed(),
    {
        proof {
            assert(width * height <= 0xffff_ffff * 0xffff_ffff) by (nonlinear_arith)
                requires
                    0 <= width <= 0xffff_ffff,
                    0 <= height <= 0xffff_ffff,
            ;
        }
        let wanted: u128 = (width as u128) * (height as u128) * 4;
        if samples.len() as u128 == wanted {
            Some(PixelGrid { width, height, samples })
        } else {
            None
        }
    }

    /// The width in pixels.
    pub fn width(&self) -> (w: u32)
        ensures
            w == self@.width,
            self@.well_formed(),
    {
        proof {
            use_type_invariant(self);
        }
        self.width
    }

    /// The height in pixels.
    pub fn height(&self) -> (h: u32)
        ensures
            h == self@.height,
            self@.well_formed(),
    {
        proof {
            use_type_invariant(self);
        }
        self.height
    }

    /// The samples, row by row from the top.
    pub fn samples(&self) -> (s: &[u8])
        ensures
            s@ == self@.samples,
            self@.well_formed(),
    {
        proof {
            use_type_invariant(self);
        }
        self.samples.as_slice()
    }

    /// Cuts the rectangle of `width` by `height` pixels out of the picture
    /// whose top left corner is the pixel in column `x` of row `y`.
    pub fn crop(&self, x: u32, y: u32, width: u32, height: u32) -> (r: PixelGrid)
        requires
            x + width <= self@.width,
            y + height <= self@.height,
        ensures
            r@ == self@.crop(x as nat, y as nat, width as nat, height as nat),
            r@.well_formed(),
    {
        proof {
            use_type_invariant(self);
        }
        let ghost wanted = self@.crop(x as nat, y as nat, width as nat, height as nat);
        let mut out: Vec<u8> = Vec::new();
        if width == 0 || height == 0 {
            proof {
                assert(width * height * 4 == 0) by (nonlinear_arith)
                    requires
                        width == 0 || height == 0,
                ;
                assert(out@ =~= wanted.samples);
            }
            return PixelGrid { width, height, samples: out };
        }
        let total: usize = self.samples.len();
        proof {
            lemma_row_inside(
                self.width as int,
                self.height as int,
                x as int,
                y as int,
                width as int,
            );
        }
        let stride: usize = self.width as usize * 4;
        let row_len: usize = width as usize * 4;
        let left: usize = x as usize * 4;
        let mut j: u32 = 0;
        proof {
            assert(0 * width * 4 <= width * height * 4) by (nonlinear_arith)
                requires
                    0 <= width,
                    0 <= height,
            ;
        }
        while j < height
            invariant
                0 <= j <= height,
                0 < width,
                x + width <= self.width,
                y + height <= self.height,
                total == self.samples@.len() == self.width * self.height * 4,
                wanted.samples.len() == width * height * 4,
                j * width * 4 <= width * height * 4,
                stride == self.width * 4,
                row_len == width * 4,
                left == x * 4,
                wanted == self@.crop(x as nat, y as nat, width as nat, height as nat),
                out@.len() == j * width * 4,
                forall|k: int| 0 <= k < out@.len() ==> out@[k] == #[trigger] wanted.samples[k],
            decreases height - j,
        {
            proof {
                lemma_row_inside(
                    self.width as int,
                    self.height as int,
                    x as int,
                    y as int + j as int,
                    width as int,
                );
                assert((y + j) * (self.width * 4) == ((y + j) * self.width) * 4)
                    by (nonlinear_arith);
            }
            let start: usize = (y as usize + j as usize) * stride + left;
            let row = slice_subrange(self.samples.as_slice(), start, start + row_len);
            let ghost before = out@;
            out.extend_from_slice(row);
            proof {
                assert((j + 1) * width * 4 == j * width * 4 + width * 4) by (nonlinear_arith);
                assert((j + 1) * width * 4 <= width * height * 4) by (nonlinear_arith)
                    requires
                        j < height,
                        0 <= width,
                ;
                assert forall|k: int| 0 <= k < out@.len() implies out@[k]
                    == #[trigger] wanted.samples[k] by {
                    if k >= before.len() {
                        let rest = k - before.len();
                        let i = rest / 4;
                        let channel = rest % 4;
                        assert(k == (j * width + i) * 4 + channel) by (nonlinear_arith)
                            requires
                                k == j * width * 4 + rest,
                                i == rest / 4,
                                channel == rest % 4,
                        ;
                        lemma_sample_place(width as int, i, j as int, channel);
                        assert(start + rest == ((y + j) * self.width + (x + i)) * 4 + channel)
                            by (nonlinear_arith)
                            requires
                                start == ((y + j) * self.width) * 4 + x * 4,
                                i == rest / 4,
                                channel == rest % 4,
                        ;
                    }
                }
            }
            j = j + 1;
        }
        proof {
            assert(height * width * 4 == width * height * 4) by (nonlinear_arith);
            assert(out@ =~= wanted.samples);
        }
        PixelGrid { width, height, samples: out }
    }
}

} // verus!
