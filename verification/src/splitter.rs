//! The grid splitter: from the bytes of a picture and a grid to the tiles,
//! each as the text of a PNG file.
//!
//! What is asked is checked in a fixed order, and the first check that fails
//! gives the error: the grid is too large; the grid has no rows or no
//! columns; the bytes are no picture; the picture is too small for the grid.
//! The first two are checked before any decoding is done.

use crate::codec::{
    base64_text, bytes_as_slice, bytes_contents, decode_image, decoded_image, encode_base64,
    encode_png, png_encoding, text_fits,
};
use crate::grid::{law_crop_keeps_pixels, tile_place, Picture, PixelGrid};
use vstd::arithmetic::div_mod::{
    lemma_basic_div, lemma_div_non_zero, lemma_fundamental_div_mod_converse,
};
use vstd::prelude::*;

verus! {

/// The largest number of rows, and of columns, that a grid may have.
pub const MAX_GRID: u32 = 10;

/// Why a picture was not split.
#[derive(Clone, Copy, Debug, PartialEq, Eq, Structural)]
pub enum SplitError {
    /// More than [`MAX_GRID`] rows or columns were asked for.
    GridTooLarge,
    /// No rows or no columns were asked for.
    InvalidGrid,
    /// The bytes are no picture that the codec can read.
    Decode,
    /// The picture has fewer pixels across than the grid has columns, or
    /// fewer pixels down than it has rows.
    ImageTooSmall,
    /// A tile could not be written as a PNG file, or the file is too long to
    /// be written as text.
    Encode,
}

/// The outcome `r` is a refusal, for this reason.
pub open spec fn refused<T>(r: Result<T, SplitError>, reason: SplitError) -> bool {
    r == Err::<T, SplitError>(reason)
}

/// The outcome `r` is a success, with this value.
pub open spec fn gives<T>(r: Result<T, SplitError>, value: T) -> bool {
    r == Ok::<T, SplitError>(value)
}

/// What is wrong with a grid, if anything is. Too large comes before empty.
pub open spec fn grid_fault(rows: u32, cols: u32) -> Option<SplitError> {
    if rows > MAX_GRID || cols > MAX_GRID {
        Some(SplitError::GridTooLarge)
    } else if rows == 0 || cols == 0 {
        Some(SplitError::InvalidGrid)
    } else {
        None
    }
}

/// Holds a grid against the policy: at most [`MAX_GRID`] rows and columns,
/// and at least one of each.
pub fn check_grid(rows: u32, cols: u32) -> (r: Result<(), SplitError>)
    ensures
        r is Ok <==> 1 <= rows <= MAX_GRID && 1 <= cols <= MAX_GRID,
        r matches Err(e) ==> grid_fault(rows, cols) == Some(e),
        rows > MAX_GRID || cols > MAX_GRID ==> refused(r, SplitError::GridTooLarge),
{
    if rows > MAX_GRID || cols > MAX_GRID {
        Err(SplitError::GridTooLarge)
    } else if rows == 0 || cols == 0 {
        Err(SplitError::InvalidGrid)
    } else {
        Ok(())
    }
}

/// The picture has fewer pixels across than the grid has columns, or fewer
/// pixels down than it has rows, so that a tile would have no pixels.
pub open spec fn too_small(picture: Picture, rows: u32, cols: u32) -> bool {
    picture.width < cols || picture.height < rows
}

/// What cutting a picture into a grid gives: the tiles, row by row, or the
/// error of the first check that fails.
pub open spec fn cut_outcome(picture: Picture, rows: u32, cols: u32) -> Result<
    Seq<Picture>,
    SplitError,
> {
    match grid_fault(rows, cols) {
        Some(e) => Err(e),
        None => if picture.tile_width(cols as nat) == 0 || picture.tile_height(rows as nat) == 0 {
            Err(SplitError::ImageTooSmall)
        } else {
            Ok(picture.tiles(rows as nat, cols as nat))
        },
    }
}

/// A picture is too small for a grid exactly where a tile would have no
/// width or no height.
proof fn lemma_small_is_no_tile(picture: Picture, rows: u32, cols: u32)
    requires
        rows >= 1,
        cols >= 1,
    ensures
        too_small(picture, rows, cols) <==> picture.tile_width(cols as nat) == 0
            || picture.tile_height(rows as nat) == 0,
{
    if picture.width < cols {
        lemma_basic_div(picture.width as int, cols as int);
    } else {
        lemma_div_non_zero(picture.width as int, cols as int);
    }
    if picture.height < rows {
        lemma_basic_div(picture.height as int, rows as int);
    } else {
        lemma_div_non_zero(picture.height as int, rows as int);
    }
}

/// The pictures that a sequence of grids holds.
pub open spec fn pictures(grids: Seq<PixelGrid>) -> Seq<Picture> {
    Seq::new(grids.len(), |k: int| grids[k]@)
}

/// The place of a tile in the row by row order, and back.
proof fn lemma_tile_place(cols: int, row: int, col: int)
    requires
        0 <= col < cols,
        0 <= row,
    ensures
        (row * cols + col) / cols == row,
        (row * cols + col) % cols == col,
{
    lemma_fundamental_div_mod_converse(row * cols + col, cols, row, col);
}

/// Tiles of whole pixels lie inside the picture.
proof fn lemma_tile_inside(size: int, parts: int, index: int)
    requires
        0 <= size,
        0 < parts,
        0 <= index < parts,
    ensures
        0 <= index * (size / parts),
        index * (size / parts) + size / parts <= size,
{
    let step = size / parts;
    assert(step * parts <= size) by (nonlinear_arith)
        requires
            step == size / parts,
            0 < parts,
            0 <= size,
    ;
    assert(0 <= step) by (nonlinear_arith)
        requires
            step == size / parts,
            0 < parts,
            0 <= size,
    ;
    assert(index * step + step <= step * parts && 0 <= index * step) by (nonlinear_arith)
        requires
            0 <= index < parts,
            0 <= step,
    ;
}

/// Cuts a picture into a grid of `rows` by `cols` tiles of equal size.
///
/// A tile is `width / cols` pixels wide and `height / rows` pixels high,
/// rounded down; the pixels that are left over at the right and at the
/// bottom are in no tile. The tiles come row by row from the top, each row
/// from the left.
pub fn split_pixel_grid(grid: &PixelGrid, rows: u32, cols: u32) -> (r: Result<
    Vec<PixelGrid>,
    SplitError,
>)
    ensures
        match r {
            Ok(tiles) => gives(cut_outcome(grid@, rows, cols), pictures(tiles@)),
            Err(e) => refused(cut_outcome(grid@, rows, cols), e),
        },
        r is Ok <==> grid_fault(rows, cols) is None && !too_small(grid@, rows, cols),
        grid_fault(rows, cols) is None && too_small(grid@, rows, cols) ==> refused(
            r,
            SplitError::ImageTooSmall,
        ),
        r matches Ok(tiles) ==> {
            &&& tiles@.len() == rows * cols
            &&& 1 <= tiles@.len() <= MAX_GRID * MAX_GRID
            &&& forall|k: int|
                0 <= k < tiles@.len() ==> {
                    &&& (#[trigger] tiles@[k])@.well_formed()
                    &&& tiles@[k]@.width == grid@.width / (cols as nat)
                    &&& tiles@[k]@.height == grid@.height / (rows as nat)
                }
            &&& forall|row: nat, col: nat|
                row < rows && col < cols ==> {
                    let k = #[trigger] tile_place(cols as nat, row, col);
                    0 <= k < tiles@.len() && tiles@[k]@ == grid@.tile(
                        rows as nat,
                        cols as nat,
                        row,
                        col,
                    )
                }
        },
{
    match check_grid(rows, cols) {
        Err(e) => {
            return Err(e);
        },
        Ok(()) => {},
    }
    let tile_width = grid.width() / cols;
    let tile_height = grid.height() / rows;
    proof {
        lemma_small_is_no_tile(grid@, rows, cols);
    }
    if tile_width == 0 || tile_height == 0 {
        return Err(SplitError::ImageTooSmall);
    }
    let ghost wanted = grid@.tiles(rows as nat, cols as nat);
    let mut tiles: Vec<PixelGrid> = Vec::new();
    let mut row: u32 = 0;
    proof {
        assert(0 * cols <= rows * cols) by (nonlinear_arith)
            requires
                0 <= rows,
                0 <= cols,
        ;
    }
    while row < rows
        invariant
            1 <= rows <= MAX_GRID,
            1 <= cols <= MAX_GRID,
            0 <= row <= rows,
            tile_width == grid@.width / (cols as nat),
            tile_height == grid@.height / (rows as nat),
            grid@.width <= u32::MAX,
            grid@.height <= u32::MAX,
            wanted == grid@.tiles(rows as nat, cols as nat),
            wanted.len() == rows * cols,
            row * cols <= rows * cols,
            tiles@.len() == row * cols,
            forall|k: int|
                0 <= k < tiles@.len() ==> {
                    &&& (#[trigger] tiles@[k])@ == wanted[k]
                    &&& tiles@[k]@.well_formed()
                },
        decreases rows - row,
    {
        let mut col: u32 = 0;
        while col < cols
            invariant
                1 <= rows <= MAX_GRID,
                1 <= cols <= MAX_GRID,
                0 <= row < rows,
                0 <= col <= cols,
                tile_width == grid@.width / (cols as nat),
                tile_height == grid@.height / (rows as nat),
                grid@.width <= u32::MAX,
                grid@.height <= u32::MAX,
                wanted == grid@.tiles(rows as nat, cols as nat),
                wanted.len() == rows * cols,
                row * cols + col <= rows * cols,
                tiles@.len() == row * cols + col,
                forall|k: int|
                    0 <= k < tiles@.len() ==> {
                        &&& (#[trigger] tiles@[k])@ == wanted[k]
                        &&& tiles@[k]@.well_formed()
                    },
            decreases cols - col,
        {
            proof {
                lemma_tile_inside(grid@.width as int, cols as int, col as int);
                lemma_tile_inside(grid@.height as int, rows as int, row as int);
                lemma_tile_place(cols as int, row as int, col as int);
                assert(row * cols + col + 1 <= rows * cols) by (nonlinear_arith)
                    requires
                        0 <= row < rows,
                        0 <= col < cols,
                ;
            }
            let tile = grid.crop(col * tile_width, row * tile_height, tile_width, tile_height);
            tiles.push(tile);
            col = col + 1;
        }
        proof {
            assert((row + 1) * cols == row * cols + cols) by (nonlinear_arith);
            assert((row + 1) * cols <= rows * cols) by (nonlinear_arith)
                requires
                    row < rows,
                    0 <= cols,
            ;
        }
        row = row + 1;
    }
    proof {
        assert(1 <= rows * cols <= MAX_GRID * MAX_GRID) by (nonlinear_arith)
            requires
                1 <= rows <= MAX_GRID,
                1 <= cols <= MAX_GRID,
        ;
        assert(pictures(tiles@) =~= wanted);
        assert forall|row: nat, col: nat| row < rows && col < cols implies {
            let k = #[trigger] tile_place(cols as nat, row, col);
            0 <= k < tiles@.len() && tiles@[k]@ == grid@.tile(rows as nat, cols as nat, row, col)
        } by {
            lemma_tile_place(cols as int, row as int, col as int);
            assert(0 <= row * cols + col < rows * cols) by (nonlinear_arith)
                requires
                    0 <= row < rows,
                    0 <= col < cols,
            ;
        }
    }
    Ok(tiles)
}

/// The picture that the codec makes of `bytes`: what it decodes, where that
/// has four samples to each pixel.
pub open spec fn decoded_picture(bytes: Seq<u8>) -> Option<Picture> {
    match decoded_image(bytes) {
        Some((width, height, samples)) => if samples.len() == width * height * 4 {
            Some(Picture { width: width as nat, height: height as nat, samples })
        } else {
            None
        },
        None => None,
    }
}

/// Decodes the bytes of a picture, whatever format the codec knows it by.
pub fn decode_picture(bytes: &[u8]) -> (r: Result<PixelGrid, SplitError>)
    ensures
        match r {
            Ok(grid) => decoded_picture(bytes@) == Some(grid@) && grid@.well_formed(),
            Err(e) => e == SplitError::Decode && decoded_picture(bytes@) is None,
        },
{
    match decode_image(bytes) {
        Err(_) => Err(SplitError::Decode),
        Ok((width, height, samples)) => match PixelGrid::new(width, height, samples) {
            Some(grid) => Ok(grid),
            None => Err(SplitError::Decode),
        },
    }
}

/// The text that a tile is sent as: its PNG file in base64. Nothing where
/// the codec writes no file, or where the text would be too long for the
/// machine.
pub open spec fn tile_text(tile: Picture) -> Option<Seq<char>> {
    match png_encoding(tile.width as u32, tile.height as u32, tile.samples) {
        Some(file) => if text_fits(file.len()) {
            Some(base64_text(file))
        } else {
            None
        },
        None => None,
    }
}

/// Writes a tile as a PNG file, which keeps every sample and the alpha
/// channel with them, and the file as text.
pub fn encode_tile(tile: &PixelGrid) -> (r: Result<String, SplitError>)
    ensures
        match r {
            Ok(text) => tile_text(tile@) == Some(text@),
            Err(e) => e == SplitError::Encode && tile_text(tile@) is None,
        },
{
    let width = tile.width();
    let height = tile.height();
    match encode_png(width, height, tile.samples()) {
        Err(_) => Err(SplitError::Encode),
        Ok(file) => {
            if file.len() / 3 > (usize::MAX - 4) / 4 {
                Err(SplitError::Encode)
            } else {
                Ok(encode_base64(file.as_slice()))
            }
        },
    }
}

/// Every tile of the grid can be written as text.
pub open spec fn every_tile_has_text(picture: Picture, rows: u32, cols: u32) -> bool {
    forall|k: int|
        0 <= k < rows * cols ==> (#[trigger] tile_text(
            picture.tiles(rows as nat, cols as nat)[k],
        )) is Some
}

/// The texts of all tiles, in their order, or the error where one of them
/// has none.
pub open spec fn texts_outcome(tiles: Seq<Picture>) -> Result<Seq<Seq<char>>, SplitError> {
    if forall|k: int| 0 <= k < tiles.len() ==> (#[trigger] tile_text(tiles[k])) is Some {
        Ok(Seq::new(tiles.len(), |k: int| tile_text(tiles[k])->0))
    } else {
        Err(SplitError::Encode)
    }
}

/// The texts that a sequence of strings holds.
pub open spec fn texts(strings: Seq<String>) -> Seq<Seq<char>> {
    Seq::new(strings.len(), |k: int| strings[k]@)
}

/// The answer `r` is the outcome `outcome`: the same texts in the same
/// order, or the same error.
pub open spec fn answers(
    r: Result<Vec<String>, SplitError>,
    outcome: Result<Seq<Seq<char>>, SplitError>,
) -> bool {
    match r {
        Ok(strings) => gives(outcome, texts(strings@)),
        Err(e) => refused(outcome, e),
    }
}

/// Writes every tile as text, in order. One tile that cannot be written
/// fails the whole.
pub fn encode_tiles(tiles: &Vec<PixelGrid>) -> (r: Result<Vec<String>, SplitError>)
    ensures
        answers(r, texts_outcome(pictures(tiles@))),
        r matches Ok(strings) ==> strings@.len() == tiles@.len(),
{
    let mut strings: Vec<String> = Vec::new();
    let mut k: usize = 0;
    while k < tiles.len()
        invariant
            0 <= k <= tiles@.len(),
            strings@.len() == k,
            forall|i: int|
                0 <= i < k ==> (#[trigger] tile_text(pictures(tiles@)[i])) == Some(strings@[i]@),
        decreases tiles@.len() - k,
    {
        match encode_tile(&tiles[k]) {
            Err(e) => {
                proof {
                    assert(tile_text(pictures(tiles@)[k as int]) is None);
                }
                return Err(e);
            },
            Ok(text) => {
                strings.push(text);
            },
        }
        k = k + 1;
    }
    proof {
        assert(texts_outcome(pictures(tiles@))->Ok_0 =~= texts(strings@));
    }
    Ok(strings)
}

/// What splitting gives for the bytes of a picture and a grid: the texts of
/// the tiles, row by row, or the error of the first check that fails.
pub open spec fn split_outcome(bytes: Seq<u8>, rows: u32, cols: u32) -> Result<
    Seq<Seq<char>>,
    SplitError,
> {
    match grid_fault(rows, cols) {
        Some(e) => Err(e),
        None => match decoded_picture(bytes) {
            None => Err(SplitError::Decode),
            Some(picture) => match cut_outcome(picture, rows, cols) {
                Err(e) => Err(e),
                Ok(tiles) => texts_outcome(tiles),
            },
        },
    }
}

/// A grid of more than [`MAX_GRID`] rows or columns is refused as too large
/// whatever the bytes are, a picture or not.
pub proof fn law_large_grid_is_refused(bytes: Seq<u8>, rows: u32, cols: u32)
    requires
        rows > MAX_GRID || cols > MAX_GRID,
    ensures
        refused(split_outcome(bytes, rows, cols), SplitError::GridTooLarge),
{
}

/// A grid without rows or without columns, and not too large, is refused as
/// invalid whatever the bytes are.
pub proof fn law_empty_grid_is_refused(bytes: Seq<u8>, rows: u32, cols: u32)
    requires
        rows <= MAX_GRID,
        cols <= MAX_GRID,
        rows == 0 || cols == 0,
    ensures
        refused(split_outcome(bytes, rows, cols), SplitError::InvalidGrid),
{
}

/// Bytes that are no picture are refused with the decoding error, whatever
/// grid within the policy is asked for.
pub proof fn law_unreadable_picture_is_refused(bytes: Seq<u8>, rows: u32, cols: u32)
    requires
        1 <= rows <= MAX_GRID,
        1 <= cols <= MAX_GRID,
        decoded_picture(bytes) is None,
    ensures
        refused(split_outcome(bytes, rows, cols), SplitError::Decode),
{
}

/// A picture with fewer pixels across than the grid has columns, or fewer
/// pixels down than the grid has rows, is refused as too small.
pub proof fn law_small_picture_is_refused(bytes: Seq<u8>, rows: u32, cols: u32)
    requires
        1 <= rows <= MAX_GRID,
        1 <= cols <= MAX_GRID,
        decoded_picture(bytes) is Some,
        too_small(decoded_picture(bytes)->0, rows, cols),
    ensures
        refused(split_outcome(bytes, rows, cols), SplitError::ImageTooSmall),
{
    lemma_small_is_no_tile(decoded_picture(bytes)->0, rows, cols);
}

/// A picture that is large enough for a grid within the policy is always
/// cut, into exactly `rows * cols` tiles, between one and a hundred of them,
/// row by row: the tile at the place of row `row` and column `col` is
/// `width / cols` pixels wide and `height / rows` pixels high, the last row
/// and the last column as every other, and its pixel in column `i` of row
/// `j` is the pixel of the picture in column `col * (width / cols) + i` of
/// row `row * (height / rows) + j`.
pub proof fn law_cut_gives_every_tile(
    picture: Picture,
    rows: u32,
    cols: u32,
    row: nat,
    col: nat,
    i: int,
    j: int,
    channel: int,
)
    requires
        1 <= rows <= MAX_GRID,
        1 <= cols <= MAX_GRID,
        cols <= picture.width,
        rows <= picture.height,
        row < rows,
        col < cols,
        0 <= i < picture.width / (cols as nat),
        0 <= j < picture.height / (rows as nat),
        0 <= channel < 4,
    ensures
        cut_outcome(picture, rows, cols) is Ok,
        ({
            let tiles = cut_outcome(picture, rows, cols)->Ok_0;
            let k = tile_place(cols as nat, row, col);
            let tile_width = picture.width / (cols as nat);
            let tile_height = picture.height / (rows as nat);
            &&& tiles.len() == rows * cols
            &&& 1 <= tiles.len() <= 100
            &&& 0 <= k < tiles.len()
            &&& tiles[k] == picture.tile(rows as nat, cols as nat, row, col)
            &&& tiles[k].width == tile_width >= 1
            &&& tiles[k].height == tile_height >= 1
            &&& tiles[k].well_formed()
            &&& col * tile_width + tile_width <= picture.width
            &&& row * tile_height + tile_height <= picture.height
            &&& tiles[k].sample(i, j, channel) == picture.sample(
                col * tile_width + i,
                row * tile_height + j,
                channel,
            )
        }),
{
    let tile_width = picture.width / (cols as nat);
    let tile_height = picture.height / (rows as nat);
    lemma_small_is_no_tile(picture, rows, cols);
    lemma_tile_place(cols as int, row as int, col as int);
    lemma_tile_inside(picture.width as int, cols as int, col as int);
    lemma_tile_inside(picture.height as int, rows as int, row as int);
    assert(0 <= row * cols + col < rows * cols && 1 <= rows * cols <= 100) by (nonlinear_arith)
        requires
            0 <= row < rows <= 10,
            0 <= col < cols <= 10,
    ;
    law_crop_keeps_pixels(
        picture,
        col * tile_width,
        row * tile_height,
        tile_width,
        tile_height,
        i,
        j,
        channel,
    );
}

/// A picture that is large enough for a grid within the policy is split
/// unless the codec cannot write a tile, and for no other reason. Where every
/// tile can be written as text, there are exactly `rows * cols` texts,
/// between one and a hundred, and the text at the place of row `row` and
/// column `col` is that of the tile in that row and column, which is
/// `width / cols` pixels wide and `height / rows` pixels high.
pub proof fn law_split_gives_every_tile(bytes: Seq<u8>, rows: u32, cols: u32, row: nat, col: nat)
    requires
        1 <= rows <= MAX_GRID,
        1 <= cols <= MAX_GRID,
        decoded_picture(bytes) is Some,
        decoded_picture(bytes)->0.width / (cols as nat) >= 1,
        decoded_picture(bytes)->0.height / (rows as nat) >= 1,
        every_tile_has_text(decoded_picture(bytes)->0, rows, cols),
        row < rows,
        col < cols,
    ensures
        split_outcome(bytes, rows, cols) is Ok,
        ({
            let picture = decoded_picture(bytes)->0;
            let tile = picture.tile(rows as nat, cols as nat, row, col);
            let all = split_outcome(bytes, rows, cols)->Ok_0;
            &&& all.len() == rows * cols
            &&& 1 <= all.len() <= 100
            &&& 0 <= tile_place(cols as nat, row, col) < all.len()
            &&& Some(all[tile_place(cols as nat, row, col)]) == tile_text(tile)
            &&& tile.width == picture.width / (cols as nat)
            &&& tile.height == picture.height / (rows as nat)
            &&& tile.well_formed()
        }),
{
    lemma_tile_place(cols as int, row as int, col as int);
    assert(0 <= row * cols + col < rows * cols && 1 <= rows * cols <= 100) by (nonlinear_arith)
        requires
            0 <= row < rows <= 10,
            0 <= col < cols <= 10,
    ;
}

/// Splits the picture that `bytes` encodes into a grid of `rows` by `cols`
/// tiles, and gives each tile as the base64 text of a PNG file, row by row
/// from the top, each row from the left.
///
/// The grid is held against the policy before anything is decoded, so a
/// grid that is too large or empty is refused whatever the bytes are. A
/// picture that the grid fits is always cut; the split then succeeds
/// exactly where the codec writes every tile, and fails with
/// [`SplitError::Encode`] where it does not. On success there are exactly
/// `rows * cols` texts, never none.
pub fn split_image(bytes: &[u8], rows: u32, cols: u32) -> (r: Result<Vec<String>, SplitError>)
    ensures
        ({
            let bytes = bytes@;
            let picture = decoded_picture(bytes);
            let valid = grid_fault(rows, cols) is None;
            &&& answers(r, split_outcome(bytes, rows, cols))
            &&& rows > MAX_GRID || cols > MAX_GRID ==> refused(r, SplitError::GridTooLarge)
            &&& rows <= MAX_GRID && cols <= MAX_GRID && (rows == 0 || cols == 0) ==> refused(
                r,
                SplitError::InvalidGrid,
            )
            &&& valid && picture is None ==> refused(r, SplitError::Decode)
            &&& valid && picture is Some && too_small(picture->0, rows, cols) ==> refused(
                r,
                SplitError::ImageTooSmall,
            )
            &&& valid && picture is Some && !too_small(picture->0, rows, cols) ==> (r is Ok
                || refused(r, SplitError::Encode))
            &&& r is Ok <==> valid && picture is Some && !too_small(picture->0, rows, cols)
                && every_tile_has_text(picture->0, rows, cols)
            &&& r matches Ok(strings) ==> {
                &&& strings@.len() == rows * cols
                &&& 1 <= strings@.len() <= MAX_GRID * MAX_GRID
                &&& picture is Some
                &&& forall|row: nat, col: nat|
                    row < rows && col < cols ==> {
                        let k = #[trigger] tile_place(cols as nat, row, col);
                        0 <= k < strings@.len() && Some(strings@[k]@) == tile_text(
                            picture->0.tile(rows as nat, cols as nat, row, col),
                        )
                    }
            }
        }),
{
    match check_grid(rows, cols) {
        Err(e) => {
            return Err(e);
        },
        Ok(()) => {},
    }
    let grid = match decode_picture(bytes) {
        Err(e) => {
            return Err(e);
        },
        Ok(grid) => grid,
    };
    proof {
        lemma_small_is_no_tile(grid@, rows, cols);
    }
    let tiles = match split_pixel_grid(&grid, rows, cols) {
        Err(e) => {
            return Err(e);
        },
        Ok(tiles) => tiles,
    };
    proof {
        assert(rows * cols >= 1) by (nonlinear_arith)
            requires
                rows >= 1,
                cols >= 1,
        ;
    }
    let strings = match encode_tiles(&tiles) {
        Err(e) => {
            return Err(e);
        },
        Ok(strings) => strings,
    };
    proof {
        assert forall|row: nat, col: nat| row < rows && col < cols implies {
            let k = #[trigger] tile_place(cols as nat, row, col);
            0 <= k < strings@.len() && Some(strings@[k]@) == tile_text(
                grid@.tile(rows as nat, cols as nat, row, col),
            )
        } by {
            let k = tile_place(cols as nat, row, col);
            assert(texts(strings@)[k] == strings@[k]@);
        }
    }
    Ok(strings)
}

/// Splits the picture in a byte buffer; see [`split_image`], which this is
/// for the bytes that the buffer holds. It runs to the end without waiting
/// for anything, and takes as long as the picture is large.
pub fn split_image_blocking(img_bytes: bytes::Bytes, rows: u32, cols: u32) -> (r: Result<
    Vec<String>,
    SplitError,
>)
    ensures
        ({
            let bytes = bytes_contents(img_bytes);
            let picture = decoded_picture(bytes);
            let valid = grid_fault(rows, cols) is None;
            &&& answers(r, split_outcome(bytes, rows, cols))
            &&& rows > MAX_GRID || cols > MAX_GRID ==> refused(r, SplitError::GridTooLarge)
            &&& rows <= MAX_GRID && cols <= MAX_GRID && (rows == 0 || cols == 0) ==> refused(
                r,
                SplitError::InvalidGrid,
            )
            &&& valid && picture is None ==> refused(r, SplitError::Decode)
            &&& valid && picture is Some && too_small(picture->0, rows, cols) ==> refused(
                r,
                SplitError::ImageTooSmall,
            )
            &&& valid && picture is Some && !too_small(picture->0, rows, cols) ==> (r is Ok
                || refused(r, SplitError::Encode))
            &&& r is Ok <==> valid && picture is Some && !too_small(picture->0, rows, cols)
                && every_tile_has_text(picture->0, rows, cols)
            &&& r matches Ok(strings) ==> {
                &&& strings@.len() == rows * cols
                &&& 1 <= strings@.len() <= MAX_GRID * MAX_GRID
                &&& picture is Some
                &&& forall|row: nat, col: nat|
                    row < rows && col < cols ==> {
                        let k = #[trigger] tile_place(cols as nat, row, col);
                        0 <= k < strings@.len() && Some(strings@[k]@) == tile_text(
                            picture->0.tile(rows as nat, cols as nat, row, col),
                        )
                    }
            }
        }),
{
    split_image(bytes_as_slice(&img_bytes), rows, cols)
}

} // verus!
