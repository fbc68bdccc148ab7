//! Placing equally sized rasters into the cells of a grid.

use crate::error::StitcherError;
use crate::raster::{lemma_row_major_bound, Pixel, Raster, RasterView};
use vstd::arithmetic::div_mod::lemma_fundamental_div_mod_converse;
use vstd::prelude::*;

verus! {

/// What each raster of a sequence holds.
pub open spec fn views(rasters: Seq<Raster>) -> Seq<RasterView> {
    rasters.map_values(|r: Raster| r@)
}

/// `image` is `width` pixels wide and `height` pixels high.
pub open spec fn has_size(image: RasterView, width: nat, height: nat) -> bool {
    image.width == width && image.height == height
}

/// The sequence is not empty and all its images share the size of the first.
pub open spec fn uniform_size(images: Seq<RasterView>) -> bool {
    &&& images.len() > 0
    &&& forall|i: int|
        0 <= i < images.len() ==> has_size(#[trigger] images[i], images[0].width, images[0].height)
}

/// `count` images fill a grid of `columns` by `rows` cells, with at least one of each.
pub open spec fn fills_grid(count: nat, columns: nat, rows: nat) -> bool {
    columns >= 1 && rows >= 1 && count == columns * rows
}

/// The canvas's width and height, cell size times grid shape, fit in `u32`.
pub open spec fn canvas_fits(cell: RasterView, columns: nat, rows: nat) -> bool {
    cell.width * columns <= u32::MAX && cell.height * rows <= u32::MAX
}

/// The image that `images`, listed row by row, make when laid out on a grid of
/// `columns` by `rows` cells of the first image's size: pixel `(x, y)` of it is
/// pixel `(x % width, y % height)` of the image in cell `(x / width, y / height)`.
pub open spec fn composite(images: Seq<RasterView>, columns: nat, rows: nat) -> RasterView {
    let width = images[0].width;
    let height = images[0].height;
    RasterView {
        width: width * columns,
        height: height * rows,
        rows: Seq::new(
            height * rows,
            |y: int|
                Seq::new(
                    width * columns,
                    |x: int| images[(y / height as int) * columns + x / width as int].pixel(x % width as int, y % height as int),
                ),
        ),
    }
}

/// What `compose` gives for `images` on a grid of `columns` by `rows` cells:
/// `GridArityMismatch` where the grid is empty or the number of images is not
/// `columns * rows`; else `SizeMismatch` where the images are not all of one
/// size; else their composite.
pub open spec fn grid_outcome(images: Seq<RasterView>, columns: nat, rows: nat) -> Result<RasterView, StitcherError> {
    if !fills_grid(images.len(), columns, rows) {
        Err(StitcherError::GridArityMismatch)
    } else if !uniform_size(images) {
        Err(StitcherError::SizeMismatch)
    } else {
        Ok(composite(images, columns, rows))
    }
}

/// A result with the raster replaced by what it holds.
pub open spec fn outcome(r: Result<Raster, StitcherError>) -> Result<RasterView, StitcherError> {
    match r {
        Ok(canvas) => Ok(canvas@),
        Err(e) => Err(e),
    }
}

/// Whether `image` is `width` pixels wide and `height` pixels high.
pub fn is_same_size(image: &Raster, width: u32, height: u32) -> (same: bool)
    ensures
        same == has_size(image@, width as nat, height as nat),
{
    let (width_, height_) = image.dimensions();
    width_ == width && height_ == height
}

/// Succeeds where `img` is `expected_width` by `expected_height` pixels.
pub fn check_size(img: &Raster, expected_width: u32, expected_height: u32) -> (r: Result<(), StitcherError>)
    ensures
        r == if has_size(img@, expected_width as nat, expected_height as nat) {
            Ok::<(), StitcherError>(())
        } else {
            Err(StitcherError::SizeMismatch)
        },
{
    if !is_same_size(img, expected_width, expected_height) {
        return Err(StitcherError::SizeMismatch);
    }
    Ok(())
}

/// The width and height of the first image; `SizeMismatch` where there is none.
pub fn size_of_first(images: &Vec<Raster>) -> (r: Result<(u32, u32), StitcherError>)
    ensures
        images@.len() == 0 ==> r == Err::<(u32, u32), StitcherError>(StitcherError::SizeMismatch),
        images@.len() > 0 ==> (r matches Ok((w, h)) && w == images@[0]@.width && h == images@[0]@.height),
{
    if images.len() == 0 {
        return Err(StitcherError::SizeMismatch);
    }
    Ok(images[0].dimensions())
}

/// Succeeds where every image after the first is `width` by `height` pixels.
pub fn check_dimensions(images: &Vec<Raster>, width: u32, height: u32) -> (r: Result<(), StitcherError>)
    ensures
        r is Ok <==> forall|i: int|
            1 <= i < images@.len() ==> has_size(#[trigger] images@[i]@, width as nat, height as nat),
        r is Err ==> r == Err::<(), StitcherError>(StitcherError::SizeMismatch),
{
    let mut i: usize = 1;
    while i < images.len()
        invariant
            1 <= i,
            i <= images@.len() || images@.len() == 0,
            forall|k: int| 1 <= k < i && k < images@.len() ==> has_size(#[trigger] images@[k]@, width as nat, height as nat),
        decreases images@.len() - i,
    {
        if !is_same_size(&images[i], width, height) {
            return Err(StitcherError::SizeMismatch);
        }
        i = i + 1;
    }
    Ok(())
}

/// The size that all the images share; `SizeMismatch` where they are not all of
/// one size, or where there are none.
pub fn validate_uniform_size(rasters: &Vec<Raster>) -> (r: Result<(u32, u32), StitcherError>)
    ensures
        uniform_size(views(rasters@)) ==> (r matches Ok((w, h)) && w == rasters@[0]@.width && h
            == rasters@[0]@.height),
        !uniform_size(views(rasters@)) ==> r == Err::<(u32, u32), StitcherError>(StitcherError::SizeMismatch),
{
    let (width, height) = match size_of_first(rasters) {
        Ok(size) => size,
        Err(e) => return Err(e),
    };
    let checked = check_dimensions(rasters, width, height);
    proof {
        let v = views(rasters@);
        if checked is Ok {
            assert forall|i: int| 0 <= i < v.len() implies has_size(#[trigger] v[i], v[0].width, v[0].height) by {
                if i >= 1 {
                    assert(has_size(rasters@[i]@, width as nat, height as nat));
                }
            }
        } else {
            let i = choose|i: int| 1 <= i < rasters@.len() && !has_size(#[trigger] rasters@[i]@, width as nat, height as nat);
            assert(!has_size(v[i], v[0].width, v[0].height));
        }
    }
    match checked {
        Ok(()) => Ok((width, height)),
        Err(e) => Err(e),
    }
}

/// Appends row `y` of `src` to `line`, pixel by pixel.
fn copy_row_into(line: &mut Vec<Pixel>, src: &Raster, y: u32)
    requires
        y < src@.height,
    ensures
        final(line)@ == old(line)@ + src@.rows[y as int],
        final(line)@.len() == old(line)@.len() + src@.width,
{
    let row = src.row(y);
    let mut i: usize = 0;
    while i < row.len()
        invariant
            row@ == src@.rows[y as int],
            i <= row@.len(),
            line@ == old(line)@ + row@.take(i as int),
        decreases row@.len() - i,
    {
        line.push(row[i]);
        i = i + 1;
        assert(line@ =~= old(line)@ + row@.take(i as int));
    }
    assert(row@.take(i as int) =~= row@);
}

/// Lays `rasters`, listed row by row, out on a grid of `columns` by `rows` cells.
/// Fails with `GridArityMismatch` where the grid is empty or their number is not
/// `columns * rows`, and otherwise with `SizeMismatch` where they are not all of
/// one size.
pub fn compose(rasters: &Vec<Raster>, columns: u32, rows: u32) -> (r: Result<Raster, StitcherError>)
    requires
        rasters@.len() > 0 ==> canvas_fits(rasters@[0]@, columns as nat, rows as nat),
    ensures
        outcome(r) == grid_outcome(views(rasters@), columns as nat, rows as nat),
{
    assert(columns * rows <= u64::MAX) by (nonlinear_arith)
        requires
            columns <= u32::MAX,
            rows <= u32::MAX,
    ;
    if columns == 0 || rows == 0 || rasters.len() as u64 != columns as u64 * rows as u64 {
        return Err(StitcherError::GridArityMismatch);
    }
    let (width, height) = match validate_uniform_size(rasters) {
        Ok(size) => size,
        Err(e) => return Err(e),
    };
    let ghost images = views(rasters@);
    let ghost target = composite(images, columns as nat, rows as nat);
    let canvas_width = width * columns;
    let canvas_height = height * rows;
    let count = rasters.len();
    let mut lines: Vec<Vec<Pixel>> = Vec::new();
    let mut row: u32 = 0;
    while row < rows
        invariant
            row <= rows,
            columns >= 1,
            rasters@.len() == columns * rows,
            count == rasters@.len(),
            images == views(rasters@),
            uniform_size(images),
            target == composite(images, columns as nat, rows as nat),
            width == images[0].width,
            height == images[0].height,
            canvas_width == width * columns,
            lines@.len() == row * height,
            forall|k: int| 0 <= k < lines@.len() ==> #[trigger] lines@[k]@ == target.rows[k],
        decreases rows - row,
    {
        let mut y: u32 = 0;
        while y < height
            invariant
                row < rows,
                y <= height,
                columns >= 1,
                rasters@.len() == columns * rows,
                count == rasters@.len(),
            count == rasters@.len(),
                images == views(rasters@),
                uniform_size(images),
                target == composite(images, columns as nat, rows as nat),
                width == images[0].width,
                height == images[0].height,
                canvas_width == width * columns,
                lines@.len() == row * height + y,
                forall|k: int| 0 <= k < lines@.len() ==> #[trigger] lines@[k]@ == target.rows[k],
            decreases height - y,
        {
            let ghost yy: int = row * height + y;
            proof {
                lemma_row_major_bound(height as int, rows as int, y as int, row as int);
                lemma_fundamental_div_mod_converse(yy, height as int, row as int, y as int);
            }
            let mut line: Vec<Pixel> = Vec::new();
            let mut col: u32 = 0;
            while col < columns
                invariant
                    row < rows,
                    y < height,
                    col <= columns,
                    rasters@.len() == columns * rows,
                    count == rasters@.len(),
                count == rasters@.len(),
            count == rasters@.len(),
                    images == views(rasters@),
                    uniform_size(images),
                    target == composite(images, columns as nat, rows as nat),
                    width == images[0].width,
                    height == images[0].height,
                    yy == row * height + y,
                    0 <= yy < target.height,
                    yy / (height as int) == row,
                    yy % (height as int) == y,
                    line@.len() == col * width,
                    forall|x: int| 0 <= x < line@.len() ==> #[trigger] line@[x] == target.rows[yy][x],
                decreases columns - col,
            {
                proof {
                    lemma_row_major_bound(columns as int, rows as int, col as int, row as int);
                    assert(rows * columns == columns * rows) by (nonlinear_arith);
                    assert(row * columns <= row * columns + col < count);
                }
                let idx = row as usize * columns as usize + col as usize;
                let ghost before = line@;
                let cell = &rasters[idx];
                assert(has_size(images[idx as int], width as nat, height as nat));
                copy_row_into(&mut line, cell, y);
                proof {
                    assert forall|x: int| 0 <= x < line@.len() implies #[trigger] line@[x] == target.rows[yy][x] by {
                        if x >= before.len() {
                            let i = x - col * width;
                            lemma_fundamental_div_mod_converse(x, width as int, col as int, i);
                            lemma_row_major_bound(width as int, columns as int, i, col as int);
                            assert(col * width + i < width * columns) by (nonlinear_arith)
                                requires
                                    col * width + i < columns * width,
                            ;
                            assert(target.rows[yy].len() == width * columns);
                            assert(target.rows[yy][x] == images[row * columns + col].pixel(i, y as int));
                            assert(line@[x] == images[idx as int].rows[y as int][i]);
                        } else {
                            assert(line@[x] == before[x]);
                        }
                    }
                    assert(line@.len() == (col + 1) * width) by (nonlinear_arith)
                        requires
                            line@.len() == col * width + width,
                    ;
                }
                col = col + 1;
            }
            assert(col * width == width * columns) by (nonlinear_arith)
                requires
                    col == columns,
            ;
            assert(line@ =~= target.rows[yy]);
            lines.push(line);
            y = y + 1;
        }
        row = row + 1;
        assert(lines@.len() == row * height) by (nonlinear_arith)
            requires
                lines@.len() == (row - 1) * height + height,
        ;
    }
    assert(lines@.len() == canvas_height) by (nonlinear_arith)
        requires
            lines@.len() == row * height,
            row == rows,
            canvas_height == height * rows,
    ;
    let canvas = Raster::from_rows(canvas_width, canvas_height, lines);
    assert(canvas@.rows =~= target.rows);
    Ok(canvas)
}

/// Stitches four images two by two: `tl` top left, `tr` top right, `bl` bottom
/// left and `br` bottom right; the same as `compose` on them in that order on a
/// grid of two columns and two rows.
pub fn stitch_images(tl: Raster, tr: Raster, bl: Raster, br: Raster) -> (r: Result<Raster, StitcherError>)
    requires
        canvas_fits(tl@, 2, 2),
    ensures
        outcome(r) == grid_outcome(seq![tl@, tr@, bl@, br@], 2, 2),
{
    let ghost corners = seq![tl@, tr@, bl@, br@];
    let mut images: Vec<Raster> = Vec::new();
    images.push(tl);
    images.push(tr);
    images.push(bl);
    images.push(br);
    assert(views(images@) =~= corners);
    compose(&images, 2, 2)
}

} // verus!
