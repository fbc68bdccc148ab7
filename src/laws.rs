//! Properties that hold of every grid composition.

use crate::error::StitcherError;
use crate::grid::{composite, fills_grid, grid_outcome, has_size, uniform_size};
use crate::raster::RasterView;
use vstd::arithmetic::div_mod::lemma_fundamental_div_mod_converse;
use vstd::prelude::*;

verus! {

/// Cell `(col, row)` of a grid of `width` by `height` cells holds canvas pixel
/// `(x, y)` at its own pixel `(i, j)`.
pub open spec fn covers(width: nat, height: nat, col: int, row: int, i: int, j: int, x: int, y: int) -> bool {
    &&& 0 <= i < width
    &&& 0 <= j < height
    &&& x == col * width + i
    &&& y == row * height + j
}

/// A non-empty sequence of images that are all `width` by `height` pixels is of
/// uniform size, and that size is `width` by `height`; so size validation
/// returns it.
pub proof fn law_uniform_size_accepted(images: Seq<RasterView>, width: nat, height: nat)
    requires
        images.len() > 0,
        forall|i: int| 0 <= i < images.len() ==> has_size(#[trigger] images[i], width, height),
    ensures
        uniform_size(images),
        images[0].width == width,
        images[0].height == height,
{
    assert(has_size(images[0], width, height));
}

/// A sequence in which two images differ in width or height is not of uniform
/// size; so size validation fails with `SizeMismatch`.
pub proof fn law_uniform_size_rejected(images: Seq<RasterView>, a: int, b: int)
    requires
        0 <= a < images.len(),
        0 <= b < images.len(),
        images[a].width != images[b].width || images[a].height != images[b].height,
    ensures
        !uniform_size(images),
{
    if uniform_size(images) {
        assert(has_size(images[a], images[0].width, images[0].height));
        assert(has_size(images[b], images[0].width, images[0].height));
    }
}

/// On a grid of at least one column and one row, a number of images other than
/// `columns * rows` fails with `GridArityMismatch`, whatever the images hold.
pub proof fn law_arity_mismatch(images: Seq<RasterView>, columns: nat, rows: nat)
    requires
        columns >= 1,
        rows >= 1,
        images.len() != columns * rows,
    ensures
        grid_outcome(images, columns, rows) == Err::<RasterView, StitcherError>(StitcherError::GridArityMismatch),
{
}

/// Pixel `(x, y)` of the composite lies in cell `(x / width, y / height)` of
/// the grid, at `(x % width, y % height)` of that cell, and is the pixel there of
/// the cell's image.
pub open spec fn in_its_cell(images: Seq<RasterView>, columns: nat, rows: nat, x: int, y: int) -> bool {
    let width = images[0].width;
    let height = images[0].height;
    let col = x / (width as int);
    let row = y / (height as int);
    let i = x % (width as int);
    let j = y % (height as int);
    &&& 0 <= col < columns
    &&& 0 <= row < rows
    &&& covers(width, height, col, row, i, j, x, y)
    &&& composite(images, columns, rows).pixel(x, y) == images[row * columns + col].pixel(i, j)
}

/// The composite of a valid grid is `columns` cells wide and `rows` cells high,
/// and its cells tile it: each of its pixels lies in the cell that
/// `in_its_cell` names, is the pixel at that place of that cell's image, and
/// lies in no other cell.
pub proof fn law_full_coverage(images: Seq<RasterView>, columns: nat, rows: nat)
    requires
        fills_grid(images.len(), columns, rows),
        uniform_size(images),
    ensures
        composite(images, columns, rows).wf(),
        composite(images, columns, rows).width == images[0].width * columns,
        composite(images, columns, rows).height == images[0].height * rows,
        forall|x: int, y: int|
            0 <= x < images[0].width * columns && 0 <= y < images[0].height * rows ==> #[trigger] in_its_cell(
                images,
                columns,
                rows,
                x,
                y,
            ),
        forall|col: int, row: int, i: int, j: int, col2: int, row2: int, i2: int, j2: int, x: int, y: int|
            #[trigger] covers(images[0].width, images[0].height, col, row, i, j, x, y) && #[trigger] covers(
                images[0].width,
                images[0].height,
                col2,
                row2,
                i2,
                j2,
                x,
                y,
            ) ==> col == col2 && row == row2 && i == i2 && j == j2,
{
    let width = images[0].width;
    let height = images[0].height;
    assert(composite(images, columns, rows).wf());
    assert forall|x: int, y: int| 0 <= x < width * columns && 0 <= y < height * rows implies #[trigger] in_its_cell(
        images,
        columns,
        rows,
        x,
        y,
    ) by {
        lemma_cell_of(width as int, columns as int, x);
        lemma_cell_of(height as int, rows as int, y);
    }
    assert forall|col: int, row: int, i: int, j: int, col2: int, row2: int, i2: int, j2: int, x: int, y: int|
        #[trigger] covers(width, height, col, row, i, j, x, y) && #[trigger] covers(
            width,
            height,
            col2,
            row2,
            i2,
            j2,
            x,
            y,
        ) implies col == col2 && row == row2 && i == i2 && j == j2 by {
        lemma_fundamental_div_mod_converse(x, width as int, col, i);
        lemma_fundamental_div_mod_converse(x, width as int, col2, i2);
        lemma_fundamental_div_mod_converse(y, height as int, row, j);
        lemma_fundamental_div_mod_converse(y, height as int, row2, j2);
    }
}

/// Composing is a function of what the images hold and of the grid's shape:
/// two inputs with the same images in the same order give the same outcome,
/// pixel for pixel.
pub proof fn law_deterministic(a: Seq<RasterView>, b: Seq<RasterView>, columns: nat, rows: nat)
    requires
        a.len() == b.len(),
        forall|i: int| 0 <= i < a.len() ==> #[trigger] a[i] == b[i],
    ensures
        grid_outcome(a, columns, rows) == grid_outcome(b, columns, rows),
{
    assert(a =~= b);
}

/// A grid of one cell is the one image it holds.
pub proof fn law_single_cell(image: RasterView)
    requires
        image.wf(),
    ensures
        grid_outcome(seq![image], 1, 1) == Ok::<RasterView, StitcherError>(image),
{
    let images = seq![image];
    let width = image.width as int;
    let height = image.height as int;
    assert(uniform_size(images));
    let canvas = composite(images, 1, 1);
    assert forall|y: int| 0 <= y < height implies #[trigger] canvas.rows[y] =~= image.rows[y] by {
        assert forall|x: int| 0 <= x < width implies #[trigger] canvas.rows[y][x] == image.rows[y][x] by {
            lemma_fundamental_div_mod_converse(x, width, 0, x);
            lemma_fundamental_div_mod_converse(y, height, 0, y);
        }
    }
    assert(canvas.rows =~= image.rows);
}

/// The cell of a row of `count` cells of `size` that holds position `p`.
proof fn lemma_cell_of(size: int, count: int, p: int)
    requires
        0 <= count,
        0 <= p < size * count,
    ensures
        size > 0,
        0 <= p / size < count,
        0 <= p % size < size,
        p == (p / size) * size + p % size,
{
    if size <= 0 {
        assert(size * count <= 0) by (nonlinear_arith)
            requires
                size <= 0,
                0 <= count,
        ;
    }
    vstd::arithmetic::div_mod::lemma_fundamental_div_mod(p, size);
    vstd::arithmetic::div_mod::lemma_mod_bound(p, size);
    assert(p == (p / size) * size + p % size) by (nonlinear_arith)
        requires
            p == size * (p / size) + p % size,
    ;
    assert(0 <= p / size < count) by (nonlinear_arith)
        requires
            size > 0,
            p == size * (p / size) + p % size,
            0 <= p % size < size,
            0 <= p < size * count,
    ;
}

} // verus!
