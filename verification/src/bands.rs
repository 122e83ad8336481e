//! Partition of the image into horizontal bands.
//!
//! For parallel rendering the image is split into strips of
//! `height / workers + 1` rows each; the last strip may be shorter. Each
//! strip is handed to one worker as a disjoint slice of the pixel buffer,
//! which is what lets the workers write concurrently without any
//! synchronization. The lemmas at the end state the partition properties:
//! the bands tile the row range `0 .. height` without gap or overlap, and
//! every row belongs to exactly one band.

use vstd::prelude::*;

verus! {

/// A horizontal strip of the image: pixel rows `top .. top + height`.
#[derive(Clone, Copy, Debug, PartialEq, Eq, Structural)]
pub struct Band {
    /// First image row of the strip.
    pub top: usize,
    /// Number of rows in the strip.
    pub height: usize,
}

/// The strip height used to split an image of `height` rows among
/// `workers` workers.
pub open spec fn spec_rows_per_band(height: int, workers: int) -> int {
    height / workers + 1
}

/// How many strips of `rpb` rows are needed to cover `height` rows.
pub open spec fn band_count(height: int, rpb: int) -> int {
    (height + rpb - 1) / rpb
}

/// The first image row of band `i`.
pub open spec fn band_top(rpb: int, i: int) -> int {
    i * rpb
}

/// The number of rows of band `i`: `rpb` for every band but possibly the
/// last, which takes only the rows that remain.
pub open spec fn band_height(height: int, rpb: int, i: int) -> int {
    vstd::math::min(rpb, height - i * rpb)
}

/// The index of the band that holds image row `row`.
pub open spec fn band_of_row(rpb: int, row: int) -> int {
    row / rpb
}

/// Computes the strip height for the band split.
pub fn rows_per_band(height: usize, workers: u8) -> (rpb: usize)
    requires
        workers > 0,
        height < usize::MAX,
    ensures
        rpb == spec_rows_per_band(height as int, workers as int),
        1 <= rpb,
{
    proof {
        vstd::arithmetic::div_mod::lemma_div_nonincreasing(height as int, workers as int);
        vstd::arithmetic::div_mod::lemma_div_pos_is_pos(height as int, workers as int);
    }
    height / (workers as usize) + 1
}

/// Computes the bands of the split: band `i` starts at row
/// `i * rows_per_band` and takes `rows_per_band` rows, except the last,
/// which stops at the image's bottom row.
pub fn band_layout(height: usize, workers: u8) -> (bands: Vec<Band>)
    requires
        workers > 0,
        1 <= height,
        height < usize::MAX,
    ensures
        ({
            let rpb = spec_rows_per_band(height as int, workers as int);
            &&& bands@.len() == band_count(height as int, rpb)
            &&& forall|i: int|
                0 <= i < bands@.len() ==> (#[trigger] bands@[i]).top == band_top(rpb, i)
            &&& forall|i: int|
                0 <= i < bands@.len() ==> (#[trigger] bands@[i]).height == band_height(
                    height as int,
                    rpb,
                    i,
                )
        }),
{
    let rpb = rows_per_band(height, workers);
    let mut bands: Vec<Band> = Vec::new();
    let mut top: usize = 0;
    proof {
        assert(bands@.len() * rpb as int == 0) by (nonlinear_arith)
            requires
                bands@.len() == 0,
        ;
    }
    while top < height
        invariant
            1 <= rpb,
            top <= height,
            top == vstd::math::min(bands@.len() * rpb as int, height as int),
            bands@.len() * rpb as int <= height + rpb - 1,
            forall|j: int|
                0 <= j < bands@.len() ==> (#[trigger] bands@[j]).top == band_top(rpb as int, j),
            forall|j: int|
                0 <= j < bands@.len() ==> (#[trigger] bands@[j]).height == band_height(
                    height as int,
                    rpb as int,
                    j,
                ),
        decreases height - top,
    {
        let remaining = height - top;
        let h = if remaining < rpb {
            remaining
        } else {
            rpb
        };
        let ghost n = bands@.len() as int;
        proof {
            vstd::arithmetic::mul::lemma_mul_is_distributive_add_other_way(rpb as int, n, 1);
        }
        bands.push(Band { top, height: h });
        top = top + h;
    }
    proof {
        let rpb_i = rpb as int;
        let n = bands@.len() as int;
        let x = height as int + rpb_i - 1;
        assert(n * rpb_i >= height as int);
        vstd::arithmetic::div_mod::lemma_fundamental_div_mod_converse_div(
            x,
            rpb_i,
            n,
            x - n * rpb_i,
        );
    }
    bands
}

/// The bands of a split tile the image exactly: band 0 starts at row 0,
/// each band begins where the one before it ends, every band has between
/// one and `rpb` rows, every band but the last has exactly `rpb`, and the
/// last ends at the image's bottom row. Together with
/// `lemma_band_partition` this is why handing each worker one band covers
/// the whole pixel buffer with disjoint writes.
pub proof fn lemma_bands_tile(height: int, rpb: int)
    requires
        1 <= rpb,
        1 <= height,
    ensures
        1 <= band_count(height, rpb),
        band_top(rpb, 0) == 0,
        forall|i: int|
            0 <= i < band_count(height, rpb) - 1 ==> #[trigger] band_height(height, rpb, i) == rpb,
        forall|i: int|
            0 <= i < band_count(height, rpb) - 1 ==> #[trigger] band_top(rpb, i + 1) == band_top(
                rpb,
                i,
            ) + band_height(height, rpb, i),
        band_top(rpb, band_count(height, rpb) - 1) + band_height(
            height,
            rpb,
            band_count(height, rpb) - 1,
        ) == height,
        forall|i: int|
            0 <= i < band_count(height, rpb) ==> 1 <= #[trigger] band_height(height, rpb, i)
                <= rpb,
{
    let c = band_count(height, rpb);
    let x = height + rpb - 1;
    vstd::arithmetic::div_mod::lemma_fundamental_div_mod(x, rpb);
    vstd::arithmetic::div_mod::lemma_mod_bound(x, rpb);
    assert(rpb * c + x % rpb == x);
    assert(c * rpb == rpb * c) by (nonlinear_arith);
    assert(height <= c * rpb <= height + rpb - 1);
    assert(c >= 1) by (nonlinear_arith)
        requires
            c * rpb >= height,
            height >= 1,
            rpb >= 1,
    ;
    assert((c - 1) * rpb == c * rpb - rpb) by (nonlinear_arith);
    assert((c - 1) * rpb <= height - 1);
    assert forall|i: int| 0 <= i < c - 1 implies #[trigger] band_height(height, rpb, i)
        == rpb by {
        vstd::arithmetic::mul::lemma_mul_inequality(i + 1, c - 1, rpb);
        assert((i + 1) * rpb == i * rpb + rpb) by (nonlinear_arith);
    }
    assert forall|i: int| 0 <= i < c - 1 implies #[trigger] band_top(rpb, i + 1) == band_top(
        rpb,
        i,
    ) + band_height(height, rpb, i) by {
        vstd::arithmetic::mul::lemma_mul_inequality(i + 1, c - 1, rpb);
        assert((i + 1) * rpb == i * rpb + rpb) by (nonlinear_arith);
    }
    assert forall|i: int| 0 <= i < c implies 1 <= #[trigger] band_height(height, rpb, i)
        <= rpb by {
        vstd::arithmetic::mul::lemma_mul_inequality(i, c - 1, rpb);
    }
}

/// Row-major layout: the byte for the pixel in column `col` of row `row`
/// sits at index `row * width + col` of the buffer, and that index maps
/// back to the same row and column.
pub proof fn lemma_row_major_index(width: int, col: int, row: int)
    requires
        1 <= width,
        0 <= col < width,
        0 <= row,
    ensures
        (row * width + col) / width == row,
        (row * width + col) % width == col,
{
    vstd::arithmetic::div_mod::lemma_fundamental_div_mod_converse(
        row * width + col,
        width,
        row,
        col,
    );
}

/// Splitting the row-major pixel buffer into chunks of `rpb * width` bytes
/// agrees with the row split: byte `b` — which belongs to pixel row
/// `b / width` — lands in exactly the chunk whose index is the band of that
/// row. Handing chunk `i` of the buffer to the worker of band `i` therefore
/// gives every worker precisely its own rows.
pub proof fn lemma_chunks_match_bands(rpb: int, width: int, b: int)
    requires
        1 <= rpb,
        1 <= width,
        0 <= b,
    ensures
        b / (rpb * width) == band_of_row(rpb, b / width),
{
    vstd::arithmetic::div_mod::lemma_div_denominator(b, width, rpb);
    assert(rpb * width == width * rpb) by (nonlinear_arith);
}

/// Every image row lies in exactly one band: the band `row / rpb` contains
/// it, and no other band does. This is the disjointness half of the
/// partition argument: no two workers ever touch the same row.
pub proof fn lemma_band_partition(height: int, rpb: int, row: int)
    requires
        1 <= rpb,
        0 <= row < height,
    ensures
        ({
            let i = band_of_row(rpb, row);
            &&& 0 <= i < band_count(height, rpb)
            &&& band_top(rpb, i) <= row < band_top(rpb, i) + band_height(height, rpb, i)
            &&& forall|j: int|
                0 <= j < band_count(height, rpb) && j != i ==> !(#[trigger] band_top(rpb, j) <= row
                    < band_top(rpb, j) + band_height(height, rpb, j))
        }),
{
    let i = band_of_row(rpb, row);
    let c = band_count(height, rpb);
    vstd::arithmetic::div_mod::lemma_fundamental_div_mod(row, rpb);
    vstd::arithmetic::div_mod::lemma_mod_bound(row, rpb);
    vstd::arithmetic::div_mod::lemma_div_pos_is_pos(row, rpb);
    assert(rpb * i == i * rpb) by (nonlinear_arith);
    assert(i * rpb <= row < i * rpb + rpb);
    let x = height + rpb - 1;
    vstd::arithmetic::div_mod::lemma_fundamental_div_mod(x, rpb);
    vstd::arithmetic::div_mod::lemma_mod_bound(x, rpb);
    assert(rpb * c == c * rpb) by (nonlinear_arith);
    assert(height <= c * rpb);
    assert(i < c) by {
        vstd::arithmetic::mul::lemma_mul_strict_inequality_converse(i, c, rpb);
    }
    assert forall|j: int| 0 <= j < c && j != i implies !(#[trigger] band_top(rpb, j) <= row
        < band_top(rpb, j) + band_height(height, rpb, j)) by {
        if j < i {
            vstd::arithmetic::mul::lemma_mul_inequality(j + 1, i, rpb);
            assert((j + 1) * rpb == j * rpb + rpb) by (nonlinear_arith);
        } else {
            vstd::arithmetic::mul::lemma_mul_inequality(i + 1, j, rpb);
            assert((i + 1) * rpb == i * rpb + rpb) by (nonlinear_arith);
        }
    }
}

} // verus!
