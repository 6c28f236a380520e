use vstd::arithmetic::div_mod::lemma_fundamental_div_mod_converse;
use vstd::prelude::*;

verus! {

/// The pixel that comes `k`-th in an image `width` pixels wide and `height`
/// pixels high, as (column, row) with row 0 at the bottom: rows are produced
/// from the top one down, each from left to right.
pub open spec fn scan_position(width: int, height: int, k: int) -> (int, int) {
    (k % width, height - 1 - k / width)
}

/// Where pixel (`column`, `row`) comes in that order.
pub open spec fn scan_index(width: int, height: int, column: int, row: int) -> int {
    (height - 1 - row) * width + column
}

/// The order places each pixel of the image at its own index, within the
/// image's pixel count, and from that index gives the pixel back.
pub proof fn lemma_scan_index(width: int, height: int, column: int, row: int)
    requires
        0 <= column < width,
        0 <= row < height,
    ensures
        0 <= scan_index(width, height, column, row) < width * height,
        scan_position(width, height, scan_index(width, height, column, row)) == (column, row),
{
    let q = height - 1 - row;
    lemma_fundamental_div_mod_converse(scan_index(width, height, column, row), width, q, column);
    assert(0 <= q * width + column < width * height) by (nonlinear_arith)
        requires
            0 <= q < height,
            0 <= column < width,
    ;
}

/// The pixels of a `width` by `height` image in the order in which they are
/// rendered and written: rows from the top one (`height - 1`) down to row 0,
/// each row from column 0 to column `width - 1`. Each entry is
/// (column, row); every pixel of the image occurs once.
pub fn scan_order(width: usize, height: usize) -> (r: Vec<(usize, usize)>)
    requires
        width * height <= usize::MAX,
    ensures
        r@.len() == width * height,
        forall|k: int|
            0 <= k < r@.len() ==> {
                let (column, row) = #[trigger] r@[k];
                (column as int, row as int) == scan_position(width as int, height as int, k)
            },
        forall|column: int, row: int|
            0 <= column < width && 0 <= row < height ==> #[trigger] r@[scan_index(
                width as int,
                height as int,
                column,
                row,
            )] == (column as usize, row as usize),
{
    let mut out: Vec<(usize, usize)> = Vec::new();
    let mut rows_left: usize = height;
    while rows_left > 0
        invariant
            rows_left <= height,
            out@.len() == (height - rows_left) * width,
            forall|k: int|
                0 <= k < out@.len() ==> {
                    let (column, row) = #[trigger] out@[k];
                    (column as int, row as int) == scan_position(width as int, height as int, k)
                },
        decreases rows_left,
    {
        let row: usize = rows_left - 1;
        let mut column: usize = 0;
        while column < width
            invariant
                row < height,
                column <= width,
                out@.len() == (height - 1 - row) * width + column,
                forall|k: int|
                    0 <= k < out@.len() ==> {
                        let (c, r) = #[trigger] out@[k];
                        (c as int, r as int) == scan_position(width as int, height as int, k)
                    },
            decreases width - column,
        {
            proof {
                lemma_scan_index(width as int, height as int, column as int, row as int);
            }
            out.push((column, row));
            column = column + 1;
        }
        assert((height - 1 - row) * width + width == (height - row) * width) by (nonlinear_arith);
        rows_left = row;
    }
    assert(out@.len() == width * height) by (nonlinear_arith)
        requires
            out@.len() == height * width,
    ;
    assert forall|column: int, row: int|
        0 <= column < width && 0 <= row < height implies #[trigger] out@[scan_index(
        width as int,
        height as int,
        column,
        row,
    )] == (column as usize, row as usize) by {
        lemma_scan_index(width as int, height as int, column, row);
    }
    out
}

} // verus!
