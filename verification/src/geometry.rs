//! Where a byte of a row-major RGBA8 buffer lies: its row, its column and its
//! channel, and the byte offset that the three give back.

use vstd::prelude::*;

verus! {

/// The smaller of two numbers.
pub open spec fn min_nat(a: nat, b: nat) -> nat {
    if a <= b {
        a
    } else {
        b
    }
}

/// Length in bytes of a buffer of `width` by `height` pixels.
pub open spec fn buffer_len(width: nat, height: nat) -> nat {
    width * height * 4
}

/// A buffer of `width` by `height` pixels can be allocated: the bytes of one
/// row of pixels are counted in `usize`, and there are no more bytes in all
/// than a vector can hold.
pub open spec fn can_allocate(width: nat, height: nat) -> bool {
    &&& 4 * width <= usize::MAX
    &&& buffer_len(width, height) <= isize::MAX
}

/// Offset of the byte of channel `ch` of the pixel in row `row` and column
/// `col` of a buffer that is `width` pixels wide.
pub open spec fn byte_index(width: nat, row: nat, col: nat, ch: nat) -> nat {
    (row * width + col) * 4 + ch
}

/// Row of the pixel that byte `k` belongs to.
pub open spec fn row_of(width: nat, k: int) -> int {
    (k / 4) / (width as int)
}

/// Column of the pixel that byte `k` belongs to.
pub open spec fn col_of(width: nat, k: int) -> int {
    (k / 4) % (width as int)
}

/// Channel that byte `k` holds.
pub open spec fn channel_of(k: int) -> int {
    k % 4
}

/// Row, column and channel of a byte give its offset back, and column and
/// channel are in range.
pub proof fn lemma_locate(width: nat, k: int)
    requires
        width > 0,
        k >= 0,
    ensures
        0 <= row_of(width, k),
        0 <= col_of(width, k) < width,
        0 <= channel_of(k) < 4,
        k == (row_of(width, k) * width + col_of(width, k)) * 4 + channel_of(k),
{
    let p = k / 4;
    let w = width as int;
    vstd::arithmetic::div_mod::lemma_fundamental_div_mod(p, w);
    vstd::arithmetic::div_mod::lemma_mod_bound(p, w);
    vstd::arithmetic::div_mod::lemma_div_pos_is_pos(p, w);
    assert(w * (p / w) == (p / w) * w) by (nonlinear_arith);
}

/// The offset that a row, a column and a channel give lies in that row, that
/// column and that channel.
pub proof fn lemma_locate_index(width: nat, row: nat, col: nat, ch: nat)
    requires
        col < width,
        ch < 4,
    ensures
        row_of(width, byte_index(width, row, col, ch) as int) == row,
        col_of(width, byte_index(width, row, col, ch) as int) == col,
        channel_of(byte_index(width, row, col, ch) as int) == ch,
{
    let k = byte_index(width, row, col, ch) as int;
    let p = row * width + col;
    assert(k / 4 == p);
    vstd::arithmetic::div_mod::lemma_fundamental_div_mod_converse(
        p as int,
        width as int,
        row as int,
        col as int,
    );
}

/// A byte lies before row `row` exactly if its offset is below the offset at
/// which that row starts.
pub proof fn lemma_row_starts(width: nat, k: int, row: nat)
    requires
        width > 0,
        k >= 0,
    ensures
        row_of(width, k) < row <==> k < row * width * 4,
{
    lemma_locate(width, k);
    let r = row_of(width, k);
    let c = col_of(width, k);
    let w = width as int;
    let t = row as int;
    assert(r < t ==> r * w + w <= t * w) by (nonlinear_arith)
        requires
            w > 0,
    ;
    assert(r >= t ==> r * w >= t * w) by (nonlinear_arith)
        requires
            w > 0,
    ;
}

/// Every byte of a pixel inside a buffer lies inside the buffer.
pub proof fn lemma_index_in_buffer(width: nat, height: nat, row: nat, col: nat, ch: nat)
    requires
        row < height,
        col < width,
        ch < 4,
    ensures
        byte_index(width, row, col, ch) < buffer_len(width, height),
{
    let w = width as int;
    let h = height as int;
    let r = row as int;
    assert(r * w + w <= h * w) by (nonlinear_arith)
        requires
            r < h,
            w > 0,
    ;
    assert(h * w == w * h) by (nonlinear_arith);
}

} // verus!
