//! What holds of every blit.

use crate::geometry::{
    buffer_len, byte_index, col_of, lemma_index_in_buffer, lemma_locate_index, row_of,
};
use crate::raster::{blit, copy_height, copy_width, in_region, Raster};
use vstd::prelude::*;

verus! {

/// A blit keeps the destination's size, and so its length in bytes.
pub proof fn lemma_blit_keeps_shape(dest: Raster, src: Raster, x: nat, y: nat)
    requires
        dest.wf(),
    ensures
        blit(dest, src, x, y).wf(),
        blit(dest, src, x, y).width == dest.width,
        blit(dest, src, x, y).height == dest.height,
        blit(dest, src, x, y).bytes.len() == dest.bytes.len(),
{
}

/// A blit at an offset inside the destination writes inside the destination
/// only: byte `b` of copied row `i` goes to an offset below the length of the
/// destination's buffer, and comes from an offset below the length of the
/// source's.
pub proof fn lemma_blit_writes_in_bounds(dest: Raster, src: Raster, x: nat, y: nat, i: nat, b: nat)
    requires
        x < dest.width,
        y < dest.height,
        i < copy_height(dest, src, y),
        b < copy_width(dest, src, x) * 4,
    ensures
        byte_index(dest.width, y + i, x, 0) + b < buffer_len(dest.width, dest.height),
        byte_index(src.width, i, 0, 0) + b < buffer_len(src.width, src.height),
{
    let col = b / 4;
    let ch = b % 4;
    lemma_index_in_buffer(dest.width, dest.height, y + i, x + col, ch);
    lemma_index_in_buffer(src.width, src.height, i, col, ch);
    assert(byte_index(dest.width, y + i, x + col, ch) == byte_index(dest.width, y + i, x, 0) + b);
    assert(byte_index(src.width, i, col, ch) == byte_index(src.width, i, 0, 0) + b);
}

/// A byte that a blit at an offset inside the destination changes lies in the
/// copied region, and so inside the destination's buffer.
pub proof fn lemma_blit_changes_region_only(dest: Raster, src: Raster, x: nat, y: nat, k: int)
    requires
        dest.wf(),
        x < dest.width,
        y < dest.height,
        0 <= k < dest.bytes.len(),
        blit(dest, src, x, y).bytes[k] != dest.bytes[k],
    ensures
        in_region(dest, src, x, y, row_of(dest.width, k), col_of(dest.width, k)),
        y <= row_of(dest.width, k) < dest.height,
        x <= col_of(dest.width, k) < dest.width,
        k < buffer_len(dest.width, dest.height),
{
}

/// Pixel by pixel, what a blit leaves: inside the copied region the source's
/// pixel, outside it the destination's own.
pub proof fn lemma_blit_channel(
    dest: Raster,
    src: Raster,
    x: nat,
    y: nat,
    row: nat,
    col: nat,
    ch: nat,
)
    requires
        dest.wf(),
        row < dest.height,
        col < dest.width,
        ch < 4,
    ensures
        blit(dest, src, x, y).channel(row, col, ch) == (if in_region(
            dest,
            src,
            x,
            y,
            row as int,
            col as int,
        ) {
            src.channel((row - y) as nat, (col - x) as nat, ch)
        } else {
            dest.channel(row, col, ch)
        }),
{
    lemma_locate_index(dest.width, row, col, ch);
    lemma_index_in_buffer(dest.width, dest.height, row, col, ch);
}

/// A source that fits into the destination at `(x, y)` is found there whole,
/// and every other pixel of the destination is as it was.
pub proof fn lemma_blit_reproduces_source(dest: Raster, src: Raster, x: nat, y: nat)
    requires
        dest.wf(),
        src.wf(),
        x + src.width <= dest.width,
        y + src.height <= dest.height,
    ensures
        forall|r: nat, c: nat, ch: nat|
            r < src.height && c < src.width && ch < 4 ==> #[trigger] blit(
                dest,
                src,
                x,
                y,
            ).channel(y + r, x + c, ch) == src.channel(r, c, ch),
        forall|row: nat, col: nat, ch: nat|
            row < dest.height && col < dest.width && ch < 4 && !(y <= row < y + src.height && x
                <= col < x + src.width) ==> #[trigger] blit(dest, src, x, y).channel(row, col, ch)
                == dest.channel(row, col, ch),
{
    assert forall|r: nat, c: nat, ch: nat|
        r < src.height && c < src.width && ch < 4 implies #[trigger] blit(dest, src, x, y).channel(
        y + r,
        x + c,
        ch,
    ) == src.channel(r, c, ch) by {
        lemma_blit_channel(dest, src, x, y, y + r, x + c, ch);
    }
    assert forall|row: nat, col: nat, ch: nat|
        row < dest.height && col < dest.width && ch < 4 && !(y <= row < y + src.height && x <= col
            < x + src.width) implies #[trigger] blit(dest, src, x, y).channel(row, col, ch)
        == dest.channel(row, col, ch) by {
        lemma_blit_channel(dest, src, x, y, row, col, ch);
    }
}

/// Blitting the same source at the same offset a second time changes nothing.
pub proof fn lemma_blit_idempotent(dest: Raster, src: Raster, x: nat, y: nat)
    ensures
        blit(blit(dest, src, x, y), src, x, y) == blit(dest, src, x, y),
{
    let once = blit(dest, src, x, y);
    let twice = blit(once, src, x, y);
    assert(twice.bytes =~= once.bytes);
}

} // verus!
