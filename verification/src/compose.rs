//! The composition: an image beside a shifted copy of itself.

use crate::geometry::{buffer_len, can_allocate, lemma_index_in_buffer};
use crate::img::{BlitError, Img};
use crate::laws::{lemma_blit_channel, lemma_blit_keeps_shape};
use crate::raster::{blank, blit, copy_height, copy_width, Raster};
use vstd::prelude::*;

verus! {

/// Columns and rows by which the second copy is shifted.
pub const SHIFT: u32 = 50;

/// A canvas twice as wide as `src`, with `src` at the top left corner and a
/// second copy `SHIFT` columns to the right of the first and `SHIFT` rows
/// down, cut off where the canvas ends.
pub open spec fn duplicated(src: Raster) -> Raster {
    let canvas = blank(2 * src.width, src.height);
    blit(blit(canvas, src, 0, 0), src, src.width + SHIFT as nat, SHIFT as nat)
}

/// The canvas for `src` can be made: twice the width is a 32-bit number, and
/// a buffer of that width and the height of `src` can be allocated.
pub open spec fn canvas_fits_spec(src: Raster) -> bool {
    &&& 2 * src.width <= u32::MAX
    &&& can_allocate(2 * src.width, src.height)
}

/// Whether the canvas for `img` can be made.
pub fn canvas_fits(img: &Img) -> (b: bool)
    ensures
        b == canvas_fits_spec(img@),
{
    let w: u32 = img.wd();
    let h: u32 = img.ht();
    if w > u32::MAX / 2 {
        return false;
    }
    assert((w as int) * (h as int) <= 0x7fff_ffff * 0xffff_ffff) by (nonlinear_arith)
        requires
            0 <= w <= 0x7fff_ffff,
            0 <= h <= 0xffff_ffff,
    ;
    assert(buffer_len(2 * (w as nat), h as nat) == (w as int) * (h as int) * 8) by (nonlinear_arith);
    let row: u128 = (w as u128) * 8;
    let need: u128 = (w as u128) * (h as u128) * 8;
    row <= usize::MAX as u128 && need <= isize::MAX as u128
}

/// Places `img` twice on a blank canvas of twice its width: at the top left
/// corner, and again `SHIFT` columns right of the first copy's edge and `SHIFT`
/// rows down. An image that is not both wider and higher than `SHIFT` leaves
/// no place inside the canvas for one of the copies and is refused.
pub fn process_file(img: &Img) -> (r: Result<Img, BlitError>)
    requires
        img.wf(),
        canvas_fits_spec(img@),
    ensures
        r is Ok <==> img@.width > SHIFT && img@.height > SHIFT,
        r is Ok ==> r->Ok_0.wf() && r->Ok_0@ == duplicated(img@),
        r is Err ==> r == Err::<Img, BlitError>(BlitError::OutOfBounds),
{
    let mut dup = Img::new(img.wd() * 2, img.ht());
    match dup.write(img, 0, 0) {
        Ok(()) => {},
        Err(e) => {
            return Err(e);
        },
    }
    match dup.write(img, img.wd() + SHIFT, SHIFT) {
        Ok(()) => {},
        Err(e) => {
            return Err(e);
        },
    }
    Ok(dup)
}

/// The second copy of an image wider and higher than `SHIFT` is cut to
/// `SHIFT` fewer columns and `SHIFT` fewer rows than the image has.
pub proof fn lemma_shifted_copy_region(src: Raster)
    requires
        src.width > SHIFT,
        src.height > SHIFT,
    ensures
        copy_width(
            blit(blank(2 * src.width, src.height), src, 0, 0),
            src,
            src.width + SHIFT as nat,
        ) == src.width - SHIFT,
        copy_height(blit(blank(2 * src.width, src.height), src, 0, 0), src, SHIFT as nat)
            == src.height - SHIFT,
{
}

/// Pixel by pixel, what the composition of an image wider and higher than
/// `SHIFT` holds: the shifted copy where it reaches, cut off `SHIFT` columns
/// before its right edge and `SHIFT` rows above its lower edge; left of it the
/// image itself; zero bytes elsewhere.
pub proof fn lemma_duplicated_channel(src: Raster, row: nat, col: nat, ch: nat)
    requires
        src.wf(),
        src.width > SHIFT,
        src.height > SHIFT,
        row < src.height,
        col < 2 * src.width,
        ch < 4,
    ensures
        duplicated(src).channel(row, col, ch) == (if row >= SHIFT && col >= src.width + SHIFT {
            src.channel((row - SHIFT) as nat, (col - src.width - SHIFT) as nat, ch)
        } else if col < src.width {
            src.channel(row, col, ch)
        } else {
            0u8
        }),
{
    let canvas = blank(2 * src.width, src.height);
    let first = blit(canvas, src, 0, 0);
    lemma_blit_keeps_shape(canvas, src, 0, 0);
    lemma_blit_channel(first, src, src.width + SHIFT as nat, SHIFT as nat, row, col, ch);
    lemma_blit_channel(canvas, src, 0, 0, row, col, ch);
    lemma_index_in_buffer(canvas.width, canvas.height, row, col, ch);
}

} // verus!
