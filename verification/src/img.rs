//! The pixel buffer and the blit.

use crate::bounds::{clamp, lemma_clamp_from_zero};
use crate::geometry::{buffer_len, can_allocate, lemma_locate, lemma_row_starts};
use crate::raster::{blank, blit, copy_height, copy_width, Raster};
use vstd::prelude::*;

verus! {

/// Why a blit was refused.
#[derive(Debug, Clone, Copy, PartialEq, Eq, Structural)]
pub enum BlitError {
    /// The offset lies outside the destination.
    OutOfBounds,
}

impl BlitError {
    /// One line that says what went wrong.
    pub fn message(&self) -> (r: &'static str)
        ensures
            r@ == "Invalid position"@,
    {
        "Invalid position"
    }
}

/// An RGBA8 image: `width * height * 4` bytes, row after row without padding.
#[derive(Debug)]
pub struct Img {
    width: u32,
    height: u32,
    data: Vec<u8>,
}

impl View for Img {
    type V = Raster;

    closed spec fn view(&self) -> Raster {
        Raster { width: self.width as nat, height: self.height as nat, bytes: self.data@ }
    }
}

/// A zeroed buffer for an RGBA8 image of the given size, made by the image
/// crate's `ImageBuffer::new` (as `RgbaImage::new`) and taken out of it with
/// `into_raw`. Trusted, not proved: `new` allocates `width * height * 4`
/// subpixels, each of them zero, and `into_raw` hands that vector over as it
/// is. `new` panics where four times the width, or that times the height,
/// overflows `usize`, and the allocation where the length is more than a
/// vector can hold: `requires` leaves these out.
#[verifier::external_body]
fn blank_rgba8(width: u32, height: u32) -> (data: Vec<u8>)
    requires
        can_allocate(width as nat, height as nat),
    ensures
        data@.len() == buffer_len(width as nat, height as nat),
        forall|k: int| 0 <= k < data@.len() ==> data@[k] == 0u8,
{
    image::RgbaImage::new(width, height).into_raw()
}

/// Copies `len` bytes of `src`, from `src_start` on, over those of `dest`
/// from `dest_start` on.
fn copy_row(dest: &mut Vec<u8>, dest_start: usize, src: &Vec<u8>, src_start: usize, len: usize)
    requires
        dest_start + len <= old(dest)@.len(),
        src_start + len <= src@.len(),
    ensures
        final(dest)@.len() == old(dest)@.len(),
        forall|k: int|
            0 <= k < old(dest)@.len() ==> #[trigger] final(dest)@[k] == (if dest_start <= k
                < dest_start + len {
                src@[src_start + (k - dest_start)]
            } else {
                old(dest)@[k]
            }),
{
    let dest_len: usize = dest.len();
    let src_len: usize = src.len();
    let mut b: usize = 0;
    while b < len
        invariant
            b <= len,
            dest_len == dest@.len(),
            src_len == src@.len(),
            dest_start + len <= dest@.len(),
            src_start + len <= src@.len(),
            dest@.len() == old(dest)@.len(),
            forall|k: int|
                0 <= k < dest@.len() ==> #[trigger] dest@[k] == (if dest_start <= k < dest_start
                    + b {
                    src@[src_start + (k - dest_start)]
                } else {
                    old(dest)@[k]
                }),
        decreases len - b,
    {
        let v: u8 = src[src_start + b];
        dest[dest_start + b] = v;
        b += 1;
    }
}

impl Img {
    /// The buffer holds exactly the bytes of its pixels.
    pub open spec fn wf(&self) -> bool {
        self@.wf()
    }

    /// A blank image: every byte zero. The size must be one that can be
    /// allocated.
    pub fn new(width: u32, height: u32) -> (r: Img)
        requires
            can_allocate(width as nat, height as nat),
        ensures
            r.wf(),
            r@ == blank(width as nat, height as nat),
    {
        let r = Img { width, height, data: blank_rgba8(width, height) };
        assert(r@.bytes =~= blank(width as nat, height as nat).bytes);
        r
    }

    /// An image over bytes that are already there: `None` unless `data` has
    /// exactly `width * height * 4` bytes.
    pub fn from_raw(width: u32, height: u32, data: Vec<u8>) -> (r: Option<Img>)
        ensures
            r is Some <==> data@.len() == buffer_len(width as nat, height as nat),
            r is Some ==> r->Some_0.wf() && r->Some_0@ == (Raster {
                width: width as nat,
                height: height as nat,
                bytes: data@,
            }),
    {
        assert((width as int) * (height as int) <= 0xffff_ffff * 0xffff_ffff) by (nonlinear_arith)
            requires
                0 <= width <= 0xffff_ffff,
                0 <= height <= 0xffff_ffff,
        ;
        let pixels: u128 = (width as u128) * (height as u128);
        if data.len() as u128 == pixels * 4 {
            Some(Img { width, height, data })
        } else {
            None
        }
    }

    /// The bytes, row after row.
    pub fn as_raw(&self) -> (r: &Vec<u8>)
        ensures
            r@ == self@.bytes,
    {
        &self.data
    }

    /// Gives the bytes up.
    pub fn into_raw(self) -> (r: Vec<u8>)
        ensures
            r@ == self@.bytes,
    {
        self.data
    }

    /// Height in pixels.
    pub fn ht(&self) -> (r: u32)
        ensures
            r == self@.height,
    {
        self.height
    }

    /// Width in pixels.
    pub fn wd(&self) -> (r: u32)
        ensures
            r == self@.width,
    {
        self.width
    }

    /// Copies `img` into this image with its top left corner at `(x, y)`.
    /// What does not fit to the right or below is left out. An offset outside
    /// this image is refused and nothing is changed.
    pub fn write(&mut self, img: &Img, x: u32, y: u32) -> (r: Result<(), BlitError>)
        requires
            old(self).wf(),
            img.wf(),
        ensures
            final(self).wf(),
            r is Ok <==> x < old(self)@.width && y < old(self)@.height,
            r is Ok ==> final(self)@ == blit(old(self)@, img@, x as nat, y as nat),
            r is Err ==> r == Err::<(), BlitError>(BlitError::OutOfBounds) && *final(self) == *old(
                self,
            ),
    {
        if x >= self.wd() || y >= self.ht() {
            return Err(BlitError::OutOfBounds);
        }
        let cols: u32 = clamp(img.wd(), 0, self.wd() - x);
        let rows: u32 = clamp(img.ht(), 0, self.ht() - y);
        let ghost before = self@;
        let ghost after = blit(before, img@, x as nat, y as nat);
        proof {
            lemma_clamp_from_zero(img.width, (self.width - x) as u32);
            lemma_clamp_from_zero(img.height, (self.height - y) as u32);
            assert(cols == copy_width(before, img@, x as nat));
            assert(rows == copy_height(before, img@, y as nat));
        }
        if rows < 1 || cols < 1 {
            assert(self@.bytes =~= after.bytes);
            return Ok(());
        }
        let dw: usize = self.width as usize;
        let sw: usize = img.width as usize;
        let x0: usize = x as usize;
        let y0: usize = y as usize;
        let dest_len: usize = self.data.len();
        let src_len: usize = img.data.len();
        let ghost dh = self.height as int;
        let ghost sh = img.height as int;
        proof {
            assert(dw * dh * 4 == self.data@.len());
            assert(sw * sh * 4 == img.data@.len());
            assert(dw * 4 <= dw * dh * 4) by (nonlinear_arith)
                requires
                    dh >= 1,
                    dw >= 0,
            ;
        }
        let row_bytes: usize = (cols as usize) * 4;
        proof {
            assert forall|k: int| 0 <= k < self.data@.len() && k < y0 * dw * 4 implies after.bytes[k]
                == before.bytes[k] by {
                lemma_row_starts(dw as nat, k, y0 as nat);
            }
        }
        let mut i: usize = 0;
        while i < rows as usize
            invariant
                i <= rows,
                row_bytes == cols * 4,
                dw == self.width,
                sw == img.width,
                dh == self.height,
                sh == img.height,
                x0 == x,
                y0 == y,
                x < dw,
                y < dh,
                cols == copy_width(before, img@, x as nat),
                rows == copy_height(before, img@, y as nat),
                self.width == old(self).width,
                self.height == old(self).height,
                before == old(self)@,
                after == blit(before, img@, x as nat, y as nat),
                self.data@.len() == before.bytes.len(),
                dw * dh * 4 == self.data@.len(),
                sw * sh * 4 == img.data@.len(),
                self.data@.len() == dest_len,
                img.data@.len() == src_len,
                forall|k: int|
                    0 <= k < self.data@.len() ==> #[trigger] self.data@[k] == (if k < (y0 + i) * dw
                        * 4 {
                        after.bytes[k]
                    } else {
                        before.bytes[k]
                    }),
            decreases rows - i,
        {
            let ghost base = (y0 + i) * dw;
            let ghost sbase = i * sw;
            proof {
                assert(base + dw <= dh * dw) by (nonlinear_arith)
                    requires
                        base == (y0 + i) * dw,
                        y0 + i < dh,
                        dw > 0,
                ;
                assert(dh * dw == dw * dh) by (nonlinear_arith);
                assert((y0 + i + 1) * dw == base + dw) by (nonlinear_arith)
                    requires
                        base == (y0 + i) * dw,
                ;
                assert(sbase + sw <= sh * sw) by (nonlinear_arith)
                    requires
                        sbase == i * sw,
                        i < sh,
                        sw >= 0,
                ;
                assert(sh * sw == sw * sh) by (nonlinear_arith);
                assert(0 <= base && 0 <= sbase) by (nonlinear_arith)
                    requires
                        base == (y0 + i) * dw,
                        sbase == i * sw,
                ;
            }
            let src_start: usize = i * sw * 4;
            let dest_start: usize = ((y0 + i) * dw + x0) * 4;
            copy_row(&mut self.data, dest_start, &img.data, src_start, row_bytes);
            proof {
                assert forall|k: int| 0 <= k < self.data@.len() implies #[trigger] self.data@[k]
                    == (if k < (y0 + i + 1) * dw * 4 {
                    after.bytes[k]
                } else {
                    before.bytes[k]
                }) by {
                    if base * 4 <= k < (base + dw) * 4 {
                        lemma_row_starts(dw as nat, k, (y0 + i) as nat);
                        lemma_row_starts(dw as nat, k, (y0 + i + 1) as nat);
                        lemma_locate(dw as nat, k);
                    }
                }
            }
            i += 1;
        }
        proof {
            assert forall|k: int| 0 <= k < self.data@.len() implies self.data@[k] == after.bytes[k] by {
                lemma_row_starts(dw as nat, k, (y0 + rows) as nat);
            }
            assert(self@.bytes =~= after.bytes);
        }
        Ok(())
    }
}

} // verus!
