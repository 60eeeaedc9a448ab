//! The mathematical model of a pixel buffer, and what a blit makes of it.

use crate::geometry::{buffer_len, byte_index, channel_of, col_of, min_nat, row_of};
use vstd::prelude::*;

verus! {

/// A pixel buffer as a value: its size in pixels and its bytes, row after row,
/// four bytes (red, green, blue, alpha) to the pixel.
pub struct Raster {
    pub width: nat,
    pub height: nat,
    pub bytes: Seq<u8>,
}

impl Raster {
    /// The bytes are exactly those of `width` by `height` pixels.
    pub open spec fn wf(self) -> bool {
        self.bytes.len() == buffer_len(self.width, self.height)
    }

    /// The byte of channel `ch` of the pixel in row `row` and column `col`.
    pub open spec fn channel(self, row: nat, col: nat, ch: nat) -> u8 {
        self.bytes[byte_index(self.width, row, col, ch) as int]
    }
}

/// A blank canvas: every byte zero.
pub open spec fn blank(width: nat, height: nat) -> Raster {
    Raster { width, height, bytes: Seq::new(buffer_len(width, height), |k: int| 0u8) }
}

/// Columns that a blit at column `x` copies: those of the source, cut down to
/// what is left of the destination to the right of `x`.
pub open spec fn copy_width(dest: Raster, src: Raster, x: nat) -> nat {
    min_nat(src.width, (dest.width - x) as nat)
}

/// Rows that a blit at row `y` copies: those of the source, cut down to what
/// is left of the destination below `y`.
pub open spec fn copy_height(dest: Raster, src: Raster, y: nat) -> nat {
    min_nat(src.height, (dest.height - y) as nat)
}

/// The pixel in row `row` and column `col` of the destination is one that a
/// blit at `(x, y)` overwrites.
pub open spec fn in_region(dest: Raster, src: Raster, x: nat, y: nat, row: int, col: int) -> bool {
    &&& y <= row < y + copy_height(dest, src, y)
    &&& x <= col < x + copy_width(dest, src, x)
}

/// Byte `k` of the destination after a blit at `(x, y)`: inside the copied
/// region the source's byte of the same channel, `y` rows up and `x` columns
/// to the left; outside it the byte that was there.
pub open spec fn blit_byte(dest: Raster, src: Raster, x: nat, y: nat, k: int) -> u8 {
    let row = row_of(dest.width, k);
    let col = col_of(dest.width, k);
    if in_region(dest, src, x, y, row, col) {
        src.channel((row - y) as nat, (col - x) as nat, channel_of(k) as nat)
    } else {
        dest.bytes[k]
    }
}

/// The destination after a blit of `src` at `(x, y)`, for an offset inside
/// the destination.
pub open spec fn blit(dest: Raster, src: Raster, x: nat, y: nat) -> Raster {
    Raster {
        width: dest.width,
        height: dest.height,
        bytes: Seq::new(dest.bytes.len(), |k: int| blit_byte(dest, src, x, y, k)),
    }
}

} // verus!
