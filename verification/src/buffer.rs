//! In-memory framebuffer mirroring the controller's display RAM layout.
//!
//! The logical image is mounted rotated by 180 degrees relative to storage
//! order, so the coordinate transform both reverses the byte offset within
//! the buffer and reverses the bit position within the byte.

use vstd::prelude::*;

use crate::BUF_SIZE;

verus! {

/// True when `(x, y)` lies on the drawing surface.
pub open spec fn in_range(x: int, y: int) -> bool {
    &&& 0 <= x < 84
    &&& 0 <= y < 48
}

/// Byte offset holding the bit of logical pixel `(x, y)`: page-major order
/// (`(y / 8) * 84 + x`), then mirrored for the 180-degree rotation.
pub open spec fn pixel_offset(x: int, y: int) -> int {
    503 - ((y / 8) * 84 + x)
}

/// Bit mask of logical pixel `(x, y)` within its byte; the rotation reverses
/// the bit order, so the topmost unrotated row sits at the most significant bit.
pub open spec fn pixel_mask(y: int) -> u8 {
    0x80u8 >> ((y % 8) as u8)
}

/// The byte `b` with the bit of row `y` set (for `on`) or cleared.
pub open spec fn put_pixel(b: u8, y: int, on: bool) -> u8 {
    if on {
        b | pixel_mask(y)
    } else {
        b & !pixel_mask(y)
    }
}

/// Reads the bit of logical pixel `(x, y)` out of a raw byte sequence.
pub open spec fn pixel_of(s: Seq<u8>, x: int, y: int) -> bool {
    s[pixel_offset(x, y)] & pixel_mask(y) != 0
}

/// Writing a pixel stores exactly the value written: reading the same
/// coordinate back out of the updated byte sequence yields that value.
pub proof fn lemma_set_pixel_reads_back(s: Seq<u8>, x: int, y: int, on: bool)
    requires
        s.len() == 504,
        in_range(x, y),
    ensures
        pixel_of(s.update(pixel_offset(x, y), put_pixel(s[pixel_offset(x, y)], y, on)), x, y)
            == on,
{
    let k: u8 = (y % 8) as u8;
    let b: u8 = s[pixel_offset(x, y)];
    assert((b | (0x80u8 >> k)) & (0x80u8 >> k) != 0 && (b & !(0x80u8 >> k)) & (0x80u8 >> k)
        == 0) by (bit_vector)
        requires
            k < 8,
    ;
}

/// Writing one pixel never alters any other pixel: every other in-range
/// coordinate reads the same bit before and after the update.
pub proof fn lemma_set_pixel_preserves_others(
    s: Seq<u8>,
    x: int,
    y: int,
    on: bool,
    x2: int,
    y2: int,
)
    requires
        s.len() == 504,
        in_range(x, y),
        in_range(x2, y2),
        x2 != x || y2 != y,
    ensures
        pixel_of(s.update(pixel_offset(x, y), put_pixel(s[pixel_offset(x, y)], y, on)), x2, y2)
            == pixel_of(s, x2, y2),
{
    if pixel_offset(x2, y2) == pixel_offset(x, y) {
        assert((y / 8) * 84 + x == (y2 / 8) * 84 + x2);
        assert(y / 8 == y2 / 8 && x == x2);
        assert(y == 8 * (y / 8) + y % 8);
        assert(y2 == 8 * (y2 / 8) + y2 % 8);
        let k1: u8 = (y % 8) as u8;
        let k2: u8 = (y2 % 8) as u8;
        let b: u8 = s[pixel_offset(x, y)];
        assert(((b | (0x80u8 >> k1)) & (0x80u8 >> k2) != 0) == (b & (0x80u8 >> k2) != 0) && ((b
            & !(0x80u8 >> k1)) & (0x80u8 >> k2) != 0) == (b & (0x80u8 >> k2) != 0)) by (bit_vector)
            requires
                k1 < 8,
                k2 < 8,
                k1 != k2,
        ;
    }
}

/// Fixed-size bitmap whose bytes are transmitted verbatim as display data.
pub struct Buffer {
    bytes: Vec<u8>,
}

impl View for Buffer {
    type V = Seq<u8>;

    closed spec fn view(&self) -> Seq<u8> {
        self.bytes@
    }
}

impl Buffer {
    /// The backing storage always spans the whole display RAM.
    pub open spec fn wf(&self) -> bool {
        self@.len() == 504
    }

    /// Fresh buffer with every pixel cleared.
    pub fn new() -> (r: Buffer)
        ensures
            r.wf(),
            forall|i: int| 0 <= i < 504 ==> r@[i] == 0u8,
    {
        let bytes: Vec<u8> = vec![0u8; BUF_SIZE];
        proof {
            assert forall|i: int| 0 <= i < 504 implies bytes@[i] == 0u8 by {
                assert(vstd::prelude::cloned::<u8>(0u8, bytes@[i]));
            }
        }
        Buffer { bytes }
    }

    /// Sets (`on == true`) or clears the pixel at logical coordinate `(x, y)`.
    /// Coordinates off the surface are silently dropped: the buffer is left
    /// unchanged and no out-of-bounds access happens.
    pub fn set_pixel(&mut self, x: i32, y: i32, on: bool)
        requires
            old(self).wf(),
        ensures
            final(self).wf(),
            !in_range(x as int, y as int) ==> final(self)@ == old(self)@,
            in_range(x as int, y as int) ==> final(self)@ == old(self)@.update(
                pixel_offset(x as int, y as int),
                put_pixel(old(self)@[pixel_offset(x as int, y as int)], y as int, on),
            ),
    {
        if x < 0 || x >= 84 || y < 0 || y >= 48 {
            return ;
        }
        let xi: usize = x as usize;
        let yi: usize = y as usize;
        let off: usize = 503 - ((yi / 8) * 84 + xi);
        let shift: u8 = (yi % 8) as u8;
        let mask: u8 = 0x80u8 >> shift;
        assert(off == pixel_offset(x as int, y as int));
        assert(mask == pixel_mask(y as int));
        let b: u8 = self.bytes[off];
        if on {
            self.bytes[off] = b | mask;
        } else {
            self.bytes[off] = b & !mask;
        }
    }

    /// Sets every pixel at once: fills the buffer with `0xFF` for `on`,
    /// with `0x00` otherwise.
    pub fn clear(&mut self, on: bool)
        ensures
            final(self).wf(),
            forall|i: int|
                0 <= i < 504 ==> final(self)@[i] == (if on {
                    0xFFu8
                } else {
                    0u8
                }),
    {
        let fill: u8 = if on {
            0xFF
        } else {
            0x00
        };
        let bytes: Vec<u8> = vec![fill; BUF_SIZE];
        proof {
            assert forall|i: int| 0 <= i < 504 implies bytes@[i] == fill by {
                assert(vstd::prelude::cloned::<u8>(fill, bytes@[i]));
            }
        }
        self.bytes = bytes;
    }

    /// Read-only view of the raw page-major byte layout, ready for
    /// transmission as one display-data run.
    pub fn bytes(&self) -> (r: &[u8])
        ensures
            r@ == self@,
    {
        self.bytes.as_slice()
    }
}

} // verus!
