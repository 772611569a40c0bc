//! A byte-addressable pixel store: a flat buffer holding a `width x height`
//! image at four bytes per pixel, loaded and stored through guest physical
//! addresses, and packed into one 32-bit value per pixel for display.

use vstd::prelude::*;

verus! {

/// The guest physical address at which the framebuffer starts.
pub const FRAMEBUFFER_BASE: u64 = 0x10001000;

/// The dynamic random access framebuffer.
pub struct Framebuffer {
    pub framebuffer: Vec<u8>,
    pub width: usize,
    pub height: usize,
    pub pitch: usize,
}

/// The buffer offset that a guest physical address maps to.
pub open spec fn fb_index(addr: u64) -> int {
    addr - FRAMEBUFFER_BASE
}

/// One packed 32-bit pixel, least-significant byte first: byte 0 occupies
/// bits 0-7, byte 1 bits 8-15, byte 2 bits 16-23, byte 3 bits 24-31.
pub open spec fn pack_pixel(b0: u8, b1: u8, b2: u8, b3: u8) -> u32 {
    (b0 as u32) | ((b1 as u32) << 8) | ((b2 as u32) << 16) | ((b3 as u32) << 24)
}

/// The display-ready form of a byte buffer: each 4-byte group reassembled
/// into one packed pixel, in row-major order.
pub open spec fn packed_pixels(bytes: Seq<u8>) -> Seq<u32> {
    Seq::new(
        (bytes.len() / 4) as nat,
        |i: int| pack_pixel(bytes[4 * i], bytes[4 * i + 1], bytes[4 * i + 2], bytes[4 * i + 3]),
    )
}

/// Display packing is exact: the packed value for the buffer bytes
/// `[b0, b1, b2, b3]` of one pixel equals
/// `b0 | (b1 << 8) | (b2 << 16) | (b3 << 24)`, which is the little-endian
/// integer `b0 + b1*2^8 + b2*2^16 + b3*2^24`.
pub proof fn lemma_pack_pixel_value(b0: u8, b1: u8, b2: u8, b3: u8)
    by (bit_vector)
    ensures
        pack_pixel(b0, b1, b2, b3) == (b0 as u32) + (b1 as u32) * 0x100 + (b2 as u32) * 0x10000
            + (b3 as u32) * 0x1000000,
{
}

/// Pixel store round-trip: storing `value` at an in-range address and
/// loading the same address yields `value` back, and every other in-range
/// address still holds its previous byte.
pub proof fn lemma_store_load_roundtrip(bytes: Seq<u8>, addr: u64, value: u8)
    requires
        FRAMEBUFFER_BASE <= addr,
        fb_index(addr) < bytes.len(),
    ensures
        bytes.update(fb_index(addr), value)[fb_index(addr)] == value,
        forall|other: u64|
            FRAMEBUFFER_BASE <= other && #[trigger] fb_index(other) < bytes.len() && other != addr
                ==> bytes.update(fb_index(addr), value)[fb_index(other)] == bytes[fb_index(other)],
{
}

impl Framebuffer {
    /// The buffer always holds exactly `width * height * 4` bytes, and the
    /// pitch is the byte width of one row.
    pub open spec fn wf(&self) -> bool {
        &&& self.framebuffer@.len() == self.width * self.height * 4
        &&& self.pitch == self.width * 4
    }

    /// Create a new `Framebuffer` object with an all-zero buffer.
    pub fn new(width: usize, height: usize) -> (fb: Framebuffer)
        requires
            width * height * 4 <= usize::MAX,
            width * 4 <= usize::MAX,
        ensures
            fb.wf(),
            fb.width == width,
            fb.height == height,
            fb.pitch == width * 4,
            forall|i: int| 0 <= i < fb.framebuffer@.len() ==> fb.framebuffer@[i] == 0,
    {
        let len: usize = width * height * 4;
        let mut framebuffer: Vec<u8> = Vec::new();
        let mut i: usize = 0;
        while i < len
            invariant
                i <= len,
                framebuffer@.len() == i,
                forall|j: int| 0 <= j < i ==> framebuffer@[j] == 0,
            decreases len - i,
        {
            framebuffer.push(0);
            i = i + 1;
        }
        Self { framebuffer, width, height, pitch: width * 4 }
    }

    /// Load a byte from the framebuffer.
    pub fn load(&self, addr: u64) -> (r: u8)
        requires
            self.wf(),
            FRAMEBUFFER_BASE <= addr,
            fb_index(addr) < self.framebuffer@.len(),
        ensures
            r == self.framebuffer@[fb_index(addr)],
    {
        let n = self.framebuffer.len();
        assert(fb_index(addr) < n);
        let index = (addr - FRAMEBUFFER_BASE) as usize;
        self.framebuffer[index]
    }

    /// Store a byte to the framebuffer.
    pub fn store(&mut self, addr: u64, value: u8)
        requires
            old(self).wf(),
            FRAMEBUFFER_BASE <= addr,
            fb_index(addr) < old(self).framebuffer@.len(),
        ensures
            final(self).wf(),
            final(self).framebuffer@ == old(self).framebuffer@.update(fb_index(addr), value),
            final(self).width == old(self).width,
            final(self).height == old(self).height,
            final(self).pitch == old(self).pitch,
    {
        let n = self.framebuffer.len();
        assert(fb_index(addr) < n);
        let index = (addr - FRAMEBUFFER_BASE) as usize;
        self.framebuffer.set(index, value);
    }

    /// Produce the display-ready buffer: one packed 32-bit value per pixel,
    /// least-significant byte first, in row-major order.
    pub fn pack_pixels(&self) -> (buffer: Vec<u32>)
        requires
            self.wf(),
        ensures
            buffer@ == packed_pixels(self.framebuffer@),
            buffer@.len() == self.width * self.height,
    {
        let n = self.framebuffer.len() / 4;
        let mut buffer: Vec<u32> = Vec::new();
        let mut i: usize = 0;
        while i < n
            invariant
                i <= n,
                n == self.framebuffer@.len() / 4,
                self.framebuffer@.len() <= usize::MAX,
                buffer@.len() == i,
                forall|j: int| 0 <= j < i ==> buffer@[j] == packed_pixels(self.framebuffer@)[j],
            decreases n - i,
        {
            assert(4 * i + 3 < self.framebuffer@.len());
            let offset = 4 * i;
            let b0 = self.framebuffer[offset];
            let b1 = self.framebuffer[offset + 1];
            let b2 = self.framebuffer[offset + 2];
            let b3 = self.framebuffer[offset + 3];
            let packed = (b0 as u32) | ((b1 as u32) << 8) | ((b2 as u32) << 16)
                | ((b3 as u32) << 24);
            buffer.push(packed);
            i = i + 1;
        }
        proof {
            assert(buffer@ =~= packed_pixels(self.framebuffer@));
            assert(self.framebuffer@.len() / 4 == self.width * self.height) by (nonlinear_arith)
                requires
                    self.framebuffer@.len() == self.width * self.height * 4,
            ;
        }
        buffer
    }
}

} // verus!
