use viisi::framebuffer::{Framebuffer, FRAMEBUFFER_BASE};

#[test]
fn new_framebuffer_dimensions_and_zero_fill() {
    let fb = Framebuffer::new(4, 3);
    assert_eq!(fb.width, 4);
    assert_eq!(fb.height, 3);
    assert_eq!(fb.pitch, 16);
    assert_eq!(fb.framebuffer.len(), 4 * 3 * 4);
    for offset in 0..(4 * 3 * 4) {
        assert_eq!(fb.load(FRAMEBUFFER_BASE + offset), 0);
    }
}

#[test]
fn store_load_roundtrip() {
    let mut fb = Framebuffer::new(8, 8);
    fb.store(FRAMEBUFFER_BASE + 5, 0xAB);
    assert_eq!(fb.load(FRAMEBUFFER_BASE + 5), 0xAB);
    assert_eq!(fb.load(FRAMEBUFFER_BASE + 4), 0, "neighbouring bytes stay untouched");
    assert_eq!(fb.load(FRAMEBUFFER_BASE + 6), 0, "neighbouring bytes stay untouched");
}

#[test]
fn packing_is_little_endian() {
    let mut fb = Framebuffer::new(2, 1);
    fb.store(FRAMEBUFFER_BASE, 0x12);
    fb.store(FRAMEBUFFER_BASE + 1, 0x34);
    fb.store(FRAMEBUFFER_BASE + 2, 0x56);
    fb.store(FRAMEBUFFER_BASE + 3, 0x78);
    let packed = fb.pack_pixels();
    assert_eq!(packed.len(), 2);
    assert_eq!(packed[0], 0x78563412);
    assert_eq!(packed[1], 0);
}

#[test]
fn first_pixel_of_full_frame() {
    let mut fb = Framebuffer::new(800, 600);
    fb.store(FRAMEBUFFER_BASE, 0xFF);
    fb.store(FRAMEBUFFER_BASE + 1, 0x00);
    fb.store(FRAMEBUFFER_BASE + 2, 0x00);
    fb.store(FRAMEBUFFER_BASE + 3, 0xFF);
    let packed = fb.pack_pixels();
    assert_eq!(packed.len(), 800 * 600);
    assert_eq!(packed[0], 0xFF0000FF);
}
