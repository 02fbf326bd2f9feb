use pcd8544::Buffer;

const WIDTH: usize = 84;
const HEIGHT: usize = 48;
const BUF_SIZE: usize = 504;

/// The documented coordinate transform: page-major offset, mirrored for the
/// 180 degree rotation, with the bit order inside a byte reversed as well.
fn offset_of(x: usize, y: usize) -> usize {
    BUF_SIZE - 1 - ((y / 8) * WIDTH + x)
}

fn mask_of(y: usize) -> u8 {
    0x80u8 >> (y % 8)
}

#[test]
fn new_is_all_off() {
    let b = Buffer::new();
    assert_eq!(b.bytes().len(), BUF_SIZE);
    assert!(b.bytes().iter().all(|&v| v == 0));
}

#[test]
fn set_pixel_reads_back_and_is_isolated() {
    for y in 0..HEIGHT {
        for x in 0..WIDTH {
            let mut b = Buffer::new();
            b.set_pixel(x as i32, y as i32, true);
            let bytes = b.bytes();
            assert_ne!(bytes[offset_of(x, y)] & mask_of(y), 0);
            let ones: u32 = bytes.iter().map(|v| v.count_ones()).sum();
            assert_eq!(ones, 1, "pixel ({}, {}) touched another bit", x, y);
            b.set_pixel(x as i32, y as i32, false);
            assert!(b.bytes().iter().all(|&v| v == 0));
        }
    }
}

#[test]
fn clearing_an_off_pixel_keeps_neighbours() {
    let mut b = Buffer::new();
    b.set_pixel(10, 10, true);
    b.set_pixel(11, 10, false);
    b.set_pixel(10, 11, false);
    let bytes = b.bytes();
    assert_ne!(bytes[offset_of(10, 10)] & mask_of(10), 0);
    let ones: u32 = bytes.iter().map(|v| v.count_ones()).sum();
    assert_eq!(ones, 1);
}

#[test]
fn clear_fills_the_whole_buffer() {
    let mut b = Buffer::new();
    b.clear(true);
    assert!(b.bytes().iter().all(|&v| v == 0xFF));
    b.clear(false);
    assert!(b.bytes().iter().all(|&v| v == 0x00));
}

#[test]
fn corner_transform_round_trip() {
    let mut b = Buffer::new();
    b.set_pixel(0, 0, true);
    assert_eq!(b.bytes()[BUF_SIZE - 1], 0x80);
    let mut b2 = Buffer::new();
    b2.set_pixel(83, 47, true);
    assert_eq!(b2.bytes()[0], 0x01);
}

#[test]
fn out_of_range_coordinates_are_dropped() {
    let mut b = Buffer::new();
    b.set_pixel(84, 0, true);
    b.set_pixel(0, 48, true);
    b.set_pixel(-1, 0, true);
    b.set_pixel(0, -1, true);
    b.set_pixel(i32::MAX, i32::MAX, true);
    b.set_pixel(i32::MIN, i32::MIN, true);
    assert!(b.bytes().iter().all(|&v| v == 0));
}
