use raytracer::arith::{ISqrt, Sqrt};
use raytracer::buffer::{ImageBuffer, Pixel};
use raytracer::chunks::{chunk_count, dump_interval_secs, section_bounds};

/// The chunk partition covers every column exactly once, over a spread of
/// widths and chunk sizes.
#[test]
fn sections_cover_every_column_exactly_once() {
    for &width in &[1usize, 2, 5, 15, 16, 17, 32, 33, 100, 250, 251] {
        for &chunk_size in &[1usize, 2, 7, 16, 64, 1000] {
            let n = chunk_count(width, chunk_size);
            let mut owners = vec![0usize; width];
            for section in 0..n {
                let (start, end) = section_bounds(section, n, width);
                assert!(end <= width);
                for x in start..end.max(start) {
                    owners[x] += 1;
                }
            }
            for (x, &count) in owners.iter().enumerate() {
                assert_eq!(count, 1, "column {x} of width {width}, chunk size {chunk_size}");
            }
        }
    }
}

#[test]
fn chunk_count_is_the_ceiling() {
    assert_eq!(chunk_count(250, 16), 16);
    assert_eq!(chunk_count(256, 16), 16);
    assert_eq!(chunk_count(257, 16), 17);
    assert_eq!(chunk_count(1, 16), 1);
    assert_eq!(chunk_count(16, 16), 1);
}

#[test]
fn dump_interval_scales_with_the_frame() {
    assert_eq!(dump_interval_secs(250), 10);
    assert_eq!(dump_interval_secs(500), 20);
    assert_eq!(dump_interval_secs(100), 4);
    assert_eq!(dump_interval_secs(0), 0);
}

/// A buffer holds exactly one entry per pixel of its frame.
#[test]
fn buffer_has_one_entry_per_pixel() {
    let b = ImageBuffer::new(320, 200);
    assert_eq!(b.width, 320);
    assert_eq!(b.height, 200);
    assert_eq!(b.data.len(), 320 * 200);
    for p in &b.data {
        assert_eq!(*p, Pixel { x: 0, y: 0, z: 0 });
    }
}

#[test]
fn set_pixel_writes_row_major() {
    let mut b = ImageBuffer::new(4, 3);
    let p = Pixel { x: 1.0f64.to_bits(), y: 0.5f64.to_bits(), z: 0.25f64.to_bits() };
    b.set_pixel(2, 1, p);
    assert_eq!(b.get_pixel(2, 1), p);
    assert_eq!(b.data[2 + 4 * 1], p);
    assert_eq!(b.get_pixel(0, 0), Pixel { x: 0, y: 0, z: 0 });
    assert_eq!(b.data.len(), 12);
}

/// Tone mapping scales by the brightest channel: with the buffer's maximum
/// in hand, every scaled channel lands in the 8-bit range.
#[test]
fn brightest_channel_bounds_the_tone_mapped_bytes() {
    let mut b = ImageBuffer::new(2, 2);
    let values = [
        (0.25f64, 0.5f64, 0.125f64),
        (2.0, 0.0, 1.0),
        (0.75, 1.5, 0.25),
        (0.1, 0.2, 0.3),
    ];
    let mut k = 0;
    for y in 0..2 {
        for x in 0..2 {
            let (r, g, bl) = values[k];
            k += 1;
            b.set_pixel(x, y, Pixel { x: r.to_bits(), y: g.to_bits(), z: bl.to_bits() });
        }
    }
    let max_bits = b.brightest_channel().unwrap();
    let max = f64::from_bits(max_bits);
    assert_eq!(max, 2.0);
    for p in &b.data {
        for c in [p.x, p.y, p.z] {
            let byte = (f64::from_bits(c) / max * 255.0) as u8;
            assert!(byte <= 255);
        }
    }
}

#[test]
fn init_checks_the_frame() {
    let b = raytracer::buffer::init(320, 200).unwrap();
    assert_eq!((b.width, b.height, b.data.len()), (320, 200, 64000));
    assert!(raytracer::buffer::init(0, 10).is_none());
    assert!(raytracer::buffer::init(usize::MAX, 2).is_none());
    assert!(raytracer::buffer::init(7, 0).is_some());
}

#[test]
fn brightest_channel_of_an_empty_frame_is_none() {
    let b = ImageBuffer::new(1, 0);
    assert_eq!(b.brightest_channel(), None);
}

#[test]
fn sqrt_rounds_down() {
    assert_eq!(0u64.sqrt(), 0);
    assert_eq!(1u64.sqrt(), 1);
    assert_eq!(2u64.sqrt(), 1);
    assert_eq!(3u64.sqrt(), 1);
    assert_eq!(4u64.sqrt(), 2);
    assert_eq!(15u64.sqrt(), 3);
    assert_eq!(16u64.sqrt(), 4);
    assert_eq!(10_000_000_001u64.sqrt(), 100000);
    assert_eq!(u64::MAX.sqrt(), 0xFFFF_FFFF);
}

#[test]
fn isqrt_rounds_up() {
    // called through the trait: the standard library has an inherent
    // `isqrt` on u64 that rounds the other way
    assert_eq!(ISqrt::isqrt(&0u64), 0);
    assert_eq!(ISqrt::isqrt(&1u64), 1);
    assert_eq!(ISqrt::isqrt(&2u64), 2);
    assert_eq!(ISqrt::isqrt(&4u64), 2);
    assert_eq!(ISqrt::isqrt(&5u64), 3);
    assert_eq!(ISqrt::isqrt(&16u64), 4);
    assert_eq!(ISqrt::isqrt(&17u64), 5);
    assert_eq!(ISqrt::isqrt(&u64::MAX), 0x1_0000_0000);
}
