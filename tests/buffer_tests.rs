use sierpinski::buffer::{Buffer, BufferError, Pixel};
use sierpinski::gradient::{channel_level, fill_gradient};

fn black() -> Pixel {
    Pixel::new(0, 0, 0)
}

#[test]
fn new_buffer_is_black_and_bounds_checked() {
    for (w, h) in [(2usize, 2usize), (5, 3), (3, 7)] {
        let mut b = Buffer::new(w, h).unwrap();
        assert_eq!(b.width(), w);
        assert_eq!(b.height(), h);
        assert_eq!(b.pixels().len(), w * h);
        assert!(b.pixels().iter().all(|p| *p == black()));
        for y in 0..h + 2 {
            for x in 0..w + 2 {
                let inside = x < w && y < h;
                match b.pixel(x, y) {
                    Some(p) => {
                        assert!(inside);
                        assert_eq!(*p, black());
                    }
                    None => assert!(!inside),
                }
            }
        }
        assert!(b.pixel(usize::MAX, 0).is_none());
        assert!(b.pixel(0, usize::MAX).is_none());
    }
}

#[test]
fn pixel_writes_row_major() {
    let mut b = Buffer::new(4, 3).unwrap();
    *b.pixel(1, 2).unwrap() = Pixel::new(1, 2, 3);
    assert_eq!(b.pixels()[2 * 4 + 1], Pixel::new(1, 2, 3));
    let others = b.pixels().iter().filter(|p| **p == black()).count();
    assert_eq!(others, 11);
}

#[test]
fn column_past_width_is_absent_not_next_row() {
    let mut b = Buffer::new(4, 3).unwrap();
    assert!(b.pixel(4, 0).is_none());
    assert!(b.pixel(0, 3).is_none());
}

#[test]
fn zero_dimension_is_invalid() {
    assert_eq!(Buffer::new(0, 5).err(), Some(BufferError::InvalidDimensions));
    assert_eq!(Buffer::new(5, 0).err(), Some(BufferError::InvalidDimensions));
    assert_eq!(Buffer::new(0, 0).err(), Some(BufferError::InvalidDimensions));
}

#[test]
fn overflowing_size_is_too_large() {
    assert_eq!(Buffer::new(usize::MAX, 2).err(), Some(BufferError::TooLarge));
    assert_eq!(Buffer::new(2, usize::MAX / 2 + 1).err(), Some(BufferError::TooLarge));
}

#[test]
fn present_twice_hands_over_same_frame() {
    let mut b = Buffer::new(6, 4).unwrap();
    fill_gradient(&mut b);
    let first: Vec<Pixel> = b.pixels().to_vec();
    let second: Vec<Pixel> = b.pixels().to_vec();
    assert_eq!(first, second);
    assert_eq!(first.len(), 24);
}

#[test]
fn gradient_corners_of_square_buffer() {
    let mut b = Buffer::new(100, 100).unwrap();
    fill_gradient(&mut b);
    assert_eq!(*b.pixel(0, 0).unwrap(), Pixel::new(0, 0, 255));
    assert_eq!(*b.pixel(99, 99).unwrap(), Pixel::new(255, 255, 255));
    assert_eq!(*b.pixel(99, 0).unwrap(), Pixel::new(0, 255, 255));
    assert_eq!(*b.pixel(0, 99).unwrap(), Pixel::new(255, 0, 255));
    // 255 * 50 / 99 = 128.79.. rounds to 129
    assert_eq!(*b.pixel(50, 10).unwrap(), Pixel::new(26, 129, 255));
}

#[test]
fn gradient_levels_round_to_nearest() {
    assert_eq!(channel_level(0, 100), 0);
    assert_eq!(channel_level(99, 100), 255);
    assert_eq!(channel_level(1, 3), 128);
    assert_eq!(channel_level(1, 4), 85);
    assert_eq!(channel_level(2, 4), 170);
    assert_eq!(channel_level(usize::MAX - 1, usize::MAX), 255);
}

#[test]
fn gradient_single_row_and_column() {
    assert_eq!(channel_level(0, 1), 0);
    let mut b = Buffer::new(1, 1).unwrap();
    fill_gradient(&mut b);
    assert_eq!(b.pixels(), &[Pixel::new(0, 0, 255)][..]);
    let mut row = Buffer::new(3, 1).unwrap();
    fill_gradient(&mut row);
    assert_eq!(
        row.pixels(),
        &[Pixel::new(0, 0, 255), Pixel::new(0, 128, 255), Pixel::new(0, 255, 255)][..]
    );
}
