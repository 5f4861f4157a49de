//! The background: red follows the row, green the column, blue is full.
use vstd::prelude::*;

use crate::buffer::{in_bounds, pixel_at, Buffer, BufferModel, Pixel};

verus! {

/// `a / b` rounded to the nearest integer, halves upwards; `a >= 0`, `b > 0`.
pub open spec fn round_div(a: int, b: int) -> int {
    (2 * a + b) / (2 * b)
}

/// The channel level of position `i` along a side of `n` pixels:
/// `round(255 * i / (n - 1))`, with the denominator raised to 1 for a side of one pixel.
pub open spec fn level(i: int, n: int) -> int {
    let d = if n > 1 { n - 1 } else { 1 };
    round_div(255 * i, d)
}

/// The background colour of `(x, y)` in a `width` by `height` buffer.
pub open spec fn gradient_pixel(width: nat, height: nat, x: int, y: int) -> Pixel {
    Pixel { red: level(y, height as int) as u8, green: level(x, width as int) as u8, blue: 255 }
}

/// Whether `m` is a `width` by `height` buffer holding the background everywhere.
pub open spec fn is_gradient(m: BufferModel, width: nat, height: nat) -> bool {
    &&& m.width == width
    &&& m.height == height
    &&& m.pixels.len() == width * height
    &&& forall|x: int, y: int|
        in_bounds(width, height, x, y) ==> #[trigger] pixel_at(m, x, y) == Some(
            gradient_pixel(width, height, x, y),
        )
}

/// The level of position `i` along a side of `n` pixels, as a channel value.
pub fn channel_level(i: usize, n: usize) -> (r: u8)
    requires
        i < n,
    ensures
        r == level(i as int, n as int),
{
    let d: u128 = if n > 1 { (n - 1) as u128 } else { 1 };
    let a: u128 = i as u128;
    proof {
        assert(a <= d);
        assert(2 * (255 * a) + d <= 511 * d) by (nonlinear_arith)
            requires
                a <= d,
        ;
        assert((2 * (255 * a) + d) / (2 * d) <= 255) by (nonlinear_arith)
            requires
                2 * (255 * a) + d <= 511 * d,
                d >= 1,
        ;
    }
    let q: u128 = (510 * a + d) / (2 * d);
    q as u8
}

/// Paints the background over the whole buffer.
pub fn fill_gradient(b: &mut Buffer)
    requires
        old(b).wf(),
    ensures
        final(b).wf(),
        is_gradient(final(b)@, old(b)@.width, old(b)@.height),
{
    let width = b.width();
    let height = b.height();
    proof {
        b.lemma_wf();
    }
    let ghost w = width as nat;
    let ghost h = height as nat;
    let mut y: usize = 0;
    while y < height
        invariant
            b.wf(),
            b@.width == w,
            b@.height == h,
            w == width,
            h == height,
            y <= height,
            forall|xx: int, yy: int|
                in_bounds(w, h, xx, yy) && yy < y ==> #[trigger] pixel_at(b@, xx, yy) == Some(
                    gradient_pixel(w, h, xx, yy),
                ),
        decreases height - y,
    {
        let red = channel_level(y, height);
        let mut x: usize = 0;
        while x < width
            invariant
                b.wf(),
                b@.width == w,
                b@.height == h,
                w == width,
                h == height,
                y < height,
                x <= width,
                red == level(y as int, h as int),
                forall|xx: int, yy: int|
                    in_bounds(w, h, xx, yy) && (yy < y || (yy == y && xx < x))
                        ==> #[trigger] pixel_at(b@, xx, yy) == Some(gradient_pixel(w, h, xx, yy)),
            decreases width - x,
        {
            let green = channel_level(x, width);
            proof {
                b.lemma_wf();
            }
            let ghost before = b@;
            match b.pixel(x, y) {
                Some(p) => {
                    *p = Pixel { red, green, blue: 255 };
                },
                None => {},
            }
            proof {
                crate::buffer::lemma_index_in_range(w, h, x as int, y as int);
                assert(b@.pixels == before.pixels.update(
                    crate::buffer::index_of(w, x as int, y as int),
                    Pixel { red, green, blue: 255 },
                ));
                b.lemma_wf();
                assert forall|xx: int, yy: int|
                    in_bounds(w, h, xx, yy) && (yy < y || (yy == y && xx <= x)) implies
                    #[trigger] pixel_at(b@, xx, yy) == Some(gradient_pixel(w, h, xx, yy)) by {
                    crate::buffer::lemma_index_in_range(w, h, xx, yy);
                    if xx != x || yy != y {
                        crate::buffer::lemma_index_distinct(w, h, xx, yy, x as int, y as int);
                        assert(pixel_at(before, xx, yy) == Some(gradient_pixel(w, h, xx, yy)));
                    } else {
                        assert(gradient_pixel(w, h, xx, yy) == Pixel { red, green, blue: 255 });
                    }
                }
            }
            x = x + 1;
        }
        y = y + 1;
    }
    proof {
        b.lemma_wf();
    }
}

} // verus!
