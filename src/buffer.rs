//! An owned, row-major RGB pixel buffer with bounds-checked access.
use vstd::prelude::*;

verus! {

/// One RGB pixel.
#[derive(Clone, Copy, Debug, PartialEq, Eq, Structural)]
pub struct Pixel {
    pub red: u8,
    pub green: u8,
    pub blue: u8,
}

impl Pixel {
    /// A pixel of the given channels.
    pub fn new(red: u8, green: u8, blue: u8) -> (r: Pixel)
        ensures
            r == (Pixel { red, green, blue }),
    {
        Pixel { red, green, blue }
    }
}

/// The colour every pixel of a fresh buffer holds.
pub open spec fn black() -> Pixel {
    Pixel { red: 0, green: 0, blue: 0 }
}

/// Why a buffer could not be made.
#[derive(Clone, Copy, Debug, PartialEq, Eq, Structural)]
pub enum BufferError {
    /// The width or the height is zero.
    InvalidDimensions,
    /// `width * height` does not fit in `usize`.
    TooLarge,
}

/// What a buffer holds: its size and its pixels, row by row.
pub struct BufferModel {
    pub width: nat,
    pub height: nat,
    pub pixels: Seq<Pixel>,
}

/// Position of `(x, y)` in the row-major pixel sequence.
pub open spec fn index_of(width: nat, x: int, y: int) -> int {
    y * width + x
}

/// Whether `(x, y)` lies inside a `width` by `height` rectangle.
pub open spec fn in_bounds(width: nat, height: nat, x: int, y: int) -> bool {
    0 <= x < width && 0 <= y < height
}

/// The pixel at `(x, y)`, if it is inside the buffer.
pub open spec fn pixel_at(m: BufferModel, x: int, y: int) -> Option<Pixel> {
    if in_bounds(m.width, m.height, x, y) {
        Some(m.pixels[index_of(m.width, x, y)])
    } else {
        None
    }
}

/// Inside a `width`-wide rectangle, the row-major index of a point is below `width * height`.
pub proof fn lemma_index_in_range(width: nat, height: nat, x: int, y: int)
    requires
        in_bounds(width, height, x, y),
    ensures
        0 <= index_of(width, x, y) < width * height,
{
    assert(0 <= y * width + x < width * height) by (nonlinear_arith)
        requires
            0 <= x < width,
            0 <= y < height,
    ;
}

/// Two distinct points inside a rectangle have distinct row-major indices.
pub proof fn lemma_index_distinct(width: nat, height: nat, x1: int, y1: int, x2: int, y2: int)
    requires
        in_bounds(width, height, x1, y1),
        in_bounds(width, height, x2, y2),
        x1 != x2 || y1 != y2,
    ensures
        index_of(width, x1, y1) != index_of(width, x2, y2),
{
    if y1 < y2 {
        assert(y1 * width + x1 < y2 * width + x2) by (nonlinear_arith)
            requires
                0 <= x1 < width,
                0 <= x2,
                y1 < y2,
        ;
    } else if y2 < y1 {
        assert(y2 * width + x2 < y1 * width + x1) by (nonlinear_arith)
            requires
                0 <= x2 < width,
                0 <= x1,
                y2 < y1,
        ;
    }
}

/// A fresh buffer is black everywhere, and its pixels are reachable exactly at the
/// points inside it.
pub proof fn lemma_blank_pixels(width: nat, height: nat)
    ensures
        forall|x: int, y: int|
            #[trigger] pixel_at(blank(width, height), x, y) == if in_bounds(width, height, x, y) {
                Some(black())
            } else {
                None
            },
{
    assert forall|x: int, y: int|
        #[trigger] pixel_at(blank(width, height), x, y) == if in_bounds(width, height, x, y) {
            Some(black())
        } else {
            None
        } by {
        if in_bounds(width, height, x, y) {
            lemma_index_in_range(width, height, x, y);
        }
    }
}

/// Presenting reads the buffer and nothing else: two presents of an unchanged
/// buffer hand over the same width, height and pixels.
pub proof fn lemma_present_repeatable(before: &Buffer, after: &Buffer)
    requires
        before@ == after@,
    ensures
        after@.width == before@.width,
        after@.height == before@.height,
        after@.pixels == before@.pixels,
{
}

/// A `width` by `height` buffer in which every pixel is black.
pub open spec fn blank(width: nat, height: nat) -> BufferModel {
    BufferModel { width, height, pixels: Seq::new(width * height, |i: int| black()) }
}

/// An owned rectangle of pixels, stored row-major: `(x, y)` is at `y * width + x`.
pub struct Buffer {
    width: usize,
    height: usize,
    pixels: Vec<Pixel>,
}

impl View for Buffer {
    type V = BufferModel;

    closed spec fn view(&self) -> BufferModel {
        BufferModel { width: self.width as nat, height: self.height as nat, pixels: self.pixels@ }
    }
}

impl Buffer {
    /// The buffer holds exactly `width * height` pixels, and neither side is zero.
    pub closed spec fn wf(&self) -> bool {
        &&& self.pixels@.len() == self.width * self.height
        &&& self.width * self.height <= usize::MAX
        &&& self.width > 0
        &&& self.height > 0
    }

    /// Facts that every well-formed buffer offers its users.
    pub proof fn lemma_wf(&self)
        requires
            self.wf(),
        ensures
            self@.pixels.len() == self@.width * self@.height,
            self@.width > 0,
            self@.height > 0,
            self@.width * self@.height <= usize::MAX,
            self@.width <= usize::MAX,
            self@.height <= usize::MAX,
    {
    }

    /// A `width` by `height` buffer of black pixels.
    ///
    /// Fails with `InvalidDimensions` when a side is zero, and with `TooLarge` when
    /// the pixel count does not fit in `usize`.
    pub fn new(width: usize, height: usize) -> (r: Result<Buffer, BufferError>)
        ensures
            width == 0 || height == 0 <==> r == Err::<Buffer, BufferError>(
                BufferError::InvalidDimensions,
            ),
            r == Err::<Buffer, BufferError>(BufferError::TooLarge) <==> (width > 0 && height > 0
                && width * height > usize::MAX),
            r matches Ok(b) ==> b.wf() && b@ == blank(width as nat, height as nat),
    {
        if width == 0 || height == 0 {
            return Err(BufferError::InvalidDimensions);
        }
        let n = match width.checked_mul(height) {
            Some(n) => n,
            None => {
                return Err(BufferError::TooLarge);
            },
        };
        let mut pixels: Vec<Pixel> = Vec::with_capacity(n);
        let mut i: usize = 0;
        while i < n
            invariant
                i <= n,
                pixels@.len() == i,
                forall|k: int| 0 <= k < i ==> pixels@[k] == black(),
            decreases n - i,
        {
            pixels.push(Pixel { red: 0, green: 0, blue: 0 });
            i = i + 1;
        }
        let b = Buffer { width, height, pixels };
        assert(b@.pixels =~= blank(width as nat, height as nat).pixels);
        Ok(b)
    }

    /// Width in pixels.
    pub fn width(&self) -> (r: usize)
        ensures
            r == self@.width,
    {
        self.width
    }

    /// Height in pixels.
    pub fn height(&self) -> (r: usize)
        ensures
            r == self@.height,
    {
        self.height
    }

    /// The pixels, row by row, as they are handed to a display.
    pub fn pixels(&self) -> (r: &[Pixel])
        ensures
            r@ == self@.pixels,
    {
        self.pixels.as_slice()
    }

    /// Writable access to the pixel at `(x, y)`; `None` when it lies outside the buffer.
    pub fn pixel(&mut self, x: usize, y: usize) -> (r: Option<&mut Pixel>)
        requires
            old(self).wf(),
        ensures
            r is None <==> !in_bounds(old(self)@.width, old(self)@.height, x as int, y as int),
            r is None ==> *final(self) == *old(self),
            r matches Some(p) ==> {
                &&& pixel_at(old(self)@, x as int, y as int) == Some(*p)
                &&& final(self).wf()
                &&& final(self)@ == (BufferModel {
                    pixels: old(self)@.pixels.update(
                        index_of(old(self)@.width, x as int, y as int),
                        *final(p),
                    ),
                    ..old(self)@
                })
            },
    {
        if x >= self.width || y >= self.height {
            return None;
        }
        proof {
            assert(y * self.width + x < self.width * self.height) by (nonlinear_arith)
                requires
                    x < self.width,
                    y < self.height,
                    self.width * self.height <= usize::MAX,
            ;
        }
        let i = y * self.width + x;
        Some(&mut self.pixels[i])
    }
}

} // verus!
