//! The chaos game: a point moves halfway towards a randomly chosen vertex of a
//! fixed triangle, and each position it reaches is painted.
//!
//! Coordinates are fixed-point: a coordinate counts sub-pixel steps, `SCALE` of them
//! to a pixel, so halving stays exact down to one step.
use vstd::prelude::*;

use crate::buffer::{in_bounds, index_of, Buffer, BufferError, BufferModel, Pixel};
use crate::gradient::{fill_gradient, is_gradient};

verus! {

/// Sub-pixel steps in one pixel.
pub const SCALE: i128 = 65536;

/// Inward margin of the triangle from the buffer's edges, in pixels.
pub const BORDER: i128 = 20;

/// No coordinate that the game reaches is further than this from zero.
pub const COORD_LIMIT: i128 = 0x1_0000_0000_0000_0000_0000;

/// A point in buffer space, in sub-pixel steps.
#[derive(Clone, Copy, Debug, PartialEq, Eq, Structural)]
pub struct Point {
    pub x: i128,
    pub y: i128,
}

impl Point {
    /// The point `(x, y)`, given in sub-pixel steps.
    pub fn new(x: i128, y: i128) -> (r: Point)
        ensures
            r == (Point { x, y }),
    {
        Point { x, y }
    }
}

/// Whether both coordinates lie within `COORD_LIMIT` of zero.
pub open spec fn point_in_range(p: Point) -> bool {
    -COORD_LIMIT <= p.x <= COORD_LIMIT && -COORD_LIMIT <= p.y <= COORD_LIMIT
}

/// The triangle of a `width` by `height` buffer: the apex at `(width / 2, BORDER)`,
/// then `(BORDER, height - BORDER)` and `(width - BORDER, height - BORDER)`.
pub open spec fn triangle(width: nat, height: nat) -> Seq<Point> {
    seq![
        Point { x: (width * SCALE / 2) as i128, y: (BORDER * SCALE) as i128 },
        Point { x: (BORDER * SCALE) as i128, y: ((height - BORDER) * SCALE) as i128 },
        Point { x: ((width - BORDER) * SCALE) as i128, y: ((height - BORDER) * SCALE) as i128 },
    ]
}

/// Where the game starts: the centre of the buffer, `(width / 2, height / 2)`.
pub open spec fn start_point(width: nat, height: nat) -> Point {
    Point { x: (width * SCALE / 2) as i128, y: (height * SCALE / 2) as i128 }
}

/// Half of `a`, rounded down to a whole sub-pixel step.
pub open spec fn half(a: int) -> int {
    a / 2
}

/// The point halfway between `p` and `q`.
pub open spec fn midpoint(p: Point, q: Point) -> Point {
    Point { x: half(p.x + q.x) as i128, y: half(p.y + q.y) as i128 }
}

/// `c` in whole pixels, truncated towards zero.
pub open spec fn truncate(c: int) -> int {
    if c >= 0 {
        c / (SCALE as int)
    } else {
        -((-c) / (SCALE as int))
    }
}

/// The pixel that `p` falls on in a `width` by `height` buffer, if it is inside.
pub open spec fn pixel_of(p: Point, width: nat, height: nat) -> Option<(usize, usize)> {
    let x = truncate(p.x as int);
    let y = truncate(p.y as int);
    if in_bounds(width, height, x, y) {
        Some((x as usize, y as usize))
    } else {
        None
    }
}

/// The colour of a point that the game reaches.
pub open spec fn accent() -> Pixel {
    Pixel { red: 0, green: 100, blue: 0 }
}

/// The vertex that a random word picks: the word modulo 3. Words are not a
/// multiple of 3 in number, so vertex 0 is very slightly favoured.
pub open spec fn vertex_choice(random: usize) -> int {
    (random % 3) as int
}

/// The buffer `m` after the game paints the pixel that `p` falls on, if any.
pub open spec fn paint(m: BufferModel, p: Point) -> BufferModel {
    match pixel_of(p, m.width, m.height) {
        Some((x, y)) => BufferModel {
            pixels: m.pixels.update(index_of(m.width, x as int, y as int), accent()),
            ..m
        },
        None => m,
    }
}

/// Every vertex of the triangle of a buffer whose sides fit in `usize` is within range.
pub proof fn lemma_triangle_in_range(width: nat, height: nat)
    requires
        width <= usize::MAX,
        height <= usize::MAX,
    ensures
        forall|i: int| 0 <= i < 3 ==> point_in_range(#[trigger] triangle(width, height)[i]),
{
}

/// The three vertices for a `width` by `height` buffer.
pub fn make_triangle(width: usize, height: usize) -> (r: [Point; 3])
    ensures
        r@ == triangle(width as nat, height as nat),
        forall|i: int| 0 <= i < 3 ==> point_in_range(#[trigger] r@[i]),
{
    let w = width as i128;
    let h = height as i128;
    let r = [
        Point { x: w * SCALE / 2, y: BORDER * SCALE },
        Point { x: BORDER * SCALE, y: (h - BORDER) * SCALE },
        Point { x: (w - BORDER) * SCALE, y: (h - BORDER) * SCALE },
    ];
    assert(r@ =~= triangle(width as nat, height as nat));
    r
}

/// The centre of a `width` by `height` buffer.
pub fn make_start(width: usize, height: usize) -> (r: Point)
    ensures
        r == start_point(width as nat, height as nat),
        point_in_range(r),
{
    let w = width as i128;
    let h = height as i128;
    Point { x: w * SCALE / 2, y: h * SCALE / 2 }
}

/// Half of `a`, rounded down.
fn halve(a: i128) -> (r: i128)
    requires
        -2 * COORD_LIMIT <= a <= 2 * COORD_LIMIT,
    ensures
        r == half(a as int),
{
    if a >= 0 {
        a / 2
    } else {
        let n: i128 = -a;
        let q: i128 = (n + 1) / 2;
        proof {
            assert(-q == (a as int) / 2) by (nonlinear_arith)
                requires
                    n == -a,
                    a < 0,
                    q == (n + 1) / 2,
            ;
        }
        -q
    }
}

/// The point halfway between `p` and `q`.
pub fn move_halfway(p: Point, q: Point) -> (r: Point)
    requires
        point_in_range(p),
        point_in_range(q),
    ensures
        r == midpoint(p, q),
        point_in_range(r),
{
    Point { x: halve(p.x + q.x), y: halve(p.y + q.y) }
}

/// `c` in whole pixels, truncated towards zero.
fn to_pixels(c: i128) -> (r: i128)
    requires
        -COORD_LIMIT <= c <= COORD_LIMIT,
    ensures
        r == truncate(c as int),
{
    if c >= 0 {
        c / SCALE
    } else {
        let n: i128 = -c;
        -(n / SCALE)
    }
}

/// The pixel that `p` falls on in a `width` by `height` buffer, if it is inside.
pub fn locate(p: Point, width: usize, height: usize) -> (r: Option<(usize, usize)>)
    requires
        point_in_range(p),
    ensures
        r == pixel_of(p, width as nat, height as nat),
{
    let x = to_pixels(p.x);
    let y = to_pixels(p.y);
    if 0 <= x && x < width as i128 && 0 <= y && y < height as i128 {
        Some((x as usize, y as usize))
    } else {
        None
    }
}

/// What a renderer holds: its buffer, its triangle and the current point.
pub struct RendererModel {
    pub buffer: BufferModel,
    pub vertices: Seq<Point>,
    pub current: Point,
}

/// The renderer `m` after one move driven by the word `random`.
pub open spec fn step_model(m: RendererModel, random: usize) -> RendererModel {
    let p = midpoint(m.current, m.vertices[vertex_choice(random)]);
    RendererModel { buffer: paint(m.buffer, p), vertices: m.vertices, current: p }
}

/// The value of the linear form `a * x + b * y + c` at `p`; the half-plane where it is
/// not negative is the one the form describes.
pub open spec fn side(a: int, b: int, c: int, p: Point) -> int {
    a * p.x + b * p.y + c
}

/// The largest amount by which one rounded halving can lower the form `a, b`.
pub open spec fn rounding_slack(a: int, b: int) -> int {
    (if a >= 0 { a } else { -a }) + (if b >= 0 { b } else { -b })
}

/// Each move draws the point onto the triangle: for any half-plane that holds all
/// three vertices, the amount by which the point lies outside it is at least halved,
/// up to the rounding of one halving. So a point within that rounding of the
/// half-plane stays within it, and points from afar converge onto the triangle.
pub proof fn lemma_move_converges(r: &Renderer, random: usize, a: int, b: int, c: int)
    requires
        r.wf(),
        forall|j: int| 0 <= j < 3 ==> side(a, b, c, #[trigger] r@.vertices[j]) >= 0,
    ensures
        2 * side(a, b, c, step_model(r@, random).current) >= side(a, b, c, r@.current)
            - rounding_slack(a, b),
        side(a, b, c, r@.current) >= -rounding_slack(a, b) ==> side(
            a,
            b,
            c,
            step_model(r@, random).current,
        ) >= -rounding_slack(a, b),
{
    let m = r@;
    r.buffer.lemma_wf();
    lemma_triangle_in_range(r.buffer@.width, r.buffer@.height);
    let p = m.current;
    let v = m.vertices[vertex_choice(random)];
    let q = step_model(m, random).current;
    assert(0 <= vertex_choice(random) < 3);
    assert(side(a, b, c, v) >= 0);
    assert(point_in_range(v));
    let ex = (p.x + v.x) - 2 * q.x;
    let ey = (p.y + v.y) - 2 * q.y;
    assert(ex == 0 || ex == 1);
    assert(ey == 0 || ey == 1);
    assert(2 * side(a, b, c, q) == side(a, b, c, p) + side(a, b, c, v) - a * ex - b * ey)
        by (nonlinear_arith)
        requires
            ex == (p.x + v.x) - 2 * q.x,
            ey == (p.y + v.y) - 2 * q.y,
    ;
    assert(a * ex <= (if a >= 0 { a } else { -a })) by (nonlinear_arith)
        requires
            ex == 0 || ex == 1,
    ;
    assert(b * ey <= (if b >= 0 { b } else { -b })) by (nonlinear_arith)
        requires
            ey == 0 || ey == 1,
    ;
}

/// A chaos game in progress over its own buffer.
pub struct Renderer {
    buffer: Buffer,
    vertices: [Point; 3],
    current: Point,
}

impl View for Renderer {
    type V = RendererModel;

    closed spec fn view(&self) -> RendererModel {
        RendererModel { buffer: self.buffer@, vertices: self.vertices@, current: self.current }
    }
}

impl Renderer {
    /// The buffer is well formed, the triangle is the one its size gives, and the
    /// current point is within range.
    pub closed spec fn wf(&self) -> bool {
        &&& self.buffer.wf()
        &&& self.vertices@ == triangle(self.buffer@.width, self.buffer@.height)
        &&& point_in_range(self.current)
    }

    /// A renderer over a `width` by `height` buffer painted with the background,
    /// with its triangle set up and the current point at the buffer's centre.
    ///
    /// Fails as `Buffer::new` does.
    pub fn new(width: usize, height: usize) -> (r: Result<Renderer, BufferError>)
        ensures
            width == 0 || height == 0 <==> r == Err::<Renderer, BufferError>(
                BufferError::InvalidDimensions,
            ),
            r == Err::<Renderer, BufferError>(BufferError::TooLarge) <==> (width > 0 && height > 0
                && width * height > usize::MAX),
            r matches Ok(g) ==> {
                &&& g.wf()
                &&& is_gradient(g@.buffer, width as nat, height as nat)
                &&& g@.vertices == triangle(width as nat, height as nat)
                &&& g@.current == start_point(width as nat, height as nat)
            },
    {
        let mut buffer = match Buffer::new(width, height) {
            Ok(b) => b,
            Err(e) => {
                return Err(e);
            },
        };
        fill_gradient(&mut buffer);
        let vertices = make_triangle(width, height);
        let current = make_start(width, height);
        Ok(Renderer { buffer, vertices, current })
    }

    /// One move of the game. The word `random` picks vertex `random % 3`; the current
    /// point moves halfway towards it, and the pixel it lands on, if inside the
    /// buffer, takes the accent colour.
    pub fn step(&mut self, random: usize)
        requires
            old(self).wf(),
        ensures
            final(self).wf(),
            final(self)@ == step_model(old(self)@, random),
    {
        proof {
            self.buffer.lemma_wf();
            lemma_triangle_in_range(self.buffer@.width, self.buffer@.height);
        }
        let v = self.vertices[random % 3];
        let p = move_halfway(self.current, v);
        self.current = p;
        proof {
            self.buffer.lemma_wf();
        }
        match locate(p, self.buffer.width(), self.buffer.height()) {
            Some((x, y)) => {
                match self.buffer.pixel(x, y) {
                    Some(px) => {
                        *px = Pixel { red: 0, green: 100, blue: 0 };
                    },
                    None => {},
                }
            },
            None => {},
        }
    }

    /// The buffer being painted.
    pub fn buffer(&self) -> (r: &Buffer)
        requires
            self.wf(),
        ensures
            r.wf(),
            r@ == self@.buffer,
    {
        &self.buffer
    }

    /// The three vertices of the triangle.
    pub fn vertices(&self) -> (r: [Point; 3])
        ensures
            r@ == self@.vertices,
    {
        self.vertices
    }

    /// The current point.
    pub fn current(&self) -> (r: Point)
        ensures
            r == self@.current,
    {
        self.current
    }
}

} // verus!
