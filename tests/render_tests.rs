use sierpinski::buffer::{BufferError, Pixel};
use sierpinski::chaos::{locate, make_start, make_triangle, move_halfway, Point, Renderer, SCALE};
use sierpinski::session::{Action, Session};

const ACCENT: Pixel = Pixel { red: 0, green: 100, blue: 0 };

fn px(x: i128, y: i128) -> Point {
    Point::new(x * SCALE, y * SCALE)
}

struct XorShift(u64);

impl XorShift {
    fn next(&mut self) -> usize {
        let mut x = self.0;
        x ^= x << 13;
        x ^= x >> 7;
        x ^= x << 17;
        self.0 = x;
        x as usize
    }
}

#[test]
fn triangle_of_200_by_100() {
    let t = make_triangle(200, 100);
    assert_eq!(t, [px(100, 20), px(20, 80), px(180, 80)]);
}

#[test]
fn triangle_of_odd_width_keeps_half_pixel() {
    let t = make_triangle(101, 60);
    assert_eq!(t[0], Point::new(101 * SCALE / 2, 20 * SCALE));
    assert_eq!(t[0].x, 50 * SCALE + SCALE / 2);
}

#[test]
fn start_is_buffer_centre() {
    assert_eq!(make_start(200, 100), px(100, 50));
    assert_eq!(make_start(3, 5), Point::new(3 * SCALE / 2, 5 * SCALE / 2));
}

#[test]
fn halfway_between_points() {
    assert_eq!(move_halfway(px(100, 50), px(20, 80)), px(60, 65));
    assert_eq!(move_halfway(Point::new(3, -3), Point::new(0, 0)), Point::new(1, -2));
    assert_eq!(move_halfway(Point::new(-5, 7), Point::new(0, 0)), Point::new(-3, 3));
}

#[test]
fn locate_truncates_towards_zero() {
    assert_eq!(locate(Point::new(3 * SCALE + SCALE - 1, 2 * SCALE), 10, 10), Some((3, 2)));
    assert_eq!(locate(Point::new(-SCALE / 2, 0), 10, 10), Some((0, 0)));
    assert_eq!(locate(Point::new(-SCALE, 0), 10, 10), None);
    assert_eq!(locate(px(10, 0), 10, 10), None);
    assert_eq!(locate(px(9, 9), 10, 10), Some((9, 9)));
}

#[test]
fn step_moves_towards_chosen_vertex_and_paints() {
    let mut r = Renderer::new(200, 100).unwrap();
    assert_eq!(r.current(), px(100, 50));
    // 4 % 3 picks the bottom-left vertex (20, 80)
    r.step(4);
    assert_eq!(r.current(), px(60, 65));
    assert_eq!(r.buffer().pixels()[65 * 200 + 60], ACCENT);
    // 3 % 3 picks the apex (100, 20)
    r.step(3);
    assert_eq!(r.current(), Point::new(80 * SCALE, 85 * SCALE / 2));
    assert_eq!(r.buffer().pixels()[42 * 200 + 80], ACCENT);
    // 5 % 3 picks the bottom-right vertex (180, 80)
    let before = r.current();
    r.step(5);
    assert_eq!(r.current(), move_halfway(before, px(180, 80)));
}

#[test]
fn step_off_buffer_paints_nothing() {
    // In a 10 by 10 buffer the apex sits at (5, 20), below the buffer.
    let mut r = Renderer::new(10, 10).unwrap();
    let background: Vec<Pixel> = r.buffer().pixels().to_vec();
    r.step(0);
    assert_eq!(r.current(), Point::new(5 * SCALE, 25 * SCALE / 2));
    assert_eq!(r.buffer().pixels(), &background[..]);
}

#[test]
fn renderer_rejects_degenerate_sizes() {
    assert_eq!(Renderer::new(0, 10).err(), Some(BufferError::InvalidDimensions));
    assert_eq!(Renderer::new(10, 0).err(), Some(BufferError::InvalidDimensions));
    assert_eq!(Session::new(0, 0, Some(3)).err(), Some(BufferError::InvalidDimensions));
    assert_eq!(Session::new(usize::MAX, 3, None).err(), Some(BufferError::TooLarge));
}

#[test]
fn zero_bounded_run_presents_background_once() {
    let mut s = Session::new(50, 40, Some(0)).unwrap();
    let mut frames: Vec<Vec<Pixel>> = Vec::new();
    let mut draws = 0;
    loop {
        match s.action() {
            Action::Present => {
                frames.push(s.buffer().pixels().to_vec());
                s.presented();
            }
            Action::DrawRandom => {
                draws += 1;
                s.random_drawn(7);
            }
            Action::Finish => break,
        }
    }
    assert_eq!(draws, 0);
    assert_eq!(frames.len(), 1);
    let background = Renderer::new(50, 40).unwrap();
    assert_eq!(&frames[0][..], background.buffer().pixels());
    assert!(!frames[0].contains(&ACCENT));
}

#[test]
fn bounded_run_presents_after_every_move() {
    let mut s = Session::new(200, 100, Some(3)).unwrap();
    let mut presents = 0;
    let mut draws = 0;
    let mut words = [4usize, 3, 5].into_iter();
    loop {
        match s.action() {
            Action::Present => {
                presents += 1;
                s.presented();
            }
            Action::DrawRandom => {
                draws += 1;
                s.random_drawn(words.next().unwrap());
            }
            Action::Finish => break,
        }
    }
    assert_eq!((presents, draws), (4, 3));
    assert_eq!(s.remaining(), Some(0));
    let px_count = s.buffer().pixels().iter().filter(|p| **p == ACCENT).count();
    assert_eq!(px_count, 3);
}

#[test]
fn unbounded_run_keeps_asking() {
    let mut s = Session::new(20, 20, None).unwrap();
    for _ in 0..100 {
        assert_eq!(s.action(), Action::Present);
        s.presented();
        assert_eq!(s.action(), Action::DrawRandom);
        s.random_drawn(1);
    }
    assert_eq!(s.remaining(), None);
}

fn inside_with_tolerance(t: &[Point; 3], x: f64, y: f64, tol: f64) -> bool {
    let p: Vec<(f64, f64)> =
        t.iter().map(|v| (v.x as f64 / SCALE as f64, v.y as f64 / SCALE as f64)).collect();
    for i in 0..3 {
        let (ax, ay) = p[i];
        let (bx, by) = p[(i + 1) % 3];
        let (cx, cy) = p[(i + 2) % 3];
        let side = |px: f64, py: f64| (bx - ax) * (py - ay) - (by - ay) * (px - ax);
        let len = ((bx - ax).powi(2) + (by - ay).powi(2)).sqrt();
        let towards_inside = side(cx, cy).signum();
        if side(x, y) * towards_inside / len < -tol {
            return false;
        }
    }
    true
}

#[test]
fn chaos_game_converges_onto_triangle() {
    let mut rng = XorShift(0x2545_f491_4f6c_dd1d);
    let mut r = Renderer::new(640, 480).unwrap();
    let t = r.vertices();
    let steps = 5000;
    let mut inside = 0;
    for _ in 0..steps {
        r.step(rng.next());
        let c = r.current();
        if let Some((x, y)) = locate(c, 640, 480) {
            assert_eq!(r.buffer().pixels()[y * 640 + x], ACCENT);
        }
        if inside_with_tolerance(&t, c.x as f64 / SCALE as f64, c.y as f64 / SCALE as f64, 1.0) {
            inside += 1;
        }
    }
    assert!(inside * 100 >= steps * 99, "{} of {} inside", inside, steps);
}
