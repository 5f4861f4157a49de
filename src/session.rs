//! One rendering session as a state machine: the caller performs each action it
//! asks for (present the buffer, draw a random word) and reports back.
use vstd::prelude::*;

use crate::buffer::{Buffer, BufferError};
use crate::chaos::{start_point, step_model, triangle, Renderer, RendererModel};
use crate::gradient::is_gradient;

verus! {

/// What the session needs done next.
#[derive(Clone, Copy, Debug, PartialEq, Eq, Structural)]
pub enum Action {
    /// Hand the buffer to the display, then call `presented`.
    Present,
    /// Draw a random word, then hand it to `random_drawn`.
    DrawRandom,
    /// The session is over.
    Finish,
}

/// What a session holds.
pub struct SessionModel {
    pub renderer: RendererModel,
    pub remaining: Option<u64>,
    pub next: Action,
}

/// The session `m` once the display has taken a frame: it finishes when no moves
/// are left, and otherwise asks for a random word.
pub open spec fn after_present(m: SessionModel) -> SessionModel {
    SessionModel {
        next: if m.remaining == Some(0u64) {
            Action::Finish
        } else {
            Action::DrawRandom
        },
        ..m
    }
}

/// The session `m` once the word `random` has been drawn: one move is made and
/// counted, and the buffer is to be presented.
pub open spec fn after_draw(m: SessionModel, random: usize) -> SessionModel {
    SessionModel {
        renderer: step_model(m.renderer, random),
        remaining: match m.remaining {
            Some(n) => Some((n - 1) as u64),
            None => None,
        },
        next: Action::Present,
    }
}

/// A rendering session: a renderer, the moves still to make (`None`: without end),
/// and the next action.
pub struct Session {
    renderer: Renderer,
    remaining: Option<u64>,
    next: Action,
}

impl View for Session {
    type V = SessionModel;

    closed spec fn view(&self) -> SessionModel {
        SessionModel { renderer: self.renderer@, remaining: self.remaining, next: self.next }
    }
}

impl Session {
    /// The renderer is well formed, and a random word is asked for only while a
    /// move is left.
    pub closed spec fn wf(&self) -> bool {
        &&& self.renderer.wf()
        &&& self.next == Action::DrawRandom ==> self.remaining != Some(0u64)
    }

    /// A session over a `width` by `height` buffer that makes `bounded_iterations`
    /// moves, or moves without end when it is `None`. The buffer starts with the
    /// background, and the first action is to present it.
    ///
    /// Fails as `Buffer::new` does.
    pub fn new(width: usize, height: usize, bounded_iterations: Option<u64>) -> (r: Result<
        Session,
        BufferError,
    >)
        ensures
            width == 0 || height == 0 <==> r == Err::<Session, BufferError>(
                BufferError::InvalidDimensions,
            ),
            r == Err::<Session, BufferError>(BufferError::TooLarge) <==> (width > 0 && height > 0
                && width * height > usize::MAX),
            r matches Ok(s) ==> {
                &&& s.wf()
                &&& is_gradient(s@.renderer.buffer, width as nat, height as nat)
                &&& s@.renderer.vertices == triangle(width as nat, height as nat)
                &&& s@.renderer.current == start_point(width as nat, height as nat)
                &&& s@.remaining == bounded_iterations
                &&& s@.next == Action::Present
            },
    {
        match Renderer::new(width, height) {
            Ok(renderer) => Ok(Session { renderer, remaining: bounded_iterations, next: Action::Present }),
            Err(e) => Err(e),
        }
    }

    /// The next action.
    pub fn action(&self) -> (r: Action)
        ensures
            r == self@.next,
    {
        self.next
    }

    /// Moves still to make; `None` when the session runs without end.
    pub fn remaining(&self) -> (r: Option<u64>)
        ensures
            r == self@.remaining,
    {
        self.remaining
    }

    /// Reports that the display took the buffer.
    pub fn presented(&mut self)
        requires
            old(self).wf(),
            old(self)@.next == Action::Present,
        ensures
            final(self).wf(),
            final(self)@ == after_present(old(self)@),
    {
        if let Some(0) = self.remaining {
            self.next = Action::Finish;
        } else {
            self.next = Action::DrawRandom;
        }
    }

    /// Hands over a random word: the renderer makes one move with it.
    pub fn random_drawn(&mut self, random: usize)
        requires
            old(self).wf(),
            old(self)@.next == Action::DrawRandom,
        ensures
            final(self).wf(),
            final(self)@ == after_draw(old(self)@, random),
    {
        self.renderer.step(random);
        self.remaining = match self.remaining {
            Some(n) => Some(n - 1),
            None => None,
        };
        self.next = Action::Present;
    }

    /// The renderer.
    pub fn renderer(&self) -> (r: &Renderer)
        ensures
            r@ == self@.renderer,
    {
        &self.renderer
    }

    /// The buffer to present.
    pub fn buffer(&self) -> (r: &Buffer)
        requires
            self.wf(),
        ensures
            r.wf(),
            r@ == self@.renderer.buffer,
    {
        self.renderer.buffer()
    }
}

/// The session `m`, from a pending present, after presenting and then drawing each
/// of `words` in turn.
pub open spec fn run_moves(m: SessionModel, words: Seq<usize>) -> SessionModel
    decreases words.len(),
{
    if words.len() == 0 {
        m
    } else {
        run_moves(after_draw(after_present(m), words[0]), words.drop_first())
    }
}

/// A session bounded to `n` moves asks for a random word after each of its first
/// `n` presents and finishes after the one that follows the `n`th move.
pub proof fn lemma_bounded_run(m: SessionModel, n: u64, words: Seq<usize>)
    requires
        m.next == Action::Present,
        m.remaining == Some(n),
        words.len() <= n,
    ensures
        run_moves(m, words).next == Action::Present,
        run_moves(m, words).remaining == Some((n - words.len()) as u64),
        words.len() < n ==> after_present(run_moves(m, words)).next == Action::DrawRandom,
        words.len() == n ==> after_present(run_moves(m, words)).next == Action::Finish,
    decreases words.len(),
{
    if words.len() > 0 {
        let m1 = after_draw(after_present(m), words[0]);
        lemma_bounded_run(m1, (n - 1) as u64, words.drop_first());
    }
}

/// A session bounded to zero moves presents the untouched background once and
/// then finishes, with no point painted.
pub proof fn lemma_zero_moves(m: SessionModel, width: nat, height: nat)
    requires
        is_gradient(m.renderer.buffer, width, height),
        m.remaining == Some(0u64),
        m.next == Action::Present,
    ensures
        after_present(m).next == Action::Finish,
        after_present(m).renderer == m.renderer,
        is_gradient(after_present(m).renderer.buffer, width, height),
{
}

} // verus!
