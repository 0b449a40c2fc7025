//! A game in play: who controls each side, and when the computer moves.

use crate::color::Color;
use crate::game::{Game, Position};
use crate::point::Pt;
use crate::selector::is_best;
use vstd::prelude::*;

verus! {

/// How long the computer waits before it answers a move, in milliseconds.
pub const MOVE_DELAY_MS: u32 = 120;

/// How long the computer waits before it moves for a side that was just
/// handed to it, in milliseconds.
pub const TOGGLE_DELAY_MS: u32 = 80;

/// Who plays a side.
#[derive(Copy, Clone, PartialEq, Eq, Debug, Structural)]
pub enum Controller {
    Human,
    AI,
}

/// What a press of the pointer has hit.
#[derive(Copy, Clone, PartialEq, Eq, Debug, Structural)]
pub enum Target {
    /// The switch that hands a side to the other controller.
    Switch(Color),
    /// A cell of the board.
    Cell(Pt),
}

/// What the driver has to do after an event.
#[derive(Copy, Clone, PartialEq, Eq, Debug, Structural)]
pub struct Outcome {
    /// Whether anything that is drawn has changed.
    pub redraw: bool,
    /// `Some(ms)`: the computer's next move is due `ms` milliseconds from
    /// now. `None`: the time that was set before stands.
    pub timer: Option<u32>,
}

impl Outcome {
    /// Nothing to do.
    pub open spec fn nothing() -> Outcome {
        Outcome { redraw: false, timer: None }
    }
}

/// The state of a session, as its rules see it.
#[verifier::ext_equal]
pub struct SessionView {
    pub game: Position,
    pub black: Controller,
    pub white: Controller,
    /// Whether a move of the computer is pending.
    pub want_ai: bool,
}

impl SessionView {
    /// A session at its start: a new game, Black played by a human and
    /// White by the computer.
    pub open spec fn initial() -> SessionView {
        SessionView {
            game: Position::initial(),
            black: Controller::Human,
            white: Controller::AI,
            want_ai: false,
        }
    }

    /// Who plays `side`.
    pub open spec fn controller(self, side: Color) -> Controller {
        match side {
            Color::Black => self.black,
            Color::White => self.white,
        }
    }

    /// Whether the computer is to move: the game is not over and the side
    /// on turn is the computer's.
    pub open spec fn ai_turn(self) -> bool {
        self.game.winner is None && self.controller(self.game.player) == Controller::AI
    }

    /// Sets the pending flag after a move or a restart: a move of the
    /// computer is pending exactly when the computer is to move, and then
    /// it is due after the usual delay.
    pub open spec fn paced(self) -> (SessionView, Outcome) {
        if self.ai_turn() {
            (
                SessionView { want_ai: true, ..self },
                Outcome { redraw: true, timer: Some(MOVE_DELAY_MS) },
            )
        } else {
            (SessionView { want_ai: false, ..self }, Outcome { redraw: true, timer: None })
        }
    }

    /// The game starts over; the controllers stay.
    pub open spec fn restarted(self) -> (SessionView, Outcome) {
        (SessionView { game: self.game.reset(), ..self }).paced()
    }

    /// The side `side` goes to the other controller. Where that side is on
    /// turn and now the computer's, its move becomes pending.
    pub open spec fn switched(self, side: Color) -> (SessionView, Outcome) {
        let flipped = match self.controller(side) {
            Controller::Human => Controller::AI,
            Controller::AI => Controller::Human,
        };
        let s = match side {
            Color::Black => SessionView { black: flipped, ..self },
            Color::White => SessionView { white: flipped, ..self },
        };
        if s.game.player == side && flipped == Controller::AI {
            (
                SessionView { want_ai: true, ..s },
                Outcome { redraw: true, timer: Some(TOGGLE_DELAY_MS) },
            )
        } else {
            (s, Outcome { redraw: true, timer: None })
        }
    }

    /// A human asks for a stone on `p`. Nothing happens unless the side on
    /// turn is a human's and the move is legal; after the move the
    /// computer's answer becomes pending where it is the computer's turn.
    pub open spec fn placed(self, p: Pt) -> (SessionView, Outcome) {
        if self.controller(self.game.player) == Controller::Human && self.game.legal(p) {
            let s = SessionView { game: self.game.attempt(p), ..self };
            if s.ai_turn() {
                (
                    SessionView { want_ai: true, ..s },
                    Outcome { redraw: true, timer: Some(MOVE_DELAY_MS) },
                )
            } else {
                (s, Outcome { redraw: true, timer: None })
            }
        } else {
            (self, Outcome::nothing())
        }
    }

    /// A press of the pointer: on a finished game it starts a new one,
    /// whatever it hit; otherwise it works the switch or asks for a stone.
    pub open spec fn pressed(self, t: Target) -> (SessionView, Outcome) {
        if self.game.winner is Some {
            self.restarted()
        } else {
            match t {
                Target::Switch(side) => self.switched(side),
                Target::Cell(p) => self.placed(p),
            }
        }
    }

    /// The computer puts its stone on `p`; another move becomes pending
    /// where the computer is to move again.
    pub open spec fn answered(self, p: Pt) -> (SessionView, Outcome) {
        (SessionView { game: self.game.attempt(p), ..self }).paced()
    }

    /// Whether the move selector may choose `p`, with the score `s`, for the
    /// side on turn.
    pub open spec fn chosen(self, p: Pt, s: i32) -> bool {
        is_best(self.game.stones, self.game.frontier, self.game.player, Some((p, s)))
    }

    /// Whether `(post, out)` is a right result of a tick in the state
    /// `self`: nothing happens unless a move of the computer is pending, due
    /// and still the computer's to make; then the computer plays a cell
    /// that the move selector may choose, or gives up where there is none.
    pub open spec fn ticked(self, due: bool, post: SessionView, out: Outcome) -> bool {
        if self.ai_turn() && self.want_ai && due {
            if self.game.frontier.is_empty() {
                post == (SessionView { want_ai: false, ..self }) && out == Outcome::nothing()
            } else {
                exists|p: Pt, s: i32|
                    #![trigger self.chosen(p, s)]
                    self.chosen(p, s) && (post, out) == self.answered(p)
            }
        } else {
            post == self && out == Outcome::nothing()
        }
    }
}

/// A game together with who plays each side and whether a move of the
/// computer is pending. The driver feeds it events and does what the
/// outcome says; it keeps the time at which the pending move is due.
pub struct Session {
    game: Game,
    ctrl_black: Controller,
    ctrl_white: Controller,
    want_ai: bool,
}

impl View for Session {
    type V = SessionView;

    closed spec fn view(&self) -> SessionView {
        SessionView {
            game: self.game@,
            black: self.ctrl_black,
            white: self.ctrl_white,
            want_ai: self.want_ai,
        }
    }
}

impl Session {
    /// A session at its start.
    pub fn new() -> (s: Session)
        ensures
            s@ == SessionView::initial(),
    {
        Session {
            game: Game::new(),
            ctrl_black: Controller::Human,
            ctrl_white: Controller::AI,
            want_ai: false,
        }
    }

    /// The game.
    pub fn game(&self) -> (g: &Game)
        ensures
            g@ == self@.game,
    {
        &self.game
    }

    /// Who plays `side`.
    pub fn controller(&self, side: Color) -> (c: Controller)
        ensures
            c == self@.controller(side),
    {
        match side {
            Color::Black => self.ctrl_black,
            Color::White => self.ctrl_white,
        }
    }

    /// Whether a human plays `side`.
    pub fn is_human(&self, side: Color) -> (b: bool)
        ensures
            b == (self@.controller(side) == Controller::Human),
    {
        match self.controller(side) {
            Controller::Human => true,
            Controller::AI => false,
        }
    }

    /// Whether the computer plays `side`.
    pub fn is_ai(&self, side: Color) -> (b: bool)
        ensures
            b == (self@.controller(side) == Controller::AI),
    {
        !self.is_human(side)
    }

    /// Whether the computer is to move.
    pub fn is_ai_turn(&self) -> (b: bool)
        ensures
            b == self@.ai_turn(),
    {
        self.game.winner().is_none() && self.is_ai(self.game.player())
    }

    /// Whether a move of the computer is pending.
    pub fn want_ai(&self) -> (b: bool)
        ensures
            b == self@.want_ai,
    {
        self.want_ai
    }

    /// Makes a move of the computer pending where the computer is to move,
    /// and drops a pending one where it is not.
    fn pace(&mut self) -> (out: Outcome)
        ensures
            (final(self)@, out) == old(self)@.paced(),
    {
        if self.is_ai_turn() {
            self.want_ai = true;
            Outcome { redraw: true, timer: Some(MOVE_DELAY_MS) }
        } else {
            self.want_ai = false;
            Outcome { redraw: true, timer: None }
        }
    }

    /// Called once when the driver starts: the computer's first move
    /// becomes pending where the computer is to move.
    pub fn begin(&mut self) -> (out: Outcome)
        ensures
            final(self)@ == (SessionView {
                want_ai: old(self)@.want_ai || old(self)@.ai_turn(),
                ..old(self)@
            }),
            out == (Outcome {
                redraw: false,
                timer: if old(self)@.ai_turn() { Some(MOVE_DELAY_MS) } else { None },
            }),
    {
        if self.is_ai_turn() {
            self.want_ai = true;
            Outcome { redraw: false, timer: Some(MOVE_DELAY_MS) }
        } else {
            Outcome { redraw: false, timer: None }
        }
    }

    /// Starts the game over and keeps the controllers.
    pub fn restart(&mut self) -> (out: Outcome)
        ensures
            (final(self)@, out) == old(self)@.restarted(),
    {
        self.game.reset();
        self.pace()
    }

    /// Hands `side` to the other controller.
    pub fn switch(&mut self, side: Color) -> (out: Outcome)
        ensures
            (final(self)@, out) == old(self)@.switched(side),
    {
        let flipped: Controller = match self.controller(side) {
            Controller::Human => Controller::AI,
            Controller::AI => Controller::Human,
        };
        match side {
            Color::Black => {
                self.ctrl_black = flipped;
            },
            Color::White => {
                self.ctrl_white = flipped;
            },
        }
        if self.game.player() == side && self.is_ai(side) {
            self.want_ai = true;
            Outcome { redraw: true, timer: Some(TOGGLE_DELAY_MS) }
        } else {
            Outcome { redraw: true, timer: None }
        }
    }

    /// A human asks for a stone on `p`.
    pub fn place(&mut self, p: Pt) -> (out: Outcome)
        ensures
            (final(self)@, out) == old(self)@.placed(p),
    {
        if !self.is_human(self.game.player()) {
            return Outcome { redraw: false, timer: None };
        }
        if self.game.play(p) {
            if self.is_ai_turn() {
                self.want_ai = true;
                Outcome { redraw: true, timer: Some(MOVE_DELAY_MS) }
            } else {
                Outcome { redraw: true, timer: None }
            }
        } else {
            Outcome { redraw: false, timer: None }
        }
    }

    /// A press of the pointer that hit `t`.
    pub fn press(&mut self, t: Target) -> (out: Outcome)
        ensures
            (final(self)@, out) == old(self)@.pressed(t),
    {
        if self.game.winner().is_some() {
            return self.restart();
        }
        match t {
            Target::Switch(side) => self.switch(side),
            Target::Cell(p) => self.place(p),
        }
    }

    /// One step of the driver's loop; `due` says whether the time set for
    /// the computer's move has come.
    pub fn tick(&mut self, due: bool) -> (out: Outcome)
        ensures
            old(self)@.ticked(due, final(self)@, out),
    {
        if !self.is_ai_turn() || !self.want_ai || !due {
            return Outcome { redraw: false, timer: None };
        }
        match self.game.best_move(self.game.player()) {
            Some((p, s)) => {
                self.game.play(p);
                let out: Outcome = self.pace();
                proof {
                    let pre = old(self)@;
                    assert(pre.game.frontier.contains(p));
                    assert(pre.chosen(p, s));
                    assert((self@, out) == pre.answered(p));
                }
                out
            },
            None => {
                self.want_ai = false;
                Outcome { redraw: false, timer: None }
            },
        }
    }
}

} // verus!
