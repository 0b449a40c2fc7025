//! The rules of play: turns, legality, winning and starting over.

use crate::board::Board;
use crate::color::Color;
use crate::frontier::{candidates, near, origin_block, Frontier};
use crate::lines::{axis, five_from, five_through, lemma_five_through};
use crate::point::Pt;
use crate::selector::is_best;
use vstd::prelude::*;

verus! {

/// The state of a game, as the rules see it.
#[verifier::ext_equal]
pub struct Position {
    /// The stones on the board, each on its cell.
    pub stones: Map<Pt, Color>,
    /// The side to move; once the game is won, the winner.
    pub player: Color,
    /// The side that has made five, if any: then the game is over.
    pub winner: Option<Color>,
    /// The cell of the latest stone.
    pub last_move: Option<Pt>,
    /// The cells that the move selector considers.
    pub frontier: Set<Pt>,
}

impl Position {
    /// The position at the start: no stone, Black to move, nobody has won,
    /// and the block round the origin to choose from.
    pub open spec fn initial() -> Position {
        Position {
            stones: Map::empty(),
            player: Color::Black,
            winner: None,
            last_move: None,
            frontier: origin_block(),
        }
    }

    /// The frontier holds the candidates of the board, all of them and
    /// nothing else.
    pub open spec fn wf(self) -> bool {
        self.frontier == candidates(self.stones)
    }

    /// Whether a stone may be put on `p`: the game is not over and the cell
    /// is empty.
    pub open spec fn legal(self, p: Pt) -> bool {
        self.winner is None && !self.stones.contains_key(p)
    }

    /// The position after the side to move has put a stone on `p`. If the
    /// stone makes five, that side has won and stays on turn; otherwise the
    /// turn passes to the opponent.
    pub open spec fn after_move(self, p: Pt) -> Position {
        let stones = self.stones.insert(p, self.player);
        let won = five_through(stones, p, self.player);
        Position {
            stones,
            player: if won { self.player } else { self.player.opponent() },
            winner: if won { Some(self.player) } else { None },
            last_move: Some(p),
            frontier: candidates(stones),
        }
    }

    /// The position after an attempt to put a stone on `p`: an illegal
    /// attempt leaves it as it is.
    pub open spec fn attempt(self, p: Pt) -> Position {
        if self.legal(p) {
            self.after_move(p)
        } else {
            self
        }
    }

    /// The position after one attempt for each cell of `moves`, in order.
    pub open spec fn attempt_all(self, moves: Seq<Pt>) -> Position
        decreases moves.len(),
    {
        if moves.len() == 0 {
            self
        } else {
            self.attempt(moves[0]).attempt_all(moves.drop_first())
        }
    }

    /// The position after a reset.
    pub open spec fn reset(self) -> Position {
        Position::initial()
    }
}

/// A game of connect-five on the unbounded grid: the board, whose turn it
/// is, who has won, and the cells that the move selector considers.
pub struct Game {
    board: Board,
    player: Color,
    winner: Option<Color>,
    last_move: Option<Pt>,
    frontier: Frontier,
}

impl View for Game {
    type V = Position;

    closed spec fn view(&self) -> Position {
        Position {
            stones: self.board@,
            player: self.player,
            winner: self.winner,
            last_move: self.last_move,
            frontier: self.frontier@,
        }
    }
}

impl Game {
    /// A new game.
    pub fn new() -> (g: Game)
        ensures
            g@ == Position::initial(),
            g@.wf(),
    {
        let mut g = Game {
            board: Board::new(),
            player: Color::Black,
            winner: None,
            last_move: None,
            frontier: Frontier::new(),
        };
        g.rebuild_frontier();
        assert(g@ =~= Position::initial());
        proof {
            lemma_reset_blank(g@);
        }
        g
    }

    /// Starts over, from any state.
    pub fn reset(&mut self)
        ensures
            final(self)@ == old(self)@.reset(),
            final(self)@ == Position::initial(),
            final(self)@.wf(),
    {
        self.board.clear();
        self.player = Color::Black;
        self.winner = None;
        self.last_move = None;
        self.rebuild_frontier();
        assert(self@ =~= Position::initial());
        proof {
            lemma_reset_blank(old(self)@);
        }
    }

    /// The side to move.
    pub fn player(&self) -> (c: Color)
        ensures
            c == self@.player,
    {
        self.player
    }

    /// The side that has won, if the game is over.
    pub fn winner(&self) -> (w: Option<Color>)
        ensures
            w == self@.winner,
    {
        self.winner
    }

    /// The cell of the latest stone.
    pub fn last_move(&self) -> (p: Option<Pt>)
        ensures
            p == self@.last_move,
    {
        self.last_move
    }

    /// The board.
    pub fn board(&self) -> (b: &Board)
        ensures
            b@ == self@.stones,
    {
        &self.board
    }

    /// The cells that the move selector considers.
    pub fn frontier(&self) -> (f: &Frontier)
        ensures
            f@ == self@.frontier,
    {
        &self.frontier
    }

    /// Whether a stone may be put on `p`.
    pub fn playable(&self, p: Pt) -> (b: bool)
        ensures
            b == self@.legal(p),
    {
        self.winner.is_none() && self.board.is_empty(p)
    }

    /// Puts a stone of the side to move on `p` if that is legal, and says
    /// whether it was. An illegal attempt, on a cell that carries a stone
    /// or after the game is won, changes nothing. After a legal one the
    /// frontier is rebuilt.
    pub fn play(&mut self, p: Pt) -> (ok: bool)
        ensures
            ok == old(self)@.legal(p),
            final(self)@ == old(self)@.attempt(p),
            !ok ==> final(self)@ == old(self)@,
            ok || old(self)@.wf() ==> final(self)@.wf(),
    {
        if !self.playable(p) {
            return false;
        }
        self.board.place(p, self.player);
        self.last_move = Some(p);
        if self.board.check_win(p, self.player) {
            self.winner = Some(self.player);
        } else {
            self.player = self.player.other();
        }
        self.rebuild_frontier();
        assert(self@ =~= old(self)@.attempt(p));
        true
    }

    /// Replaces the frontier by the candidates of the board.
    fn rebuild_frontier(&mut self)
        ensures
            final(self)@ == (Position { frontier: candidates(old(self)@.stones), ..old(self)@ }),
    {
        self.frontier.rebuild(&self.board);
    }

    /// A cell of the frontier with the highest score for `who`, together
    /// with that score; `None` only where the frontier is empty.
    pub fn best_move(&self, who: Color) -> (best: Option<(Pt, i32)>)
        ensures
            is_best(self@.stones, self@.frontier, who, best),
    {
        self.frontier.best_move(&self.board, who)
    }

    /// Every stone with its cell, each once, in no particular order.
    pub fn stones(&self) -> (v: Vec<(Pt, Color)>)
        ensures
            v@.to_set() == self@.stones.kv_pairs(),
            v@.no_duplicates(),
    {
        self.board.stones()
    }
}

/// Resetting twice is resetting once.
pub proof fn lemma_reset_idempotent(s: Position)
    ensures
        s.reset().reset() == s.reset(),
{
}

/// After a reset every cell is empty, Black is to move, nobody has won, and
/// the frontier is exactly the block round the origin.
pub proof fn lemma_reset_blank(s: Position)
    ensures
        forall|p: Pt| !s.reset().stones.contains_key(p),
        forall|q: Pt| s.reset().frontier.contains(q) <==> -2 <= q.x <= 2 && -2 <= q.y <= 2,
        s.reset().player == Color::Black,
        s.reset().winner is None,
        s.reset().last_move is None,
        s.reset().wf(),
{
    assert(Map::<Pt, Color>::empty().dom() =~= Set::<Pt>::empty());
}

/// A legal move wins exactly when it completes five in a row: the winner
/// is the side that moved where, along one of the four axes, five cells in
/// a row with the new stone among them all carry that side's stones, and
/// the game goes on otherwise.
pub proof fn lemma_move_wins_exactly(s: Position, p: Pt)
    requires
        s.legal(p),
    ensures
        s.attempt(p).winner == (if exists|i: int, k: int|
            0 <= i < 4 && -4 <= k <= 0 && #[trigger] five_from(
                s.stones.insert(p, s.player),
                p,
                axis(i),
                k,
                s.player,
            ) {
            Some(s.player)
        } else {
            None
        }),
{
    lemma_five_through(s.stones.insert(p, s.player), p, s.player);
}

/// In a well-formed position the frontier holds every empty cell within
/// two columns and two rows of a stone, and no cell that carries a stone.
pub proof fn lemma_frontier_complete(s: Position)
    requires
        s.wf(),
    ensures
        forall|p: Pt, q: Pt|
            s.stones.contains_key(p) && #[trigger] near(p, q) && !s.stones.contains_key(q)
                ==> s.frontier.contains(q),
        forall|q: Pt| s.stones.contains_key(q) ==> !s.frontier.contains(q),
{
    assert forall|q: Pt| s.stones.contains_key(q) implies !s.frontier.contains(q) by {
        assert(s.stones.dom().contains(q));
    }
    assert forall|p: Pt, q: Pt|
        s.stones.contains_key(p) && #[trigger] near(p, q) && !s.stones.contains_key(
            q,
        ) implies s.frontier.contains(q) by {
        assert(s.stones.dom().contains(p));
    }
}

/// Every attempt leaves a well-formed position well-formed, and a legal
/// one makes any position well-formed.
pub proof fn lemma_attempt_keeps_wf(s: Position, p: Pt)
    ensures
        s.wf() ==> s.attempt(p).wf(),
        s.legal(p) ==> s.attempt(p).wf(),
{
}

/// Every position that play can reach from the start is well-formed.
pub proof fn lemma_reachable_wf(moves: Seq<Pt>)
    ensures
        Position::initial().attempt_all(moves).wf(),
{
    lemma_reset_blank(Position::initial());
    lemma_attempt_all_keeps_wf(Position::initial(), moves);
}

/// A run of attempts leaves a well-formed position well-formed.
pub proof fn lemma_attempt_all_keeps_wf(s: Position, moves: Seq<Pt>)
    requires
        s.wf(),
    ensures
        s.attempt_all(moves).wf(),
    decreases moves.len(),
{
    if moves.len() > 0 {
        lemma_attempt_keeps_wf(s, moves[0]);
        lemma_attempt_all_keeps_wf(s.attempt(moves[0]), moves.drop_first());
    }
}

/// An attempt on a cell that carries a stone is rejected: it is not legal
/// and leaves the board, the turn, the winner and all the rest as they were.
pub proof fn lemma_occupied_rejected(s: Position, p: Pt)
    requires
        s.stones.contains_key(p),
    ensures
        !s.legal(p),
        s.attempt(p) == s,
{
}

/// Once a side has won, no attempt is legal and no run of attempts changes
/// the position: only a reset does.
pub proof fn lemma_won_is_final(s: Position, moves: Seq<Pt>)
    requires
        s.winner is Some,
    ensures
        forall|p: Pt| !s.legal(p),
        s.attempt_all(moves) == s,
    decreases moves.len(),
{
    if moves.len() > 0 {
        lemma_won_is_final(s, moves.drop_first());
    }
}

/// What the move selector chooses in a well-formed position is an empty
/// cell, and a legal move as long as nobody has won.
pub proof fn lemma_best_is_empty(s: Position, who: Color, p: Pt, sc: i32)
    requires
        s.wf(),
        is_best(s.stones, s.frontier, who, Some((p, sc))),
    ensures
        !s.stones.contains_key(p),
        s.winner is None ==> s.legal(p),
{
    lemma_frontier_complete(s);
}

/// On a new game the move selector finds a move, and it lies in the block
/// round the origin, whichever of the equally good cells it takes.
pub proof fn lemma_first_move_in_block(who: Color, best: Option<(Pt, i32)>)
    requires
        is_best(Position::initial().stones, Position::initial().frontier, who, best),
    ensures
        best matches Some((p, _)) && -2 <= p.x <= 2 && -2 <= p.y <= 2,
{
    assert(origin_block().contains(Pt { x: 0, y: 0 }));
}

} // verus!
