use gomoku::board::Board;
use gomoku::color::Color;
use gomoku::frontier::Frontier;
use gomoku::game::Game;
use gomoku::point::Pt;

#[test]
fn five_in_a_row_wins_and_ends_the_game() {
    let mut g = Game::new();
    let black = [(0, 0), (1, 0), (2, 0), (3, 0), (4, 0)];
    let white = [(0, 1), (0, 2), (0, 3), (0, 4)];
    for k in 0..5 {
        assert_eq!(g.player(), Color::Black);
        assert!(g.play(Pt::new(black[k].0, black[k].1)));
        if k < 4 {
            assert_eq!(g.winner(), None);
            assert_eq!(g.player(), Color::White);
            assert!(g.play(Pt::new(white[k].0, white[k].1)));
        }
    }
    assert_eq!(g.winner(), Some(Color::Black));
    assert!(!g.play(Pt::new(5, 0)));
    assert!(!g.play(Pt::new(0, 5)));
    assert!(!g.play(Pt::new(0, 0)));
    assert_eq!(g.winner(), Some(Color::Black));
    assert_eq!(g.stones().len(), 9);
}

#[test]
fn first_move_is_chosen_from_the_origin_block() {
    let g = Game::new();
    let (p, s) = g.best_move(Color::Black).unwrap();
    assert!(-2 <= p.x && p.x <= 2);
    assert!(-2 <= p.y && p.y <= 2);
    assert!(g.frontier().contains(p));
    // On the empty board every cell scores four open singles.
    assert_eq!(s, 200);
}

#[test]
fn row_of_four_is_completed_at_either_end() {
    let mut b = Board::new();
    for x in 0..4 {
        b.place(Pt::new(x, 0), Color::Black);
    }
    // A stone at either end stands in a line of five: 1,000,000 on the axis
    // of the row, and an open single worth 50 on each of the other three.
    assert_eq!(b.score_point(Pt::new(-1, 0), Color::Black), 1_000_150);
    assert_eq!(b.score_point(Pt::new(4, 0), Color::Black), 1_000_150);
    let f = Frontier::of(&b);
    let (p, s) = f.best_move(&b, Color::Black).unwrap();
    assert!(p == Pt::new(-1, 0) || p == Pt::new(4, 0));
    assert_eq!(s, 1_000_150);
}
