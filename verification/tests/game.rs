use gomoku::color::Color;
use gomoku::evaluator::OCCUPIED_SCORE;
use gomoku::game::Game;
use gomoku::point::Pt;

fn frontier_of(g: &Game) -> Vec<(i32, i32)> {
    let mut v: Vec<(i32, i32)> = g.frontier().cells().iter().map(|p| (p.x, p.y)).collect();
    v.sort();
    v
}

fn stones_of(g: &Game) -> Vec<((i32, i32), Color)> {
    let mut v: Vec<((i32, i32), Color)> =
        g.stones().iter().map(|e| ((e.0.x, e.0.y), e.1)).collect();
    v.sort_by_key(|e| e.0);
    v
}

fn origin_block() -> Vec<(i32, i32)> {
    let mut v = Vec::new();
    for x in -2..=2 {
        for y in -2..=2 {
            v.push((x, y));
        }
    }
    v
}

fn assert_fresh(g: &Game) {
    assert_eq!(g.player(), Color::Black);
    assert_eq!(g.winner(), None);
    assert_eq!(g.last_move(), None);
    assert!(g.stones().is_empty());
    assert!(g.board().is_blank());
    assert_eq!(frontier_of(g), origin_block());
}

#[test]
fn new_game_is_fresh() {
    assert_fresh(&Game::new());
}

#[test]
fn reset_twice_is_reset_once() {
    let mut g = Game::new();
    assert!(g.play(Pt::new(4, 4)));
    assert!(g.play(Pt::new(5, 4)));
    g.reset();
    let once = (g.player(), g.winner(), g.last_move(), stones_of(&g), frontier_of(&g));
    g.reset();
    let twice = (g.player(), g.winner(), g.last_move(), stones_of(&g), frontier_of(&g));
    assert_eq!(once, twice);
    assert_fresh(&g);
}

#[test]
fn reset_empties_every_cell_and_reseeds_the_frontier() {
    let mut g = Game::new();
    let played = [Pt::new(0, 0), Pt::new(30, 30), Pt::new(-7, 2)];
    for p in played {
        assert!(g.play(p));
    }
    g.reset();
    for p in played {
        assert!(g.board().is_empty(p));
        assert!(g.playable(p));
    }
    assert_fresh(&g);
}

#[test]
fn legal_move_places_the_stone_and_passes_the_turn() {
    let mut g = Game::new();
    assert!(g.playable(Pt::new(1, 2)));
    assert!(g.play(Pt::new(1, 2)));
    assert_eq!(g.board().color_at(Pt::new(1, 2)), Some(Color::Black));
    assert_eq!(g.player(), Color::White);
    assert_eq!(g.winner(), None);
    assert_eq!(g.last_move(), Some(Pt::new(1, 2)));
    assert!(g.play(Pt::new(-1, 2)));
    assert_eq!(g.board().color_at(Pt::new(-1, 2)), Some(Color::White));
    assert_eq!(g.player(), Color::Black);
    assert_eq!(g.last_move(), Some(Pt::new(-1, 2)));
    assert_eq!(
        stones_of(&g),
        vec![((-1, 2), Color::White), ((1, 2), Color::Black)]
    );
}

#[test]
fn move_on_an_occupied_cell_is_rejected() {
    let mut g = Game::new();
    assert!(g.play(Pt::new(0, 0)));
    assert!(g.play(Pt::new(1, 1)));
    let before = (g.player(), g.winner(), g.last_move(), stones_of(&g), frontier_of(&g));
    assert!(!g.playable(Pt::new(0, 0)));
    assert!(!g.play(Pt::new(0, 0)));
    assert!(!g.play(Pt::new(1, 1)));
    let after = (g.player(), g.winner(), g.last_move(), stones_of(&g), frontier_of(&g));
    assert_eq!(before, after);
    assert_eq!(g.board().color_at(Pt::new(0, 0)), Some(Color::Black));
}

#[test]
fn frontier_follows_the_stones() {
    let mut g = Game::new();
    let moves = [
        Pt::new(0, 0),
        Pt::new(1, 0),
        Pt::new(5, 5),
        Pt::new(-3, 1),
        Pt::new(0, 1),
        Pt::new(6, 5),
    ];
    for m in moves {
        assert!(g.play(m));
        let stones = g.stones();
        let f = g.frontier();
        for (s, _) in &stones {
            assert!(!f.contains(*s));
            for dx in -2..=2 {
                for dy in -2..=2 {
                    let q = Pt::new(s.x + dx, s.y + dy);
                    assert_eq!(f.contains(q), g.board().is_empty(q));
                }
            }
        }
        for q in f.cells() {
            assert!(g.board().is_empty(q));
            assert!(stones
                .iter()
                .any(|(s, _)| (s.x - q.x).abs() <= 2 && (s.y - q.y).abs() <= 2));
        }
    }
}

#[test]
fn five_in_a_row_sets_the_winner_on_every_axis() {
    let axes = [(1, 0), (0, 1), (1, 1), (1, -1)];
    for (dx, dy) in axes {
        let mut g = Game::new();
        for k in 0..5 {
            assert_eq!(g.winner(), None);
            assert!(g.play(Pt::new(k * dx, k * dy)));
            if k < 4 {
                // White answers far away, out of the line.
                assert!(g.play(Pt::new(100 + 3 * k, -100)));
            }
        }
        assert_eq!(g.winner(), Some(Color::Black));
    }
}

#[test]
fn white_can_win_too() {
    let mut g = Game::new();
    for k in 0..5 {
        assert!(g.play(Pt::new(50 + 3 * k, 50)));
        assert_eq!(g.winner(), None);
        assert!(g.play(Pt::new(0, k)));
    }
    assert_eq!(g.winner(), Some(Color::White));
    assert_eq!(g.player(), Color::White);
}

#[test]
fn four_shut_in_at_both_ends_does_not_win() {
    let mut g = Game::new();
    // White takes both ends of the row that Black is about to build.
    assert!(g.play(Pt::new(0, 0)));
    assert!(g.play(Pt::new(-1, 0)));
    assert!(g.play(Pt::new(1, 0)));
    assert!(g.play(Pt::new(4, 0)));
    assert!(g.play(Pt::new(2, 0)));
    assert!(g.play(Pt::new(20, 20)));
    assert!(g.play(Pt::new(3, 0)));
    assert_eq!(g.winner(), None);
    assert_eq!(g.player(), Color::White);
    assert!(g.playable(Pt::new(9, 9)));
}

#[test]
fn winning_stone_in_the_middle_of_the_row() {
    let mut g = Game::new();
    let black = [Pt::new(0, 0), Pt::new(1, 1), Pt::new(3, 3), Pt::new(4, 4), Pt::new(2, 2)];
    for (k, b) in black.iter().enumerate() {
        assert!(g.play(*b));
        if k < 4 {
            assert!(g.play(Pt::new(-10, 3 * k as i32)));
        }
    }
    assert_eq!(g.winner(), Some(Color::Black));
    assert_eq!(g.last_move(), Some(Pt::new(2, 2)));
}

#[test]
fn nothing_moves_after_a_win_until_reset() {
    let mut g = Game::new();
    for k in 0..5 {
        assert!(g.play(Pt::new(k, 0)));
        if k < 4 {
            assert!(g.play(Pt::new(k, 9)));
        }
    }
    assert_eq!(g.winner(), Some(Color::Black));
    let before = (g.player(), g.winner(), g.last_move(), stones_of(&g), frontier_of(&g));
    for p in [Pt::new(5, 0), Pt::new(-1, 0), Pt::new(0, 0), Pt::new(77, 77)] {
        assert!(!g.playable(p));
        assert!(!g.play(p));
        let after = (g.player(), g.winner(), g.last_move(), stones_of(&g), frontier_of(&g));
        assert_eq!(before, after);
    }
    g.reset();
    assert_fresh(&g);
    assert!(g.play(Pt::new(5, 0)));
}

#[test]
fn the_winner_stays_on_turn() {
    let mut g = Game::new();
    for k in 0..5 {
        assert!(g.play(Pt::new(0, k)));
        if k < 4 {
            assert!(g.play(Pt::new(9, k)));
        }
    }
    assert_eq!(g.winner(), Some(Color::Black));
    assert_eq!(g.player(), Color::Black);
}

#[test]
fn best_move_is_an_empty_cell() {
    let mut g = Game::new();
    assert!(g.play(Pt::new(0, 0)));
    let (p, s) = g.best_move(Color::White).unwrap();
    assert!(g.board().is_empty(p));
    assert!(s > OCCUPIED_SCORE);
    assert_eq!(s, g.board().score_point(p, Color::White));
}

#[test]
fn computer_blocks_an_open_four() {
    let mut g = Game::new();
    // Black builds an open three, White plays elsewhere; then Black makes
    // it an open four and White must answer at one of its ends.
    for k in 0..4 {
        assert!(g.play(Pt::new(k, 0)));
        if k < 3 {
            assert!(g.play(Pt::new(40 + 4 * k, 40)));
        }
    }
    let (p, s) = g.best_move(Color::White).unwrap();
    assert!(p == Pt::new(-1, 0) || p == Pt::new(4, 0));
    assert_eq!(s, 10 + 900_000 + 150);
}
