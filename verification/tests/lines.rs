use gomoku::board::Board;
use gomoku::color::Color;
use gomoku::lines::{direction, reverse};
use gomoku::point::Pt;

fn board_of(black: &[(i32, i32)], white: &[(i32, i32)]) -> Board {
    let mut b = Board::new();
    for &(x, y) in black {
        b.place(Pt::new(x, y), Color::Black);
    }
    for &(x, y) in white {
        b.place(Pt::new(x, y), Color::White);
    }
    b
}

#[test]
fn the_four_axes() {
    assert_eq!(direction(0), Pt::new(1, 0));
    assert_eq!(direction(1), Pt::new(0, 1));
    assert_eq!(direction(2), Pt::new(1, 1));
    assert_eq!(direction(3), Pt::new(1, -1));
    assert_eq!(reverse(direction(3)), Pt::new(-1, 1));
    assert_eq!(reverse(direction(0)), Pt::new(-1, 0));
}

#[test]
fn ray_counts_until_the_first_gap() {
    let b = board_of(&[(1, 0), (2, 0), (3, 0), (5, 0)], &[]);
    assert_eq!(b.ray(Pt::new(0, 0), Pt::new(1, 0), Color::Black), 3);
    assert_eq!(b.ray(Pt::new(0, 0), Pt::new(-1, 0), Color::Black), 0);
    assert_eq!(b.ray(Pt::new(4, 0), Pt::new(-1, 0), Color::Black), 3);
    assert_eq!(b.ray(Pt::new(4, 0), Pt::new(1, 0), Color::Black), 1);
    assert_eq!(b.ray(Pt::new(0, 0), Pt::new(1, 0), Color::White), 0);
}

#[test]
fn ray_stops_at_a_stone_of_the_other_side() {
    let b = board_of(&[(1, 1), (2, 2)], &[(3, 3)]);
    assert_eq!(b.ray(Pt::new(0, 0), Pt::new(1, 1), Color::Black), 2);
    assert_eq!(b.ray(Pt::new(4, 4), Pt::new(-1, -1), Color::White), 1);
    assert_eq!(b.ray(Pt::new(4, 4), Pt::new(-1, -1), Color::Black), 0);
}

#[test]
fn ray_end_gives_the_cell_past_the_run() {
    let b = board_of(&[(1, 0), (2, 0)], &[]);
    assert_eq!(
        b.ray_end(Pt::new(0, 0), Pt::new(1, 0), Color::Black),
        (2, Some(Pt::new(3, 0)))
    );
    assert_eq!(
        b.ray_end(Pt::new(0, 0), Pt::new(-1, 0), Color::Black),
        (0, Some(Pt::new(-1, 0)))
    );
}

#[test]
fn ray_ends_at_the_edge_of_the_grid() {
    let b = board_of(&[(i32::MAX, 7), (i32::MAX - 1, 7)], &[]);
    assert_eq!(
        b.ray_end(Pt::new(i32::MAX - 2, 7), Pt::new(1, 0), Color::Black),
        (2, None)
    );
    assert_eq!(b.ray(Pt::new(i32::MAX, 7), Pt::new(1, 0), Color::Black), 0);
    assert_eq!(b.ray(Pt::new(i32::MAX, 7), Pt::new(-1, 0), Color::Black), 1);
    // The edge is no empty cell: this line has one open end only.
    assert_eq!(b.open_ends(Pt::new(i32::MAX - 2, 7), Pt::new(1, 0), Color::Black), 1);
}

#[test]
fn line_len_open_gives_both_runs() {
    let b = board_of(&[(-2, 0), (-1, 0), (1, 0)], &[]);
    assert_eq!(b.line_len_open(Pt::new(0, 0), Pt::new(1, 0), Color::Black), (1, 2));
    assert_eq!(b.line_len_open(Pt::new(0, 0), Pt::new(0, 1), Color::Black), (0, 0));
}

#[test]
fn open_ends_counts_the_empty_ends() {
    let open = board_of(&[(1, 0), (2, 0)], &[]);
    assert_eq!(open.open_ends(Pt::new(0, 0), Pt::new(1, 0), Color::Black), 2);
    let half = board_of(&[(1, 0), (2, 0)], &[(3, 0)]);
    assert_eq!(half.open_ends(Pt::new(0, 0), Pt::new(1, 0), Color::Black), 1);
    let shut = board_of(&[(1, 0), (2, 0)], &[(3, 0), (-1, 0)]);
    assert_eq!(shut.open_ends(Pt::new(0, 0), Pt::new(1, 0), Color::Black), 0);
    // For White the neighbouring Black stone ends the line at once.
    assert_eq!(open.open_ends(Pt::new(0, 0), Pt::new(1, 0), Color::White), 1);
}

#[test]
fn five_in_a_row_wins_on_every_axis() {
    for i in 0..4usize {
        let d = direction(i);
        let mut b = Board::new();
        for k in 0..5 {
            b.place(Pt::new(10 + k * d.x, -3 + k * d.y), Color::White);
        }
        for k in 0..5 {
            let p = Pt::new(10 + k * d.x, -3 + k * d.y);
            assert!(b.check_win(p, Color::White), "axis {} stone {}", i, k);
            assert!(!b.check_win(p, Color::Black), "axis {} stone {}", i, k);
        }
    }
}

#[test]
fn four_in_a_row_does_not_win() {
    for i in 0..4usize {
        let d = direction(i);
        let mut b = Board::new();
        for k in 0..4 {
            b.place(Pt::new(k * d.x, k * d.y), Color::Black);
        }
        b.place(Pt::new(-d.x, -d.y), Color::White);
        b.place(Pt::new(4 * d.x, 4 * d.y), Color::White);
        for k in 0..4 {
            assert!(!b.check_win(Pt::new(k * d.x, k * d.y), Color::Black));
        }
    }
}

#[test]
fn a_gap_breaks_the_line() {
    let b = board_of(&[(0, 0), (1, 0), (3, 0), (4, 0), (5, 0)], &[]);
    assert!(!b.check_win(Pt::new(1, 0), Color::Black));
    assert!(!b.check_win(Pt::new(4, 0), Color::Black));
    // The stone that fills the gap is counted before it is placed.
    assert!(b.check_win(Pt::new(2, 0), Color::Black));
}

#[test]
fn six_in_a_row_wins_too() {
    let b = board_of(&[(0, 0), (0, 1), (0, 2), (0, 3), (0, 4), (0, 5)], &[]);
    assert!(b.check_win(Pt::new(0, 3), Color::Black));
}
