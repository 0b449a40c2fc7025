use gomoku::board::Board;
use gomoku::color::Color;
use gomoku::point::Pt;

#[test]
fn placed_stone_is_found() {
    let mut b = Board::new();
    assert!(b.is_blank());
    assert!(b.is_empty(Pt::new(3, -4)));
    b.place(Pt::new(3, -4), Color::White);
    assert!(!b.is_blank());
    assert_eq!(b.color_at(Pt::new(3, -4)), Some(Color::White));
    assert_eq!(b.color_at(Pt::new(-4, 3)), None);
    assert!(!b.is_empty(Pt::new(3, -4)));
    assert!(b.is_empty(Pt::new(-4, 3)));
}

#[test]
fn holds_tells_the_colours_apart() {
    let mut b = Board::new();
    b.place(Pt::new(0, 0), Color::Black);
    assert!(b.holds(Pt::new(0, 0), Color::Black));
    assert!(!b.holds(Pt::new(0, 0), Color::White));
    assert!(!b.holds(Pt::new(1, 0), Color::Black));
}

#[test]
fn clear_removes_every_stone() {
    let mut b = Board::new();
    b.place(Pt::new(1, 1), Color::Black);
    b.place(Pt::new(2, 2), Color::White);
    b.clear();
    assert!(b.is_blank());
    assert!(b.is_empty(Pt::new(1, 1)));
    assert!(b.stones().is_empty());
}

#[test]
fn stones_lists_each_stone_once() {
    let mut b = Board::new();
    b.place(Pt::new(5, -7), Color::Black);
    b.place(Pt::new(-5, 7), Color::White);
    b.place(Pt::new(i32::MAX, i32::MIN), Color::Black);
    let mut v = b.stones();
    v.sort_by_key(|e| (e.0.x, e.0.y));
    assert_eq!(
        v,
        vec![
            (Pt::new(-5, 7), Color::White),
            (Pt::new(5, -7), Color::Black),
            (Pt::new(i32::MAX, i32::MIN), Color::Black),
        ]
    );
}

#[test]
fn cells_in_the_far_corners_are_kept_apart() {
    let corners = [
        Pt::new(i32::MIN, i32::MIN),
        Pt::new(i32::MIN, i32::MAX),
        Pt::new(i32::MAX, i32::MIN),
        Pt::new(i32::MAX, i32::MAX),
        Pt::new(0, -1),
        Pt::new(-1, 0),
    ];
    let mut b = Board::new();
    for (i, p) in corners.iter().enumerate() {
        assert!(b.is_empty(*p));
        b.place(*p, if i % 2 == 0 { Color::Black } else { Color::White });
    }
    for (i, p) in corners.iter().enumerate() {
        let want = if i % 2 == 0 { Color::Black } else { Color::White };
        assert_eq!(b.color_at(*p), Some(want));
    }
    assert_eq!(b.stones().len(), 6);
}
