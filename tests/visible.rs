use gem_board::board::Cell;
use gem_board::visible::{visible_board_of, VisibleBoard};

#[test]
fn new_board_is_empty() {
    let b = VisibleBoard::new();
    assert_eq!(b.len(), 0);
    assert_eq!(b.get((0, 0)), None);
}

#[test]
fn insert_then_get() {
    let mut b = VisibleBoard::new();
    b.insert((1, 2), 7);
    b.insert((2, 1), 8);
    assert_eq!(b.len(), 2);
    assert_eq!(b.get((1, 2)), Some(7));
    assert_eq!(b.get((2, 1)), Some(8));
    assert_eq!(b.get((1, 1)), None);
}

#[test]
fn insert_at_same_position_replaces() {
    let mut b = VisibleBoard::new();
    b.insert((3, 3), 1);
    b.insert((3, 3), 2);
    assert_eq!(b.len(), 1);
    assert_eq!(b.get((3, 3)), Some(2));
}

#[test]
fn board_from_spawned_sprites() {
    let cells = vec![
        Cell { x: 0, y: 0, typ: 0 },
        Cell { x: 1, y: 0, typ: 1 },
        Cell { x: 0, y: 0, typ: 2 },
    ];
    let b = visible_board_of(&cells, &vec![10, 11, 12]);
    assert_eq!(b.len(), 2);
    assert_eq!(b.get((0, 0)), Some(12));
    assert_eq!(b.get((1, 0)), Some(11));
    assert_eq!(b.get((0, 1)), None);
}
