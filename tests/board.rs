use gem_board::board::{
    camera_translation, gem_color, gem_translation, place_gem, place_gems, Cell, GemColor,
    GemPlacement, BOARD_SIZE, GEM_LENGTH,
};

#[test]
fn gem_colors_cycle_through_three_textures() {
    assert_eq!(gem_color(0), GemColor::Blue);
    assert_eq!(gem_color(1), GemColor::Green);
    assert_eq!(gem_color(2), GemColor::Red);
    assert_eq!(gem_color(3), GemColor::Blue);
    assert_eq!(gem_color(7), GemColor::Green);
    assert_eq!(gem_color(u32::MAX), GemColor::Blue);
}

#[test]
fn origin_cell_sits_at_world_origin() {
    assert_eq!(gem_translation(0, 0), (0, 0));
}

#[test]
fn cell_position_scales_by_gem_length_with_y_inverted() {
    assert_eq!(GEM_LENGTH, 50);
    assert_eq!(gem_translation(3, 4), (150, -200));
    assert_eq!(gem_translation(9, 0), (450, 0));
    assert_eq!(gem_translation(0, 9), (0, -450));
}

#[test]
fn largest_coordinates_do_not_overflow() {
    let m = u32::MAX as i64;
    assert_eq!(gem_translation(u32::MAX, u32::MAX), (m * 50, -(m * 50)));
}

#[test]
fn camera_centres_ten_by_ten_board() {
    assert_eq!(BOARD_SIZE, 10);
    assert_eq!(camera_translation(BOARD_SIZE), (225, -225));
}

#[test]
fn camera_for_single_cell_and_empty_board() {
    assert_eq!(camera_translation(1), (0, 0));
    assert_eq!(camera_translation(0), (-25, 25));
    assert_eq!(camera_translation(3), (50, -50));
}

#[test]
fn one_cell_placement() {
    let p = place_gem(Cell { x: 2, y: 5, typ: 4 });
    assert_eq!(
        p,
        GemPlacement { x: 2, y: 5, tx: 100, ty: -250, color: GemColor::Green }
    );
}

#[test]
fn placements_follow_cell_order() {
    let cells = vec![
        Cell { x: 0, y: 0, typ: 2 },
        Cell { x: 1, y: 0, typ: 0 },
        Cell { x: 0, y: 1, typ: 5 },
    ];
    let ps = place_gems(&cells);
    assert_eq!(ps.len(), 3);
    assert_eq!(ps[0], GemPlacement { x: 0, y: 0, tx: 0, ty: 0, color: GemColor::Red });
    assert_eq!(ps[1], GemPlacement { x: 1, y: 0, tx: 50, ty: 0, color: GemColor::Blue });
    assert_eq!(ps[2], GemPlacement { x: 0, y: 1, tx: 0, ty: -50, color: GemColor::Red });
}

#[test]
fn empty_board_places_nothing() {
    assert!(place_gems(&Vec::new()).is_empty());
}
