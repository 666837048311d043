use gridworld::{
    ascii_view_window, handle_player_movement, handle_terminal_player_movement, movement_direction,
    terminal_position, GameConfig, IVec2, MoveOrder, MovementKeys, Player, TerminalKey, Tile, UVec2,
    ViewWindow,
};

const NONE: MovementKeys = MovementKeys { w: false, s: false, a: false, d: false };

#[test]
fn tiles_show_as_letters() {
    assert_eq!(Tile::Wall.to_string(), "W");
    assert_eq!(Tile::Floor.to_string(), "F");
    assert_eq!(Tile::Void.to_string(), "V");
}

#[test]
fn player_keeps_its_name() {
    let p = Player::new("Player");
    assert_eq!(p.name(), "Player");
}

#[test]
fn game_config_defaults_to_collisions() {
    assert!(GameConfig::new().collision_enabled);
    assert!(!GameConfig::new().with_collision_enabled(false).collision_enabled);
    assert!(GameConfig::new().with_collision_enabled(false).with_collision_enabled(true).collision_enabled);
}

#[test]
fn free_movement_combines_axes() {
    assert_eq!(movement_direction(NONE), IVec2 { x: 0, y: 0 });
    assert_eq!(movement_direction(MovementKeys { w: true, ..NONE }), IVec2 { x: 0, y: 1 });
    assert_eq!(movement_direction(MovementKeys { w: true, s: true, ..NONE }), IVec2 { x: 0, y: -1 });
    assert_eq!(movement_direction(MovementKeys { a: true, d: true, ..NONE }), IVec2 { x: 1, y: 0 });
    assert_eq!(movement_direction(MovementKeys { w: true, a: true, ..NONE }), IVec2 { x: -1, y: 1 });
}

#[test]
fn grid_movement_takes_first_pressed_key() {
    assert_eq!(handle_player_movement(NONE, NONE), None);
    assert_eq!(
        handle_player_movement(MovementKeys { w: true, s: true, a: true, d: true }, NONE),
        Some(MoveOrder { direction: IVec2 { x: 0, y: 1 }, reset_step_timer: false })
    );
    assert_eq!(
        handle_player_movement(MovementKeys { s: true, a: true, ..NONE }, NONE),
        Some(MoveOrder { direction: IVec2 { x: 0, y: -1 }, reset_step_timer: false })
    );
    assert_eq!(
        handle_player_movement(MovementKeys { a: true, d: true, ..NONE }, MovementKeys { w: true, ..NONE }),
        Some(MoveOrder { direction: IVec2 { x: -1, y: 0 }, reset_step_timer: true })
    );
    assert_eq!(
        handle_player_movement(MovementKeys { d: true, ..NONE }, NONE),
        Some(MoveOrder { direction: IVec2 { x: 1, y: 0 }, reset_step_timer: false })
    );
    // a released key alone moves nothing
    assert_eq!(handle_player_movement(NONE, MovementKeys { d: true, ..NONE }), None);
}

#[test]
fn terminal_keys_map_to_steps() {
    let step = |k| handle_terminal_player_movement(Some(k)).map(|o: MoveOrder| o.direction);
    assert_eq!(step(TerminalKey::Char('w')), Some(IVec2 { x: 0, y: 1 }));
    assert_eq!(step(TerminalKey::Up), Some(IVec2 { x: 0, y: 1 }));
    assert_eq!(step(TerminalKey::Char('s')), Some(IVec2 { x: 0, y: -1 }));
    assert_eq!(step(TerminalKey::Down), Some(IVec2 { x: 0, y: -1 }));
    assert_eq!(step(TerminalKey::Char('a')), Some(IVec2 { x: -1, y: 0 }));
    assert_eq!(step(TerminalKey::Left), Some(IVec2 { x: -1, y: 0 }));
    assert_eq!(step(TerminalKey::Char('d')), Some(IVec2 { x: 1, y: 0 }));
    assert_eq!(step(TerminalKey::Right), Some(IVec2 { x: 1, y: 0 }));
    assert_eq!(step(TerminalKey::Char('W')), None);
    assert_eq!(step(TerminalKey::Other), None);
    assert_eq!(handle_terminal_player_movement(None), None);
    assert!(handle_terminal_player_movement(Some(TerminalKey::Up)).unwrap().reset_step_timer);
}

#[test]
fn view_window_is_centred() {
    let w = ascii_view_window(IVec2 { x: 10, y: -4 }, 10, UVec2 { x: 2, y: 1 });
    assert_eq!(w, ViewWindow { lower_left: IVec2 { x: 0, y: -9 }, upper_right: IVec2 { x: 20, y: 1 } });
    // odd sizes round the half down
    let w = ascii_view_window(IVec2 { x: 0, y: 0 }, 3, UVec2 { x: 1, y: 1 });
    assert_eq!(w, ViewWindow { lower_left: IVec2 { x: -1, y: -1 }, upper_right: IVec2 { x: 1, y: 1 } });
}

#[test]
fn terminal_positions_flip_rows() {
    let w = ViewWindow { lower_left: IVec2 { x: -2, y: -3 }, upper_right: IVec2 { x: 2, y: 3 } };
    assert_eq!(terminal_position(w.lower_left, w), (0, 6));
    assert_eq!(terminal_position(w.upper_right, w), (4, 0));
    assert_eq!(terminal_position(IVec2 { x: 0, y: 0 }, w), (2, 3));
}

#[test]
fn terminal_positions_wrap_at_sixteen_bits() {
    let w = ViewWindow { lower_left: IVec2 { x: 0, y: 0 }, upper_right: IVec2 { x: 70000, y: 0 } };
    assert_eq!(terminal_position(IVec2 { x: 65537, y: 0 }, w), (1, 0));
}
