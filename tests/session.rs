use heck::board::GameState;
use heck::render::{Glyph, CELL_GLYPH, CURSOR_GLYPH};
use heck::session::{InputEvent, Outcome};

#[test]
fn quit_key_stops_and_keeps_board() {
    let mut g = GameState::new(5, 5).unwrap();
    g.flip_at_position(0, 0);
    let before = g.clone();
    assert_eq!(g.handle_event(InputEvent::Key('q')), Outcome::Quit);
    assert_eq!(g.game_board, before.game_board);
    assert_eq!((g.cursor_x, g.cursor_y), (before.cursor_x, before.cursor_y));
}

#[test]
fn movement_keys() {
    let mut g = GameState::new(5, 5).unwrap();
    g.flip_at_position(4, 4);
    assert_eq!(g.handle_event(InputEvent::Key('h')), Outcome::Continue);
    assert_eq!((g.cursor_x, g.cursor_y), (1, 2));
    g.handle_event(InputEvent::Key('j'));
    assert_eq!((g.cursor_x, g.cursor_y), (1, 3));
    g.handle_event(InputEvent::Key('k'));
    g.handle_event(InputEvent::Key('k'));
    assert_eq!((g.cursor_x, g.cursor_y), (1, 1));
    g.handle_event(InputEvent::Key('l'));
    assert_eq!((g.cursor_x, g.cursor_y), (2, 1));
}

#[test]
fn space_toggles_at_cursor() {
    let mut g = GameState::new(5, 5).unwrap();
    assert_eq!(g.handle_event(InputEvent::Key(' ')), Outcome::Continue);
    assert!(g.game_board[1][1] && g.game_board[3][3] && !g.game_board[0][0]);
    assert_eq!(g.handle_event(InputEvent::Key(' ')), Outcome::Won);
}

#[test]
fn other_keys_and_events_are_ignored() {
    let mut g = GameState::new(5, 5).unwrap();
    g.flip_at_position(2, 2);
    let before = g.clone();
    assert_eq!(g.handle_event(InputEvent::Key('x')), Outcome::Continue);
    assert_eq!(g.handle_event(InputEvent::Other), Outcome::Continue);
    assert_eq!(g.game_board, before.game_board);
    assert_eq!((g.cursor_x, g.cursor_y), (2, 2));
}

#[test]
fn mouse_click_out_of_grid() {
    let mut g = GameState::new(5, 5).unwrap();
    let r = g.handle_event(InputEvent::LeftPress { column: 99, row: 99 });
    assert_eq!(r, Outcome::Continue);
    assert_eq!((g.cursor_x, g.cursor_y), (4, 4));
    let mut lit = Vec::new();
    for y in 0..5 {
        for x in 0..5 {
            if g.game_board[y][x] {
                lit.push((x, y));
            }
        }
    }
    assert_eq!(lit, vec![(3, 3), (4, 3), (3, 4), (4, 4)]);
}

#[test]
fn win_path() {
    let mut g = GameState::new(5, 5).unwrap();
    g.flip_at_position(1, 1);
    assert!(!g.is_cleared());
    g.flip_at_position(1, 1);
    assert!(g.is_cleared());

    let mut h = GameState::new(5, 5).unwrap();
    assert_eq!(h.handle_event(InputEvent::LeftPress { column: 1, row: 1 }), Outcome::Continue);
    assert_eq!(h.handle_event(InputEvent::LeftPress { column: 1, row: 1 }), Outcome::Won);
}

#[test]
fn frame_shows_cursor_and_lit_cells() {
    let mut g = GameState::new(3, 2).unwrap();
    g.flip_at_position(0, 0);
    let f = g.frame();
    assert_eq!(f.len(), 2);
    assert!(f.iter().all(|row| row.len() == 3));
    assert_eq!(CURSOR_GLYPH, '\u{2591}');
    assert_eq!(CELL_GLYPH, '\u{2588}');
    assert_eq!(f[1][1], Glyph { symbol: CURSOR_GLYPH, lit: true });
    assert_eq!(f[0][0], Glyph { symbol: CELL_GLYPH, lit: true });
    assert_eq!(f[0][2], Glyph { symbol: CELL_GLYPH, lit: false });
    assert_eq!(f[1][2], Glyph { symbol: CELL_GLYPH, lit: false });
    assert_eq!(g.glyph_at(1, 1), f[1][1]);
    g.move_cursor(heck::board::MoveCommand::Right);
    assert_eq!(g.glyph_at(2, 1), Glyph { symbol: CURSOR_GLYPH, lit: false });
}
