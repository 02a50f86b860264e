use minesweeper::cell::Cell;
use minesweeper::grid::Grid;
use minesweeper::render::{glyph_for, GlyphColor};
use minesweeper::session::{Command, GameState, Session};

fn session_with_mines(width: usize, height: usize, mines: &[(usize, usize)]) -> Session {
    let mut g = Grid::new(width, height);
    for &(x, y) in mines {
        g.place_mine(x, y);
    }
    g.compute_counts();
    Session::new(g)
}

#[test]
fn session_starts_centered_and_playing() {
    let s = session_with_mines(30, 16, &[(0, 0)]);
    assert_eq!(s.cursor_x, 15);
    assert_eq!(s.cursor_y, 8);
    assert_eq!(s.state, GameState::Playing);
}

#[test]
fn cursor_saturates_and_never_leaves_grid() {
    let mut s = session_with_mines(30, 16, &[(0, 0)]);
    for cmd in [Command::MoveUp, Command::MoveLeft, Command::MoveDown, Command::MoveRight] {
        for _ in 0..100 {
            s.step(cmd);
            assert!(s.cursor_x < 30);
            assert!(s.cursor_y < 16);
        }
    }
    assert_eq!(s.cursor_x, 29);
    assert_eq!(s.cursor_y, 15);
    for _ in 0..100 {
        s.step(Command::MoveUp);
    }
    assert_eq!(s.cursor_y, 0);
    for _ in 0..100 {
        s.step(Command::MoveLeft);
    }
    assert_eq!(s.cursor_x, 0);
}

#[test]
fn quit_command_ends_session() {
    let mut s = session_with_mines(4, 4, &[(0, 0)]);
    s.step(Command::Quit);
    assert_eq!(s.state, GameState::Quit);
}

#[test]
fn revealing_a_mine_loses() {
    // 3x3 with a mine at the center, where the cursor starts.
    let mut s = session_with_mines(3, 3, &[(1, 1)]);
    assert_eq!(s.cursor_x, 1);
    assert_eq!(s.cursor_y, 1);
    s.step(Command::Reveal);
    assert_eq!(s.state, GameState::Lost);
    assert!(!s.grid.get_cell(1, 1).is_hidden);
}

#[test]
fn flag_protects_cell_from_reveal_command() {
    let mut s = session_with_mines(3, 3, &[(1, 1)]);
    s.step(Command::ToggleFlag);
    s.step(Command::Reveal);
    assert_eq!(s.state, GameState::Playing);
    let c = s.grid.get_cell(1, 1);
    assert!(c.is_hidden);
    assert!(c.is_flagged);
}

#[test]
fn pointer_press_outside_grid_is_ignored() {
    let mut s = session_with_mines(4, 4, &[(0, 0)]);
    let continues = s.pointer_event(200, 3, true);
    assert!(continues);
    assert_eq!(s.cursor_x, 2);
    assert_eq!(s.cursor_y, 2);
    assert_eq!(s.state, GameState::Playing);
    for y in 0..4 {
        for x in 0..4 {
            assert!(s.grid.get_cell(x, y).is_hidden);
        }
    }
}

#[test]
fn pointer_primary_press_reveals_cell() {
    // Terminal cells are two columns wide: column 6 targets grid column 3.
    let mut s = session_with_mines(4, 4, &[(0, 0)]);
    let continues = s.pointer_event(6, 1, true);
    assert!(continues);
    assert_eq!(s.cursor_x, 3);
    assert_eq!(s.cursor_y, 1);
    assert!(!s.grid.get_cell(3, 1).is_hidden);
}

#[test]
fn pointer_secondary_press_flags_cell() {
    let mut s = session_with_mines(4, 4, &[(0, 0)]);
    let continues = s.pointer_event(2, 3, false);
    assert!(continues);
    assert_eq!(s.cursor_x, 1);
    assert_eq!(s.cursor_y, 3);
    let c = s.grid.get_cell(1, 3);
    assert!(c.is_hidden);
    assert!(c.is_flagged);
}

#[test]
fn pointer_primary_on_mine_loses() {
    let mut s = session_with_mines(4, 4, &[(0, 0)]);
    let continues = s.pointer_event(0, 0, true);
    assert!(!continues);
    assert_eq!(s.state, GameState::Lost);
}

#[test]
fn glyph_for_hidden_cell_is_block() {
    let g = glyph_for(Cell { is_mine: false, is_hidden: true, is_flagged: false, adjacent_count: 3 });
    assert_eq!(g.ch, '■');
    assert_eq!(g.color, GlyphColor::Normal);
}

#[test]
fn glyph_for_flagged_cell_is_red_mark() {
    let g = glyph_for(Cell { is_mine: true, is_hidden: true, is_flagged: true, adjacent_count: 0 });
    assert_eq!(g.ch, 'P');
    assert_eq!(g.color, GlyphColor::Red);
}

#[test]
fn glyph_for_revealed_mine_is_red_star() {
    let g = glyph_for(Cell { is_mine: true, is_hidden: false, is_flagged: false, adjacent_count: 2 });
    assert_eq!(g.ch, '*');
    assert_eq!(g.color, GlyphColor::Red);
}

#[test]
fn glyph_for_revealed_zero_cell_is_blank() {
    let g = glyph_for(Cell { is_mine: false, is_hidden: false, is_flagged: false, adjacent_count: 0 });
    assert_eq!(g.ch, ' ');
    assert_eq!(g.color, GlyphColor::Normal);
}

#[test]
fn glyph_for_revealed_counted_cell_is_cyan_digit() {
    for n in 1..=8u8 {
        let g = glyph_for(Cell { is_mine: false, is_hidden: false, is_flagged: false, adjacent_count: n });
        assert_eq!(g.ch, char::from(b'0' + n));
        assert_eq!(g.color, GlyphColor::Cyan);
    }
}
