//! The decisions of the interactive loop: what each input does to the board,
//! and whether the session goes on, is won, or is quit.

use vstd::prelude::*;
use crate::board::{all_unlit, moved, toggled, GameState, MoveCommand};

verus! {

/// An input from the terminal, reduced to what the game reacts to.
#[derive(Clone, Copy, Debug, PartialEq, Eq, Structural)]
pub enum InputEvent {
    /// A key that carries a character.
    Key(char),
    /// A left-button press at a terminal cell.
    LeftPress { column: usize, row: usize },
    /// Anything else.
    Other,
}

/// What the loop does after an input.
#[derive(Clone, Copy, Debug, PartialEq, Eq, Structural)]
pub enum Outcome {
    /// Draw again and wait for the next input.
    Continue,
    /// Every cell is unlit: restore the terminal and announce the win.
    Won,
    /// The player asked to quit: restore the terminal and stop.
    Quit,
}

/// The cursor move bound to a key, if any: `h` left, `j` down, `k` up, `l` right.
pub open spec fn key_move(c: char) -> Option<MoveCommand> {
    if c == 'h' {
        Some(MoveCommand::Left)
    } else if c == 'j' {
        Some(MoveCommand::Down)
    } else if c == 'k' {
        Some(MoveCommand::Up)
    } else if c == 'l' {
        Some(MoveCommand::Right)
    } else {
        None
    }
}

/// The board after `event` has been applied to `g`.
pub open spec fn after_event(g: GameState, event: InputEvent, h: GameState) -> bool {
    &&& h.board_width == g.board_width
    &&& h.board_height == g.board_height
    &&& match event {
        InputEvent::Key(c) => if key_move(c) is Some {
            let p = moved(key_move(c)->0, g.cursor_x as int, g.cursor_y as int, g.board_width as int, g.board_height as int);
            &&& h.cells() == g.cells()
            &&& h.cursor_x == p.0
            &&& h.cursor_y == p.1
        } else if c == ' ' {
            &&& h.cells() == toggled(g.cells(), g.cursor_x as int, g.cursor_y as int)
            &&& h.cursor_x == g.cursor_x
            &&& h.cursor_y == g.cursor_y
        } else {
            &&& h.cells() == g.cells()
            &&& h.cursor_x == g.cursor_x
            &&& h.cursor_y == g.cursor_y
        },
        InputEvent::LeftPress { column, row } => {
            &&& h.cursor_x == if column < g.board_width { column } else { (g.board_width - 1) as usize }
            &&& h.cursor_y == if row < g.board_height { row } else { (g.board_height - 1) as usize }
            &&& h.cells() == toggled(g.cells(), h.cursor_x as int, h.cursor_y as int)
        },
        InputEvent::Other => {
            &&& h.cells() == g.cells()
            &&& h.cursor_x == g.cursor_x
            &&& h.cursor_y == g.cursor_y
        },
    }
}

impl GameState {
    /// One step of the session: `q` quits and leaves the board as it is; any
    /// other input is applied, and the game is won when no cell is lit after it.
    pub fn handle_event(&mut self, event: InputEvent) -> (r: Outcome)
        requires
            old(self).wf(),
        ensures
            final(self).wf(),
            event == InputEvent::Key('q') ==> r == Outcome::Quit && *final(self) == *old(self),
            event != InputEvent::Key('q') ==> {
                &&& after_event(*old(self), event, *final(self))
                &&& r == if all_unlit(final(self).cells()) { Outcome::Won } else { Outcome::Continue }
            },
    {
        match event {
            InputEvent::Key(c) => {
                if c == 'q' {
                    return Outcome::Quit;
                } else if c == 'h' {
                    self.move_cursor(MoveCommand::Left);
                } else if c == 'j' {
                    self.move_cursor(MoveCommand::Down);
                } else if c == 'k' {
                    self.move_cursor(MoveCommand::Up);
                } else if c == 'l' {
                    self.move_cursor(MoveCommand::Right);
                } else if c == ' ' {
                    self.flip_at_position(self.cursor_x, self.cursor_y);
                }
            },
            InputEvent::LeftPress { column, row } => {
                self.click_at(column, row);
            },
            InputEvent::Other => {},
        }
        if self.is_cleared() {
            Outcome::Won
        } else {
            Outcome::Continue
        }
    }
}

} // verus!
