//! The decisions of an interactive session: which mode it is in, what each
//! command does to the board, and what happens on every frame.
use vstd::prelude::*;
use crate::board::{Board, BoardView, dead_grid, fresh_view};
use crate::cell::RenderMode;
use crate::rules::next_generation;

verus! {

/// Whether the session advances generations or lets the user edit.
#[derive(Clone, Copy, Debug, PartialEq, Eq, Structural)]
pub enum Mode {
    Run,
    Edit,
}

impl Mode {
    pub open spec fn flipped(self) -> Mode {
        match self {
            Mode::Run => Mode::Edit,
            Mode::Edit => Mode::Run,
        }
    }

    pub fn toggle(&mut self)
        ensures
            *final(self) == old(self).flipped(),
    {
        match self {
            Mode::Run => *self = Mode::Edit,
            Mode::Edit => *self = Mode::Run,
        }
    }
}

/// What the user asked for.
#[derive(Clone, Copy, Debug, PartialEq, Eq, Structural)]
pub enum Command {
    Quit,
    SwitchMode,
    Clear,
    Randomize,
    Up,
    Down,
    Left,
    Right,
    ToggleCell,
    Ignore,
}

/// A board, the session's mode, and whether the user has asked to quit.
pub struct Session {
    pub board: Board,
    pub mode: Mode,
    pub quit: bool,
}

impl Session {
    /// A session over a fresh dead board, in edit mode.
    pub fn new(rows: usize, cols: usize) -> (s: Self)
        ensures
            s.board@ == fresh_view(rows as int, cols as int),
            s.board@.wf(),
            s.mode == Mode::Edit,
            !s.quit,
    {
        let board = Board::new(rows, cols);
        Session { board, mode: Mode::Edit, quit: false }
    }

    /// One frame: in run mode the board is shown with Unicode glyphs and
    /// advances one generation; in edit mode it is shown in ASCII and stays.
    pub fn tick(&mut self)
        requires
            old(self).board@.wf(),
        ensures
            final(self).board@.wf(),
            final(self).mode == old(self).mode,
            final(self).quit == old(self).quit,
            old(self).mode == Mode::Run ==> final(self).board@ == (BoardView {
                cells: next_generation(old(self).board@.cells),
                mode: RenderMode::Unicode,
                ..old(self).board@
            }),
            old(self).mode == Mode::Edit ==> final(self).board@ == (BoardView {
                mode: RenderMode::Ascii,
                ..old(self).board@
            }),
    {
        match self.mode {
            Mode::Run => {
                self.board.to_unicode_mode();
                self.board.next_gen();
            },
            Mode::Edit => {
                self.board.to_ascii_mode();
            },
        }
    }

    /// Applies one command. Quitting and switching modes work in both modes;
    /// the editing commands act only in edit mode and are ignored while running.
    pub fn handle(&mut self, cmd: Command)
        requires
            old(self).board@.wf(),
        ensures
            final(self).board@.wf(),
            final(self).quit == (old(self).quit || cmd == Command::Quit),
            final(self).mode == if cmd == Command::SwitchMode {
                old(self).mode.flipped()
            } else {
                old(self).mode
            },
            (cmd == Command::Quit || cmd == Command::SwitchMode || cmd == Command::Ignore || old(self).mode
                == Mode::Run) ==> final(self).board@ == old(self).board@,
            old(self).mode == Mode::Edit ==> {
                let b = old(self).board@;
                let a = final(self).board@;
                &&& cmd == Command::Clear ==> a.cells == dead_grid(b.rows(), b.cols()) && a.cursor
                    == b.cursor && a.mode == b.mode
                &&& cmd == Command::Randomize ==> a.rows() == b.rows() && a.cols() == b.cols() && a.cursor
                    == b.cursor && a.mode == b.mode
                &&& cmd == Command::Up ==> a == (BoardView {
                    cursor: (b.cursor.0, if b.cursor.1 > 0 { b.cursor.1 - 1 } else { 0 }),
                    ..b
                })
                &&& cmd == Command::Down ==> a == (BoardView {
                    cursor: (b.cursor.0, if b.cursor.1 + 1 < b.rows() { b.cursor.1 + 1 } else { b.rows() - 1 }),
                    ..b
                })
                &&& cmd == Command::Left ==> a == (BoardView {
                    cursor: (if b.cursor.0 > 0 { b.cursor.0 - 1 } else { 0 }, b.cursor.1),
                    ..b
                })
                &&& cmd == Command::Right ==> a == (BoardView {
                    cursor: (if b.cursor.0 + 1 < b.cols() { b.cursor.0 + 1 } else { b.cols() - 1 }, b.cursor.1),
                    ..b
                })
                &&& cmd == Command::ToggleCell ==> a == (BoardView {
                    cells: b.cells.update(
                        b.cursor.1,
                        b.cells[b.cursor.1].update(b.cursor.0, b.cells[b.cursor.1][b.cursor.0].flipped()),
                    ),
                    ..b
                })
            },
    {
        match cmd {
            Command::Quit => self.quit = true,
            Command::SwitchMode => self.mode.toggle(),
            Command::Ignore => {},
            _ => {
                if self.mode == Mode::Edit {
                    match cmd {
                        Command::Clear => self.board.clear(),
                        Command::Randomize => self.board.randomize(),
                        Command::Up => self.board.move_cursor_up(),
                        Command::Down => self.board.move_cursor_down(),
                        Command::Left => self.board.move_cursor_left(),
                        Command::Right => self.board.move_cursor_right(),
                        Command::ToggleCell => self.board.toggle_cur_cell(),
                        _ => {},
                    }
                }
            },
        }
    }
}

} // verus!
