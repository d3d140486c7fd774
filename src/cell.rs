//! The state of one cell of the discrete automaton, and how a front-end shows it.
use vstd::prelude::*;

verus! {

/// A cell of the discrete automaton.
#[derive(Clone, Copy, Debug, PartialEq, Eq, Structural)]
pub enum Cell {
    Dead,
    Alive,
}

/// How a text front-end draws cells.
#[derive(Clone, Copy, Debug, PartialEq, Eq, Structural)]
pub enum RenderMode {
    Ascii,
    Unicode,
}

impl Cell {
    /// The other state.
    pub open spec fn flipped(self) -> Cell {
        match self {
            Cell::Alive => Cell::Dead,
            Cell::Dead => Cell::Alive,
        }
    }

    pub open spec fn is_alive(self) -> bool {
        self == Cell::Alive
    }

    /// The glyph of a cell in a render mode.
    pub open spec fn glyph(self, mode: RenderMode) -> Seq<char> {
        match mode {
            RenderMode::Ascii => match self {
                Cell::Alive => seq!['@'],
                Cell::Dead => seq!['-'],
            },
            RenderMode::Unicode => match self {
                Cell::Alive => seq!['\u{25A2}'],
                Cell::Dead => seq!['\u{25A0}'],
            },
        }
    }

    /// The RGBA colour of a cell: white when alive, opaque black when dead.
    pub open spec fn color(self) -> u32 {
        match self {
            Cell::Alive => 0xFFFFFFFFu32,
            Cell::Dead => 0x000000FFu32,
        }
    }

    pub fn as_color_hex(&self) -> (r: u32)
        ensures
            r == self.color(),
    {
        match self {
            Cell::Alive => 0xFFFFFFFF,
            Cell::Dead => 0x000000FF,
        }
    }

    pub fn as_str(&self, mode: RenderMode) -> (r: &'static str)
        ensures
            r@ == self.glyph(mode),
    {
        match mode {
            RenderMode::Ascii => match self {
                Cell::Alive => {
                    proof {
                        reveal_strlit("@");
                    }
                    "@"
                },
                Cell::Dead => {
                    proof {
                        reveal_strlit("-");
                    }
                    "-"
                },
            },
            RenderMode::Unicode => match self {
                Cell::Alive => {
                    proof {
                        reveal_strlit("\u{25A2}");
                    }
                    "\u{25A2}"
                },
                Cell::Dead => {
                    proof {
                        reveal_strlit("\u{25A0}");
                    }
                    "\u{25A0}"
                },
            },
        }
    }

    pub fn toggle(&mut self)
        ensures
            *final(self) == old(self).flipped(),
    {
        match self {
            Cell::Alive => *self = Cell::Dead,
            Cell::Dead => *self = Cell::Alive,
        }
    }
}

} // verus!
