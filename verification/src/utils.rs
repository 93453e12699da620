//! Colours shared by the animations and the escape sequences that select them.

use vstd::prelude::*;

verus! {

/// The foreground colours an animation can be drawn in.
#[derive(Debug, Clone, Copy, PartialEq, Eq, Structural)]
pub enum Color {
    White,
    Red,
    Blue,
    Yellow,
    Green,
    Cyan,
    Magenta,
    Black,
}

impl Default for Color {
    fn default() -> (color: Color)
        ensures
            color == Color::White,
    {
        Color::White
    }
}

impl Color {
    /// The escape sequence of this colour: `ESC [ 3 d m`, where `3d` is the
    /// number that selects the colour as foreground, 30 for black up to 37
    /// for white.
    pub open spec fn ansi_code(self) -> Seq<char> {
        match self {
            Color::White => seq!['\x1b', '[', '3', '7', 'm'],
            Color::Red => seq!['\x1b', '[', '3', '1', 'm'],
            Color::Blue => seq!['\x1b', '[', '3', '4', 'm'],
            Color::Yellow => seq!['\x1b', '[', '3', '3', 'm'],
            Color::Green => seq!['\x1b', '[', '3', '2', 'm'],
            Color::Cyan => seq!['\x1b', '[', '3', '6', 'm'],
            Color::Magenta => seq!['\x1b', '[', '3', '5', 'm'],
            Color::Black => seq!['\x1b', '[', '3', '0', 'm'],
        }
    }

    /// Returns the escape sequence that switches the terminal to this colour.
    pub fn to_ansi_code(&self) -> (code: &'static str)
        ensures
            code@ == self.ansi_code(),
    {
        proof {
            reveal_strlit("\x1b[37m");
            reveal_strlit("\x1b[31m");
            reveal_strlit("\x1b[34m");
            reveal_strlit("\x1b[33m");
            reveal_strlit("\x1b[32m");
            reveal_strlit("\x1b[36m");
            reveal_strlit("\x1b[35m");
            reveal_strlit("\x1b[30m");
        }
        let code = match self {
            Color::White => "\x1b[37m",
            Color::Red => "\x1b[31m",
            Color::Blue => "\x1b[34m",
            Color::Yellow => "\x1b[33m",
            Color::Green => "\x1b[32m",
            Color::Cyan => "\x1b[36m",
            Color::Magenta => "\x1b[35m",
            Color::Black => "\x1b[30m",
        };
        assert(code@ =~= self.ansi_code());
        code
    }
}

} // verus!
