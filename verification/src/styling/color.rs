//! The sixteen named terminal colors.

use vstd::prelude::*;
use crate::styling::buffer::{decimal, push_decimal};
use crate::styling::ErrorKind;

verus! {

/// One of the eight base colors or of their bright variants.
#[derive(Clone, Copy, Debug, PartialEq, Eq, Structural)]
pub enum Color {
    Black,
    Red,
    Green,
    Yellow,
    Blue,
    Magenta,
    Cyan,
    White,
    BrightBlack,
    BrightRed,
    BrightGreen,
    BrightYellow,
    BrightBlue,
    BrightMagenta,
    BrightCyan,
    BrightWhite,
}

/// The color that a parameter character names, if it names one: lower case
/// for the base colors, upper case for the bright ones, with `k` for black.
pub open spec fn color_of_char(c: char) -> Option<Color> {
    if c == 'k' {
        Some(Color::Black)
    } else if c == 'r' {
        Some(Color::Red)
    } else if c == 'g' {
        Some(Color::Green)
    } else if c == 'y' {
        Some(Color::Yellow)
    } else if c == 'b' {
        Some(Color::Blue)
    } else if c == 'm' {
        Some(Color::Magenta)
    } else if c == 'c' {
        Some(Color::Cyan)
    } else if c == 'w' {
        Some(Color::White)
    } else if c == 'K' {
        Some(Color::BrightBlack)
    } else if c == 'R' {
        Some(Color::BrightRed)
    } else if c == 'G' {
        Some(Color::BrightGreen)
    } else if c == 'Y' {
        Some(Color::BrightYellow)
    } else if c == 'B' {
        Some(Color::BrightBlue)
    } else if c == 'M' {
        Some(Color::BrightMagenta)
    } else if c == 'C' {
        Some(Color::BrightCyan)
    } else if c == 'W' {
        Some(Color::BrightWhite)
    } else {
        None
    }
}

impl Color {
    /// The place of the color among the eight of its kind: 0 for black, 7
    /// for white.
    pub open spec fn ordinal(self) -> nat {
        match self {
            Color::Black | Color::BrightBlack => 0,
            Color::Red | Color::BrightRed => 1,
            Color::Green | Color::BrightGreen => 2,
            Color::Yellow | Color::BrightYellow => 3,
            Color::Blue | Color::BrightBlue => 4,
            Color::Magenta | Color::BrightMagenta => 5,
            Color::Cyan | Color::BrightCyan => 6,
            Color::White | Color::BrightWhite => 7,
        }
    }

    /// Whether this is one of the eight bright variants.
    pub open spec fn is_bright(self) -> bool {
        match self {
            Color::BrightBlack
            | Color::BrightRed
            | Color::BrightGreen
            | Color::BrightYellow
            | Color::BrightBlue
            | Color::BrightMagenta
            | Color::BrightCyan
            | Color::BrightWhite => true,
            _ => false,
        }
    }

    /// The SGR number that selects this color for the text: 30 to 37 for the
    /// base colors, 90 to 97 for the bright ones.
    pub open spec fn foreground_code(self) -> nat {
        if self.is_bright() {
            90 + self.ordinal()
        } else {
            30 + self.ordinal()
        }
    }

    /// The SGR number that selects this color for the background: ten above
    /// the foreground number.
    pub open spec fn background_code(self) -> nat {
        self.foreground_code() + 10
    }

    /// The color that `character` names, or the error that says it names
    /// none.
    pub fn from_char(character: char) -> (result: Result<Color, ErrorKind>)
        ensures
            match color_of_char(character) {
                Some(color) => result == Ok::<Color, ErrorKind>(color),
                None => result == Err::<Color, ErrorKind>(
                    ErrorKind::InvalidColorCharacter(character),
                ),
            },
    {
        Ok(
            match character {
                'k' => Color::Black,
                'r' => Color::Red,
                'g' => Color::Green,
                'y' => Color::Yellow,
                'b' => Color::Blue,
                'm' => Color::Magenta,
                'c' => Color::Cyan,
                'w' => Color::White,
                'K' => Color::BrightBlack,
                'R' => Color::BrightRed,
                'G' => Color::BrightGreen,
                'Y' => Color::BrightYellow,
                'B' => Color::BrightBlue,
                'M' => Color::BrightMagenta,
                'C' => Color::BrightCyan,
                'W' => Color::BrightWhite,
                _ => return Err(ErrorKind::InvalidColorCharacter(character)),
            },
        )
    }

    /// Appends the background number of this color to `string`.
    pub fn render_background_to(self, string: &mut String)
        ensures
            final(string)@ == old(string)@ + decimal(self.background_code()),
    {
        let code: u8 = match self {
            Color::Black => 40,
            Color::Red => 41,
            Color::Green => 42,
            Color::Yellow => 43,
            Color::Blue => 44,
            Color::Magenta => 45,
            Color::Cyan => 46,
            Color::White => 47,
            Color::BrightBlack => 100,
            Color::BrightRed => 101,
            Color::BrightGreen => 102,
            Color::BrightYellow => 103,
            Color::BrightBlue => 104,
            Color::BrightMagenta => 105,
            Color::BrightCyan => 106,
            Color::BrightWhite => 107,
        };
        push_decimal(string, code);
    }

    /// Appends the foreground number of this color to `string`.
    pub fn render_foreground_to(self, string: &mut String)
        ensures
            final(string)@ == old(string)@ + decimal(self.foreground_code()),
    {
        let code: u8 = match self {
            Color::Black => 30,
            Color::Red => 31,
            Color::Green => 32,
            Color::Yellow => 33,
            Color::Blue => 34,
            Color::Magenta => 35,
            Color::Cyan => 36,
            Color::White => 37,
            Color::BrightBlack => 90,
            Color::BrightRed => 91,
            Color::BrightGreen => 92,
            Color::BrightYellow => 93,
            Color::BrightBlue => 94,
            Color::BrightMagenta => 95,
            Color::BrightCyan => 96,
            Color::BrightWhite => 97,
        };
        push_decimal(string, code);
    }
}

} // verus!
