//! The five style flags.

use vstd::prelude::*;
use crate::styling::ErrorKind;

verus! {

/// Which of the five text attributes are switched on.
#[derive(Clone, Copy, Debug, PartialEq, Eq, Structural)]
pub struct Styles {
    pub bold: bool,
    pub dimmed: bool,
    pub italic: bool,
    pub underline: bool,
    pub strikethrough: bool,
}

impl Default for Styles {
    fn default() -> (styles: Styles)
        ensures
            styles == Styles::none(),
    {
        Styles { bold: false, dimmed: false, italic: false, underline: false, strikethrough: false }
    }
}

impl Styles {
    /// The flags with none switched on.
    pub open spec fn none() -> Styles {
        Styles { bold: false, dimmed: false, italic: false, underline: false, strikethrough: false }
    }

    /// These flags with the one that `character` names switched on as well,
    /// or `None` where it names no flag.
    pub open spec fn with_char(self, character: char) -> Option<Styles> {
        if character == 'b' {
            Some(Styles { bold: true, ..self })
        } else if character == 'd' {
            Some(Styles { dimmed: true, ..self })
        } else if character == 'i' {
            Some(Styles { italic: true, ..self })
        } else if character == 'u' {
            Some(Styles { underline: true, ..self })
        } else if character == 's' {
            Some(Styles { strikethrough: true, ..self })
        } else {
            None
        }
    }

    /// The SGR parameters of the flags that are on, in the order bold, dim,
    /// italic, underline, strikethrough, each followed by a semicolon.
    pub open spec fn params(self) -> Seq<char> {
        (if self.bold {
            seq!['1', ';']
        } else {
            seq![]
        }) + (if self.dimmed {
            seq!['2', ';']
        } else {
            seq![]
        }) + (if self.italic {
            seq!['3', ';']
        } else {
            seq![]
        }) + (if self.underline {
            seq!['4', ';']
        } else {
            seq![]
        }) + (if self.strikethrough {
            seq!['9', ';']
        } else {
            seq![]
        })
    }

    /// Whether no flag is on.
    #[verifier::when_used_as_spec(spec_is_default)]
    pub fn is_default(&self) -> (b: bool)
        ensures
            b == self.spec_is_default(),
    {
        !(self.bold || self.dimmed || self.italic || self.underline || self.strikethrough)
    }

    /// Whether no flag is on.
    pub open spec fn spec_is_default(&self) -> bool {
        *self == Styles::none()
    }

    /// Switches on the flag that `character` names and leaves the others as
    /// they are; refuses a character that names none, and changes nothing.
    pub fn modify_from_char(&mut self, character: char) -> (result: Result<(), ErrorKind>)
        ensures
            match old(self).with_char(character) {
                Some(styles) => result == Ok::<(), ErrorKind>(()) && *final(self) == styles,
                None => result == Err::<(), ErrorKind>(
                    ErrorKind::InvalidStyleCharacter(character),
                ) && *final(self) == *old(self),
            },
    {
        match character {
            'b' => self.bold = true,
            'd' => self.dimmed = true,
            'i' => self.italic = true,
            'u' => self.underline = true,
            's' => self.strikethrough = true,
            _ => return Err(ErrorKind::InvalidStyleCharacter(character)),
        }
        Ok(())
    }

    /// Appends the parameters of the flags that are on to `string`.
    pub fn render_to(&self, string: &mut String)
        ensures
            final(string)@ == old(string)@ + self.params(),
    {
        if self.bold {
            string.push('1');
            string.push(';');
        }
        if self.dimmed {
            string.push('2');
            string.push(';');
        }
        if self.italic {
            string.push('3');
            string.push(';');
        }
        if self.underline {
            string.push('4');
            string.push(';');
        }
        if self.strikethrough {
            string.push('9');
            string.push(';');
        }
        assert(final(string)@ =~= old(string)@ + self.params());
    }
}

} // verus!
