//! The style of a stretch of text, and the escape sequences that select it.

use vstd::prelude::*;
use crate::styling::buffer::decimal;
use crate::styling::color::Color;
use crate::styling::style::Styles;
use crate::styling::Parser;

verus! {

/// The escape sequence that puts the terminal back into its default state.
pub open spec fn reset_code() -> Seq<char> {
    seq!['\x1b', '[', '0', 'm']
}

/// Foreground color, background color and style flags of a stretch of text.
#[derive(Clone, Copy, Debug, PartialEq, Eq, Structural)]
pub struct TextStyle {
    pub foreground: Option<Color>,
    pub background: Option<Color>,
    pub styles: Styles,
}

impl Default for TextStyle {
    fn default() -> (style: TextStyle)
        ensures
            style == TextStyle::plain(),
    {
        TextStyle { foreground: None, background: None, styles: Styles::default() }
    }
}

impl TextStyle {
    /// The style of text that no directive has touched.
    pub open spec fn plain() -> TextStyle {
        TextStyle { foreground: None, background: None, styles: Styles::none() }
    }

    /// Whether this is the style of untouched text: no color, no flag.
    pub open spec fn spec_is_default(&self) -> bool {
        *self == TextStyle::plain()
    }

    /// The SGR parameters of this style: the foreground number, the
    /// background number, then the flags, each followed by a semicolon.
    pub open spec fn params(self) -> Seq<char> {
        (match self.foreground {
            Some(color) => decimal(color.foreground_code()).push(';'),
            None => seq![],
        }) + (match self.background {
            Some(color) => decimal(color.background_code()).push(';'),
            None => seq![],
        }) + self.styles.params()
    }

    /// The escape sequence that selects this style on a terminal in its
    /// default state: the introducer, the parameters without their last
    /// semicolon, and the closing `m`.
    pub open spec fn set_code(self) -> Seq<char> {
        (seq!['\x1b', '['] + self.params()).drop_last().push('m')
    }

    /// What has to be written between text in the style `self` and text in
    /// the style `next`: nothing where the two are equal; else a reset where
    /// the terminal is not in its default state or goes back to it, followed
    /// by the whole of the new style where that is not the default.
    pub open spec fn transition_to(self, next: TextStyle) -> Seq<char> {
        if self == next {
            seq![]
        } else {
            (if next.spec_is_default() || !self.spec_is_default() {
                reset_code()
            } else {
                seq![]
            }) + (if !next.spec_is_default() {
                next.set_code()
            } else {
                seq![]
            })
        }
    }

    /// What has to be written after the last text in this style: a reset,
    /// unless the style is the default.
    pub open spec fn closing(self) -> Seq<char> {
        if self.spec_is_default() {
            seq![]
        } else {
            reset_code()
        }
    }

    /// Whether this is the style of untouched text.
    #[verifier::when_used_as_spec(spec_is_default)]
    pub fn is_default(&self) -> (b: bool)
        ensures
            b == self.spec_is_default(),
    {
        self.foreground.is_none() && self.background.is_none() && self.styles.is_default()
    }

    /// Appends the escape sequence that selects this style.
    pub fn render_to(&self, output: &mut String)
        ensures
            final(output)@ == old(output)@ + self.set_code(),
    {
        output.push('\x1b');
        output.push('[');
        if let Some(fg) = self.foreground {
            fg.render_foreground_to(output);
            output.push(';');
        }
        if let Some(bg) = self.background {
            bg.render_background_to(output);
            output.push(';');
        }
        self.styles.render_to(output);
        assert(output@ =~= old(output)@ + (seq!['\x1b', '['] + self.params()));
        output.pop();
        output.push('m');
        assert(final(output)@ =~= old(output)@ + self.set_code());
    }

    /// Appends the escape sequence that resets the terminal.
    pub fn render_reset_to(output: &mut String)
        ensures
            final(output)@ == old(output)@ + reset_code(),
    {
        output.push('\x1b');
        output.push('[');
        output.push('0');
        output.push('m');
        assert(final(output)@ =~= old(output)@ + reset_code());
    }
}

impl Parser<'_> {
    /// Writes the escape sequence that selects the style asked for.
    pub fn render_style(&mut self)
        ensures
            final(self).output@ == old(self).output@ + old(self).style.set_code(),
            final(self).reader == old(self).reader,
            final(self).style == old(self).style,
            final(self).previous_style == old(self).previous_style,
            final(self).text_start_pos == old(self).text_start_pos,
    {
        self.style.render_to(&mut self.output);
    }

    /// Writes the escape sequence that resets the terminal.
    pub fn render_reset_style(&mut self)
        ensures
            final(self).output@ == old(self).output@ + reset_code(),
            final(self).reader == old(self).reader,
            final(self).style == old(self).style,
            final(self).previous_style == old(self).previous_style,
            final(self).text_start_pos == old(self).text_start_pos,
    {
        TextStyle::render_reset_to(&mut self.output);
    }
}

} // verus!
