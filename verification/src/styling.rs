//! The markup-to-ANSI compiler: cursor, directive grammar, style state,
//! renderer and driver.

use vstd::prelude::*;
use vstd::string::StringExecFns;
use crate::styling::color::{color_of_char, Color};
use crate::styling::reader::{byte_len, index_of_offset, lemma_index_of_offset, Reader};
use crate::styling::style::Styles;
use crate::styling::text_style::TextStyle;
use crate::styling::laws::{
    lemma_compile_text, lemma_compile_transition, lemma_prepend_nothing, lemma_prepend_twice,
};

pub mod buffer;
pub mod color;
pub mod laws;
pub mod reader;
pub mod style;
pub mod text_style;

verus! {

/// The character that introduces a directive.
pub const ESCAPE: char = '%';

/// The parameter that clears instead of setting.
pub const RESET: char = '_';

/// The action that sets or clears the background color.
pub const BACKGROUND: char = '#';

/// The action that sets or clears the foreground color.
pub const FOREGROUND: char = ':';

/// The action that adds a style flag or clears all of them.
pub const STYLE: char = '^';

/// The action that, with the reset parameter, clears the whole style.
pub const ALL: char = '_';

/// Why a directive was refused.
#[derive(Clone, Copy, Debug, PartialEq, Eq, Structural)]
pub enum ErrorKind {
    /// The input ended before the directive had both its parameter and its
    /// action character.
    UnexpectedEndOfInput,
    /// The parameter of a color action names no color.
    InvalidColorCharacter(char),
    /// The parameter of the style action names no style flag.
    InvalidStyleCharacter(char),
    /// The action character is none of the four actions, or the clear-all
    /// action came without the reset parameter.
    InvalidActionCharacter(char),
}

impl ErrorKind {
    /// The text that describes this kind of error, with the offending
    /// character between single quotes where there is one.
    pub open spec fn spec_message(self) -> Seq<char> {
        match self {
            ErrorKind::UnexpectedEndOfInput => "Unexpected end of string in a color escape"@,
            ErrorKind::InvalidColorCharacter(c) => "Invalid color character "@ + seq!['\'', c, '\''],
            ErrorKind::InvalidStyleCharacter(c) => "Invalid style character "@ + seq!['\'', c, '\''],
            ErrorKind::InvalidActionCharacter(c) => "Invalid action character "@ + seq![
                '\'',
                c,
                '\'',
            ],
        }
    }

    /// The text that describes this kind of error.
    pub fn message(&self) -> (message: String)
        ensures
            message@ == self.spec_message(),
    {
        let (mut message, offender) = match self {
            ErrorKind::UnexpectedEndOfInput => {
                return String::from_str("Unexpected end of string in a color escape");
            },
            ErrorKind::InvalidColorCharacter(c) => (String::from_str("Invalid color character "), *c),
            ErrorKind::InvalidStyleCharacter(c) => (String::from_str("Invalid style character "), *c),
            ErrorKind::InvalidActionCharacter(c) => (
                String::from_str("Invalid action character "),
                *c,
            ),
        };
        let ghost stem = message@;
        message.push('\'');
        message.push(offender);
        message.push('\'');
        assert(message@ =~= stem + seq!['\'', offender, '\'']);
        message
    }
}

/// The first failure of a transformation: what was wrong, and where.
#[derive(Debug, PartialEq, Eq)]
pub struct Diagnostic {
    /// What was wrong with the directive.
    pub kind: ErrorKind,
    /// The byte offset, in the UTF-8 encoding of the input, of the place
    /// just behind the escape character of the directive that failed.
    pub byte_position: usize,
    /// The input from that place to its end.
    pub remaining_input: String,
}

impl Diagnostic {
    /// The text that describes the failure.
    pub fn message(&self) -> (message: String)
        ensures
            message@ == self.kind.spec_message(),
    {
        self.kind.message()
    }
}

/// What a transformation gives in the model: the output text, or the kind of
/// the first failure with the index of the character behind the escape
/// character of the directive that failed.
pub type Outcome = Result<Seq<char>, (ErrorKind, int)>;

/// The style after the directive made of `param` and `action` has been
/// applied to `style`, or the reason why the pair is no directive.
pub open spec fn apply_directive(style: TextStyle, param: char, action: char) -> Result<
    TextStyle,
    ErrorKind,
> {
    if action == BACKGROUND {
        if param == RESET {
            Ok(TextStyle { background: None, ..style })
        } else {
            match color_of_char(param) {
                Some(color) => Ok(TextStyle { background: Some(color), ..style }),
                None => Err(ErrorKind::InvalidColorCharacter(param)),
            }
        }
    } else if action == FOREGROUND {
        if param == RESET {
            Ok(TextStyle { foreground: None, ..style })
        } else {
            match color_of_char(param) {
                Some(color) => Ok(TextStyle { foreground: Some(color), ..style }),
                None => Err(ErrorKind::InvalidColorCharacter(param)),
            }
        }
    } else if action == STYLE {
        if param == RESET {
            Ok(TextStyle { styles: Styles::none(), ..style })
        } else {
            match style.styles.with_char(param) {
                Some(styles) => Ok(TextStyle { styles, ..style }),
                None => Err(ErrorKind::InvalidStyleCharacter(param)),
            }
        }
    } else if action == ALL && param == RESET {
        Ok(TextStyle::plain())
    } else {
        Err(ErrorKind::InvalidActionCharacter(action))
    }
}

/// `rest` with `prefix` put in front of its text; a failure stays as it is.
pub open spec fn prepend(prefix: Seq<char>, rest: Outcome) -> Outcome {
    match rest {
        Ok(text) => Ok(prefix + text),
        Err(failure) => Err(failure),
    }
}

/// What the input gives from the index `i` on, where the terminal shows the
/// style `active` and the directives read since the last text ask for the
/// style `pending`.
///
/// Text and a doubled escape character are written behind the transition
/// from `active` to `pending`; a directive changes `pending` alone; the end
/// of the input closes the style.
pub open spec fn compile(input: Seq<char>, i: int, pending: TextStyle, active: TextStyle) -> Outcome
    decreases input.len() - i,
{
    if i >= input.len() {
        Ok(active.transition_to(pending) + pending.closing())
    } else if input[i] != ESCAPE {
        prepend(
            active.transition_to(pending).push(input[i]),
            compile(input, i + 1, pending, pending),
        )
    } else if i + 1 < input.len() && input[i + 1] == ESCAPE {
        prepend(
            active.transition_to(pending).push(ESCAPE),
            compile(input, i + 2, pending, pending),
        )
    } else if i + 2 >= input.len() {
        Err((ErrorKind::UnexpectedEndOfInput, i + 1))
    } else {
        match apply_directive(pending, input[i + 1], input[i + 2]) {
            Ok(next) => compile(input, i + 3, next, active),
            Err(kind) => Err((kind, i + 1)),
        }
    }
}

/// Where the escape run that starts at the index `i` ends, with the style
/// that its directives make of `pending`, and whether it ends with a doubled
/// escape character; or the failure of its first malformed directive.
///
/// A run is a row of directives. It ends before text and at the end of the
/// input, and it ends behind a doubled escape character.
pub open spec fn scan_run(input: Seq<char>, i: int, pending: TextStyle) -> Result<
    (int, TextStyle, bool),
    (ErrorKind, int),
>
    decreases input.len() - i,
{
    if i >= input.len() || input[i] != ESCAPE {
        Ok((i, pending, false))
    } else if i + 1 < input.len() && input[i + 1] == ESCAPE {
        Ok((i + 2, pending, true))
    } else if i + 2 >= input.len() {
        Err((ErrorKind::UnexpectedEndOfInput, i + 1))
    } else {
        match apply_directive(pending, input[i + 1], input[i + 2]) {
            Ok(next) => scan_run(input, i + 3, next),
            Err(kind) => Err((kind, i + 1)),
        }
    }
}

/// What the whole input gives on a terminal in its default state.
pub open spec fn transform(input: Seq<char>) -> Outcome {
    compile(input, 0, TextStyle::plain(), TextStyle::plain())
}

/// Whether the diagnostic reports the failure of `kind` at the character of
/// index `index` of `input`: with that kind, the byte offset of that
/// character, and the input from there on.
pub open spec fn reports(
    diagnostic: Diagnostic,
    kind: ErrorKind,
    index: int,
    input: Seq<char>,
) -> bool {
    &&& diagnostic.kind == kind
    &&& diagnostic.byte_position == byte_len(input.take(index))
    &&& diagnostic.remaining_input@ == input.skip(index)
}

/// Whether `result` is what the model asks for on `input`: the same text, or
/// a diagnostic of the same failure.
pub open spec fn agrees(
    result: Result<String, Diagnostic>,
    expected: Outcome,
    input: Seq<char>,
) -> bool {
    match expected {
        Ok(text) => result is Ok && result->Ok_0@ == text,
        Err((kind, index)) => result is Err && reports(result->Err_0, kind, index, input),
    }
}

/// Whether `next` is the escape character.
fn is_escape(next: Option<char>) -> (b: bool)
    ensures
        b == (next == Some(ESCAPE)),
{
    match next {
        Some(c) => c == ESCAPE,
        None => false,
    }
}

/// The state of one transformation.
pub struct Parser<'a> {
    /// The cursor over the input.
    pub reader: Reader<'a>,
    /// The output written so far.
    pub output: String,
    /// The style that the directives read so far ask for.
    pub style: TextStyle,
    /// The style that the output written so far leaves the terminal in.
    pub previous_style: TextStyle,
    /// The index of the first character of the input that has been read as
    /// text and not been written yet.
    pub text_start_pos: usize,
}

impl<'a> Parser<'a> {
    /// What holds between two escape runs: the text that waits to be written
    /// lies before the cursor and holds no escape character, and no change
    /// of style is pending.
    pub open spec fn wf(&self) -> bool {
        &&& self.reader.wf()
        &&& self.text_start_pos <= self.reader.consumed() <= self.reader.text().len()
        &&& self.style == self.previous_style
        &&& forall|j: int|
            self.text_start_pos <= j < self.reader.consumed() ==> self.reader.text()[j] != ESCAPE
    }

    /// What the transformation will give from this state on: the output so
    /// far, followed by what the input gives from the waiting text on.
    pub open spec fn outcome(&self) -> Outcome {
        prepend(
            self.output@,
            compile(self.reader.text(), self.text_start_pos as int, self.style, self.style),
        )
    }

    /// The state at the start of `input_string`: nothing read, nothing
    /// written, the default style.
    pub fn new(input_string: &'a str) -> (parser: Parser<'a>)
        ensures
            parser.wf(),
            parser.reader.text() == input_string@,
            parser.reader.consumed() == 0,
            parser.output@ == Seq::<char>::empty(),
            parser.style == TextStyle::plain(),
            parser.previous_style == TextStyle::plain(),
            parser.text_start_pos == 0,
    {
        let reader = Reader::new(input_string);
        proof {
            reader.lemma_consumed_in_bounds();
        }
        Parser {
            reader,
            output: String::new(),
            style: TextStyle::default(),
            previous_style: TextStyle::default(),
            text_start_pos: 0,
        }
    }

    /// Runs the transformation from this state to the end of the input, and
    /// returns the output, or the diagnostic of the first directive that
    /// fails.
    pub fn process(self) -> (result: Result<String, Diagnostic>)
        requires
            self.wf(),
        ensures
            agrees(result, self.outcome(), self.reader.text()),
    {
        let mut parser = self;
        loop
            invariant
                parser.wf(),
                parser.reader.text() == self.reader.text(),
                parser.outcome() == self.outcome(),
            decreases parser.reader.text().len() - parser.reader.consumed(),
        {
            match parser.reader.peek() {
                None => {
                    let end = parser.reader.index();
                    proof {
                        let input = parser.reader.text();
                        let style = parser.style;
                        lemma_compile_text(input, parser.text_start_pos as int, end as int, style);
                        lemma_compile_transition(input, end as int, style, style);
                        lemma_prepend_twice(
                            parser.output@,
                            input.subrange(parser.text_start_pos as int, end as int),
                            compile(input, end as int, style, style),
                        );
                    }
                    let ghost written = parser.output@;
                    parser.reader.copy_range_to(&mut parser.output, parser.text_start_pos, end);
                    if !parser.style.is_default() {
                        parser.render_reset_style();
                    }
                    assert(parser.output@ =~= (written + parser.reader.text().subrange(
                        parser.text_start_pos as int,
                        end as int,
                    )) + (parser.style.transition_to(parser.style) + parser.style.closing()));
                    return Ok(parser.output);
                },
                Some(first_char) => {
                    if first_char != ESCAPE {
                        parser.reader.next();
                    } else {
                        match parser.process_escape_run() {
                            Ok(()) => {},
                            Err(diagnostic) => {
                                return Err(diagnostic);
                            },
                        }
                    }
                },
            }
        }
    }

    /// Reads one escape run, which starts at the cursor: the directives up
    /// to the next text, the end of the input or a doubled escape character.
    /// It then writes the text that waited, the change of style that the
    /// directives have asked for and, for a doubled escape character, that
    /// character.
    pub fn process_escape_run(&mut self) -> (result: Result<(), Diagnostic>)
        requires
            old(self).wf(),
            old(self).reader.spec_peek() == Some(ESCAPE),
        ensures
            final(self).reader.text() == old(self).reader.text(),
            match scan_run(old(self).reader.text(), old(self).reader.consumed(), old(self).style) {
                Ok((end, style, literal)) => {
                    &&& result is Ok
                    &&& final(self).wf()
                    &&& final(self).outcome() == old(self).outcome()
                    &&& final(self).reader.consumed() == end
                    &&& end > old(self).reader.consumed()
                    &&& final(self).text_start_pos == end
                    &&& final(self).style == style
                    &&& final(self).output@ == old(self).output@ + old(self).reader.text().subrange(
                        old(self).text_start_pos as int,
                        old(self).reader.consumed(),
                    ) + old(self).previous_style.transition_to(style) + (if literal {
                        seq![ESCAPE]
                    } else {
                        Seq::<char>::empty()
                    })
                },
                Err((kind, index)) => {
                    &&& result is Err
                    &&& reports(result->Err_0, kind, index, old(self).reader.text())
                    &&& old(self).outcome() == Err::<Seq<char>, (ErrorKind, int)>((kind, index))
                },
            },
    {
        let escape_start = self.reader.index();
        let ghost input = self.reader.text();
        let ghost active = self.previous_style;
        let ghost target = compile(input, escape_start as int, active, active);
        proof {
            lemma_compile_text(input, self.text_start_pos as int, escape_start as int, active);
            lemma_prepend_twice(
                self.output@,
                input.subrange(self.text_start_pos as int, escape_start as int),
                target,
            );
        }
        loop
            invariant
                self.reader.wf(),
                self.reader.text() == input,
                input == old(self).reader.text(),
                self.output@ == old(self).output@,
                self.text_start_pos == old(self).text_start_pos,
                self.previous_style == active,
                self.text_start_pos <= escape_start <= self.reader.consumed() <= input.len(),
                escape_start == old(self).reader.consumed(),
                self.reader.consumed() == escape_start ==> self.reader.spec_peek() == Some(ESCAPE),
                target == compile(input, self.reader.consumed(), self.style, active),
                scan_run(input, escape_start as int, old(self).style) == scan_run(
                    input,
                    self.reader.consumed(),
                    self.style,
                ),
                active == old(self).previous_style,
                old(self).outcome() == prepend(
                    self.output@ + input.subrange(self.text_start_pos as int, escape_start as int),
                    target,
                ),
            decreases input.len() - self.reader.consumed(),
        {
            let ghost at = self.reader.consumed();
            let ghost written = self.output@ + input.subrange(
                self.text_start_pos as int,
                escape_start as int,
            );
            if !is_escape(self.reader.peek()) {
                proof {
                    lemma_compile_transition(input, at, self.style, active);
                    lemma_prepend_twice(
                        written,
                        active.transition_to(self.style),
                        compile(input, at, self.style, self.style),
                    );
                }
                self.write_buffer(escape_start);
                assert(self.output@ =~= written + active.transition_to(self.style)
                    + Seq::<char>::empty());
                return Ok(());
            }
            self.reader.next();
            let directive_start = self.reader.position();
            proof {
                self.reader.lemma_consumed_in_bounds();
                lemma_index_of_offset(input, at + 1);
            }
            if is_escape(self.reader.peek()) {
                self.reader.next();
                proof {
                    self.reader.lemma_consumed_in_bounds();
                    lemma_prepend_twice(
                        written,
                        active.transition_to(self.style).push(ESCAPE),
                        compile(input, at + 2, self.style, self.style),
                    );
                }
                self.write_buffer(escape_start);
                self.output.push(ESCAPE);
                assert(self.output@ =~= written + active.transition_to(self.style).push(ESCAPE));
                return Ok(());
            }
            let param = match self.reader.next_escape_char() {
                Ok(param) => param,
                Err(kind) => {
                    return Err(self.diagnostic(kind, directive_start));
                },
            };
            let action = match self.reader.next_escape_char() {
                Ok(action) => action,
                Err(kind) => {
                    return Err(self.diagnostic(kind, directive_start));
                },
            };
            proof {
                self.reader.lemma_consumed_in_bounds();
            }
            match self.process_escape_sequence(param, action) {
                Ok(()) => {},
                Err(kind) => {
                    return Err(self.diagnostic(kind, directive_start));
                },
            }
        }
    }

    /// The diagnostic of a failure of `kind` in the directive whose
    /// parameter stands at the byte offset `position`.
    fn diagnostic(&self, kind: ErrorKind, position: usize) -> (diagnostic: Diagnostic)
        requires
            self.reader.wf(),
        ensures
            diagnostic.kind == kind,
            diagnostic.byte_position == position,
            diagnostic.remaining_input@ == self.reader.text().skip(
                index_of_offset(self.reader.text(), position as nat),
            ),
    {
        Diagnostic {
            kind,
            byte_position: position,
            remaining_input: self.reader.remainder_from(position),
        }
    }

    /// Applies the directive made of `param` and `action` to the style, or
    /// refuses the pair and leaves the style as it is.
    pub fn process_escape_sequence(&mut self, param: char, action: char) -> (result: Result<
        (),
        ErrorKind,
    >)
        ensures
            final(self).reader == old(self).reader,
            final(self).output == old(self).output,
            final(self).previous_style == old(self).previous_style,
            final(self).text_start_pos == old(self).text_start_pos,
            match apply_directive(old(self).style, param, action) {
                Ok(style) => result == Ok::<(), ErrorKind>(()) && final(self).style == style,
                Err(kind) => result == Err::<(), ErrorKind>(kind) && final(self).style == old(
                    self,
                ).style,
            },
    {
        if action == BACKGROUND {
            if param == RESET {
                self.style.background = None;
            } else {
                match Color::from_char(param) {
                    Ok(color) => {
                        self.style.background = Some(color);
                    },
                    Err(kind) => {
                        return Err(kind);
                    },
                }
            }
        } else if action == FOREGROUND {
            if param == RESET {
                self.style.foreground = None;
            } else {
                match Color::from_char(param) {
                    Ok(color) => {
                        self.style.foreground = Some(color);
                    },
                    Err(kind) => {
                        return Err(kind);
                    },
                }
            }
        } else if action == STYLE {
            if param == RESET {
                self.style.styles = Styles::default();
            } else {
                match self.style.styles.modify_from_char(param) {
                    Ok(()) => {},
                    Err(kind) => {
                        return Err(kind);
                    },
                }
            }
        } else if action == ALL && param == RESET {
            self.style = TextStyle::default();
        } else {
            return Err(ErrorKind::InvalidActionCharacter(action));
        }
        Ok(())
    }

    /// Writes the text that waits, up to the index `escape_start`, and then
    /// the change from the style that the terminal shows to the style that
    /// the directives have asked for. Text read from now on waits from the
    /// cursor on.
    pub fn write_buffer(&mut self, escape_start: usize)
        requires
            old(self).reader.wf(),
            old(self).text_start_pos <= escape_start <= old(self).reader.text().len(),
        ensures
            final(self).reader == old(self).reader,
            final(self).style == old(self).style,
            final(self).previous_style == old(self).style,
            final(self).text_start_pos == old(self).reader.consumed(),
            final(self).output@ == old(self).output@ + old(self).reader.text().subrange(
                old(self).text_start_pos as int,
                escape_start as int,
            ) + old(self).previous_style.transition_to(old(self).style),
    {
        self.reader.copy_range_to(&mut self.output, self.text_start_pos, escape_start);
        let ghost written = self.output@;
        if self.style != self.previous_style {
            if self.style.is_default() || !self.previous_style.is_default() {
                self.render_reset_style();
            }
            if !self.style.is_default() {
                self.render_style();
            }
        }
        assert(self.output@ =~= written + self.previous_style.transition_to(self.style));
        self.text_start_pos = self.reader.index();
        self.previous_style = self.style;
    }
}

/// Compiles the markup in `string` into text with ANSI escape sequences, or
/// reports the first directive that is malformed.
pub fn process_string(string: &str) -> (result: Result<String, Diagnostic>)
    ensures
        agrees(result, transform(string@), string@),
{
    let parser = Parser::new(string);
    proof {
        lemma_prepend_nothing(transform(string@));
    }
    parser.process()
}

} // verus!
