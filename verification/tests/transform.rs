use colored_print::styling::color::Color;
use colored_print::styling::reader::Reader;
use colored_print::styling::style::Styles;
use colored_print::styling::text_style::TextStyle;
use colored_print::styling::{process_string, Diagnostic, ErrorKind, Parser};

fn ok(input: &str) -> String {
    match process_string(input) {
        Ok(text) => text,
        Err(diagnostic) => panic!("unexpected failure: {:?}", diagnostic),
    }
}

fn err(input: &str) -> Diagnostic {
    match process_string(input) {
        Ok(text) => panic!("unexpected success: {:?}", text),
        Err(diagnostic) => diagnostic,
    }
}

#[test]
fn plain_text_is_unchanged() {
    assert_eq!(ok(""), "");
    assert_eq!(ok("Hello, world!"), "Hello, world!");
    assert_eq!(ok("naïve — 日本語 🎨"), "naïve — 日本語 🎨");
}

#[test]
fn doubled_escape_is_a_literal_percent() {
    assert_eq!(ok("%%"), "%");
    assert_eq!(ok("%%%%"), "%%");
    assert_eq!(ok("10%% discount"), "10% discount");
    assert_eq!(ok("Path: %%AppData%%"), "Path: %AppData%");
}

#[test]
fn red_foreground() {
    assert_eq!(ok("%r:Hello"), "\x1b[31mHello\x1b[0m");
}

#[test]
fn bold_blue() {
    assert_eq!(ok("%b^%b:Warn"), "\x1b[34;1mWarn\x1b[0m");
    assert_eq!(ok("%b:%b^Warn"), "\x1b[34;1mWarn\x1b[0m");
}

#[test]
fn clearing_the_only_attribute_resets() {
    assert_eq!(ok("%r:Error%_: (fixed)"), "\x1b[31mError\x1b[0m (fixed)");
    assert_eq!(ok("%r:Error%__ (fixed)"), "\x1b[31mError\x1b[0m (fixed)");
}

#[test]
fn foreground_and_background_in_one_code() {
    assert_eq!(ok("%k:%g#OK"), "\x1b[30;42mOK\x1b[0m");
    assert_eq!(ok("%g#%k:OK"), "\x1b[30;42mOK\x1b[0m");
}

#[test]
fn parameter_comes_before_action() {
    let diagnostic = err("%k:%#gOK");
    assert_eq!(diagnostic.kind, ErrorKind::InvalidActionCharacter('g'));
    assert_eq!(diagnostic.byte_position, 4);
    assert_eq!(diagnostic.remaining_input, "#gOK");
}

#[test]
fn bright_colors() {
    assert_eq!(ok("%M:Vibrant!"), "\x1b[95mVibrant!\x1b[0m");
    assert_eq!(ok("%W:%B#Highlight"), "\x1b[97;104mHighlight\x1b[0m");
    assert_eq!(ok("%K:%W#x"), "\x1b[90;107mx\x1b[0m");
}

#[test]
fn every_flag_in_fixed_order() {
    assert_eq!(ok("%s^%u^%i^%d^%b^x"), "\x1b[1;2;3;4;9mx\x1b[0m");
    assert_eq!(ok("%s^gone"), "\x1b[9mgone\x1b[0m");
}

#[test]
fn switching_styles_resets_then_sets() {
    assert_eq!(ok("%r:a%g:b"), "\x1b[31ma\x1b[0m\x1b[32mb\x1b[0m");
    assert_eq!(
        ok("Status: %g:OK%_:, %r:FAIL"),
        "Status: \x1b[32mOK\x1b[0m, \x1b[31mFAIL\x1b[0m"
    );
}

#[test]
fn clearing_flags_keeps_colors() {
    assert_eq!(
        ok("%G:You won %b^5$%_^ now"),
        "\x1b[92mYou won \x1b[0m\x1b[92;1m5$\x1b[0m\x1b[92m now\x1b[0m"
    );
}

#[test]
fn repeated_directive_writes_nothing() {
    assert_eq!(ok("%r:a%r:b"), "\x1b[31mab\x1b[0m");
    assert_eq!(ok("a%__b"), "ab");
    assert_eq!(ok("%_:%_#%_^x"), "x");
}

#[test]
fn directives_without_text() {
    assert_eq!(ok("%r:"), "\x1b[31m\x1b[0m");
    assert_eq!(ok("%r:%__"), "");
    assert_eq!(ok("x%r:"), "x\x1b[31m\x1b[0m");
}

#[test]
fn doubled_escape_ends_a_run() {
    assert_eq!(ok("%r:%%"), "\x1b[31m%\x1b[0m");
    assert_eq!(ok("%%%r:x"), "%\x1b[31mx\x1b[0m");
    assert_eq!(ok("%%r:x"), "%r:x");
}

#[test]
fn invalid_color_character() {
    let diagnostic = err("%q:text");
    assert_eq!(diagnostic.kind, ErrorKind::InvalidColorCharacter('q'));
    assert_eq!(diagnostic.byte_position, 1);
    assert_eq!(diagnostic.remaining_input, "q:text");
    assert_eq!(diagnostic.message(), "Invalid color character 'q'");
    assert_eq!(err("ab%d#").kind, ErrorKind::InvalidColorCharacter('d'));
}

#[test]
fn invalid_style_character() {
    let diagnostic = err("é%r:x%k^y");
    assert_eq!(diagnostic.kind, ErrorKind::InvalidStyleCharacter('k'));
    assert_eq!(diagnostic.byte_position, 7);
    assert_eq!(diagnostic.remaining_input, "k^y");
    assert_eq!(diagnostic.message(), "Invalid style character 'k'");
}

#[test]
fn invalid_action_character() {
    let diagnostic = err("%r!x");
    assert_eq!(diagnostic.kind, ErrorKind::InvalidActionCharacter('!'));
    assert_eq!(diagnostic.byte_position, 1);
    assert_eq!(diagnostic.remaining_input, "r!x");
    assert_eq!(diagnostic.message(), "Invalid action character '!'");
    assert_eq!(err("%r_").kind, ErrorKind::InvalidActionCharacter('_'));
    assert_eq!(err("%q!").kind, ErrorKind::InvalidActionCharacter('!'));
}

#[test]
fn unexpected_end_of_input() {
    let diagnostic = err("abc%");
    assert_eq!(diagnostic.kind, ErrorKind::UnexpectedEndOfInput);
    assert_eq!(diagnostic.byte_position, 4);
    assert_eq!(diagnostic.remaining_input, "");
    assert_eq!(diagnostic.message(), "Unexpected end of string in a color escape");
    let diagnostic = err("日本%r");
    assert_eq!(diagnostic.kind, ErrorKind::UnexpectedEndOfInput);
    assert_eq!(diagnostic.byte_position, 7);
    assert_eq!(diagnostic.remaining_input, "r");
}

#[test]
fn first_failure_wins() {
    let diagnostic = err("%r:ok%z:%y!");
    assert_eq!(diagnostic.kind, ErrorKind::InvalidColorCharacter('z'));
    assert_eq!(diagnostic.byte_position, 6);
    assert_eq!(diagnostic.remaining_input, "z:%y!");
}

#[test]
fn color_from_char() {
    assert_eq!(Color::from_char('k'), Ok(Color::Black));
    assert_eq!(Color::from_char('b'), Ok(Color::Blue));
    assert_eq!(Color::from_char('w'), Ok(Color::White));
    assert_eq!(Color::from_char('K'), Ok(Color::BrightBlack));
    assert_eq!(Color::from_char('Y'), Ok(Color::BrightYellow));
    assert_eq!(Color::from_char('_'), Err(ErrorKind::InvalidColorCharacter('_')));
    assert_eq!(Color::from_char('x'), Err(ErrorKind::InvalidColorCharacter('x')));
}

#[test]
fn color_numbers() {
    let mut out = String::new();
    Color::Black.render_foreground_to(&mut out);
    out.push(' ');
    Color::White.render_foreground_to(&mut out);
    out.push(' ');
    Color::BrightBlack.render_foreground_to(&mut out);
    out.push(' ');
    Color::BrightWhite.render_foreground_to(&mut out);
    out.push(' ');
    Color::Black.render_background_to(&mut out);
    out.push(' ');
    Color::Cyan.render_background_to(&mut out);
    out.push(' ');
    Color::BrightBlack.render_background_to(&mut out);
    out.push(' ');
    Color::BrightWhite.render_background_to(&mut out);
    assert_eq!(out, "30 37 90 97 40 46 100 107");
}

#[test]
fn styles_modify_and_render() {
    let mut styles = Styles::default();
    assert!(styles.is_default());
    assert_eq!(styles.modify_from_char('u'), Ok(()));
    assert_eq!(styles.modify_from_char('b'), Ok(()));
    assert!(!styles.is_default());
    assert!(styles.bold && styles.underline && !styles.italic);
    let before = styles;
    assert_eq!(styles.modify_from_char('x'), Err(ErrorKind::InvalidStyleCharacter('x')));
    assert_eq!(styles, before);
    let mut out = String::from(">");
    styles.render_to(&mut out);
    assert_eq!(out, ">1;4;");
}

#[test]
fn text_style_default_and_render() {
    let plain = TextStyle::default();
    assert!(plain.is_default());
    let mut style = plain;
    style.background = Some(Color::BrightRed);
    assert!(!style.is_default());
    assert_ne!(style, plain);
    let mut out = String::from("x");
    style.render_to(&mut out);
    assert_eq!(out, "x\x1b[101m");
    TextStyle::render_reset_to(&mut out);
    assert_eq!(out, "x\x1b[101m\x1b[0m");
}

#[test]
fn reader_moves_by_whole_characters() {
    let mut reader = Reader::new("aé日🎨");
    assert_eq!(reader.string(), "aé日🎨");
    assert_eq!(reader.position(), 0);
    assert_eq!(reader.peek(), Some('a'));
    assert_eq!(reader.peek(), Some('a'));
    assert_eq!(reader.next(), Some('a'));
    assert_eq!(reader.position(), 1);
    assert_eq!(reader.next(), Some('é'));
    assert_eq!(reader.position(), 3);
    assert_eq!(reader.next_escape_char(), Ok('日'));
    assert_eq!(reader.position(), 6);
    assert_eq!(reader.index(), 3);
    assert_eq!(reader.remainder_from(reader.position()), "🎨");
    assert_eq!(reader.remainder_from(2), "日🎨");
    assert_eq!(reader.remainder_from(0), "aé日🎨");
    assert_eq!(reader.remainder_from(100), "");
    assert_eq!(reader.next(), Some('🎨'));
    assert_eq!(reader.position(), 10);
    assert_eq!(reader.position(), "aé日🎨".len());
    assert_eq!(reader.peek(), None);
    assert_eq!(reader.next(), None);
    assert_eq!(reader.next_escape_char(), Err(ErrorKind::UnexpectedEndOfInput));
    assert_eq!(reader.position(), 10);
    let mut out = String::new();
    reader.copy_range_to(&mut out, 1, 3);
    assert_eq!(out, "é日");
}

#[test]
fn parser_steps() {
    let mut parser = Parser::new("ab%r:cd");
    assert!(parser.style.is_default());
    assert_eq!(parser.process_escape_sequence('r', ':'), Ok(()));
    assert_eq!(parser.style.foreground, Some(Color::Red));
    assert_eq!(parser.process_escape_sequence('y', '#'), Ok(()));
    assert_eq!(parser.process_escape_sequence('i', '^'), Ok(()));
    assert_eq!(parser.process_escape_sequence('_', ':'), Ok(()));
    assert_eq!(parser.style.foreground, None);
    assert_eq!(parser.style.background, Some(Color::Yellow));
    assert!(parser.style.styles.italic);
    assert_eq!(
        parser.process_escape_sequence('_', '?'),
        Err(ErrorKind::InvalidActionCharacter('?'))
    );
    parser.reader.next();
    parser.reader.next();
    parser.write_buffer(2);
    assert_eq!(parser.output, "ab\x1b[43;3m");
    assert_eq!(parser.previous_style, parser.style);
    assert_eq!(parser.text_start_pos, 2);
    assert_eq!(parser.process_escape_sequence('_', '_'), Ok(()));
    assert!(parser.style.is_default());
    parser.write_buffer(2);
    assert_eq!(parser.output, "ab\x1b[43;3m\x1b[0m");
    parser.render_style();
    assert_eq!(parser.output, "ab\x1b[43;3m\x1b[0m\x1bm");
    parser.render_reset_style();
    assert_eq!(parser.output, "ab\x1b[43;3m\x1b[0m\x1bm\x1b[0m");
}
