//! What holds of the compiler's model on every input.

use vstd::prelude::*;
use crate::styling::{
    apply_directive, compile, prepend, transform, ErrorKind, Outcome, ALL, ESCAPE, RESET, STYLE,
};
use crate::styling::text_style::{reset_code, TextStyle};

verus! {

/// Putting two prefixes in front, one after the other, is putting their
/// concatenation in front.
pub proof fn lemma_prepend_twice(first: Seq<char>, second: Seq<char>, rest: Outcome)
    ensures
        prepend(first, prepend(second, rest)) == prepend(first + second, rest),
{
    match rest {
        Ok(text) => {
            assert(first + (second + text) =~= (first + second) + text);
        },
        Err(_) => {},
    }
}

/// Putting the empty text in front changes nothing.
pub proof fn lemma_prepend_nothing(rest: Outcome)
    ensures
        prepend(Seq::<char>::empty(), rest) == rest,
{
    match rest {
        Ok(text) => {
            assert(Seq::<char>::empty() + text =~= text);
        },
        Err(_) => {},
    }
}

/// A stretch of the input without an escape character comes out as it is,
/// where no change of style is pending.
pub proof fn lemma_compile_text(input: Seq<char>, from: int, to: int, style: TextStyle)
    requires
        0 <= from <= to <= input.len(),
        forall|j: int| from <= j < to ==> input[j] != ESCAPE,
    ensures
        compile(input, from, style, style) == prepend(
            input.subrange(from, to),
            compile(input, to, style, style),
        ),
    decreases to - from,
{
    if from == to {
        assert(input.subrange(from, to) =~= Seq::<char>::empty());
        lemma_prepend_nothing(compile(input, to, style, style));
    } else {
        lemma_compile_text(input, from + 1, to, style);
        let head = style.transition_to(style).push(input[from]);
        lemma_prepend_twice(head, input.subrange(from + 1, to), compile(input, to, style, style));
        assert(head + input.subrange(from + 1, to) =~= input.subrange(from, to));
    }
}

/// Where text or the end of the input follows, the pending change of style
/// is written first, and the rest is compiled with nothing pending.
pub proof fn lemma_compile_transition(
    input: Seq<char>,
    i: int,
    pending: TextStyle,
    active: TextStyle,
)
    requires
        0 <= i <= input.len(),
        i < input.len() ==> input[i] != ESCAPE,
    ensures
        compile(input, i, pending, active) == prepend(
            active.transition_to(pending),
            compile(input, i, pending, pending),
        ),
{
    let change = active.transition_to(pending);
    let none = pending.transition_to(pending);
    assert(none =~= Seq::<char>::empty());
    if i >= input.len() {
        assert(change + (none + pending.closing()) =~= change + pending.closing());
    } else {
        let rest = compile(input, i + 1, pending, pending);
        lemma_prepend_twice(change, none.push(input[i]), rest);
        assert(change + none.push(input[i]) =~= change.push(input[i]));
    }
}

/// Text without an escape character comes out as it is, with no escape
/// sequence before, inside or behind it.
pub proof fn law_plain_text_unchanged(input: Seq<char>)
    requires
        forall|j: int| 0 <= j < input.len() ==> input[j] != ESCAPE,
    ensures
        transform(input) == Ok::<Seq<char>, (ErrorKind, int)>(input),
{
    let plain = TextStyle::plain();
    let end = input.len() as int;
    lemma_compile_text(input, 0, end, plain);
    assert(input.subrange(0, end) =~= input);
    assert(input + (plain.transition_to(plain) + plain.closing()) =~= input);
}

/// One directive in front of text without an escape character gives the
/// escape sequence of the style that the directive makes of the default
/// style, then the text, then one reset, where that style is not the default
/// itself.
pub proof fn law_single_directive(param: char, action: char, text: Seq<char>, style: TextStyle)
    requires
        apply_directive(TextStyle::plain(), param, action) == Ok::<TextStyle, ErrorKind>(style),
        !style.spec_is_default(),
        forall|j: int| 0 <= j < text.len() ==> text[j] != ESCAPE,
    ensures
        transform(seq![ESCAPE, param, action] + text) == Ok::<Seq<char>, (ErrorKind, int)>(
            style.set_code() + text + reset_code(),
        ),
{
    let plain = TextStyle::plain();
    let input = seq![ESCAPE, param, action] + text;
    let end = input.len() as int;
    assert(input[0] == ESCAPE && input[1] == param && input[2] == action);
    assert(param != ESCAPE);
    assert(transform(input) == compile(input, 3, style, plain));
    assert forall|j: int| 3 <= j < end implies input[j] != ESCAPE by {
        assert(input[j] == text[j - 3]);
    }
    lemma_compile_transition(input, 3, style, plain);
    lemma_compile_text(input, 3, end, style);
    assert(input.subrange(3, end) =~= text);
    assert(plain.transition_to(style) =~= style.set_code());
    assert(style.set_code() + (text + (style.transition_to(style) + style.closing()))
        =~= style.set_code() + text + reset_code());
}

/// A directive that leaves the style as it is writes nothing: between equal
/// styles there is no transition, and the input gives what it gives from
/// behind the directive.
pub proof fn law_unchanged_style_writes_nothing(
    input: Seq<char>,
    i: int,
    style: TextStyle,
)
    requires
        0 <= i,
        i + 3 <= input.len(),
        input[i] == ESCAPE,
        apply_directive(style, input[i + 1], input[i + 2]) == Ok::<TextStyle, ErrorKind>(style),
    ensures
        style.transition_to(style) == Seq::<char>::empty(),
        compile(input, i, style, style) == compile(input, i + 3, style, style),
{
    assert(input[i + 1] != ESCAPE);
}

/// Between two different styles of which neither is the default, exactly one
/// reset is written, and behind it the escape sequence of the new style.
pub proof fn law_switch_resets_then_sets(from: TextStyle, to: TextStyle)
    requires
        from != to,
        !from.spec_is_default(),
        !to.spec_is_default(),
    ensures
        from.transition_to(to) == reset_code() + to.set_code(),
{
}

/// At the end of the input one reset is written where the style is not the
/// default, and nothing where it is.
pub proof fn law_end_of_input(input: Seq<char>, style: TextStyle)
    ensures
        compile(input, input.len() as int, style, style) == Ok::<Seq<char>, (ErrorKind, int)>(
            if style.spec_is_default() {
                Seq::<char>::empty()
            } else {
                reset_code()
            },
        ),
{
    assert(style.transition_to(style) + style.closing() =~= style.closing());
}

/// A style directive only switches flags on: every flag that was on stays
/// on, and the colors stay as they were.
pub proof fn law_flags_only_turn_on(style: TextStyle, param: char, next: TextStyle)
    requires
        param != RESET,
        apply_directive(style, param, STYLE) == Ok::<TextStyle, ErrorKind>(next),
    ensures
        next.foreground == style.foreground,
        next.background == style.background,
        style.styles.bold ==> next.styles.bold,
        style.styles.dimmed ==> next.styles.dimmed,
        style.styles.italic ==> next.styles.italic,
        style.styles.underline ==> next.styles.underline,
        style.styles.strikethrough ==> next.styles.strikethrough,
{
}

/// The clear-all directive gives the default style, whatever the style was.
pub proof fn law_reset_clears_everything(style: TextStyle)
    ensures
        apply_directive(style, RESET, ALL) == Ok::<TextStyle, ErrorKind>(TextStyle::plain()),
        TextStyle::plain().spec_is_default(),
{
}

} // verus!
