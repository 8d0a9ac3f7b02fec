//! A cursor over the input that moves by whole characters and knows the
//! byte offset of the place it has reached.

use vstd::prelude::*;
use vstd::utf8::*;
use vstd::string::StringSliceAdditionalSpecFns;
use crate::styling::buffer::push_range;
use crate::styling::ErrorKind;

verus! {

/// The number of bytes that the UTF-8 encoding of `c` takes.
pub open spec fn utf8_width(c: char) -> nat {
    if (c as u32) < 0x80 {
        1
    } else if (c as u32) < 0x800 {
        2
    } else if (c as u32) < 0x10000 {
        3
    } else {
        4
    }
}

/// The number of bytes that the UTF-8 encoding of `s` takes: the byte offset
/// of the place just behind `s` in any text that starts with it.
pub open spec fn byte_len(s: Seq<char>) -> nat
    decreases s.len(),
{
    if s.len() == 0 {
        0
    } else {
        byte_len(s.drop_last()) + utf8_width(s.last())
    }
}

/// The encoding of one character has the width that `utf8_width` gives.
pub proof fn lemma_encode_scalar_len(c: char)
    ensures
        encode_scalar(c as u32).len() == utf8_width(c),
{
    char_is_scalar(c);
}

/// Encoding distributes over appending one character.
pub proof fn lemma_encode_push(s: Seq<char>, c: char)
    ensures
        encode_utf8(s.push(c)) =~= encode_utf8(s) + encode_scalar(c as u32),
    decreases s.len(),
{
    if s.len() == 0 {
        assert(s.push(c).drop_first() =~= s);
        assert(encode_utf8(s) =~= Seq::<u8>::empty());
        assert(encode_utf8(s.push(c).drop_first()) =~= Seq::<u8>::empty());
    } else {
        assert(s.push(c).drop_first() =~= s.drop_first().push(c));
        lemma_encode_push(s.drop_first(), c);
    }
}

/// `byte_len` is the length of the UTF-8 encoding.
pub proof fn lemma_byte_len_is_encoded_len(s: Seq<char>)
    ensures
        byte_len(s) == encode_utf8(s).len(),
    decreases s.len(),
{
    if s.len() > 0 {
        lemma_byte_len_is_encoded_len(s.drop_last());
        lemma_encode_push(s.drop_last(), s.last());
        lemma_encode_scalar_len(s.last());
        assert(s.drop_last().push(s.last()) =~= s);
    }
}

/// A longer prefix ends at a byte offset that is no smaller.
pub proof fn lemma_byte_len_monotonic(s: Seq<char>, i: int, j: int)
    requires
        0 <= i <= j <= s.len(),
    ensures
        byte_len(s.take(i)) <= byte_len(s.take(j)),
    decreases j - i,
{
    if i < j {
        lemma_byte_len_monotonic(s, i, j - 1);
        assert(s.take(j).drop_last() =~= s.take(j - 1));
    }
}

/// The byte offset behind a prefix of `s` is a character boundary of the
/// UTF-8 encoding of `s`: the encoding can be cut there.
pub proof fn lemma_prefix_ends_at_char_boundary(s: Seq<char>, k: int)
    requires
        0 <= k <= s.len(),
    ensures
        is_char_boundary(encode_utf8(s), byte_len(s.take(k)) as int),
    decreases s.len(),
{
    let bytes = encode_utf8(s);
    encode_utf8_valid_utf8(s);
    if k == 0 {
        assert(s.take(0) =~= Seq::<char>::empty());
    } else {
        let tail = s.drop_first();
        lemma_byte_len_monotonic(s, k, s.len() as int);
        assert(s.take(s.len() as int) =~= s);
        lemma_byte_len_is_encoded_len(s);
        lemma_byte_len_is_encoded_len(s.take(k));
        lemma_byte_len_is_encoded_len(tail.take(k - 1));
        lemma_encode_scalar_len(s[0]);
        assert(s.take(k).drop_first() =~= tail.take(k - 1));
        assert(s.take(k)[0] == s[0]);
        encode_utf8_first_scalar(s);
        assert(pop_first_scalar(bytes) =~= encode_utf8(tail));
        lemma_prefix_ends_at_char_boundary(tail, k - 1);
    }
}

/// The characters of `string`, in order.
pub fn decode(string: &str) -> (chars: Vec<char>)
    ensures
        chars@ == string@,
{
    let mut chars: Vec<char> = Vec::new();
    for c in it: string.chars()
        invariant
            it.seq() == string@,
            chars@ == string@.take(it.index() as int),
    {
        chars.push(c);
    }
    chars
}

/// The number of bytes that the UTF-8 encoding of `c` takes.
pub fn width_of(c: char) -> (width: usize)
    ensures
        width == utf8_width(c),
{
    let code: u32 = c as u32;
    if code < 0x80 {
        1
    } else if code < 0x800 {
        2
    } else if code < 0x10000 {
        3
    } else {
        4
    }
}

/// The first index at or behind `k` whose byte offset in `s` is at least
/// `offset`, or the length of `s` where there is none.
pub open spec fn index_of_offset_from(s: Seq<char>, offset: nat, k: int) -> int
    decreases s.len() - k,
{
    if k < 0 || k >= s.len() || byte_len(s.take(k)) >= offset {
        k
    } else {
        index_of_offset_from(s, offset, k + 1)
    }
}

/// The index of the character of `s` that starts at the byte offset
/// `offset`; for an offset inside a character, the index of the next one;
/// for one behind the end, the length of `s`.
pub open spec fn index_of_offset(s: Seq<char>, offset: nat) -> int {
    index_of_offset_from(s, offset, 0)
}

/// The search for the byte offset of the index `j` ends at `j`.
pub proof fn lemma_index_of_offset_from(s: Seq<char>, j: int, k: int)
    requires
        0 <= k <= j <= s.len(),
    ensures
        index_of_offset_from(s, byte_len(s.take(j)), k) == j,
    decreases j - k,
{
    if k < j {
        lemma_byte_len_monotonic(s, k + 1, j);
        assert(s.take(k + 1).drop_last() =~= s.take(k));
        lemma_index_of_offset_from(s, j, k + 1);
    }
}

/// The byte offset at which the character of index `j` starts leads back to
/// `j`.
pub proof fn lemma_index_of_offset(s: Seq<char>, j: int)
    requires
        0 <= j <= s.len(),
    ensures
        index_of_offset(s, byte_len(s.take(j))) == j,
{
    lemma_index_of_offset_from(s, j, 0);
}

/// A cursor over a text. It looks one character ahead, consumes one
/// character at a time, and reports how far it has come both in characters
/// and in bytes of the UTF-8 encoding.
pub struct Reader<'a> {
    string: &'a str,
    chars: Vec<char>,
    index: usize,
    position: usize,
}

impl<'a> Reader<'a> {
    /// What holds of every reader that `new` has made and the methods have
    /// moved: the cursor stands inside the text or at its end, and the byte
    /// offset belongs to the place where it stands.
    pub closed spec fn wf(&self) -> bool {
        &&& self.chars@ == self.string@
        &&& self.index <= self.chars.len()
        &&& self.position == byte_len(self.string@.take(self.index as int))
        &&& byte_len(self.string@) <= usize::MAX
    }

    /// The text that is read, as its characters.
    pub closed spec fn text(&self) -> Seq<char> {
        self.string@
    }

    /// The number of characters consumed so far.
    pub closed spec fn consumed(&self) -> int {
        self.index as int
    }

    /// The character that the cursor stands at, or `None` at the end.
    pub open spec fn spec_peek(&self) -> Option<char> {
        if self.consumed() < self.text().len() {
            Some(self.text()[self.consumed()])
        } else {
            None
        }
    }

    /// The byte offset of the place that the cursor stands at.
    pub open spec fn spec_position(&self) -> nat {
        byte_len(self.text().take(self.consumed()))
    }

    /// In a well-formed reader the cursor stands inside the text or at its
    /// end.
    pub proof fn lemma_consumed_in_bounds(&self)
        requires
            self.wf(),
        ensures
            0 <= self.consumed() <= self.text().len(),
            self.spec_position() <= byte_len(self.text()) <= usize::MAX,
    {
        lemma_byte_len_monotonic(self.text(), self.consumed(), self.text().len() as int);
        assert(self.text().take(self.text().len() as int) =~= self.text());
    }

    /// A reader that stands at the start of `string`.
    pub fn new(string: &'a str) -> (reader: Reader<'a>)
        ensures
            reader.wf(),
            reader.text() == string@,
            reader.consumed() == 0,
    {
        let chars = decode(string);
        let encoded_len: usize = string.as_bytes().len();
        proof {
            lemma_byte_len_is_encoded_len(string@);
            assert(byte_len(string@) == encoded_len);
            assert(string@.take(0) =~= Seq::<char>::empty());
        }
        Reader { string, chars, index: 0, position: 0 }
    }

    /// The next character, which stays unconsumed; `None` at the end.
    pub fn peek(&self) -> (next: Option<char>)
        requires
            self.wf(),
        ensures
            next == self.spec_peek(),
    {
        if self.index >= self.chars.len() {
            return None;
        }
        Some(self.chars[self.index])
    }

    /// Consumes the next character and returns it; at the end it returns
    /// `None` and stays where it is.
    pub fn next(&mut self) -> (next: Option<char>)
        requires
            old(self).wf(),
        ensures
            final(self).wf(),
            final(self).text() == old(self).text(),
            next == old(self).spec_peek(),
            final(self).consumed() == old(self).consumed() + (if next.is_some() {
                1int
            } else {
                0int
            }),
    {
        if self.index >= self.chars.len() {
            return None;
        }
        let c = self.chars[self.index];
        proof {
            let s = self.text();
            let i = self.index as int;
            lemma_byte_len_monotonic(s, i + 1, s.len() as int);
            assert(s.take(s.len() as int) =~= s);
            assert(s.take(i + 1).drop_last() =~= s.take(i));
        }
        self.position = self.position + width_of(c);
        self.index = self.index + 1;
        Some(c)
    }

    /// The byte offset of the cursor in the UTF-8 encoding of the text: the
    /// sum of the encoded lengths of the characters consumed.
    pub fn position(&self) -> (position: usize)
        requires
            self.wf(),
        ensures
            position == self.spec_position(),
            is_char_boundary(encode_utf8(self.text()), position as int),
    {
        proof {
            self.lemma_consumed_in_bounds();
            lemma_prefix_ends_at_char_boundary(self.string@, self.index as int);
        }
        self.position
    }

    /// The text that is read.
    pub fn string(&self) -> (string: &'a str)
        ensures
            string@ == self.text(),
    {
        self.string
    }

    /// The number of characters consumed.
    pub fn index(&self) -> (index: usize)
        requires
            self.wf(),
        ensures
            index == self.consumed(),
            index <= self.text().len(),
    {
        self.index
    }

    /// Consumes the next character of a directive and returns it; the end of
    /// the text in its place is an error.
    pub fn next_escape_char(&mut self) -> (result: Result<char, ErrorKind>)
        requires
            old(self).wf(),
        ensures
            final(self).wf(),
            final(self).text() == old(self).text(),
            match old(self).spec_peek() {
                Some(c) => result == Ok::<char, ErrorKind>(c) && final(self).consumed() == old(
                    self,
                ).consumed() + 1,
                None => result == Err::<char, ErrorKind>(ErrorKind::UnexpectedEndOfInput)
                    && final(self).consumed() == old(self).consumed(),
            },
    {
        match self.next() {
            Some(c) => Ok(c),
            None => Err(ErrorKind::UnexpectedEndOfInput),
        }
    }

    /// Appends to `out` the characters from index `from` up to, not
    /// including, index `to`.
    pub fn copy_range_to(&self, out: &mut String, from: usize, to: usize)
        requires
            self.wf(),
            from <= to <= self.text().len(),
        ensures
            final(out)@ == old(out)@ + self.text().subrange(from as int, to as int),
    {
        push_range(out, &self.chars, from, to);
    }

    /// The rest of the text from the byte offset `offset` on. An offset
    /// inside a character counts as the start of the next one, an offset
    /// behind the end as the end.
    pub fn remainder_from(&self, offset: usize) -> (rest: String)
        requires
            self.wf(),
        ensures
            rest@ == self.text().skip(index_of_offset(self.text(), offset as nat)),
    {
        let mut k: usize = 0;
        let mut at: usize = 0;
        proof {
            assert(self.text().take(0) =~= Seq::<char>::empty());
        }
        while k < self.chars.len() && at < offset
            invariant
                self.wf(),
                0 <= k <= self.chars.len(),
                at == byte_len(self.text().take(k as int)),
                index_of_offset(self.text(), offset as nat) == index_of_offset_from(
                    self.text(),
                    offset as nat,
                    k as int,
                ),
            decreases self.chars.len() - k,
        {
            proof {
                let s = self.text();
                lemma_byte_len_monotonic(s, k + 1, s.len() as int);
                assert(s.take(s.len() as int) =~= s);
                assert(s.take(k + 1).drop_last() =~= s.take(k as int));
            }
            at = at + width_of(self.chars[k]);
            k = k + 1;
        }
        let mut rest = String::new();
        push_range(&mut rest, &self.chars, k, self.chars.len());
        assert(rest@ =~= self.text().skip(k as int));
        rest
    }
}

} // verus!
