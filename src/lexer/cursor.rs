//! A forward-only character reader.
use vstd::prelude::*;
use vstd::std_specs::iter::IteratorSpec;
use vstd::utf8::{char_is_scalar, encode_scalar, encode_utf8};

verus! {

/// The number of bytes in the UTF-8 encoding of `s`.
pub open spec fn utf8_len(s: Seq<char>) -> nat {
    encode_utf8(s).len()
}

/// The byte offset, in the UTF-8 encoding of `s`, of the character at index `i`.
pub open spec fn byte_offset(s: Seq<char>, i: int) -> nat {
    utf8_len(s.take(i))
}

pub proof fn lemma_encode_concat(a: Seq<char>, b: Seq<char>)
    ensures
        encode_utf8(a + b) == encode_utf8(a) + encode_utf8(b),
    decreases a.len(),
{
    if a.len() == 0 {
        assert(a + b =~= b);
        assert(encode_utf8(a) + encode_utf8(b) =~= encode_utf8(b));
    } else {
        assert((a + b).drop_first() =~= a.drop_first() + b);
        assert((a + b)[0] == a[0]);
        lemma_encode_concat(a.drop_first(), b);
        assert(encode_utf8(a + b) =~= encode_utf8(a) + encode_utf8(b));
    }
}

/// A character takes one to four bytes.
pub proof fn lemma_char_width(c: char)
    ensures
        1 <= utf8_len(seq![c]) <= 4,
        utf8_len(seq![c]) == encode_scalar(c as u32).len(),
{
    char_is_scalar(c);
    assert(seq![c].drop_first() =~= Seq::<char>::empty());
    assert(encode_utf8(Seq::<char>::empty()) =~= Seq::<u8>::empty());
    assert(encode_utf8(seq![c]) =~= encode_scalar(c as u32));
}

/// Each character moves the byte offset on by its own width.
pub proof fn lemma_byte_offset_next(s: Seq<char>, i: int)
    requires
        0 <= i < s.len(),
    ensures
        byte_offset(s, i + 1) == byte_offset(s, i) + utf8_len(seq![s[i]]),
        byte_offset(s, i) < byte_offset(s, i + 1),
{
    assert(s.take(i + 1) =~= s.take(i) + seq![s[i]]);
    lemma_encode_concat(s.take(i), seq![s[i]]);
    lemma_char_width(s[i]);
}

/// Byte offsets grow with the index, up to the length of the whole encoding.
pub proof fn lemma_byte_offset_grows(s: Seq<char>, i: int, j: int)
    requires
        0 <= i <= j <= s.len(),
    ensures
        byte_offset(s, i) <= byte_offset(s, j) <= utf8_len(s),
        i < j ==> byte_offset(s, i) < byte_offset(s, j),
    decreases s.len() - i,
{
    if i == s.len() {
        assert(s.take(i) =~= s);
    } else {
        lemma_byte_offset_next(s, i);
        if i == j {
            lemma_byte_offset_grows(s, i + 1, s.len() as int);
        } else {
            lemma_byte_offset_grows(s, i + 1, j);
        }
    }
}

/// The UTF-8 width of `c`, as `char::len_utf8` gives it.
pub fn char_width(c: char) -> (r: u32)
    ensures
        r == utf8_len(seq![c]),
{
    proof {
        lemma_char_width(c);
    }
    let v = c as u32;
    if v <= 0x7f {
        1
    } else if v <= 0x7ff {
        2
    } else if v <= 0xffff {
        3
    } else {
        4
    }
}

/// The characters of `input`, in order.
pub fn chars_of(input: &str) -> (r: Vec<char>)
    ensures
        r@ == input@,
{
    let mut chars: Vec<char> = Vec::new();
    let mut it = input.chars();
    loop
        invariant
            chars@ + it.remaining() == input@,
            it.decrease() is Some,
        ensures
            chars@ == input@,
        decreases it.decrease()->0,
    {
        match it.next() {
            Some(c) => chars.push(c),
            None => {
                assert(chars@ + it.remaining() == chars@);
                break;
            },
        }
    }
    chars
}

/// A forward-only reader over the characters of a source text.
///
/// Besides its position the cursor keeps a mark, the position at its last
/// reset: the characters between the two are those consumed since then.
pub struct Cursor {
    chars: Vec<char>,
    pos: usize,
    mark: usize,
    offset: u32,
    mark_offset: u32,
}

impl Cursor {
    /// The whole text that the cursor reads.
    pub closed spec fn text(&self) -> Seq<char> {
        self.chars@
    }

    /// How many characters have been consumed.
    pub closed spec fn pos(&self) -> int {
        self.pos as int
    }

    /// The position at the last reset of the consumed length.
    pub closed spec fn mark(&self) -> int {
        self.mark as int
    }

    pub open spec fn wf(&self) -> bool {
        &&& 0 <= self.mark() <= self.pos() <= self.text().len()
        &&& utf8_len(self.text()) <= u32::MAX
        &&& self.counted()
    }

    /// The byte counts kept beside the position and the mark are right.
    pub closed spec fn counted(&self) -> bool {
        &&& self.offset == byte_offset(self.chars@, self.pos as int)
        &&& self.mark_offset == byte_offset(self.chars@, self.mark as int)
    }

    pub fn new(input: &str) -> (r: Cursor)
        requires
            utf8_len(input@) <= u32::MAX,
        ensures
            r.wf(),
            r.text() == input@,
            r.pos() == 0,
            r.mark() == 0,
    {
        let chars = chars_of(input);
        assert(chars@.take(0) =~= Seq::<char>::empty());
        assert(encode_utf8(Seq::<char>::empty()) =~= Seq::<u8>::empty());
        Cursor { chars, pos: 0, mark: 0, offset: 0, mark_offset: 0 }
    }

    /// The index of the next character.
    pub fn index(&self) -> (r: usize)
        ensures
            r == self.pos(),
    {
        self.pos
    }

    /// Moves past the next character, counting its bytes.
    fn step_over(&mut self)
        requires
            old(self).wf(),
            old(self).pos() < old(self).text().len(),
        ensures
            final(self).wf(),
            final(self).text() == old(self).text(),
            final(self).mark() == old(self).mark(),
            final(self).pos() == old(self).pos() + 1,
    {
        proof {
            lemma_byte_offset_next(self.chars@, self.pos as int);
            lemma_byte_offset_grows(self.chars@, self.pos + 1, self.chars@.len() as int);
        }
        let n = self.chars.len();
        let w = char_width(self.chars[self.pos]);
        self.offset = self.offset + w;
        assert(self.pos < n);
        self.pos = self.pos + 1;
    }

    pub fn is_eof(&self) -> (r: bool)
        requires
            self.wf(),
        ensures
            r == (self.pos() == self.text().len()),
    {
        self.pos == self.chars.len()
    }

    pub fn take_next(&mut self) -> (r: Option<char>)
        requires
            old(self).wf(),
        ensures
            final(self).wf(),
            final(self).text() == old(self).text(),
            final(self).mark() == old(self).mark(),
            old(self).pos() < old(self).text().len() ==> {
                &&& r == Some(old(self).text()[old(self).pos()])
                &&& final(self).pos() == old(self).pos() + 1
            },
            old(self).pos() == old(self).text().len() ==> {
                &&& r is None
                &&& final(self).pos() == old(self).pos()
            },
    {
        if self.pos < self.chars.len() {
            let c = self.chars[self.pos];
            self.step_over();
            Some(c)
        } else {
            None
        }
    }

    pub fn peek_next(&self) -> (r: Option<char>)
        requires
            self.wf(),
        ensures
            self.pos() < self.text().len() ==> r == Some(self.text()[self.pos()]),
            self.pos() == self.text().len() ==> r is None,
    {
        if self.pos < self.chars.len() {
            Some(self.chars[self.pos])
        } else {
            None
        }
    }

    /// Consumes characters while `predicate` holds of the next one.
    pub fn take_while(&mut self, predicate: impl Fn(char) -> bool)
        requires
            old(self).wf(),
            forall|c: char| predicate.requires((c,)),
        ensures
            final(self).wf(),
            final(self).text() == old(self).text(),
            final(self).mark() == old(self).mark(),
            old(self).pos() <= final(self).pos(),
            forall|j: int|
                old(self).pos() <= j < final(self).pos() ==> predicate.ensures(
                    (final(self).text()[j],),
                    true,
                ),
            final(self).pos() == final(self).text().len() || predicate.ensures(
                (final(self).text()[final(self).pos()],),
                false,
            ),
    {
        let ghost start = self.pos();
        while self.pos < self.chars.len()
            invariant
                self.wf(),
                self.text() == old(self).text(),
                self.mark() == old(self).mark(),
                start == old(self).pos() <= self.pos(),
                forall|c: char| predicate.requires((c,)),
                forall|j: int| start <= j < self.pos() ==> predicate.ensures((self.text()[j],), true),
            ensures
                self.pos() == self.text().len() || predicate.ensures(
                    (self.text()[self.pos()],),
                    false,
                ),
            decreases self.text().len() - self.pos(),
        {
            let c = self.chars[self.pos];
            if !predicate(c) {
                break;
            }
            self.step_over();
        }
    }

    /// How many bytes have been consumed since the last reset.
    pub fn consumed_size(&self) -> (r: u32)
        requires
            self.wf(),
        ensures
            r == byte_offset(self.text(), self.pos()) - byte_offset(self.text(), self.mark()),
    {
        proof {
            lemma_byte_offset_grows(self.chars@, self.mark as int, self.pos as int);
        }
        self.offset - self.mark_offset
    }

    /// Starts a new count of consumed bytes at the current position.
    pub fn reset_consumed_size(&mut self)
        requires
            old(self).wf(),
        ensures
            final(self).wf(),
            final(self).text() == old(self).text(),
            final(self).pos() == old(self).pos(),
            final(self).mark() == final(self).pos(),
    {
        self.mark = self.pos;
        self.mark_offset = self.offset;
    }
}

} // verus!
