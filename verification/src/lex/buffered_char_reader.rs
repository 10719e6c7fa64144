//! A peekable source of characters over UTF-8 bytes.
//!
//! The source decodes lazily and keeps at most a fixed number of decoded
//! characters in a lookahead buffer.  Its contracts are stated over a
//! [`CharStream`]: the characters still to come, whether malformed bytes
//! follow them, and the lookahead capacity.

use super::error::MalformedInput;
use utf8_read::{Char, Reader};
use vstd::prelude::*;
use vstd::utf8::{
    decode_first_scalar, decode_utf8, encode_utf8, encode_utf8_decode_utf8,
    encode_utf8_valid_utf8, pop_first_scalar, valid_first_scalar, valid_utf8,
};

verus! {

/// The characters spelled by the longest prefix of `bytes` that is well-formed
/// UTF-8.
pub open spec fn decoded(bytes: Seq<u8>) -> Seq<char>
    decreases bytes.len(),
{
    if bytes.len() > 0 && valid_first_scalar(bytes) {
        seq![decode_first_scalar(bytes) as char] + decoded(pop_first_scalar(bytes))
    } else {
        Seq::empty()
    }
}

/// Whether `bytes` holds, after its longest well-formed prefix, bytes that are
/// not UTF-8.
pub open spec fn malformed(bytes: Seq<u8>) -> bool
    decreases bytes.len(),
{
    bytes.len() > 0 && (!valid_first_scalar(bytes) || malformed(pop_first_scalar(bytes)))
}

/// What a character source still has to give.
pub ghost struct CharStream {
    /// The characters to come, in order.
    pub chars: Seq<char>,
    /// Whether malformed bytes follow the last of `chars`.
    pub tainted: bool,
    /// How many characters a lookahead can show at most.
    pub capacity: nat,
}

impl CharStream {
    /// How many characters a lookahead of `n` shows: `n`, cut down to the
    /// capacity and to what is left.
    pub open spec fn reach(self, n: nat) -> nat {
        let want = if n <= self.capacity { n } else { self.capacity };
        if want <= self.chars.len() { want } else { self.chars.len() }
    }

    /// Whether a lookahead of `n` runs into the malformed bytes.
    pub open spec fn lookahead_fails(self, n: nat) -> bool {
        self.tainted && self.reach(n) < n && self.reach(n) < self.capacity
    }

    /// The outcome of looking `n` characters ahead.
    pub open spec fn lookahead(self, n: nat) -> Result<Seq<char>, MalformedInput> {
        if self.lookahead_fails(n) {
            Err(MalformedInput)
        } else {
            Ok(self.chars.take(self.reach(n) as int))
        }
    }

    /// The outcome of asking for the next character.
    pub open spec fn head(self) -> Result<Option<char>, MalformedInput> {
        if self.chars.len() > 0 {
            Ok(Some(self.chars[0]))
        } else if self.tainted {
            Err(MalformedInput)
        } else {
            Ok(None)
        }
    }

    /// The stream after the next character has been consumed.  A stream with
    /// no character left stays as it is.
    pub open spec fn advance(self) -> CharStream {
        if self.chars.len() > 0 {
            CharStream { chars: self.chars.skip(1), ..self }
        } else {
            self
        }
    }

    /// The stream after `n` requests for the next character.
    pub open spec fn advance_by(self, n: nat) -> CharStream
        decreases n,
    {
        if n == 0 {
            self
        } else {
            self.advance().advance_by((n - 1) as nat)
        }
    }
}

/// Well-formed UTF-8 decodes to all of its characters, with nothing
/// malformed behind them.
pub proof fn lemma_decoded_of_valid(bytes: Seq<u8>)
    requires
        valid_utf8(bytes),
    ensures
        decoded(bytes) == decode_utf8(bytes),
        !malformed(bytes),
    decreases bytes.len(),
{
    if bytes.len() > 0 {
        lemma_decoded_of_valid(pop_first_scalar(bytes));
    }
}

/// The bytes of a text decode to the text, with nothing malformed behind
/// it.
pub proof fn lemma_decoded_of_text(chars: Seq<char>)
    ensures
        decoded(encode_utf8(chars)) == chars,
        !malformed(encode_utf8(chars)),
{
    encode_utf8_valid_utf8(chars);
    encode_utf8_decode_utf8(chars);
    lemma_decoded_of_valid(encode_utf8(chars));
}

/// Bytes are malformed exactly where they are not UTF-8 as a whole.
pub proof fn lemma_malformed_iff_invalid(bytes: Seq<u8>)
    ensures
        malformed(bytes) <==> !valid_utf8(bytes),
    decreases bytes.len(),
{
    if bytes.len() > 0 && valid_first_scalar(bytes) {
        lemma_malformed_iff_invalid(pop_first_scalar(bytes));
    }
}

/// Every character takes at least one byte.
pub proof fn lemma_decoded_len(bytes: Seq<u8>)
    ensures
        decoded(bytes).len() <= bytes.len(),
    decreases bytes.len(),
{
    if bytes.len() > 0 && valid_first_scalar(bytes) {
        lemma_decoded_len(pop_first_scalar(bytes));
    }
}

/// After `n` requests for the next character, the first `n` characters are
/// gone and nothing else has changed.
pub proof fn lemma_advance_by(stream: CharStream, n: nat)
    requires
        n <= stream.chars.len(),
    ensures
        stream.advance_by(n) == (CharStream { chars: stream.chars.skip(n as int), ..stream }),
    decreases n,
{
    if n == 0 {
        assert(stream.chars.skip(0) =~= stream.chars);
    } else {
        lemma_advance_by(stream.advance(), (n - 1) as nat);
        assert(stream.chars.skip(1).skip(n - 1) =~= stream.chars.skip(n as int));
    }
}

/// Looking ahead consumes nothing: the characters that a lookahead of `n`
/// has shown are exactly what the next requests return, in the same order.
/// Where it showed fewer than `n` though the capacity allowed more, the input
/// ends behind them.
pub proof fn lemma_lookahead_then_next(stream: CharStream, n: nat, i: nat)
    requires
        stream.lookahead(n) is Ok,
        i <= stream.lookahead(n)->Ok_0.len(),
    ensures
        i < stream.lookahead(n)->Ok_0.len() ==> stream.advance_by(i).head() == Ok::<
            Option<char>,
            MalformedInput,
        >(Some(stream.lookahead(n)->Ok_0[i as int])),
        i == stream.lookahead(n)->Ok_0.len() && i < n && i < stream.capacity
            ==> stream.advance_by(i).head() == Ok::<Option<char>, MalformedInput>(None),
{
    lemma_advance_by(stream, i);
}

/// Looking ahead again, as far or less far, shows the same characters
/// again: the shorter look shows a prefix of the longer one.
pub proof fn lemma_lookahead_again(stream: CharStream, shorter: nat, longer: nat)
    requires
        shorter <= longer,
        stream.lookahead(longer) is Ok,
    ensures
        stream.lookahead(shorter) is Ok,
        stream.lookahead(shorter)->Ok_0 == stream.lookahead(longer)->Ok_0.take(
            stream.reach(shorter) as int,
        ),
{
    let far = stream.lookahead(longer)->Ok_0;
    assert(stream.chars.take(stream.reach(shorter) as int) =~= far.take(
        stream.reach(shorter) as int,
    ));
}

/// A UTF-8 decoder of the `utf8_read` crate, `utf8_read::Reader`, over a
/// byte slice.
///
/// The decoder is opaque to the verifier: the parameter of `Reader` is bound
/// by `std::io::Read`, which the verifier does not take, so the type cannot
/// be declared to it and is kept in this struct.  What is known of a decoder
/// is what the contracts of [`open`] and [`next_char`] say over [`unread`]
/// and [`faulted`].
#[verifier::external_body]
pub struct Decoder<'a> {
    reader: Reader<&'a [u8]>,
}

/// The bytes that the decoder has not turned into characters yet.
pub uninterp spec fn unread(decoder: Decoder) -> Seq<u8>;

/// Whether the decoder has reported an error.  A decoder that has is not
/// asked again.
pub uninterp spec fn faulted(decoder: Decoder) -> bool;

/// Calls `utf8_read::Reader::new` on a byte slice.  Assumed: the new decoder
/// has all of `bytes` before it and has reported no error.
#[verifier::external_body]
fn open<'a>(bytes: &'a [u8]) -> (decoder: Decoder<'a>)
    ensures
        unread(decoder) == bytes@,
        !faulted(decoder),
{
    Decoder { reader: Reader::new(bytes) }
}

/// Calls `utf8_read::Reader::next_char`.  Assumed, for a decoder over a byte
/// slice that has reported no error yet: where the unread bytes begin with a
/// well-formed UTF-8 sequence, the call returns the character it encodes and
/// consumes exactly that sequence; where no byte is left, it returns no
/// character (the crate's `NoData` and `Eof`) and leaves none; in every other
/// case it returns the crate's error.
#[verifier::external_body]
fn next_char<'a>(decoder: &mut Decoder<'a>) -> (r: Result<Option<char>, utf8_read::Error>)
    requires
        !faulted(*old(decoder)),
    ensures
        faulted(*final(decoder)) == r.is_err(),
        match r {
            Ok(Some(c)) => {
                &&& valid_first_scalar(unread(*old(decoder)))
                &&& c == decode_first_scalar(unread(*old(decoder))) as char
                &&& unread(*final(decoder)) == pop_first_scalar(unread(*old(decoder)))
            },
            Ok(None) => unread(*old(decoder)).len() == 0 && unread(*final(decoder)).len() == 0,
            Err(_) => unread(*old(decoder)).len() > 0 && !valid_first_scalar(unread(*old(decoder))),
        },
{
    match decoder.reader.next_char() {
        Ok(Char::Char(c)) => Ok(Some(c)),
        Ok(Char::NoData) => Ok(None),
        Ok(Char::Eof) => Ok(None),
        Err(e) => Err(e),
    }
}

/// The error type of the `utf8_read` crate, `utf8_read::Error`.  Nothing is
/// known of a value of it but that it is one.
#[verifier::external_type_specification]
#[verifier::external_body]
pub struct ExUtf8Error(utf8_read::Error);

/// A structure that buffers characters decoded from UTF-8 bytes.
///
/// The internal buffer allows characters to be peeked `N` times forward,
/// where `N` is the chosen size of the buffer.
pub struct BufCharacterReader<'a> {
    /// The size of the buffer: the number of characters that can be peeked
    /// forward.
    buffer_size: usize,
    /// The characters that were decoded and not yet consumed.
    buffer: Vec<char>,
    /// The decoder for the bytes that follow.
    reader: Decoder<'a>,
    /// Whether the decoder has been read to its end.
    buf_end: bool,
    /// Whether that end was an error of the decoder.
    broken: bool,
}

impl<'a> View for BufCharacterReader<'a> {
    type V = CharStream;

    closed spec fn view(&self) -> CharStream {
        CharStream {
            chars: self.buffer@ + self.beyond(),
            tainted: if self.buf_end { self.broken } else { malformed(unread(self.reader)) },
            capacity: self.buffer_size as nat,
        }
    }
}

impl<'a> BufCharacterReader<'a> {
    /// The invariant of the source: a lookahead capacity of at least one, a
    /// buffer within it, and a decoder that is asked no more once it has
    /// ended.
    pub closed spec fn wf(&self) -> bool {
        &&& self.buffer_size >= 1
        &&& self.buffer@.len() <= self.buffer_size
        &&& self.buf_end || !faulted(self.reader)
        &&& self.broken ==> self.buf_end
    }

    /// The characters to come that are not in the buffer yet.
    spec fn beyond(&self) -> Seq<char> {
        if self.buf_end { Seq::empty() } else { decoded(unread(self.reader)) }
    }

    /// Creates a new `BufCharacterReader` over `input` with room for
    /// `buffer_size` characters of lookahead, and fills the buffer.
    ///
    /// Fails where malformed bytes stand within the first `buffer_size`
    /// characters.
    pub fn new(input: &'a [u8], buffer_size: usize) -> (r: Result<Self, MalformedInput>)
        requires
            buffer_size >= 1,
        ensures
            r is Err <==> malformed(input@) && decoded(input@).len() < buffer_size,
            r matches Ok(source) ==> source.wf() && source@ == (CharStream {
                chars: decoded(input@),
                tainted: malformed(input@),
                capacity: buffer_size as nat,
            }),
    {
        let mut source = Self {
            buffer_size,
            buffer: Vec::new(),
            reader: open(input),
            buf_end: false,
            broken: false,
        };
        assert(source@.chars =~= decoded(input@));
        match source.fill_buffer(buffer_size) {
            Ok(()) => Ok(source),
            Err(e) => Err(e),
        }
    }

    /// Decodes until the buffer holds `want` characters or the input ends.
    fn fill_buffer(&mut self, want: usize) -> (r: Result<(), MalformedInput>)
        requires
            old(self).wf(),
            want <= old(self).buffer_size,
        ensures
            final(self).wf(),
            final(self)@ == old(self)@,
            r is Err <==> old(self)@.tainted && old(self)@.chars.len() < want,
            r is Ok ==> final(self).buffer@.len() >= want || final(self).buffer@.len()
                == old(self)@.chars.len(),
    {
        while self.buffer.len() < want && !self.buf_end
            invariant
                self.wf(),
                want <= self.buffer_size,
                self@ == old(self)@,
            decreases (if self.buf_end { 0 } else { 1 + unread(self.reader).len() }),
        {
            let ghost before = unread(self.reader);
            let ghost held = self.buffer@;
            match next_char(&mut self.reader) {
                Ok(Some(c)) => {
                    self.buffer.push(c);
                    assert(self@.chars =~= held + decoded(before));
                },
                Ok(None) => {
                    self.buf_end = true;
                },
                Err(_) => {
                    self.buf_end = true;
                    self.broken = true;
                    assert(self@.chars =~= self.buffer@);
                    return Err(MalformedInput);
                },
            }
        }
        assert(self.buf_end ==> self@.chars =~= self.buffer@);
        if self.buffer.len() < want && self.broken {
            Err(MalformedInput)
        } else {
            Ok(())
        }
    }

    /// Consumes and returns the next character: `None` once the input is
    /// exhausted, an error where malformed bytes come next.
    pub fn next(&mut self) -> (r: Result<Option<char>, MalformedInput>)
        requires
            old(self).wf(),
        ensures
            final(self).wf(),
            r == old(self)@.head(),
            final(self)@ == old(self)@.advance(),
    {
        if self.buffer.len() > 0 {
            let ghost held = self.buffer@;
            let c = self.buffer.remove(0);
            assert(self@.chars =~= (held + self.beyond()).skip(1));
            Ok(Some(c))
        } else if self.buf_end {
            assert(self@.chars =~= Seq::<char>::empty());
            if self.broken {
                Err(MalformedInput)
            } else {
                Ok(None)
            }
        } else {
            let ghost before = unread(self.reader);
            assert(self@.chars =~= decoded(before));
            match next_char(&mut self.reader) {
                Ok(Some(c)) => {
                    assert(self@.chars =~= decoded(before).skip(1));
                    Ok(Some(c))
                },
                Ok(None) => {
                    self.buf_end = true;
                    assert(self@.chars =~= Seq::<char>::empty());
                    Ok(None)
                },
                Err(_) => {
                    self.buf_end = true;
                    self.broken = true;
                    assert(self@.chars =~= Seq::<char>::empty());
                    Err(MalformedInput)
                },
            }
        }
    }

    /// Shows the next `n` characters without consuming any of them: fewer
    /// where the capacity or the input allows no more.  Fails where malformed
    /// bytes stand within reach of the request.
    pub fn peek_n(&mut self, n: usize) -> (r: Result<Vec<&char>, MalformedInput>)
        requires
            old(self).wf(),
        ensures
            final(self).wf(),
            final(self)@ == old(self)@,
            r is Err <==> old(self)@.lookahead(n as nat) is Err,
            r matches Ok(shown) ==> old(self)@.lookahead(n as nat) matches Ok(chars) && shown@.len()
                == chars.len() && forall|i: int| 0 <= i < chars.len() ==> *shown@[i] == chars[i],
    {
        let want = if n <= self.buffer_size { n } else { self.buffer_size };
        match self.fill_buffer(want) {
            Err(e) => Err(e),
            Ok(()) => {
                let count = if want <= self.buffer.len() { want } else { self.buffer.len() };
                let mut shown: Vec<&char> = Vec::new();
                let mut i: usize = 0;
                while i < count
                    invariant
                        i <= count <= self.buffer@.len(),
                        shown@.len() == i,
                        forall|j: int| 0 <= j < i ==> *shown@[j] == self.buffer@[j],
                    decreases count - i,
                {
                    shown.push(&self.buffer[i]);
                    i = i + 1;
                }
                Ok(shown)
            },
        }
    }

    /// Shows the next character without consuming it: the first of
    /// `peek_n(1)`, or nothing.
    pub fn peek(&mut self) -> (r: Result<Option<&char>, MalformedInput>)
        requires
            old(self).wf(),
        ensures
            final(self).wf(),
            final(self)@ == old(self)@,
            match r {
                Ok(Some(c)) => old(self)@.head() == Ok::<Option<char>, MalformedInput>(Some(*c)),
                Ok(None) => old(self)@.head() == Ok::<Option<char>, MalformedInput>(None),
                Err(e) => old(self)@.head() == Err::<Option<char>, MalformedInput>(e),
            },
    {
        match self.fill_buffer(1) {
            Err(e) => Err(e),
            Ok(()) => {
                if self.buffer.len() > 0 {
                    Ok(Some(&self.buffer[0]))
                } else {
                    Ok(None)
                }
            },
        }
    }
}

} // verus!
