//! The framer: cuts the byte stream of a session into messages. A message ends with
//! its checksum field, `10=` and three digits between two delimiters.

use vstd::prelude::*;
use vstd::string::*;
use crate::codec::{
    checksum_of, clean_field, clean_fields, decode, encode_fields, field_bytes, framed, is_delimiter,
    lemma_encode_push, lemma_token_of_field,
};
use crate::messages::ResponseMessage;
use crate::text::{
    append_bytes, ascii, decimal, digits_value, free_of, is_digit, lemma_decimal,
    EQUALS, ZERO,
};

verus! {

/// True when the trailer of a message stands at position `i`: the delimiter, `10=`,
/// three digits, the delimiter.
pub open spec fn trailer_at(s: Seq<u8>, i: int, d: u8) -> bool {
    &&& 0 <= i
    &&& i + 8 <= s.len()
    &&& s[i] == d
    &&& s[i + 1] == 49
    &&& s[i + 2] == 48
    &&& s[i + 3] == EQUALS
    &&& is_digit(s[i + 4])
    &&& is_digit(s[i + 5])
    &&& is_digit(s[i + 6])
    &&& s[i + 7] == d
}

/// Where the first message ends whose trailer stands at or after `from`; -1 when no
/// trailer is complete yet.
pub open spec fn frame_end(s: Seq<u8>, from: int, d: u8) -> int
    decreases s.len() - from,
{
    if from < 0 || from + 8 > s.len() {
        -1
    } else if trailer_at(s, from, d) {
        from + 8
    } else {
        frame_end(s, from + 1, d)
    }
}

pub proof fn lemma_frame_end(s: Seq<u8>, from: int, d: u8)
    requires
        0 <= from,
    ensures
        frame_end(s, from, d) == -1 || from + 8 <= frame_end(s, from, d) <= s.len(),
        frame_end(s, from, d) != -1 ==> trailer_at(s, frame_end(s, from, d) - 8, d),
        forall|j: int|
            from <= j && (frame_end(s, from, d) == -1 || j < frame_end(s, from, d) - 8)
                ==> !trailer_at(s, j, d),
    decreases s.len() - from,
{
    if from + 8 <= s.len() && !trailer_at(s, from, d) {
        lemma_frame_end(s, from + 1, d);
    }
}

/// The complete messages at the head of `s`, in order.
pub open spec fn frames(s: Seq<u8>, d: u8) -> Seq<Seq<u8>>
    decreases s.len(),
{
    let e = frame_end(s, 0, d);
    if e <= 0 || e > s.len() {
        Seq::empty()
    } else {
        seq![s.subrange(0, e)] + frames(s.subrange(e, s.len() as int), d)
    }
}

/// What is left of `s` after its complete messages: the start of a message whose end
/// has not come yet.
pub open spec fn remainder(s: Seq<u8>, d: u8) -> Seq<u8>
    decreases s.len(),
{
    let e = frame_end(s, 0, d);
    if e <= 0 || e > s.len() {
        s
    } else {
        remainder(s.subrange(e, s.len() as int), d)
    }
}

/// A complete message and nothing else: the first trailer in `s` is at its end.
pub open spec fn is_frame(s: Seq<u8>, d: u8) -> bool {
    frame_end(s, 0, d) == s.len()
}

/// The messages one after the other.
pub open spec fn concat(ms: Seq<Seq<u8>>) -> Seq<u8>
    decreases ms.len(),
{
    if ms.len() == 0 {
        Seq::empty()
    } else {
        ms[0] + concat(ms.drop_first())
    }
}

/// What the framer emits, and what it keeps, after it was fed each of `chunks` in turn,
/// starting with `buffer`.
pub open spec fn feed_all(buffer: Seq<u8>, chunks: Seq<Seq<u8>>, d: u8) -> (Seq<Seq<u8>>, Seq<u8>)
    decreases chunks.len(),
{
    if chunks.len() == 0 {
        (Seq::empty(), buffer)
    } else {
        let fed = buffer + chunks[0];
        let later = feed_all(remainder(fed, d), chunks.drop_first(), d);
        (frames(fed, d) + later.0, later.1)
    }
}

/// A message that is complete stays so, and ends where it ended, whatever follows it.
pub proof fn lemma_frame_end_stable(x: Seq<u8>, y: Seq<u8>, from: int, d: u8)
    requires
        0 <= from,
        frame_end(x, from, d) != -1,
    ensures
        frame_end(x + y, from, d) == frame_end(x, from, d),
    decreases x.len() - from,
{
    let s = x + y;
    if from + 8 <= x.len() {
        assert(forall|k: int| 0 <= k < x.len() ==> s[k] == x[k]);
        assert(trailer_at(s, from, d) == trailer_at(x, from, d));
        if !trailer_at(x, from, d) {
            lemma_frame_end_stable(x, y, from + 1, d);
        }
    }
}

/// Feeding a stream in two parts emits the messages of the whole stream and keeps what
/// the whole stream would keep.
pub proof fn lemma_feed_split(x: Seq<u8>, y: Seq<u8>, d: u8)
    ensures
        frames(x, d) + frames(remainder(x, d) + y, d) == frames(x + y, d),
        remainder(remainder(x, d) + y, d) == remainder(x + y, d),
    decreases x.len(),
{
    let e = frame_end(x, 0, d);
    lemma_frame_end(x, 0, d);
    if e <= 0 || e > x.len() {
        assert(frames(x, d) + frames(x + y, d) =~= frames(x + y, d));
    } else {
        let s = x + y;
        lemma_frame_end_stable(x, y, 0, d);
        let tail = x.subrange(e, x.len() as int);
        assert(s.subrange(0, e) =~= x.subrange(0, e));
        assert(s.subrange(e, s.len() as int) =~= tail + y);
        lemma_feed_split(tail, y, d);
        assert(frames(x, d) + frames(remainder(x, d) + y, d) =~= seq![x.subrange(0, e)] + (frames(
            tail,
            d,
        ) + frames(remainder(tail, d) + y, d)));
    }
}

/// However a stream is cut into chunks, a framer that starts empty emits the messages
/// of the whole stream, in order, and keeps what the whole stream would keep.
pub proof fn lemma_chunking(chunks: Seq<Seq<u8>>, d: u8)
    ensures
        feed_all(Seq::empty(), chunks, d) == (
            frames(concat(chunks), d),
            remainder(concat(chunks), d),
        ),
{
    let none = Seq::<u8>::empty();
    lemma_frame_end(none, 0, d);
    lemma_chunking_from_rest(none, chunks, d);
    assert(none + concat(chunks) =~= concat(chunks));
}

/// The law of `lemma_chunking` for a buffer that holds no complete message, as the
/// framer's buffer never does.
pub proof fn lemma_chunking_from_rest(buffer: Seq<u8>, chunks: Seq<Seq<u8>>, d: u8)
    requires
        frames(buffer, d).len() == 0,
    ensures
        feed_all(buffer, chunks, d) == (
            frames(buffer + concat(chunks), d),
            remainder(buffer + concat(chunks), d),
        ),
    decreases chunks.len(),
{
    if chunks.len() == 0 {
        assert(buffer + concat(chunks) =~= buffer);
        lemma_no_frames(buffer, d);
        assert(frames(buffer, d) =~= Seq::<Seq<u8>>::empty());
    } else {
        let fed = buffer + chunks[0];
        let rest = chunks.drop_first();
        lemma_remainder_has_no_frames(fed, d);
        lemma_chunking_from_rest(remainder(fed, d), rest, d);
        lemma_feed_split(fed, concat(rest), d);
        assert(fed + concat(rest) =~= buffer + concat(chunks));
    }
}

/// A buffer without a complete message is its own remainder.
pub proof fn lemma_no_frames(s: Seq<u8>, d: u8)
    requires
        frames(s, d).len() == 0,
    ensures
        remainder(s, d) == s,
{
}

/// What the framer keeps holds no complete message.
pub proof fn lemma_remainder_has_no_frames(s: Seq<u8>, d: u8)
    ensures
        frames(remainder(s, d), d).len() == 0,
    decreases s.len(),
{
    let e = frame_end(s, 0, d);
    lemma_frame_end(s, 0, d);
    if !(e <= 0 || e > s.len()) {
        lemma_remainder_has_no_frames(s.subrange(e, s.len() as int), d);
    }
}

/// N complete messages, one after the other, come out as exactly those N messages, and
/// nothing is kept.
pub proof fn lemma_concat_frames(ms: Seq<Seq<u8>>, d: u8)
    requires
        forall|i: int| 0 <= i < ms.len() ==> is_frame(#[trigger] ms[i], d),
    ensures
        frames(concat(ms), d) == ms,
        frames(concat(ms), d).len() == ms.len(),
        remainder(concat(ms), d) == Seq::<u8>::empty(),
    decreases ms.len(),
{
    if ms.len() == 0 {
        assert(frames(concat(ms), d) =~= ms);
    } else {
        let m = ms[0];
        let rest = ms.drop_first();
        let s = concat(ms);
        assert(is_frame(m, d));
        lemma_frame_end(m, 0, d);
        lemma_frame_end_stable(m, concat(rest), 0, d);
        assert(s.subrange(0, m.len() as int) =~= m);
        assert(s.subrange(m.len() as int, s.len() as int) =~= concat(rest));
        assert forall|i: int| 0 <= i < rest.len() implies is_frame(#[trigger] rest[i], d) by {
            assert(rest[i] == ms[i + 1]);
        }
        lemma_concat_frames(rest, d);
        assert(seq![m] + rest =~= ms);
    }
}

/// Between two neighbouring delimiters of an encoding stands one of its fields. `i` is
/// the position of the first delimiter, or -1 for the start of the encoding, and the
/// second delimiter follows seven bytes later; the result is the index of the field.
pub proof fn lemma_token_between(fs: Seq<(u32, Seq<u8>)>, d: u8, i: int) -> (k: int)
    requires
        is_delimiter(d),
        clean_fields(fs, d),
        -1 <= i,
        i + 7 < encode_fields(fs, d).len(),
        i == -1 || encode_fields(fs, d)[i] == d,
        encode_fields(fs, d)[i + 7] == d,
        forall|j: int| i < j < i + 7 ==> #[trigger] encode_fields(fs, d)[j] != d,
    ensures
        0 <= k < fs.len(),
        field_bytes(fs[k]) == encode_fields(fs, d).subrange(i + 1, i + 7),
        encode_fields(fs.subrange(0, k), d).len() == i + 1,
    decreases fs.len(),
{
    let s = encode_fields(fs, d);
    assert(fs.len() > 0);
    let first = field_bytes(fs[0]);
    let rest = fs.drop_first();
    let after = encode_fields(rest, d);
    assert(s == first + seq![d] + after);
    assert(clean_field(fs[0], d));
    lemma_token_of_field(fs[0], d);
    let n = first.len() as int;
    assert(s[n] == d);
    assert forall|j: int| 0 <= j < n implies s[j] != d by {
        assert(s[j] == first[j]);
    }
    if i == -1 {
        if n < 6 {
            assert(s[n] != d);
        }
        if n > 6 {
            assert(s[6] == first[6]);
        }
        assert(s.subrange(0, 6) =~= first);
        assert(fs.subrange(0, 0) =~= Seq::<(u32, Seq<u8>)>::empty());
        0
    } else {
        if i < n {
            assert(s[i] != d);
        }
        let shifted = i - n - 1;
        assert forall|j: int| 0 <= j < after.len() implies after[j] == s[n + 1 + j] by {}
        assert forall|m: int| 0 <= m < rest.len() implies clean_field(#[trigger] rest[m], d) by {
            assert(rest[m] == fs[m + 1]);
        }
        assert(after[shifted + 7] == s[i + 7]);
        assert forall|j: int| shifted < j < shifted + 7 implies #[trigger] after[j] != d by {
            assert(after[j] == s[n + 1 + j]);
        }
        if shifted != -1 {
            assert(after[shifted] == s[i]);
        }
        let below = lemma_token_between(rest, d, shifted);
        let k = below + 1;
        assert(fs[k] == rest[below]);
        assert(s.subrange(i + 1, i + 7) =~= after.subrange(shifted + 1, shifted + 7));
        assert(fs.subrange(0, k).drop_first() =~= rest.subrange(0, below));
        assert(fs.subrange(0, k)[0] == fs[0]);
        k
    }
}

/// A field whose bytes begin with `10=` has the tag 10.
pub proof fn lemma_checksum_tag(f: (u32, Seq<u8>))
    requires
        field_bytes(f).len() >= 3,
        field_bytes(f)[0] == 49,
        field_bytes(f)[1] == 48,
        field_bytes(f)[2] == EQUALS,
    ensures
        f.0 == 10,
{
    let digits = decimal(f.0 as nat);
    let token = field_bytes(f);
    lemma_decimal(f.0 as nat);
    let n = digits.len() as int;
    assert(token[n] == EQUALS);
    if n == 1 {
        assert(token[1] == EQUALS);
    }
    if n >= 3 {
        assert(token[2] == digits[2]);
        assert(is_digit(digits[2]));
    }
    assert(digits[0] == token[0] && digits[1] == token[1]);
    assert(digits.drop_last() =~= seq![49u8]);
    assert(seq![49u8].drop_last() =~= Seq::<u8>::empty());
    assert(digits_value(seq![49u8]) == 1) by {
        assert(digits_value(seq![49u8].drop_last()) == 0);
    }
    assert(digits_value(digits) == 10);
}

/// An encoded message is exactly one message to the framer: the only trailer in it is
/// its checksum field, as long as no value holds the delimiter and no field between
/// `BodyLength` and `CheckSum` has the tag of the checksum.
pub proof fn lemma_framed_is_frame(middle: Seq<(u32, Seq<u8>)>, d: u8)
    requires
        is_delimiter(d),
        free_of(ascii("FIX.4.4"), d),
        clean_fields(middle, d),
        forall|i: int| 0 <= i < middle.len() ==> (#[trigger] middle[i]).0 != 10,
    ensures
        is_frame(encode_fields(framed(middle, d), d), d),
{
    let fs = framed(middle, d);
    let s = encode_fields(fs, d);
    let head = seq![(8u32, ascii("FIX.4.4")), (9u32, decimal(encode_fields(middle, d).len()))];
    let inner = head + middle;
    let sum = (10u32, checksum_of(encode_fields(inner, d)));
    assert(fs == inner.push(sum));
    lemma_decimal(encode_fields(middle, d).len());
    assert forall|i: int| 0 <= i < fs.len() implies clean_field(#[trigger] fs[i], d) by {
        if i >= 2 && i < fs.len() - 1 {
            assert(fs[i] == middle[i - 2]);
        }
    }
    assert forall|i: int| 0 <= i < fs.len() - 1 implies (#[trigger] fs[i]).0 != 10 by {
        if i >= 2 {
            assert(fs[i] == middle[i - 2]);
        }
    }
    // the checksum field closes the message, behind the delimiter of the field before it
    lemma_encode_push(inner, sum, d);
    let body = encode_fields(inner, d);
    let before = inner.drop_last();
    assert(inner =~= before.push(inner.last()));
    lemma_encode_push(before, inner.last(), d);
    assert(body.len() > 0 && body[body.len() - 1] == d);
    assert(decimal(10) =~= seq![49u8, 48u8]) by {
        assert(decimal(1) =~= seq![49u8]);
    }
    let trailer = field_bytes(sum);
    assert(trailer.len() == 6);
    assert(s == body + trailer + seq![d]);
    let at = s.len() - 8;
    assert(at == body.len() - 1);
    assert(s[at] == body[at]);
    assert forall|j: int| 0 <= j < 6 implies s[at + 1 + j] == trailer[j] by {}
    assert(trailer[0] == 49 && trailer[1] == 48 && trailer[2] == EQUALS);
    assert(is_digit(trailer[3]) && is_digit(trailer[4]) && is_digit(trailer[5]));
    assert(trailer_at(s, at, d));
    // and no trailer stands before it
    assert forall|i: int| 0 <= i && trailer_at(s, i, d) implies i == at by {
        assert forall|j: int| i < j < i + 7 implies #[trigger] s[j] != d by {}
        let k = lemma_token_between(fs, d, i);
        let token = field_bytes(fs[k]);
        assert(token[0] == s[i + 1] && token[1] == s[i + 2] && token[2] == s[i + 3]);
        lemma_checksum_tag(fs[k]);
        assert(k == fs.len() - 1);
        assert(fs.subrange(0, k) =~= inner);
    }
    lemma_frame_end(s, 0, d);
}

/// The first message of `s`: where it ends, if it is complete.
pub fn find_frame_end(s: &[u8], d: u8) -> (r: Option<usize>)
    ensures
        match r {
            Some(e) => e == frame_end(s@, 0, d),
            None => frame_end(s@, 0, d) == -1,
        },
{
    let n = s.len();
    if n < 8 {
        return None;
    }
    let mut i: usize = 0;
    while i <= n - 8
        invariant
            n == s@.len(),
            n >= 8,
            i <= n - 7,
            frame_end(s@, 0, d) == frame_end(s@, i as int, d),
        decreases n - i,
    {
        if s[i] == d && s[i + 1] == 49 && s[i + 2] == ZERO && s[i + 3] == EQUALS && s[i + 4] >= ZERO
            && s[i + 4] <= 57 && s[i + 5] >= ZERO && s[i + 5] <= 57 && s[i + 6] >= ZERO && s[i + 6]
            <= 57 && s[i + 7] == d {
            return Some(i + 8);
        }
        i = i + 1;
    }
    None
}

/// The views of a vector of messages: the bytes of each.
pub open spec fn raw_view(v: Seq<ResponseMessage>) -> Seq<Seq<u8>> {
    Seq::new(v.len(), |i: int| v[i].raw())
}

/// The read side of a session: the bytes received so far that no message has claimed.
#[derive(Debug)]
pub struct Framer {
    delimiter: u8,
    buffer: Vec<u8>,
}

impl Framer {
    /// The delimiter that the framer splits fields at.
    pub closed spec fn delimiter(&self) -> u8 {
        self.delimiter
    }

    /// The bytes kept for the next message.
    pub closed spec fn pending(&self) -> Seq<u8> {
        self.buffer@
    }

    /// A framer that has received nothing.
    pub fn new(delimiter: u8) -> (r: Framer)
        ensures
            r.delimiter() == delimiter,
            r.pending() == Seq::<u8>::empty(),
    {
        Framer { delimiter, buffer: Vec::new() }
    }

    /// Takes the next bytes of the stream and emits each message that they complete, in
    /// stream order, decoded. A message that is split across calls is kept until its
    /// end arrives.
    pub fn recv(&mut self, chunk: &[u8]) -> (r: Vec<ResponseMessage>)
        ensures
            final(self).delimiter() == old(self).delimiter(),
            raw_view(r@) == frames(old(self).pending() + chunk@, old(self).delimiter()),
            final(self).pending() == remainder(
                old(self).pending() + chunk@,
                old(self).delimiter(),
            ),
            forall|i: int|
                0 <= i < r@.len() ==> (#[trigger] r@[i]).fields() == decode(
                    r@[i].raw(),
                    old(self).delimiter(),
                ),
    {
        let d = self.delimiter;
        let ghost fed = self.buffer@ + chunk@;
        append_bytes(&mut self.buffer, chunk);
        let mut out: Vec<ResponseMessage> = Vec::new();
        assert(raw_view(out@) =~= Seq::empty());
        loop
            invariant
                self.delimiter == d,
                raw_view(out@) + frames(self.buffer@, d) == frames(fed, d),
                remainder(self.buffer@, d) == remainder(fed, d),
                forall|i: int|
                    0 <= i < out@.len() ==> (#[trigger] out@[i]).fields() == decode(
                        out@[i].raw(),
                        d,
                    ),
            ensures
                self.delimiter == d,
                raw_view(out@) == frames(fed, d),
                self.buffer@ == remainder(fed, d),
                forall|i: int|
                    0 <= i < out@.len() ==> (#[trigger] out@[i]).fields() == decode(
                        out@[i].raw(),
                        d,
                    ),
            decreases self.buffer@.len(),
        {
            proof {
                lemma_frame_end(self.buffer@, 0, d);
            }
            match find_frame_end(self.buffer.as_slice(), d) {
                Some(e) => {
                    let ghost before = raw_view(out@);
                    let ghost whole = self.buffer@;
                    let rest = self.buffer.split_off(e);
                    let message = ResponseMessage::new(self.buffer.as_slice(), d);
                    out.push(message);
                    self.buffer = rest;
                    assert(raw_view(out@) =~= before.push(whole.subrange(0, e as int)));
                    assert(raw_view(out@) + frames(self.buffer@, d) =~= before + frames(whole, d));
                },
                None => {
                    assert(raw_view(out@) + Seq::<Seq<u8>>::empty() =~= raw_view(out@));
                    break ;
                },
            }
        }
        out
    }
}

} // verus!
