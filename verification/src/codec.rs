//! The wire form of FIX messages as mathematics: how fields are laid out in bytes and
//! how bytes are read back as fields.

use vstd::prelude::*;
use crate::text::{
    ascii, decimal, free_of, is_digit, lemma_decimal, lemma_next_index,
    lemma_next_index_unique, lemma_parse_decimal, next_index, parse_u32_spec, EQUALS,
};

verus! {

/// The field that one token between two delimiters denotes: a tag number, `=`, and the
/// value, which is all that follows the first `=`. `None` for a token without `=` or
/// without a number before it.
pub open spec fn token_field(tok: Seq<u8>) -> Option<(u32, Seq<u8>)> {
    let e = next_index(tok, 0, EQUALS);
    if e < tok.len() {
        match parse_u32_spec(tok.subrange(0, e)) {
            Some(tag) => Some((tag, tok.subrange(e + 1, tok.len() as int))),
            None => None,
        }
    } else {
        None
    }
}

/// The fields of the tokens of `s` that start at or after `pos`, in order, duplicates
/// kept; tokens that denote no field are passed over.
pub open spec fn decode_from(s: Seq<u8>, d: u8, pos: int) -> Seq<(u32, Seq<u8>)>
    decreases s.len() + 1 - pos,
{
    if pos < 0 || pos >= s.len() {
        Seq::empty()
    } else {
        let e = next_index(s, pos, d);
        proof {
            lemma_next_index(s, pos, d);
        }
        let rest = decode_from(s, d, e + 1);
        match token_field(s.subrange(pos, e)) {
            Some(f) => seq![f] + rest,
            None => rest,
        }
    }
}

/// The fields that a message holds when `d` delimits them.
pub open spec fn decode(s: Seq<u8>, d: u8) -> Seq<(u32, Seq<u8>)> {
    decode_from(s, d, 0)
}

/// The first position at or after `from` whose field has tag `tag`; `fs.len()` when
/// there is none.
pub open spec fn tag_index(fs: Seq<(u32, Seq<u8>)>, tag: u32, from: int) -> int
    decreases fs.len() - from,
{
    if from < 0 || from >= fs.len() {
        fs.len() as int
    } else if fs[from].0 == tag {
        from
    } else {
        tag_index(fs, tag, from + 1)
    }
}

/// True when some field has tag `tag`.
pub open spec fn has_tag(fs: Seq<(u32, Seq<u8>)>, tag: u32) -> bool {
    tag_index(fs, tag, 0) < fs.len()
}

/// The value of the first field with tag `tag`.
pub open spec fn value_of(fs: Seq<(u32, Seq<u8>)>, tag: u32) -> Option<Seq<u8>> {
    if has_tag(fs, tag) {
        Some(fs[tag_index(fs, tag, 0)].1)
    } else {
        None
    }
}

pub proof fn lemma_tag_index(fs: Seq<(u32, Seq<u8>)>, tag: u32, from: int)
    requires
        0 <= from <= fs.len(),
    ensures
        from <= tag_index(fs, tag, from) <= fs.len(),
        forall|j: int| from <= j < tag_index(fs, tag, from) ==> (#[trigger] fs[j]).0 != tag,
        tag_index(fs, tag, from) < fs.len() ==> fs[tag_index(fs, tag, from)].0 == tag,
    decreases fs.len() - from,
{
    if from < fs.len() && fs[from].0 != tag {
        lemma_tag_index(fs, tag, from + 1);
    }
}

pub proof fn lemma_tag_index_unique(fs: Seq<(u32, Seq<u8>)>, tag: u32, from: int, at: int)
    requires
        0 <= from <= at <= fs.len(),
        forall|j: int| from <= j < at ==> (#[trigger] fs[j]).0 != tag,
        at < fs.len() ==> fs[at].0 == tag,
    ensures
        tag_index(fs, tag, from) == at,
    decreases fs.len() - from,
{
    if from < at {
        assert(fs[from].0 != tag);
        lemma_tag_index_unique(fs, tag, from + 1, at);
    }
}

/// Where the first field with a tag stands after one more field is appended.
pub proof fn lemma_tag_index_push(fs: Seq<(u32, Seq<u8>)>, f: (u32, Seq<u8>), tag: u32)
    ensures
        has_tag(fs, tag) ==> tag_index(fs.push(f), tag, 0) == tag_index(fs, tag, 0),
        !has_tag(fs, tag) && f.0 == tag ==> tag_index(fs.push(f), tag, 0) == fs.len(),
        !has_tag(fs, tag) && f.0 != tag ==> !has_tag(fs.push(f), tag),
{
    lemma_tag_index(fs, tag, 0);
    let at = tag_index(fs, tag, 0);
    let g = fs.push(f);
    assert forall|j: int| 0 <= j < at implies (#[trigger] g[j]).0 != tag by {
        assert(g[j] == fs[j]);
    }
    if at < fs.len() {
        assert(g[at] == fs[at]);
        lemma_tag_index_unique(g, tag, 0, at);
    } else if f.0 == tag {
        lemma_tag_index_unique(g, tag, 0, at);
    } else {
        lemma_tag_index_unique(g, tag, 0, at + 1);
    }
}

/// The bytes of one field: tag, `=`, value.
pub open spec fn field_bytes(f: (u32, Seq<u8>)) -> Seq<u8> {
    decimal(f.0 as nat) + seq![EQUALS] + f.1
}

/// The fields one after the other, `d` between them.
pub open spec fn join_fields(fs: Seq<(u32, Seq<u8>)>, d: u8) -> Seq<u8>
    decreases fs.len(),
{
    if fs.len() == 0 {
        Seq::empty()
    } else if fs.len() == 1 {
        field_bytes(fs[0])
    } else {
        field_bytes(fs[0]) + seq![d] + join_fields(fs.drop_first(), d)
    }
}

/// The fields one after the other, `d` after each.
pub open spec fn encode_fields(fs: Seq<(u32, Seq<u8>)>, d: u8) -> Seq<u8>
    decreases fs.len(),
{
    if fs.len() == 0 {
        Seq::empty()
    } else {
        field_bytes(fs[0]) + seq![d] + encode_fields(fs.drop_first(), d)
    }
}

/// The sum of the bytes.
pub open spec fn byte_sum(s: Seq<u8>) -> nat
    decreases s.len(),
{
    if s.len() == 0 {
        0
    } else {
        byte_sum(s.drop_last()) + s.last() as nat
    }
}

/// The three digits of a checksum.
pub open spec fn three_digits(n: nat) -> Seq<u8> {
    seq![(48 + (n / 100) % 10) as u8, (48 + (n / 10) % 10) as u8, (48 + n % 10) as u8]
}

/// The checksum field's value for the bytes that stand before it.
pub open spec fn checksum_of(s: Seq<u8>) -> Seq<u8> {
    three_digits(byte_sum(s) % 256)
}

/// A message around the fields `middle`: `BeginString` and `BodyLength` before them,
/// `CheckSum` after them. `BodyLength` counts the bytes of `middle` on the wire, and
/// `CheckSum` sums all bytes that stand before it.
pub open spec fn framed(middle: Seq<(u32, Seq<u8>)>, d: u8) -> Seq<(u32, Seq<u8>)> {
    let head = seq![
        (8u32, ascii("FIX.4.4")),
        (9u32, decimal(encode_fields(middle, d).len())),
    ];
    (head + middle).push((10u32, checksum_of(encode_fields(head + middle, d))))
}

/// A field that survives the wire: its value holds no delimiter.
pub open spec fn clean_field(f: (u32, Seq<u8>), d: u8) -> bool {
    free_of(f.1, d)
}

pub open spec fn clean_fields(fs: Seq<(u32, Seq<u8>)>, d: u8) -> bool {
    forall|i: int| 0 <= i < fs.len() ==> clean_field(#[trigger] fs[i], d)
}

/// A byte that can delimit fields: neither a digit nor `=`.
pub open spec fn is_delimiter(d: u8) -> bool {
    !is_digit(d) && d != EQUALS
}

pub proof fn lemma_encode_one(f: (u32, Seq<u8>), d: u8)
    ensures
        encode_fields(seq![f], d) == field_bytes(f) + seq![d],
{
    let one = seq![f];
    assert(one.drop_first() =~= Seq::<(u32, Seq<u8>)>::empty());
    assert(encode_fields(one.drop_first(), d) =~= Seq::<u8>::empty());
    assert(one[0] == f);
    assert(encode_fields(one, d) =~= field_bytes(f) + seq![d]);
}

pub proof fn lemma_encode_concat(a: Seq<(u32, Seq<u8>)>, b: Seq<(u32, Seq<u8>)>, d: u8)
    ensures
        encode_fields(a + b, d) == encode_fields(a, d) + encode_fields(b, d),
    decreases a.len(),
{
    if a.len() == 0 {
        assert(a + b =~= b);
        assert(encode_fields(a, d) + encode_fields(b, d) =~= encode_fields(b, d));
    } else {
        lemma_encode_concat(a.drop_first(), b, d);
        assert((a + b).drop_first() =~= a.drop_first() + b);
        assert((a + b)[0] == a[0]);
        assert(encode_fields(a + b, d) =~= encode_fields(a, d) + encode_fields(b, d));
    }
}

pub proof fn lemma_encode_push(a: Seq<(u32, Seq<u8>)>, f: (u32, Seq<u8>), d: u8)
    ensures
        encode_fields(a.push(f), d) == encode_fields(a, d) + field_bytes(f) + seq![d],
{
    lemma_encode_concat(a, seq![f], d);
    assert(a.push(f) =~= a + seq![f]);
    lemma_encode_one(f, d);
    assert(encode_fields(a, d) + (field_bytes(f) + seq![d]) =~= encode_fields(a, d) + field_bytes(f)
        + seq![d]);
}

/// Joining fields and closing with a delimiter lays them out as `encode_fields` does.
pub proof fn lemma_join_then_delimiter(fs: Seq<(u32, Seq<u8>)>, d: u8)
    requires
        fs.len() > 0,
    ensures
        join_fields(fs, d) + seq![d] == encode_fields(fs, d),
    decreases fs.len(),
{
    if fs.len() == 1 {
        assert(fs =~= seq![fs[0]]);
        lemma_encode_one(fs[0], d);
    } else {
        lemma_join_then_delimiter(fs.drop_first(), d);
        assert(join_fields(fs, d) + seq![d] =~= field_bytes(fs[0]) + seq![d] + (join_fields(
            fs.drop_first(),
            d,
        ) + seq![d]));
    }
}

pub proof fn lemma_join_push(a: Seq<(u32, Seq<u8>)>, f: (u32, Seq<u8>), d: u8)
    ensures
        join_fields(a.push(f), d) == if a.len() == 0 {
            field_bytes(f)
        } else {
            join_fields(a, d) + seq![d] + field_bytes(f)
        },
    decreases a.len(),
{
    if a.len() == 0 {
        assert(a.push(f)[0] == f);
    } else {
        let b = a.drop_first();
        lemma_join_push(b, f, d);
        assert(a.push(f).drop_first() =~= b.push(f));
        assert(a.push(f)[0] == a[0]);
        if b.len() == 0 {
            assert(join_fields(a.push(f), d) =~= join_fields(a, d) + seq![d] + field_bytes(f));
        } else {
            assert(join_fields(a.push(f), d) =~= join_fields(a, d) + seq![d] + field_bytes(f));
        }
    }
}

pub proof fn lemma_byte_sum_concat(a: Seq<u8>, b: Seq<u8>)
    ensures
        byte_sum(a + b) == byte_sum(a) + byte_sum(b),
    decreases b.len(),
{
    if b.len() == 0 {
        assert(a + b =~= a);
    } else {
        lemma_byte_sum_concat(a, b.drop_last());
        assert((a + b).drop_last() =~= a + b.drop_last());
        assert((a + b).last() == b.last());
    }
}

/// Searching in the second part of a concatenation is searching in that part alone.
pub proof fn lemma_next_index_shift(x: Seq<u8>, y: Seq<u8>, p: int, b: u8)
    requires
        0 <= p <= y.len(),
    ensures
        next_index(x + y, x.len() + p, b) == x.len() + next_index(y, p, b),
{
    lemma_next_index(y, p, b);
    let e = next_index(y, p, b);
    let s = x + y;
    assert forall|j: int| x.len() + p <= j < x.len() + e implies #[trigger] s[j] != b by {
        assert(s[j] == y[j - x.len()]);
    }
    if e < y.len() {
        assert(s[x.len() + e] == y[e]);
    }
    lemma_next_index_unique(s, x.len() + p, b, x.len() + e);
}

/// Decoding the second part of a concatenation is decoding that part alone.
pub proof fn lemma_decode_shift(x: Seq<u8>, y: Seq<u8>, d: u8, p: int)
    requires
        0 <= p,
    ensures
        decode_from(x + y, d, x.len() + p) == decode_from(y, d, p),
    decreases y.len() + 1 - p,
{
    let s = x + y;
    if p < y.len() {
        lemma_next_index_shift(x, y, p, d);
        lemma_next_index(y, p, d);
        let e = next_index(y, p, d);
        assert(s.subrange(x.len() + p, x.len() + e) =~= y.subrange(p, e));
        lemma_decode_shift(x, y, d, e + 1);
    }
}

/// A clean field's bytes are one token, and the token denotes the field.
pub proof fn lemma_token_of_field(f: (u32, Seq<u8>), d: u8)
    requires
        is_delimiter(d),
        clean_field(f, d),
    ensures
        token_field(field_bytes(f)) == Some(f),
        free_of(field_bytes(f), d),
{
    let digits = decimal(f.0 as nat);
    let tok = field_bytes(f);
    lemma_decimal(f.0 as nat);
    lemma_parse_decimal(f.0 as u64);
    assert forall|j: int| 0 <= j < digits.len() implies #[trigger] tok[j] != EQUALS by {
        assert(tok[j] == digits[j]);
        assert(is_digit(digits[j]));
    }
    assert(tok[digits.len() as int] == EQUALS);
    lemma_next_index_unique(tok, 0, EQUALS, digits.len() as int);
    assert(tok.subrange(0, digits.len() as int) =~= digits);
    assert(tok.subrange(digits.len() as int + 1, tok.len() as int) =~= f.1);
    assert forall|j: int| 0 <= j < tok.len() implies #[trigger] tok[j] != d by {
        if j < digits.len() {
            assert(tok[j] == digits[j]);
            assert(is_digit(digits[j]));
        } else if j > digits.len() {
            assert(tok[j] == f.1[j - digits.len() - 1]);
        }
    }
}

/// Reading back what was laid out gives the fields, as long as no value holds the
/// delimiter.
pub proof fn lemma_decode_encode(fs: Seq<(u32, Seq<u8>)>, d: u8)
    requires
        is_delimiter(d),
        clean_fields(fs, d),
    ensures
        decode(encode_fields(fs, d), d) == fs,
    decreases fs.len(),
{
    if fs.len() == 0 {
        assert(decode(encode_fields(fs, d), d) =~= fs);
    } else {
        let f = fs[0];
        let rest = fs.drop_first();
        let tok = field_bytes(f);
        let x = tok + seq![d];
        let y = encode_fields(rest, d);
        let s = encode_fields(fs, d);
        assert(s == x + y);
        assert(clean_field(f, d));
        lemma_token_of_field(f, d);
        assert forall|j: int| 0 <= j < tok.len() implies #[trigger] s[j] != d by {
            assert(s[j] == tok[j]);
        }
        assert(s[tok.len() as int] == d);
        lemma_next_index_unique(s, 0, d, tok.len() as int);
        assert(s.subrange(0, tok.len() as int) =~= tok);
        assert forall|i: int| 0 <= i < rest.len() implies clean_field(#[trigger] rest[i], d) by {
            assert(rest[i] == fs[i + 1]);
        }
        lemma_decode_encode(rest, d);
        lemma_decode_shift(x, y, d, 0);
        assert(x.len() == tok.len() + 1);
        assert(decode_from(s, d, tok.len() as int + 1) == rest);
        assert(seq![f] + rest =~= fs);
    }
}

} // verus!
