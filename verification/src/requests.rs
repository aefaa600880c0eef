//! Outbound messages: what each request carries and how a request becomes bytes.

use vstd::prelude::*;
use vstd::string::*;
use crate::codec::{
    byte_sum, checksum_of, clean_field, clean_fields, decode, encode_fields, field_bytes, framed,
    is_delimiter, join_fields, lemma_decode_encode, lemma_encode_concat, lemma_encode_one,
    lemma_encode_push, lemma_join_push, lemma_join_then_delimiter, lemma_tag_index_unique,
    three_digits, value_of,
};
use crate::decimal::{decimal_view, Decimal};
use crate::field::Field;
use crate::framer::{is_frame, lemma_framed_is_frame};
use crate::messages::fields_view;
use crate::text::{
    append_bytes, ascii, copy_bytes, decimal, decimal_text, free_of, i32_to_text, lemma_decimal,
    lemma_parse_decimal, lit, parse_u32_spec, signed_decimal, u32_to_text, DOT, EQUALS, ZERO,
};
use crate::time::{Timestamp};
use crate::types::{bytes_view, Config, OrderType, Side, SubID};

verus! {

/// One field if the value is there, none if it is not.
pub open spec fn optional(field: Field, value: Option<Seq<u8>>) -> Seq<(u32, Seq<u8>)> {
    match value {
        Some(v) => seq![(field.tag_spec(), v)],
        None => Seq::empty(),
    }
}

/// The text of an optional instant.
pub open spec fn time_text(t: Option<Timestamp>) -> Option<Seq<u8>> {
    match t {
        Some(v) => Some(v.text()),
        None => None,
    }
}

/// The text of an optional number.
pub open spec fn number_text(n: Option<u32>) -> Option<Seq<u8>> {
    match n {
        Some(v) => Some(decimal(v as nat)),
        None => None,
    }
}

/// The text of a flag.
pub open spec fn flag_text(b: bool) -> Seq<u8> {
    if b {
        ascii("true")
    } else {
        ascii("false")
    }
}

/// The header fields that every outbound message carries after `BodyLength`.
pub open spec fn header_fields(
    message_type: Seq<u8>,
    sub_id: SubID,
    sequence_number: u32,
    config: &Config,
    now: Timestamp,
) -> Seq<(u32, Seq<u8>)> {
    seq![
        (Field::MsgType.tag_spec(), message_type),
        (Field::SenderCompID.tag_spec(), config.sender_comp_id@ + seq![DOT] + config.username@),
        (Field::TargetCompID.tag_spec(), ascii("cServer")),
        (Field::TargetSubID.tag_spec(), sub_id.text()),
        (Field::SenderSubID.tag_spec(), sub_id.text()),
        (Field::MsgSeqNum.tag_spec(), decimal(sequence_number as nat)),
        (Field::SendingTime.tag_spec(), now.text()),
    ]
}

/// What `BodyLength` counts for a header and a joined body: each followed by a
/// delimiter.
pub open spec fn body_length(header: Seq<u8>, body: Option<Seq<u8>>) -> nat {
    (header.len() + 1 + match body {
        Some(b) => b.len() + 1,
        None => 0,
    }) as nat
}

/// Appends a field to a list of fields.
pub fn push_field(fields: &mut Vec<(u32, Vec<u8>)>, field: Field, value: Vec<u8>)
    ensures
        fields_view(final(fields)@) == fields_view(old(fields)@).push((field.tag_spec(), value@)),
{
    fields.push((field.tag(), value));
    assert(fields_view(fields@) =~= fields_view(old(fields)@).push((field.tag_spec(), value@)));
}

/// The bytes of one field: the tag of `field`, `=`, and the value.
pub fn format_field(field: Field, value: &[u8]) -> (r: Vec<u8>)
    ensures
        r@ == field_bytes((field.tag_spec(), value@)),
{
    let mut out = u32_to_text(field.tag());
    out.push(EQUALS);
    append_bytes(&mut out, value);
    out
}

/// The fields one after the other, `delimiter` between them.
pub fn join(fields: &Vec<(u32, Vec<u8>)>, delimiter: u8) -> (r: Vec<u8>)
    ensures
        r@ == join_fields(fields_view(fields@), delimiter),
{
    let ghost fs = fields_view(fields@);
    let mut out: Vec<u8> = Vec::new();
    let mut i: usize = 0;
    assert(fs.subrange(0, 0) =~= Seq::empty());
    while i < fields.len()
        invariant
            i <= fields@.len(),
            fs == fields_view(fields@),
            out@ == join_fields(fs.subrange(0, i as int), delimiter),
        decreases fields@.len() - i,
    {
        if i > 0 {
            out.push(delimiter);
        }
        let mut text = u32_to_text(fields[i].0);
        text.push(EQUALS);
        append_bytes(&mut text, fields[i].1.as_slice());
        append_bytes(&mut out, text.as_slice());
        proof {
            lemma_join_push(fs.subrange(0, i as int), fs[i as int], delimiter);
            assert(fs.subrange(0, i as int).push(fs[i as int]) =~= fs.subrange(0, i + 1));
        }
        i = i + 1;
    }
    assert(fs.subrange(0, i as int) =~= fs);
    out
}

/// The fields of a whole message, `BeginString` to `CheckSum`, for a message type and
/// body fields.
pub open spec fn fields_of(
    message_type: Seq<u8>,
    body: Seq<(u32, Seq<u8>)>,
    sub_id: SubID,
    sequence_number: u32,
    delimiter: u8,
    config: &Config,
    now: Timestamp,
) -> Seq<(u32, Seq<u8>)> {
    framed(header_fields(message_type, sub_id, sequence_number, config, now) + body, delimiter)
}

/// The bytes of a whole message: each field of `fields_of`, closed by the delimiter.
pub open spec fn wire_of(
    message_type: Seq<u8>,
    body: Seq<(u32, Seq<u8>)>,
    sub_id: SubID,
    sequence_number: u32,
    delimiter: u8,
    config: &Config,
    now: Timestamp,
) -> Seq<u8> {
    encode_fields(
        fields_of(message_type, body, sub_id, sequence_number, delimiter, config, now),
        delimiter,
    )
}

/// A request that can be sent: it knows its message type and its body fields.
pub trait RequestMessage: Sized {
    /// The value of `MsgType`.
    spec fn message_type(&self) -> Seq<u8>;

    /// The body fields in their canonical order. `now` stands in where the request
    /// carries a time of its own choosing and none was given.
    spec fn body_fields(&self, config: &Config, now: Timestamp) -> Seq<(u32, Seq<u8>)>;

    fn get_message_type(&self) -> (r: Vec<u8>)
        ensures
            r@ == self.message_type(),
    ;

    /// The body fields joined by `delimiter`; `None` for a request without body.
    fn get_body(&self, delimiter: u8, config: &Config, now: &Timestamp) -> (r: Option<Vec<u8>>)
        ensures
            r is Some == (self.body_fields(config, *now).len() > 0),
            r is Some ==> r->0@ == join_fields(self.body_fields(config, *now), delimiter),
    ;

    /// `BeginString`, `BodyLength` and the header fields, joined by `delimiter`.
    /// `BodyLength` counts the header fields and `body`, each with the delimiter that
    /// closes it.
    fn get_header(
        &self,
        sub_id: SubID,
        body: &Option<Vec<u8>>,
        sequence_number: u32,
        delimiter: u8,
        config: &Config,
        now: &Timestamp,
    ) -> (r: Vec<u8>)
        ensures
            r@ == encode_fields(
                seq![
                    (Field::BeginString.tag_spec(), ascii("FIX.4.4")),
                    (
                        Field::BodyLength.tag_spec(),
                        decimal(
                            body_length(
                                join_fields(
                                    header_fields(
                                        self.message_type(),
                                        sub_id,
                                        sequence_number,
                                        config,
                                        *now,
                                    ),
                                    delimiter,
                                ),
                                bytes_view(*body),
                            ),
                        ),
                    ),
                ],
                delimiter,
            ) + join_fields(
                header_fields(self.message_type(), sub_id, sequence_number, config, *now),
                delimiter,
            ),
    {
        let mut fields: Vec<(u32, Vec<u8>)> = Vec::new();
        let role = sub_id.to_bytes();
        let mut sender = copy_bytes(config.sender_comp_id.as_slice());
        sender.push(DOT);
        append_bytes(&mut sender, config.username.as_slice());
        assert(sender@ =~= config.sender_comp_id@ + seq![DOT] + config.username@);
        proof {
            reveal_strlit("cServer");
            reveal_strlit("FIX.4.4");
        }
        assert(fields_view(fields@) =~= Seq::empty());
        push_field(&mut fields, Field::MsgType, self.get_message_type());
        push_field(&mut fields, Field::SenderCompID, sender);
        push_field(&mut fields, Field::TargetCompID, lit("cServer"));
        push_field(&mut fields, Field::TargetSubID, copy_bytes(role.as_slice()));
        push_field(&mut fields, Field::SenderSubID, role);
        push_field(&mut fields, Field::MsgSeqNum, u32_to_text(sequence_number));
        push_field(&mut fields, Field::SendingTime, now.format());
        let ghost hf = header_fields(self.message_type(), sub_id, sequence_number, config, *now);
        assert(fields_view(fields@) =~= hf);
        let joined = join(&fields, delimiter);
        let body_len: u128 = match body {
            Some(b) => b.len() as u128 + 1,
            None => 0,
        };
        let total: u128 = joined.len() as u128 + 1 + body_len;
        let ghost begin = (Field::BeginString.tag_spec(), ascii("FIX.4.4"));
        let ghost length = (Field::BodyLength.tag_spec(), decimal(total as nat));
        let mut out = format_field(Field::BeginString, lit("FIX.4.4").as_slice());
        out.push(delimiter);
        let count = decimal_text(total);
        let text = format_field(Field::BodyLength, count.as_slice());
        append_bytes(&mut out, text.as_slice());
        out.push(delimiter);
        proof {
            lemma_encode_one(begin, delimiter);
            lemma_encode_push(seq![begin], length, delimiter);
            assert(seq![begin].push(length) =~= seq![begin, length]);
        }
        append_bytes(&mut out, joined.as_slice());
        out
    }

    /// The checksum field for the bytes that stand before it.
    fn get_trailer(&self, header_and_body: &[u8]) -> (r: Vec<u8>)
        ensures
            r@ == field_bytes((Field::CheckSum.tag_spec(), checksum_of(header_and_body@))),
    {
        let mut sum: u32 = 0;
        let mut i: usize = 0;
        assert(header_and_body@.subrange(0, 0) =~= Seq::empty());
        while i < header_and_body.len()
            invariant
                i <= header_and_body@.len(),
                sum == byte_sum(header_and_body@.subrange(0, i as int)) % 256,
            decreases header_and_body@.len() - i,
        {
            assert(header_and_body@.subrange(0, i + 1).drop_last() =~= header_and_body@.subrange(
                0,
                i as int,
            ));
            sum = (sum + header_and_body[i] as u32) % 256;
            i = i + 1;
        }
        assert(header_and_body@.subrange(0, i as int) =~= header_and_body@);
        let mut digits: Vec<u8> = Vec::new();
        digits.push(ZERO + ((sum / 100) % 10) as u8);
        digits.push(ZERO + ((sum / 10) % 10) as u8);
        digits.push(ZERO + (sum % 10) as u8);
        assert(digits@ =~= three_digits(sum as nat));
        format_field(Field::CheckSum, digits.as_slice())
    }

    /// The request as it goes over the wire with sequence number `sequence_number`,
    /// sent at `now`.
    fn build(
        &self,
        sub_id: SubID,
        sequence_number: u32,
        delimiter: u8,
        config: &Config,
        now: &Timestamp,
    ) -> (r: Vec<u8>)
        ensures
            r@ == wire_of(
                self.message_type(),
                self.body_fields(config, *now),
                sub_id,
                sequence_number,
                delimiter,
                config,
                *now,
            ),
    {
        let body = self.get_body(delimiter, config, now);
        let header = self.get_header(sub_id, &body, sequence_number, delimiter, config, now);
        let ghost hf = header_fields(self.message_type(), sub_id, sequence_number, config, *now);
        let ghost bf = self.body_fields(config, *now);
        let ghost head = seq![
            (Field::BeginString.tag_spec(), ascii("FIX.4.4")),
            (Field::BodyLength.tag_spec(), decimal(encode_fields(hf + bf, delimiter).len())),
        ];
        proof {
            lemma_join_then_delimiter(hf, delimiter);
            lemma_encode_concat(hf, bf, delimiter);
            if bf.len() > 0 {
                lemma_join_then_delimiter(bf, delimiter);
            } else {
                assert(encode_fields(bf, delimiter) =~= Seq::<u8>::empty());
            }
            lemma_encode_concat(head, hf + bf, delimiter);
        }
        let mut out = header;
        out.push(delimiter);
        match body {
            Some(b) => {
                append_bytes(&mut out, b.as_slice());
                out.push(delimiter);
            },
            None => {},
        }
        assert(out@ =~= encode_fields(head + (hf + bf), delimiter));
        let trailer = self.get_trailer(out.as_slice());
        let ghost sum = (Field::CheckSum.tag_spec(), checksum_of(out@));
        proof {
            lemma_encode_push(head + (hf + bf), sum, delimiter);
        }
        append_bytes(&mut out, trailer.as_slice());
        out.push(delimiter);
        out
    }
}

/// The fields of the request as a whole message.
pub open spec fn message_fields<R: RequestMessage>(
    req: &R,
    sub_id: SubID,
    sequence_number: u32,
    delimiter: u8,
    config: &Config,
    now: Timestamp,
) -> Seq<(u32, Seq<u8>)> {
    fields_of(
        req.message_type(),
        req.body_fields(config, now),
        sub_id,
        sequence_number,
        delimiter,
        config,
        now,
    )
}

/// The bytes of the request as a whole message.
pub open spec fn wire<R: RequestMessage>(
    req: &R,
    sub_id: SubID,
    sequence_number: u32,
    delimiter: u8,
    config: &Config,
    now: Timestamp,
) -> Seq<u8> {
    encode_fields(
        message_fields(req, sub_id, sequence_number, delimiter, config, now),
        delimiter,
    )
}

/// Appends a field if its value is there.
pub fn push_optional(fields: &mut Vec<(u32, Vec<u8>)>, field: Field, value: &Option<Vec<u8>>)
    ensures
        fields_view(final(fields)@) == fields_view(old(fields)@) + optional(
            field,
            bytes_view(*value),
        ),
{
    match value {
        Some(v) => {
            push_field(fields, field, copy_bytes(v.as_slice()));
            assert(fields_view(fields@) =~= fields_view(old(fields)@) + optional(
                field,
                bytes_view(*value),
            ));
        },
        None => {
            assert(fields_view(fields@) =~= fields_view(old(fields)@) + optional(
                field,
                bytes_view(*value),
            ));
        },
    }
}

/// Appends a decimal field if its value is there.
pub fn push_decimal(fields: &mut Vec<(u32, Vec<u8>)>, field: Field, value: &Option<Decimal>)
    ensures
        fields_view(final(fields)@) == fields_view(old(fields)@) + optional(
            field,
            decimal_view(*value),
        ),
{
    match value {
        Some(v) => {
            push_field(fields, field, copy_bytes(v.as_bytes()));
            assert(fields_view(fields@) =~= fields_view(old(fields)@) + optional(
                field,
                decimal_view(*value),
            ));
        },
        None => {
            assert(fields_view(fields@) =~= fields_view(old(fields)@) + optional(
                field,
                decimal_view(*value),
            ));
        },
    }
}

/// Appends a time field if its value is there.
pub fn push_time(fields: &mut Vec<(u32, Vec<u8>)>, field: Field, value: &Option<Timestamp>)
    ensures
        fields_view(final(fields)@) == fields_view(old(fields)@) + optional(
            field,
            time_text(*value),
        ),
{
    match value {
        Some(v) => {
            push_field(fields, field, v.format());
            assert(fields_view(fields@) =~= fields_view(old(fields)@) + optional(
                field,
                time_text(*value),
            ));
        },
        None => {
            assert(fields_view(fields@) =~= fields_view(old(fields)@) + optional(
                field,
                time_text(*value),
            ));
        },
    }
}

/// Appends a numeric field if its value is there.
pub fn push_number(fields: &mut Vec<(u32, Vec<u8>)>, field: Field, value: Option<u32>)
    ensures
        fields_view(final(fields)@) == fields_view(old(fields)@) + optional(
            field,
            number_text(value),
        ),
{
    match value {
        Some(v) => {
            push_field(fields, field, u32_to_text(v));
            assert(fields_view(fields@) =~= fields_view(old(fields)@) + optional(
                field,
                number_text(value),
            ));
        },
        None => {
            assert(fields_view(fields@) =~= fields_view(old(fields)@) + optional(
                field,
                number_text(value),
            ));
        },
    }
}

/// The joined fields, or `None` for an empty list.
pub fn finish_body(fields: &Vec<(u32, Vec<u8>)>, delimiter: u8) -> (r: Option<Vec<u8>>)
    ensures
        r is Some == (fields_view(fields@).len() > 0),
        r is Some ==> r->0@ == join_fields(fields_view(fields@), delimiter),
{
    if fields.len() == 0 {
        None
    } else {
        Some(join(fields, delimiter))
    }
}

/// Logon: the encryption scheme, the heartbeat interval and the credentials, and on
/// request the flag that resets the sequence numbers.
#[derive(Debug)]
pub struct LogonReq {
    pub encryption_scheme: i32,
    pub reset_seq_num: Option<bool>,
}

impl LogonReq {
    /// A logon without encryption.
    pub fn new(reset_seq_num: Option<bool>) -> (r: LogonReq)
        ensures
            r.encryption_scheme == 0,
            r.reset_seq_num == reset_seq_num,
    {
        LogonReq { encryption_scheme: 0, reset_seq_num }
    }
}

impl Default for LogonReq {
    fn default() -> (r: LogonReq)
        ensures
            r.encryption_scheme == 0,
            r.reset_seq_num is None,
    {
        LogonReq { encryption_scheme: 0, reset_seq_num: None }
    }
}

impl RequestMessage for LogonReq {
    open spec fn message_type(&self) -> Seq<u8> {
        ascii("A")
    }

    open spec fn body_fields(&self, config: &Config, now: Timestamp) -> Seq<(u32, Seq<u8>)> {
        seq![
            (Field::EncryptMethod.tag_spec(), signed_decimal(self.encryption_scheme as int)),
            (Field::HeartBtInt.tag_spec(), decimal(config.heart_beat as nat)),
            (Field::Username.tag_spec(), config.username@),
            (Field::Password.tag_spec(), config.password@),
        ] + optional(
            Field::ResetSeqNumFlag,
            if self.reset_seq_num == Some(true) {
                Some(ascii("Y"))
            } else {
                None
            },
        )
    }

    fn get_message_type(&self) -> (r: Vec<u8>) {
        proof {
            reveal_strlit("A");
        }
        lit("A")
    }

    fn get_body(&self, delimiter: u8, config: &Config, now: &Timestamp) -> (r: Option<Vec<u8>>) {
        let mut fields: Vec<(u32, Vec<u8>)> = Vec::new();
        assert(fields_view(fields@) =~= Seq::empty());
        push_field(&mut fields, Field::EncryptMethod, i32_to_text(self.encryption_scheme));
        push_field(&mut fields, Field::HeartBtInt, u32_to_text(config.heart_beat));
        push_field(&mut fields, Field::Username, copy_bytes(config.username.as_slice()));
        push_field(&mut fields, Field::Password, copy_bytes(config.password.as_slice()));
        match self.reset_seq_num {
            Some(true) => {
                proof {
                    reveal_strlit("Y");
                }
                push_field(&mut fields, Field::ResetSeqNumFlag, lit("Y"));
            },
            _ => {},
        }
        assert(fields_view(fields@) =~= self.body_fields(config, *now));
        finish_body(&fields, delimiter)
    }
}

/// Logout: no body.
#[derive(Debug, Default)]
pub struct LogoutReq;

impl RequestMessage for LogoutReq {
    open spec fn message_type(&self) -> Seq<u8> {
        ascii("5")
    }

    open spec fn body_fields(&self, config: &Config, now: Timestamp) -> Seq<(u32, Seq<u8>)> {
        Seq::empty()
    }

    fn get_message_type(&self) -> (r: Vec<u8>) {
        proof {
            reveal_strlit("5");
        }
        lit("5")
    }

    fn get_body(&self, delimiter: u8, config: &Config, now: &Timestamp) -> (r: Option<Vec<u8>>) {
        None
    }
}

/// Heartbeat: the identifier of the test request that it answers, if it answers one.
#[derive(Debug, Default)]
pub struct HeartbeatReq {
    pub test_req_id: Option<Vec<u8>>,
}

impl HeartbeatReq {
    pub fn new(test_req_id: Option<Vec<u8>>) -> (r: HeartbeatReq)
        ensures
            r.test_req_id == test_req_id,
    {
        HeartbeatReq { test_req_id }
    }
}

impl RequestMessage for HeartbeatReq {
    open spec fn message_type(&self) -> Seq<u8> {
        ascii("0")
    }

    open spec fn body_fields(&self, config: &Config, now: Timestamp) -> Seq<(u32, Seq<u8>)> {
        optional(Field::TestReqID, bytes_view(self.test_req_id))
    }

    fn get_message_type(&self) -> (r: Vec<u8>) {
        proof {
            reveal_strlit("0");
        }
        lit("0")
    }

    fn get_body(&self, delimiter: u8, config: &Config, now: &Timestamp) -> (r: Option<Vec<u8>>) {
        let mut fields: Vec<(u32, Vec<u8>)> = Vec::new();
        assert(fields_view(fields@) =~= Seq::empty());
        push_optional(&mut fields, Field::TestReqID, &self.test_req_id);
        assert(fields_view(fields@) =~= self.body_fields(config, *now));
        finish_body(&fields, delimiter)
    }
}

/// Test request: the identifier that the answer has to echo.
#[derive(Debug, Default)]
pub struct TestReq {
    pub test_req_id: Vec<u8>,
}

impl TestReq {
    pub fn new(test_req_id: Vec<u8>) -> (r: TestReq)
        ensures
            r.test_req_id == test_req_id,
    {
        TestReq { test_req_id }
    }
}

impl RequestMessage for TestReq {
    open spec fn message_type(&self) -> Seq<u8> {
        ascii("1")
    }

    open spec fn body_fields(&self, config: &Config, now: Timestamp) -> Seq<(u32, Seq<u8>)> {
        seq![(Field::TestReqID.tag_spec(), self.test_req_id@)]
    }

    fn get_message_type(&self) -> (r: Vec<u8>) {
        proof {
            reveal_strlit("1");
        }
        lit("1")
    }

    fn get_body(&self, delimiter: u8, config: &Config, now: &Timestamp) -> (r: Option<Vec<u8>>) {
        let mut fields: Vec<(u32, Vec<u8>)> = Vec::new();
        assert(fields_view(fields@) =~= Seq::empty());
        push_field(&mut fields, Field::TestReqID, copy_bytes(self.test_req_id.as_slice()));
        assert(fields_view(fields@) =~= self.body_fields(config, *now));
        finish_body(&fields, delimiter)
    }
}

/// Resend request: the range of sequence numbers to send again; an end of 0 leaves
/// the range open.
#[derive(Debug, Default)]
pub struct ResendReq {
    pub begin_seq_no: u32,
    pub end_seq_no: u32,
}

impl ResendReq {
    pub fn new(begin_seq_no: u32, end_seq_no: u32) -> (r: ResendReq)
        ensures
            r.begin_seq_no == begin_seq_no,
            r.end_seq_no == end_seq_no,
    {
        ResendReq { begin_seq_no, end_seq_no }
    }
}

impl RequestMessage for ResendReq {
    open spec fn message_type(&self) -> Seq<u8> {
        ascii("2")
    }

    open spec fn body_fields(&self, config: &Config, now: Timestamp) -> Seq<(u32, Seq<u8>)> {
        seq![
            (Field::BeginSeqNo.tag_spec(), decimal(self.begin_seq_no as nat)),
            (Field::EndSeqNo.tag_spec(), decimal(self.end_seq_no as nat)),
        ]
    }

    fn get_message_type(&self) -> (r: Vec<u8>) {
        proof {
            reveal_strlit("2");
        }
        lit("2")
    }

    fn get_body(&self, delimiter: u8, config: &Config, now: &Timestamp) -> (r: Option<Vec<u8>>) {
        let mut fields: Vec<(u32, Vec<u8>)> = Vec::new();
        assert(fields_view(fields@) =~= Seq::empty());
        push_field(&mut fields, Field::BeginSeqNo, u32_to_text(self.begin_seq_no));
        push_field(&mut fields, Field::EndSeqNo, u32_to_text(self.end_seq_no));
        assert(fields_view(fields@) =~= self.body_fields(config, *now));
        finish_body(&fields, delimiter)
    }
}

/// Sequence reset: the next sequence number, and whether the reset fills a gap.
#[derive(Debug, Default)]
pub struct SequenceReset {
    pub gap_fill_flag: Option<bool>,
    pub new_seq_no: u32,
}

impl SequenceReset {
    pub fn new(gap_fill_flag: Option<bool>, new_seq_no: u32) -> (r: SequenceReset)
        ensures
            r.gap_fill_flag == gap_fill_flag,
            r.new_seq_no == new_seq_no,
    {
        SequenceReset { gap_fill_flag, new_seq_no }
    }
}

impl RequestMessage for SequenceReset {
    open spec fn message_type(&self) -> Seq<u8> {
        ascii("4")
    }

    open spec fn body_fields(&self, config: &Config, now: Timestamp) -> Seq<(u32, Seq<u8>)> {
        seq![(Field::NewSeqNo.tag_spec(), decimal(self.new_seq_no as nat))] + optional(
            Field::GapFillFlag,
            match self.gap_fill_flag {
                Some(b) => Some(flag_text(b)),
                None => None,
            },
        )
    }

    fn get_message_type(&self) -> (r: Vec<u8>) {
        proof {
            reveal_strlit("4");
        }
        lit("4")
    }

    fn get_body(&self, delimiter: u8, config: &Config, now: &Timestamp) -> (r: Option<Vec<u8>>) {
        let mut fields: Vec<(u32, Vec<u8>)> = Vec::new();
        assert(fields_view(fields@) =~= Seq::empty());
        push_field(&mut fields, Field::NewSeqNo, u32_to_text(self.new_seq_no));
        proof {
            reveal_strlit("true");
            reveal_strlit("false");
        }
        match self.gap_fill_flag {
            Some(true) => {
                push_field(&mut fields, Field::GapFillFlag, lit("true"));
            },
            Some(false) => {
                push_field(&mut fields, Field::GapFillFlag, lit("false"));
            },
            None => {},
        }
        assert(fields_view(fields@) =~= self.body_fields(config, *now));
        finish_body(&fields, delimiter)
    }
}

/// One `MDEntryType` field for each requested entry type.
pub open spec fn entry_type_fields(types: Seq<u8>) -> Seq<(u32, Seq<u8>)> {
    Seq::new(types.len(), |i: int| (Field::MDEntryType.tag_spec(), seq![types[i]]))
}

/// Market data request: subscribes to a symbol (`subscription_req_type` `1`) or ends
/// the subscription (`2`); `market_depth` is 1 for spot prices and 0 for the full book.
#[derive(Debug, Default)]
pub struct MarketDataReq {
    pub md_req_id: Vec<u8>,
    pub subscription_req_type: u8,
    pub market_depth: u32,
    pub md_update_type: Option<u32>,
    pub md_entry_type: Vec<u8>,
    pub no_related_sym: u32,
    pub symbol: u32,
}

impl MarketDataReq {
    pub fn new(
        md_req_id: Vec<u8>,
        subscription_req_type: u8,
        market_depth: u32,
        md_update_type: Option<u32>,
        md_entry_type: &[u8],
        no_related_sym: u32,
        symbol: u32,
    ) -> (r: MarketDataReq)
        ensures
            r.md_req_id == md_req_id,
            r.subscription_req_type == subscription_req_type,
            r.market_depth == market_depth,
            r.md_update_type == md_update_type,
            r.md_entry_type@ == md_entry_type@,
            r.no_related_sym == no_related_sym,
            r.symbol == symbol,
    {
        MarketDataReq {
            md_req_id,
            subscription_req_type,
            market_depth,
            md_update_type,
            md_entry_type: copy_bytes(md_entry_type),
            no_related_sym,
            symbol,
        }
    }
}

impl RequestMessage for MarketDataReq {
    open spec fn message_type(&self) -> Seq<u8> {
        ascii("V")
    }

    open spec fn body_fields(&self, config: &Config, now: Timestamp) -> Seq<(u32, Seq<u8>)> {
        seq![
            (Field::MDReqID.tag_spec(), self.md_req_id@),
            (Field::SubscriptionRequestType.tag_spec(), seq![self.subscription_req_type]),
            (Field::MarketDepth.tag_spec(), decimal(self.market_depth as nat)),
            (Field::NoMDEntryTypes.tag_spec(), decimal(self.md_entry_type@.len())),
        ] + entry_type_fields(self.md_entry_type@) + seq![
            (Field::NoRelatedSym.tag_spec(), decimal(self.no_related_sym as nat)),
            (Field::Symbol.tag_spec(), decimal(self.symbol as nat)),
        ] + optional(Field::MDUpdateType, number_text(self.md_update_type))
    }

    fn get_message_type(&self) -> (r: Vec<u8>) {
        proof {
            reveal_strlit("V");
        }
        lit("V")
    }

    fn get_body(&self, delimiter: u8, config: &Config, now: &Timestamp) -> (r: Option<Vec<u8>>) {
        let mut fields: Vec<(u32, Vec<u8>)> = Vec::new();
        assert(fields_view(fields@) =~= Seq::empty());
        let mut kind: Vec<u8> = Vec::new();
        kind.push(self.subscription_req_type);
        assert(kind@ =~= seq![self.subscription_req_type]);
        push_field(&mut fields, Field::MDReqID, copy_bytes(self.md_req_id.as_slice()));
        push_field(&mut fields, Field::SubscriptionRequestType, kind);
        push_field(&mut fields, Field::MarketDepth, u32_to_text(self.market_depth));
        push_field(
            &mut fields,
            Field::NoMDEntryTypes,
            decimal_text(self.md_entry_type.len() as u128),
        );
        let ghost first = fields_view(fields@);
        let mut i: usize = 0;
        while i < self.md_entry_type.len()
            invariant
                i <= self.md_entry_type@.len(),
                fields_view(fields@) == first + entry_type_fields(self.md_entry_type@).subrange(
                    0,
                    i as int,
                ),
            decreases self.md_entry_type@.len() - i,
        {
            let ghost before = fields_view(fields@);
            let mut entry: Vec<u8> = Vec::new();
            entry.push(self.md_entry_type[i]);
            assert(entry@ =~= seq![self.md_entry_type@[i as int]]);
            push_field(&mut fields, Field::MDEntryType, entry);
            i = i + 1;
            assert(fields_view(fields@) =~= first + entry_type_fields(
                self.md_entry_type@,
            ).subrange(0, i as int));
        }
        assert(entry_type_fields(self.md_entry_type@).subrange(0, i as int) =~= entry_type_fields(
            self.md_entry_type@,
        ));
        push_field(&mut fields, Field::NoRelatedSym, u32_to_text(self.no_related_sym));
        push_field(&mut fields, Field::Symbol, u32_to_text(self.symbol));
        push_number(&mut fields, Field::MDUpdateType, self.md_update_type);
        assert(fields_view(fields@) =~= self.body_fields(config, *now));
        finish_body(&fields, delimiter)
    }
}

/// The body of a new order single.
pub open spec fn new_order_fields(
    cl_ord_id: Seq<u8>,
    symbol: u32,
    side: Side,
    transact_time: Seq<u8>,
    order_qty: Seq<u8>,
    ord_type: OrderType,
    price: Option<Seq<u8>>,
    stop_px: Option<Seq<u8>>,
    expire_time: Option<Seq<u8>>,
    pos_maint_rpt_id: Option<Seq<u8>>,
    designation: Option<Seq<u8>>,
) -> Seq<(u32, Seq<u8>)> {
    seq![
        (Field::ClOrdId.tag_spec(), cl_ord_id),
        (Field::Symbol.tag_spec(), decimal(symbol as nat)),
        (Field::Side.tag_spec(), decimal(side.code_spec() as nat)),
        (Field::TransactTime.tag_spec(), transact_time),
        (Field::OrderQty.tag_spec(), order_qty),
        (Field::OrdType.tag_spec(), decimal(ord_type.code_spec() as nat)),
    ] + optional(Field::Price, price) + optional(Field::StopPx, stop_px) + optional(
        Field::ExpireTime,
        expire_time,
    ) + optional(Field::PosMaintRptID, pos_maint_rpt_id) + optional(
        Field::Designation,
        designation,
    )
}

/// New order single. Without a `transact_time` of its own the order carries the time
/// at which it is sent.
#[derive(Debug)]
pub struct NewOrderSingleReq {
    pub cl_ord_id: Vec<u8>,
    pub symbol: u32,
    pub side: Side,
    pub transact_time: Option<Timestamp>,
    pub order_qty: Decimal,
    pub ord_type: OrderType,
    pub price: Option<Decimal>,
    pub stop_px: Option<Decimal>,
    pub expire_time: Option<Timestamp>,
    pub pos_maint_rpt_id: Option<Vec<u8>>,
    pub designation: Option<Vec<u8>>,
}

impl NewOrderSingleReq {
    pub fn new(
        cl_ord_id: Vec<u8>,
        symbol: u32,
        side: Side,
        transact_time: Option<Timestamp>,
        order_qty: Decimal,
        ord_type: OrderType,
        price: Option<Decimal>,
        stop_px: Option<Decimal>,
        expire_time: Option<Timestamp>,
        pos_maint_rpt_id: Option<Vec<u8>>,
        designation: Option<Vec<u8>>,
    ) -> (r: NewOrderSingleReq)
        ensures
            r.cl_ord_id == cl_ord_id,
            r.symbol == symbol,
            r.side == side,
            r.transact_time == transact_time,
            r.order_qty == order_qty,
            r.ord_type == ord_type,
            r.price == price,
            r.stop_px == stop_px,
            r.expire_time == expire_time,
            r.pos_maint_rpt_id == pos_maint_rpt_id,
            r.designation == designation,
    {
        NewOrderSingleReq {
            cl_ord_id,
            symbol,
            side,
            transact_time,
            order_qty,
            ord_type,
            price,
            stop_px,
            expire_time,
            pos_maint_rpt_id,
            designation,
        }
    }
}

impl RequestMessage for NewOrderSingleReq {
    open spec fn message_type(&self) -> Seq<u8> {
        ascii("D")
    }

    open spec fn body_fields(&self, config: &Config, now: Timestamp) -> Seq<(u32, Seq<u8>)> {
        new_order_fields(
            self.cl_ord_id@,
            self.symbol,
            self.side,
            match self.transact_time {
                Some(t) => t.text(),
                None => now.text(),
            },
            self.order_qty@,
            self.ord_type,
            decimal_view(self.price),
            decimal_view(self.stop_px),
            time_text(self.expire_time),
            bytes_view(self.pos_maint_rpt_id),
            bytes_view(self.designation),
        )
    }

    fn get_message_type(&self) -> (r: Vec<u8>) {
        proof {
            reveal_strlit("D");
        }
        lit("D")
    }

    fn get_body(&self, delimiter: u8, config: &Config, now: &Timestamp) -> (r: Option<Vec<u8>>) {
        let mut fields: Vec<(u32, Vec<u8>)> = Vec::new();
        assert(fields_view(fields@) =~= Seq::empty());
        let time = match &self.transact_time {
            Some(t) => t.format(),
            None => now.format(),
        };
        push_field(&mut fields, Field::ClOrdId, copy_bytes(self.cl_ord_id.as_slice()));
        push_field(&mut fields, Field::Symbol, u32_to_text(self.symbol));
        push_field(&mut fields, Field::Side, u32_to_text(self.side.code()));
        push_field(&mut fields, Field::TransactTime, time);
        push_field(&mut fields, Field::OrderQty, copy_bytes(self.order_qty.as_bytes()));
        push_field(&mut fields, Field::OrdType, u32_to_text(self.ord_type.code()));
        push_decimal(&mut fields, Field::Price, &self.price);
        push_decimal(&mut fields, Field::StopPx, &self.stop_px);
        push_time(&mut fields, Field::ExpireTime, &self.expire_time);
        push_optional(&mut fields, Field::PosMaintRptID, &self.pos_maint_rpt_id);
        push_optional(&mut fields, Field::Designation, &self.designation);
        assert(fields_view(fields@) =~= self.body_fields(config, *now));
        finish_body(&fields, delimiter)
    }
}

/// Order status request.
#[derive(Debug)]
pub struct OrderStatusReq {
    pub cl_ord_id: Vec<u8>,
    pub side: Option<Side>,
}

impl OrderStatusReq {
    pub fn new(cl_ord_id: Vec<u8>, side: Option<Side>) -> (r: OrderStatusReq)
        ensures
            r.cl_ord_id == cl_ord_id,
            r.side == side,
    {
        OrderStatusReq { cl_ord_id, side }
    }
}

impl RequestMessage for OrderStatusReq {
    open spec fn message_type(&self) -> Seq<u8> {
        ascii("H")
    }

    open spec fn body_fields(&self, config: &Config, now: Timestamp) -> Seq<(u32, Seq<u8>)> {
        seq![(Field::ClOrdId.tag_spec(), self.cl_ord_id@)] + optional(
            Field::Side,
            match self.side {
                Some(s) => Some(decimal(s.code_spec() as nat)),
                None => None,
            },
        )
    }

    fn get_message_type(&self) -> (r: Vec<u8>) {
        proof {
            reveal_strlit("H");
        }
        lit("H")
    }

    fn get_body(&self, delimiter: u8, config: &Config, now: &Timestamp) -> (r: Option<Vec<u8>>) {
        let mut fields: Vec<(u32, Vec<u8>)> = Vec::new();
        assert(fields_view(fields@) =~= Seq::empty());
        push_field(&mut fields, Field::ClOrdId, copy_bytes(self.cl_ord_id.as_slice()));
        match self.side {
            Some(s) => {
                push_field(&mut fields, Field::Side, u32_to_text(s.code()));
            },
            None => {},
        }
        assert(fields_view(fields@) =~= self.body_fields(config, *now));
        finish_body(&fields, delimiter)
    }
}

/// The body of an order mass status request.
pub open spec fn mass_status_fields(
    mass_status_req_id: Seq<u8>,
    mass_status_req_type: u32,
    issue_date: Option<Seq<u8>>,
) -> Seq<(u32, Seq<u8>)> {
    seq![
        (Field::MassStatusReqID.tag_spec(), mass_status_req_id),
        (Field::MassStatusReqType.tag_spec(), decimal(mass_status_req_type as nat)),
    ] + optional(Field::IssueDate, issue_date)
}

/// Order mass status request.
#[derive(Debug)]
pub struct OrderMassStatusReq {
    pub mass_status_req_id: Vec<u8>,
    pub mass_status_req_type: u32,
    pub issue_date: Option<Timestamp>,
}

impl OrderMassStatusReq {
    pub fn new(
        mass_status_req_id: Vec<u8>,
        mass_status_req_type: u32,
        issue_date: Option<Timestamp>,
    ) -> (r: OrderMassStatusReq)
        ensures
            r.mass_status_req_id == mass_status_req_id,
            r.mass_status_req_type == mass_status_req_type,
            r.issue_date == issue_date,
    {
        OrderMassStatusReq { mass_status_req_id, mass_status_req_type, issue_date }
    }
}

impl RequestMessage for OrderMassStatusReq {
    open spec fn message_type(&self) -> Seq<u8> {
        ascii("AF")
    }

    open spec fn body_fields(&self, config: &Config, now: Timestamp) -> Seq<(u32, Seq<u8>)> {
        mass_status_fields(
            self.mass_status_req_id@,
            self.mass_status_req_type,
            time_text(self.issue_date),
        )
    }

    fn get_message_type(&self) -> (r: Vec<u8>) {
        proof {
            reveal_strlit("AF");
        }
        lit("AF")
    }

    fn get_body(&self, delimiter: u8, config: &Config, now: &Timestamp) -> (r: Option<Vec<u8>>) {
        let mut fields: Vec<(u32, Vec<u8>)> = Vec::new();
        assert(fields_view(fields@) =~= Seq::empty());
        push_field(
            &mut fields,
            Field::MassStatusReqID,
            copy_bytes(self.mass_status_req_id.as_slice()),
        );
        push_field(&mut fields, Field::MassStatusReqType, u32_to_text(self.mass_status_req_type));
        push_time(&mut fields, Field::IssueDate, &self.issue_date);
        assert(fields_view(fields@) =~= self.body_fields(config, *now));
        finish_body(&fields, delimiter)
    }
}

/// The body of a request for positions.
pub open spec fn positions_fields(pos_req_id: Seq<u8>, pos_maint_rpt_id: Option<Seq<u8>>) -> Seq<
    (u32, Seq<u8>),
> {
    seq![(Field::PosReqID.tag_spec(), pos_req_id)] + optional(
        Field::PosMaintRptID,
        pos_maint_rpt_id,
    )
}

/// Request for positions.
#[derive(Debug, Default)]
pub struct PositionsReq {
    pub pos_req_id: Vec<u8>,
    pub pos_maint_rpt_id: Option<Vec<u8>>,
}

impl PositionsReq {
    pub fn new(pos_req_id: Vec<u8>, pos_maint_rpt_id: Option<Vec<u8>>) -> (r: PositionsReq)
        ensures
            r.pos_req_id == pos_req_id,
            r.pos_maint_rpt_id == pos_maint_rpt_id,
    {
        PositionsReq { pos_req_id, pos_maint_rpt_id }
    }
}

impl RequestMessage for PositionsReq {
    open spec fn message_type(&self) -> Seq<u8> {
        ascii("AN")
    }

    open spec fn body_fields(&self, config: &Config, now: Timestamp) -> Seq<(u32, Seq<u8>)> {
        positions_fields(self.pos_req_id@, bytes_view(self.pos_maint_rpt_id))
    }

    fn get_message_type(&self) -> (r: Vec<u8>) {
        proof {
            reveal_strlit("AN");
        }
        lit("AN")
    }

    fn get_body(&self, delimiter: u8, config: &Config, now: &Timestamp) -> (r: Option<Vec<u8>>) {
        let mut fields: Vec<(u32, Vec<u8>)> = Vec::new();
        assert(fields_view(fields@) =~= Seq::empty());
        push_field(&mut fields, Field::PosReqID, copy_bytes(self.pos_req_id.as_slice()));
        push_optional(&mut fields, Field::PosMaintRptID, &self.pos_maint_rpt_id);
        assert(fields_view(fields@) =~= self.body_fields(config, *now));
        finish_body(&fields, delimiter)
    }
}

/// The body of an order cancel request.
pub open spec fn cancel_fields(
    orig_cl_ord_id: Seq<u8>,
    order_id: Option<Seq<u8>>,
    cl_ord_id: Seq<u8>,
) -> Seq<(u32, Seq<u8>)> {
    seq![
        (Field::OrigClOrdID.tag_spec(), orig_cl_ord_id),
        (Field::ClOrdId.tag_spec(), cl_ord_id),
    ] + optional(Field::OrderID, order_id)
}

/// Order cancel request.
#[derive(Debug, Default)]
pub struct OrderCancelReq {
    pub orig_cl_ord_id: Vec<u8>,
    pub order_id: Option<Vec<u8>>,
    pub cl_ord_id: Vec<u8>,
}

impl OrderCancelReq {
    pub fn new(orig_cl_ord_id: Vec<u8>, order_id: Option<Vec<u8>>, cl_ord_id: Vec<u8>) -> (r:
        OrderCancelReq)
        ensures
            r.orig_cl_ord_id == orig_cl_ord_id,
            r.order_id == order_id,
            r.cl_ord_id == cl_ord_id,
    {
        OrderCancelReq { orig_cl_ord_id, order_id, cl_ord_id }
    }
}

impl RequestMessage for OrderCancelReq {
    open spec fn message_type(&self) -> Seq<u8> {
        ascii("F")
    }

    open spec fn body_fields(&self, config: &Config, now: Timestamp) -> Seq<(u32, Seq<u8>)> {
        cancel_fields(self.orig_cl_ord_id@, bytes_view(self.order_id), self.cl_ord_id@)
    }

    fn get_message_type(&self) -> (r: Vec<u8>) {
        proof {
            reveal_strlit("F");
        }
        lit("F")
    }

    fn get_body(&self, delimiter: u8, config: &Config, now: &Timestamp) -> (r: Option<Vec<u8>>) {
        let mut fields: Vec<(u32, Vec<u8>)> = Vec::new();
        assert(fields_view(fields@) =~= Seq::empty());
        push_field(&mut fields, Field::OrigClOrdID, copy_bytes(self.orig_cl_ord_id.as_slice()));
        push_field(&mut fields, Field::ClOrdId, copy_bytes(self.cl_ord_id.as_slice()));
        push_optional(&mut fields, Field::OrderID, &self.order_id);
        assert(fields_view(fields@) =~= self.body_fields(config, *now));
        finish_body(&fields, delimiter)
    }
}

/// The body of an order cancel/replace request.
pub open spec fn replace_fields(
    orig_cl_ord_id: Seq<u8>,
    order_id: Option<Seq<u8>>,
    cl_ord_id: Seq<u8>,
    order_qty: Seq<u8>,
    price: Option<Seq<u8>>,
    stop_px: Option<Seq<u8>>,
    expire_time: Option<Seq<u8>>,
) -> Seq<(u32, Seq<u8>)> {
    seq![
        (Field::OrigClOrdID.tag_spec(), orig_cl_ord_id),
        (Field::ClOrdId.tag_spec(), cl_ord_id),
        (Field::OrderQty.tag_spec(), order_qty),
    ] + optional(Field::OrderID, order_id) + optional(Field::Price, price) + optional(
        Field::StopPx,
        stop_px,
    ) + optional(Field::ExpireTime, expire_time)
}

/// Order cancel/replace request.
#[derive(Debug)]
pub struct OrderCancelReplaceReq {
    pub orig_cl_ord_id: Vec<u8>,
    pub order_id: Option<Vec<u8>>,
    pub cl_ord_id: Vec<u8>,
    pub order_qty: Decimal,
    pub price: Option<Decimal>,
    pub stop_px: Option<Decimal>,
    pub expire_time: Option<Timestamp>,
}

impl OrderCancelReplaceReq {
    pub fn new(
        orig_cl_ord_id: Vec<u8>,
        order_id: Option<Vec<u8>>,
        cl_ord_id: Vec<u8>,
        order_qty: Decimal,
        price: Option<Decimal>,
        stop_px: Option<Decimal>,
        expire_time: Option<Timestamp>,
    ) -> (r: OrderCancelReplaceReq)
        ensures
            r.orig_cl_ord_id == orig_cl_ord_id,
            r.order_id == order_id,
            r.cl_ord_id == cl_ord_id,
            r.order_qty == order_qty,
            r.price == price,
            r.stop_px == stop_px,
            r.expire_time == expire_time,
    {
        OrderCancelReplaceReq {
            orig_cl_ord_id,
            order_id,
            cl_ord_id,
            order_qty,
            price,
            stop_px,
            expire_time,
        }
    }
}

impl RequestMessage for OrderCancelReplaceReq {
    open spec fn message_type(&self) -> Seq<u8> {
        ascii("G")
    }

    open spec fn body_fields(&self, config: &Config, now: Timestamp) -> Seq<(u32, Seq<u8>)> {
        replace_fields(
            self.orig_cl_ord_id@,
            bytes_view(self.order_id),
            self.cl_ord_id@,
            self.order_qty@,
            decimal_view(self.price),
            decimal_view(self.stop_px),
            time_text(self.expire_time),
        )
    }

    fn get_message_type(&self) -> (r: Vec<u8>) {
        proof {
            reveal_strlit("G");
        }
        lit("G")
    }

    fn get_body(&self, delimiter: u8, config: &Config, now: &Timestamp) -> (r: Option<Vec<u8>>) {
        let mut fields: Vec<(u32, Vec<u8>)> = Vec::new();
        assert(fields_view(fields@) =~= Seq::empty());
        push_field(&mut fields, Field::OrigClOrdID, copy_bytes(self.orig_cl_ord_id.as_slice()));
        push_field(&mut fields, Field::ClOrdId, copy_bytes(self.cl_ord_id.as_slice()));
        push_field(&mut fields, Field::OrderQty, copy_bytes(self.order_qty.as_bytes()));
        push_optional(&mut fields, Field::OrderID, &self.order_id);
        push_decimal(&mut fields, Field::Price, &self.price);
        push_decimal(&mut fields, Field::StopPx, &self.stop_px);
        push_time(&mut fields, Field::ExpireTime, &self.expire_time);
        assert(fields_view(fields@) =~= self.body_fields(config, *now));
        finish_body(&fields, delimiter)
    }
}

/// The body of a security list request.
pub open spec fn security_list_fields(
    security_req_id: Seq<u8>,
    security_list_req_type: u32,
    symbol: Option<Seq<u8>>,
) -> Seq<(u32, Seq<u8>)> {
    seq![
        (Field::SecurityReqID.tag_spec(), security_req_id),
        (Field::SecurityListRequestType.tag_spec(), decimal(security_list_req_type as nat)),
    ] + optional(Field::Symbol, symbol)
}

/// Security list request.
#[derive(Debug, Default)]
pub struct SecurityListReq {
    pub security_req_id: Vec<u8>,
    pub security_list_req_type: u32,
    pub symbol: Option<Vec<u8>>,
}

impl SecurityListReq {
    pub fn new(security_req_id: Vec<u8>, security_list_req_type: u32, symbol: Option<Vec<u8>>) -> (r:
        SecurityListReq)
        ensures
            r.security_req_id == security_req_id,
            r.security_list_req_type == security_list_req_type,
            r.symbol == symbol,
    {
        SecurityListReq { security_req_id, security_list_req_type, symbol }
    }
}

impl RequestMessage for SecurityListReq {
    open spec fn message_type(&self) -> Seq<u8> {
        ascii("x")
    }

    open spec fn body_fields(&self, config: &Config, now: Timestamp) -> Seq<(u32, Seq<u8>)> {
        security_list_fields(
            self.security_req_id@,
            self.security_list_req_type,
            bytes_view(self.symbol),
        )
    }

    fn get_message_type(&self) -> (r: Vec<u8>) {
        proof {
            reveal_strlit("x");
        }
        lit("x")
    }

    fn get_body(&self, delimiter: u8, config: &Config, now: &Timestamp) -> (r: Option<Vec<u8>>) {
        let mut fields: Vec<(u32, Vec<u8>)> = Vec::new();
        assert(fields_view(fields@) =~= Seq::empty());
        push_field(&mut fields, Field::SecurityReqID, copy_bytes(self.security_req_id.as_slice()));
        push_field(
            &mut fields,
            Field::SecurityListRequestType,
            u32_to_text(self.security_list_req_type),
        );
        push_optional(&mut fields, Field::Symbol, &self.symbol);
        assert(fields_view(fields@) =~= self.body_fields(config, *now));
        finish_body(&fields, delimiter)
    }
}

/// A request that survives the wire with delimiter `d`: `d` can delimit, and no value
/// of the header or the body holds it.
pub open spec fn representable<R: RequestMessage>(
    req: &R,
    sub_id: SubID,
    sequence_number: u32,
    d: u8,
    config: &Config,
    now: Timestamp,
) -> bool {
    &&& is_delimiter(d)
    &&& free_of(ascii("FIX.4.4"), d)
    &&& clean_fields(header_fields(req.message_type(), sub_id, sequence_number, config, now), d)
    &&& clean_fields(req.body_fields(config, now), d)
}

/// With SOH as the delimiter a request is representable as soon as SOH occurs in none
/// of the values that its caller chose.
pub proof fn lemma_representable_soh<R: RequestMessage>(
    req: &R,
    sub_id: SubID,
    sequence_number: u32,
    config: &Config,
    now: Timestamp,
)
    requires
        free_of(req.message_type(), 1),
        free_of(config.sender_comp_id@, 1),
        free_of(config.username@, 1),
        free_of(now.text(), 1),
        clean_fields(req.body_fields(config, now), 1),
    ensures
        representable(req, sub_id, sequence_number, 1, config, now),
{
    reveal_strlit("FIX.4.4");
    reveal_strlit("cServer");
    reveal_strlit("QUOTE");
    reveal_strlit("TRADE");
    lemma_decimal(sequence_number as nat);
    let hf = header_fields(req.message_type(), sub_id, sequence_number, config, now);
    assert forall|i: int| 0 <= i < hf.len() implies clean_field(#[trigger] hf[i], 1) by {}
}

/// The fields of a representable request are clean, the two that the codec computes
/// included.
pub proof fn lemma_message_fields_clean<R: RequestMessage>(
    req: &R,
    sub_id: SubID,
    sequence_number: u32,
    d: u8,
    config: &Config,
    now: Timestamp,
)
    requires
        representable(req, sub_id, sequence_number, d, config, now),
    ensures
        clean_fields(message_fields(req, sub_id, sequence_number, d, config, now), d),
{
    let hf = header_fields(req.message_type(), sub_id, sequence_number, config, now);
    let bf = req.body_fields(config, now);
    let middle = hf + bf;
    let fs = message_fields(req, sub_id, sequence_number, d, config, now);
    lemma_decimal(encode_fields(middle, d).len());
    assert forall|i: int| 0 <= i < fs.len() implies clean_field(#[trigger] fs[i], d) by {
        if i >= 2 && i < 2 + hf.len() {
            assert(fs[i] == hf[i - 2]);
        } else if i >= 2 + hf.len() && i < fs.len() - 1 {
            assert(fs[i] == bf[i - 2 - hf.len()]);
        }
    }
}

/// Decoding an encoded request gives back the fields that were encoded: those of the
/// request and its header as they were given, and beside them the `BodyLength`,
/// `CheckSum` and `SendingTime` that the encoder wrote.
pub proof fn lemma_round_trip<R: RequestMessage>(
    req: &R,
    sub_id: SubID,
    sequence_number: u32,
    d: u8,
    config: &Config,
    now: Timestamp,
)
    requires
        representable(req, sub_id, sequence_number, d, config, now),
    ensures
        decode(wire(req, sub_id, sequence_number, d, config, now), d) == message_fields(
            req,
            sub_id,
            sequence_number,
            d,
            config,
            now,
        ),
{
    lemma_message_fields_clean(req, sub_id, sequence_number, d, config, now);
    lemma_decode_encode(message_fields(req, sub_id, sequence_number, d, config, now), d);
}

/// An encoded request is made of three parts: `BeginString` and `BodyLength`; the
/// header and body fields; `CheckSum`. Decoding it yields a `BodyLength` that is the
/// number of bytes of the second part, and, as its last field, a `CheckSum` that is the
/// sum modulo 256 of the bytes of the first two parts.
pub proof fn lemma_length_and_checksum<R: RequestMessage>(
    req: &R,
    sub_id: SubID,
    sequence_number: u32,
    d: u8,
    config: &Config,
    now: Timestamp,
) -> (parts: (Seq<u8>, Seq<u8>, Seq<u8>))
    requires
        representable(req, sub_id, sequence_number, d, config, now),
    ensures
        wire(req, sub_id, sequence_number, d, config, now) == parts.0 + parts.1 + parts.2,
        parts.0 == encode_fields(
            seq![
                (Field::BeginString.tag_spec(), ascii("FIX.4.4")),
                (Field::BodyLength.tag_spec(), decimal(parts.1.len())),
            ],
            d,
        ),
        parts.1 == encode_fields(
            header_fields(req.message_type(), sub_id, sequence_number, config, now)
                + req.body_fields(config, now),
            d,
        ),
        parts.2 == encode_fields(
            seq![(Field::CheckSum.tag_spec(), three_digits(byte_sum(parts.0 + parts.1) % 256))],
            d,
        ),
        value_of(
            decode(wire(req, sub_id, sequence_number, d, config, now), d),
            Field::BodyLength.tag_spec(),
        ) == Some(decimal(parts.1.len())),
        decode(wire(req, sub_id, sequence_number, d, config, now), d).last() == (
            Field::CheckSum.tag_spec(),
            three_digits(byte_sum(parts.0 + parts.1) % 256),
        ),
{
    let hf = header_fields(req.message_type(), sub_id, sequence_number, config, now);
    let bf = req.body_fields(config, now);
    let middle = hf + bf;
    let head = seq![
        (Field::BeginString.tag_spec(), ascii("FIX.4.4")),
        (Field::BodyLength.tag_spec(), decimal(encode_fields(middle, d).len())),
    ];
    let sum = (Field::CheckSum.tag_spec(), checksum_of(encode_fields(head + middle, d)));
    let fs = message_fields(req, sub_id, sequence_number, d, config, now);
    lemma_round_trip(req, sub_id, sequence_number, d, config, now);
    lemma_encode_push(head + middle, sum, d);
    lemma_encode_concat(head, middle, d);
    lemma_encode_one(sum, d);
    assert(fs == (head + middle).push(sum));
    assert(fs[0] == head[0]);
    assert(fs[1] == head[1]);
    lemma_tag_index_unique(fs, Field::BodyLength.tag_spec(), 0, 1);
    let parts = (encode_fields(head, d), encode_fields(middle, d), encode_fields(seq![sum], d));
    assert(wire(req, sub_id, sequence_number, d, config, now) =~= parts.0 + parts.1 + parts.2);
    parts
}

/// The framer takes an encoded request for exactly one message, as long as the request
/// is representable and no field of its body has the tag of the checksum.
pub proof fn lemma_request_is_frame<R: RequestMessage>(
    req: &R,
    sub_id: SubID,
    sequence_number: u32,
    d: u8,
    config: &Config,
    now: Timestamp,
)
    requires
        representable(req, sub_id, sequence_number, d, config, now),
        forall|i: int|
            0 <= i < req.body_fields(config, now).len() ==> (#[trigger] req.body_fields(
                config,
                now,
            )[i]).0 != Field::CheckSum.tag_spec(),
    ensures
        is_frame(wire(req, sub_id, sequence_number, d, config, now), d),
{
    let hf = header_fields(req.message_type(), sub_id, sequence_number, config, now);
    let bf = req.body_fields(config, now);
    let middle = hf + bf;
    assert forall|i: int| 0 <= i < middle.len() implies clean_field(#[trigger] middle[i], d) && middle[i].0
        != 10 by {
        if i < hf.len() {
            assert(middle[i] == hf[i]);
            assert(clean_field(hf[i], d));
        } else {
            assert(middle[i] == bf[i - hf.len()]);
            assert(clean_field(bf[i - hf.len()], d));
        }
    }
    lemma_framed_is_frame(middle, d);
}

/// The sequence number that a request is built with is the one that its bytes carry
/// in `MsgSeqNum`.
pub proof fn lemma_sequence_number_on_wire<R: RequestMessage>(
    req: &R,
    sub_id: SubID,
    sequence_number: u32,
    d: u8,
    config: &Config,
    now: Timestamp,
)
    requires
        representable(req, sub_id, sequence_number, d, config, now),
    ensures
        value_of(
            decode(wire(req, sub_id, sequence_number, d, config, now), d),
            Field::MsgSeqNum.tag_spec(),
        ) == Some(decimal(sequence_number as nat)),
        parse_u32_spec(decimal(sequence_number as nat)) == Some(sequence_number),
{
    lemma_round_trip(req, sub_id, sequence_number, d, config, now);
    lemma_parse_decimal(sequence_number as u64);
    let fs = message_fields(req, sub_id, sequence_number, d, config, now);
    let hf = header_fields(req.message_type(), sub_id, sequence_number, config, now);
    assert forall|j: int| 0 <= j < 7 implies (#[trigger] fs[j]).0 != Field::MsgSeqNum.tag_spec() by {
        if j >= 2 {
            assert(fs[j] == hf[j - 2]);
        }
    }
    assert(fs[7] == hf[5]);
    lemma_tag_index_unique(fs, Field::MsgSeqNum.tag_spec(), 0, 7);
}

} // verus!
