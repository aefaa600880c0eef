//! Inbound messages: the decoded record, lookup by tag, and repeating groups.

use vstd::prelude::*;
use vstd::slice::slice_subrange;
use std::collections::HashMap;
use crate::codec::{
    decode, decode_from, has_tag, lemma_tag_index, lemma_tag_index_push, tag_index, token_field,
    value_of,
};
use crate::field::Field;
use crate::text::{
    bytes_eq, copy_bytes, copy_range, find_byte, lemma_next_index, parse_u32, parse_u64,
    parse_u64_spec, EQUALS,
};
use crate::types::bytes_view;

pub use crate::requests::{
    format_field, HeartbeatReq, LogonReq, LogoutReq, MarketDataReq, NewOrderSingleReq,
    OrderCancelReplaceReq, OrderCancelReq, OrderMassStatusReq, OrderStatusReq, PositionsReq,
    RequestMessage, ResendReq, SecurityListReq, SequenceReset, TestReq,
};

verus! {

/// The fields of a vector of decoded fields, as the contracts speak of them.
pub open spec fn fields_view(v: Seq<(u32, Vec<u8>)>) -> Seq<(u32, Seq<u8>)> {
    Seq::new(v.len(), |i: int| (v[i].0, v[i].1@))
}

/// The entries of a map from tags to values, as the contracts speak of them.
pub open spec fn entries_view(m: Map<u32, Vec<u8>>) -> Map<u32, Seq<u8>> {
    m.map_values(|v: Vec<u8>| v@)
}

/// One repetition of a repeating group: the value of each tag that occurred in it,
/// the last one where a tag occurred twice.
#[derive(Debug)]
pub struct Group {
    entries: HashMap<u32, Vec<u8>>,
}

impl View for Group {
    type V = Map<u32, Seq<u8>>;

    closed spec fn view(&self) -> Map<u32, Seq<u8>> {
        entries_view(self.entries@)
    }
}

impl Group {
    /// The value of `field` in this repetition.
    pub fn get(&self, field: Field) -> (r: Option<Vec<u8>>)
        ensures
            bytes_view(r) == if self@.contains_key(field.tag()) {
                Some(self@[field.tag()])
            } else {
                None
            },
    {
        broadcast use vstd::std_specs::hash::group_hash_axioms;

        let tag = field.tag();
        match self.entries.get(&tag) {
            Some(v) => Some(copy_bytes(v.as_slice())),
            None => None,
        }
    }

    pub fn contains_key(&self, field: Field) -> (r: bool)
        ensures
            r == self@.contains_key(field.tag()),
    {
        broadcast use vstd::std_specs::hash::group_hash_axioms;

        let tag = field.tag();
        self.entries.contains_key(&tag)
    }

    /// The number of distinct tags in this repetition.
    pub fn len(&self) -> (r: usize)
        ensures
            r == self@.len(),
            self@.dom().finite(),
    {
        broadcast use vstd::std_specs::hash::group_hash_axioms;

        assert(self@.dom() =~= self.entries@.dom());
        self.entries.len()
    }

    pub fn is_empty(&self) -> (r: bool)
        ensures
            r == self@.is_empty(),
    {
        assert(self@.dom() =~= self.entries@.dom());
        self.entries.is_empty()
    }
}

/// The views of a vector of repetitions.
pub open spec fn groups_view(v: Seq<Group>) -> Seq<Map<u32, Seq<u8>>> {
    Seq::new(v.len(), |i: int| v[i]@)
}

/// The repetitions that the fields from position `i` on form. `remaining` repetitions
/// are still to be closed and `item` is the open one. With an end tag, a repetition
/// closes on the field that carries it; without one, it closes when the start tag comes
/// again. Collecting stops once `remaining` repetitions are closed; where the fields
/// end first, the open repetition is the last one.
pub open spec fn collect_groups(
    fs: Seq<(u32, Seq<u8>)>,
    i: int,
    remaining: nat,
    item: Map<u32, Seq<u8>>,
    start: u32,
    end: Option<u32>,
) -> Seq<Map<u32, Seq<u8>>>
    decreases fs.len() - i,
{
    if remaining == 0 {
        Seq::empty()
    } else if i < 0 || i >= fs.len() {
        seq![item]
    } else {
        let k = fs[i].0;
        let v = fs[i].1;
        match end {
            Some(e) => if k == e {
                seq![item.insert(k, v)] + collect_groups(
                    fs,
                    i + 1,
                    (remaining - 1) as nat,
                    Map::empty(),
                    start,
                    end,
                )
            } else {
                collect_groups(fs, i + 1, remaining, item.insert(k, v), start, end)
            },
            None => if k == start && !item.is_empty() {
                seq![item] + collect_groups(
                    fs,
                    i + 1,
                    (remaining - 1) as nat,
                    Map::<u32, Seq<u8>>::empty().insert(k, v),
                    start,
                    end,
                )
            } else {
                collect_groups(fs, i + 1, remaining, item.insert(k, v), start, end)
            },
        }
    }
}

/// The repeating group that the first field with tag `count` introduces: its value is
/// the number of repetitions, and the repetitions follow it. Empty where no such field
/// exists or its value is no number.
pub open spec fn repeating_groups(
    fs: Seq<(u32, Seq<u8>)>,
    count: u32,
    start: u32,
    end: Option<u32>,
) -> Seq<Map<u32, Seq<u8>>> {
    match value_of(fs, count) {
        Some(text) => match parse_u64_spec(text) {
            Some(n) => collect_groups(
                fs,
                tag_index(fs, count, 0) + 1,
                n as nat,
                Map::empty(),
                start,
                end,
            ),
            None => Seq::empty(),
        },
        None => Seq::empty(),
    }
}

/// The tag of an optional field.
pub open spec fn tag_view(f: Option<Field>) -> Option<u32> {
    match f {
        Some(x) => Some(x.tag_spec()),
        None => None,
    }
}

/// A decoded inbound message: the raw bytes, the fields in wire order with duplicates
/// kept, and an index from each tag to its first field.
#[derive(Debug)]
pub struct ResponseMessage {
    message: Vec<u8>,
    field_idx: HashMap<u32, usize>,
    fields: Vec<(u32, Vec<u8>)>,
}

/// True when `idx` maps exactly the tags of `fs`, each to its first position.
pub open spec fn indexes(idx: Map<u32, usize>, fs: Seq<(u32, Seq<u8>)>) -> bool {
    forall|tag: u32|
        #![trigger idx.contains_key(tag)]
        #![trigger tag_index(fs, tag, 0)]
        {
            &&& idx.contains_key(tag) == has_tag(fs, tag)
            &&& idx.contains_key(tag) ==> idx[tag] == tag_index(fs, tag, 0)
        }
}

/// Reads one token as a field.
fn parse_token(tok: &[u8]) -> (r: Option<(u32, Vec<u8>)>)
    ensures
        match r {
            Some(f) => token_field(tok@) == Some((f.0, f.1@)),
            None => token_field(tok@) is None,
        },
{
    let e = find_byte(tok, 0, EQUALS);
    if e < tok.len() {
        let head = slice_subrange(tok, 0, e);
        match parse_u32(head) {
            Some(tag) => Some((tag, copy_range(tok, e + 1, tok.len()))),
            None => None,
        }
    } else {
        None
    }
}

impl ResponseMessage {
    #[verifier::type_invariant]
    spec fn well_formed(self) -> bool {
        indexes(self.field_idx@, fields_view(self.fields@))
    }

    /// The bytes that the message was decoded from.
    pub closed spec fn raw(&self) -> Seq<u8> {
        self.message@
    }

    /// The fields of the message in wire order.
    pub closed spec fn fields(&self) -> Seq<(u32, Seq<u8>)> {
        fields_view(self.fields@)
    }

    /// The value of the first field with the tag of `field`.
    pub open spec fn value(&self, field: Field) -> Option<Seq<u8>> {
        value_of(self.fields(), field.tag_spec())
    }

    /// The value of `MsgType`.
    pub open spec fn message_type(&self) -> Option<Seq<u8>> {
        self.value(Field::MsgType)
    }

    /// Decodes a message: the bytes are split at `delimiter`, and each token with a tag
    /// number before its first `=` becomes a field.
    pub fn new(message: &[u8], delimiter: u8) -> (r: ResponseMessage)
        ensures
            r.raw() == message@,
            r.fields() == decode(message@, delimiter),
    {
        broadcast use vstd::std_specs::hash::group_hash_axioms;

        let mut fields: Vec<(u32, Vec<u8>)> = Vec::new();
        let mut idx: HashMap<u32, usize> = HashMap::new();
        let n = message.len();
        let mut pos: usize = 0;
        assert(fields_view(fields@) =~= Seq::empty());
        while pos < n
            invariant
                pos <= n == message@.len(),
                fields_view(fields@) + decode_from(message@, delimiter, pos as int) == decode(
                    message@,
                    delimiter,
                ),
                indexes(idx@, fields_view(fields@)),
            decreases n - pos,
        {
            let e = find_byte(message, pos, delimiter);
            let tok = slice_subrange(message, pos, e);
            let ghost before = fields_view(fields@);
            let ghost next = if e < n {
                e + 1
            } else {
                n as int
            };
            proof {
                lemma_next_index(message@, pos as int, delimiter);
                assert(decode_from(message@, delimiter, e + 1) == decode_from(
                    message@,
                    delimiter,
                    next,
                ));
            }
            match parse_token(tok) {
                Some((tag, value)) => {
                    let ghost f = (tag, value@);
                    proof {
                        lemma_tag_index_push(before, f, tag);
                        assert forall|t: u32|
                            #![trigger tag_index(before.push(f), t, 0)]
                            has_tag(before.push(f), t) == (has_tag(before, t) || t == tag) && (
                            has_tag(before, t) ==> tag_index(before.push(f), t, 0) == tag_index(
                                before,
                                t,
                                0,
                            )) by {
                            lemma_tag_index_push(before, f, t);
                            lemma_tag_index(before.push(f), t, 0);
                        }
                    }
                    if !idx.contains_key(&tag) {
                        idx.insert(tag, fields.len());
                    }
                    fields.push((tag, value));
                    proof {
                        assert(fields_view(fields@) =~= before.push(f));
                        assert(before.push(f) + decode_from(message@, delimiter, next) =~= before
                            + (seq![f] + decode_from(message@, delimiter, next)));
                    }
                },
                None => {},
            }
            pos = if e < n {
                e + 1
            } else {
                n
            };
        }
        assert(fields_view(fields@) + Seq::<(u32, Seq<u8>)>::empty() =~= fields_view(fields@));
        ResponseMessage { message: copy_bytes(message), field_idx: idx, fields }
    }

    /// The value of the first field with the tag of `field`.
    pub fn get_field_value(&self, field: Field) -> (r: Option<Vec<u8>>)
        ensures
            bytes_view(r) == self.value(field),
    {
        broadcast use vstd::std_specs::hash::group_hash_axioms;

        proof {
            use_type_invariant(self);
        }
        let tag = field.tag();
        match self.field_idx.get(&tag) {
            Some(i) => {
                proof {
                    lemma_tag_index(self.fields(), tag, 0);
                }
                Some(copy_bytes(self.fields[*i].1.as_slice()))
            },
            None => None,
        }
    }

    /// The value of `MsgType`, if the message has that field.
    pub fn get_message_type(&self) -> (r: Option<Vec<u8>>)
        ensures
            bytes_view(r) == self.message_type(),
    {
        self.get_field_value(Field::MsgType)
    }

    /// The bytes that the message was decoded from.
    pub fn get_message(&self) -> (r: &[u8])
        ensures
            r@ == self.raw(),
    {
        self.message.as_slice()
    }

    /// True when the message has type `msg_type` and its first field with the tag of
    /// `field` has the value `value`.
    pub fn matching_field_value(&self, msg_type: &[u8], field: Field, value: &[u8]) -> (r: bool)
        ensures
            r == (self.message_type() == Some(msg_type@) && self.value(field) == Some(value@)),
    {
        match self.get_message_type() {
            Some(t) => {
                if !bytes_eq(t.as_slice(), msg_type) {
                    return false;
                }
            },
            None => {
                return false;
            },
        }
        match self.get_field_value(field) {
            Some(v) => bytes_eq(v.as_slice(), value),
            None => false,
        }
    }

    /// A copy of the message.
    pub fn duplicate(&self) -> (r: ResponseMessage)
        ensures
            r.raw() == self.raw(),
            r.fields() == self.fields(),
    {
        broadcast use vstd::std_specs::hash::group_hash_axioms;

        proof {
            use_type_invariant(self);
        }
        let mut fields: Vec<(u32, Vec<u8>)> = Vec::new();
        let mut i: usize = 0;
        while i < self.fields.len()
            invariant
                i <= self.fields@.len(),
                fields_view(fields@) == fields_view(self.fields@).subrange(0, i as int),
            decreases self.fields@.len() - i,
        {
            let ghost before = fields_view(fields@);
            let tag = self.fields[i].0;
            let value = copy_bytes(self.fields[i].1.as_slice());
            let ghost f = (tag, value@);
            fields.push((tag, value));
            assert(fields_view(fields@) =~= before.push(f));
            assert(fields_view(self.fields@)[i as int] == f);
            i = i + 1;
            assert(before.push(f) =~= fields_view(self.fields@).subrange(0, i as int));
        }
        assert(fields_view(fields@) =~= fields_view(self.fields@));
        ResponseMessage {
            message: copy_bytes(self.message.as_slice()),
            field_idx: self.field_idx.clone(),
            fields,
        }
    }

    /// The repetitions of the repeating group that `count_key` introduces.
    pub fn get_repeating_groups(
        &self,
        count_key: Field,
        start_field: Field,
        end_field: Option<Field>,
    ) -> (r: Vec<Group>)
        ensures
            groups_view(r@) == repeating_groups(
                self.fields(),
                count_key.tag_spec(),
                start_field.tag_spec(),
                tag_view(end_field),
            ),
    {
        broadcast use vstd::std_specs::hash::group_hash_axioms;

        proof {
            use_type_invariant(self);
        }
        let ghost fs = self.fields();
        let count_tag = count_key.tag();
        let start_tag = start_field.tag();
        let end_tag: Option<u32> = match end_field {
            Some(f) => Some(f.tag()),
            None => None,
        };
        let mut result: Vec<Group> = Vec::new();
        assert(groups_view(result@) =~= Seq::empty());
        let at: usize = match self.field_idx.get(&count_tag) {
            Some(i) => *i,
            None => {
                return result;
            },
        };
        proof {
            lemma_tag_index(fs, count_tag, 0);
        }
        let mut remaining: u64 = match parse_u64(self.fields[at].1.as_slice()) {
            Some(n) => n,
            None => {
                return result;
            },
        };
        let mut item: HashMap<u32, Vec<u8>> = HashMap::new();
        let n = self.fields.len();
        let mut i: usize = at + 1;
        assert(entries_view(item@) =~= Map::empty());
        while i < n && remaining > 0
            invariant
                i <= n == self.fields@.len(),
                fs == fields_view(self.fields@),
                groups_view(result@) + collect_groups(
                    fs,
                    i as int,
                    remaining as nat,
                    entries_view(item@),
                    start_tag,
                    end_tag,
                ) == repeating_groups(fs, count_tag, start_tag, end_tag),
            decreases n - i,
        {
            let k = self.fields[i].0;
            let v = copy_bytes(self.fields[i].1.as_slice());
            let ghost before = groups_view(result@);
            let ghost open = entries_view(item@);
            let ghost tail = collect_groups(
                fs,
                i as int,
                remaining as nat,
                open,
                start_tag,
                end_tag,
            );
            assert(fs[i as int] == (k, v@));
            assert(open.dom() =~= item@.dom());
            match end_tag {
                Some(e) => {
                    item.insert(k, v);
                    assert(entries_view(item@) =~= open.insert(k, v@));
                    if k == e {
                        result.push(Group { entries: item });
                        item = HashMap::new();
                        remaining = remaining - 1;
                        assert(entries_view(item@) =~= Map::empty());
                        assert(groups_view(result@) =~= before.push(open.insert(k, v@)));
                    }
                },
                None => {
                    if k == start_tag && !item.is_empty() {
                        result.push(Group { entries: item });
                        item = HashMap::new();
                        remaining = remaining - 1;
                        assert(groups_view(result@) =~= before.push(open));
                        item.insert(k, v);
                        assert(entries_view(item@) =~= Map::<u32, Seq<u8>>::empty().insert(
                            k,
                            v@,
                        ));
                    } else {
                        item.insert(k, v);
                        assert(entries_view(item@) =~= open.insert(k, v@));
                    }
                },
            }
            i = i + 1;
            assert(groups_view(result@) + collect_groups(
                fs,
                i as int,
                remaining as nat,
                entries_view(item@),
                start_tag,
                end_tag,
            ) =~= before + tail);
        }
        if remaining > 0 {
            let ghost before = groups_view(result@);
            let ghost open = entries_view(item@);
            result.push(Group { entries: item });
            assert(groups_view(result@) =~= before + seq![open]);
        } else {
            assert(groups_view(result@) + Seq::<Map<u32, Seq<u8>>>::empty() =~= groups_view(
                result@,
            ));
        }
        result
    }
}

} // verus!
