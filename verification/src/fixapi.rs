//! The session engine: one per connection. It owns the outbound sequence number and the
//! resend buffer, and decides what each inbound message leads to. Its driver performs
//! the I/O: it writes the bytes that the engine hands out and feeds back what arrives.

use vstd::prelude::*;
use vstd::string::*;
use std::collections::VecDeque;
use crate::field::Field;
use crate::messages::{fields_view, repeating_groups, ResponseMessage};
use crate::requests::{wire, wire_of, HeartbeatReq, LogonReq, LogoutReq, RequestMessage};
use crate::text::{ascii, copy_bytes, is_text, lit, parse_u32, parse_u32_spec};
use crate::time::Timestamp;
use crate::types::{
    Config, Error, ErrorView, InternalMDResult, MarketDataView, SubID, DELIMITER,
};

verus! {

/// How many outbound messages the resend buffer keeps.
pub const RESEND_CAPACITY: usize = 10;

/// Where a session stands.
#[derive(Debug, Clone, Copy, PartialEq, Eq, Structural)]
pub enum SessionState {
    Disconnected,
    Connecting,
    Connected,
    LoggedOn,
    LoggingOut,
}

/// What an inbound message asks the driver of a session to do.
#[derive(Debug)]
pub enum Dispatch {
    /// Nothing.
    Nothing,
    /// The peer accepted the logon: fire `on_logon` and send a heartbeat every
    /// `heartbeat_interval` seconds from now on.
    LoggedOn { heartbeat_interval: u32 },
    /// Write this message: the answer to a test request.
    Reply(Vec<u8>),
    /// Write these messages again, in this order.
    Resend(Vec<Vec<u8>>),
    /// The peer logged out: shut the stream down and fire `on_disconnect`.
    PeerLogout,
    /// Hand this to the market data sink.
    Market(InternalMDResult),
    /// Hand this to the trade data sink.
    Trade(ResponseMessage),
}

/// True when `no` lies in the range that a resend request names; an `end` of 0 leaves
/// the range open.
pub open spec fn in_range(no: u32, begin: u32, end: u32) -> bool {
    if end == 0 {
        no >= begin
    } else {
        begin <= no <= end
    }
}

/// The buffered messages whose sequence number lies in the range, in buffer order.
pub open spec fn resend_selection(buffer: Seq<(u32, Seq<u8>)>, begin: u32, end: u32) -> Seq<
    Seq<u8>,
>
    decreases buffer.len(),
{
    if buffer.len() == 0 {
        Seq::empty()
    } else {
        let earlier = resend_selection(buffer.drop_last(), begin, end);
        if in_range(buffer.last().0, begin, end) {
            earlier.push(buffer.last().1)
        } else {
            earlier
        }
    }
}

/// The test that a resend request puts to a buffered message.
pub open spec fn wanted(begin: u32, end: u32) -> spec_fn((u32, Seq<u8>)) -> bool {
    |e: (u32, Seq<u8>)| in_range(e.0, begin, end)
}

/// The bytes of a buffered message.
pub open spec fn bytes_of() -> spec_fn((u32, Seq<u8>)) -> Seq<u8> {
    |e: (u32, Seq<u8>)| e.1
}

/// A resend replays every buffered message whose sequence number lies in the range,
/// and no other, in the order of the buffer, which is the order of the sequence
/// numbers.
pub proof fn lemma_resend_selection(buffer: Seq<(u32, Seq<u8>)>, begin: u32, end: u32)
    ensures
        resend_selection(buffer, begin, end) == buffer.filter(wanted(begin, end)).map_values(
            bytes_of(),
        ),
    decreases buffer.len(),
{
    reveal(Seq::filter);
    if buffer.len() > 0 {
        lemma_resend_selection(buffer.drop_last(), begin, end);
        let earlier = buffer.drop_last().filter(wanted(begin, end));
        if in_range(buffer.last().0, begin, end) {
            assert(earlier.push(buffer.last()).map_values(bytes_of()) =~= earlier.map_values(
                bytes_of(),
            ).push(buffer.last().1));
        }
    } else {
        assert(buffer.filter(wanted(begin, end)).map_values(bytes_of()) =~= Seq::<
            Seq<u8>,
        >::empty());
    }
}

/// Sequence numbers ascend through the buffer and stay below the next one.
pub open spec fn ascending(buffer: Seq<(u32, Seq<u8>)>, next: u32) -> bool {
    &&& forall|i: int, j: int| 0 <= i < j < buffer.len() ==> (#[trigger] buffer[i]).0 < (#[trigger] buffer[j]).0
    &&& forall|i: int| 0 <= i < buffer.len() ==> (#[trigger] buffer[i]).0 < next
}

/// The last `n` entries of `s`.
pub open spec fn keep_last(s: Seq<(u32, Seq<u8>)>, n: int) -> Seq<(u32, Seq<u8>)> {
    if s.len() > n {
        s.subrange(s.len() - n, s.len() as int)
    } else {
        s
    }
}

/// The number that a sequence number field of a resend request names: 0 where the
/// field is missing or holds no number.
pub open spec fn sequence_field(res: &ResponseMessage, field: Field) -> u32 {
    match res.value(field) {
        Some(text) => match parse_u32_spec(text) {
            Some(n) => n,
            None => 0,
        },
        None => 0,
    }
}

/// The symbol that a market data message names: 0 where it names none, and nothing
/// where the field holds no number.
pub open spec fn symbol_field(res: &ResponseMessage) -> Option<u32> {
    match res.value(Field::Symbol) {
        Some(text) => parse_u32_spec(text),
        None => Some(0u32),
    }
}

/// The text of an optional field, empty where the field is missing.
pub open spec fn text_field(res: &ResponseMessage, field: Field) -> Seq<u8> {
    match res.value(field) {
        Some(text) => text,
        None => Seq::empty(),
    }
}

/// What the session hands to the market data sink for a message of type `W`, `X` or
/// `Y` that names the symbol `symbol_id`.
pub open spec fn market_data(res: &ResponseMessage, symbol_id: u32) -> MarketDataView {
    if res.message_type() == Some(ascii("Y")) {
        MarketDataView::MDReject {
            symbol_id,
            md_req_id: text_field(res, Field::MDReqID),
            err_msg: text_field(res, Field::Text),
        }
    } else if res.message_type() == Some(ascii("W")) {
        MarketDataView::MD {
            msg_type: 87,
            symbol_id,
            data: repeating_groups(
                res.fields(),
                Field::NoMDEntries.tag_spec(),
                Field::MDEntryType.tag_spec(),
                None,
            ),
        }
    } else {
        MarketDataView::MD {
            msg_type: 88,
            symbol_id,
            data: repeating_groups(
                res.fields(),
                Field::NoMDEntries.tag_spec(),
                Field::MDUpdateAction.tag_spec(),
                None,
            ),
        }
    }
}

/// True when the message is market data: a snapshot, an incremental refresh or a
/// reject.
pub open spec fn is_market_data(res: &ResponseMessage) -> bool {
    res.message_type() == Some(ascii("W")) || res.message_type() == Some(ascii("X"))
        || res.message_type() == Some(ascii("Y"))
}

/// The views of the messages of a resend.
pub open spec fn messages_view(v: Seq<Vec<u8>>) -> Seq<Seq<u8>> {
    Seq::new(v.len(), |i: int| v[i]@)
}

/// The error with which a session in `state` refuses what the application asks of it:
/// only a logged-on session takes requests.
pub open spec fn refusal(state: SessionState) -> Option<ErrorView> {
    match state {
        SessionState::LoggedOn => None,
        SessionState::Connected | SessionState::LoggingOut => Some(ErrorView::LoggedOut),
        _ => Some(ErrorView::NotConnected),
    }
}

/// What sending a message of type `message_type` with the body fields `body` does to
/// a session and returns: in a logged-on session with a sequence number to spare, the
/// bytes of the message under the next sequence number, which are also kept in the
/// resend buffer; otherwise an error and no change.
pub open spec fn sent(
    before: &FixApi,
    after: &FixApi,
    message_type: Seq<u8>,
    body: Seq<(u32, Seq<u8>)>,
    now: Timestamp,
    r: Result<Seq<u8>, ErrorView>,
) -> bool {
    &&& after.same_session(before)
    &&& after.state() == before.state()
    &&& match r {
        Ok(bytes) => {
            &&& before.state() == SessionState::LoggedOn
            &&& before.next_seq() < u32::MAX
            &&& bytes == wire_of(
                message_type,
                body,
                before.sub_id(),
                before.next_seq(),
                DELIMITER,
                &before.config(),
                now,
            )
            &&& after.next_seq() == before.next_seq() + 1
            &&& after.resend_buffer() == keep_last(
                before.resend_buffer().push((before.next_seq(), bytes)),
                RESEND_CAPACITY as int,
            )
        },
        Err(e) => {
            &&& after.next_seq() == before.next_seq()
            &&& after.resend_buffer() == before.resend_buffer()
            &&& match refusal(before.state()) {
                Some(error) => e == error,
                None => before.next_seq() == u32::MAX && e is RequestRejected,
            }
        },
    }
}

/// The view of the outcome of an operation that returns bytes to write.
pub open spec fn outcome_view(r: Result<Vec<u8>, Error>) -> Result<Seq<u8>, ErrorView> {
    match r {
        Ok(bytes) => Ok(bytes@),
        Err(e) => Err(e@),
    }
}

/// One FIX session.
#[derive(Debug)]
pub struct FixApi {
    config: Config,
    sub_id: SubID,
    seq: u32,
    state: SessionState,
    message_buffer: VecDeque<(u32, Vec<u8>)>,
}

impl FixApi {
    /// What every session keeps: sequence numbers start at 1, the resend buffer holds
    /// at most `RESEND_CAPACITY` messages, and their sequence numbers ascend and lie
    /// below the next one.
    pub closed spec fn wf(&self) -> bool {
        &&& self.seq >= 1
        &&& self.message_buffer@.len() <= RESEND_CAPACITY
        &&& ascending(fields_view(self.message_buffer@), self.seq)
    }

    /// In every session the sequence numbers start at 1, the resend buffer holds at most
    /// `RESEND_CAPACITY` messages, and the sequence numbers of the buffered messages
    /// ascend and lie below the next one.
    pub proof fn lemma_wf(&self)
        requires
            self.wf(),
        ensures
            self.next_seq() >= 1,
            self.resend_buffer().len() <= RESEND_CAPACITY,
            ascending(self.resend_buffer(), self.next_seq()),
    {
    }

    /// The configuration that the session was made from.
    pub closed spec fn config(&self) -> Config {
        self.config
    }

    /// The role of the session.
    pub closed spec fn sub_id(&self) -> SubID {
        self.sub_id
    }

    /// The sequence number that the next outbound message will carry.
    pub closed spec fn next_seq(&self) -> u32 {
        self.seq
    }

    pub closed spec fn state(&self) -> SessionState {
        self.state
    }

    /// The resend buffer: the last outbound messages with their sequence numbers,
    /// oldest first.
    pub closed spec fn resend_buffer(&self) -> Seq<(u32, Seq<u8>)> {
        fields_view(self.message_buffer@)
    }

    /// True from the moment the connection stands until it is given up.
    pub open spec fn connected(&self) -> bool {
        self.state() == SessionState::Connected || self.state() == SessionState::LoggedOn
            || self.state() == SessionState::LoggingOut
    }

    /// True when nothing but the state, the sequence number and the buffer may differ.
    pub open spec fn same_session(&self, other: &FixApi) -> bool {
        self.config() == other.config() && self.sub_id() == other.sub_id()
    }

    /// A session in the state `Disconnected`; the heartbeat interval is 30 seconds
    /// unless one is given.
    pub fn new(
        sub_id: SubID,
        host: Vec<u8>,
        login: Vec<u8>,
        password: Vec<u8>,
        sender_comp_id: Vec<u8>,
        heartbeat_interval: Option<u32>,
    ) -> (r: FixApi)
        ensures
            r.sub_id() == sub_id,
            r.config().host == host,
            r.config().username == login,
            r.config().password == password,
            r.config().sender_comp_id == sender_comp_id,
            r.config().heart_beat == match heartbeat_interval {
                Some(n) => n,
                None => 30u32,
            },
            r.next_seq() == 1,
            r.state() == SessionState::Disconnected,
            r.resend_buffer() == Seq::<(u32, Seq<u8>)>::empty(),
            r.wf(),
    {
        let heart_beat = match heartbeat_interval {
            Some(n) => n,
            None => 30,
        };
        let r = FixApi {
            config: Config::new(host, login, password, sender_comp_id, heart_beat),
            sub_id,
            seq: 1,
            state: SessionState::Disconnected,
            message_buffer: VecDeque::new(),
        };
        assert(fields_view(r.message_buffer@) =~= Seq::empty());
        r
    }

    #[verifier::when_used_as_spec(connected)]
    pub fn is_connected(&self) -> (r: bool)
        ensures
            r == self.connected(),
    {
        match self.state {
            SessionState::Connected | SessionState::LoggedOn | SessionState::LoggingOut => true,
            _ => false,
        }
    }

    /// The state of the session.
    pub fn get_state(&self) -> (r: SessionState)
        ensures
            r == self.state(),
    {
        self.state
    }

    /// The sequence number of the next outbound message.
    pub fn get_next_seq(&self) -> (r: u32)
        requires
            self.wf(),
        ensures
            r == self.next_seq(),
            r >= 1,
            ascending(self.resend_buffer(), r),
            self.resend_buffer().len() <= RESEND_CAPACITY,
    {
        self.seq
    }

    /// The configuration of the session.
    pub fn get_config(&self) -> (r: &Config)
        ensures
            *r == self.config(),
    {
        &self.config
    }

    /// Starts to connect: the session forgets what it had buffered and asks its driver
    /// to dial the port of its role. Only a disconnected session can connect.
    pub fn connect(&mut self) -> (r: Result<u16, Error>)
        requires
            old(self).wf(),
        ensures
            final(self).wf(),
            dialing(old(self), final(self), r),
    {
        match self.state {
            SessionState::Disconnected => {
                self.message_buffer.clear();
                self.state = SessionState::Connecting;
                assert(fields_view(self.message_buffer@) =~= Seq::empty());
                Ok(self.sub_id.port())
            },
            _ => Err(Error::NotConnected),
        }
    }

    /// The dial ended. On success the session is `Connected` and the driver fires
    /// `on_connect` (the result is true); on failure it is `Disconnected` again.
    /// A session that was not connecting stays as it is.
    pub fn on_connected(&mut self, success: bool) -> (r: bool)
        requires
            old(self).wf(),
        ensures
            final(self).wf(),
            dialed(old(self), final(self), success, r),
    {
        match self.state {
            SessionState::Connecting => {
                if success {
                    self.state = SessionState::Connected;
                    true
                } else {
                    self.state = SessionState::Disconnected;
                    false
                }
            },
            _ => false,
        }
    }

    /// Takes the next sequence number for `req`, encodes it and keeps the bytes for a
    /// resend.
    fn emit<R: RequestMessage>(&mut self, req: &R, now: &Timestamp) -> (r: Vec<u8>)
        requires
            old(self).wf(),
            old(self).next_seq() < u32::MAX,
        ensures
            final(self).wf(),
            final(self).same_session(old(self)),
            final(self).state() == old(self).state(),
            final(self).next_seq() == old(self).next_seq() + 1,
            r@ == wire(
                req,
                old(self).sub_id(),
                old(self).next_seq(),
                DELIMITER,
                &old(self).config(),
                *now,
            ),
            final(self).resend_buffer() == keep_last(
                old(self).resend_buffer().push((old(self).next_seq(), r@)),
                RESEND_CAPACITY as int,
            ),
    {
        let no = self.seq;
        let bytes = req.build(self.sub_id, no, DELIMITER, &self.config, now);
        let kept = copy_bytes(bytes.as_slice());
        let ghost before = fields_view(self.message_buffer@);
        self.message_buffer.push_back((no, kept));
        let ghost pushed = before.push((no, bytes@));
        assert(fields_view(self.message_buffer@) =~= pushed);
        if self.message_buffer.len() > RESEND_CAPACITY {
            self.message_buffer.pop_front();
            assert(fields_view(self.message_buffer@) =~= pushed.subrange(1, pushed.len() as int));
        }
        self.seq = no + 1;
        bytes
    }

    /// Sends `req`: it gets the next sequence number, and the bytes to write are
    /// returned and kept in the resend buffer, whose oldest entry leaves when the
    /// buffer is full. Refused unless the session is logged on, and when the sequence
    /// numbers are used up.
    pub fn send_message<R: RequestMessage>(&mut self, req: &R, now: &Timestamp) -> (r: Result<
        Vec<u8>,
        Error,
    >)
        requires
            old(self).wf(),
        ensures
            final(self).wf(),
            ascending(final(self).resend_buffer(), final(self).next_seq()),
            final(self).resend_buffer().len() <= RESEND_CAPACITY,
            sent(
                old(self),
                final(self),
                req.message_type(),
                req.body_fields(&old(self).config(), *now),
                *now,
                outcome_view(r),
            ),
    {
        match self.state {
            SessionState::LoggedOn => {},
            SessionState::Connected | SessionState::LoggingOut => {
                return Err(Error::LoggedOut);
            },
            _ => {
                return Err(Error::NotConnected);
            },
        }
        if self.seq == u32::MAX {
            proof {
                reveal_strlit("sequence numbers exhausted");
            }
            return Err(Error::RequestRejected(lit("sequence numbers exhausted")));
        }
        let bytes = self.emit(req, now);
        Ok(bytes)
    }

    /// Logs on: the sequence number starts again at 1, the resend buffer is emptied,
    /// and the logon message, which asks the peer to reset its numbers too, is
    /// returned for writing. Only a session in the state `Connected` can log on.
    pub fn logon(&mut self, now: &Timestamp) -> (r: Result<Vec<u8>, Error>)
        requires
            old(self).wf(),
        ensures
            final(self).wf(),
            logging_on(old(self), final(self), *now, r),
    {
        match self.state {
            SessionState::Connected => {
                self.seq = 1;
                self.message_buffer.clear();
                assert(fields_view(self.message_buffer@) =~= Seq::empty());
                let req = LogonReq::new(Some(true));
                let bytes = self.emit(&req, now);
                assert(Seq::<(u32, Seq<u8>)>::empty().push((1u32, bytes@)) =~= seq![(1u32, bytes@)]);
                Ok(bytes)
            },
            _ => Err(Error::NotConnected),
        }
    }

    /// Logs out: the logout message is returned for writing and the session waits in
    /// `LoggingOut` for the peer's logout. Only a logged-on session can log out.
    pub fn logout(&mut self, now: &Timestamp) -> (r: Result<Vec<u8>, Error>)
        requires
            old(self).wf(),
        ensures
            final(self).wf(),
            logging_out(old(self), final(self), *now, r),
    {
        let req = LogoutReq;
        match self.send_message(&req, now) {
            Ok(bytes) => {
                self.state = SessionState::LoggingOut;
                Ok(bytes)
            },
            Err(e) => Err(e),
        }
    }

    /// The heartbeat timer fired: while the session is logged on, a heartbeat is
    /// returned for writing. In any other state, and when the sequence numbers are
    /// used up, the timer has nothing more to send and ends.
    pub fn heartbeat(&mut self, now: &Timestamp) -> (r: Option<Vec<u8>>)
        requires
            old(self).wf(),
        ensures
            final(self).wf(),
            beating(old(self), final(self), *now, r),
    {
        match self.state {
            SessionState::LoggedOn => {
                if self.seq == u32::MAX {
                    return None;
                }
                let req = HeartbeatReq::new(None);
                Some(self.emit(&req, now))
            },
            _ => None,
        }
    }

    /// Gives the connection up: writing failed, the stream ended, or the caller
    /// disconnects. The buffer is emptied and the session is `Disconnected`. The result
    /// is true when the session was not disconnected before: the driver then shuts the
    /// stream down and fires `on_disconnect`, once.
    pub fn disconnect(&mut self) -> (r: bool)
        requires
            old(self).wf(),
        ensures
            final(self).wf(),
            given_up(old(self), final(self), r),
    {
        let was = self.state;
        self.state = SessionState::Disconnected;
        self.message_buffer.clear();
        assert(fields_view(self.message_buffer@) =~= Seq::empty());
        match was {
            SessionState::Disconnected => false,
            _ => true,
        }
    }

    /// The buffered messages that a resend request for `begin` to `end` asks for.
    fn select_resend(&self, begin: u32, end: u32) -> (r: Vec<Vec<u8>>)
        ensures
            messages_view(r@) == resend_selection(self.resend_buffer(), begin, end),
    {
        let ghost buffer = self.resend_buffer();
        let mut out: Vec<Vec<u8>> = Vec::new();
        let mut i: usize = 0;
        assert(messages_view(out@) =~= Seq::empty());
        assert(buffer.subrange(0, 0) =~= Seq::empty());
        while i < self.message_buffer.len()
            invariant
                i <= self.message_buffer@.len(),
                buffer == fields_view(self.message_buffer@),
                messages_view(out@) == resend_selection(buffer.subrange(0, i as int), begin, end),
            decreases self.message_buffer@.len() - i,
        {
            let ghost before = messages_view(out@);
            let no = self.message_buffer[i].0;
            assert(buffer.subrange(0, i + 1).drop_last() =~= buffer.subrange(0, i as int));
            assert(buffer.subrange(0, i + 1).last() == buffer[i as int]);
            let wanted = if end == 0 {
                no >= begin
            } else {
                no >= begin && no <= end
            };
            if wanted {
                let bytes = copy_bytes(self.message_buffer[i].1.as_slice());
                out.push(bytes);
                assert(messages_view(out@) =~= before.push(buffer[i as int].1));
            }
            i = i + 1;
        }
        assert(buffer.subrange(0, i as int) =~= buffer);
        out
    }

    /// Decides what an inbound message leads to.
    ///
    /// Before the logon is answered only two messages count: the peer's logon, which
    /// makes the session `LoggedOn`, and the peer's logout, which ends it with
    /// `LoggedOut`. A logged-on session ignores heartbeats, answers a test request
    /// with a heartbeat that echoes its identifier, serves a resend request from the
    /// buffer, ends on the peer's logout, and routes the rest: market data to the
    /// market data sink, everything else to the trade data sink. A session that is
    /// logging out waits for the peer's logout alone, and a session without a
    /// connection ignores what it is given.
    pub fn on_message(&mut self, res: &ResponseMessage, now: &Timestamp) -> (r: Result<
        Dispatch,
        Error,
    >)
        requires
            old(self).wf(),
        ensures
            final(self).wf(),
            ascending(final(self).resend_buffer(), final(self).next_seq()),
            dispatched(old(self), final(self), res, *now, r),
    {
        proof {
            reveal_strlit("A");
            reveal_strlit("5");
            reveal_strlit("0");
            reveal_strlit("1");
            reveal_strlit("2");
            reveal_strlit("W");
            reveal_strlit("X");
            reveal_strlit("Y");
            assert(ascii("A")[0] == 65u8 && ascii("5")[0] == 53u8 && ascii("0")[0] == 48u8);
            assert(ascii("1")[0] == 49u8 && ascii("2")[0] == 50u8 && ascii("W")[0] == 87u8);
            assert(ascii("X")[0] == 88u8 && ascii("Y")[0] == 89u8);
        }
        let kind = match res.get_message_type() {
            Some(t) => t,
            None => {
                return Ok(Dispatch::Nothing);
            },
        };
        match self.state {
            SessionState::Connected => {
                if is_text(kind.as_slice(), "A") {
                    self.state = SessionState::LoggedOn;
                    Ok(Dispatch::LoggedOn { heartbeat_interval: self.config.heart_beat })
                } else if is_text(kind.as_slice(), "5") {
                    self.state = SessionState::Disconnected;
                    Err(Error::LoggedOut)
                } else {
                    Ok(Dispatch::Nothing)
                }
            },
            SessionState::LoggedOn => {
                if is_text(kind.as_slice(), "0") {
                    Ok(Dispatch::Nothing)
                } else if is_text(kind.as_slice(), "1") {
                    match res.get_field_value(Field::TestReqID) {
                        Some(id) => {
                            if self.seq == u32::MAX {
                                proof {
                                    reveal_strlit("sequence numbers exhausted");
                                }
                                return Err(
                                    Error::RequestRejected(lit("sequence numbers exhausted")),
                                );
                            }
                            let req = HeartbeatReq::new(Some(id));
                            let bytes = self.emit(&req, now);
                            Ok(Dispatch::Reply(bytes))
                        },
                        None => Ok(Dispatch::Nothing),
                    }
                } else if is_text(kind.as_slice(), "2") {
                    let begin = Self::read_sequence(res, Field::BeginSeqNo);
                    let end = Self::read_sequence(res, Field::EndSeqNo);
                    Ok(Dispatch::Resend(self.select_resend(begin, end)))
                } else if is_text(kind.as_slice(), "5") {
                    self.state = SessionState::Disconnected;
                    Ok(Dispatch::PeerLogout)
                } else if is_text(kind.as_slice(), "W") || is_text(kind.as_slice(), "X") || is_text(
                    kind.as_slice(),
                    "Y",
                ) {
                    let symbol_id = match res.get_field_value(Field::Symbol) {
                        Some(text) => match parse_u32(text.as_slice()) {
                            Some(n) => n,
                            None => {
                                return Ok(Dispatch::Nothing);
                            },
                        },
                        None => 0,
                    };
                    if is_text(kind.as_slice(), "Y") {
                        let md_req_id = match res.get_field_value(Field::MDReqID) {
                            Some(v) => v,
                            None => Vec::new(),
                        };
                        let err_msg = match res.get_field_value(Field::Text) {
                            Some(v) => v,
                            None => Vec::new(),
                        };
                        Ok(
                            Dispatch::Market(
                                InternalMDResult::MDReject { symbol_id, md_req_id, err_msg },
                            ),
                        )
                    } else if is_text(kind.as_slice(), "W") {
                        let data = res.get_repeating_groups(
                            Field::NoMDEntries,
                            Field::MDEntryType,
                            None,
                        );
                        Ok(Dispatch::Market(InternalMDResult::MD { msg_type: 87, symbol_id, data }))
                    } else {
                        let data = res.get_repeating_groups(
                            Field::NoMDEntries,
                            Field::MDUpdateAction,
                            None,
                        );
                        Ok(Dispatch::Market(InternalMDResult::MD { msg_type: 88, symbol_id, data }))
                    }
                } else {
                    Ok(Dispatch::Trade(res.duplicate()))
                }
            },
            SessionState::LoggingOut => {
                if is_text(kind.as_slice(), "5") {
                    self.state = SessionState::Disconnected;
                    Ok(Dispatch::PeerLogout)
                } else {
                    Ok(Dispatch::Nothing)
                }
            },
            _ => Ok(Dispatch::Nothing),
        }
    }

    /// Reads a sequence number field of a resend request.
    fn read_sequence(res: &ResponseMessage, field: Field) -> (r: u32)
        ensures
            r == sequence_field(res, field),
    {
        match res.get_field_value(field) {
            Some(text) => match parse_u32(text.as_slice()) {
                Some(n) => n,
                None => 0,
            },
            None => 0,
        }
    }
}

/// What `connect` does: a disconnected session forgets its buffer, starts to connect
/// and names the port of its role; any other session refuses.
pub open spec fn dialing(before: &FixApi, after: &FixApi, r: Result<u16, Error>) -> bool {
    &&& after.same_session(before)
    &&& after.next_seq() == before.next_seq()
    &&& match r {
        Ok(port) => {
            &&& before.state() == SessionState::Disconnected
            &&& port == before.sub_id().port_spec()
            &&& after.state() == SessionState::Connecting
            &&& after.resend_buffer() == Seq::<(u32, Seq<u8>)>::empty()
        },
        Err(e) => {
            &&& before.state() != SessionState::Disconnected
            &&& e is NotConnected
            &&& after.state() == before.state()
            &&& after.resend_buffer() == before.resend_buffer()
        },
    }
}

/// What `on_connected` does: a connecting session is `Connected` after a dial that
/// succeeded and `Disconnected` after one that failed; the result is true in the first
/// case. Any other session stays as it is.
pub open spec fn dialed(before: &FixApi, after: &FixApi, success: bool, r: bool) -> bool {
    &&& after.same_session(before)
    &&& after.next_seq() == before.next_seq()
    &&& after.resend_buffer() == before.resend_buffer()
    &&& r == (before.state() == SessionState::Connecting && success)
    &&& after.state() == if before.state() == SessionState::Connecting {
        if success {
            SessionState::Connected
        } else {
            SessionState::Disconnected
        }
    } else {
        before.state()
    }
}

/// What `logon` does: in a session that is `Connected` the sequence number starts again
/// at 1, the buffer is emptied, and the logon message is returned and buffered; any
/// other session refuses.
pub open spec fn logging_on(
    before: &FixApi,
    after: &FixApi,
    now: Timestamp,
    r: Result<Vec<u8>, Error>,
) -> bool {
    &&& after.same_session(before)
    &&& after.state() == before.state()
    &&& match r {
        Ok(bytes) => {
            &&& before.state() == SessionState::Connected
            &&& bytes@ == wire(
                &(LogonReq { encryption_scheme: 0, reset_seq_num: Some(true) }),
                before.sub_id(),
                1,
                DELIMITER,
                &before.config(),
                now,
            )
            &&& after.next_seq() == 2
            &&& after.resend_buffer() == seq![(1u32, bytes@)]
        },
        Err(e) => {
            &&& before.state() != SessionState::Connected
            &&& e is NotConnected
            &&& after.next_seq() == before.next_seq()
            &&& after.resend_buffer() == before.resend_buffer()
        },
    }
}

/// What `logout` does: a logged-on session sends the logout message and waits in
/// `LoggingOut`; any other session refuses as `refusal` says.
pub open spec fn logging_out(
    before: &FixApi,
    after: &FixApi,
    now: Timestamp,
    r: Result<Vec<u8>, Error>,
) -> bool {
    &&& after.same_session(before)
    &&& match r {
        Ok(bytes) => {
            &&& before.state() == SessionState::LoggedOn
            &&& before.next_seq() < u32::MAX
            &&& after.state() == SessionState::LoggingOut
            &&& bytes@ == wire(
                &LogoutReq,
                before.sub_id(),
                before.next_seq(),
                DELIMITER,
                &before.config(),
                now,
            )
            &&& after.next_seq() == before.next_seq() + 1
            &&& after.resend_buffer() == keep_last(
                before.resend_buffer().push((before.next_seq(), bytes@)),
                RESEND_CAPACITY as int,
            )
        },
        Err(e) => {
            &&& after.state() == before.state()
            &&& after.next_seq() == before.next_seq()
            &&& after.resend_buffer() == before.resend_buffer()
            &&& match refusal(before.state()) {
                Some(error) => e@ == error,
                None => before.next_seq() == u32::MAX && e is RequestRejected,
            }
        },
    }
}

/// What `heartbeat` does: a logged-on session sends a heartbeat; any other session has
/// nothing more to send, which ends the timer.
pub open spec fn beating(
    before: &FixApi,
    after: &FixApi,
    now: Timestamp,
    r: Option<Vec<u8>>,
) -> bool {
    &&& after.same_session(before)
    &&& after.state() == before.state()
    &&& match r {
        Some(bytes) => {
            &&& before.state() == SessionState::LoggedOn
            &&& before.next_seq() < u32::MAX
            &&& bytes@ == wire(
                &(HeartbeatReq { test_req_id: None }),
                before.sub_id(),
                before.next_seq(),
                DELIMITER,
                &before.config(),
                now,
            )
            &&& after.next_seq() == before.next_seq() + 1
            &&& after.resend_buffer() == keep_last(
                before.resend_buffer().push((before.next_seq(), bytes@)),
                RESEND_CAPACITY as int,
            )
        },
        None => {
            &&& before.state() != SessionState::LoggedOn || before.next_seq()
                == u32::MAX
            &&& after.next_seq() == before.next_seq()
            &&& after.resend_buffer() == before.resend_buffer()
        },
    }
}

/// What `disconnect` does: the buffer is emptied and the session is `Disconnected`; the
/// result is true when it was not so before.
pub open spec fn given_up(before: &FixApi, after: &FixApi, r: bool) -> bool {
    &&& after.same_session(before)
    &&& after.next_seq() == before.next_seq()
    &&& after.state() == SessionState::Disconnected
    &&& after.resend_buffer() == Seq::<(u32, Seq<u8>)>::empty()
    &&& r == (before.state() != SessionState::Disconnected)
}

/// What an inbound message leads to, by the state of the session: see `on_message`.
pub open spec fn dispatched(
    before: &FixApi,
    after: &FixApi,
    res: &ResponseMessage,
    now: Timestamp,
    r: Result<Dispatch, Error>,
) -> bool {
    &&& after.same_session(before)
    &&& match before.state() {
        SessionState::Connected => {
            &&& after.next_seq() == before.next_seq()
            &&& after.resend_buffer() == before.resend_buffer()
            &&& if res.message_type() == Some(ascii("A")) {
                &&& after.state() == SessionState::LoggedOn
                &&& r matches Ok(Dispatch::LoggedOn { heartbeat_interval })
                &&& heartbeat_interval == before.config().heart_beat
            } else if res.message_type() == Some(ascii("5")) {
                &&& after.state() == SessionState::Disconnected
                &&& r matches Err(Error::LoggedOut)
            } else {
                &&& after.state() == SessionState::Connected
                &&& r matches Ok(Dispatch::Nothing)
            }
        },
        SessionState::LoggedOn => {
            if res.message_type() == Some(ascii("1")) && res.value(Field::TestReqID)
                is Some {
                &&& after.state() == SessionState::LoggedOn
                &&& if before.next_seq() < u32::MAX {
                    &&& r matches Ok(Dispatch::Reply(bytes))
                    &&& bytes@ == wire_of(
                        ascii("0"),
                        seq![(Field::TestReqID.tag_spec(), res.value(Field::TestReqID)->0)],
                        before.sub_id(),
                        before.next_seq(),
                        DELIMITER,
                        &before.config(),
                        now,
                    )
                    &&& after.next_seq() == before.next_seq() + 1
                    &&& after.resend_buffer() == keep_last(
                        before.resend_buffer().push((before.next_seq(), bytes@)),
                        RESEND_CAPACITY as int,
                    )
                } else {
                    &&& r matches Err(Error::RequestRejected(_))
                    &&& after.next_seq() == before.next_seq()
                    &&& after.resend_buffer() == before.resend_buffer()
                }
            } else {
                &&& after.next_seq() == before.next_seq()
                &&& after.resend_buffer() == before.resend_buffer()
                &&& if res.message_type() == Some(ascii("5")) {
                    &&& after.state() == SessionState::Disconnected
                    &&& r matches Ok(Dispatch::PeerLogout)
                } else {
                    &&& after.state() == SessionState::LoggedOn
                    &&& if res.message_type() is None || res.message_type() == Some(
                        ascii("0"),
                    ) || res.message_type() == Some(ascii("1")) {
                        r matches Ok(Dispatch::Nothing)
                    } else if res.message_type() == Some(ascii("2")) {
                        &&& r matches Ok(Dispatch::Resend(messages))
                        &&& messages_view(messages@) == resend_selection(
                            before.resend_buffer(),
                            sequence_field(res, Field::BeginSeqNo),
                            sequence_field(res, Field::EndSeqNo),
                        )
                    } else if is_market_data(res) {
                        match symbol_field(res) {
                            Some(symbol_id) => {
                                &&& r matches Ok(Dispatch::Market(data))
                                &&& data@ == market_data(res, symbol_id)
                            },
                            None => r matches Ok(Dispatch::Nothing),
                        }
                    } else {
                        &&& r matches Ok(Dispatch::Trade(message))
                        &&& message.raw() == res.raw()
                        &&& message.fields() == res.fields()
                    }
                }
            }
        },
        SessionState::LoggingOut => {
            &&& after.next_seq() == before.next_seq()
            &&& after.resend_buffer() == before.resend_buffer()
            &&& if res.message_type() == Some(ascii("5")) {
                &&& after.state() == SessionState::Disconnected
                &&& r matches Ok(Dispatch::PeerLogout)
            } else {
                &&& after.state() == SessionState::LoggingOut
                &&& r matches Ok(Dispatch::Nothing)
            }
        },
        _ => {
            &&& after.next_seq() == before.next_seq()
            &&& after.resend_buffer() == before.resend_buffer()
            &&& after.state() == before.state()
            &&& r matches Ok(Dispatch::Nothing)
        },
    }
}

/// True when the sequence numbers ascend through `s`.
pub open spec fn numbers_ascend(s: Seq<(u32, Seq<u8>)>) -> bool {
    forall|i: int, j: int| 0 <= i < j < s.len() ==> (#[trigger] s[i]).0 < (#[trigger] s[j]).0
}

/// What a test leaves of a buffer is made of messages of the buffer that pass the test,
/// and where the sequence numbers ascend through the buffer they ascend through what
/// is left.
pub proof fn lemma_filter_ascends(s: Seq<(u32, Seq<u8>)>, test: spec_fn((u32, Seq<u8>)) -> bool)
    ensures
        forall|i: int|
            0 <= i < s.filter(test).len() ==> test(#[trigger] s.filter(test)[i]) && s.contains(
                s.filter(test)[i],
            ),
        numbers_ascend(s) ==> numbers_ascend(s.filter(test)),
    decreases s.len(),
{
    reveal(Seq::filter);
    if s.len() > 0 {
        let earlier = s.drop_last();
        lemma_filter_ascends(earlier, test);
        let kept = earlier.filter(test);
        assert forall|i: int| 0 <= i < kept.len() implies s.contains(#[trigger] kept[i]) by {
            let at = choose|at: int| 0 <= at < earlier.len() && earlier[at] == kept[i];
            assert(s[at] == kept[i]);
        }
        assert(s.contains(s.last())) by {
            assert(s[s.len() - 1] == s.last());
        }
        if numbers_ascend(s) {
            assert forall|i: int, j: int| 0 <= i < j < earlier.len() implies (#[trigger] earlier[i]).0
                < (#[trigger] earlier[j]).0 by {
                assert(s[i] == earlier[i] && s[j] == earlier[j]);
            }
            assert forall|i: int| 0 <= i < kept.len() implies (#[trigger] kept[i]).0 < s.last().0 by {
                let at = choose|at: int| 0 <= at < earlier.len() && earlier[at] == kept[i];
                assert(s[at] == kept[i]);
                assert(s[s.len() - 1] == s.last());
            }
        }
    }
}

/// A logged-on session answers a test request that carries an identifier with one
/// message: a heartbeat whose only body field echoes the identifier, under the next
/// sequence number. Whatever the application sends after that carries a higher
/// sequence number, so the answer goes out before it.
pub proof fn lemma_test_request_is_echoed(
    before: &FixApi,
    answered: &FixApi,
    after: &FixApi,
    res: &ResponseMessage,
    id: Seq<u8>,
    now: Timestamp,
    r: Result<Dispatch, Error>,
    message_type: Seq<u8>,
    body: Seq<(u32, Seq<u8>)>,
    later: Timestamp,
    bytes: Seq<u8>,
)
    requires
        before.state() == SessionState::LoggedOn,
        before.next_seq() < u32::MAX,
        res.message_type() == Some(ascii("1")),
        res.value(Field::TestReqID) == Some(id),
        dispatched(before, answered, res, now, r),
        sent(answered, after, message_type, body, later, Ok(bytes)),
    ensures
        r is Ok,
        r->Ok_0 is Reply,
        r->Ok_0->Reply_0@ == wire_of(
            ascii("0"),
            seq![(Field::TestReqID.tag_spec(), id)],
            before.sub_id(),
            before.next_seq(),
            DELIMITER,
            &before.config(),
            now,
        ),
        answered.state() == SessionState::LoggedOn,
        answered.next_seq() == before.next_seq() + 1,
        bytes == wire_of(
            message_type,
            body,
            before.sub_id(),
            (before.next_seq() + 1) as u32,
            DELIMITER,
            &before.config(),
            later,
        ),
{
}

/// A logged-on session serves a resend request from its buffer: it replays, byte for
/// byte and each once, the buffered messages whose sequence number is at least
/// `BeginSeqNo` and, unless `EndSeqNo` is 0, at most `EndSeqNo`, in the order of their
/// sequence numbers. The buffer and the next sequence number stay as they are.
pub proof fn lemma_resend_request_is_served(
    before: &FixApi,
    after: &FixApi,
    res: &ResponseMessage,
    now: Timestamp,
    r: Result<Dispatch, Error>,
)
    requires
        before.wf(),
        before.state() == SessionState::LoggedOn,
        res.message_type() == Some(ascii("2")),
        dispatched(before, after, res, now, r),
    ensures
        r is Ok,
        r->Ok_0 is Resend,
        ({
            let chosen = before.resend_buffer().filter(
                wanted(sequence_field(res, Field::BeginSeqNo), sequence_field(res, Field::EndSeqNo)),
            );
            &&& messages_view(r->Ok_0->Resend_0@) == chosen.map_values(bytes_of())
            &&& numbers_ascend(chosen)
            &&& forall|i: int|
                0 <= i < chosen.len() ==> before.resend_buffer().contains(#[trigger] chosen[i])
                    && in_range(
                    chosen[i].0,
                    sequence_field(res, Field::BeginSeqNo),
                    sequence_field(res, Field::EndSeqNo),
                )
        }),
        after.resend_buffer() == before.resend_buffer(),
        after.next_seq() == before.next_seq(),
        after.state() == SessionState::LoggedOn,
{
    reveal_strlit("0");
    reveal_strlit("1");
    reveal_strlit("2");
    reveal_strlit("5");
    assert(ascii("0")[0] == 48u8 && ascii("1")[0] == 49u8 && ascii("2")[0] == 50u8 && ascii("5")[0]
        == 53u8);
    let begin = sequence_field(res, Field::BeginSeqNo);
    let end = sequence_field(res, Field::EndSeqNo);
    lemma_resend_selection(before.resend_buffer(), begin, end);
    before.lemma_wf();
    lemma_filter_ascends(before.resend_buffer(), wanted(begin, end));
}

} // verus!
