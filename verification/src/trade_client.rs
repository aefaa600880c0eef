//! The trade client: requests of the trade session and the answers that belong to
//! them. Inbound messages wait in a queue for a bounded time; a request finds its
//! answer there by message type and a correlating field.

use vstd::prelude::*;
use vstd::string::*;
use std::collections::VecDeque;
use crate::decimal::{decimal_view, is_zero_text, Decimal};
use crate::field::Field;
use crate::fixapi::{
    beating, dialed, dialing, dispatched, given_up, logging_on, logging_out, sent,
    Dispatch, FixApi, SessionState,
};
use crate::ident::{create_unique_id, is_id_text};
use crate::messages::ResponseMessage;
use crate::parse_func::{
    fields_of_each, number, parse_execution_report, parse_order_mass_status,
    parse_positions, parse_security_list, positions_of, positions_view, report_failure, report_of,
    reports_of, reports_view, text,
};
use crate::requests::{
    cancel_fields, mass_status_fields, new_order_fields, positions_fields, replace_fields,
    security_list_fields, time_text, NewOrderSingleReq, OrderCancelReplaceReq, OrderCancelReq,
    OrderMassStatusReq, PositionsReq, RequestMessage, SecurityListReq,
};
use crate::text::{ascii, copy_bytes, is_text, lit, parse_u32, parse_u32_spec};
use crate::time::Timestamp;
use crate::types::{
    bytes_view, error_of, Error, ErrorView, ExecutionReport, OrderType, PositionReport,
    PositionView, ReportView, Side, SubID,
};

verus! {

/// How long an inbound message waits for the request that it answers, in milliseconds.
pub const RESPONSE_LIFETIME: u64 = 5000;

/// How long a request waits for its answer unless the client is told otherwise, in
/// milliseconds.
pub const DEFAULT_TIMEOUT: u64 = 5000;

/// An inbound message in the queue: until when it waits, and whether a request has
/// taken it.
#[derive(Debug)]
pub struct TimeoutItem {
    pub item: ResponseMessage,
    pub expiry: u64,
    pub read: bool,
}

/// The end of a lifetime that starts at `now`; the end of time where it lies beyond.
pub open spec fn expiry_of(now: u64, lifetime: u64) -> u64 {
    if now + lifetime > u64::MAX {
        u64::MAX
    } else {
        (now + lifetime) as u64
    }
}

impl TimeoutItem {
    /// An unread item that waits until `lifetime` milliseconds after `now`.
    pub fn new(item: ResponseMessage, now: u64, lifetime: u64) -> (r: TimeoutItem)
        ensures
            r.item == item,
            r.expiry == expiry_of(now, lifetime),
            !r.read,
    {
        let expiry = if now > u64::MAX - lifetime {
            u64::MAX
        } else {
            now + lifetime
        };
        TimeoutItem { item, expiry, read: false }
    }
}

/// What a request waits for: a message of type `msg_type` whose `field` has the value
/// `value`.
#[derive(Debug)]
pub struct Expectation {
    pub msg_type: Vec<u8>,
    pub field: Field,
    pub value: Vec<u8>,
}

impl View for Expectation {
    type V = (Seq<u8>, Field, Seq<u8>);

    open spec fn view(&self) -> (Seq<u8>, Field, Seq<u8>) {
        (self.msg_type@, self.field, self.value@)
    }
}

/// The views of a list of expectations.
pub open spec fn expects_view(v: Seq<Expectation>) -> Seq<(Seq<u8>, Field, Seq<u8>)> {
    Seq::new(v.len(), |i: int| v[i]@)
}

/// A request that was sent: the bytes to write, and what answers it.
#[derive(Debug)]
pub struct Exchange {
    pub message: Vec<u8>,
    pub expects: Vec<Expectation>,
}

/// True when the message is what `e` describes.
pub open spec fn expected(item: &ResponseMessage, e: (Seq<u8>, Field, Seq<u8>)) -> bool {
    item.message_type() == Some(e.0) && item.value(e.1) == Some(e.2)
}

/// True when the message is what one of `expects` describes.
pub open spec fn awaited(item: &ResponseMessage, expects: Seq<(Seq<u8>, Field, Seq<u8>)>) -> bool {
    exists|k: int| 0 <= k < expects.len() && expected(item, #[trigger] expects[k])
}

/// The position of the newest unread message before `upto` that is awaited; -1 when
/// there is none.
pub open spec fn newest_match(
    queue: Seq<TimeoutItem>,
    expects: Seq<(Seq<u8>, Field, Seq<u8>)>,
    upto: int,
) -> int
    decreases upto,
{
    if upto <= 0 || upto > queue.len() {
        -1
    } else if !queue[upto - 1].read && awaited(&queue[upto - 1].item, expects) {
        upto - 1
    } else {
        newest_match(queue, expects, upto - 1)
    }
}

/// The queue without the messages at its head whose time is over at `now`.
pub open spec fn evicted(queue: Seq<TimeoutItem>, now: u64) -> Seq<TimeoutItem>
    decreases queue.len(),
{
    if queue.len() > 0 && queue[0].expiry < now {
        evicted(queue.drop_first(), now)
    } else {
        queue
    }
}

/// The execution report that the handler is told of for an inbound message: that of an
/// execution report message which is no order status and can be read.
pub open spec fn reported(res: &ResponseMessage) -> Option<ReportView> {
    if res.message_type() == Some(ascii("8")) && res.value(Field::ExecType) != Some(ascii("I"))
        && report_failure(res.fields()) is None {
        Some(report_of(res.fields()))
    } else {
        None
    }
}

/// The view of an optional execution report.
pub open spec fn report_view(r: Option<ExecutionReport>) -> Option<ReportView> {
    match r {
        Some(v) => Some(v@),
        None => None,
    }
}

/// The text of a reject, or `default` where the message carries none.
pub open spec fn reject_text(res: &ResponseMessage, default: Seq<u8>) -> Seq<u8> {
    match res.value(Field::Text) {
        Some(t) => t,
        None => default,
    }
}

/// What an execution report message answers: the report, or the error for the field
/// on which reading it fails.
pub open spec fn report_outcome(res: &ResponseMessage) -> Result<ReportView, ErrorView> {
    match report_failure(res.fields()) {
        Some(f) => Err(ErrorView::FieldNotFoundError(f)),
        None => Ok(report_of(res.fields())),
    }
}

/// What the answer to a new order means: a business reject fails the order with its
/// text, an execution report is the result, anything else is unknown.
pub open spec fn order_outcome(res: &ResponseMessage) -> Result<ReportView, ErrorView> {
    if res.message_type() == Some(ascii("j")) {
        Err(ErrorView::OrderFailed(reject_text(res, ascii("Unknown"))))
    } else if res.message_type() == Some(ascii("8")) {
        report_outcome(res)
    } else {
        Err(ErrorView::UnknownError)
    }
}

/// What the answer to a replace request means: a business reject fails the order, an
/// order cancel reject rejects the replacement, each with its text; anything else is
/// read as an execution report.
pub open spec fn replace_outcome(res: &ResponseMessage) -> Result<ReportView, ErrorView> {
    if res.message_type() == Some(ascii("j")) {
        Err(ErrorView::OrderFailed(reject_text(res, ascii("Unknown error"))))
    } else if res.message_type() == Some(ascii("9")) {
        Err(ErrorView::OrderCancelRejected(reject_text(res, ascii("Unknown error"))))
    } else {
        report_outcome(res)
    }
}

/// What the answer to a cancel request means: a business reject fails the order, an
/// order cancel reject rejects the cancel, each with its text; anything else is read
/// as an execution report.
pub open spec fn cancel_outcome(res: &ResponseMessage) -> Result<ReportView, ErrorView> {
    if res.message_type() == Some(ascii("j")) {
        Err(ErrorView::OrderFailed(reject_text(res, ascii("Unknown error"))))
    } else if res.message_type() == Some(ascii("9")) {
        Err(ErrorView::OrderCancelRejected(reject_text(res, ascii("Unknown error"))))
    } else {
        report_outcome(res)
    }
}

/// The view of the outcome of reading a report.
pub open spec fn reply_view(r: Result<ExecutionReport, Error>) -> Result<ReportView, ErrorView> {
    match r {
        Ok(v) => Ok(v@),
        Err(e) => Err(e@),
    }
}

/// The view of the outcome of a request.
pub open spec fn exchange_view(r: Result<Exchange, Error>) -> Result<Seq<u8>, ErrorView> {
    match r {
        Ok(x) => Ok(x.message@),
        Err(e) => Err(e@),
    }
}

/// The text of a reject.
fn read_reject_text(res: &ResponseMessage, default: &str) -> (r: Vec<u8>)
    requires
        is_ascii(default),
    ensures
        r@ == reject_text(res, ascii(default)),
{
    match res.get_field_value(Field::Text) {
        Some(t) => t,
        None => lit(default),
    }
}

/// Reads the answer to a new order.
pub fn order_reply(res: &ResponseMessage) -> (r: Result<ExecutionReport, Error>)
    ensures
        reply_view(r) == order_outcome(res),
{
    proof {
        reveal_strlit("j");
        reveal_strlit("8");
        reveal_strlit("Unknown");
        assert(ascii("j")[0] == 106u8 && ascii("8")[0] == 56u8);
    }
    match res.get_message_type() {
        Some(kind) => {
            if is_text(kind.as_slice(), "j") {
                Err(Error::OrderFailed(read_reject_text(res, "Unknown")))
            } else if is_text(kind.as_slice(), "8") {
                parse_execution_report(res)
            } else {
                Err(Error::UnknownError)
            }
        },
        None => Err(Error::UnknownError),
    }
}

/// Reads the answer to a replace request.
pub fn replace_reply(res: &ResponseMessage) -> (r: Result<ExecutionReport, Error>)
    ensures
        reply_view(r) == replace_outcome(res),
{
    proof {
        reveal_strlit("j");
        reveal_strlit("9");
        reveal_strlit("Unknown error");
        assert(ascii("j")[0] == 106u8 && ascii("9")[0] == 57u8);
    }
    match res.get_message_type() {
        Some(kind) => {
            if is_text(kind.as_slice(), "j") {
                Err(Error::OrderFailed(read_reject_text(res, "Unknown error")))
            } else if is_text(kind.as_slice(), "9") {
                Err(Error::OrderCancelRejected(read_reject_text(res, "Unknown error")))
            } else {
                parse_execution_report(res)
            }
        },
        None => parse_execution_report(res),
    }
}

/// Reads the answer to a cancel request.
pub fn cancel_reply(res: &ResponseMessage) -> (r: Result<ExecutionReport, Error>)
    ensures
        reply_view(r) == cancel_outcome(res),
{
    proof {
        reveal_strlit("j");
        reveal_strlit("9");
        reveal_strlit("Unknown error");
        assert(ascii("j")[0] == 106u8 && ascii("9")[0] == 57u8);
    }
    match res.get_message_type() {
        Some(kind) => {
            if is_text(kind.as_slice(), "j") {
                Err(Error::OrderFailed(read_reject_text(res, "Unknown error")))
            } else if is_text(kind.as_slice(), "9") {
                Err(Error::OrderCancelRejected(read_reject_text(res, "Unknown error")))
            } else {
                parse_execution_report(res)
            }
        },
        None => parse_execution_report(res),
    }
}

/// The number of reports that a message announces in `field`: 0 where it names none.
pub open spec fn announced(res: &ResponseMessage, field: Field) -> Option<u32> {
    match res.value(field) {
        Some(t) => parse_u32_spec(t),
        None => Some(0u32),
    }
}

fn read_announced(res: &ResponseMessage, field: Field) -> (r: Option<u32>)
    ensures
        r == announced(res, field),
{
    match res.get_field_value(field) {
        Some(t) => parse_u32(t.as_slice()),
        None => Some(0),
    }
}

/// The view of the outcome of reading positions.
pub open spec fn positions_outcome(r: Result<Vec<PositionReport>, Error>) -> Result<
    Seq<PositionView>,
    ErrorView,
> {
    match r {
        Ok(v) => Ok(positions_view(v@)),
        Err(e) => Err(e@),
    }
}

/// What a list of position reports amounts to.
pub open spec fn positions_result(msgs: Seq<ResponseMessage>) -> Result<
    Seq<PositionView>,
    ErrorView,
> {
    match positions_of(fields_of_each(msgs)) {
        Ok(list) => Ok(list),
        Err(f) => Err(ErrorView::FieldNotFoundError(f)),
    }
}

/// The view of the outcome of reading execution reports.
pub open spec fn reports_outcome(r: Result<Vec<ExecutionReport>, Error>) -> Result<
    Seq<ReportView>,
    ErrorView,
> {
    match r {
        Ok(v) => Ok(reports_view(v@)),
        Err(e) => Err(e@),
    }
}

/// What a list of execution report messages amounts to.
pub open spec fn reports_result(msgs: Seq<ResponseMessage>) -> Result<Seq<ReportView>, ErrorView> {
    match reports_of(fields_of_each(msgs)) {
        Ok(list) => Ok(list),
        Err(f) => Err(ErrorView::FieldNotFoundError(f)),
    }
}

/// Takes one answer to a request for positions. A position report with request result
/// `0` joins the reports collected so far; once as many are collected as it
/// announces, they are read. Any other answer is read by itself. `None` means that
/// more reports are awaited.
pub fn positions_step(collected: &mut Vec<ResponseMessage>, res: ResponseMessage) -> (r: Option<
    Result<Vec<PositionReport>, Error>,
>)
    ensures
        if res.message_type() == Some(ascii("AP")) && res.value(Field::PosReqResult) == Some(
            ascii("0"),
        ) {
            match announced(&res, Field::TotalNumPosReports) {
                Some(n) => {
                    &&& final(collected)@ == old(collected)@.push(res)
                    &&& if n <= old(collected)@.len() + 1 {
                        r is Some && positions_outcome(r->0) == positions_result(
                            final(collected)@,
                        )
                    } else {
                        r is None
                    }
                },
                None => {
                    &&& final(collected)@ == old(collected)@
                    &&& r is Some && error_of(r->0) == Some(
                        ErrorView::FieldNotFoundError(Field::TotalNumPosReports),
                    )
                },
            }
        } else {
            &&& final(collected)@ == old(collected)@
            &&& r is Some && positions_outcome(r->0) == positions_result(seq![res])
        },
{
    proof {
        reveal_strlit("AP");
        reveal_strlit("0");
    }
    let is_report = match res.get_message_type() {
        Some(kind) => is_text(kind.as_slice(), "AP"),
        None => false,
    };
    let succeeded = match res.get_field_value(Field::PosReqResult) {
        Some(t) => is_text(t.as_slice(), "0"),
        None => false,
    };
    if is_report && succeeded {
        match read_announced(&res, Field::TotalNumPosReports) {
            Some(n) => {
                collected.push(res);
                if n as usize <= collected.len() {
                    Some(parse_positions(collected))
                } else {
                    None
                }
            },
            None => Some(Err(Error::FieldNotFoundError(Field::TotalNumPosReports))),
        }
    } else {
        let mut alone: Vec<ResponseMessage> = Vec::new();
        alone.push(res);
        assert(alone@ =~= seq![res]);
        Some(parse_positions(&alone))
    }
}

/// Takes one answer to an order mass status request. A business reject means that
/// there are no orders. An execution report joins the reports collected so far; once
/// as many are collected as it announces, they are read. `None` means that more
/// reports are awaited.
pub fn order_status_step(collected: &mut Vec<ResponseMessage>, res: ResponseMessage) -> (r:
    Option<Result<Vec<ExecutionReport>, Error>>)
    ensures
        if res.message_type() == Some(ascii("j")) {
            &&& final(collected)@ == old(collected)@
            &&& r is Some && reports_outcome(r->0) == Ok::<Seq<ReportView>, ErrorView>(
                Seq::empty(),
            )
        } else if res.message_type() == Some(ascii("8")) {
            match announced(&res, Field::TotNumReports) {
                Some(n) => {
                    &&& final(collected)@ == old(collected)@.push(res)
                    &&& if n <= old(collected)@.len() + 1 {
                        r is Some && reports_outcome(r->0) == reports_result(final(collected)@)
                    } else {
                        r is None
                    }
                },
                None => {
                    &&& final(collected)@ == old(collected)@
                    &&& r is Some && error_of(r->0) == Some(
                        ErrorView::FieldNotFoundError(Field::TotNumReports),
                    )
                },
            }
        } else {
            &&& final(collected)@ == old(collected)@
            &&& r is Some && error_of(r->0) == Some(ErrorView::UnknownError)
        },
{
    proof {
        reveal_strlit("j");
        reveal_strlit("8");
        assert(ascii("j")[0] == 106u8 && ascii("8")[0] == 56u8);
    }
    let kind = match res.get_message_type() {
        Some(kind) => kind,
        None => {
            return Some(Err(Error::UnknownError));
        },
    };
    if is_text(kind.as_slice(), "j") {
        let none: Vec<ExecutionReport> = Vec::new();
        assert(reports_view(none@) =~= Seq::empty());
        Some(Ok(none))
    } else if is_text(kind.as_slice(), "8") {
        match read_announced(&res, Field::TotNumReports) {
            Some(n) => {
                collected.push(res);
                if n as usize <= collected.len() {
                    Some(parse_order_mass_status(collected))
                } else {
                    None
                }
            },
            None => Some(Err(Error::FieldNotFoundError(Field::TotNumReports))),
        }
    } else {
        Some(Err(Error::UnknownError))
    }
}

/// A trade client: a session in the role `TRADE` and the queue of inbound messages
/// that wait for their requests.
#[derive(Debug)]
pub struct TradeClient {
    internal: FixApi,
    queue: VecDeque<TimeoutItem>,
    timeout: u64,
}

/// What a request of the trade client does and returns: the message goes out through
/// the session as `sent` says, nothing else changes, and the request awaits `expects`.
pub open spec fn requested(
    before: &TradeClient,
    after: &TradeClient,
    message_type: Seq<u8>,
    body: Seq<(u32, Seq<u8>)>,
    expects: Seq<(Seq<u8>, Field, Seq<u8>)>,
    now: Timestamp,
    r: Result<Exchange, Error>,
) -> bool {
    &&& after.queue() == before.queue()
    &&& after.timeout() == before.timeout()
    &&& sent(&before.session(), &after.session(), message_type, body, now, exchange_view(r))
    &&& r is Ok ==> expects_view(r->Ok_0.expects@) == expects
}

/// What answers a request of type `x` for the security list.
pub open spec fn security_list_answer(id: Seq<u8>) -> Seq<(Seq<u8>, Field, Seq<u8>)> {
    seq![(ascii("y"), Field::SecurityReqID, id)]
}

/// What answers a request for positions.
pub open spec fn positions_answer(id: Seq<u8>) -> Seq<(Seq<u8>, Field, Seq<u8>)> {
    seq![(ascii("AP"), Field::PosReqID, id)]
}

/// What answers an order mass status request.
pub open spec fn order_status_answer(id: Seq<u8>) -> Seq<(Seq<u8>, Field, Seq<u8>)> {
    seq![(ascii("8"), Field::MassStatusReqID, id), (ascii("j"), Field::BusinessRejectRefID, id)]
}

/// What answers a new order.
pub open spec fn order_answer(cl_ord_id: Seq<u8>) -> Seq<(Seq<u8>, Field, Seq<u8>)> {
    seq![
        (ascii("8"), Field::ClOrdId, cl_ord_id),
        (ascii("j"), Field::BusinessRejectRefID, cl_ord_id),
    ]
}

/// What answers a replace request: the execution report of the order that it names,
/// or the business reject or the order cancel reject of the request.
pub open spec fn replace_answer(
    org_cl_ord_id: Option<Seq<u8>>,
    order_id: Option<Seq<u8>>,
    cl_ord_id: Seq<u8>,
) -> Seq<(Seq<u8>, Field, Seq<u8>)> {
    seq![
        match org_cl_ord_id {
            Some(id) => (ascii("8"), Field::ClOrdId, id),
            None => (ascii("8"), Field::OrderID, order_id->0),
        },
        (ascii("j"), Field::BusinessRejectRefID, cl_ord_id),
        (ascii("9"), Field::ClOrdId, cl_ord_id),
    ]
}

/// What answers a cancel request.
pub open spec fn cancel_answer(cl_ord_id: Seq<u8>) -> Seq<(Seq<u8>, Field, Seq<u8>)> {
    seq![
        (ascii("8"), Field::ClOrdId, cl_ord_id),
        (ascii("j"), Field::BusinessRejectRefID, cl_ord_id),
        (ascii("9"), Field::ClOrdId, cl_ord_id),
    ]
}

/// The first of two optional identifiers that is there.
pub open spec fn first_of(a: Option<Seq<u8>>, b: Option<Seq<u8>>) -> Seq<u8> {
    match a {
        Some(v) => v,
        None => b->0,
    }
}

fn expectation(msg_type: &str, field: Field, value: &[u8]) -> (r: Expectation)
    requires
        is_ascii(msg_type),
    ensures
        r@ == (ascii(msg_type), field, value@),
{
    Expectation { msg_type: lit(msg_type), field, value: copy_bytes(value) }
}

/// True when `id` is the identifier of an order: the one that was given, or else a
/// fresh one.
pub open spec fn chosen(cl_ord_id: Option<Vec<u8>>, id: Seq<u8>) -> bool {
    match cl_ord_id {
        Some(v) => id == v@,
        None => is_id_text(id),
    }
}

/// The text of the time that an order carries: its own, or else the time of sending.
pub open spec fn time_or(transact_time: Option<Timestamp>, now: Timestamp) -> Seq<u8> {
    match transact_time {
        Some(t) => t.text(),
        None => now.text(),
    }
}

/// The side of the order that closes a position: a purchase where nothing is held
/// long, a sale otherwise.
pub open spec fn closing_side(p: PositionView) -> Side {
    if is_zero_text(p.long_qty) {
        Side::BUY
    } else {
        Side::SELL
    }
}

/// The quantity of the order that closes a position.
pub open spec fn open_quantity(p: PositionView) -> Seq<u8> {
    if is_zero_text(p.long_qty) {
        p.short_qty
    } else {
        p.long_qty
    }
}

fn given_or_fresh(cl_ord_id: Option<Vec<u8>>) -> (r: Vec<u8>)
    ensures
        chosen(cl_ord_id, r@),
{
    match cl_ord_id {
        Some(v) => v,
        None => create_unique_id(),
    }
}

impl TradeClient {
    /// What every trade client keeps: its session is well-formed.
    pub closed spec fn wf(&self) -> bool {
        self.internal.wf()
    }

    /// The session of a well-formed client is well-formed.
    pub proof fn lemma_session(&self)
        requires
            self.wf(),
        ensures
            self.session().wf(),
    {
    }

    /// The session of the client.
    pub closed spec fn session(&self) -> FixApi {
        self.internal
    }

    /// The inbound messages that wait, oldest first.
    pub closed spec fn queue(&self) -> Seq<TimeoutItem> {
        self.queue@
    }

    /// How long a request waits for its answer, in milliseconds.
    pub closed spec fn timeout(&self) -> u64 {
        self.timeout
    }

    /// True when the two clients hold the same queue and timeout.
    pub open spec fn same_trade(&self, other: &TradeClient) -> bool {
        self.queue() == other.queue() && self.timeout() == other.timeout()
    }

    /// A trade client without connection, with an empty queue and the default timeout.
    pub fn new(
        host: Vec<u8>,
        login: Vec<u8>,
        password: Vec<u8>,
        sender_comp_id: Vec<u8>,
        heartbeat_interval: Option<u32>,
    ) -> (r: TradeClient)
        ensures
            r.wf(),
            r.session().sub_id() == SubID::TRADE,
            r.session().state() == SessionState::Disconnected,
            r.session().next_seq() == 1,
            r.session().resend_buffer() == Seq::<(u32, Seq<u8>)>::empty(),
            r.session().config().host == host,
            r.session().config().username == login,
            r.session().config().password == password,
            r.session().config().sender_comp_id == sender_comp_id,
            r.session().config().heart_beat == match heartbeat_interval {
                Some(n) => n,
                None => 30u32,
            },
            r.queue() == Seq::<TimeoutItem>::empty(),
            r.timeout() == DEFAULT_TIMEOUT,
    {
        TradeClient {
            internal: FixApi::new(
                SubID::TRADE,
                host,
                login,
                password,
                sender_comp_id,
                heartbeat_interval,
            ),
            queue: VecDeque::new(),
            timeout: DEFAULT_TIMEOUT,
        }
    }

    /// The session of the client, to read.
    pub fn get_session(&self) -> (r: &FixApi)
        ensures
            *r == self.session(),
    {
        &self.internal
    }

    /// Starts to connect the session; see `FixApi::connect`.
    pub fn connect(&mut self) -> (r: Result<u16, Error>)
        requires
            old(self).wf(),
        ensures
            final(self).wf(),
            final(self).same_trade(old(self)),
            dialing(&old(self).session(), &final(self).session(), r),
    {
        self.internal.connect()
    }

    /// Takes the end of the dial; see `FixApi::on_connected`.
    pub fn on_connected(&mut self, success: bool) -> (r: bool)
        requires
            old(self).wf(),
        ensures
            final(self).wf(),
            final(self).same_trade(old(self)),
            dialed(&old(self).session(), &final(self).session(), success, r),
    {
        self.internal.on_connected(success)
    }

    /// Logs the session on; see `FixApi::logon`.
    pub fn logon(&mut self, now: &Timestamp) -> (r: Result<Vec<u8>, Error>)
        requires
            old(self).wf(),
        ensures
            final(self).wf(),
            final(self).same_trade(old(self)),
            logging_on(&old(self).session(), &final(self).session(), *now, r),
    {
        self.internal.logon(now)
    }

    /// Logs the session out; see `FixApi::logout`.
    pub fn logout(&mut self, now: &Timestamp) -> (r: Result<Vec<u8>, Error>)
        requires
            old(self).wf(),
        ensures
            final(self).wf(),
            final(self).same_trade(old(self)),
            logging_out(&old(self).session(), &final(self).session(), *now, r),
    {
        self.internal.logout(now)
    }

    /// Takes a tick of the heartbeat timer; see `FixApi::heartbeat`.
    pub fn heartbeat(&mut self, now: &Timestamp) -> (r: Option<Vec<u8>>)
        requires
            old(self).wf(),
        ensures
            final(self).wf(),
            final(self).same_trade(old(self)),
            beating(&old(self).session(), &final(self).session(), *now, r),
    {
        self.internal.heartbeat(now)
    }

    /// Gives the connection up; see `FixApi::disconnect`. The queue stays as it is:
    /// its messages leave when their time is over.
    pub fn disconnect(&mut self) -> (r: bool)
        requires
            old(self).wf(),
        ensures
            final(self).wf(),
            final(self).same_trade(old(self)),
            given_up(&old(self).session(), &final(self).session(), r),
    {
        self.internal.disconnect()
    }

    /// Lets the session decide what an inbound message leads to; see
    /// `FixApi::on_message`. A message for the trade data sink is for
    /// `on_trade_message`.
    pub fn on_message(&mut self, res: &ResponseMessage, now: &Timestamp) -> (r: Result<
        Dispatch,
        Error,
    >)
        requires
            old(self).wf(),
        ensures
            final(self).wf(),
            final(self).same_trade(old(self)),
            dispatched(&old(self).session(), &final(self).session(), res, *now, r),
    {
        self.internal.on_message(res, now)
    }

    /// True while the connection of the session stands.
    pub fn is_connected(&self) -> (r: bool)
        ensures
            r == self.session().connected(),
    {
        self.internal.is_connected()
    }

    /// Refuses with `NotConnected` while the connection does not stand.
    pub fn check_connection(&self) -> (r: Result<(), Error>)
        ensures
            match r {
                Ok(_) => self.session().connected(),
                Err(e) => !self.session().connected() && e@ == ErrorView::NotConnected,
            },
    {
        if self.is_connected() {
            Ok(())
        } else {
            Err(Error::NotConnected)
        }
    }

    /// How long a request may still wait after `elapsed` milliseconds: what is left of
    /// the timeout. Refused with `NotConnected` while the connection does not stand,
    /// and with `TimeoutError` once the timeout is used up.
    pub fn remaining_time(&self, elapsed: u64) -> (r: Result<u64, Error>)
        ensures
            match r {
                Ok(left) => self.session().connected() && elapsed < self.timeout() && left
                    == self.timeout() - elapsed,
                Err(e) => if !self.session().connected() {
                    e@ == ErrorView::NotConnected
                } else {
                    elapsed >= self.timeout() && e@ == ErrorView::TimeoutError
                },
            },
    {
        if !self.is_connected() {
            Err(Error::NotConnected)
        } else if elapsed < self.timeout {
            Ok(self.timeout - elapsed)
        } else {
            Err(Error::TimeoutError)
        }
    }

    /// Takes an inbound message of the trade session at time `now`, in milliseconds of
    /// a clock that does not go back. The message joins the queue for
    /// `RESPONSE_LIFETIME`, and the messages at the head of the queue whose time is
    /// over leave it. The result is the execution report that the handler is to be
    /// told of, if the message is one.
    pub fn on_trade_message(&mut self, res: ResponseMessage, now: u64) -> (r: Option<
        ExecutionReport,
    >)
        requires
            old(self).wf(),
        ensures
            final(self).wf(),
            final(self).session() == old(self).session(),
            final(self).timeout() == old(self).timeout(),
            report_view(r) == reported(&res),
            final(self).queue() == evicted(
                old(self).queue().push(
                    TimeoutItem { item: res, expiry: expiry_of(now, RESPONSE_LIFETIME), read: false },
                ),
                now,
            ),
    {
        proof {
            reveal_strlit("8");
            reveal_strlit("I");
        }
        let is_report = match res.get_message_type() {
            Some(kind) => is_text(kind.as_slice(), "8"),
            None => false,
        };
        let is_status = match res.get_field_value(Field::ExecType) {
            Some(t) => is_text(t.as_slice(), "I"),
            None => false,
        };
        let report = if is_report && !is_status {
            match parse_execution_report(&res) {
                Ok(v) => Some(v),
                Err(_) => None,
            }
        } else {
            None
        };
        let ghost pushed = self.queue@.push(
            TimeoutItem { item: res, expiry: expiry_of(now, RESPONSE_LIFETIME), read: false },
        );
        self.queue.push_back(TimeoutItem::new(res, now, RESPONSE_LIFETIME));
        assert(self.queue@ =~= pushed);
        while self.queue.len() > 0 && self.queue[0].expiry < now
            invariant
                self.internal == old(self).internal,
                self.timeout == old(self).timeout,
                evicted(self.queue@, now) == evicted(pushed, now),
            decreases self.queue@.len(),
        {
            assert(self.queue@.drop_first() =~= self.queue@.subrange(1, self.queue@.len() as int));
            self.queue.pop_front();
        }
        report
    }

    /// Looks for the answer to a request: the newest message in the queue that no
    /// request has taken yet and that is what one of `arg` describes. The message is
    /// marked as taken and a copy is returned.
    pub fn fetch_response(&mut self, arg: &Vec<Expectation>) -> (r: Option<ResponseMessage>)
        requires
            old(self).wf(),
        ensures
            final(self).wf(),
            final(self).session() == old(self).session(),
            final(self).timeout() == old(self).timeout(),
            ({
                let at = newest_match(
                    old(self).queue(),
                    expects_view(arg@),
                    old(self).queue().len() as int,
                );
                match r {
                    Some(res) => {
                        &&& 0 <= at < old(self).queue().len()
                        &&& res.raw() == old(self).queue()[at].item.raw()
                        &&& res.fields() == old(self).queue()[at].item.fields()
                        &&& final(self).queue() == old(self).queue().update(
                            at,
                            TimeoutItem {
                                item: old(self).queue()[at].item,
                                expiry: old(self).queue()[at].expiry,
                                read: true,
                            },
                        )
                    },
                    None => at == -1 && final(self).queue() == old(self).queue(),
                }
            }),
    {
        let ghost expects = expects_view(arg@);
        let ghost queue = self.queue@;
        let mut i: usize = self.queue.len();
        while i > 0
            invariant
                i <= self.queue@.len(),
                self.queue@ == queue,
                queue == old(self).queue@,
                self.wf(),
                self.internal == old(self).internal,
                self.timeout == old(self).timeout,
                expects == expects_view(arg@),
                newest_match(queue, expects, queue.len() as int) == newest_match(
                    queue,
                    expects,
                    i as int,
                ),
            decreases i,
        {
            let at = i - 1;
            if !self.queue[at].read && Self::is_awaited(&self.queue[at].item, arg) {
                let found = self.queue[at].item.duplicate();
                match self.queue.remove(at) {
                    Some(taken) => {
                        self.queue.insert(
                            at,
                            TimeoutItem { item: taken.item, expiry: taken.expiry, read: true },
                        );
                        assert(self.queue@ =~= queue.update(
                            at as int,
                            TimeoutItem {
                                item: queue[at as int].item,
                                expiry: queue[at as int].expiry,
                                read: true,
                            },
                        ));
                    },
                    None => {},
                }
                return Some(found);
            }
            i = at;
        }
        None
    }

    /// True when the message is what one of `arg` describes.
    fn is_awaited(item: &ResponseMessage, arg: &Vec<Expectation>) -> (r: bool)
        ensures
            r == awaited(item, expects_view(arg@)),
    {
        let ghost expects = expects_view(arg@);
        let mut k: usize = 0;
        while k < arg.len()
            invariant
                k <= arg@.len(),
                expects == expects_view(arg@),
                forall|j: int| 0 <= j < k ==> !expected(item, #[trigger] expects[j]),
            decreases arg@.len() - k,
        {
            if item.matching_field_value(
                arg[k].msg_type.as_slice(),
                arg[k].field,
                arg[k].value.as_slice(),
            ) {
                assert(expected(item, expects[k as int]));
                return true;
            }
            k = k + 1;
        }
        false
    }

    /// Sends `req` and says what answers it.
    fn request<R: RequestMessage>(&mut self, req: &R, expects: Vec<Expectation>, now: &Timestamp) -> (r:
        Result<Exchange, Error>)
        requires
            old(self).wf(),
        ensures
            final(self).wf(),
            requested(
                old(self),
                final(self),
                req.message_type(),
                req.body_fields(&old(self).session().config(), *now),
                expects_view(expects@),
                *now,
                r,
            ),
    {
        match self.internal.send_message(req, now) {
            Ok(message) => Ok(Exchange { message, expects }),
            Err(e) => Err(e),
        }
    }

    /// Asks for the security list under the request identifier `security_req_id`. The
    /// answer is for `parse_security_list`.
    pub fn fetch_security_list_with(&mut self, security_req_id: Vec<u8>, now: &Timestamp) -> (r:
        Result<Exchange, Error>)
        requires
            old(self).wf(),
        ensures
            final(self).wf(),
            requested(
                old(self),
                final(self),
                ascii("x"),
                security_list_fields(security_req_id@, 0, None),
                security_list_answer(security_req_id@),
                *now,
                r,
            ),
    {
        proof {
            reveal_strlit("y");
        }
        let mut expects: Vec<Expectation> = Vec::new();
        expects.push(expectation("y", Field::SecurityReqID, security_req_id.as_slice()));
        assert(expects_view(expects@) =~= security_list_answer(security_req_id@));
        let req = SecurityListReq::new(security_req_id, 0, None);
        self.request(&req, expects, now)
    }

    /// Asks for the security list under a fresh request identifier.
    pub fn fetch_security_list(&mut self, now: &Timestamp) -> (r: Result<Exchange, Error>)
        requires
            old(self).wf(),
        ensures
            final(self).wf(),
            exists|id: Seq<u8>|
                is_id_text(id) && #[trigger] requested(
                    old(self),
                    final(self),
                    ascii("x"),
                    security_list_fields(id, 0, None),
                    security_list_answer(id),
                    *now,
                    r,
                ),
    {
        let id = create_unique_id();
        self.fetch_security_list_with(id, now)
    }

    /// Asks for the positions under the request identifier `pos_req_id`. The answers
    /// are for `positions_step`.
    pub fn fetch_positions_with(&mut self, pos_req_id: Vec<u8>, now: &Timestamp) -> (r: Result<
        Exchange,
        Error,
    >)
        requires
            old(self).wf(),
        ensures
            final(self).wf(),
            requested(
                old(self),
                final(self),
                ascii("AN"),
                positions_fields(pos_req_id@, None),
                positions_answer(pos_req_id@),
                *now,
                r,
            ),
    {
        proof {
            reveal_strlit("AP");
        }
        let mut expects: Vec<Expectation> = Vec::new();
        expects.push(expectation("AP", Field::PosReqID, pos_req_id.as_slice()));
        assert(expects_view(expects@) =~= positions_answer(pos_req_id@));
        let req = PositionsReq::new(pos_req_id, None);
        self.request(&req, expects, now)
    }

    /// Asks for the positions under a fresh request identifier.
    pub fn fetch_positions(&mut self, now: &Timestamp) -> (r: Result<Exchange, Error>)
        requires
            old(self).wf(),
        ensures
            final(self).wf(),
            exists|id: Seq<u8>|
                is_id_text(id) && #[trigger] requested(
                    old(self),
                    final(self),
                    ascii("AN"),
                    positions_fields(id, None),
                    positions_answer(id),
                    *now,
                    r,
                ),
    {
        let id = create_unique_id();
        self.fetch_positions_with(id, now)
    }

    /// Asks for the status of all orders, those issued since `issue_date` if one is
    /// given, under the request identifier `mass_status_req_id`. The answers are for
    /// `order_status_step`.
    pub fn fetch_all_order_status_with(
        &mut self,
        mass_status_req_id: Vec<u8>,
        issue_date: Option<Timestamp>,
        now: &Timestamp,
    ) -> (r: Result<Exchange, Error>)
        requires
            old(self).wf(),
        ensures
            final(self).wf(),
            requested(
                old(self),
                final(self),
                ascii("AF"),
                mass_status_fields(mass_status_req_id@, 7, time_text(issue_date)),
                order_status_answer(mass_status_req_id@),
                *now,
                r,
            ),
    {
        proof {
            reveal_strlit("8");
            reveal_strlit("j");
        }
        let mut expects: Vec<Expectation> = Vec::new();
        expects.push(expectation("8", Field::MassStatusReqID, mass_status_req_id.as_slice()));
        expects.push(expectation("j", Field::BusinessRejectRefID, mass_status_req_id.as_slice()));
        assert(expects_view(expects@) =~= order_status_answer(mass_status_req_id@));
        let req = OrderMassStatusReq::new(mass_status_req_id, 7, issue_date);
        self.request(&req, expects, now)
    }

    /// Asks for the status of all orders under a fresh request identifier.
    pub fn fetch_all_order_status(&mut self, issue_date: Option<Timestamp>, now: &Timestamp) -> (r:
        Result<Exchange, Error>)
        requires
            old(self).wf(),
        ensures
            final(self).wf(),
            exists|id: Seq<u8>|
                is_id_text(id) && #[trigger] requested(
                    old(self),
                    final(self),
                    ascii("AF"),
                    mass_status_fields(id, 7, time_text(issue_date)),
                    order_status_answer(id),
                    *now,
                    r,
                ),
    {
        let id = create_unique_id();
        self.fetch_all_order_status_with(id, issue_date, now)
    }

    /// Sends a new order. The answer is for `order_reply`.
    pub fn new_order(&mut self, req: NewOrderSingleReq, now: &Timestamp) -> (r: Result<
        Exchange,
        Error,
    >)
        requires
            old(self).wf(),
        ensures
            final(self).wf(),
            requested(
                old(self),
                final(self),
                ascii("D"),
                req.body_fields(&old(self).session().config(), *now),
                order_answer(req.cl_ord_id@),
                *now,
                r,
            ),
    {
        proof {
            reveal_strlit("8");
            reveal_strlit("j");
        }
        let mut expects: Vec<Expectation> = Vec::new();
        expects.push(expectation("8", Field::ClOrdId, req.cl_ord_id.as_slice()));
        expects.push(expectation("j", Field::BusinessRejectRefID, req.cl_ord_id.as_slice()));
        assert(expects_view(expects@) =~= order_answer(req.cl_ord_id@));
        self.request(&req, expects, now)
    }

    /// Sends a market order; see `new_order`. The order gets a fresh identifier unless
    /// `cl_ord_id` gives one.
    pub fn new_market_order(
        &mut self,
        symbol: u32,
        side: Side,
        order_qty: Decimal,
        cl_ord_id: Option<Vec<u8>>,
        pos_id: Option<Vec<u8>>,
        transact_time: Option<Timestamp>,
        custom_ord_label: Option<Vec<u8>>,
        now: &Timestamp,
    ) -> (r: Result<Exchange, Error>)
        requires
            old(self).wf(),
        ensures
            final(self).wf(),
            exists|id: Seq<u8>|
                chosen(cl_ord_id, id) && #[trigger] requested(
                    old(self),
                    final(self),
                    ascii("D"),
                    new_order_fields(
                        id,
                        symbol,
                        side,
                        time_or(transact_time, *now),
                        order_qty@,
                        OrderType::MARKET,
                        None,
                        None,
                        None,
                        bytes_view(pos_id),
                        bytes_view(custom_ord_label),
                    ),
                    order_answer(id),
                    *now,
                    r,
                ),
    {
        let id = given_or_fresh(cl_ord_id);
        let ghost chosen_id = id@;
        let req = NewOrderSingleReq::new(
            id,
            symbol,
            side,
            transact_time,
            order_qty,
            OrderType::MARKET,
            None,
            None,
            None,
            pos_id,
            custom_ord_label,
        );
        let r = self.new_order(req, now);
        assert(requested(
            old(self),
            self,
            ascii("D"),
            new_order_fields(
                chosen_id,
                symbol,
                side,
                time_or(transact_time, *now),
                order_qty@,
                OrderType::MARKET,
                None,
                None,
                None,
                bytes_view(pos_id),
                bytes_view(custom_ord_label),
            ),
            order_answer(chosen_id),
            *now,
            r,
        ));
        r
    }

    /// Sends a limit order at `price`; see `new_order`.
    pub fn new_limit_order(
        &mut self,
        symbol: u32,
        side: Side,
        price: Decimal,
        order_qty: Decimal,
        cl_ord_id: Option<Vec<u8>>,
        pos_id: Option<Vec<u8>>,
        expire_time: Option<Timestamp>,
        transact_time: Option<Timestamp>,
        custom_ord_label: Option<Vec<u8>>,
        now: &Timestamp,
    ) -> (r: Result<Exchange, Error>)
        requires
            old(self).wf(),
        ensures
            final(self).wf(),
            exists|id: Seq<u8>|
                chosen(cl_ord_id, id) && #[trigger] requested(
                    old(self),
                    final(self),
                    ascii("D"),
                    new_order_fields(
                        id,
                        symbol,
                        side,
                        time_or(transact_time, *now),
                        order_qty@,
                        OrderType::LIMIT,
                        Some(price@),
                        None,
                        time_text(expire_time),
                        bytes_view(pos_id),
                        bytes_view(custom_ord_label),
                    ),
                    order_answer(id),
                    *now,
                    r,
                ),
    {
        let id = given_or_fresh(cl_ord_id);
        let ghost chosen_id = id@;
        let req = NewOrderSingleReq::new(
            id,
            symbol,
            side,
            transact_time,
            order_qty,
            OrderType::LIMIT,
            Some(price),
            None,
            expire_time,
            pos_id,
            custom_ord_label,
        );
        let r = self.new_order(req, now);
        assert(requested(
            old(self),
            self,
            ascii("D"),
            new_order_fields(
                chosen_id,
                symbol,
                side,
                time_or(transact_time, *now),
                order_qty@,
                OrderType::LIMIT,
                Some(price@),
                None,
                time_text(expire_time),
                bytes_view(pos_id),
                bytes_view(custom_ord_label),
            ),
            order_answer(chosen_id),
            *now,
            r,
        ));
        r
    }

    /// Sends a stop order at `stop_px`; see `new_order`.
    pub fn new_stop_order(
        &mut self,
        symbol: u32,
        side: Side,
        stop_px: Decimal,
        order_qty: Decimal,
        cl_ord_id: Option<Vec<u8>>,
        pos_id: Option<Vec<u8>>,
        expire_time: Option<Timestamp>,
        transact_time: Option<Timestamp>,
        custom_ord_label: Option<Vec<u8>>,
        now: &Timestamp,
    ) -> (r: Result<Exchange, Error>)
        requires
            old(self).wf(),
        ensures
            final(self).wf(),
            exists|id: Seq<u8>|
                chosen(cl_ord_id, id) && #[trigger] requested(
                    old(self),
                    final(self),
                    ascii("D"),
                    new_order_fields(
                        id,
                        symbol,
                        side,
                        time_or(transact_time, *now),
                        order_qty@,
                        OrderType::STOP,
                        None,
                        Some(stop_px@),
                        time_text(expire_time),
                        bytes_view(pos_id),
                        bytes_view(custom_ord_label),
                    ),
                    order_answer(id),
                    *now,
                    r,
                ),
    {
        let id = given_or_fresh(cl_ord_id);
        let ghost chosen_id = id@;
        let req = NewOrderSingleReq::new(
            id,
            symbol,
            side,
            transact_time,
            order_qty,
            OrderType::STOP,
            None,
            Some(stop_px),
            expire_time,
            pos_id,
            custom_ord_label,
        );
        let r = self.new_order(req, now);
        assert(requested(
            old(self),
            self,
            ascii("D"),
            new_order_fields(
                chosen_id,
                symbol,
                side,
                time_or(transact_time, *now),
                order_qty@,
                OrderType::STOP,
                None,
                Some(stop_px@),
                time_text(expire_time),
                bytes_view(pos_id),
                bytes_view(custom_ord_label),
            ),
            order_answer(chosen_id),
            *now,
            r,
        ));
        r
    }

    /// Changes the size of the position `pos_id` by a market order of `lot` on `side`;
    /// see `new_order`.
    pub fn adjust_position_size(
        &mut self,
        pos_id: Vec<u8>,
        symbol_id: u32,
        lot: Decimal,
        side: Side,
        now: &Timestamp,
    ) -> (r: Result<Exchange, Error>)
        requires
            old(self).wf(),
        ensures
            final(self).wf(),
            exists|id: Seq<u8>|
                is_id_text(id) && #[trigger] requested(
                    old(self),
                    final(self),
                    ascii("D"),
                    new_order_fields(
                        id,
                        symbol_id,
                        side,
                        now.text(),
                        lot@,
                        OrderType::MARKET,
                        None,
                        None,
                        None,
                        Some(pos_id@),
                        None,
                    ),
                    order_answer(id),
                    *now,
                    r,
                ),
    {
        let id = create_unique_id();
        let req = NewOrderSingleReq::new(
            id,
            symbol_id,
            side,
            None,
            lot,
            OrderType::MARKET,
            None,
            None,
            None,
            Some(pos_id),
            None,
        );
        self.new_order(req, now)
    }

    /// Closes a position: a market order against it for its open quantity, a sale for a
    /// long position and a purchase for a short one; see `new_order`.
    pub fn close_position(&mut self, pos_report: PositionReport, now: &Timestamp) -> (r: Result<
        Exchange,
        Error,
    >)
        requires
            old(self).wf(),
        ensures
            final(self).wf(),
            exists|id: Seq<u8>|
                is_id_text(id) && #[trigger] requested(
                    old(self),
                    final(self),
                    ascii("D"),
                    new_order_fields(
                        id,
                        pos_report.symbol_id,
                        closing_side(pos_report@),
                        now.text(),
                        open_quantity(pos_report@),
                        OrderType::MARKET,
                        None,
                        None,
                        None,
                        Some(pos_report.position_id@),
                        None,
                    ),
                    order_answer(id),
                    *now,
                    r,
                ),
    {
        let flat_long = pos_report.long_qty.is_zero();
        let (quantity, side) = if flat_long {
            (pos_report.short_qty, Side::BUY)
        } else {
            (pos_report.long_qty, Side::SELL)
        };
        let ghost report = pos_report@;
        let ghost lot = quantity@;
        let r = self.adjust_position_size(
            pos_report.position_id,
            pos_report.symbol_id,
            quantity,
            side,
            now,
        );
        proof {
            let id = choose|id: Seq<u8>|
                is_id_text(id) && #[trigger] requested(
                    old(self),
                    self,
                    ascii("D"),
                    new_order_fields(
                        id,
                        report.symbol_id,
                        side,
                        now.text(),
                        lot,
                        OrderType::MARKET,
                        None,
                        None,
                        None,
                        Some(report.position_id),
                        None,
                    ),
                    order_answer(id),
                    *now,
                    r,
                );
            assert(requested(
                old(self),
                self,
                ascii("D"),
                new_order_fields(
                    id,
                    report.symbol_id,
                    closing_side(report),
                    now.text(),
                    open_quantity(report),
                    OrderType::MARKET,
                    None,
                    None,
                    None,
                    Some(report.position_id),
                    None,
                ),
                order_answer(id),
                *now,
                r,
            ));
        }
        r
    }

    /// Asks to replace an order under the identifier `cl_ord_id` for the request. The
    /// order is named by `org_cl_ord_id` or by `order_id`; a request that names it by
    /// neither is refused with `MissingArgumentError` and leaves the client as it is.
    /// The answer is for `replace_reply`.
    pub fn replace_order_with(
        &mut self,
        org_cl_ord_id: Option<Vec<u8>>,
        order_id: Option<Vec<u8>>,
        cl_ord_id: Vec<u8>,
        order_qty: Decimal,
        price: Option<Decimal>,
        stop_px: Option<Decimal>,
        expire_time: Option<Timestamp>,
        now: &Timestamp,
    ) -> (r: Result<Exchange, Error>)
        requires
            old(self).wf(),
        ensures
            final(self).wf(),
            if org_cl_ord_id is None && order_id is None {
                &&& error_of(r) == Some(ErrorView::MissingArgumentError)
                &&& final(self).session() == old(self).session()
                &&& final(self).same_trade(old(self))
            } else {
                requested(
                    old(self),
                    final(self),
                    ascii("G"),
                    replace_fields(
                        first_of(bytes_view(org_cl_ord_id), bytes_view(order_id)),
                        Some(first_of(bytes_view(order_id), bytes_view(org_cl_ord_id))),
                        cl_ord_id@,
                        order_qty@,
                        decimal_view(price),
                        decimal_view(stop_px),
                        time_text(expire_time),
                    ),
                    replace_answer(bytes_view(org_cl_ord_id), bytes_view(order_id), cl_ord_id@),
                    *now,
                    r,
                )
            },
    {
        proof {
            reveal_strlit("8");
            reveal_strlit("j");
            reveal_strlit("9");
        }
        let (orgid, oid, first) = match (&org_cl_ord_id, &order_id) {
            (None, None) => {
                return Err(Error::MissingArgumentError);
            },
            (Some(a), Some(b)) => (
                copy_bytes(a.as_slice()),
                copy_bytes(b.as_slice()),
                expectation("8", Field::ClOrdId, a.as_slice()),
            ),
            (Some(a), None) => (
                copy_bytes(a.as_slice()),
                copy_bytes(a.as_slice()),
                expectation("8", Field::ClOrdId, a.as_slice()),
            ),
            (None, Some(b)) => (
                copy_bytes(b.as_slice()),
                copy_bytes(b.as_slice()),
                expectation("8", Field::OrderID, b.as_slice()),
            ),
        };
        let mut expects: Vec<Expectation> = Vec::new();
        expects.push(first);
        expects.push(expectation("j", Field::BusinessRejectRefID, cl_ord_id.as_slice()));
        expects.push(expectation("9", Field::ClOrdId, cl_ord_id.as_slice()));
        assert(expects_view(expects@) =~= replace_answer(
            bytes_view(org_cl_ord_id),
            bytes_view(order_id),
            cl_ord_id@,
        ));
        let req = OrderCancelReplaceReq::new(
            orgid,
            Some(oid),
            cl_ord_id,
            order_qty,
            price,
            stop_px,
            expire_time,
        );
        self.request(&req, expects, now)
    }

    /// Asks to replace an order under a fresh identifier for the request; see
    /// `replace_order_with`. A request that names no order is refused before anything
    /// else is done.
    pub fn replace_order(
        &mut self,
        org_cl_ord_id: Option<Vec<u8>>,
        order_id: Option<Vec<u8>>,
        order_qty: Decimal,
        price: Option<Decimal>,
        stop_px: Option<Decimal>,
        expire_time: Option<Timestamp>,
        now: &Timestamp,
    ) -> (r: Result<Exchange, Error>)
        requires
            old(self).wf(),
        ensures
            final(self).wf(),
            if org_cl_ord_id is None && order_id is None {
                &&& error_of(r) == Some(ErrorView::MissingArgumentError)
                &&& final(self).session() == old(self).session()
                &&& final(self).same_trade(old(self))
            } else {
                exists|id: Seq<u8>|
                    is_id_text(id) && #[trigger] requested(
                        old(self),
                        final(self),
                        ascii("G"),
                        replace_fields(
                            first_of(bytes_view(org_cl_ord_id), bytes_view(order_id)),
                            Some(first_of(bytes_view(order_id), bytes_view(org_cl_ord_id))),
                            id,
                            order_qty@,
                            decimal_view(price),
                            decimal_view(stop_px),
                            time_text(expire_time),
                        ),
                        replace_answer(bytes_view(org_cl_ord_id), bytes_view(order_id), id),
                        *now,
                        r,
                    )
            },
    {
        if org_cl_ord_id.is_none() && order_id.is_none() {
            return Err(Error::MissingArgumentError);
        }
        let id = create_unique_id();
        self.replace_order_with(
            org_cl_ord_id,
            order_id,
            id,
            order_qty,
            price,
            stop_px,
            expire_time,
            now,
        )
    }

    /// Asks to cancel an order under the identifier `cl_ord_id` for the request. The
    /// order is named by `org_cl_ord_id` or by `order_id`; a request that names it by
    /// neither is refused with `MissingArgumentError` and leaves the client as it is.
    /// The answer is for `cancel_reply`.
    pub fn cancel_order_with(
        &mut self,
        org_cl_ord_id: Option<Vec<u8>>,
        order_id: Option<Vec<u8>>,
        cl_ord_id: Vec<u8>,
        now: &Timestamp,
    ) -> (r: Result<Exchange, Error>)
        requires
            old(self).wf(),
        ensures
            final(self).wf(),
            if org_cl_ord_id is None && order_id is None {
                &&& error_of(r) == Some(ErrorView::MissingArgumentError)
                &&& final(self).session() == old(self).session()
                &&& final(self).same_trade(old(self))
            } else {
                requested(
                    old(self),
                    final(self),
                    ascii("F"),
                    cancel_fields(
                        first_of(bytes_view(org_cl_ord_id), bytes_view(order_id)),
                        Some(first_of(bytes_view(order_id), bytes_view(org_cl_ord_id))),
                        cl_ord_id@,
                    ),
                    cancel_answer(cl_ord_id@),
                    *now,
                    r,
                )
            },
    {
        proof {
            reveal_strlit("8");
            reveal_strlit("j");
            reveal_strlit("9");
        }
        let (orgid, oid) = match (&org_cl_ord_id, &order_id) {
            (None, None) => {
                return Err(Error::MissingArgumentError);
            },
            (Some(a), Some(b)) => (copy_bytes(a.as_slice()), copy_bytes(b.as_slice())),
            (Some(a), None) => (copy_bytes(a.as_slice()), copy_bytes(a.as_slice())),
            (None, Some(b)) => (copy_bytes(b.as_slice()), copy_bytes(b.as_slice())),
        };
        let mut expects: Vec<Expectation> = Vec::new();
        expects.push(expectation("8", Field::ClOrdId, cl_ord_id.as_slice()));
        expects.push(expectation("j", Field::BusinessRejectRefID, cl_ord_id.as_slice()));
        expects.push(expectation("9", Field::ClOrdId, cl_ord_id.as_slice()));
        assert(expects_view(expects@) =~= cancel_answer(cl_ord_id@));
        let req = OrderCancelReq::new(orgid, Some(oid), cl_ord_id);
        self.request(&req, expects, now)
    }

    /// Asks to cancel an order under a fresh identifier for the request; see
    /// `cancel_order_with`. A request that names no order is refused before anything
    /// else is done.
    pub fn cancel_order(
        &mut self,
        org_cl_ord_id: Option<Vec<u8>>,
        order_id: Option<Vec<u8>>,
        now: &Timestamp,
    ) -> (r: Result<Exchange, Error>)
        requires
            old(self).wf(),
        ensures
            final(self).wf(),
            if org_cl_ord_id is None && order_id is None {
                &&& error_of(r) == Some(ErrorView::MissingArgumentError)
                &&& final(self).session() == old(self).session()
                &&& final(self).same_trade(old(self))
            } else {
                exists|id: Seq<u8>|
                    is_id_text(id) && #[trigger] requested(
                        old(self),
                        final(self),
                        ascii("F"),
                        cancel_fields(
                            first_of(bytes_view(org_cl_ord_id), bytes_view(order_id)),
                            Some(first_of(bytes_view(order_id), bytes_view(org_cl_ord_id))),
                            id,
                        ),
                        cancel_answer(id),
                        *now,
                        r,
                    )
            },
    {
        if org_cl_ord_id.is_none() && order_id.is_none() {
            return Err(Error::MissingArgumentError);
        }
        let id = create_unique_id();
        self.cancel_order_with(org_cl_ord_id, order_id, id, now)
    }
}

/// What `newest_match` finds is an unread message that is awaited, and the newest such
/// before `upto`; where it finds nothing, there is none.
pub proof fn lemma_newest_match(
    queue: Seq<TimeoutItem>,
    expects: Seq<(Seq<u8>, Field, Seq<u8>)>,
    upto: int,
)
    requires
        0 <= upto <= queue.len(),
    ensures
        ({
            let at = newest_match(queue, expects, upto);
            &&& -1 <= at < upto
            &&& at >= 0 ==> !queue[at].read && awaited(&queue[at].item, expects)
            &&& forall|j: int|
                at < j < upto ==> (#[trigger] queue[j]).read || !awaited(&queue[j].item, expects)
        }),
    decreases upto,
{
    if upto > 0 && !(!queue[upto - 1].read && awaited(&queue[upto - 1].item, expects)) {
        lemma_newest_match(queue, expects, upto - 1);
    }
}

/// A request for the security list awaits the security list that carries its
/// identifier and nothing else: no other message, and no list that answers another
/// request, is taken for its answer.
pub proof fn lemma_security_list_answer(item: &ResponseMessage, id: Seq<u8>)
    ensures
        awaited(item, security_list_answer(id)) <==> (item.message_type() == Some(ascii("y"))
            && item.value(Field::SecurityReqID) == Some(id)),
{
    let expects = security_list_answer(id);
    if item.message_type() == Some(ascii("y")) && item.value(Field::SecurityReqID) == Some(id) {
        assert(expected(item, expects[0]));
    }
}

/// A request that timed out leaves nothing behind for the next one. Whatever stands in
/// the queue, a request for the security list under `id` is answered only by an
/// unread security list that carries `id`: a later list for an earlier request, and
/// any other message, is passed over, and where no such list waits nothing is taken.
pub proof fn lemma_only_its_answer_is_taken(queue: Seq<TimeoutItem>, id: Seq<u8>)
    ensures
        ({
            let at = newest_match(queue, security_list_answer(id), queue.len() as int);
            &&& at >= 0 ==> at < queue.len() && !queue[at].read && queue[at].item.message_type()
                == Some(ascii("y")) && queue[at].item.value(Field::SecurityReqID) == Some(id)
            &&& at == -1 <==> forall|j: int|
                0 <= j < queue.len() ==> (#[trigger] queue[j]).read || !(
                queue[j].item.message_type() == Some(ascii("y")) && queue[j].item.value(
                    Field::SecurityReqID,
                ) == Some(id))
        }),
{
    let expects = security_list_answer(id);
    let at = newest_match(queue, expects, queue.len() as int);
    lemma_newest_match(queue, expects, queue.len() as int);
    if at >= 0 {
        lemma_security_list_answer(&queue[at].item, id);
    }
    assert forall|j: int| 0 <= j < queue.len() implies awaited(
        &(#[trigger] queue[j]).item,
        expects,
    ) == (queue[j].item.message_type() == Some(ascii("y")) && queue[j].item.value(
        Field::SecurityReqID,
    ) == Some(id)) by {
        lemma_security_list_answer(&queue[j].item, id);
    }
}

} // verus!
