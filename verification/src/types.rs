//! The values that the clients exchange with their callers.

use vstd::prelude::*;
use vstd::string::*;
use crate::decimal::{decimal_view, Decimal};
use crate::messages::{groups_view, Group};
use crate::text::{ascii, copy_bytes, is_text, lit};
use crate::time::{millis_view, Timestamp};

pub use crate::field::Field;

verus! {

/// The FIX field delimiter, SOH.
pub const DELIMITER: u8 = 1;

/// What a client is made from. Nothing changes it afterwards.
#[derive(Debug)]
pub struct Config {
    pub host: Vec<u8>,
    pub username: Vec<u8>,
    pub password: Vec<u8>,
    pub sender_comp_id: Vec<u8>,
    pub heart_beat: u32,
}

impl Config {
    pub fn new(
        host: Vec<u8>,
        username: Vec<u8>,
        password: Vec<u8>,
        sender_comp_id: Vec<u8>,
        heart_beat: u32,
    ) -> (r: Config)
        ensures
            r.host == host,
            r.username == username,
            r.password == password,
            r.sender_comp_id == sender_comp_id,
            r.heart_beat == heart_beat,
    {
        Config { host, username, password, sender_comp_id, heart_beat }
    }

    /// A copy of the configuration.
    pub fn duplicate(&self) -> (r: Config)
        ensures
            r.host@ == self.host@,
            r.username@ == self.username@,
            r.password@ == self.password@,
            r.sender_comp_id@ == self.sender_comp_id@,
            r.heart_beat == self.heart_beat,
    {
        Config {
            host: copy_bytes(self.host.as_slice()),
            username: copy_bytes(self.username.as_slice()),
            password: copy_bytes(self.password.as_slice()),
            sender_comp_id: copy_bytes(self.sender_comp_id.as_slice()),
            heart_beat: self.heart_beat,
        }
    }
}

/// The role of a session: market data or trading.
#[derive(Debug, Clone, Copy, PartialEq, Eq, Structural)]
pub enum SubID {
    QUOTE,
    TRADE,
}

impl SubID {
    /// The role as the header fields `SenderSubID` and `TargetSubID` carry it.
    pub open spec fn text(self) -> Seq<u8> {
        match self {
            SubID::QUOTE => ascii("QUOTE"),
            SubID::TRADE => ascii("TRADE"),
        }
    }

    /// The TCP port of the role.
    pub open spec fn port_spec(self) -> u16 {
        match self {
            SubID::QUOTE => 5201,
            SubID::TRADE => 5202,
        }
    }

    pub fn to_bytes(self) -> (r: Vec<u8>)
        ensures
            r@ == self.text(),
    {
        proof {
            reveal_strlit("QUOTE");
            reveal_strlit("TRADE");
        }
        match self {
            SubID::QUOTE => lit("QUOTE"),
            SubID::TRADE => lit("TRADE"),
        }
    }

    /// Reads a role; any text but `QUOTE` and `TRADE` is refused.
    pub fn from_bytes(s: &[u8]) -> (r: Option<SubID>)
        ensures
            r == if s@ == ascii("QUOTE") {
                Some(SubID::QUOTE)
            } else if s@ == ascii("TRADE") {
                Some(SubID::TRADE)
            } else {
                None::<SubID>
            },
    {
        proof {
            reveal_strlit("QUOTE");
            reveal_strlit("TRADE");
        }
        if is_text(s, "QUOTE") {
            Some(SubID::QUOTE)
        } else if is_text(s, "TRADE") {
            Some(SubID::TRADE)
        } else {
            None
        }
    }

    #[verifier::when_used_as_spec(port_spec)]
    pub fn port(self) -> (r: u16)
        ensures
            r == self.port_spec(),
    {
        match self {
            SubID::QUOTE => 5201,
            SubID::TRADE => 5202,
        }
    }
}

/// The side of an order.
#[derive(Debug, Clone, Copy, PartialEq, Eq, Structural)]
pub enum Side {
    BUY,
    SELL,
}

impl Side {
    /// The number that stands for the side on the wire: 1 buys, 2 sells.
    pub open spec fn code_spec(self) -> u32 {
        match self {
            Side::BUY => 1,
            Side::SELL => 2,
        }
    }

    #[verifier::when_used_as_spec(code_spec)]
    pub fn code(self) -> (r: u32)
        ensures
            r == self.code_spec(),
    {
        match self {
            Side::BUY => 1,
            Side::SELL => 2,
        }
    }

    pub fn from_code(code: u32) -> (r: Option<Side>)
        ensures
            match r {
                Some(s) => s.code_spec() == code,
                None => code != 1 && code != 2,
            },
    {
        match code {
            1 => Some(Side::BUY),
            2 => Some(Side::SELL),
            _ => None,
        }
    }
}

impl Default for Side {
    fn default() -> (r: Side)
        ensures
            r == Side::BUY,
    {
        Side::BUY
    }
}

/// The malformed text that a conversion refused.
#[derive(Debug)]
pub struct ParseError(pub Vec<u8>);

/// The kind of an order.
#[allow(non_camel_case_types)]
#[derive(Debug, Clone, Copy, PartialEq, Eq, Structural)]
pub enum OrderType {
    MARKET,
    LIMIT,
    STOP,
    STOP_LIMIT,
}

impl OrderType {
    pub open spec fn code_spec(self) -> u32 {
        match self {
            OrderType::MARKET => 1,
            OrderType::LIMIT => 2,
            OrderType::STOP => 3,
            OrderType::STOP_LIMIT => 4,
        }
    }

    #[verifier::when_used_as_spec(code_spec)]
    pub fn code(self) -> (r: u32)
        ensures
            r == self.code_spec(),
    {
        match self {
            OrderType::MARKET => 1,
            OrderType::LIMIT => 2,
            OrderType::STOP => 3,
            OrderType::STOP_LIMIT => 4,
        }
    }

    /// What a text of the field `OrdType` denotes.
    pub open spec fn of_text(s: Seq<u8>) -> Option<OrderType> {
        if s == ascii("1") {
            Some(OrderType::MARKET)
        } else if s == ascii("2") {
            Some(OrderType::LIMIT)
        } else if s == ascii("3") {
            Some(OrderType::STOP)
        } else if s == ascii("4") {
            Some(OrderType::STOP_LIMIT)
        } else {
            None
        }
    }

    pub fn from_bytes(s: &[u8]) -> (r: Result<OrderType, ParseError>)
        ensures
            match r {
                Ok(t) => OrderType::of_text(s@) == Some(t),
                Err(e) => OrderType::of_text(s@) is None && e.0@ == s@,
            },
    {
        proof {
            reveal_strlit("1");
            reveal_strlit("2");
            reveal_strlit("3");
            reveal_strlit("4");
        }
        if is_text(s, "1") {
            Ok(OrderType::MARKET)
        } else if is_text(s, "2") {
            Ok(OrderType::LIMIT)
        } else if is_text(s, "3") {
            Ok(OrderType::STOP)
        } else if is_text(s, "4") {
            Ok(OrderType::STOP_LIMIT)
        } else {
            Err(ParseError(copy_bytes(s)))
        }
    }
}

impl Default for OrderType {
    fn default() -> (r: OrderType)
        ensures
            r == OrderType::MARKET,
    {
        OrderType::MARKET
    }
}

/// What an execution report reports.
#[derive(Debug, Clone, Copy, PartialEq, Eq, Structural)]
pub enum ExecutionType {
    OrderStatus,
    New,
    Canceled,
    Replace,
    Rejected,
    Expired,
    Trade,
}

impl ExecutionType {
    /// What a text of the field `ExecType` denotes.
    pub open spec fn of_text(s: Seq<u8>) -> Option<ExecutionType> {
        if s == ascii("0") {
            Some(ExecutionType::New)
        } else if s == ascii("4") {
            Some(ExecutionType::Canceled)
        } else if s == ascii("5") {
            Some(ExecutionType::Replace)
        } else if s == ascii("8") {
            Some(ExecutionType::Rejected)
        } else if s == ascii("C") {
            Some(ExecutionType::Expired)
        } else if s == ascii("F") {
            Some(ExecutionType::Trade)
        } else if s == ascii("I") {
            Some(ExecutionType::OrderStatus)
        } else {
            None
        }
    }

    pub fn from_bytes(s: &[u8]) -> (r: Result<ExecutionType, ParseError>)
        ensures
            match r {
                Ok(t) => ExecutionType::of_text(s@) == Some(t),
                Err(e) => ExecutionType::of_text(s@) is None && e.0@ == s@,
            },
    {
        proof {
            reveal_strlit("0");
            reveal_strlit("4");
            reveal_strlit("5");
            reveal_strlit("8");
            reveal_strlit("C");
            reveal_strlit("F");
            reveal_strlit("I");
        }
        if is_text(s, "0") {
            Ok(ExecutionType::New)
        } else if is_text(s, "4") {
            Ok(ExecutionType::Canceled)
        } else if is_text(s, "5") {
            Ok(ExecutionType::Replace)
        } else if is_text(s, "8") {
            Ok(ExecutionType::Rejected)
        } else if is_text(s, "C") {
            Ok(ExecutionType::Expired)
        } else if is_text(s, "F") {
            Ok(ExecutionType::Trade)
        } else if is_text(s, "I") {
            Ok(ExecutionType::OrderStatus)
        } else {
            Err(ParseError(copy_bytes(s)))
        }
    }
}

/// Where an order stands.
#[derive(Debug, Clone, Copy, PartialEq, Eq, Structural)]
pub enum OrderStatus {
    New,
    ParitallyFilled,
    Filled,
    Rejected,
    Cancelled,
    Expired,
}

impl OrderStatus {
    /// What a text of the field `OrdStatus` denotes.
    pub open spec fn of_text(s: Seq<u8>) -> Option<OrderStatus> {
        if s == ascii("0") {
            Some(OrderStatus::New)
        } else if s == ascii("1") {
            Some(OrderStatus::ParitallyFilled)
        } else if s == ascii("2") {
            Some(OrderStatus::Filled)
        } else if s == ascii("8") {
            Some(OrderStatus::Rejected)
        } else if s == ascii("4") {
            Some(OrderStatus::Cancelled)
        } else if s == ascii("C") {
            Some(OrderStatus::Expired)
        } else {
            None
        }
    }

    pub fn from_bytes(s: &[u8]) -> (r: Result<OrderStatus, ParseError>)
        ensures
            match r {
                Ok(t) => OrderStatus::of_text(s@) == Some(t),
                Err(e) => OrderStatus::of_text(s@) is None && e.0@ == s@,
            },
    {
        proof {
            reveal_strlit("0");
            reveal_strlit("1");
            reveal_strlit("2");
            reveal_strlit("8");
            reveal_strlit("4");
            reveal_strlit("C");
        }
        if is_text(s, "0") {
            Ok(OrderStatus::New)
        } else if is_text(s, "1") {
            Ok(OrderStatus::ParitallyFilled)
        } else if is_text(s, "2") {
            Ok(OrderStatus::Filled)
        } else if is_text(s, "8") {
            Ok(OrderStatus::Rejected)
        } else if is_text(s, "4") {
            Ok(OrderStatus::Cancelled)
        } else if is_text(s, "C") {
            Ok(OrderStatus::Expired)
        } else {
            Err(ParseError(copy_bytes(s)))
        }
    }
}

/// How long an order stays in force.
#[derive(Debug, Clone, Copy, PartialEq, Eq, Structural)]
pub enum TimeInForce {
    GoodTillCancel,
    ImmediateOrCancel,
    GoodTillDate,
}

impl TimeInForce {
    pub open spec fn code_spec(self) -> u32 {
        match self {
            TimeInForce::GoodTillCancel => 1,
            TimeInForce::ImmediateOrCancel => 3,
            TimeInForce::GoodTillDate => 6,
        }
    }

    #[verifier::when_used_as_spec(code_spec)]
    pub fn code(self) -> (r: u32)
        ensures
            r == self.code_spec(),
    {
        match self {
            TimeInForce::GoodTillCancel => 1,
            TimeInForce::ImmediateOrCancel => 3,
            TimeInForce::GoodTillDate => 6,
        }
    }

    pub fn from_code(code: u32) -> (r: Option<TimeInForce>)
        ensures
            match r {
                Some(t) => t.code_spec() == code,
                None => code != 1 && code != 3 && code != 6,
            },
    {
        match code {
            1 => Some(TimeInForce::GoodTillCancel),
            3 => Some(TimeInForce::ImmediateOrCancel),
            6 => Some(TimeInForce::GoodTillDate),
            _ => None,
        }
    }
}

/// The two kinds of market data subscription.
#[derive(Debug, Clone, Copy, PartialEq, Eq, Structural)]
pub enum MarketType {
    Spot,
    Depth,
}

impl MarketType {
    pub open spec fn text(self) -> Seq<u8> {
        match self {
            MarketType::Spot => ascii("Spot"),
            MarketType::Depth => ascii("Depth"),
        }
    }

    /// The name of the kind, as messages to the user show it.
    pub fn to_bytes(self) -> (r: Vec<u8>)
        ensures
            r@ == self.text(),
    {
        proof {
            reveal_strlit("Spot");
            reveal_strlit("Depth");
        }
        match self {
            MarketType::Spot => lit("Spot"),
            MarketType::Depth => lit("Depth"),
        }
    }
}

/// The side of the book that a price stands on.
#[derive(Debug, Clone, Copy, PartialEq, Eq, Structural)]
pub enum PriceType {
    Bid,
    Ask,
}

impl PriceType {
    /// What a text of the field `MDEntryType` denotes.
    pub open spec fn of_text(s: Seq<u8>) -> Option<PriceType> {
        if s == ascii("0") {
            Some(PriceType::Bid)
        } else if s == ascii("1") {
            Some(PriceType::Ask)
        } else {
            None
        }
    }

    pub fn from_bytes(s: &[u8]) -> (r: Option<PriceType>)
        ensures
            r == PriceType::of_text(s@),
    {
        proof {
            reveal_strlit("0");
            reveal_strlit("1");
        }
        if is_text(s, "0") {
            Some(PriceType::Bid)
        } else if is_text(s, "1") {
            Some(PriceType::Ask)
        } else {
            None
        }
    }
}

/// One tradable symbol of the venue's security list.
#[derive(Debug)]
pub struct SymbolInformation {
    pub id: u32,
    pub name: Vec<u8>,
    pub digits: u32,
}

/// One open position.
#[derive(Debug)]
pub struct PositionReport {
    pub symbol_id: u32,
    pub position_id: Vec<u8>,
    pub long_qty: Decimal,
    pub short_qty: Decimal,
    pub settle_price: Decimal,
    pub absolute_tp: Option<Decimal>,
    pub absolute_sl: Option<Decimal>,
    pub trailing_sl: Option<bool>,
    pub trigger_method_sl: Option<u32>,
    pub guaranteed_sl: Option<bool>,
}

/// The order that an execution report speaks of. Each field is named after the FIX
/// field that it is read from.
#[derive(Debug)]
pub struct OrderReport {
    pub symbol: u32,
    pub order_id: Vec<u8>,
    pub cl_ord_id: Vec<u8>,
    pub pos_main_rept_id: Vec<u8>,
    pub designation: Option<Vec<u8>>,
    pub order_status: OrderStatus,
    pub order_type: OrderType,
    pub side: Side,
    pub price: Option<Decimal>,
    pub stop_px: Option<Decimal>,
    pub avx_px: Option<Decimal>,
    pub absolute_tp: Option<Decimal>,
    pub reltative_tp: Option<Decimal>,
    pub absolute_sl: Option<Decimal>,
    pub reltative_sl: Option<Decimal>,
    pub trailing_sl: Option<bool>,
    pub trigger_method_sl: Option<u32>,
    pub guaranteed_sl: Option<bool>,
    pub cum_qty: Option<Decimal>,
    pub order_qty: Decimal,
    pub leaves_qty: Decimal,
    pub last_qty: Option<Decimal>,
    pub time_in_force: Vec<u8>,
    pub transact_time: Timestamp,
    pub expire_time: Option<Timestamp>,
    pub text: Option<Vec<u8>>,
}

/// An execution report of the trade session.
#[derive(Debug)]
pub struct ExecutionReport {
    pub exec_type: ExecutionType,
    pub order_report: OrderReport,
}

/// The last known bid and ask of a symbol.
#[derive(Debug)]
pub struct SpotPrice {
    pub bid: Decimal,
    pub ask: Decimal,
}

/// One entry of a depth book.
#[derive(Debug)]
pub struct DepthPrice {
    pub price_type: PriceType,
    pub price: Decimal,
    pub size: Decimal,
}

/// What a client reports to its caller.
#[derive(Debug)]
pub enum Error {
    NotConnected,
    LoggedOut,
    FieldNotFoundError(Field),
    MissingArgumentError,
    OrderFailed(Vec<u8>),
    OrderCancelRejected(Vec<u8>),
    SubscriptionError(u32, Vec<u8>, MarketType),
    SubscribedAlready(u32, MarketType),
    RequestingSubscription(u32, MarketType),
    NotSubscribed(u32, MarketType),
    TimeoutError,
    RequestRejected(Vec<u8>),
    NoResponse,
    UnknownError,
}

/// One change to a depth book.
#[derive(Debug)]
pub enum IncrementalRefresh {
    New { symbol_id: u32, entry_id: Vec<u8>, data: DepthPrice },
    Delete { symbol_id: u32, entry_id: Vec<u8> },
}

/// A market data message as the session hands it to the quote client: a snapshot (`W`)
/// or an incremental refresh (`X`) with its entries, or a reject (`Y`).
#[derive(Debug)]
pub enum InternalMDResult {
    MD { msg_type: u8, symbol_id: u32, data: Vec<Group> },
    MDReject { symbol_id: u32, md_req_id: Vec<u8>, err_msg: Vec<u8> },
}

/// What a market data message holds, as the contracts speak of it.
pub enum MarketDataView {
    MD { msg_type: u8, symbol_id: u32, data: Seq<Map<u32, Seq<u8>>> },
    MDReject { symbol_id: u32, md_req_id: Seq<u8>, err_msg: Seq<u8> },
}

impl View for InternalMDResult {
    type V = MarketDataView;

    open spec fn view(&self) -> MarketDataView {
        match *self {
            InternalMDResult::MD { msg_type, symbol_id, data } => MarketDataView::MD {
                msg_type,
                symbol_id,
                data: groups_view(data@),
            },
            InternalMDResult::MDReject { symbol_id, md_req_id, err_msg } => MarketDataView::MDReject {
                symbol_id,
                md_req_id: md_req_id@,
                err_msg: err_msg@,
            },
        }
    }
}

/// A symbol of the security list as the contracts speak of it.
pub struct SymbolView {
    pub id: u32,
    pub name: Seq<u8>,
    pub digits: u32,
}

impl View for SymbolInformation {
    type V = SymbolView;

    open spec fn view(&self) -> SymbolView {
        SymbolView { id: self.id, name: self.name@, digits: self.digits }
    }
}

/// A position as the contracts speak of it.
pub struct PositionView {
    pub symbol_id: u32,
    pub position_id: Seq<u8>,
    pub long_qty: Seq<u8>,
    pub short_qty: Seq<u8>,
    pub settle_price: Seq<u8>,
    pub absolute_tp: Option<Seq<u8>>,
    pub absolute_sl: Option<Seq<u8>>,
    pub trailing_sl: Option<bool>,
    pub trigger_method_sl: Option<u32>,
    pub guaranteed_sl: Option<bool>,
}

impl View for PositionReport {
    type V = PositionView;

    open spec fn view(&self) -> PositionView {
        PositionView {
            symbol_id: self.symbol_id,
            position_id: self.position_id@,
            long_qty: self.long_qty@,
            short_qty: self.short_qty@,
            settle_price: self.settle_price@,
            absolute_tp: decimal_view(self.absolute_tp),
            absolute_sl: decimal_view(self.absolute_sl),
            trailing_sl: self.trailing_sl,
            trigger_method_sl: self.trigger_method_sl,
            guaranteed_sl: self.guaranteed_sl,
        }
    }
}

/// An order report as the contracts speak of it; times are in milliseconds after the
/// Unix epoch.
pub struct OrderView {
    pub symbol: u32,
    pub order_id: Seq<u8>,
    pub cl_ord_id: Seq<u8>,
    pub pos_main_rept_id: Seq<u8>,
    pub designation: Option<Seq<u8>>,
    pub order_status: OrderStatus,
    pub order_type: OrderType,
    pub side: Side,
    pub price: Option<Seq<u8>>,
    pub stop_px: Option<Seq<u8>>,
    pub avx_px: Option<Seq<u8>>,
    pub absolute_tp: Option<Seq<u8>>,
    pub reltative_tp: Option<Seq<u8>>,
    pub absolute_sl: Option<Seq<u8>>,
    pub reltative_sl: Option<Seq<u8>>,
    pub trailing_sl: Option<bool>,
    pub trigger_method_sl: Option<u32>,
    pub guaranteed_sl: Option<bool>,
    pub cum_qty: Option<Seq<u8>>,
    pub order_qty: Seq<u8>,
    pub leaves_qty: Seq<u8>,
    pub last_qty: Option<Seq<u8>>,
    pub time_in_force: Seq<u8>,
    pub transact_time: i64,
    pub expire_time: Option<i64>,
    pub text: Option<Seq<u8>>,
}

impl View for OrderReport {
    type V = OrderView;

    open spec fn view(&self) -> OrderView {
        OrderView {
            symbol: self.symbol,
            order_id: self.order_id@,
            cl_ord_id: self.cl_ord_id@,
            pos_main_rept_id: self.pos_main_rept_id@,
            designation: bytes_view(self.designation),
            order_status: self.order_status,
            order_type: self.order_type,
            side: self.side,
            price: decimal_view(self.price),
            stop_px: decimal_view(self.stop_px),
            avx_px: decimal_view(self.avx_px),
            absolute_tp: decimal_view(self.absolute_tp),
            reltative_tp: decimal_view(self.reltative_tp),
            absolute_sl: decimal_view(self.absolute_sl),
            reltative_sl: decimal_view(self.reltative_sl),
            trailing_sl: self.trailing_sl,
            trigger_method_sl: self.trigger_method_sl,
            guaranteed_sl: self.guaranteed_sl,
            cum_qty: decimal_view(self.cum_qty),
            order_qty: self.order_qty@,
            leaves_qty: self.leaves_qty@,
            last_qty: decimal_view(self.last_qty),
            time_in_force: self.time_in_force@,
            transact_time: self.transact_time.millis_spec(),
            expire_time: millis_view(self.expire_time),
            text: bytes_view(self.text),
        }
    }
}

/// An execution report as the contracts speak of it.
pub struct ReportView {
    pub exec_type: ExecutionType,
    pub order_report: OrderView,
}

impl View for ExecutionReport {
    type V = ReportView;

    open spec fn view(&self) -> ReportView {
        ReportView { exec_type: self.exec_type, order_report: self.order_report@ }
    }
}

/// An error as the contracts speak of it.
pub enum ErrorView {
    NotConnected,
    LoggedOut,
    FieldNotFoundError(Field),
    MissingArgumentError,
    OrderFailed(Seq<u8>),
    OrderCancelRejected(Seq<u8>),
    SubscriptionError(u32, Seq<u8>, MarketType),
    SubscribedAlready(u32, MarketType),
    RequestingSubscription(u32, MarketType),
    NotSubscribed(u32, MarketType),
    TimeoutError,
    RequestRejected(Seq<u8>),
    NoResponse,
    UnknownError,
}

impl View for Error {
    type V = ErrorView;

    open spec fn view(&self) -> ErrorView {
        match *self {
            Error::NotConnected => ErrorView::NotConnected,
            Error::LoggedOut => ErrorView::LoggedOut,
            Error::FieldNotFoundError(f) => ErrorView::FieldNotFoundError(f),
            Error::MissingArgumentError => ErrorView::MissingArgumentError,
            Error::OrderFailed(text) => ErrorView::OrderFailed(text@),
            Error::OrderCancelRejected(text) => ErrorView::OrderCancelRejected(text@),
            Error::SubscriptionError(s, text, m) => ErrorView::SubscriptionError(s, text@, m),
            Error::SubscribedAlready(s, m) => ErrorView::SubscribedAlready(s, m),
            Error::RequestingSubscription(s, m) => ErrorView::RequestingSubscription(s, m),
            Error::NotSubscribed(s, m) => ErrorView::NotSubscribed(s, m),
            Error::TimeoutError => ErrorView::TimeoutError,
            Error::RequestRejected(text) => ErrorView::RequestRejected(text@),
            Error::NoResponse => ErrorView::NoResponse,
            Error::UnknownError => ErrorView::UnknownError,
        }
    }
}

/// The error of a result, if it is one.
pub open spec fn error_of<T>(r: Result<T, Error>) -> Option<ErrorView> {
    match r {
        Ok(_) => None,
        Err(e) => Some(e@),
    }
}

/// The view of an optional byte string.
pub open spec fn bytes_view(v: Option<Vec<u8>>) -> Option<Seq<u8>> {
    match v {
        Some(b) => Some(b@),
        None => None,
    }
}

} // verus!
