//! The quote client: subscriptions to spot prices and depth books, and the last known
//! market data of each subscribed symbol.

use vstd::prelude::*;
use vstd::string::*;
use std::collections::HashMap;
use crate::book::{copy_price, lemma_insert_then_remove, price_view, DepthBook};
use crate::decimal::{is_decimal_text, Decimal};
use crate::field::Field;
use crate::fixapi::{
    beating, dialed, dialing, dispatched, given_up, logging_on, logging_out, outcome_view, sent,
    Dispatch, FixApi, SessionState,
};
use crate::ident::{create_unique_id, is_id_text};
use crate::messages::{groups_view, Group, ResponseMessage};
use crate::requests::{MarketDataReq, RequestMessage};
use crate::subscriptions::{
    is_accepted, is_requested, pending_symbol, promoted, rejected, RequestState, StateView,
    Subscriptions,
};
use crate::text::{
    ascii, copy_bytes, decimal, is_text, lit, parse_u32, parse_u32_spec, ZERO,
};
use crate::time::Timestamp;
use crate::types::{
    error_of, DepthPrice, Error, ErrorView, IncrementalRefresh, InternalMDResult, MarketDataView, MarketType,
    PriceType, SpotPrice, SubID, };

verus! {

/// A spot price as the contracts speak of it: the bid and the ask.
pub open spec fn spot_view(p: SpotPrice) -> (Seq<u8>, Seq<u8>) {
    (p.bid@, p.ask@)
}

/// A change to a depth book as the contracts speak of it.
pub enum RefreshView {
    New { symbol_id: u32, entry_id: Seq<u8>, data: (PriceType, Seq<u8>, Seq<u8>) },
    Delete { symbol_id: u32, entry_id: Seq<u8> },
}

impl View for IncrementalRefresh {
    type V = RefreshView;

    open spec fn view(&self) -> RefreshView {
        match *self {
            IncrementalRefresh::New { symbol_id, entry_id, data } => RefreshView::New {
                symbol_id,
                entry_id: entry_id@,
                data: price_view(data),
            },
            IncrementalRefresh::Delete { symbol_id, entry_id } => RefreshView::Delete {
                symbol_id,
                entry_id: entry_id@,
            },
        }
    }
}

impl RefreshView {
    pub open spec fn symbol(self) -> u32 {
        match self {
            RefreshView::New { symbol_id, .. } => symbol_id,
            RefreshView::Delete { symbol_id, .. } => symbol_id,
        }
    }
}

/// The views of a list of changes.
pub open spec fn refresh_view(v: Seq<IncrementalRefresh>) -> Seq<RefreshView> {
    Seq::new(v.len(), |i: int| v[i]@)
}

/// What the quote client tells its caller's handler.
#[derive(Debug)]
pub enum MarketEvent {
    AcceptedSpotSubscription(u32),
    AcceptedDepthSubscription(u32),
    RejectedSpotSubscription(u32, Vec<u8>),
    RejectedDepthSubscription(u32, Vec<u8>),
    PriceOf(u32, SpotPrice),
    MarketDepthFullRefresh(u32, DepthBook),
    MarketDepthIncrementalRefresh(Vec<IncrementalRefresh>),
}

/// An event as the contracts speak of it.
pub enum EventView {
    AcceptedSpotSubscription(u32),
    AcceptedDepthSubscription(u32),
    RejectedSpotSubscription(u32, Seq<u8>),
    RejectedDepthSubscription(u32, Seq<u8>),
    PriceOf(u32, (Seq<u8>, Seq<u8>)),
    MarketDepthFullRefresh(u32, Map<Seq<u8>, (PriceType, Seq<u8>, Seq<u8>)>),
    MarketDepthIncrementalRefresh(Seq<RefreshView>),
}

impl View for MarketEvent {
    type V = EventView;

    open spec fn view(&self) -> EventView {
        match *self {
            MarketEvent::AcceptedSpotSubscription(s) => EventView::AcceptedSpotSubscription(s),
            MarketEvent::AcceptedDepthSubscription(s) => EventView::AcceptedDepthSubscription(s),
            MarketEvent::RejectedSpotSubscription(s, text) => EventView::RejectedSpotSubscription(
                s,
                text@,
            ),
            MarketEvent::RejectedDepthSubscription(s, text) => EventView::RejectedDepthSubscription(
                s,
                text@,
            ),
            MarketEvent::PriceOf(s, p) => EventView::PriceOf(s, spot_view(p)),
            MarketEvent::MarketDepthFullRefresh(s, book) => EventView::MarketDepthFullRefresh(
                s,
                book@,
            ),
            MarketEvent::MarketDepthIncrementalRefresh(list) => EventView::MarketDepthIncrementalRefresh(
                refresh_view(list@),
            ),
        }
    }
}

/// True when the books that the events carry are well-formed.
pub open spec fn events_wf(v: Seq<MarketEvent>) -> bool {
    forall|i: int|
        0 <= i < v.len() ==> match #[trigger] v[i] {
            MarketEvent::MarketDepthFullRefresh(_, book) => book.wf(),
            _ => true,
        }
}

/// The views of a list of events.
pub open spec fn events_view(v: Seq<MarketEvent>) -> Seq<EventView> {
    Seq::new(v.len(), |i: int| v[i]@)
}

/// The side, price and size that an entry carries, if it carries all three well-formed.
pub open spec fn entry_price(e: Map<u32, Seq<u8>>) -> Option<(PriceType, Seq<u8>, Seq<u8>)> {
    if e.contains_key(Field::MDEntryType.tag_spec()) && e.contains_key(
        Field::MDEntryPx.tag_spec(),
    ) && e.contains_key(Field::MDEntrySize.tag_spec()) && PriceType::of_text(
        e[Field::MDEntryType.tag_spec()],
    ) is Some && is_decimal_text(e[Field::MDEntryPx.tag_spec()]) && is_decimal_text(
        e[Field::MDEntrySize.tag_spec()],
    ) {
        Some(
            (
                PriceType::of_text(e[Field::MDEntryType.tag_spec()])->0,
                e[Field::MDEntryPx.tag_spec()],
                e[Field::MDEntrySize.tag_spec()],
            ),
        )
    } else {
        None
    }
}

/// The book entry that an entry of a depth snapshot denotes: it has at least four
/// fields, among them the entry id and a well-formed side, price and size. Other
/// entries are passed over.
pub open spec fn depth_entry(e: Map<u32, Seq<u8>>) -> Option<
    (Seq<u8>, (PriceType, Seq<u8>, Seq<u8>)),
> {
    if e.len() >= 4 && e.contains_key(Field::MDEntryID.tag_spec()) && entry_price(e) is Some {
        Some((e[Field::MDEntryID.tag_spec()], entry_price(e)->0))
    } else {
        None
    }
}

/// The book that a depth snapshot describes: each entry under its id, a later entry in
/// place of an earlier one with the same id.
pub open spec fn snapshot_book(data: Seq<Map<u32, Seq<u8>>>) -> Map<
    Seq<u8>,
    (PriceType, Seq<u8>, Seq<u8>),
>
    decreases data.len(),
{
    if data.len() == 0 {
        Map::empty()
    } else {
        let earlier = snapshot_book(data.drop_last());
        match depth_entry(data.last()) {
            Some(entry) => earlier.insert(entry.0, entry.1),
            None => earlier,
        }
    }
}

/// What one entry of a spot snapshot makes of a price: a well-formed price of type
/// `0` is the bid, one of another type the ask.
pub open spec fn spot_step(p: (Seq<u8>, Seq<u8>), e: Map<u32, Seq<u8>>) -> Option<
    (Seq<u8>, Seq<u8>),
> {
    if e.contains_key(Field::MDEntryPx.tag_spec()) && e.contains_key(
        Field::MDEntryType.tag_spec(),
    ) && is_decimal_text(e[Field::MDEntryPx.tag_spec()]) {
        if e[Field::MDEntryType.tag_spec()] == ascii("0") {
            Some((e[Field::MDEntryPx.tag_spec()], p.1))
        } else {
            Some((p.0, e[Field::MDEntryPx.tag_spec()]))
        }
    } else {
        None
    }
}

/// The spot price that a snapshot carries in its first two entries; a side that
/// neither entry names is `0`. Nothing where there are fewer than two entries or one of
/// the two lacks its type or a well-formed price.
pub open spec fn spot_price(data: Seq<Map<u32, Seq<u8>>>) -> Option<(Seq<u8>, Seq<u8>)> {
    if data.len() >= 2 {
        match spot_step((seq![ZERO], seq![ZERO]), data[0]) {
            Some(p) => spot_step(p, data[1]),
            None => None,
        }
    } else {
        None
    }
}

/// True when a snapshot is a spot snapshot: it has entries, and the first has no
/// entry id.
pub open spec fn is_spot_snapshot(data: Seq<Map<u32, Seq<u8>>>) -> bool {
    data.len() != 0 && !data[0].contains_key(Field::MDEntryID.tag_spec())
}

/// The change that an entry of an incremental refresh denotes: action `0` with a
/// complete entry is `New`, action `2` is `Delete`; both need the symbol and the
/// entry id. Other entries are passed over.
pub open spec fn refresh_entry(e: Map<u32, Seq<u8>>) -> Option<RefreshView> {
    if e.contains_key(Field::Symbol.tag_spec()) && parse_u32_spec(e[Field::Symbol.tag_spec()])
        is Some && e.contains_key(Field::MDUpdateAction.tag_spec()) && e.contains_key(
        Field::MDEntryID.tag_spec(),
    ) {
        let symbol_id = parse_u32_spec(e[Field::Symbol.tag_spec()])->0;
        let entry_id = e[Field::MDEntryID.tag_spec()];
        if e[Field::MDUpdateAction.tag_spec()] == ascii("2") {
            Some(RefreshView::Delete { symbol_id, entry_id })
        } else if e[Field::MDUpdateAction.tag_spec()] == ascii("0") && entry_price(e) is Some {
            Some(RefreshView::New { symbol_id, entry_id, data: entry_price(e)->0 })
        } else {
            None
        }
    } else {
        None
    }
}

/// The changes of an incremental refresh, in message order: those of well-formed
/// entries whose symbol has an accepted depth subscription.
pub open spec fn refresh_list(data: Seq<Map<u32, Seq<u8>>>, states: Map<u32, StateView>) -> Seq<
    RefreshView,
>
    decreases data.len(),
{
    if data.len() == 0 {
        Seq::empty()
    } else {
        let earlier = refresh_list(data.drop_last(), states);
        match refresh_entry(data.last()) {
            Some(change) => if is_accepted(states, change.symbol()) {
                earlier.push(change)
            } else {
                earlier
            },
            None => earlier,
        }
    }
}

/// The book of `symbol`, empty if it has none.
pub open spec fn book_of(
    books: Map<u32, Map<Seq<u8>, (PriceType, Seq<u8>, Seq<u8>)>>,
    symbol: u32,
) -> Map<Seq<u8>, (PriceType, Seq<u8>, Seq<u8>)> {
    if books.contains_key(symbol) {
        books[symbol]
    } else {
        Map::empty()
    }
}

/// The books after one change.
pub open spec fn apply_change(
    books: Map<u32, Map<Seq<u8>, (PriceType, Seq<u8>, Seq<u8>)>>,
    change: RefreshView,
) -> Map<u32, Map<Seq<u8>, (PriceType, Seq<u8>, Seq<u8>)>> {
    match change {
        RefreshView::New { symbol_id, entry_id, data } => books.insert(
            symbol_id,
            book_of(books, symbol_id).insert(entry_id, data),
        ),
        RefreshView::Delete { symbol_id, entry_id } => books.insert(
            symbol_id,
            book_of(books, symbol_id).remove(entry_id),
        ),
    }
}

/// The books after the changes of `list`, applied in order.
pub open spec fn apply_changes(
    books: Map<u32, Map<Seq<u8>, (PriceType, Seq<u8>, Seq<u8>)>>,
    list: Seq<RefreshView>,
) -> Map<u32, Map<Seq<u8>, (PriceType, Seq<u8>, Seq<u8>)>>
    decreases list.len(),
{
    if list.len() == 0 {
        books
    } else {
        apply_change(apply_changes(books, list.drop_last()), list.last())
    }
}

/// The spot prices of the symbols, as the contracts speak of them.
pub open spec fn prices_view(m: Map<u32, SpotPrice>) -> Map<u32, (Seq<u8>, Seq<u8>)> {
    m.map_values(|p: SpotPrice| spot_view(p))
}

/// The depth books of the symbols, as the contracts speak of them.
pub open spec fn books_view(m: Map<u32, DepthBook>) -> Map<
    u32,
    Map<Seq<u8>, (PriceType, Seq<u8>, Seq<u8>)>,
> {
    m.map_values(|b: DepthBook| b@)
}

/// What the client tells the handler for a market data message, in this order.
pub open spec fn market_events(
    spot: Map<u32, StateView>,
    depth: Map<u32, StateView>,
    md: MarketDataView,
) -> Seq<EventView> {
    match md {
        MarketDataView::MD { msg_type, symbol_id, data } => if msg_type == 87 {
            if is_spot_snapshot(data) {
                (if is_requested(spot, symbol_id) {
                    seq![EventView::AcceptedSpotSubscription(symbol_id)]
                } else {
                    Seq::empty()
                }) + (match spot_price(data) {
                    Some(p) => seq![EventView::PriceOf(symbol_id, p)],
                    None => Seq::empty(),
                })
            } else {
                (if is_requested(depth, symbol_id) {
                    seq![EventView::AcceptedDepthSubscription(symbol_id)]
                } else {
                    Seq::empty()
                }) + (if is_accepted(promoted(depth, symbol_id), symbol_id) {
                    seq![EventView::MarketDepthFullRefresh(symbol_id, snapshot_book(data))]
                } else {
                    Seq::empty()
                })
            }
        } else if msg_type == 88 && is_accepted(depth, symbol_id) {
            seq![EventView::MarketDepthIncrementalRefresh(refresh_list(data, depth))]
        } else {
            Seq::empty()
        },
        MarketDataView::MDReject { symbol_id, md_req_id, err_msg } => (match pending_symbol(
            spot,
            md_req_id,
        ) {
            Some(s) => seq![EventView::RejectedSpotSubscription(s, err_msg)],
            None => Seq::empty(),
        }) + (match pending_symbol(depth, md_req_id) {
            Some(s) => seq![EventView::RejectedDepthSubscription(s, err_msg)],
            None => Seq::empty(),
        }),
    }
}

/// The spot subscriptions after a market data message.
pub open spec fn spot_states_after(spot: Map<u32, StateView>, md: MarketDataView) -> Map<
    u32,
    StateView,
> {
    match md {
        MarketDataView::MD { msg_type, symbol_id, data } => if msg_type == 87 && is_spot_snapshot(
            data,
        ) {
            promoted(spot, symbol_id)
        } else {
            spot
        },
        MarketDataView::MDReject { symbol_id, md_req_id, err_msg } => rejected(spot, md_req_id),
    }
}

/// The depth subscriptions after a market data message.
pub open spec fn depth_states_after(depth: Map<u32, StateView>, md: MarketDataView) -> Map<
    u32,
    StateView,
> {
    match md {
        MarketDataView::MD { msg_type, symbol_id, data } => if msg_type == 87 && !is_spot_snapshot(
            data,
        ) {
            promoted(depth, symbol_id)
        } else {
            depth
        },
        MarketDataView::MDReject { symbol_id, md_req_id, err_msg } => rejected(depth, md_req_id),
    }
}

/// The spot prices after a market data message.
pub open spec fn spot_prices_after(
    prices: Map<u32, (Seq<u8>, Seq<u8>)>,
    md: MarketDataView,
) -> Map<u32, (Seq<u8>, Seq<u8>)> {
    match md {
        MarketDataView::MD { msg_type, symbol_id, data } => if msg_type == 87 && is_spot_snapshot(
            data,
        ) {
            match spot_price(data) {
                Some(p) => prices.insert(symbol_id, p),
                None => prices,
            }
        } else {
            prices
        },
        MarketDataView::MDReject { .. } => prices,
    }
}

/// The depth books after a market data message.
pub open spec fn depth_books_after(
    books: Map<u32, Map<Seq<u8>, (PriceType, Seq<u8>, Seq<u8>)>>,
    depth: Map<u32, StateView>,
    md: MarketDataView,
) -> Map<u32, Map<Seq<u8>, (PriceType, Seq<u8>, Seq<u8>)>> {
    match md {
        MarketDataView::MD { msg_type, symbol_id, data } => if msg_type == 87 {
            if !is_spot_snapshot(data) && is_accepted(promoted(depth, symbol_id), symbol_id) {
                books.insert(symbol_id, snapshot_book(data))
            } else {
                books
            }
        } else if msg_type == 88 && is_accepted(depth, symbol_id) {
            apply_changes(books, refresh_list(data, depth))
        } else {
            books
        },
        MarketDataView::MDReject { .. } => books,
    }
}

/// A depth book exists only for a symbol whose depth subscription is accepted.
pub open spec fn consistent(
    depth: Map<u32, StateView>,
    books: Map<u32, Map<Seq<u8>, (PriceType, Seq<u8>, Seq<u8>)>>,
) -> bool {
    forall|s: u32| books.contains_key(s) ==> is_accepted(depth, s)
}


/// The body of a market data request for one symbol, bid and ask.
pub open spec fn market_data_request(
    md_req_id: Seq<u8>,
    subscription_req_type: u8,
    market_depth: u32,
    symbol_id: u32,
) -> Seq<(u32, Seq<u8>)> {
    seq![
        (Field::MDReqID.tag_spec(), md_req_id),
        (Field::SubscriptionRequestType.tag_spec(), seq![subscription_req_type]),
        (Field::MarketDepth.tag_spec(), decimal(market_depth as nat)),
        (Field::NoMDEntryTypes.tag_spec(), decimal(2)),
        (Field::MDEntryType.tag_spec(), seq![48u8]),
        (Field::MDEntryType.tag_spec(), seq![49u8]),
        (Field::NoRelatedSym.tag_spec(), decimal(1)),
        (Field::Symbol.tag_spec(), decimal(symbol_id as nat)),
    ]
}

/// The `MarketDepth` that asks for a kind of market data: 1 for spot prices, 0 for the
/// full book.
pub open spec fn market_depth(market: MarketType) -> u32 {
    match market {
        MarketType::Spot => 1,
        MarketType::Depth => 0,
    }
}

/// Reads the side, price and size of an entry.
fn parse_entry_price(e: &Group) -> (r: Option<DepthPrice>)
    ensures
        match r {
            Some(p) => entry_price(e@) == Some(price_view(p)),
            None => entry_price(e@) is None,
        },
{
    let price_type = match e.get(Field::MDEntryType) {
        Some(t) => match PriceType::from_bytes(t.as_slice()) {
            Some(v) => v,
            None => {
                return None;
            },
        },
        None => {
            return None;
        },
    };
    let price = match e.get(Field::MDEntryPx) {
        Some(t) => match Decimal::parse(t.as_slice()) {
            Some(v) => v,
            None => {
                return None;
            },
        },
        None => {
            return None;
        },
    };
    let size = match e.get(Field::MDEntrySize) {
        Some(t) => match Decimal::parse(t.as_slice()) {
            Some(v) => v,
            None => {
                return None;
            },
        },
        None => {
            return None;
        },
    };
    Some(DepthPrice { price_type, price, size })
}

/// Puts the book entry that `e` denotes into `depth_data`; an entry that denotes none
/// is passed over.
pub fn insert_entry_to(e: &Group, depth_data: &mut DepthBook)
    requires
        old(depth_data).wf(),
    ensures
        final(depth_data).wf(),
        final(depth_data)@ == match depth_entry(e@) {
            Some(entry) => old(depth_data)@.insert(entry.0, entry.1),
            None => old(depth_data)@,
        },
{
    if e.len() < 4 {
        return ;
    }
    let id = match e.get(Field::MDEntryID) {
        Some(v) => v,
        None => {
            return ;
        },
    };
    match parse_entry_price(e) {
        Some(price) => {
            depth_data.insert(id, price);
        },
        None => {},
    }
}

/// The book that the entries of a depth snapshot describe.
pub fn depth_data_from_entries(data: &Vec<Group>) -> (r: DepthBook)
    ensures
        r.wf(),
        r@ == snapshot_book(groups_view(data@)),
{
    let ghost gv = groups_view(data@);
    let mut book = DepthBook::new();
    let mut i: usize = 0;
    assert(gv.subrange(0, 0) =~= Seq::empty());
    while i < data.len()
        invariant
            i <= data@.len(),
            gv == groups_view(data@),
            book.wf(),
            book@ == snapshot_book(gv.subrange(0, i as int)),
        decreases data@.len() - i,
    {
        assert(gv.subrange(0, i + 1).drop_last() =~= gv.subrange(0, i as int));
        assert(gv.subrange(0, i + 1).last() == data@[i as int]@);
        insert_entry_to(&data[i], &mut book);
        i = i + 1;
    }
    assert(gv.subrange(0, i as int) =~= gv);
    book
}

/// Takes the price of one entry of a spot snapshot into `p`.
fn spot_step_of(p: SpotPrice, e: &Group) -> (r: Option<SpotPrice>)
    ensures
        match r {
            Some(q) => spot_step(spot_view(p), e@) == Some(spot_view(q)),
            None => spot_step(spot_view(p), e@) is None,
        },
{
    let value = match e.get(Field::MDEntryPx) {
        Some(t) => match Decimal::parse(t.as_slice()) {
            Some(v) => v,
            None => {
                return None;
            },
        },
        None => {
            return None;
        },
    };
    proof {
        reveal_strlit("0");
    }
    match e.get(Field::MDEntryType) {
        Some(t) => {
            if is_text(t.as_slice(), "0") {
                Some(SpotPrice { bid: value, ask: p.ask })
            } else {
                Some(SpotPrice { bid: p.bid, ask: value })
            }
        },
        None => None,
    }
}

/// The bid and ask that the first two entries of a spot snapshot carry.
pub fn spot_price_from_market_data(data: &Vec<Group>) -> (r: Option<SpotPrice>)
    ensures
        match r {
            Some(p) => spot_price(groups_view(data@)) == Some(spot_view(p)),
            None => spot_price(groups_view(data@)) is None,
        },
{
    if data.len() < 2 {
        return None;
    }
    let start = SpotPrice { bid: Decimal::zero(), ask: Decimal::zero() };
    match spot_step_of(start, &data[0]) {
        Some(p) => spot_step_of(p, &data[1]),
        None => None,
    }
}

/// Reads one entry of an incremental refresh.
fn parse_refresh(e: &Group) -> (r: Option<IncrementalRefresh>)
    ensures
        match r {
            Some(change) => refresh_entry(e@) == Some(change@),
            None => refresh_entry(e@) is None,
        },
{
    let symbol_id = match e.get(Field::Symbol) {
        Some(t) => match parse_u32(t.as_slice()) {
            Some(n) => n,
            None => {
                return None;
            },
        },
        None => {
            return None;
        },
    };
    let action = match e.get(Field::MDUpdateAction) {
        Some(t) => t,
        None => {
            return None;
        },
    };
    let entry_id = match e.get(Field::MDEntryID) {
        Some(t) => t,
        None => {
            return None;
        },
    };
    proof {
        reveal_strlit("0");
        reveal_strlit("2");
        assert(ascii("0")[0] == 48u8 && ascii("2")[0] == 50u8);
    }
    if is_text(action.as_slice(), "2") {
        Some(IncrementalRefresh::Delete { symbol_id, entry_id })
    } else if is_text(action.as_slice(), "0") {
        match parse_entry_price(e) {
            Some(data) => Some(IncrementalRefresh::New { symbol_id, entry_id, data }),
            None => None,
        }
    } else {
        None
    }
}

/// A copy of a change.
pub fn copy_refresh(change: &IncrementalRefresh) -> (r: IncrementalRefresh)
    ensures
        r@ == change@,
{
    match change {
        IncrementalRefresh::New { symbol_id, entry_id, data } => IncrementalRefresh::New {
            symbol_id: *symbol_id,
            entry_id: copy_bytes(entry_id.as_slice()),
            data: copy_price(data),
        },
        IncrementalRefresh::Delete { symbol_id, entry_id } => IncrementalRefresh::Delete {
            symbol_id: *symbol_id,
            entry_id: copy_bytes(entry_id.as_slice()),
        },
    }
}

/// A quote client: a session in the role `QUOTE`, the subscriptions, and the last
/// known market data.
#[derive(Debug)]
pub struct MarketClient {
    internal: FixApi,
    spot_req_states: Subscriptions,
    depth_req_states: Subscriptions,
    spot_market_data: HashMap<u32, SpotPrice>,
    depth_market_data: HashMap<u32, DepthBook>,
}

impl MarketClient {
    /// What every quote client keeps: its parts are well-formed, and a depth book exists
    /// only for a symbol whose depth subscription is accepted.
    pub closed spec fn wf(&self) -> bool {
        &&& self.internal.wf()
        &&& forall|s: u32|
            self.depth_market_data@.contains_key(s) ==> (#[trigger] self.depth_market_data@[s]).wf()
        &&& consistent(self.depth_req_states@, books_view(self.depth_market_data@))
    }

    /// A depth book exists only for a symbol whose depth subscription is accepted, and
    /// the session of the client is well-formed.
    pub proof fn lemma_consistent(&self)
        requires
            self.wf(),
        ensures
            consistent(self.states(MarketType::Depth), self.depth_books()),
            self.session().wf(),
    {
    }

    /// The session of the client.
    pub closed spec fn session(&self) -> FixApi {
        self.internal
    }

    /// True when the two clients hold the same subscriptions and market data.
    pub open spec fn same_market(&self, other: &MarketClient) -> bool {
        &&& self.states(MarketType::Spot) == other.states(MarketType::Spot)
        &&& self.states(MarketType::Depth) == other.states(MarketType::Depth)
        &&& self.spot_prices() == other.spot_prices()
        &&& self.depth_books() == other.depth_books()
    }

    /// The subscriptions of one kind, by symbol.
    pub closed spec fn states(&self, market: MarketType) -> Map<u32, StateView> {
        match market {
            MarketType::Spot => self.spot_req_states@,
            MarketType::Depth => self.depth_req_states@,
        }
    }

    /// The last known spot price of each symbol.
    pub closed spec fn spot_prices(&self) -> Map<u32, (Seq<u8>, Seq<u8>)> {
        prices_view(self.spot_market_data@)
    }

    /// The depth book of each symbol.
    pub closed spec fn depth_books(&self) -> Map<u32, Map<Seq<u8>, (PriceType, Seq<u8>, Seq<u8>)>> {
        books_view(self.depth_market_data@)
    }

    /// A quote client without connection and without subscriptions.
    pub fn new(
        host: Vec<u8>,
        login: Vec<u8>,
        password: Vec<u8>,
        broker: Vec<u8>,
        heartbeat_interval: Option<u32>,
    ) -> (r: MarketClient)
        ensures
            r.wf(),
            r.session().sub_id() == SubID::QUOTE,
            r.session().state() == SessionState::Disconnected,
            r.session().next_seq() == 1,
            r.session().resend_buffer() == Seq::<(u32, Seq<u8>)>::empty(),
            r.session().config().host == host,
            r.session().config().username == login,
            r.session().config().password == password,
            r.session().config().sender_comp_id == broker,
            r.session().config().heart_beat == match heartbeat_interval {
                Some(n) => n,
                None => 30u32,
            },
            r.states(MarketType::Spot) == Map::<u32, StateView>::empty(),
            r.states(MarketType::Depth) == Map::<u32, StateView>::empty(),
            r.spot_prices() == Map::<u32, (Seq<u8>, Seq<u8>)>::empty(),
            r.depth_books() == Map::<u32, Map<Seq<u8>, (PriceType, Seq<u8>, Seq<u8>)>>::empty(),
    {
        let r = MarketClient {
            internal: FixApi::new(SubID::QUOTE, host, login, password, broker, heartbeat_interval),
            spot_req_states: Subscriptions::new(),
            depth_req_states: Subscriptions::new(),
            spot_market_data: HashMap::new(),
            depth_market_data: HashMap::new(),
        };
        assert(r.spot_prices() =~= Map::empty());
        assert(r.depth_books() =~= Map::empty());
        r
    }

    /// The session of the client, to read.
    pub fn get_session(&self) -> (r: &FixApi)
        ensures
            *r == self.session(),
    {
        &self.internal
    }

    /// Starts to connect the session; see `FixApi::connect`.
    pub fn connect(&mut self) -> (r: Result<u16, Error>)
        requires
            old(self).wf(),
        ensures
            final(self).wf(),
            final(self).same_market(old(self)),
            dialing(&old(self).session(), &final(self).session(), r),
    {
        self.internal.connect()
    }

    /// Takes the end of the dial; see `FixApi::on_connected`.
    pub fn on_connected(&mut self, success: bool) -> (r: bool)
        requires
            old(self).wf(),
        ensures
            final(self).wf(),
            final(self).same_market(old(self)),
            dialed(&old(self).session(), &final(self).session(), success, r),
    {
        self.internal.on_connected(success)
    }

    /// Logs the session on; see `FixApi::logon`.
    pub fn logon(&mut self, now: &Timestamp) -> (r: Result<Vec<u8>, Error>)
        requires
            old(self).wf(),
        ensures
            final(self).wf(),
            final(self).same_market(old(self)),
            logging_on(&old(self).session(), &final(self).session(), *now, r),
    {
        self.internal.logon(now)
    }

    /// Logs the session out; see `FixApi::logout`.
    pub fn logout(&mut self, now: &Timestamp) -> (r: Result<Vec<u8>, Error>)
        requires
            old(self).wf(),
        ensures
            final(self).wf(),
            final(self).same_market(old(self)),
            logging_out(&old(self).session(), &final(self).session(), *now, r),
    {
        self.internal.logout(now)
    }

    /// Takes a tick of the heartbeat timer; see `FixApi::heartbeat`.
    pub fn heartbeat(&mut self, now: &Timestamp) -> (r: Option<Vec<u8>>)
        requires
            old(self).wf(),
        ensures
            final(self).wf(),
            final(self).same_market(old(self)),
            beating(&old(self).session(), &final(self).session(), *now, r),
    {
        self.internal.heartbeat(now)
    }

    /// Gives the connection up; see `FixApi::disconnect`. Subscriptions and market data
    /// stay as they are.
    pub fn disconnect(&mut self) -> (r: bool)
        requires
            old(self).wf(),
        ensures
            final(self).wf(),
            final(self).same_market(old(self)),
            given_up(&old(self).session(), &final(self).session(), r),
    {
        self.internal.disconnect()
    }

    /// Lets the session decide what an inbound message leads to; see
    /// `FixApi::on_message`. Market data that comes back is for `on_market_data`.
    pub fn on_message(&mut self, res: &ResponseMessage, now: &Timestamp) -> (r: Result<
        Dispatch,
        Error,
    >)
        requires
            old(self).wf(),
        ensures
            final(self).wf(),
            final(self).same_market(old(self)),
            dispatched(&old(self).session(), &final(self).session(), res, *now, r),
    {
        self.internal.on_message(res, now)
    }

    /// True while the connection of the session stands.
    pub fn is_connected(&self) -> (r: bool)
        ensures
            r == self.session().connected(),
    {
        self.internal.is_connected()
    }

    /// The symbols with an accepted spot subscription, each once, in no particular order.
    pub fn spot_subscription_list(&self) -> (r: Vec<u32>)
        ensures
            forall|s: u32| r@.contains(s) <==> is_accepted(self.states(MarketType::Spot), s),
            r@.no_duplicates(),
    {
        self.spot_req_states.accepted()
    }

    /// The symbols with an accepted depth subscription, each once, in no particular order.
    pub fn depth_subscription_list(&self) -> (r: Vec<u32>)
        ensures
            forall|s: u32| r@.contains(s) <==> is_accepted(self.states(MarketType::Depth), s),
            r@.no_duplicates(),
    {
        self.depth_req_states.accepted()
    }

    /// The last known spot price of `symbol_id`.
    pub fn price_of(&self, symbol_id: u32) -> (r: Result<SpotPrice, Error>)
        ensures
            match r {
                Ok(p) => self.spot_prices().contains_key(symbol_id) && self.spot_prices()[symbol_id]
                    == spot_view(p),
                Err(e) => !self.spot_prices().contains_key(symbol_id) && e@
                    == ErrorView::NotSubscribed(symbol_id, MarketType::Spot),
            },
    {
        broadcast use vstd::std_specs::hash::group_hash_axioms;

        match self.spot_market_data.get(&symbol_id) {
            Some(p) => Ok(SpotPrice { bid: p.bid.duplicate(), ask: p.ask.duplicate() }),
            None => Err(Error::NotSubscribed(symbol_id, MarketType::Spot)),
        }
    }

    /// The depth book of `symbol_id`.
    pub fn depth_data(&self, symbol_id: u32) -> (r: Result<DepthBook, Error>)
        requires
            self.wf(),
        ensures
            match r {
                Ok(book) => book.wf() && self.depth_books().contains_key(symbol_id)
                    && self.depth_books()[symbol_id] == book@,
                Err(e) => !self.depth_books().contains_key(symbol_id) && e@
                    == ErrorView::NotSubscribed(symbol_id, MarketType::Depth),
            },
    {
        broadcast use vstd::std_specs::hash::group_hash_axioms;

        match self.depth_market_data.get(&symbol_id) {
            Some(book) => Ok(book.duplicate()),
            None => Err(Error::NotSubscribed(symbol_id, MarketType::Depth)),
        }
    }

    /// Subscribes to market data of one kind for `symbol_id` under the request
    /// identifier `md_req_id`.
    ///
    /// A symbol that is subscribed or waits for its answer is refused. Otherwise the
    /// symbol is marked as requested, and then the request is sent; the answer comes
    /// later, as a market data message. The symbol stays requested where sending fails.
    pub fn subscribe_with(
        &mut self,
        market: MarketType,
        symbol_id: u32,
        md_req_id: Vec<u8>,
        now: &Timestamp,
    ) -> (r: Result<Vec<u8>, Error>)
        requires
            old(self).wf(),
        ensures
            final(self).wf(),
            final(self).spot_prices() == old(self).spot_prices(),
            final(self).depth_books() == old(self).depth_books(),
            forall|other: MarketType|
                other != market ==> final(self).states(other) == old(self).states(other),
            if is_accepted(old(self).states(market), symbol_id) {
                &&& error_of(r) == Some(ErrorView::SubscribedAlready(symbol_id, market))
                &&& final(self).states(market) == old(self).states(market)
                &&& final(self).session() == old(self).session()
            } else if is_requested(old(self).states(market), symbol_id) {
                &&& error_of(r) == Some(ErrorView::RequestingSubscription(symbol_id, market))
                &&& final(self).states(market) == old(self).states(market)
                &&& final(self).session() == old(self).session()
            } else {
                &&& final(self).states(market) == old(self).states(market).insert(
                    symbol_id,
                    StateView::Requested(md_req_id@),
                )
                &&& sent(
                    &old(self).session(),
                    &final(self).session(),
                    ascii("V"),
                    market_data_request(md_req_id@, 49, market_depth(market), symbol_id),
                    *now,
                    outcome_view(r),
                )
            },
    {
        let state = match market {
            MarketType::Spot => self.spot_req_states.get(symbol_id),
            MarketType::Depth => self.depth_req_states.get(symbol_id),
        };
        match state {
            Some(RequestState::Accepted) => {
                return Err(Error::SubscribedAlready(symbol_id, market));
            },
            Some(RequestState::Requested(_)) => {
                return Err(Error::RequestingSubscription(symbol_id, market));
            },
            _ => {},
        }
        let id = copy_bytes(md_req_id.as_slice());
        let depth: u32 = match market {
            MarketType::Spot => {
                self.spot_req_states.set(symbol_id, RequestState::Requested(md_req_id));
                1
            },
            MarketType::Depth => {
                let ghost books = books_view(self.depth_market_data@);
                assert(!books.contains_key(symbol_id)) by {
                    if books.contains_key(symbol_id) {
                        assert(is_accepted(old(self).depth_req_states@, symbol_id));
                    }
                }
                self.depth_req_states.set(symbol_id, RequestState::Requested(md_req_id));
                assert forall|s: u32| books.contains_key(s) implies is_accepted(
                    self.depth_req_states@,
                    s,
                ) by {
                    assert(is_accepted(old(self).depth_req_states@, s));
                }
                0
            },
        };
        let mut sides: Vec<u8> = Vec::new();
        sides.push(48);
        sides.push(49);
        let req = MarketDataReq::new(id, 49, depth, None, sides.as_slice(), 1, symbol_id);
        proof {
            assert(req.body_fields(&self.internal.config(), *now) =~= market_data_request(
                md_req_id@,
                49,
                market_depth(market),
                symbol_id,
            ));
        }
        self.internal.send_message(&req, now)
    }

    /// Subscribes to the spot price of `symbol_id` under a fresh request identifier.
    pub fn subscribe_spot(&mut self, symbol_id: u32, now: &Timestamp) -> (r: Result<Vec<u8>, Error>)
        requires
            old(self).wf(),
        ensures
            final(self).wf(),
            final(self).spot_prices() == old(self).spot_prices(),
            final(self).depth_books() == old(self).depth_books(),
            final(self).states(MarketType::Depth) == old(self).states(MarketType::Depth),
            if is_accepted(old(self).states(MarketType::Spot), symbol_id) {
                &&& error_of(r) == Some(ErrorView::SubscribedAlready(symbol_id, MarketType::Spot))
                &&& final(self).states(MarketType::Spot) == old(self).states(MarketType::Spot)
                &&& final(self).session() == old(self).session()
            } else if is_requested(old(self).states(MarketType::Spot), symbol_id) {
                &&& error_of(r) == Some(
                    ErrorView::RequestingSubscription(symbol_id, MarketType::Spot),
                )
                &&& final(self).states(MarketType::Spot) == old(self).states(MarketType::Spot)
                &&& final(self).session() == old(self).session()
            } else {
                exists|id: Seq<u8>|
                    {
                        &&& is_id_text(id)
                        &&& #[trigger] old(self).states(MarketType::Spot).insert(
                            symbol_id,
                            StateView::Requested(id),
                        ) == final(self).states(MarketType::Spot)
                        &&& sent(
                            &old(self).session(),
                            &final(self).session(),
                            ascii("V"),
                            market_data_request(id, 49, 1, symbol_id),
                            *now,
                            outcome_view(r),
                        )
                    }
            },
    {
        let id = create_unique_id();
        self.subscribe_with(MarketType::Spot, symbol_id, id, now)
    }

    /// Subscribes to the depth book of `symbol_id` under a fresh request identifier.
    pub fn subscribe_depth(&mut self, symbol_id: u32, now: &Timestamp) -> (r: Result<
        Vec<u8>,
        Error,
    >)
        requires
            old(self).wf(),
        ensures
            final(self).wf(),
            final(self).spot_prices() == old(self).spot_prices(),
            final(self).depth_books() == old(self).depth_books(),
            final(self).states(MarketType::Spot) == old(self).states(MarketType::Spot),
            if is_accepted(old(self).states(MarketType::Depth), symbol_id) {
                &&& error_of(r) == Some(ErrorView::SubscribedAlready(symbol_id, MarketType::Depth))
                &&& final(self).states(MarketType::Depth) == old(self).states(MarketType::Depth)
                &&& final(self).session() == old(self).session()
            } else if is_requested(old(self).states(MarketType::Depth), symbol_id) {
                &&& error_of(r) == Some(
                    ErrorView::RequestingSubscription(symbol_id, MarketType::Depth),
                )
                &&& final(self).states(MarketType::Depth) == old(self).states(MarketType::Depth)
                &&& final(self).session() == old(self).session()
            } else {
                exists|id: Seq<u8>|
                    {
                        &&& is_id_text(id)
                        &&& #[trigger] old(self).states(MarketType::Depth).insert(
                            symbol_id,
                            StateView::Requested(id),
                        ) == final(self).states(MarketType::Depth)
                        &&& sent(
                            &old(self).session(),
                            &final(self).session(),
                            ascii("V"),
                            market_data_request(id, 49, 0, symbol_id),
                            *now,
                            outcome_view(r),
                        )
                    }
            },
    {
        let id = create_unique_id();
        self.subscribe_with(MarketType::Depth, symbol_id, id, now)
    }

    /// Ends the subscription of one kind for `symbol_id`.
    ///
    /// A symbol that waits for its answer, and one that is not subscribed, is refused.
    /// Otherwise the subscription and the market data of the symbol are forgotten, and
    /// the request that ends the subscription is sent; no answer is awaited.
    pub fn unsubscribe(&mut self, market: MarketType, symbol_id: u32, now: &Timestamp) -> (r:
        Result<Vec<u8>, Error>)
        requires
            old(self).wf(),
        ensures
            final(self).wf(),
            forall|other: MarketType|
                other != market ==> final(self).states(other) == old(self).states(other),
            if is_requested(old(self).states(market), symbol_id) {
                &&& error_of(r) == Some(ErrorView::RequestingSubscription(symbol_id, market))
                &&& final(self).states(market) == old(self).states(market)
                &&& final(self).spot_prices() == old(self).spot_prices()
                &&& final(self).depth_books() == old(self).depth_books()
                &&& final(self).session() == old(self).session()
            } else if !is_accepted(old(self).states(market), symbol_id) {
                &&& error_of(r) == Some(ErrorView::NotSubscribed(symbol_id, market))
                &&& final(self).states(market) == old(self).states(market)
                &&& final(self).spot_prices() == old(self).spot_prices()
                &&& final(self).depth_books() == old(self).depth_books()
                &&& final(self).session() == old(self).session()
            } else {
                &&& final(self).states(market) == old(self).states(market).remove(symbol_id)
                &&& final(self).spot_prices() == if market == MarketType::Spot {
                    old(self).spot_prices().remove(symbol_id)
                } else {
                    old(self).spot_prices()
                }
                &&& final(self).depth_books() == if market == MarketType::Depth {
                    old(self).depth_books().remove(symbol_id)
                } else {
                    old(self).depth_books()
                }
                &&& sent(
                    &old(self).session(),
                    &final(self).session(),
                    ascii("V"),
                    market_data_request(ascii("-1"), 50, market_depth(market), symbol_id),
                    *now,
                    outcome_view(r),
                )
            },
    {
        broadcast use vstd::std_specs::hash::group_hash_axioms;

        let state = match market {
            MarketType::Spot => self.spot_req_states.get(symbol_id),
            MarketType::Depth => self.depth_req_states.get(symbol_id),
        };
        match state {
            Some(RequestState::Requested(_)) => {
                return Err(Error::RequestingSubscription(symbol_id, market));
            },
            Some(RequestState::Rejected) | None => {
                return Err(Error::NotSubscribed(symbol_id, market));
            },
            _ => {},
        }
        let ghost books = self.depth_market_data@;
        let depth: u32 = match market {
            MarketType::Spot => {
                self.spot_req_states.remove(symbol_id);
                self.spot_market_data.remove(&symbol_id);
                assert(self.spot_prices() =~= old(self).spot_prices().remove(symbol_id));
                1
            },
            MarketType::Depth => {
                self.depth_req_states.remove(symbol_id);
                self.depth_market_data.remove(&symbol_id);
                assert(self.depth_books() =~= old(self).depth_books().remove(symbol_id));
                assert forall|s: u32|
                    books_view(self.depth_market_data@).contains_key(s) implies is_accepted(
                    self.depth_req_states@,
                    s,
                ) by {
                    assert(books_view(old(self).depth_market_data@).contains_key(s));
                    assert(is_accepted(old(self).depth_req_states@, s));
                }
                0
            },
        };
        proof {
            reveal_strlit("-1");
        }
        let mut sides: Vec<u8> = Vec::new();
        sides.push(48);
        sides.push(49);
        let req = MarketDataReq::new(lit("-1"), 50, depth, None, sides.as_slice(), 1, symbol_id);
        proof {
            assert(req.body_fields(&self.internal.config(), *now) =~= market_data_request(
                ascii("-1"),
                50,
                market_depth(market),
                symbol_id,
            ));
        }
        self.internal.send_message(&req, now)
    }

    /// Ends the spot subscription of `symbol_id`.
    pub fn unsubscribe_spot(&mut self, symbol_id: u32, now: &Timestamp) -> (r: Result<
        Vec<u8>,
        Error,
    >)
        requires
            old(self).wf(),
        ensures
            final(self).wf(),
            final(self).states(MarketType::Depth) == old(self).states(MarketType::Depth),
            final(self).depth_books() == old(self).depth_books(),
            if is_requested(old(self).states(MarketType::Spot), symbol_id) {
                &&& error_of(r) == Some(
                    ErrorView::RequestingSubscription(symbol_id, MarketType::Spot),
                )
                &&& final(self).states(MarketType::Spot) == old(self).states(MarketType::Spot)
                &&& final(self).spot_prices() == old(self).spot_prices()
                &&& final(self).session() == old(self).session()
            } else if !is_accepted(old(self).states(MarketType::Spot), symbol_id) {
                &&& error_of(r) == Some(ErrorView::NotSubscribed(symbol_id, MarketType::Spot))
                &&& final(self).states(MarketType::Spot) == old(self).states(MarketType::Spot)
                &&& final(self).spot_prices() == old(self).spot_prices()
                &&& final(self).session() == old(self).session()
            } else {
                &&& final(self).states(MarketType::Spot) == old(self).states(
                    MarketType::Spot,
                ).remove(symbol_id)
                &&& final(self).spot_prices() == old(self).spot_prices().remove(symbol_id)
                &&& sent(
                    &old(self).session(),
                    &final(self).session(),
                    ascii("V"),
                    market_data_request(ascii("-1"), 50, 1, symbol_id),
                    *now,
                    outcome_view(r),
                )
            },
    {
        self.unsubscribe(MarketType::Spot, symbol_id, now)
    }

    /// Ends the depth subscription of `symbol_id`.
    pub fn unsubscribe_depth(&mut self, symbol_id: u32, now: &Timestamp) -> (r: Result<
        Vec<u8>,
        Error,
    >)
        requires
            old(self).wf(),
        ensures
            final(self).wf(),
            final(self).states(MarketType::Spot) == old(self).states(MarketType::Spot),
            final(self).spot_prices() == old(self).spot_prices(),
            if is_requested(old(self).states(MarketType::Depth), symbol_id) {
                &&& error_of(r) == Some(
                    ErrorView::RequestingSubscription(symbol_id, MarketType::Depth),
                )
                &&& final(self).states(MarketType::Depth) == old(self).states(MarketType::Depth)
                &&& final(self).depth_books() == old(self).depth_books()
                &&& final(self).session() == old(self).session()
            } else if !is_accepted(old(self).states(MarketType::Depth), symbol_id) {
                &&& error_of(r) == Some(ErrorView::NotSubscribed(symbol_id, MarketType::Depth))
                &&& final(self).states(MarketType::Depth) == old(self).states(MarketType::Depth)
                &&& final(self).depth_books() == old(self).depth_books()
                &&& final(self).session() == old(self).session()
            } else {
                &&& final(self).states(MarketType::Depth) == old(self).states(
                    MarketType::Depth,
                ).remove(symbol_id)
                &&& final(self).depth_books() == old(self).depth_books().remove(symbol_id)
                &&& sent(
                    &old(self).session(),
                    &final(self).session(),
                    ascii("V"),
                    market_data_request(ascii("-1"), 50, 0, symbol_id),
                    *now,
                    outcome_view(r),
                )
            },
    {
        self.unsubscribe(MarketType::Depth, symbol_id, now)
    }

    /// Applies one change to the depth books.
    fn apply(&mut self, change: IncrementalRefresh)
        requires
            old(self).wf(),
            is_accepted(old(self).states(MarketType::Depth), change@.symbol()),
        ensures
            final(self).wf(),
            final(self).session() == old(self).session(),
            final(self).states(MarketType::Spot) == old(self).states(MarketType::Spot),
            final(self).states(MarketType::Depth) == old(self).states(MarketType::Depth),
            final(self).spot_prices() == old(self).spot_prices(),
            final(self).depth_books() == apply_change(old(self).depth_books(), change@),
    {
        broadcast use vstd::std_specs::hash::group_hash_axioms;

        let ghost books = old(self).depth_books();
        match change {
            IncrementalRefresh::New { symbol_id, entry_id, data } => {
                let ghost id = entry_id@;
                let ghost pv = price_view(data);
                let mut book = match self.depth_market_data.remove(&symbol_id) {
                    Some(b) => b,
                    None => DepthBook::new(),
                };
                assert(book@ == book_of(books, symbol_id));
                book.insert(entry_id, data);
                self.depth_market_data.insert(symbol_id, book);
                assert(self.depth_books() =~= books.insert(
                    symbol_id,
                    book_of(books, symbol_id).insert(id, pv),
                ));
            },
            IncrementalRefresh::Delete { symbol_id, entry_id } => {
                let mut book = match self.depth_market_data.remove(&symbol_id) {
                    Some(b) => b,
                    None => DepthBook::new(),
                };
                assert(book@ == book_of(books, symbol_id));
                book.remove(entry_id.as_slice());
                self.depth_market_data.insert(symbol_id, book);
                assert(self.depth_books() =~= books.insert(
                    symbol_id,
                    book_of(books, symbol_id).remove(entry_id@),
                ));
            },
        }
        assert forall|s: u32| self.depth_books().contains_key(s) implies is_accepted(
            self.depth_req_states@,
            s,
        ) by {
            if s != change@.symbol() {
                assert(books.contains_key(s));
            }
        }
    }

    /// Takes a spot snapshot for `symbol_id`.
    fn on_spot_snapshot(&mut self, symbol_id: u32, data: &Vec<Group>) -> (r: Vec<MarketEvent>)
        requires
            old(self).wf(),
        ensures
            final(self).wf(),
            events_wf(r@),
            final(self).session() == old(self).session(),
            final(self).states(MarketType::Depth) == old(self).states(MarketType::Depth),
            final(self).depth_books() == old(self).depth_books(),
            final(self).states(MarketType::Spot) == promoted(
                old(self).states(MarketType::Spot),
                symbol_id,
            ),
            final(self).spot_prices() == match spot_price(groups_view(data@)) {
                Some(p) => old(self).spot_prices().insert(symbol_id, p),
                None => old(self).spot_prices(),
            },
            events_view(r@) == (if is_requested(old(self).states(MarketType::Spot), symbol_id) {
                seq![EventView::AcceptedSpotSubscription(symbol_id)]
            } else {
                Seq::empty()
            }) + (match spot_price(groups_view(data@)) {
                Some(p) => seq![EventView::PriceOf(symbol_id, p)],
                None => Seq::empty(),
            }),
    {
        broadcast use vstd::std_specs::hash::group_hash_axioms;

        let mut events: Vec<MarketEvent> = Vec::new();
        if self.spot_req_states.accept(symbol_id) {
            events.push(MarketEvent::AcceptedSpotSubscription(symbol_id));
        }
        let ghost first = events_view(events@);
        match spot_price_from_market_data(data) {
            Some(p) => {
                let shown = SpotPrice { bid: p.bid.duplicate(), ask: p.ask.duplicate() };
                events.push(MarketEvent::PriceOf(symbol_id, shown));
                let ghost pv = spot_view(p);
                self.spot_market_data.insert(symbol_id, p);
                assert(self.spot_prices() =~= old(self).spot_prices().insert(symbol_id, pv));
                assert(events_view(events@) =~= first + seq![EventView::PriceOf(symbol_id, pv)]);
            },
            None => {
                assert(events_view(events@) =~= first + Seq::<EventView>::empty());
            },
        }
        assert(first =~= if is_requested(old(self).states(MarketType::Spot), symbol_id) {
            seq![EventView::AcceptedSpotSubscription(symbol_id)]
        } else {
            Seq::empty()
        });
        events
    }

    /// Takes a depth snapshot for `symbol_id`.
    fn on_depth_snapshot(&mut self, symbol_id: u32, data: &Vec<Group>) -> (r: Vec<MarketEvent>)
        requires
            old(self).wf(),
        ensures
            final(self).wf(),
            events_wf(r@),
            final(self).session() == old(self).session(),
            final(self).states(MarketType::Spot) == old(self).states(MarketType::Spot),
            final(self).spot_prices() == old(self).spot_prices(),
            final(self).states(MarketType::Depth) == promoted(
                old(self).states(MarketType::Depth),
                symbol_id,
            ),
            final(self).depth_books() == if is_accepted(
                promoted(old(self).states(MarketType::Depth), symbol_id),
                symbol_id,
            ) {
                old(self).depth_books().insert(symbol_id, snapshot_book(groups_view(data@)))
            } else {
                old(self).depth_books()
            },
            events_view(r@) == (if is_requested(old(self).states(MarketType::Depth), symbol_id) {
                seq![EventView::AcceptedDepthSubscription(symbol_id)]
            } else {
                Seq::empty()
            }) + (if is_accepted(
                promoted(old(self).states(MarketType::Depth), symbol_id),
                symbol_id,
            ) {
                seq![
                    EventView::MarketDepthFullRefresh(symbol_id, snapshot_book(groups_view(data@))),
                ]
            } else {
                Seq::empty()
            }),
    {
        broadcast use vstd::std_specs::hash::group_hash_axioms;

        let mut events: Vec<MarketEvent> = Vec::new();
        let ghost books = old(self).depth_books();
        if self.depth_req_states.accept(symbol_id) {
            events.push(MarketEvent::AcceptedDepthSubscription(symbol_id));
        }
        let ghost first = events_view(events@);
        assert(first =~= if is_requested(old(self).states(MarketType::Depth), symbol_id) {
            seq![EventView::AcceptedDepthSubscription(symbol_id)]
        } else {
            Seq::empty()
        });
        assert forall|s: u32| books.contains_key(s) implies is_accepted(
            self.depth_req_states@,
            s,
        ) by {
            assert(is_accepted(old(self).depth_req_states@, s));
        }
        let accepted = match self.depth_req_states.get(symbol_id) {
            Some(RequestState::Accepted) => true,
            _ => false,
        };
        if accepted {
            let book = depth_data_from_entries(data);
            let ghost bv = book@;
            events.push(MarketEvent::MarketDepthFullRefresh(symbol_id, book.duplicate()));
            self.depth_market_data.insert(symbol_id, book);
            assert(self.depth_books() =~= books.insert(symbol_id, bv));
            assert(events_view(events@) =~= first + seq![
                EventView::MarketDepthFullRefresh(symbol_id, bv),
            ]);
        } else {
            assert(events_view(events@) =~= first + Seq::<EventView>::empty());
        }
        events
    }

    /// Takes the entries of an incremental refresh: the changes that they denote are
    /// applied to the books, and returned for the handler.
    fn on_incremental(&mut self, data: &Vec<Group>) -> (r: Vec<IncrementalRefresh>)
        requires
            old(self).wf(),
        ensures
            final(self).wf(),
            final(self).session() == old(self).session(),
            final(self).states(MarketType::Spot) == old(self).states(MarketType::Spot),
            final(self).states(MarketType::Depth) == old(self).states(MarketType::Depth),
            final(self).spot_prices() == old(self).spot_prices(),
            refresh_view(r@) == refresh_list(groups_view(data@), old(self).states(MarketType::Depth)),
            final(self).depth_books() == apply_changes(old(self).depth_books(), refresh_view(r@)),
    {
        let ghost gv = groups_view(data@);
        let ghost depth = old(self).states(MarketType::Depth);
        let ghost books = old(self).depth_books();
        let mut list: Vec<IncrementalRefresh> = Vec::new();
        let mut i: usize = 0;
        assert(gv.subrange(0, 0) =~= Seq::empty());
        assert(refresh_view(list@) =~= Seq::empty());
        while i < data.len()
            invariant
                i <= data@.len(),
                gv == groups_view(data@),
                self.wf(),
                self.session() == old(self).session(),
                self.states(MarketType::Spot) == old(self).states(MarketType::Spot),
                self.states(MarketType::Depth) == depth,
                self.spot_prices() == old(self).spot_prices(),
                refresh_view(list@) == refresh_list(gv.subrange(0, i as int), depth),
                self.depth_books() == apply_changes(books, refresh_view(list@)),
            decreases data@.len() - i,
        {
            assert(gv.subrange(0, i + 1).drop_last() =~= gv.subrange(0, i as int));
            assert(gv.subrange(0, i + 1).last() == data@[i as int]@);
            let ghost before = refresh_view(list@);
            match parse_refresh(&data[i]) {
                Some(change) => {
                    let symbol = match &change {
                        IncrementalRefresh::New { symbol_id, .. } => *symbol_id,
                        IncrementalRefresh::Delete { symbol_id, .. } => *symbol_id,
                    };
                    let accepted = match self.depth_req_states.get(symbol) {
                        Some(RequestState::Accepted) => true,
                        _ => false,
                    };
                    if accepted {
                        let shown = copy_refresh(&change);
                        let ghost cv = change@;
                        self.apply(change);
                        list.push(shown);
                        assert(refresh_view(list@) =~= before.push(cv));
                        assert(refresh_view(list@).drop_last() =~= before);
                    }
                },
                None => {},
            }
            i = i + 1;
        }
        assert(gv.subrange(0, i as int) =~= gv);
        list
    }

    /// Takes the venue's reject of the request `md_req_id`.
    fn on_reject(&mut self, md_req_id: &[u8], err_msg: &[u8]) -> (r: Vec<MarketEvent>)
        requires
            old(self).wf(),
        ensures
            final(self).wf(),
            events_wf(r@),
            final(self).session() == old(self).session(),
            final(self).spot_prices() == old(self).spot_prices(),
            final(self).depth_books() == old(self).depth_books(),
            final(self).states(MarketType::Spot) == rejected(
                old(self).states(MarketType::Spot),
                md_req_id@,
            ),
            final(self).states(MarketType::Depth) == rejected(
                old(self).states(MarketType::Depth),
                md_req_id@,
            ),
            events_view(r@) == (match pending_symbol(
                old(self).states(MarketType::Spot),
                md_req_id@,
            ) {
                Some(s) => seq![EventView::RejectedSpotSubscription(s, err_msg@)],
                None => Seq::empty(),
            }) + (match pending_symbol(old(self).states(MarketType::Depth), md_req_id@) {
                Some(s) => seq![EventView::RejectedDepthSubscription(s, err_msg@)],
                None => Seq::empty(),
            }),
    {
        let mut events: Vec<MarketEvent> = Vec::new();
        match self.spot_req_states.reject(md_req_id) {
            Some(s) => {
                events.push(MarketEvent::RejectedSpotSubscription(s, copy_bytes(err_msg)));
            },
            None => {},
        }
        let ghost first = events_view(events@);
        assert(first =~= match pending_symbol(old(self).states(MarketType::Spot), md_req_id@) {
            Some(s) => seq![EventView::RejectedSpotSubscription(s, err_msg@)],
            None => Seq::empty(),
        });
        let ghost books = old(self).depth_books();
        match self.depth_req_states.reject(md_req_id) {
            Some(s) => {
                events.push(MarketEvent::RejectedDepthSubscription(s, copy_bytes(err_msg)));
                assert(events_view(events@) =~= first + seq![
                    EventView::RejectedDepthSubscription(s, err_msg@),
                ]);
                assert forall|t: u32| books.contains_key(t) implies is_accepted(
                    self.depth_req_states@,
                    t,
                ) by {
                    assert(is_accepted(old(self).depth_req_states@, t));
                }
            },
            None => {
                assert(events_view(events@) =~= first + Seq::<EventView>::empty());
            },
        }
        events
    }

    /// Takes a market data message from the session and says what the handler is to be
    /// told, in order.
    ///
    /// A snapshot whose first entry has no entry id is a spot snapshot: a requested
    /// spot subscription of the symbol is accepted, and the price of its first two
    /// entries is stored and reported. Any other snapshot is a depth snapshot: a
    /// requested depth subscription of the symbol is accepted, and for a symbol whose
    /// subscription is accepted the book of the snapshot takes the place of the old
    /// one and is reported. An incremental refresh for a symbol with an accepted depth
    /// subscription is applied to the books, change by change, and reported as one list
    /// of changes. A reject turns the subscription that was requested under its
    /// identifier into a rejected one and is reported for that symbol.
    ///
    /// The client changes before the handler hears: when this function returns, the
    /// subscriptions, prices and books are those after the message, and the events
    /// tell the handler of a state that already stands.
    pub fn on_market_data(&mut self, md: InternalMDResult) -> (r: Vec<MarketEvent>)
        requires
            old(self).wf(),
        ensures
            final(self).wf(),
            events_wf(r@),
            final(self).session() == old(self).session(),
            events_view(r@) == market_events(
                old(self).states(MarketType::Spot),
                old(self).states(MarketType::Depth),
                md@,
            ),
            final(self).states(MarketType::Spot) == spot_states_after(
                old(self).states(MarketType::Spot),
                md@,
            ),
            final(self).states(MarketType::Depth) == depth_states_after(
                old(self).states(MarketType::Depth),
                md@,
            ),
            final(self).spot_prices() == spot_prices_after(old(self).spot_prices(), md@),
            final(self).depth_books() == depth_books_after(
                old(self).depth_books(),
                old(self).states(MarketType::Depth),
                md@,
            ),
    {
        match md {
            InternalMDResult::MD { msg_type, symbol_id, data } => {
                if msg_type == 87 {
                    if data.len() != 0 && !data[0].contains_key(Field::MDEntryID) {
                        self.on_spot_snapshot(symbol_id, &data)
                    } else {
                        self.on_depth_snapshot(symbol_id, &data)
                    }
                } else if msg_type == 88 {
                    let accepted = match self.depth_req_states.get(symbol_id) {
                        Some(RequestState::Accepted) => true,
                        _ => false,
                    };
                    let mut events: Vec<MarketEvent> = Vec::new();
                    if accepted {
                        let list = self.on_incremental(&data);
                        let ghost lv = refresh_view(list@);
                        events.push(MarketEvent::MarketDepthIncrementalRefresh(list));
                        assert(events_view(events@) =~= seq![
                            EventView::MarketDepthIncrementalRefresh(lv),
                        ]);
                    } else {
                        assert(events_view(events@) =~= Seq::empty());
                    }
                    events
                } else {
                    let events: Vec<MarketEvent> = Vec::new();
                    assert(events_view(events@) =~= Seq::empty());
                    events
                }
            },
            InternalMDResult::MDReject { symbol_id, md_req_id, err_msg } => {
                self.on_reject(md_req_id.as_slice(), err_msg.as_slice())
            },
        }
    }
}

/// A spot subscription that waits for its answer is accepted by the first spot
/// snapshot for its symbol, and the handler hears of the acceptance exactly once: it is
/// the first event of that snapshot and no other, and the same snapshot, taken again,
/// does not report it again.
pub proof fn lemma_spot_accepted_once(
    spot: Map<u32, StateView>,
    depth: Map<u32, StateView>,
    symbol_id: u32,
    data: Seq<Map<u32, Seq<u8>>>,
)
    requires
        is_requested(spot, symbol_id),
        is_spot_snapshot(data),
    ensures
        ({
            let md = MarketDataView::MD { msg_type: 87, symbol_id, data };
            let events = market_events(spot, depth, md);
            let after = spot_states_after(spot, md);
            let again = market_events(after, depth, md);
            &&& is_accepted(after, symbol_id)
            &&& events.len() >= 1
            &&& events[0] == EventView::AcceptedSpotSubscription(symbol_id)
            &&& forall|i: int|
                1 <= i < events.len() ==> events[i] != EventView::AcceptedSpotSubscription(
                    symbol_id,
                )
            &&& forall|i: int|
                0 <= i < again.len() ==> again[i] != EventView::AcceptedSpotSubscription(symbol_id)
        }),
{
}

/// True when the entry denotes a book entry under `id`.
pub open spec fn names(e: Map<u32, Seq<u8>>, id: Seq<u8>) -> bool {
    depth_entry(e) is Some && depth_entry(e).unwrap().0 == id
}

/// The book that a depth snapshot describes holds an entry id exactly when an entry of
/// the snapshot denotes a book entry with that id, and it holds under the id what the
/// last such entry says.
pub proof fn lemma_snapshot_book(data: Seq<Map<u32, Seq<u8>>>, id: Seq<u8>)
    ensures
        snapshot_book(data).contains_key(id) <==> exists|i: int|
            0 <= i < data.len() && names(#[trigger] data[i], id),
        forall|i: int|
            0 <= i < data.len() && names(#[trigger] data[i], id) && (forall|j: int|
                i < j < data.len() ==> !names(#[trigger] data[j], id)) ==> snapshot_book(data)[id]
                == depth_entry(data[i]).unwrap().1,
    decreases data.len(),
{
    if data.len() > 0 {
        let earlier = data.drop_last();
        lemma_snapshot_book(earlier, id);
        assert forall|i: int| 0 <= i < earlier.len() implies earlier[i] == data[i] by {}
        if snapshot_book(data).contains_key(id) {
            if names(data.last(), id) {
                assert(names(data[data.len() - 1], id));
            } else {
                let i = choose|i: int| 0 <= i < earlier.len() && names(#[trigger] earlier[i], id);
                assert(names(data[i], id));
            }
        }
        if exists|i: int| 0 <= i < data.len() && names(#[trigger] data[i], id) {
            let i = choose|i: int| 0 <= i < data.len() && names(#[trigger] data[i], id);
            if i < earlier.len() {
                assert(names(earlier[i], id));
            }
        }
        assert forall|i: int|
            0 <= i < data.len() && names(#[trigger] data[i], id) && (forall|j: int|
                i < j < data.len() ==> !names(#[trigger] data[j], id)) implies snapshot_book(
            data,
        )[id] == depth_entry(data[i]).unwrap().1 by {
            if i < earlier.len() {
                assert(names(earlier[i], id));
                assert forall|j: int| i < j < earlier.len() implies !names(
                    #[trigger] earlier[j],
                    id,
                ) by {
                    assert(earlier[j] == data[j]);
                }
                assert(!names(data[data.len() - 1], id));
            }
        }
    }
}

/// After a depth snapshot for a symbol whose depth subscription is accepted or waits
/// for its answer, the book of the symbol is the book that the snapshot describes.
pub proof fn lemma_book_after_snapshot(
    books: Map<u32, Map<Seq<u8>, (PriceType, Seq<u8>, Seq<u8>)>>,
    depth: Map<u32, StateView>,
    symbol_id: u32,
    data: Seq<Map<u32, Seq<u8>>>,
)
    requires
        is_accepted(depth, symbol_id) || is_requested(depth, symbol_id),
        !is_spot_snapshot(data),
    ensures
        ({
            let md = MarketDataView::MD { msg_type: 87, symbol_id, data };
            let after = depth_books_after(books, depth, md);
            after.contains_key(symbol_id) && after[symbol_id] == snapshot_book(data)
        }),
{
}

/// A new entry followed by the deletion of its id leaves the book of the symbol as it
/// was without that id: unchanged, if the book did not hold the id before. The books
/// of the other symbols are not touched.
pub proof fn lemma_new_then_delete(
    books: Map<u32, Map<Seq<u8>, (PriceType, Seq<u8>, Seq<u8>)>>,
    symbol_id: u32,
    entry_id: Seq<u8>,
    data: (PriceType, Seq<u8>, Seq<u8>),
)
    ensures
        ({
            let after = apply_changes(
                books,
                seq![
                    RefreshView::New { symbol_id, entry_id, data },
                    RefreshView::Delete { symbol_id, entry_id },
                ],
            );
            &&& book_of(after, symbol_id) == book_of(books, symbol_id).remove(entry_id)
            &&& !book_of(books, symbol_id).contains_key(entry_id) ==> book_of(after, symbol_id)
                == book_of(books, symbol_id)
            &&& forall|s: u32|
                s != symbol_id ==> after.contains_key(s) == books.contains_key(s) && book_of(
                    after,
                    s,
                ) == book_of(books, s)
        }),
{
    let new = RefreshView::New { symbol_id, entry_id, data };
    let delete = RefreshView::Delete { symbol_id, entry_id };
    let list = seq![new, delete];
    assert(list.drop_last() =~= seq![new]);
    assert(seq![new].drop_last() =~= Seq::<RefreshView>::empty());
    assert(apply_changes(books, Seq::<RefreshView>::empty()) == books);
    assert(apply_changes(books, seq![new]) == apply_change(books, new));
    let after = apply_changes(books, list);
    assert(after == apply_change(apply_change(books, new), delete));
    lemma_insert_then_remove(book_of(books, symbol_id), entry_id, data);
}

} // verus!
