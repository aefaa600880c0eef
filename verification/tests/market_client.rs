use cfix::book::DepthBook;
use cfix::decimal::Decimal;
use cfix::fixapi::{Dispatch, SessionState};
use cfix::market_client::{
    copy_refresh, depth_data_from_entries, insert_entry_to, spot_price_from_market_data,
    MarketClient, MarketEvent,
};
use cfix::messages::{Group, ResponseMessage};
use cfix::subscriptions::{RequestState, Subscriptions};
use cfix::time::Timestamp;
use cfix::types::{
    DepthPrice, Error, Field, IncrementalRefresh, MarketType, PriceType,
    DELIMITER,
};

fn wire(text: &str) -> Vec<u8> {
    text.bytes().map(|b| if b == b'|' { DELIMITER } else { b }).collect()
}

fn show(bytes: &[u8]) -> String {
    bytes.iter().map(|b| if *b == DELIMITER { '|' } else { *b as char }).collect()
}

fn inbound(text: &str) -> ResponseMessage {
    ResponseMessage::new(&wire(text), DELIMITER)
}

fn now() -> Timestamp {
    Timestamp::from_millis(1484648814000).unwrap()
}

fn client() -> MarketClient {
    let mut c =
        MarketClient::new(b"h".to_vec(), b"u".to_vec(), b"p".to_vec(), b"c".to_vec(), Some(30));
    assert_eq!(c.connect().unwrap(), 5201);
    assert!(c.on_connected(true));
    c.logon(&now()).unwrap();
    assert!(matches!(
        c.on_message(&inbound("35=A|"), &now()),
        Ok(Dispatch::LoggedOn { heartbeat_interval: 30 })
    ));
    c
}

fn feed(c: &mut MarketClient, text: &str) -> Vec<MarketEvent> {
    match c.on_message(&inbound(text), &now()).unwrap() {
        Dispatch::Market(md) => c.on_market_data(md),
        other => panic!("{:?}", other),
    }
}

fn entries(text: &str, start: Field) -> Vec<Group> {
    inbound(text).get_repeating_groups(Field::NoMDEntries, start, None)
}

fn field(bytes: &[u8], f: Field) -> Option<String> {
    ResponseMessage::new(bytes, DELIMITER).get_field_value(f).map(|v| String::from_utf8(v).unwrap())
}

fn price(kind: PriceType, px: &str, size: &str) -> DepthPrice {
    DepthPrice {
        price_type: kind,
        price: Decimal::parse(px.as_bytes()).unwrap(),
        size: Decimal::parse(size.as_bytes()).unwrap(),
    }
}

fn book_text(book: &DepthBook) -> Vec<String> {
    let mut out: Vec<String> = book
        .entries()
        .iter()
        .map(|(id, p)| {
            format!(
                "{}:{:?}@{}x{}",
                show(id),
                p.price_type,
                show(p.price.as_bytes()),
                show(p.size.as_bytes())
            )
        })
        .collect();
    out.sort();
    out
}

#[test]
fn new_client_has_no_subscriptions() {
    let c = MarketClient::new(b"h".to_vec(), b"u".to_vec(), b"p".to_vec(), b"c".to_vec(), None);
    assert!(!c.is_connected());
    assert_eq!(c.get_session().get_state(), SessionState::Disconnected);
    assert_eq!(c.get_session().get_config().heart_beat, 30);
    assert!(c.spot_subscription_list().is_empty());
    assert!(c.depth_subscription_list().is_empty());
    assert!(matches!(c.price_of(1), Err(Error::NotSubscribed(1, MarketType::Spot))));
    assert!(matches!(c.depth_data(1), Err(Error::NotSubscribed(1, MarketType::Depth))));
}

#[test]
fn spot_subscription() {
    let mut c = client();
    let bytes = c.subscribe_spot(1, &now()).unwrap();
    let id = field(&bytes, Field::MDReqID).unwrap();
    assert_eq!(id.len(), 36);
    let text = show(&bytes);
    let body = format!("|262={}|263=1|264=1|267=2|269=0|269=1|146=1|55=1|10=", id);
    assert!(text.contains(&body), "{}", text);
    assert!(text.starts_with("8=FIX.4.4|9=149|35=V|49=c.u|56=cServer|57=QUOTE|50=QUOTE|34=2|52="));
    assert!(c.spot_subscription_list().is_empty());

    let events = feed(&mut c, "35=W|55=1|268=2|269=0|270=1.06625|269=1|270=1.0663|");
    assert_eq!(events.len(), 2);
    assert!(matches!(events[0], MarketEvent::AcceptedSpotSubscription(1)));
    match &events[1] {
        MarketEvent::PriceOf(1, p) => {
            assert_eq!(p.bid.as_bytes(), b"1.06625");
            assert_eq!(p.ask.as_bytes(), b"1.0663");
        },
        other => panic!("{:?}", other),
    }
    assert_eq!(c.spot_subscription_list(), vec![1]);
    assert!(c.depth_subscription_list().is_empty());
    let p = c.price_of(1).unwrap();
    assert_eq!(p.bid.as_bytes(), b"1.06625");
    assert_eq!(p.ask.as_bytes(), b"1.0663");
}

#[test]
fn acceptance_is_reported_once() {
    let mut c = client();
    c.subscribe_spot(1, &now()).unwrap();
    let first = feed(&mut c, "35=W|55=1|268=2|269=0|270=1.1|269=1|270=1.2|");
    let accepted = |events: &Vec<MarketEvent>| {
        events.iter().filter(|e| matches!(e, MarketEvent::AcceptedSpotSubscription(1))).count()
    };
    assert_eq!(accepted(&first), 1);
    let second = feed(&mut c, "35=W|55=1|268=2|269=0|270=1.3|269=1|270=1.4|");
    assert_eq!(accepted(&second), 0);
    assert_eq!(second.len(), 1);
    assert_eq!(c.price_of(1).unwrap().bid.as_bytes(), b"1.3");
    assert_eq!(c.price_of(1).unwrap().ask.as_bytes(), b"1.4");
}

#[test]
fn subscribing_twice_is_refused() {
    let mut c = client();
    c.subscribe_spot(1, &now()).unwrap();
    assert!(matches!(
        c.subscribe_spot(1, &now()),
        Err(Error::RequestingSubscription(1, MarketType::Spot))
    ));
    // the kinds do not get in each other's way
    assert!(c.subscribe_depth(1, &now()).is_ok());
    assert!(matches!(
        c.subscribe_depth(1, &now()),
        Err(Error::RequestingSubscription(1, MarketType::Depth))
    ));
    feed(&mut c, "35=W|55=1|268=2|269=0|270=1.1|269=1|270=1.2|");
    assert!(matches!(
        c.subscribe_spot(1, &now()),
        Err(Error::SubscribedAlready(1, MarketType::Spot))
    ));
    assert!(c.subscribe_spot(2, &now()).is_ok());
    // refused requests take no sequence number: logon, three requests
    assert_eq!(c.get_session().get_next_seq(), 5);
}

#[test]
fn subscribe_with_a_given_identifier() {
    let mut c = client();
    let bytes = c.subscribe_with(MarketType::Depth, 42, b"req-1".to_vec(), &now()).unwrap();
    assert_eq!(
        show(&bytes),
        "8=FIX.4.4|9=119|35=V|49=c.u|56=cServer|57=QUOTE|50=QUOTE|34=2|52=20170117-10:26:54|262=req-1|263=1|264=0|267=2|269=0|269=1|146=1|55=42|10=134|"
    );
}

#[test]
fn subscribing_without_connection_leaves_the_symbol_requested() {
    let mut c = MarketClient::new(b"h".to_vec(), b"u".to_vec(), b"p".to_vec(), b"c".to_vec(), None);
    assert!(matches!(c.subscribe_spot(1, &now()), Err(Error::NotConnected)));
    assert!(matches!(
        c.subscribe_spot(1, &now()),
        Err(Error::RequestingSubscription(1, MarketType::Spot))
    ));
}

#[test]
fn subscribing_before_the_logon_is_answered_is_refused() {
    let mut c = MarketClient::new(b"h".to_vec(), b"u".to_vec(), b"p".to_vec(), b"c".to_vec(), None);
    c.connect().unwrap();
    c.on_connected(true);
    c.logon(&now()).unwrap();
    assert!(matches!(c.subscribe_depth(3, &now()), Err(Error::LoggedOut)));
    assert_eq!(c.get_session().get_next_seq(), 2);
}

#[test]
fn rejected_subscription() {
    let mut c = client();
    c.subscribe_with(MarketType::Spot, 5, b"req-5".to_vec(), &now()).unwrap();
    c.subscribe_with(MarketType::Depth, 6, b"req-6".to_vec(), &now()).unwrap();
    assert!(feed(&mut c, "35=Y|262=other|58=nothing|").is_empty());
    let events = feed(&mut c, "35=Y|262=req-5|58=INVALID_REQUEST|");
    assert_eq!(events.len(), 1);
    match &events[0] {
        MarketEvent::RejectedSpotSubscription(5, text) => assert_eq!(text, b"INVALID_REQUEST"),
        other => panic!("{:?}", other),
    }
    let events = feed(&mut c, "35=Y|262=req-6|");
    assert_eq!(events.len(), 1);
    match &events[0] {
        MarketEvent::RejectedDepthSubscription(6, text) => assert!(text.is_empty()),
        other => panic!("{:?}", other),
    }
    // a reject is reported once
    assert!(feed(&mut c, "35=Y|262=req-5|58=INVALID_REQUEST|").is_empty());
    assert!(c.spot_subscription_list().is_empty());
    assert!(matches!(
        c.unsubscribe_spot(5, &now()),
        Err(Error::NotSubscribed(5, MarketType::Spot))
    ));
    // a rejected symbol can be requested again
    assert!(c.subscribe_spot(5, &now()).is_ok());
}

#[test]
fn unsubscribe_states() {
    let mut c = client();
    assert!(matches!(
        c.unsubscribe_spot(1, &now()),
        Err(Error::NotSubscribed(1, MarketType::Spot))
    ));
    assert!(matches!(
        c.unsubscribe_depth(1, &now()),
        Err(Error::NotSubscribed(1, MarketType::Depth))
    ));
    c.subscribe_spot(1, &now()).unwrap();
    assert!(matches!(
        c.unsubscribe_spot(1, &now()),
        Err(Error::RequestingSubscription(1, MarketType::Spot))
    ));
    feed(&mut c, "35=W|55=1|268=2|269=0|270=1.1|269=1|270=1.2|");
    assert!(c.price_of(1).is_ok());
    let bytes = c.unsubscribe_spot(1, &now()).unwrap();
    assert_eq!(
        show(&bytes),
        "8=FIX.4.4|9=115|35=V|49=c.u|56=cServer|57=QUOTE|50=QUOTE|34=3|52=20170117-10:26:54|262=-1|263=2|264=1|267=2|269=0|269=1|146=1|55=1|10=008|"
    );
    assert!(c.spot_subscription_list().is_empty());
    assert!(matches!(c.price_of(1), Err(Error::NotSubscribed(1, MarketType::Spot))));
    assert!(matches!(
        c.unsubscribe_spot(1, &now()),
        Err(Error::NotSubscribed(1, MarketType::Spot))
    ));
}

#[test]
fn unsubscribe_depth_forgets_the_book() {
    let mut c = client();
    c.subscribe_depth(1, &now()).unwrap();
    feed(&mut c, "35=W|55=1|268=1|269=0|278=e1|270=1.00|271=10|");
    assert_eq!(c.depth_subscription_list(), vec![1]);
    assert!(c.depth_data(1).is_ok());
    let bytes = c.unsubscribe_depth(1, &now()).unwrap();
    assert!(show(&bytes).contains("|262=-1|263=2|264=0|267=2|269=0|269=1|146=1|55=1|"));
    assert!(c.depth_subscription_list().is_empty());
    assert!(c.depth_data(1).is_err());
    // what comes late for the symbol is discarded
    assert!(feed(&mut c, "35=X|268=1|279=0|278=e2|55=1|269=0|270=0.99|271=5|").is_empty());
    assert!(feed(&mut c, "35=W|55=1|268=1|269=0|278=e1|270=1.00|271=10|").is_empty());
    assert!(c.depth_data(1).is_err());
}

#[test]
fn depth_snapshot_replaces_the_book() {
    let mut c = client();
    c.subscribe_depth(1, &now()).unwrap();
    let events = feed(
        &mut c,
        "35=W|55=1|268=3|269=0|278=e1|270=1.00|271=10|269=1|278=e2|270=1.01|271=20|269=0|278=e1|270=0.98|271=30|",
    );
    assert_eq!(events.len(), 2);
    assert!(matches!(events[0], MarketEvent::AcceptedDepthSubscription(1)));
    match &events[1] {
        MarketEvent::MarketDepthFullRefresh(1, book) => {
            assert_eq!(book_text(book), vec!["e1:Bid@0.98x30", "e2:Ask@1.01x20"]);
        },
        other => panic!("{:?}", other),
    }
    assert_eq!(book_text(&c.depth_data(1).unwrap()), vec!["e1:Bid@0.98x30", "e2:Ask@1.01x20"]);
    let events = feed(&mut c, "35=W|55=1|268=1|269=1|278=e9|270=2|271=1|");
    assert_eq!(events.len(), 1);
    assert_eq!(book_text(&c.depth_data(1).unwrap()), vec!["e9:Ask@2x1"]);
    // a snapshot without entries empties the book
    let events = feed(&mut c, "35=W|55=1|268=0|");
    assert_eq!(events.len(), 1);
    assert_eq!(c.depth_data(1).unwrap().len(), 0);
}

#[test]
fn depth_incremental() {
    let mut c = client();
    c.subscribe_depth(1, &now()).unwrap();
    feed(&mut c, "35=W|55=1|268=1|269=0|278=e1|270=1.00|271=10|");
    assert_eq!(book_text(&c.depth_data(1).unwrap()), vec!["e1:Bid@1.00x10"]);
    let events = feed(
        &mut c,
        "35=X|268=2|279=0|278=e2|55=1|269=0|270=0.99|271=5|279=2|278=e1|55=1|",
    );
    assert_eq!(events.len(), 1);
    match &events[0] {
        MarketEvent::MarketDepthIncrementalRefresh(list) => {
            assert_eq!(list.len(), 2);
            match &list[0] {
                IncrementalRefresh::New { symbol_id, entry_id, data } => {
                    assert_eq!(*symbol_id, 1);
                    assert_eq!(entry_id, b"e2");
                    assert_eq!(data.price_type, PriceType::Bid);
                    assert_eq!(data.price.as_bytes(), b"0.99");
                    assert_eq!(data.size.as_bytes(), b"5");
                },
                other => panic!("{:?}", other),
            }
            match &list[1] {
                IncrementalRefresh::Delete { symbol_id, entry_id } => {
                    assert_eq!(*symbol_id, 1);
                    assert_eq!(entry_id, b"e1");
                },
                other => panic!("{:?}", other),
            }
        },
        other => panic!("{:?}", other),
    }
    assert_eq!(book_text(&c.depth_data(1).unwrap()), vec!["e2:Bid@0.99x5"]);
}

#[test]
fn new_then_delete_leaves_the_book_as_it_was() {
    let mut c = client();
    c.subscribe_depth(1, &now()).unwrap();
    feed(&mut c, "35=W|55=1|268=2|269=0|278=e1|270=1.00|271=10|269=1|278=e2|270=1.01|271=20|");
    let before = book_text(&c.depth_data(1).unwrap());
    feed(&mut c, "35=X|268=2|279=0|278=e3|55=1|269=0|270=0.99|271=5|279=2|278=e3|55=1|");
    assert_eq!(book_text(&c.depth_data(1).unwrap()), before);
    feed(&mut c, "35=X|268=1|279=0|278=e3|55=1|269=0|270=0.99|271=5|");
    assert_ne!(book_text(&c.depth_data(1).unwrap()), before);
    feed(&mut c, "35=X|268=1|279=2|278=e3|55=1|");
    assert_eq!(book_text(&c.depth_data(1).unwrap()), before);
}

#[test]
fn incremental_refresh_passes_over_what_it_cannot_use() {
    let mut c = client();
    c.subscribe_depth(1, &now()).unwrap();
    feed(&mut c, "35=W|55=1|268=1|269=0|278=e1|270=1.00|271=10|");
    // symbol 2 is not subscribed, the third entry has no size, the fourth an unknown action
    let events = feed(
        &mut c,
        "35=X|268=5|279=0|278=b|55=1|269=1|270=2|271=3|279=0|278=a|55=2|269=0|270=1|271=1|279=0|278=c|55=1|269=1|270=2|279=1|278=d|55=1|269=1|270=2|271=3|279=2|278=zz|55=1|",
    );
    match &events[0] {
        MarketEvent::MarketDepthIncrementalRefresh(list) => assert_eq!(list.len(), 2),
        other => panic!("{:?}", other),
    }
    assert_eq!(book_text(&c.depth_data(1).unwrap()), vec!["b:Ask@2x3", "e1:Bid@1.00x10"]);
    assert!(c.depth_data(2).is_err());
    // a refresh that names a symbol without accepted subscription first is discarded
    assert!(feed(&mut c, "35=X|268=2|279=0|278=a|55=2|269=0|270=1|271=1|279=2|278=b|55=1|").is_empty());
    assert_eq!(book_text(&c.depth_data(1).unwrap()), vec!["b:Ask@2x3", "e1:Bid@1.00x10"]);
}

#[test]
fn snapshot_for_a_symbol_that_was_not_requested() {
    let mut c = client();
    // a depth book exists for accepted subscriptions only
    assert!(feed(&mut c, "35=W|55=9|268=1|269=0|278=e1|270=1.00|271=10|").is_empty());
    assert!(c.depth_data(9).is_err());
    // a spot price is kept as it comes
    let events = feed(&mut c, "35=W|55=9|268=2|269=1|270=1.2|269=0|270=1.1|");
    assert_eq!(events.len(), 1);
    assert!(matches!(events[0], MarketEvent::PriceOf(9, _)));
    assert_eq!(c.price_of(9).unwrap().bid.as_bytes(), b"1.1");
    assert_eq!(c.price_of(9).unwrap().ask.as_bytes(), b"1.2");
    assert!(c.spot_subscription_list().is_empty());
}

#[test]
fn spot_price_needs_two_well_formed_entries() {
    assert!(spot_price_from_market_data(&entries("268=1|269=0|270=1.1|", Field::MDEntryType)).is_none());
    assert!(spot_price_from_market_data(&entries("268=2|269=0|270=x|269=1|270=1.2|", Field::MDEntryType)).is_none());
    assert!(spot_price_from_market_data(&entries("268=2|269=0|270=1.1|269=1|", Field::MDEntryType)).is_none());
    let both_bids = spot_price_from_market_data(&entries("268=2|269=0|270=1.1|269=0|270=1.2|", Field::MDEntryType)).unwrap();
    assert_eq!(both_bids.bid.as_bytes(), b"1.2");
    assert_eq!(both_bids.ask.as_bytes(), b"0");
    let p = spot_price_from_market_data(&entries("268=3|269=0|270=1.1|269=1|270=1.2|269=0|270=9|", Field::MDEntryType)).unwrap();
    assert_eq!(p.bid.as_bytes(), b"1.1");
    assert_eq!(p.ask.as_bytes(), b"1.2");
}

#[test]
fn depth_entries_need_four_fields() {
    let data = entries(
        "268=4|269=0|278=e1|270=1.00|271=10|269=1|278=e2|270=1.01|269=2|278=e3|270=1|271=1|269=1|278=e4|270=1.5|271=2|",
        Field::MDEntryType,
    );
    assert_eq!(data.len(), 4);
    let book = depth_data_from_entries(&data);
    assert_eq!(book_text(&book), vec!["e1:Bid@1.00x10", "e4:Ask@1.5x2"]);
    let mut other = DepthBook::new();
    insert_entry_to(&data[1], &mut other);
    assert_eq!(other.len(), 0);
    insert_entry_to(&data[0], &mut other);
    assert_eq!(other.len(), 1);
    assert_eq!(other.get(b"e1").unwrap().size.as_bytes(), b"10");
}

#[test]
fn depth_book_by_itself() {
    let mut book = DepthBook::new();
    assert_eq!(book.len(), 0);
    assert!(book.get(b"a").is_none());
    book.insert(b"a".to_vec(), price(PriceType::Bid, "1", "2"));
    book.insert(b"b".to_vec(), price(PriceType::Ask, "3", "4"));
    book.insert(b"a".to_vec(), price(PriceType::Ask, "5", "6"));
    assert_eq!(book.len(), 2);
    assert_eq!(book_text(&book), vec!["a:Ask@5x6", "b:Ask@3x4"]);
    assert_eq!(book.get(b"a").unwrap().price.as_bytes(), b"5");
    book.remove(b"zz");
    assert_eq!(book.len(), 2);
    book.remove(b"a");
    assert_eq!(book_text(&book), vec!["b:Ask@3x4"]);
    assert_eq!(book_text(&book.duplicate()), vec!["b:Ask@3x4"]);
    book.remove(b"b");
    assert_eq!(book.len(), 0);
}

#[test]
fn subscriptions_by_themselves() {
    let mut s = Subscriptions::new();
    assert!(s.get(1).is_none());
    s.set(1, RequestState::Requested(b"a".to_vec()));
    s.set(2, RequestState::Requested(b"b".to_vec()));
    s.set(3, RequestState::Requested(b"b".to_vec()));
    assert!(matches!(s.get(1), Some(RequestState::Requested(id)) if id == b"a".to_vec()));
    assert_eq!(s.requested_by(b"a"), Some(1));
    // an identifier that two symbols wait for names neither
    assert_eq!(s.requested_by(b"b"), None);
    assert_eq!(s.requested_by(b"c"), None);
    assert_eq!(s.reject(b"b"), None);
    assert!(s.accept(2));
    assert!(!s.accept(2));
    assert!(!s.accept(9));
    assert_eq!(s.accepted(), vec![2]);
    assert_eq!(s.requested_by(b"b"), Some(3));
    assert_eq!(s.reject(b"b"), Some(3));
    assert!(matches!(s.get(3), Some(RequestState::Rejected)));
    assert!(s.accept(1));
    let mut both = s.accepted();
    both.sort();
    assert_eq!(both, vec![1, 2]);
    s.remove(1);
    s.remove(7);
    assert_eq!(s.accepted(), vec![2]);
    assert!(s.get(1).is_none());
    assert!(matches!(s.get(2).unwrap().duplicate(), RequestState::Accepted));
}

#[test]
fn subscription_lists_name_each_accepted_symbol_once() {
    let mut c = client();
    for symbol in [7, 3, 9, 1] {
        c.subscribe_spot(symbol, &now()).unwrap();
    }
    c.subscribe_depth(3, &now()).unwrap();
    for symbol in [9, 3, 7] {
        feed(&mut c, &format!("35=W|55={}|268=2|269=0|270=1.1|269=1|270=1.2|", symbol));
    }
    let mut spot = c.spot_subscription_list();
    spot.sort();
    assert_eq!(spot, vec![3, 7, 9]);
    assert!(c.depth_subscription_list().is_empty());
}

#[test]
fn copy_of_a_change() {
    let change = IncrementalRefresh::New {
        symbol_id: 3,
        entry_id: b"e".to_vec(),
        data: price(PriceType::Ask, "1.5", "2"),
    };
    match copy_refresh(&change) {
        IncrementalRefresh::New { symbol_id, entry_id, data } => {
            assert_eq!(symbol_id, 3);
            assert_eq!(entry_id, b"e".to_vec());
            assert_eq!(data.price.as_bytes(), b"1.5");
        },
        other => panic!("{:?}", other),
    }
    let delete = IncrementalRefresh::Delete { symbol_id: 4, entry_id: b"f".to_vec() };
    assert!(matches!(copy_refresh(&delete), IncrementalRefresh::Delete { symbol_id: 4, .. }));
}

#[test]
fn session_of_the_quote_client() {
    let mut c = client();
    assert!(c.is_connected());
    let hb = c.heartbeat(&now()).unwrap();
    assert!(show(&hb).contains("|35=0|"));
    assert!(show(&hb).contains("|57=QUOTE|50=QUOTE|34=2|"));
    let out = c.logout(&now()).unwrap();
    assert!(show(&out).contains("|35=5|"));
    assert!(matches!(c.on_message(&inbound("35=5|"), &now()), Ok(Dispatch::PeerLogout)));
    assert!(!c.is_connected());
    assert!(!c.disconnect());
    let mut d = client();
    d.subscribe_depth(1, &now()).unwrap();
    feed(&mut d, "35=W|55=1|268=1|269=0|278=e1|270=1.00|271=10|");
    assert!(d.disconnect());
    // what the client knows of the market outlives the connection
    assert_eq!(d.depth_subscription_list(), vec![1]);
    assert_eq!(d.depth_data(1).unwrap().len(), 1);
}
