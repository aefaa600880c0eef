use cfix::decimal::Decimal;
use cfix::fixapi::{Dispatch, SessionState};
use cfix::messages::ResponseMessage;
use cfix::parse_func::parse_security_list;
use cfix::requests::NewOrderSingleReq;
use cfix::time::Timestamp;
use cfix::trade_client::{
    cancel_reply, order_reply, order_status_step, positions_step, replace_reply, Exchange,
    Expectation, TimeoutItem, TradeClient, DEFAULT_TIMEOUT, RESPONSE_LIFETIME,
};
use cfix::types::{
    Error, ExecutionType, Field, OrderType, PositionReport, Side, DELIMITER,
};

fn wire(text: &str) -> Vec<u8> {
    text.bytes().map(|b| if b == b'|' { DELIMITER } else { b }).collect()
}

fn show(bytes: &[u8]) -> String {
    bytes.iter().map(|b| if *b == DELIMITER { '|' } else { *b as char }).collect()
}

fn inbound(text: &str) -> ResponseMessage {
    ResponseMessage::new(&wire(text), DELIMITER)
}

fn now() -> Timestamp {
    Timestamp::from_millis(1484648814000).unwrap()
}

fn dec(text: &str) -> Decimal {
    Decimal::parse(text.as_bytes()).unwrap()
}

fn client() -> TradeClient {
    let mut c =
        TradeClient::new(b"h".to_vec(), b"u".to_vec(), b"p".to_vec(), b"c".to_vec(), Some(30));
    assert_eq!(c.connect().unwrap(), 5202);
    assert!(c.on_connected(true));
    c.logon(&now()).unwrap();
    assert!(matches!(
        c.on_message(&inbound("35=A|"), &now()),
        Ok(Dispatch::LoggedOn { heartbeat_interval: 30 })
    ));
    c
}

fn idle() -> TradeClient {
    TradeClient::new(b"h".to_vec(), b"u".to_vec(), b"p".to_vec(), b"c".to_vec(), None)
}

fn field(bytes: &[u8], f: Field) -> Option<String> {
    ResponseMessage::new(bytes, DELIMITER).get_field_value(f).map(|v| String::from_utf8(v).unwrap())
}

fn body(bytes: &[u8]) -> String {
    let text = show(bytes);
    let start = text.find("|52=").unwrap() + 22;
    let end = text.rfind("10=").unwrap();
    text[start..end].to_string()
}

fn expects(x: &Exchange) -> Vec<(String, Field, String)> {
    x.expects.iter().map(|e| (show(&e.msg_type), e.field, show(&e.value))).collect()
}

fn expectation(msg_type: &str, field: Field, value: &str) -> Expectation {
    Expectation { msg_type: msg_type.as_bytes().to_vec(), field, value: value.as_bytes().to_vec() }
}

const REPORT: &str = "35=8|11=ord-1|14=0|37=101|38=1000|39=0|40=1|54=1|55=1|59=3|60=20170117-10:26:54.630|150=0|151=1000|721=pos-1|";
const POSITION: &str = "35=AP|710=req|721=pos-1|727=2|728=0|55=1|702=1|704=1000|705=0|730=1.06671|";

#[test]
fn timeout_item_expires_after_its_lifetime() {
    let item = TimeoutItem::new(inbound("35=8|"), 1000, 5000);
    assert_eq!(item.expiry, 6000);
    assert!(!item.read);
    assert_eq!(item.item.get_message_type(), Some(b"8".to_vec()));
    assert_eq!(TimeoutItem::new(inbound("35=8|"), u64::MAX - 1, 5000).expiry, u64::MAX);
    assert_eq!(TimeoutItem::new(inbound("35=8|"), 0, 0).expiry, 0);
    assert_eq!(RESPONSE_LIFETIME, 5000);
    assert_eq!(DEFAULT_TIMEOUT, 5000);
}

#[test]
fn new_trade_client_is_idle() {
    let c = idle();
    assert!(!c.is_connected());
    assert_eq!(c.get_session().get_state(), SessionState::Disconnected);
    assert_eq!(c.get_session().get_config().heart_beat, 30);
    assert!(matches!(c.check_connection(), Err(Error::NotConnected)));
    assert!(client().check_connection().is_ok());
}

#[test]
fn requests_need_a_connection() {
    let mut c = idle();
    assert!(matches!(c.fetch_security_list(&now()), Err(Error::NotConnected)));
    assert!(matches!(c.fetch_positions(&now()), Err(Error::NotConnected)));
    assert!(matches!(c.fetch_all_order_status(None, &now()), Err(Error::NotConnected)));
    assert!(matches!(
        c.new_market_order(1, Side::BUY, dec("1"), None, None, None, None, &now()),
        Err(Error::NotConnected)
    ));
    assert!(matches!(
        c.cancel_order(Some(b"o".to_vec()), None, &now()),
        Err(Error::NotConnected)
    ));
    assert!(matches!(
        c.replace_order(None, Some(b"o".to_vec()), dec("1"), None, None, None, &now()),
        Err(Error::NotConnected)
    ));
    assert_eq!(c.get_session().get_next_seq(), 1);
    // a connection is not enough: the session has to be logged on
    c.connect().unwrap();
    c.on_connected(true);
    assert!(c.check_connection().is_ok());
    assert!(matches!(c.fetch_positions(&now()), Err(Error::LoggedOut)));
    c.logon(&now()).unwrap();
    assert!(matches!(c.fetch_security_list(&now()), Err(Error::LoggedOut)));
    assert_eq!(c.get_session().get_next_seq(), 2);
}

#[test]
fn cancel_without_an_order_is_a_missing_argument() {
    let mut c = client();
    assert!(matches!(c.cancel_order(None, None, &now()), Err(Error::MissingArgumentError)));
    assert!(matches!(
        c.cancel_order_with(None, None, b"c".to_vec(), &now()),
        Err(Error::MissingArgumentError)
    ));
    assert!(matches!(
        c.replace_order(None, None, dec("1"), None, None, None, &now()),
        Err(Error::MissingArgumentError)
    ));
    // nothing was sent
    assert_eq!(c.get_session().get_next_seq(), 2);
    // the argument is missed before the connection is
    let mut off = idle();
    assert!(matches!(off.cancel_order(None, None, &now()), Err(Error::MissingArgumentError)));
    assert!(matches!(
        off.replace_order(None, None, dec("1"), None, None, None, &now()),
        Err(Error::MissingArgumentError)
    ));
}

#[test]
fn security_list_request() {
    let mut c = client();
    let x = c.fetch_security_list_with(b"sec-1".to_vec(), &now()).unwrap();
    assert_eq!(
        show(&x.message),
        "8=FIX.4.4|9=83|35=x|49=c.u|56=cServer|57=TRADE|50=TRADE|34=2|52=20170117-10:26:54|320=sec-1|559=0|10=225|"
    );
    assert_eq!(expects(&x), vec![("y".to_string(), Field::SecurityReqID, "sec-1".to_string())]);
    let fresh = c.fetch_security_list(&now()).unwrap();
    let id = field(&fresh.message, Field::SecurityReqID).unwrap();
    assert_eq!(id.len(), 36);
    assert_eq!(expects(&fresh), vec![("y".to_string(), Field::SecurityReqID, id)]);
    assert_eq!(field(&fresh.message, Field::MsgSeqNum).unwrap(), "3");
}

#[test]
fn security_list_times_out_and_is_asked_again() {
    let mut c = client();
    let first = c.fetch_security_list_with(b"sec-1".to_vec(), &now()).unwrap();
    // the peer stays silent: nothing is found, and the time runs out
    assert!(c.fetch_response(&first.expects).is_none());
    assert_eq!(c.remaining_time(0).unwrap(), 5000);
    assert_eq!(c.remaining_time(4999).unwrap(), 1);
    assert!(matches!(c.remaining_time(5000), Err(Error::TimeoutError)));
    assert!(matches!(c.remaining_time(u64::MAX), Err(Error::TimeoutError)));
    // a second request finds its answer once it arrives
    let second = c.fetch_security_list_with(b"sec-2".to_vec(), &now()).unwrap();
    assert!(c.fetch_response(&second.expects).is_none());
    c.on_trade_message(inbound("35=y|320=sec-2|146=1|55=1|1007=EURUSD|1008=5|"), 10_000);
    assert!(c.fetch_response(&first.expects).is_none());
    let answer = c.fetch_response(&second.expects).unwrap();
    let list = parse_security_list(&answer).unwrap();
    assert_eq!(list.len(), 1);
    assert_eq!(list[0].name, b"EURUSD".to_vec());
    assert!(matches!(idle().remaining_time(0), Err(Error::NotConnected)));
}

#[test]
fn an_answer_is_taken_once() {
    let mut c = client();
    let wanted = vec![expectation("8", Field::ClOrdId, "a")];
    c.on_trade_message(inbound("35=8|11=a|58=first|"), 0);
    c.on_trade_message(inbound("35=8|11=b|"), 1);
    c.on_trade_message(inbound("35=8|11=a|58=second|"), 2);
    // the newest comes first
    let one = c.fetch_response(&wanted).unwrap();
    assert_eq!(one.get_field_value(Field::Text), Some(b"second".to_vec()));
    let two = c.fetch_response(&wanted).unwrap();
    assert_eq!(two.get_field_value(Field::Text), Some(b"first".to_vec()));
    assert!(c.fetch_response(&wanted).is_none());
    assert!(c.fetch_response(&Vec::new()).is_none());
    let other = vec![expectation("j", Field::BusinessRejectRefID, "b"), expectation("8", Field::ClOrdId, "b")];
    assert_eq!(c.fetch_response(&other).unwrap().get_field_value(Field::ClOrdId), Some(b"b".to_vec()));
    assert!(c.fetch_response(&other).is_none());
}

#[test]
fn answers_leave_the_queue_when_their_time_is_over() {
    let mut c = client();
    let wanted = vec![expectation("8", Field::ClOrdId, "a")];
    c.on_trade_message(inbound("35=8|11=a|58=old|"), 1_000);
    // still there at the end of its lifetime
    c.on_trade_message(inbound("35=j|"), 6_000);
    assert_eq!(c.fetch_response(&wanted).unwrap().get_field_value(Field::Text), Some(b"old".to_vec()));
    c.on_trade_message(inbound("35=8|11=a|58=older|"), 6_000);
    c.on_trade_message(inbound("35=8|11=a|58=newer|"), 11_000);
    // at 11 001 the answer of 6 000 is over, that of 11 000 is not
    c.on_trade_message(inbound("35=j|"), 11_001);
    assert_eq!(c.fetch_response(&wanted).unwrap().get_field_value(Field::Text), Some(b"newer".to_vec()));
    assert!(c.fetch_response(&wanted).is_none());
}

#[test]
fn execution_reports_are_handed_to_the_handler() {
    let mut c = client();
    let report = c.on_trade_message(inbound(REPORT), 0).unwrap();
    assert_eq!(report.exec_type, ExecutionType::New);
    assert_eq!(report.order_report.cl_ord_id, b"ord-1".to_vec());
    // an order status is for the request that asked for it
    assert!(c.on_trade_message(inbound(&REPORT.replace("150=0", "150=I")), 0).is_none());
    // a report that cannot be read is passed over
    assert!(c.on_trade_message(inbound("35=8|150=0|"), 0).is_none());
    assert!(c.on_trade_message(inbound("35=8|"), 0).is_none());
    assert!(c.on_trade_message(inbound(&REPORT.replace("35=8", "35=j")), 0).is_none());
    // all of them wait in the queue
    let wanted = vec![expectation("8", Field::ClOrdId, "ord-1")];
    assert!(c.fetch_response(&wanted).is_some());
    assert!(c.fetch_response(&wanted).is_some());
    assert!(c.fetch_response(&wanted).is_none());
}

#[test]
fn order_reject() {
    let mut c = client();
    let x = c
        .new_market_order(999999, Side::BUY, dec("0.01"), Some(b"ord-1".to_vec()), None, None, None, &now())
        .unwrap();
    assert_eq!(
        show(&x.message),
        "8=FIX.4.4|9=125|35=D|49=c.u|56=cServer|57=TRADE|50=TRADE|34=2|52=20170117-10:26:54|11=ord-1|55=999999|54=1|60=20170117-10:26:54|38=0.01|40=1|10=187|"
    );
    assert_eq!(
        expects(&x),
        vec![
            ("8".to_string(), Field::ClOrdId, "ord-1".to_string()),
            ("j".to_string(), Field::BusinessRejectRefID, "ord-1".to_string()),
        ]
    );
    let peer = match c.on_message(&inbound("35=j|379=ord-1|58=Invalid symbol|"), &now()).unwrap() {
        Dispatch::Trade(message) => message,
        other => panic!("{:?}", other),
    };
    assert!(c.on_trade_message(peer, 100).is_none());
    assert!(c.remaining_time(100).is_ok());
    let answer = c.fetch_response(&x.expects).unwrap();
    match order_reply(&answer) {
        Err(Error::OrderFailed(text)) => assert_eq!(text, b"Invalid symbol".to_vec()),
        other => panic!("{:?}", other),
    }
}

#[test]
fn order_replies() {
    match order_reply(&inbound("35=j|379=ord-1|")) {
        Err(Error::OrderFailed(text)) => assert_eq!(text, b"Unknown".to_vec()),
        other => panic!("{:?}", other),
    }
    assert_eq!(order_reply(&inbound(REPORT)).unwrap().order_report.order_id, b"101".to_vec());
    assert!(matches!(order_reply(&inbound("35=9|")), Err(Error::UnknownError)));
    assert!(matches!(order_reply(&inbound("11=x|")), Err(Error::UnknownError)));
    assert!(matches!(
        order_reply(&inbound("35=8|")),
        Err(Error::FieldNotFoundError(Field::ExecType))
    ));
}

#[test]
fn replace_and_cancel_replies() {
    match replace_reply(&inbound("35=j|58=too late|")) {
        Err(Error::OrderFailed(text)) => assert_eq!(text, b"too late".to_vec()),
        other => panic!("{:?}", other),
    }
    match replace_reply(&inbound("35=j|")) {
        Err(Error::OrderFailed(text)) => assert_eq!(text, b"Unknown error".to_vec()),
        other => panic!("{:?}", other),
    }
    assert!(replace_reply(&inbound(REPORT)).is_ok());
    match replace_reply(&inbound("35=9|58=too far|")) {
        Err(Error::OrderCancelRejected(text)) => assert_eq!(text, b"too far".to_vec()),
        other => panic!("{:?}", other),
    }
    match replace_reply(&inbound("35=9|")) {
        Err(Error::OrderCancelRejected(text)) => assert_eq!(text, b"Unknown error".to_vec()),
        other => panic!("{:?}", other),
    }
    assert!(matches!(
        replace_reply(&inbound("35=y|")),
        Err(Error::FieldNotFoundError(Field::ExecType))
    ));
    match cancel_reply(&inbound("35=j|58=no|")) {
        Err(Error::OrderFailed(text)) => assert_eq!(text, b"no".to_vec()),
        other => panic!("{:?}", other),
    }
    match cancel_reply(&inbound("35=9|58=gone|")) {
        Err(Error::OrderCancelRejected(text)) => assert_eq!(text, b"gone".to_vec()),
        other => panic!("{:?}", other),
    }
    match cancel_reply(&inbound("35=9|")) {
        Err(Error::OrderCancelRejected(text)) => assert_eq!(text, b"Unknown error".to_vec()),
        other => panic!("{:?}", other),
    }
    assert_eq!(
        cancel_reply(&inbound(&REPORT.replace("150=0", "150=4"))).unwrap().exec_type,
        ExecutionType::Canceled
    );
}

#[test]
fn orders_of_each_kind() {
    let mut c = client();
    let market = c.new_market_order(1, Side::SELL, dec("2"), None, Some(b"pos".to_vec()), Timestamp::from_millis(0), Some(b"lbl".to_vec()), &now()).unwrap();
    let id = field(&market.message, Field::ClOrdId).unwrap();
    assert_eq!(id.len(), 36);
    assert_eq!(
        body(&market.message),
        format!("11={}|55=1|54=2|60=19700101-00:00:00|38=2|40=1|721=pos|494=lbl|", id)
    );
    assert_eq!(expects(&market)[0], ("8".to_string(), Field::ClOrdId, id.clone()));
    assert_eq!(expects(&market)[1], ("j".to_string(), Field::BusinessRejectRefID, id));
    let limit = c.new_limit_order(1, Side::BUY, dec("1.5"), dec("2"), Some(b"l".to_vec()), None, Timestamp::from_millis(86400000), None, None, &now()).unwrap();
    assert_eq!(
        body(&limit.message),
        "11=l|55=1|54=1|60=20170117-10:26:54|38=2|40=2|44=1.5|126=19700102-00:00:00|"
    );
    let stop = c.new_stop_order(1, Side::BUY, dec("1.4"), dec("2"), Some(b"s".to_vec()), None, None, None, None, &now()).unwrap();
    assert_eq!(body(&stop.message), "11=s|55=1|54=1|60=20170117-10:26:54|38=2|40=3|99=1.4|");
    let order = NewOrderSingleReq::new(b"n".to_vec(), 3, Side::BUY, None, dec("7"), OrderType::STOP_LIMIT, Some(dec("1")), Some(dec("2")), None, None, None);
    let sent = c.new_order(order, &now()).unwrap();
    assert_eq!(body(&sent.message), "11=n|55=3|54=1|60=20170117-10:26:54|38=7|40=4|44=1|99=2|");
    assert_eq!(field(&sent.message, Field::MsgSeqNum).unwrap(), "5");
}

fn position(long: &str, short: &str) -> PositionReport {
    PositionReport {
        symbol_id: 4,
        position_id: b"pos-9".to_vec(),
        long_qty: dec(long),
        short_qty: dec(short),
        settle_price: dec("1.1"),
        absolute_tp: None,
        absolute_sl: None,
        trailing_sl: None,
        trigger_method_sl: None,
        guaranteed_sl: None,
    }
}

#[test]
fn closing_a_position_trades_against_it() {
    let mut c = client();
    let long = c.close_position(position("1000", "0"), &now()).unwrap();
    let id = field(&long.message, Field::ClOrdId).unwrap();
    assert_eq!(
        body(&long.message),
        format!("11={}|55=4|54=2|60=20170117-10:26:54|38=1000|40=1|721=pos-9|", id)
    );
    let short = c.close_position(position("0.0", "250"), &now()).unwrap();
    let id = field(&short.message, Field::ClOrdId).unwrap();
    assert_eq!(
        body(&short.message),
        format!("11={}|55=4|54=1|60=20170117-10:26:54|38=250|40=1|721=pos-9|", id)
    );
    let adjust = c.adjust_position_size(b"pos-1".to_vec(), 2, dec("10"), Side::BUY, &now()).unwrap();
    let id = field(&adjust.message, Field::ClOrdId).unwrap();
    assert_eq!(
        body(&adjust.message),
        format!("11={}|55=2|54=1|60=20170117-10:26:54|38=10|40=1|721=pos-1|", id)
    );
}

#[test]
fn cancel_request() {
    let mut c = client();
    let x = c.cancel_order_with(Some(b"o".to_vec()), None, b"c".to_vec(), &now()).unwrap();
    assert_eq!(
        show(&x.message),
        "8=FIX.4.4|9=82|35=F|49=c.u|56=cServer|57=TRADE|50=TRADE|34=2|52=20170117-10:26:54|41=o|11=c|37=o|10=093|"
    );
    assert_eq!(
        expects(&x),
        vec![
            ("8".to_string(), Field::ClOrdId, "c".to_string()),
            ("j".to_string(), Field::BusinessRejectRefID, "c".to_string()),
            ("9".to_string(), Field::ClOrdId, "c".to_string()),
        ]
    );
    let by_id = c.cancel_order_with(None, Some(b"77".to_vec()), b"c2".to_vec(), &now()).unwrap();
    assert_eq!(body(&by_id.message), "41=77|11=c2|37=77|");
    let both = c.cancel_order_with(Some(b"o".to_vec()), Some(b"77".to_vec()), b"c3".to_vec(), &now()).unwrap();
    assert_eq!(body(&both.message), "41=o|11=c3|37=77|");
    let fresh = c.cancel_order(Some(b"o".to_vec()), None, &now()).unwrap();
    assert_eq!(field(&fresh.message, Field::ClOrdId).unwrap().len(), 36);
}

#[test]
fn replace_request() {
    let mut c = client();
    let x = c
        .replace_order_with(Some(b"o".to_vec()), None, b"c".to_vec(), dec("3"), Some(dec("1.1")), None, Some(now()), &now())
        .unwrap();
    assert_eq!(body(&x.message), "41=o|11=c|38=3|37=o|44=1.1|126=20170117-10:26:54|");
    assert_eq!(field(&x.message, Field::MsgType).unwrap(), "G");
    assert_eq!(
        expects(&x),
        vec![
            ("8".to_string(), Field::ClOrdId, "o".to_string()),
            ("j".to_string(), Field::BusinessRejectRefID, "c".to_string()),
            ("9".to_string(), Field::ClOrdId, "c".to_string()),
        ]
    );
    let by_id = c
        .replace_order_with(None, Some(b"77".to_vec()), b"c2".to_vec(), dec("3"), None, Some(dec("1.2")), None, &now())
        .unwrap();
    assert_eq!(body(&by_id.message), "41=77|11=c2|38=3|37=77|99=1.2|");
    assert_eq!(
        expects(&by_id),
        vec![
            ("8".to_string(), Field::OrderID, "77".to_string()),
            ("j".to_string(), Field::BusinessRejectRefID, "c2".to_string()),
            ("9".to_string(), Field::ClOrdId, "c2".to_string()),
        ]
    );
    let fresh = c.replace_order(Some(b"o".to_vec()), Some(b"77".to_vec()), dec("1"), None, None, None, &now()).unwrap();
    let id = field(&fresh.message, Field::ClOrdId).unwrap();
    assert_eq!(body(&fresh.message), format!("41=o|11={}|38=1|37=77|", id));
    assert_eq!(expects(&fresh)[0], ("8".to_string(), Field::ClOrdId, "o".to_string()));
}

#[test]
fn positions_request_and_answers() {
    let mut c = client();
    let x = c.fetch_positions_with(b"req".to_vec(), &now()).unwrap();
    assert_eq!(body(&x.message), "710=req|");
    assert_eq!(field(&x.message, Field::MsgType).unwrap(), "AN");
    assert_eq!(expects(&x), vec![("AP".to_string(), Field::PosReqID, "req".to_string())]);
    let mut collected = Vec::new();
    // two reports are announced: the first is kept, the second completes the answer
    assert!(positions_step(&mut collected, inbound(POSITION)).is_none());
    assert_eq!(collected.len(), 1);
    let second = POSITION.replace("pos-1", "pos-2");
    let list = positions_step(&mut collected, inbound(&second)).unwrap().unwrap();
    assert_eq!(list.len(), 2);
    assert_eq!(list[1].position_id, b"pos-2".to_vec());
    // an answer without positions ends the request at once
    let mut nothing = Vec::new();
    let none = positions_step(&mut nothing, inbound("35=AP|710=req|727=0|728=2|")).unwrap().unwrap();
    assert!(none.is_empty());
    assert!(nothing.is_empty());
    let mut bad = Vec::new();
    assert!(matches!(
        positions_step(&mut bad, inbound("35=AP|710=req|727=many|728=0|")),
        Some(Err(Error::FieldNotFoundError(Field::TotalNumPosReports)))
    ));
    let fresh = c.fetch_positions(&now()).unwrap();
    assert_eq!(field(&fresh.message, Field::PosReqID).unwrap().len(), 36);
}

#[test]
fn order_status_request_and_answers() {
    let mut c = client();
    let x = c.fetch_all_order_status_with(b"mass".to_vec(), Some(now()), &now()).unwrap();
    assert_eq!(body(&x.message), "584=mass|585=7|225=20170117-10:26:54|");
    assert_eq!(field(&x.message, Field::MsgType).unwrap(), "AF");
    assert_eq!(
        expects(&x),
        vec![
            ("8".to_string(), Field::MassStatusReqID, "mass".to_string()),
            ("j".to_string(), Field::BusinessRejectRefID, "mass".to_string()),
        ]
    );
    let fresh = c.fetch_all_order_status(None, &now()).unwrap();
    assert_eq!(body(&fresh.message).len(), "584=|585=7|".len() + 36);
    let mut collected = Vec::new();
    // a business reject means that there are no orders
    let none = order_status_step(&mut collected, inbound("35=j|379=mass|")).unwrap().unwrap();
    assert!(none.is_empty());
    let status = format!("{}911=2|584=mass|", REPORT.replace("150=0", "150=I"));
    assert!(order_status_step(&mut collected, inbound(&status)).is_none());
    let list = order_status_step(&mut collected, inbound(&status)).unwrap().unwrap();
    assert_eq!(list.len(), 2);
    assert_eq!(list[0].exec_type, ExecutionType::OrderStatus);
    let mut single = Vec::new();
    assert_eq!(order_status_step(&mut single, inbound(REPORT)).unwrap().unwrap().len(), 1);
    assert!(matches!(
        order_status_step(&mut Vec::new(), inbound("35=y|")),
        Some(Err(Error::UnknownError))
    ));
    assert!(matches!(
        order_status_step(&mut Vec::new(), inbound(&format!("{}911=x|", REPORT))),
        Some(Err(Error::FieldNotFoundError(Field::TotNumReports)))
    ));
}

#[test]
fn session_of_the_trade_client() {
    let mut c = client();
    assert!(c.is_connected());
    assert!(show(&c.heartbeat(&now()).unwrap()).contains("|57=TRADE|50=TRADE|34=2|"));
    assert!(show(&c.logout(&now()).unwrap()).contains("|35=5|"));
    assert!(matches!(c.on_message(&inbound("35=5|"), &now()), Ok(Dispatch::PeerLogout)));
    assert!(!c.disconnect());
    assert!(client().disconnect());
}
