use cfix::decimal::Decimal;
use cfix::messages::ResponseMessage;
use cfix::requests::{
    finish_body, format_field, join, push_decimal, push_field, push_number, push_optional,
    push_time, HeartbeatReq, LogonReq, LogoutReq, MarketDataReq, NewOrderSingleReq,
    OrderCancelReplaceReq, OrderCancelReq, OrderMassStatusReq, OrderStatusReq, PositionsReq,
    RequestMessage, ResendReq, SecurityListReq, SequenceReset, TestReq,
};
use cfix::time::Timestamp;
use cfix::types::{Config, Field, OrderType, Side, SubID, DELIMITER};

fn wire(text: &str) -> Vec<u8> {
    text.bytes().map(|b| if b == b'|' { DELIMITER } else { b }).collect()
}

fn show(bytes: &[u8]) -> String {
    bytes.iter().map(|b| if *b == DELIMITER { '|' } else { *b as char }).collect()
}

fn config() -> Config {
    Config::new(b"h".to_vec(), b"u".to_vec(), b"p".to_vec(), b"c".to_vec(), 30)
}

fn now() -> Timestamp {
    Timestamp::from_millis(1484648814000).unwrap()
}

fn body<R: RequestMessage>(req: &R) -> Option<String> {
    req.get_body(DELIMITER, &config(), &now()).map(|b| show(&b))
}

fn dec(text: &str) -> Decimal {
    Decimal::parse(text.as_bytes()).unwrap()
}

#[test]
fn format_field_writes_tag_and_value() {
    assert_eq!(format_field(Field::MsgType, b"A"), b"35=A".to_vec());
    assert_eq!(format_field(Field::SymbolDigits, b""), b"1008=".to_vec());
    assert_eq!(format_field(Field::Text, b"a=b"), b"58=a=b".to_vec());
}

#[test]
fn join_puts_the_delimiter_between_fields() {
    let mut fields = Vec::new();
    assert_eq!(join(&fields, DELIMITER), Vec::<u8>::new());
    assert_eq!(finish_body(&fields, DELIMITER), None);
    push_field(&mut fields, Field::BeginSeqNo, b"1".to_vec());
    assert_eq!(show(&join(&fields, DELIMITER)), "7=1");
    push_field(&mut fields, Field::EndSeqNo, b"0".to_vec());
    assert_eq!(show(&join(&fields, DELIMITER)), "7=1|16=0");
    push_optional(&mut fields, Field::Text, &None);
    push_optional(&mut fields, Field::Text, &Some(b"t".to_vec()));
    push_decimal(&mut fields, Field::Price, &None);
    push_decimal(&mut fields, Field::Price, &Some(dec("1.5")));
    push_number(&mut fields, Field::MDUpdateType, None);
    push_number(&mut fields, Field::MDUpdateType, Some(1));
    push_time(&mut fields, Field::ExpireTime, &None);
    push_time(&mut fields, Field::ExpireTime, &Some(now()));
    assert_eq!(
        show(&finish_body(&fields, DELIMITER).unwrap()),
        "7=1|16=0|58=t|44=1.5|265=1|126=20170117-10:26:54"
    );
    assert_eq!(show(&join(&fields, b';')), "7=1;16=0;58=t;44=1.5;265=1;126=20170117-10:26:54");
}

#[test]
fn message_types() {
    assert_eq!(LogonReq::default().get_message_type(), b"A".to_vec());
    assert_eq!(LogoutReq.get_message_type(), b"5".to_vec());
    assert_eq!(HeartbeatReq::new(None).get_message_type(), b"0".to_vec());
    assert_eq!(TestReq::new(b"t".to_vec()).get_message_type(), b"1".to_vec());
    assert_eq!(ResendReq::new(1, 2).get_message_type(), b"2".to_vec());
    assert_eq!(SequenceReset::new(None, 1).get_message_type(), b"4".to_vec());
    assert_eq!(
        MarketDataReq::new(b"i".to_vec(), b'1', 1, None, b"01", 1, 1).get_message_type(),
        b"V".to_vec()
    );
    assert_eq!(OrderStatusReq::new(b"c".to_vec(), None).get_message_type(), b"H".to_vec());
    assert_eq!(OrderMassStatusReq::new(b"m".to_vec(), 7, None).get_message_type(), b"AF".to_vec());
    assert_eq!(PositionsReq::new(b"p".to_vec(), None).get_message_type(), b"AN".to_vec());
    assert_eq!(
        OrderCancelReq::new(b"o".to_vec(), None, b"c".to_vec()).get_message_type(),
        b"F".to_vec()
    );
    assert_eq!(
        OrderCancelReplaceReq::new(b"o".to_vec(), None, b"c".to_vec(), dec("1"), None, None, None)
            .get_message_type(),
        b"G".to_vec()
    );
    assert_eq!(SecurityListReq::new(b"s".to_vec(), 0, None).get_message_type(), b"x".to_vec());
    assert_eq!(
        NewOrderSingleReq::new(
            b"c".to_vec(),
            1,
            Side::BUY,
            None,
            dec("1"),
            OrderType::MARKET,
            None,
            None,
            None,
            None,
            None
        )
        .get_message_type(),
        b"D".to_vec()
    );
}

#[test]
fn logon_body() {
    assert_eq!(body(&LogonReq::new(Some(true))).unwrap(), "98=0|108=30|553=u|554=p|141=Y");
    assert_eq!(body(&LogonReq::new(Some(false))).unwrap(), "98=0|108=30|553=u|554=p");
    assert_eq!(body(&LogonReq::default()).unwrap(), "98=0|108=30|553=u|554=p");
    let scheme = LogonReq { encryption_scheme: -3, reset_seq_num: None };
    assert_eq!(body(&scheme).unwrap(), "98=-3|108=30|553=u|554=p");
}

#[test]
fn bodies_of_session_messages() {
    assert_eq!(body(&LogoutReq), None);
    assert_eq!(body(&HeartbeatReq::new(None)), None);
    assert_eq!(body(&HeartbeatReq::new(Some(b"abc".to_vec()))).unwrap(), "112=abc");
    assert_eq!(body(&TestReq::new(b"abc".to_vec())).unwrap(), "112=abc");
    assert_eq!(body(&ResendReq::new(3, 0)).unwrap(), "7=3|16=0");
    assert_eq!(body(&SequenceReset::new(None, 5)).unwrap(), "36=5");
    assert_eq!(body(&SequenceReset::new(Some(true), 5)).unwrap(), "36=5|123=true");
    assert_eq!(body(&SequenceReset::new(Some(false), 5)).unwrap(), "36=5|123=false");
}

#[test]
fn market_data_request_body() {
    let spot = MarketDataReq::new(b"req-1".to_vec(), b'1', 1, None, b"01", 1, 1);
    assert_eq!(body(&spot).unwrap(), "262=req-1|263=1|264=1|267=2|269=0|269=1|146=1|55=1");
    let depth = MarketDataReq::new(b"-1".to_vec(), b'2', 0, Some(1), b"0", 1, 42);
    assert_eq!(body(&depth).unwrap(), "262=-1|263=2|264=0|267=1|269=0|146=1|55=42|265=1");
    let none = MarketDataReq::new(b"x".to_vec(), b'1', 0, None, b"", 1, 42);
    assert_eq!(body(&none).unwrap(), "262=x|263=1|264=0|267=0|146=1|55=42");
}

#[test]
fn new_order_single_body() {
    let market = NewOrderSingleReq::new(
        b"ord-1".to_vec(),
        999999,
        Side::BUY,
        None,
        dec("0.01"),
        OrderType::MARKET,
        None,
        None,
        None,
        None,
        None,
    );
    // without a time of its own the order carries the time of sending
    assert_eq!(
        body(&market).unwrap(),
        "11=ord-1|55=999999|54=1|60=20170117-10:26:54|38=0.01|40=1"
    );
    let full = NewOrderSingleReq::new(
        b"ord-2".to_vec(),
        1,
        Side::SELL,
        Timestamp::from_millis(0),
        dec("1000"),
        OrderType::STOP_LIMIT,
        Some(dec("1.5")),
        Some(dec("1.4")),
        Timestamp::from_millis(86400000),
        Some(b"pos-1".to_vec()),
        Some(b"label".to_vec()),
    );
    assert_eq!(
        body(&full).unwrap(),
        "11=ord-2|55=1|54=2|60=19700101-00:00:00|38=1000|40=4|44=1.5|99=1.4|126=19700102-00:00:00|721=pos-1|494=label"
    );
}

#[test]
fn bodies_of_trade_requests() {
    assert_eq!(body(&OrderStatusReq::new(b"c".to_vec(), None)).unwrap(), "11=c");
    assert_eq!(body(&OrderStatusReq::new(b"c".to_vec(), Some(Side::SELL))).unwrap(), "11=c|54=2");
    assert_eq!(body(&OrderMassStatusReq::new(b"m".to_vec(), 7, None)).unwrap(), "584=m|585=7");
    assert_eq!(
        body(&OrderMassStatusReq::new(b"m".to_vec(), 7, Some(now()))).unwrap(),
        "584=m|585=7|225=20170117-10:26:54"
    );
    assert_eq!(body(&PositionsReq::new(b"p".to_vec(), None)).unwrap(), "710=p");
    assert_eq!(
        body(&PositionsReq::new(b"p".to_vec(), Some(b"q".to_vec()))).unwrap(),
        "710=p|721=q"
    );
    assert_eq!(
        body(&OrderCancelReq::new(b"o".to_vec(), None, b"c".to_vec())).unwrap(),
        "41=o|11=c"
    );
    assert_eq!(
        body(&OrderCancelReq::new(b"o".to_vec(), Some(b"i".to_vec()), b"c".to_vec())).unwrap(),
        "41=o|11=c|37=i"
    );
    assert_eq!(
        body(&OrderCancelReplaceReq::new(
            b"o".to_vec(),
            Some(b"i".to_vec()),
            b"c".to_vec(),
            dec("2"),
            Some(dec("1.1")),
            Some(dec("1.2")),
            Some(now())
        ))
        .unwrap(),
        "41=o|11=c|38=2|37=i|44=1.1|99=1.2|126=20170117-10:26:54"
    );
    assert_eq!(
        body(&OrderCancelReplaceReq::new(
            b"o".to_vec(),
            None,
            b"c".to_vec(),
            dec("2"),
            None,
            None,
            None
        ))
        .unwrap(),
        "41=o|11=c|38=2"
    );
    assert_eq!(body(&SecurityListReq::new(b"s".to_vec(), 0, None)).unwrap(), "320=s|559=0");
    assert_eq!(
        body(&SecurityListReq::new(b"s".to_vec(), 0, Some(b"EURUSD".to_vec()))).unwrap(),
        "320=s|559=0|55=EURUSD"
    );
}

#[test]
fn header_counts_fields_and_body() {
    let req = HeartbeatReq::new(Some(b"abc".to_vec()));
    let b = req.get_body(DELIMITER, &config(), &now());
    let header = req.get_header(SubID::QUOTE, &b, 2, DELIMITER, &config(), &now());
    assert_eq!(
        show(&header),
        "8=FIX.4.4|9=75|35=0|49=c.u|56=cServer|57=QUOTE|50=QUOTE|34=2|52=20170117-10:26:54"
    );
    let bare = HeartbeatReq::new(None);
    let header = bare.get_header(SubID::TRADE, &None, 4294967295, DELIMITER, &config(), &now());
    assert_eq!(
        show(&header),
        "8=FIX.4.4|9=76|35=0|49=c.u|56=cServer|57=TRADE|50=TRADE|34=4294967295|52=20170117-10:26:54"
    );
}

#[test]
fn trailer_is_the_sum_of_the_bytes_modulo_256() {
    let req = LogoutReq;
    assert_eq!(req.get_trailer(b""), b"10=000".to_vec());
    assert_eq!(req.get_trailer(&[1]), b"10=001".to_vec());
    assert_eq!(req.get_trailer(&[255, 1]), b"10=000".to_vec());
    assert_eq!(req.get_trailer(&[255, 255]), b"10=254".to_vec());
    assert_eq!(req.get_trailer(b"8=FIX.4.4"), b"10=032".to_vec());
    assert_eq!(req.get_trailer(&vec![200u8; 1000]), b"10=064".to_vec());
}

#[test]
fn build_logon() {
    let bytes = LogonReq::new(Some(true)).build(SubID::QUOTE, 1, DELIMITER, &config(), &now());
    assert_eq!(
        show(&bytes),
        "8=FIX.4.4|9=97|35=A|49=c.u|56=cServer|57=QUOTE|50=QUOTE|34=1|52=20170117-10:26:54|98=0|108=30|553=u|554=p|141=Y|10=079|"
    );
}

#[test]
fn build_messages_without_body() {
    let hb = HeartbeatReq::new(None).build(SubID::QUOTE, 2, DELIMITER, &config(), &now());
    assert_eq!(
        show(&hb),
        "8=FIX.4.4|9=67|35=0|49=c.u|56=cServer|57=QUOTE|50=QUOTE|34=2|52=20170117-10:26:54|10=090|"
    );
    let out = LogoutReq.build(SubID::TRADE, 7, DELIMITER, &config(), &now());
    assert_eq!(
        show(&out),
        "8=FIX.4.4|9=67|35=5|49=c.u|56=cServer|57=TRADE|50=TRADE|34=7|52=20170117-10:26:54|10=040|"
    );
}

#[test]
fn build_messages_with_body() {
    let hb = HeartbeatReq::new(Some(b"abc".to_vec()))
        .build(SubID::QUOTE, 2, DELIMITER, &config(), &now());
    assert_eq!(
        show(&hb),
        "8=FIX.4.4|9=75|35=0|49=c.u|56=cServer|57=QUOTE|50=QUOTE|34=2|52=20170117-10:26:54|112=abc|10=081|"
    );
    let resend = ResendReq::new(1, 0).build(SubID::QUOTE, 3, DELIMITER, &config(), &now());
    assert_eq!(
        show(&resend),
        "8=FIX.4.4|9=76|35=2|49=c.u|56=cServer|57=QUOTE|50=QUOTE|34=3|52=20170117-10:26:54|7=1|16=0|10=216|"
    );
    let reset =
        SequenceReset::new(Some(true), 5).build(SubID::QUOTE, 3, DELIMITER, &config(), &now());
    assert_eq!(
        show(&reset),
        "8=FIX.4.4|9=81|35=4|49=c.u|56=cServer|57=QUOTE|50=QUOTE|34=3|52=20170117-10:26:54|36=5|123=true|10=203|"
    );
    let list = SecurityListReq::new(b"sec-1".to_vec(), 0, None)
        .build(SubID::TRADE, 2, DELIMITER, &config(), &now());
    assert_eq!(
        show(&list),
        "8=FIX.4.4|9=83|35=x|49=c.u|56=cServer|57=TRADE|50=TRADE|34=2|52=20170117-10:26:54|320=sec-1|559=0|10=225|"
    );
}

fn sample_requests() -> Vec<Vec<u8>> {
    let c = config();
    let t = now();
    vec![
        LogonReq::new(Some(true)).build(SubID::QUOTE, 1, DELIMITER, &c, &t),
        LogoutReq.build(SubID::QUOTE, 2, DELIMITER, &c, &t),
        HeartbeatReq::new(None).build(SubID::QUOTE, 3, DELIMITER, &c, &t),
        TestReq::new(b"ping".to_vec()).build(SubID::QUOTE, 4, DELIMITER, &c, &t),
        ResendReq::new(1, 9).build(SubID::QUOTE, 5, DELIMITER, &c, &t),
        SequenceReset::new(Some(false), 12).build(SubID::QUOTE, 6, DELIMITER, &c, &t),
        MarketDataReq::new(b"md".to_vec(), b'1', 0, Some(1), b"01", 1, 77)
            .build(SubID::QUOTE, 7, DELIMITER, &c, &t),
        NewOrderSingleReq::new(
            b"ord".to_vec(),
            5,
            Side::SELL,
            None,
            dec("0.5"),
            OrderType::LIMIT,
            Some(dec("1.25")),
            None,
            Some(t),
            Some(b"pos".to_vec()),
            Some(b"tag".to_vec()),
        )
        .build(SubID::TRADE, 8, DELIMITER, &c, &t),
        OrderStatusReq::new(b"ord".to_vec(), Some(Side::BUY)).build(SubID::TRADE, 9, DELIMITER, &c, &t),
        OrderMassStatusReq::new(b"mass".to_vec(), 7, Some(t)).build(SubID::TRADE, 10, DELIMITER, &c, &t),
        PositionsReq::new(b"pos".to_vec(), None).build(SubID::TRADE, 11, DELIMITER, &c, &t),
        OrderCancelReq::new(b"o".to_vec(), Some(b"i".to_vec()), b"c".to_vec())
            .build(SubID::TRADE, 12, DELIMITER, &c, &t),
        OrderCancelReplaceReq::new(
            b"o".to_vec(),
            Some(b"i".to_vec()),
            b"c".to_vec(),
            dec("3"),
            Some(dec("1.1")),
            None,
            None,
        )
        .build(SubID::TRADE, 13, DELIMITER, &c, &t),
        SecurityListReq::new(b"sec".to_vec(), 0, Some(b"1".to_vec()))
            .build(SubID::TRADE, 14, DELIMITER, &c, &t),
    ]
}

#[test]
fn body_length_is_the_count_of_the_bytes_between_it_and_the_checksum() {
    for bytes in sample_requests() {
        let msg = ResponseMessage::new(&bytes, DELIMITER);
        let claimed: usize = String::from_utf8(msg.get_field_value(Field::BodyLength).unwrap())
            .unwrap()
            .parse()
            .unwrap();
        let text = show(&bytes);
        let start = text.find("|35=").unwrap() + 1;
        let end = text.rfind("10=").unwrap();
        assert_eq!(claimed, end - start, "{}", text);
    }
}

#[test]
fn checksum_is_the_sum_of_all_bytes_before_it() {
    for bytes in sample_requests() {
        let msg = ResponseMessage::new(&bytes, DELIMITER);
        let claimed: u32 = String::from_utf8(msg.get_field_value(Field::CheckSum).unwrap())
            .unwrap()
            .parse()
            .unwrap();
        let end = bytes.len() - 7;
        assert_eq!(&bytes[end..end + 3], b"10=");
        let sum: u32 = bytes[..end].iter().map(|b| *b as u32).sum::<u32>() % 256;
        assert_eq!(claimed, sum);
        assert_eq!(msg.get_field_value(Field::CheckSum).unwrap().len(), 3);
    }
}

#[test]
fn decoding_an_encoded_request_gives_its_fields_back() {
    let c = config();
    let t = now();
    let order = NewOrderSingleReq::new(
        b"ord-1".to_vec(),
        999999,
        Side::BUY,
        None,
        dec("0.01"),
        OrderType::MARKET,
        None,
        None,
        None,
        Some(b"pos=1".to_vec()),
        None,
    );
    let bytes = order.build(SubID::TRADE, 2, DELIMITER, &c, &t);
    assert_eq!(
        show(&bytes),
        "8=FIX.4.4|9=135|35=D|49=c.u|56=cServer|57=TRADE|50=TRADE|34=2|52=20170117-10:26:54|11=ord-1|55=999999|54=1|60=20170117-10:26:54|38=0.01|40=1|721=pos=1|10=084|"
    );
    let msg = ResponseMessage::new(&bytes, DELIMITER);
    assert_eq!(msg.get_message(), &bytes[..]);
    assert_eq!(msg.get_field_value(Field::BeginString), Some(b"FIX.4.4".to_vec()));
    assert_eq!(msg.get_message_type(), Some(b"D".to_vec()));
    assert_eq!(msg.get_field_value(Field::SenderCompID), Some(b"c.u".to_vec()));
    assert_eq!(msg.get_field_value(Field::TargetCompID), Some(b"cServer".to_vec()));
    assert_eq!(msg.get_field_value(Field::TargetSubID), Some(b"TRADE".to_vec()));
    assert_eq!(msg.get_field_value(Field::SenderSubID), Some(b"TRADE".to_vec()));
    assert_eq!(msg.get_field_value(Field::MsgSeqNum), Some(b"2".to_vec()));
    assert_eq!(msg.get_field_value(Field::SendingTime), Some(b"20170117-10:26:54".to_vec()));
    assert_eq!(msg.get_field_value(Field::ClOrdId), Some(b"ord-1".to_vec()));
    assert_eq!(msg.get_field_value(Field::Symbol), Some(b"999999".to_vec()));
    assert_eq!(msg.get_field_value(Field::Side), Some(b"1".to_vec()));
    assert_eq!(msg.get_field_value(Field::TransactTime), Some(b"20170117-10:26:54".to_vec()));
    assert_eq!(msg.get_field_value(Field::OrderQty), Some(b"0.01".to_vec()));
    assert_eq!(msg.get_field_value(Field::OrdType), Some(b"1".to_vec()));
    assert_eq!(msg.get_field_value(Field::PosMaintRptID), Some(b"pos=1".to_vec()));
    assert_eq!(msg.get_field_value(Field::Price), None);
}

#[test]
fn market_data_request_round_trip_keeps_repeated_entry_types() {
    let req = MarketDataReq::new(b"req-1".to_vec(), b'1', 1, None, b"01", 1, 1);
    let bytes = req.build(SubID::QUOTE, 2, DELIMITER, &config(), &now());
    assert_eq!(
        show(&bytes),
        "8=FIX.4.4|9=118|35=V|49=c.u|56=cServer|57=QUOTE|50=QUOTE|34=2|52=20170117-10:26:54|262=req-1|263=1|264=1|267=2|269=0|269=1|146=1|55=1|10=081|"
    );
    let msg = ResponseMessage::new(&bytes, DELIMITER);
    let groups = msg.get_repeating_groups(Field::NoMDEntryTypes, Field::MDEntryType, None);
    assert_eq!(groups.len(), 2);
    assert_eq!(groups[0].get(Field::MDEntryType), Some(b"0".to_vec()));
    assert_eq!(groups[1].get(Field::MDEntryType), Some(b"1".to_vec()));
    assert_eq!(bytes, wire(&show(&bytes)));
}
