use cfix::types::{
    Config, ExecutionType, MarketType, OrderStatus, OrderType, PriceType, Side, SubID,
    TimeInForce, DELIMITER,
};

#[test]
fn delimiter_is_soh() {
    assert_eq!(DELIMITER, 1);
}

#[test]
fn config_keeps_its_parts() {
    let c = Config::new(b"h".to_vec(), b"u".to_vec(), b"p".to_vec(), b"c".to_vec(), 30);
    assert_eq!(c.host, b"h".to_vec());
    assert_eq!(c.username, b"u".to_vec());
    assert_eq!(c.password, b"p".to_vec());
    assert_eq!(c.sender_comp_id, b"c".to_vec());
    assert_eq!(c.heart_beat, 30);
    let d = c.duplicate();
    assert_eq!(d.sender_comp_id, b"c".to_vec());
    assert_eq!(d.heart_beat, 30);
}

#[test]
fn sub_id_text_and_port() {
    assert_eq!(SubID::QUOTE.to_bytes(), b"QUOTE".to_vec());
    assert_eq!(SubID::TRADE.to_bytes(), b"TRADE".to_vec());
    assert_eq!(SubID::QUOTE.port(), 5201);
    assert_eq!(SubID::TRADE.port(), 5202);
    assert_eq!(SubID::from_bytes(b"QUOTE"), Some(SubID::QUOTE));
    assert_eq!(SubID::from_bytes(b"TRADE"), Some(SubID::TRADE));
    assert_eq!(SubID::from_bytes(b"quote"), None);
    assert_eq!(SubID::from_bytes(b""), None);
}

#[test]
fn side_codes() {
    assert_eq!(Side::BUY.code(), 1);
    assert_eq!(Side::SELL.code(), 2);
    assert_eq!(Side::from_code(1), Some(Side::BUY));
    assert_eq!(Side::from_code(2), Some(Side::SELL));
    assert_eq!(Side::from_code(0), None);
    assert_eq!(Side::from_code(3), None);
    assert_eq!(Side::default(), Side::BUY);
}

#[test]
fn order_type_codes() {
    assert_eq!(OrderType::MARKET.code(), 1);
    assert_eq!(OrderType::LIMIT.code(), 2);
    assert_eq!(OrderType::STOP.code(), 3);
    assert_eq!(OrderType::STOP_LIMIT.code(), 4);
    assert_eq!(OrderType::default(), OrderType::MARKET);
    assert_eq!(OrderType::from_bytes(b"1").unwrap(), OrderType::MARKET);
    assert_eq!(OrderType::from_bytes(b"2").unwrap(), OrderType::LIMIT);
    assert_eq!(OrderType::from_bytes(b"3").unwrap(), OrderType::STOP);
    assert_eq!(OrderType::from_bytes(b"4").unwrap(), OrderType::STOP_LIMIT);
    assert_eq!(OrderType::from_bytes(b"5").unwrap_err().0, b"5".to_vec());
    assert!(OrderType::from_bytes(b"").is_err());
}

#[test]
fn execution_type_texts() {
    assert_eq!(ExecutionType::from_bytes(b"0").unwrap(), ExecutionType::New);
    assert_eq!(ExecutionType::from_bytes(b"4").unwrap(), ExecutionType::Canceled);
    assert_eq!(ExecutionType::from_bytes(b"5").unwrap(), ExecutionType::Replace);
    assert_eq!(ExecutionType::from_bytes(b"8").unwrap(), ExecutionType::Rejected);
    assert_eq!(ExecutionType::from_bytes(b"C").unwrap(), ExecutionType::Expired);
    assert_eq!(ExecutionType::from_bytes(b"F").unwrap(), ExecutionType::Trade);
    assert_eq!(ExecutionType::from_bytes(b"I").unwrap(), ExecutionType::OrderStatus);
    assert_eq!(ExecutionType::from_bytes(b"Z").unwrap_err().0, b"Z".to_vec());
    assert!(ExecutionType::from_bytes(b"00").is_err());
}

#[test]
fn order_status_texts() {
    assert_eq!(OrderStatus::from_bytes(b"0").unwrap(), OrderStatus::New);
    assert_eq!(OrderStatus::from_bytes(b"1").unwrap(), OrderStatus::ParitallyFilled);
    assert_eq!(OrderStatus::from_bytes(b"2").unwrap(), OrderStatus::Filled);
    assert_eq!(OrderStatus::from_bytes(b"8").unwrap(), OrderStatus::Rejected);
    assert_eq!(OrderStatus::from_bytes(b"4").unwrap(), OrderStatus::Cancelled);
    assert_eq!(OrderStatus::from_bytes(b"C").unwrap(), OrderStatus::Expired);
    assert_eq!(OrderStatus::from_bytes(b"3").unwrap_err().0, b"3".to_vec());
}

#[test]
fn time_in_force_codes() {
    assert_eq!(TimeInForce::GoodTillCancel.code(), 1);
    assert_eq!(TimeInForce::ImmediateOrCancel.code(), 3);
    assert_eq!(TimeInForce::GoodTillDate.code(), 6);
    assert_eq!(TimeInForce::from_code(1), Some(TimeInForce::GoodTillCancel));
    assert_eq!(TimeInForce::from_code(3), Some(TimeInForce::ImmediateOrCancel));
    assert_eq!(TimeInForce::from_code(6), Some(TimeInForce::GoodTillDate));
    assert_eq!(TimeInForce::from_code(2), None);
}

#[test]
fn market_and_price_types() {
    assert_eq!(MarketType::Spot.to_bytes(), b"Spot".to_vec());
    assert_eq!(MarketType::Depth.to_bytes(), b"Depth".to_vec());
    assert_eq!(PriceType::from_bytes(b"0"), Some(PriceType::Bid));
    assert_eq!(PriceType::from_bytes(b"1"), Some(PriceType::Ask));
    assert_eq!(PriceType::from_bytes(b"2"), None);
}
