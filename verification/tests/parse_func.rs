use cfix::messages::ResponseMessage;
use cfix::parse_func::{
    parse_execution_report, parse_order_mass_status, parse_positions, parse_security_list,
};
use cfix::types::{
    Error, ExecutionType, Field, OrderStatus, OrderType, Side, DELIMITER,
};

fn wire(text: &str) -> Vec<u8> {
    text.bytes().map(|b| if b == b'|' { DELIMITER } else { b }).collect()
}

fn inbound(text: &str) -> ResponseMessage {
    ResponseMessage::new(&wire(text), DELIMITER)
}

const REPORT: &str = "35=8|11=ord-1|14=0|37=101|38=1000|39=0|40=1|54=1|55=1|59=3|60=20170117-10:26:54.630|150=0|151=1000|721=pos-1|";

fn missing(r: Result<cfix::types::ExecutionReport, Error>) -> Field {
    match r {
        Err(Error::FieldNotFoundError(f)) => f,
        other => panic!("{:?}", other),
    }
}

#[test]
fn security_list() {
    let res = inbound(
        "35=y|320=req|560=0|146=3|55=1|1007=EURUSD|1008=5|55=2|1007=GBPUSD|1008=5|55=41|1007=XAUUSD|1008=2|10=111|",
    );
    let list = parse_security_list(&res).unwrap();
    assert_eq!(list.len(), 3);
    assert_eq!(list[0].id, 1);
    assert_eq!(list[0].name, b"EURUSD".to_vec());
    assert_eq!(list[0].digits, 5);
    assert_eq!(list[2].id, 41);
    assert_eq!(list[2].name, b"XAUUSD".to_vec());
    assert_eq!(list[2].digits, 2);
}

#[test]
fn security_list_passes_over_short_entries() {
    let res = inbound("35=y|146=3|55=1|1007=EURUSD|55=2|1007=GBPUSD|1008=5|55=3|");
    let list = parse_security_list(&res).unwrap();
    assert_eq!(list.len(), 1);
    assert_eq!(list[0].id, 2);
    assert!(parse_security_list(&inbound("35=y|320=req|")).unwrap().is_empty());
    assert!(parse_security_list(&inbound("35=y|146=0|")).unwrap().is_empty());
}

#[test]
fn security_list_passes_over_entries_without_a_required_field() {
    let no_name = inbound("35=y|146=1|55=1|1008=5|58=x|");
    assert!(parse_security_list(&no_name).unwrap().is_empty());
    let no_digits = inbound("35=y|146=1|55=1|1007=EURUSD|58=x|");
    assert!(parse_security_list(&no_digits).unwrap().is_empty());
    let bad_id = inbound("35=y|146=1|55=EUR|1007=EURUSD|1008=5|");
    assert!(parse_security_list(&bad_id).unwrap().is_empty());
    // the entries around a faulty one are read, in the order of the message
    let mixed = inbound(
        "35=y|146=4|55=1|1007=EURUSD|1008=5|55=2|1007=GBPUSD|1008=five|55=3|1008=2|58=x|55=4|1007=XAUUSD|1008=2|",
    );
    let list = parse_security_list(&mixed).unwrap();
    assert_eq!(list.len(), 2);
    assert_eq!(list[0].id, 1);
    assert_eq!(list[0].name, b"EURUSD".to_vec());
    assert_eq!(list[1].id, 4);
    assert_eq!(list[1].name, b"XAUUSD".to_vec());
    assert_eq!(list[1].digits, 2);
}

#[test]
fn execution_report() {
    let report = parse_execution_report(&inbound(REPORT)).unwrap();
    assert_eq!(report.exec_type, ExecutionType::New);
    let order = report.order_report;
    assert_eq!(order.symbol, 1);
    assert_eq!(order.order_id, b"101".to_vec());
    assert_eq!(order.cl_ord_id, b"ord-1".to_vec());
    assert_eq!(order.pos_main_rept_id, b"pos-1".to_vec());
    assert_eq!(order.designation, None);
    assert_eq!(order.order_status, OrderStatus::New);
    assert_eq!(order.order_type, OrderType::MARKET);
    assert_eq!(order.side, Side::BUY);
    assert!(order.price.is_none());
    assert!(order.stop_px.is_none());
    assert!(order.avx_px.is_none());
    assert_eq!(order.cum_qty.unwrap().as_bytes(), b"0");
    assert_eq!(order.order_qty.as_bytes(), b"1000");
    assert_eq!(order.leaves_qty.as_bytes(), b"1000");
    // the report names no last fill
    assert!(order.last_qty.is_none());
    assert_eq!(order.time_in_force, b"3".to_vec());
    assert_eq!(order.transact_time.millis(), 1484648814630);
    assert!(order.expire_time.is_none());
    assert_eq!(order.text, None);
    assert_eq!(order.trailing_sl, None);
}

#[test]
fn last_quantity_is_the_amount_of_the_last_fill() {
    let text = "35=8|150=F|37=o1|11=c1|721=p1|39=2|40=1|54=1|59=3|60=20170117-10:26:54.630|55=1|38=10|32=4|";
    let report = parse_execution_report(&inbound(text)).unwrap();
    assert_eq!(report.exec_type, ExecutionType::Trade);
    let order = report.order_report;
    assert_eq!(order.order_qty.as_bytes(), b"10");
    assert_eq!(order.last_qty.unwrap().as_bytes(), b"4");
    assert_eq!(order.symbol, 1);
    assert_eq!(order.side, Side::BUY);
    assert_eq!(
        missing(parse_execution_report(&inbound(&text.replace("32=4", "32=some")))),
        Field::OrdQty
    );
}

#[test]
fn execution_report_with_all_fields() {
    let text = "35=8|150=F|55=7|37=o|11=c|721=p|494=label|39=2|40=2|54=2|44=1.5|99=1.4|6=1.45|1000=1.6|1001=10|1002=1.3|1003=20|1004=Y|1005=2|1006=N|14=500|38=1000|151=500|59=6|60=20170117-10:26:54|126=20170118-00:00:00.000|58=done|";
    let report = parse_execution_report(&inbound(text)).unwrap();
    assert_eq!(report.exec_type, ExecutionType::Trade);
    let order = report.order_report;
    assert_eq!(order.symbol, 7);
    assert_eq!(order.designation, Some(b"label".to_vec()));
    assert_eq!(order.order_status, OrderStatus::Filled);
    assert_eq!(order.order_type, OrderType::LIMIT);
    assert_eq!(order.side, Side::SELL);
    assert_eq!(order.price.unwrap().as_bytes(), b"1.5");
    assert_eq!(order.stop_px.unwrap().as_bytes(), b"1.4");
    assert_eq!(order.avx_px.unwrap().as_bytes(), b"1.45");
    assert_eq!(order.absolute_tp.unwrap().as_bytes(), b"1.6");
    assert_eq!(order.reltative_tp.unwrap().as_bytes(), b"10");
    assert_eq!(order.absolute_sl.unwrap().as_bytes(), b"1.3");
    assert_eq!(order.reltative_sl.unwrap().as_bytes(), b"20");
    assert_eq!(order.trailing_sl, Some(true));
    assert_eq!(order.trigger_method_sl, Some(2));
    assert_eq!(order.guaranteed_sl, Some(false));
    assert_eq!(order.cum_qty.unwrap().as_bytes(), b"500");
    assert_eq!(order.leaves_qty.as_bytes(), b"500");
    assert_eq!(order.time_in_force, b"6".to_vec());
    assert_eq!(order.transact_time.millis(), 1484648814000);
    assert_eq!(order.expire_time.unwrap().millis(), 1484697600000);
    assert_eq!(order.text, Some(b"done".to_vec()));
}

#[test]
fn execution_report_defaults() {
    let text = "35=8|150=4|37=o|11=c|721=p|39=4|40=3|54=1|59=1|60=20170117-10:26:54|";
    let order = parse_execution_report(&inbound(text)).unwrap().order_report;
    assert_eq!(order.symbol, 0);
    assert_eq!(order.order_qty.as_bytes(), b"0.0");
    assert_eq!(order.leaves_qty.as_bytes(), b"0.0");
    assert!(order.last_qty.is_none());
    assert!(order.cum_qty.is_none());
    assert_eq!(order.order_status, OrderStatus::Cancelled);
    assert_eq!(order.order_type, OrderType::STOP);
}

#[test]
fn execution_report_fails_on_the_first_faulty_field() {
    let without = |part: &str| REPORT.replace(part, "");
    assert_eq!(missing(parse_execution_report(&inbound(&without("150=0|")))), Field::ExecType);
    assert_eq!(missing(parse_execution_report(&inbound(&without("37=101|")))), Field::OrderID);
    assert_eq!(missing(parse_execution_report(&inbound(&without("11=ord-1|")))), Field::ClOrdId);
    assert_eq!(
        missing(parse_execution_report(&inbound(&without("721=pos-1|")))),
        Field::PosMaintRptID
    );
    assert_eq!(missing(parse_execution_report(&inbound(&without("39=0|")))), Field::OrdStatus);
    assert_eq!(missing(parse_execution_report(&inbound(&without("40=1|")))), Field::OrdType);
    assert_eq!(missing(parse_execution_report(&inbound(&without("54=1|")))), Field::Side);
    assert_eq!(missing(parse_execution_report(&inbound(&without("59=3|")))), Field::TimeInForce);
    assert_eq!(
        missing(parse_execution_report(&inbound(&without("60=20170117-10:26:54.630|")))),
        Field::TransactTime
    );
    // the order of the report decides which fault is named
    assert_eq!(
        missing(parse_execution_report(&inbound(&without("37=101|").replace("54=1", "54=3")))),
        Field::OrderID
    );
    assert_eq!(missing(parse_execution_report(&inbound("35=8|"))), Field::ExecType);
}

#[test]
fn execution_report_fails_on_malformed_values() {
    let with = |from: &str, to: &str| REPORT.replace(from, to);
    assert_eq!(missing(parse_execution_report(&inbound(&with("150=0", "150=Q")))), Field::ExecType);
    assert_eq!(missing(parse_execution_report(&inbound(&with("55=1", "55=EUR")))), Field::Symbol);
    assert_eq!(missing(parse_execution_report(&inbound(&with("39=0", "39=9")))), Field::OrdStatus);
    assert_eq!(missing(parse_execution_report(&inbound(&with("40=1", "40=7")))), Field::OrdType);
    assert_eq!(missing(parse_execution_report(&inbound(&with("54=1", "54=3")))), Field::Side);
    assert_eq!(missing(parse_execution_report(&inbound(&with("54=1", "54=B")))), Field::Side);
    assert_eq!(missing(parse_execution_report(&inbound(&with("14=0", "14=none")))), Field::CumQty);
    assert_eq!(missing(parse_execution_report(&inbound(&with("38=1000", "38=1e3")))), Field::OrderQty);
    assert_eq!(missing(parse_execution_report(&inbound(&with("151=1000", "151=")))), Field::LeavesQty);
    assert_eq!(
        missing(parse_execution_report(&inbound(&with("60=20170117-10:26:54.630", "60=yesterday")))),
        Field::TransactTime
    );
    assert_eq!(
        missing(parse_execution_report(&inbound(&format!("{}126=never|", REPORT)))),
        Field::ExpireTime
    );
    assert_eq!(
        missing(parse_execution_report(&inbound(&format!("{}44=cheap|", REPORT)))),
        Field::Price
    );
    assert_eq!(
        missing(parse_execution_report(&inbound(&format!("{}1005=x|", REPORT)))),
        Field::TriggerMethodSL
    );
}

#[test]
fn order_mass_status() {
    let second = REPORT.replace("ord-1", "ord-2").replace("150=0", "150=I");
    let list = parse_order_mass_status(&vec![inbound(REPORT), inbound(&second)]).unwrap();
    assert_eq!(list.len(), 2);
    assert_eq!(list[0].order_report.cl_ord_id, b"ord-1".to_vec());
    assert_eq!(list[1].order_report.cl_ord_id, b"ord-2".to_vec());
    assert_eq!(list[1].exec_type, ExecutionType::OrderStatus);
    assert!(parse_order_mass_status(&Vec::new()).unwrap().is_empty());
    let broken = parse_order_mass_status(&vec![inbound(REPORT), inbound("35=8|150=0|")]);
    assert!(matches!(broken, Err(Error::FieldNotFoundError(Field::OrderID))));
}

const POSITION: &str = "35=AP|710=req|721=pos-1|727=2|728=0|55=1|702=1|704=1000|705=0|730=1.06671|";

#[test]
fn positions() {
    let short = "35=AP|710=req|721=pos-2|727=2|728=0|55=2|702=1|704=0|705=500|730=1.3|1000=1.2|1002=1.4|1004=N|1005=1|1006=Y|";
    let list = parse_positions(&vec![inbound(POSITION), inbound(short)]).unwrap();
    assert_eq!(list.len(), 2);
    assert_eq!(list[0].symbol_id, 1);
    assert_eq!(list[0].position_id, b"pos-1".to_vec());
    assert_eq!(list[0].long_qty.as_bytes(), b"1000");
    assert_eq!(list[0].short_qty.as_bytes(), b"0");
    assert_eq!(list[0].settle_price.as_bytes(), b"1.06671");
    assert!(list[0].absolute_tp.is_none());
    assert!(list[0].absolute_sl.is_none());
    assert_eq!(list[0].trailing_sl, None);
    assert_eq!(list[0].trigger_method_sl, None);
    assert_eq!(list[0].guaranteed_sl, None);
    assert_eq!(list[1].symbol_id, 2);
    assert_eq!(list[1].short_qty.as_bytes(), b"500");
    assert_eq!(list[1].absolute_tp.as_ref().unwrap().as_bytes(), b"1.2");
    assert_eq!(list[1].absolute_sl.as_ref().unwrap().as_bytes(), b"1.4");
    assert_eq!(list[1].trailing_sl, Some(false));
    assert_eq!(list[1].trigger_method_sl, Some(1));
    assert_eq!(list[1].guaranteed_sl, Some(true));
}

#[test]
fn positions_pass_over_reports_without_a_position() {
    let none = "35=AP|710=req|727=0|728=2|";
    let empty = "35=AP|710=req|727=0|728=0|702=0|";
    let unannounced = "35=AP|710=req|727=0|728=0|";
    let list =
        parse_positions(&vec![inbound(none), inbound(POSITION), inbound(empty), inbound(unannounced)])
            .unwrap();
    assert_eq!(list.len(), 1);
    assert_eq!(list[0].position_id, b"pos-1".to_vec());
    assert!(parse_positions(&Vec::new()).unwrap().is_empty());
}

#[test]
fn positions_fail_on_the_first_faulty_report() {
    let fails = |text: &str| match parse_positions(&vec![inbound(text)]) {
        Err(Error::FieldNotFoundError(f)) => f,
        other => panic!("{:?}", other),
    };
    assert_eq!(fails("35=AP|710=req|"), Field::PosReqResult);
    assert_eq!(fails(&POSITION.replace("55=1|", "")), Field::Symbol);
    assert_eq!(fails(&POSITION.replace("55=1|", "55=x|")), Field::Symbol);
    assert_eq!(fails(&POSITION.replace("721=pos-1|", "")), Field::PosMaintRptID);
    assert_eq!(fails(&POSITION.replace("704=1000|", "")), Field::LongQty);
    assert_eq!(fails(&POSITION.replace("705=0|", "705=none|")), Field::ShortQty);
    assert_eq!(fails(&POSITION.replace("730=1.06671|", "")), Field::SettlPrice);
    assert_eq!(fails(&format!("{}1000=up|", POSITION)), Field::AbsoluteTP);
    assert_eq!(fails(&format!("{}1002=down|", POSITION)), Field::AbsoluteSL);
    assert_eq!(fails(&format!("{}1005=-1|", POSITION)), Field::TriggerMethodSL);
    let second = parse_positions(&vec![inbound(POSITION), inbound("35=AP|")]);
    assert!(matches!(second, Err(Error::FieldNotFoundError(Field::PosReqResult))));
}
