//! Readers for the answers of the trade session: the security list, positions and
//! execution reports.

use vstd::prelude::*;
use vstd::string::*;
use crate::codec::value_of;
use crate::decimal::{decimal_view, is_decimal_text, number_body, Decimal};
use crate::field::Field;
use crate::messages::{groups_view, repeating_groups, Group, ResponseMessage};
use crate::text::{ascii, is_digit, is_text, lit, parse_u32, parse_u32_spec};
use crate::time::{millis_view, timestamp_of, Timestamp};
use crate::types::{
    Error, ErrorView, ExecutionReport, ExecutionType, OrderReport, OrderStatus,
    OrderType, OrderView, PositionReport, PositionView, ReportView, Side, SymbolInformation,
    SymbolView,
};

verus! {

/// The value of `field` among the fields `fs`.
pub open spec fn text(fs: Seq<(u32, Seq<u8>)>, field: Field) -> Option<Seq<u8>> {
    value_of(fs, field.tag_spec())
}

/// True when `field` is missing or holds a decimal number.
pub open spec fn decimal_or_none(fs: Seq<(u32, Seq<u8>)>, field: Field) -> bool {
    match text(fs, field) {
        Some(t) => is_decimal_text(t),
        None => true,
    }
}

/// True when `field` is missing or holds a number.
pub open spec fn number_or_none(fs: Seq<(u32, Seq<u8>)>, field: Field) -> bool {
    match text(fs, field) {
        Some(t) => parse_u32_spec(t) is Some,
        None => true,
    }
}

/// The number that `field` holds.
pub open spec fn number(fs: Seq<(u32, Seq<u8>)>, field: Field) -> Option<u32> {
    match text(fs, field) {
        Some(t) => parse_u32_spec(t),
        None => None,
    }
}

/// The flag that `field` holds: it is set when the value is `Y`.
pub open spec fn flag(fs: Seq<(u32, Seq<u8>)>, field: Field) -> Option<bool> {
    match text(fs, field) {
        Some(t) => Some(t == ascii("Y")),
        None => None,
    }
}

/// True when `field` is missing or holds a timestamp.
pub open spec fn time_or_none(fs: Seq<(u32, Seq<u8>)>, field: Field) -> bool {
    match text(fs, field) {
        Some(t) => timestamp_of(t) is Some,
        None => true,
    }
}

/// The instant that `field` holds.
pub open spec fn time(fs: Seq<(u32, Seq<u8>)>, field: Field) -> Option<i64> {
    match text(fs, field) {
        Some(t) => timestamp_of(t),
        None => None,
    }
}

/// The value of `field`, or `default` where the field is missing.
pub open spec fn text_or(fs: Seq<(u32, Seq<u8>)>, field: Field, default: Seq<u8>) -> Seq<u8> {
    match text(fs, field) {
        Some(t) => t,
        None => default,
    }
}

fn required(res: &ResponseMessage, field: Field) -> (r: Result<Vec<u8>, Error>)
    ensures
        match r {
            Ok(v) => text(res.fields(), field) == Some(v@),
            Err(e) => text(res.fields(), field) is None && e@ == ErrorView::FieldNotFoundError(
                field,
            ),
        },
{
    match res.get_field_value(field) {
        Some(v) => Ok(v),
        None => Err(Error::FieldNotFoundError(field)),
    }
}

fn optional_decimal(res: &ResponseMessage, field: Field) -> (r: Result<Option<Decimal>, Error>)
    ensures
        match r {
            Ok(d) => decimal_or_none(res.fields(), field) && decimal_view(d) == text(
                res.fields(),
                field,
            ),
            Err(e) => !decimal_or_none(res.fields(), field) && e@
                == ErrorView::FieldNotFoundError(field),
        },
{
    match res.get_field_value(field) {
        Some(t) => match Decimal::parse(t.as_slice()) {
            Some(d) => Ok(Some(d)),
            None => Err(Error::FieldNotFoundError(field)),
        },
        None => Ok(None),
    }
}

fn required_decimal(res: &ResponseMessage, field: Field) -> (r: Result<Decimal, Error>)
    ensures
        match r {
            Ok(d) => text(res.fields(), field) == Some(d@) && is_decimal_text(d@),
            Err(e) => !(text(res.fields(), field) is Some && is_decimal_text(
                text(res.fields(), field)->0,
            )) && e@ == ErrorView::FieldNotFoundError(field),
        },
{
    match res.get_field_value(field) {
        Some(t) => match Decimal::parse(t.as_slice()) {
            Some(d) => Ok(d),
            None => Err(Error::FieldNotFoundError(field)),
        },
        None => Err(Error::FieldNotFoundError(field)),
    }
}

fn decimal_or_zero(res: &ResponseMessage, field: Field) -> (r: Result<Decimal, Error>)
    ensures
        match r {
            Ok(d) => decimal_or_none(res.fields(), field) && d@ == text_or(
                res.fields(),
                field,
                ascii("0.0"),
            ),
            Err(e) => !decimal_or_none(res.fields(), field) && e@
                == ErrorView::FieldNotFoundError(field),
        },
{
    proof {
        reveal_strlit("0.0");
    }
    let t = match res.get_field_value(field) {
        Some(t) => t,
        None => {
            let zero = lit("0.0");
            assert(number_body(zero@) =~= zero@);
            assert(is_digit(zero@[0]));
            zero
        },
    };
    match Decimal::parse(t.as_slice()) {
        Some(d) => Ok(d),
        None => Err(Error::FieldNotFoundError(field)),
    }
}

fn optional_number(res: &ResponseMessage, field: Field) -> (r: Result<Option<u32>, Error>)
    ensures
        match r {
            Ok(n) => number_or_none(res.fields(), field) && n == number(res.fields(), field),
            Err(e) => !number_or_none(res.fields(), field) && e@ == ErrorView::FieldNotFoundError(
                field,
            ),
        },
{
    match res.get_field_value(field) {
        Some(t) => match parse_u32(t.as_slice()) {
            Some(n) => Ok(Some(n)),
            None => Err(Error::FieldNotFoundError(field)),
        },
        None => Ok(None),
    }
}

fn optional_flag(res: &ResponseMessage, field: Field) -> (r: Option<bool>)
    ensures
        r == flag(res.fields(), field),
{
    proof {
        reveal_strlit("Y");
    }
    match res.get_field_value(field) {
        Some(t) => Some(is_text(t.as_slice(), "Y")),
        None => None,
    }
}

fn optional_time(res: &ResponseMessage, field: Field) -> (r: Result<Option<Timestamp>, Error>)
    ensures
        match r {
            Ok(t) => time_or_none(res.fields(), field) && millis_view(t) == time(
                res.fields(),
                field,
            ),
            Err(e) => !time_or_none(res.fields(), field) && e@ == ErrorView::FieldNotFoundError(
                field,
            ),
        },
{
    match res.get_field_value(field) {
        Some(t) => match Timestamp::parse(t.as_slice()) {
            Some(v) => Ok(Some(v)),
            None => Err(Error::FieldNotFoundError(field)),
        },
        None => Ok(None),
    }
}

/// The symbol that an entry of the security list denotes: its name, and its identifier
/// and digits as numbers. Nothing for an entry that lacks one of the three or holds no
/// number where one is due.
pub open spec fn symbol_of(e: Map<u32, Seq<u8>>) -> Option<SymbolView> {
    if e.contains_key(Field::SymbolName.tag_spec()) && e.contains_key(Field::Symbol.tag_spec())
        && parse_u32_spec(e[Field::Symbol.tag_spec()]) is Some && e.contains_key(
        Field::SymbolDigits.tag_spec(),
    ) && parse_u32_spec(e[Field::SymbolDigits.tag_spec()]) is Some {
        Some(
            SymbolView {
                id: parse_u32_spec(e[Field::Symbol.tag_spec()])->0,
                name: e[Field::SymbolName.tag_spec()],
                digits: parse_u32_spec(e[Field::SymbolDigits.tag_spec()])->0,
            },
        )
    } else {
        None
    }
}

/// The symbols of a security list, in the order of its entries: one of each entry that
/// has at least three fields and denotes a symbol. Every other entry is passed over.
pub open spec fn symbols_of(entries: Seq<Map<u32, Seq<u8>>>) -> Seq<SymbolView>
    decreases entries.len(),
{
    if entries.len() == 0 {
        Seq::empty()
    } else {
        let earlier = symbols_of(entries.drop_last());
        if entries.last().len() >= 3 && symbol_of(entries.last()) is Some {
            earlier.push(symbol_of(entries.last())->0)
        } else {
            earlier
        }
    }
}

/// The views of a list of symbols.
pub open spec fn symbols_view(v: Seq<SymbolInformation>) -> Seq<SymbolView> {
    Seq::new(v.len(), |i: int| v[i]@)
}

/// The view of an optional symbol.
pub open spec fn symbol_view(s: Option<SymbolInformation>) -> Option<SymbolView> {
    match s {
        Some(v) => Some(v@),
        None => None,
    }
}

fn read_symbol(e: &Group) -> (r: Option<SymbolInformation>)
    ensures
        symbol_view(r) == symbol_of(e@),
{
    let name = match e.get(Field::SymbolName) {
        Some(v) => v,
        None => {
            return None;
        },
    };
    let id = match e.get(Field::Symbol) {
        Some(t) => match parse_u32(t.as_slice()) {
            Some(n) => n,
            None => {
                return None;
            },
        },
        None => {
            return None;
        },
    };
    let digits = match e.get(Field::SymbolDigits) {
        Some(t) => match parse_u32(t.as_slice()) {
            Some(n) => n,
            None => {
                return None;
            },
        },
        None => {
            return None;
        },
    };
    Some(SymbolInformation { id, name, digits })
}

/// Reads a security list: the repeating group that `NoRelatedSym` introduces, each
/// repetition starting with `Symbol`. Each repetition with at least three fields that
/// carries a name, an identifier and digits gives a symbol; the others are passed
/// over. Reading never fails.
pub fn parse_security_list(res: &ResponseMessage) -> (r: Result<Vec<SymbolInformation>, Error>)
    ensures
        r is Ok,
        symbols_view(r->Ok_0@) == symbols_of(
            repeating_groups(
                res.fields(),
                Field::NoRelatedSym.tag_spec(),
                Field::Symbol.tag_spec(),
                None,
            ),
        ),
{
    let sec_list = res.get_repeating_groups(Field::NoRelatedSym, Field::Symbol, None);
    let ghost entries = groups_view(sec_list@);
    let mut result: Vec<SymbolInformation> = Vec::new();
    let mut i: usize = 0;
    assert(entries.subrange(0, 0) =~= Seq::empty());
    assert(symbols_view(result@) =~= Seq::empty());
    while i < sec_list.len()
        invariant
            i <= sec_list@.len(),
            entries == groups_view(sec_list@),
            symbols_of(entries.subrange(0, i as int)) == symbols_view(result@),
        decreases sec_list@.len() - i,
    {
        let ghost before = symbols_view(result@);
        assert(entries.subrange(0, i + 1).drop_last() =~= entries.subrange(0, i as int));
        assert(entries.subrange(0, i + 1).last() == sec_list@[i as int]@);
        if sec_list[i].len() >= 3 {
            match read_symbol(&sec_list[i]) {
                Some(s) => {
                    let ghost sv = s@;
                    result.push(s);
                    assert(symbols_view(result@) =~= before.push(sv));
                },
                None => {},
            }
        }
        i = i + 1;
    }
    assert(entries.subrange(0, i as int) =~= entries);
    Ok(result)
}

/// The side that the field `Side` denotes: 1 buys, 2 sells.
pub open spec fn side_of(fs: Seq<(u32, Seq<u8>)>) -> Option<Side> {
    match number(fs, Field::Side) {
        Some(code) => if code == 1 {
            Some(Side::BUY)
        } else if code == 2 {
            Some(Side::SELL)
        } else {
            None
        },
        None => None,
    }
}

/// True when `field` is there and holds a decimal number.
pub open spec fn has_decimal(fs: Seq<(u32, Seq<u8>)>, field: Field) -> bool {
    text(fs, field) is Some && is_decimal_text(text(fs, field)->0)
}

/// The first field, in the order of the report, that is missing or malformed; `None`
/// for fields that make an execution report.
pub open spec fn report_failure(fs: Seq<(u32, Seq<u8>)>) -> Option<Field> {
    if !(text(fs, Field::ExecType) is Some && ExecutionType::of_text(text(fs, Field::ExecType)->0)
        is Some) {
        Some(Field::ExecType)
    } else if !number_or_none(fs, Field::Symbol) {
        Some(Field::Symbol)
    } else if text(fs, Field::OrderID) is None {
        Some(Field::OrderID)
    } else if text(fs, Field::ClOrdId) is None {
        Some(Field::ClOrdId)
    } else if text(fs, Field::PosMaintRptID) is None {
        Some(Field::PosMaintRptID)
    } else if !(text(fs, Field::OrdStatus) is Some && OrderStatus::of_text(
        text(fs, Field::OrdStatus)->0,
    ) is Some) {
        Some(Field::OrdStatus)
    } else if !(text(fs, Field::OrdType) is Some && OrderType::of_text(text(fs, Field::OrdType)->0)
        is Some) {
        Some(Field::OrdType)
    } else if side_of(fs) is None {
        Some(Field::Side)
    } else if !decimal_or_none(fs, Field::Price) {
        Some(Field::Price)
    } else if !decimal_or_none(fs, Field::StopPx) {
        Some(Field::StopPx)
    } else if !decimal_or_none(fs, Field::AvgPx) {
        Some(Field::AvgPx)
    } else if !decimal_or_none(fs, Field::AbsoluteTP) {
        Some(Field::AbsoluteTP)
    } else if !decimal_or_none(fs, Field::RelativeTP) {
        Some(Field::RelativeTP)
    } else if !decimal_or_none(fs, Field::AbsoluteSL) {
        Some(Field::AbsoluteSL)
    } else if !decimal_or_none(fs, Field::RelativeSL) {
        Some(Field::RelativeSL)
    } else if !number_or_none(fs, Field::TriggerMethodSL) {
        Some(Field::TriggerMethodSL)
    } else if !decimal_or_none(fs, Field::CumQty) {
        Some(Field::CumQty)
    } else if !decimal_or_none(fs, Field::OrderQty) {
        Some(Field::OrderQty)
    } else if !decimal_or_none(fs, Field::LeavesQty) {
        Some(Field::LeavesQty)
    } else if !decimal_or_none(fs, Field::OrdQty) {
        Some(Field::OrdQty)
    } else if text(fs, Field::TimeInForce) is None {
        Some(Field::TimeInForce)
    } else if time(fs, Field::TransactTime) is None {
        Some(Field::TransactTime)
    } else if !time_or_none(fs, Field::ExpireTime) {
        Some(Field::ExpireTime)
    } else {
        None
    }
}

/// The execution report that the fields make, each part read from the field that it is
/// named after. A missing symbol is 0 and missing quantities are `0.0`; the last
/// quantity, the amount of the last fill, is the field `OrdQty` (tag 32).
pub open spec fn report_of(fs: Seq<(u32, Seq<u8>)>) -> ReportView {
    ReportView {
        exec_type: ExecutionType::of_text(text(fs, Field::ExecType)->0)->0,
        order_report: OrderView {
            symbol: match number(fs, Field::Symbol) {
                Some(n) => n,
                None => 0,
            },
            order_id: text(fs, Field::OrderID)->0,
            cl_ord_id: text(fs, Field::ClOrdId)->0,
            pos_main_rept_id: text(fs, Field::PosMaintRptID)->0,
            designation: text(fs, Field::Designation),
            order_status: OrderStatus::of_text(text(fs, Field::OrdStatus)->0)->0,
            order_type: OrderType::of_text(text(fs, Field::OrdType)->0)->0,
            side: side_of(fs)->0,
            price: text(fs, Field::Price),
            stop_px: text(fs, Field::StopPx),
            avx_px: text(fs, Field::AvgPx),
            absolute_tp: text(fs, Field::AbsoluteTP),
            reltative_tp: text(fs, Field::RelativeTP),
            absolute_sl: text(fs, Field::AbsoluteSL),
            reltative_sl: text(fs, Field::RelativeSL),
            trailing_sl: flag(fs, Field::TrailingSL),
            trigger_method_sl: number(fs, Field::TriggerMethodSL),
            guaranteed_sl: flag(fs, Field::GuaranteedSL),
            cum_qty: text(fs, Field::CumQty),
            order_qty: text_or(fs, Field::OrderQty, ascii("0.0")),
            leaves_qty: text_or(fs, Field::LeavesQty, ascii("0.0")),
            last_qty: text(fs, Field::OrdQty),
            time_in_force: text(fs, Field::TimeInForce)->0,
            transact_time: time(fs, Field::TransactTime)->0,
            expire_time: time(fs, Field::ExpireTime),
            text: text(fs, Field::Text),
        },
    }
}

/// Reads an execution report. The report is made as `report_of` says; the first field
/// that is missing or malformed fails it with `FieldNotFoundError`.
pub fn parse_execution_report(res: &ResponseMessage) -> (r: Result<ExecutionReport, Error>)
    ensures
        match r {
            Ok(report) => report_failure(res.fields()) is None && report@ == report_of(
                res.fields(),
            ),
            Err(e) => report_failure(res.fields()) is Some && e@ == ErrorView::FieldNotFoundError(
                report_failure(res.fields())->0,
            ),
        },
{
    let exec_type = match ExecutionType::from_bytes(required(res, Field::ExecType)?.as_slice()) {
        Ok(v) => v,
        Err(_) => {
            return Err(Error::FieldNotFoundError(Field::ExecType));
        },
    };
    let symbol = match optional_number(res, Field::Symbol)? {
        Some(n) => n,
        None => 0,
    };
    let order_id = required(res, Field::OrderID)?;
    let cl_ord_id = required(res, Field::ClOrdId)?;
    let pos_main_rept_id = required(res, Field::PosMaintRptID)?;
    let designation = res.get_field_value(Field::Designation);
    let order_status = match OrderStatus::from_bytes(required(res, Field::OrdStatus)?.as_slice()) {
        Ok(v) => v,
        Err(_) => {
            return Err(Error::FieldNotFoundError(Field::OrdStatus));
        },
    };
    let order_type = match OrderType::from_bytes(required(res, Field::OrdType)?.as_slice()) {
        Ok(v) => v,
        Err(_) => {
            return Err(Error::FieldNotFoundError(Field::OrdType));
        },
    };
    let side = match res.get_field_value(Field::Side) {
        Some(t) => match parse_u32(t.as_slice()) {
            Some(code) => match Side::from_code(code) {
                Some(v) => v,
                None => {
                    return Err(Error::FieldNotFoundError(Field::Side));
                },
            },
            None => {
                return Err(Error::FieldNotFoundError(Field::Side));
            },
        },
        None => {
            return Err(Error::FieldNotFoundError(Field::Side));
        },
    };
    let price = optional_decimal(res, Field::Price)?;
    let stop_px = optional_decimal(res, Field::StopPx)?;
    let avx_px = optional_decimal(res, Field::AvgPx)?;
    let absolute_tp = optional_decimal(res, Field::AbsoluteTP)?;
    let reltative_tp = optional_decimal(res, Field::RelativeTP)?;
    let absolute_sl = optional_decimal(res, Field::AbsoluteSL)?;
    let reltative_sl = optional_decimal(res, Field::RelativeSL)?;
    let trailing_sl = optional_flag(res, Field::TrailingSL);
    let trigger_method_sl = optional_number(res, Field::TriggerMethodSL)?;
    let guaranteed_sl = optional_flag(res, Field::GuaranteedSL);
    let cum_qty = optional_decimal(res, Field::CumQty)?;
    let order_qty = decimal_or_zero(res, Field::OrderQty)?;
    let leaves_qty = decimal_or_zero(res, Field::LeavesQty)?;
    let last_qty = optional_decimal(res, Field::OrdQty)?;
    let time_in_force = required(res, Field::TimeInForce)?;
    let transact_time = match Timestamp::parse(required(res, Field::TransactTime)?.as_slice()) {
        Some(v) => v,
        None => {
            return Err(Error::FieldNotFoundError(Field::TransactTime));
        },
    };
    let expire_time = optional_time(res, Field::ExpireTime)?;
    let text = res.get_field_value(Field::Text);
    Ok(
        ExecutionReport {
            exec_type,
            order_report: OrderReport {
                symbol,
                order_id,
                cl_ord_id,
                pos_main_rept_id,
                designation,
                order_status,
                order_type,
                side,
                price,
                stop_px,
                avx_px,
                absolute_tp,
                reltative_tp,
                absolute_sl,
                reltative_sl,
                trailing_sl,
                trigger_method_sl,
                guaranteed_sl,
                cum_qty,
                order_qty,
                leaves_qty,
                last_qty,
                time_in_force,
                transact_time,
                expire_time,
                text,
            },
        },
    )
}

/// The fields of each message of a list.
pub open spec fn fields_of_each(v: Seq<ResponseMessage>) -> Seq<Seq<(u32, Seq<u8>)>> {
    Seq::new(v.len(), |i: int| v[i].fields())
}

/// The views of a list of execution reports.
pub open spec fn reports_view(v: Seq<ExecutionReport>) -> Seq<ReportView> {
    Seq::new(v.len(), |i: int| v[i]@)
}

/// The execution reports of the messages, in order, or the field on which the first
/// faulty message fails.
pub open spec fn reports_of(msgs: Seq<Seq<(u32, Seq<u8>)>>) -> Result<Seq<ReportView>, Field>
    decreases msgs.len(),
{
    if msgs.len() == 0 {
        Ok(Seq::empty())
    } else {
        match reports_of(msgs.drop_last()) {
            Ok(earlier) => match report_failure(msgs.last()) {
                Some(f) => Err(f),
                None => Ok(earlier.push(report_of(msgs.last()))),
            },
            Err(f) => Err(f),
        }
    }
}

/// A list that fails on a prefix fails on the whole, with the same field.
pub proof fn lemma_reports_fail(msgs: Seq<Seq<(u32, Seq<u8>)>>, k: int)
    requires
        0 <= k <= msgs.len(),
        reports_of(msgs.subrange(0, k)) is Err,
    ensures
        reports_of(msgs) == reports_of(msgs.subrange(0, k)),
    decreases msgs.len() - k,
{
    if k == msgs.len() {
        assert(msgs.subrange(0, k) =~= msgs);
    } else {
        assert(msgs.subrange(0, k + 1).drop_last() =~= msgs.subrange(0, k));
        lemma_reports_fail(msgs, k + 1);
    }
}

/// Reads the execution reports of an order mass status: one of each message, in order;
/// the first message that makes no report fails the list.
pub fn parse_order_mass_status(res: &Vec<ResponseMessage>) -> (r: Result<
    Vec<ExecutionReport>,
    Error,
>)
    ensures
        match r {
            Ok(list) => reports_of(fields_of_each(res@)) == Ok::<Seq<ReportView>, Field>(
                reports_view(list@),
            ),
            Err(e) => reports_of(fields_of_each(res@)) is Err && e@
                == ErrorView::FieldNotFoundError(reports_of(fields_of_each(res@))->Err_0),
        },
{
    let ghost msgs = fields_of_each(res@);
    let mut result: Vec<ExecutionReport> = Vec::new();
    let mut i: usize = 0;
    assert(msgs.subrange(0, 0) =~= Seq::empty());
    assert(reports_view(result@) =~= Seq::empty());
    while i < res.len()
        invariant
            i <= res@.len(),
            msgs == fields_of_each(res@),
            reports_of(msgs.subrange(0, i as int)) == Ok::<Seq<ReportView>, Field>(
                reports_view(result@),
            ),
        decreases res@.len() - i,
    {
        let ghost before = reports_view(result@);
        assert(msgs.subrange(0, i + 1).drop_last() =~= msgs.subrange(0, i as int));
        assert(msgs.subrange(0, i + 1).last() == res@[i as int].fields());
        match parse_execution_report(&res[i]) {
            Ok(report) => {
                let ghost rv = report@;
                result.push(report);
                assert(reports_view(result@) =~= before.push(rv));
            },
            Err(e) => {
                proof {
                    let upto = msgs.subrange(0, i + 1);
                    assert(reports_of(upto.drop_last()) is Ok);
                    assert(reports_of(upto) == Err::<Seq<ReportView>, Field>(
                        report_failure(upto.last())->0,
                    ));
                    lemma_reports_fail(msgs, i + 1);
                }
                return Err(e);
            },
        }
        i = i + 1;
    }
    assert(msgs.subrange(0, i as int) =~= msgs);
    Ok(result)
}

/// The position that a position report carries: `Ok(None)` for a report whose request
/// result is not `0` or that does not carry exactly one position, and the field that
/// is missing or malformed for a report that cannot be read.
pub open spec fn position_of(fs: Seq<(u32, Seq<u8>)>) -> Result<Option<PositionView>, Field> {
    if text(fs, Field::PosReqResult) is None {
        Err(Field::PosReqResult)
    } else if text(fs, Field::PosReqResult) != Some(ascii("0")) || text(fs, Field::NoPositions)
        != Some(ascii("1")) {
        Ok(None)
    } else if number(fs, Field::Symbol) is None {
        Err(Field::Symbol)
    } else if text(fs, Field::PosMaintRptID) is None {
        Err(Field::PosMaintRptID)
    } else if !has_decimal(fs, Field::LongQty) {
        Err(Field::LongQty)
    } else if !has_decimal(fs, Field::ShortQty) {
        Err(Field::ShortQty)
    } else if !has_decimal(fs, Field::SettlPrice) {
        Err(Field::SettlPrice)
    } else if !decimal_or_none(fs, Field::AbsoluteTP) {
        Err(Field::AbsoluteTP)
    } else if !decimal_or_none(fs, Field::AbsoluteSL) {
        Err(Field::AbsoluteSL)
    } else if !number_or_none(fs, Field::TriggerMethodSL) {
        Err(Field::TriggerMethodSL)
    } else {
        Ok(
            Some(
                PositionView {
                    symbol_id: number(fs, Field::Symbol)->0,
                    position_id: text(fs, Field::PosMaintRptID)->0,
                    long_qty: text(fs, Field::LongQty)->0,
                    short_qty: text(fs, Field::ShortQty)->0,
                    settle_price: text(fs, Field::SettlPrice)->0,
                    absolute_tp: text(fs, Field::AbsoluteTP),
                    absolute_sl: text(fs, Field::AbsoluteSL),
                    trailing_sl: flag(fs, Field::TrailingSL),
                    trigger_method_sl: number(fs, Field::TriggerMethodSL),
                    guaranteed_sl: flag(fs, Field::GuaranteedSL),
                },
            ),
        )
    }
}

/// The positions of the reports, in order, or the field on which the first faulty
/// report fails.
pub open spec fn positions_of(msgs: Seq<Seq<(u32, Seq<u8>)>>) -> Result<Seq<PositionView>, Field>
    decreases msgs.len(),
{
    if msgs.len() == 0 {
        Ok(Seq::empty())
    } else {
        match positions_of(msgs.drop_last()) {
            Ok(earlier) => match position_of(msgs.last()) {
                Ok(Some(p)) => Ok(earlier.push(p)),
                Ok(None) => Ok(earlier),
                Err(f) => Err(f),
            },
            Err(f) => Err(f),
        }
    }
}

/// A list that fails on a prefix fails on the whole, with the same field.
pub proof fn lemma_positions_fail(msgs: Seq<Seq<(u32, Seq<u8>)>>, k: int)
    requires
        0 <= k <= msgs.len(),
        positions_of(msgs.subrange(0, k)) is Err,
    ensures
        positions_of(msgs) == positions_of(msgs.subrange(0, k)),
    decreases msgs.len() - k,
{
    if k == msgs.len() {
        assert(msgs.subrange(0, k) =~= msgs);
    } else {
        assert(msgs.subrange(0, k + 1).drop_last() =~= msgs.subrange(0, k));
        lemma_positions_fail(msgs, k + 1);
    }
}

/// The views of a list of positions.
pub open spec fn positions_view(v: Seq<PositionReport>) -> Seq<PositionView> {
    Seq::new(v.len(), |i: int| v[i]@)
}

fn read_position(res: &ResponseMessage) -> (r: Result<Option<PositionReport>, Error>)
    ensures
        match r {
            Ok(Some(p)) => position_of(res.fields()) == Ok::<Option<PositionView>, Field>(
                Some(p@),
            ),
            Ok(None) => position_of(res.fields()) == Ok::<Option<PositionView>, Field>(None),
            Err(e) => position_of(res.fields()) is Err && e@ == ErrorView::FieldNotFoundError(
                position_of(res.fields())->Err_0,
            ),
        },
{
    proof {
        reveal_strlit("0");
        reveal_strlit("1");
    }
    let result = required(res, Field::PosReqResult)?;
    if !is_text(result.as_slice(), "0") {
        return Ok(None);
    }
    match res.get_field_value(Field::NoPositions) {
        Some(t) => {
            if !is_text(t.as_slice(), "1") {
                return Ok(None);
            }
        },
        None => {
            return Ok(None);
        },
    }
    let symbol_id = match res.get_field_value(Field::Symbol) {
        Some(t) => match parse_u32(t.as_slice()) {
            Some(n) => n,
            None => {
                return Err(Error::FieldNotFoundError(Field::Symbol));
            },
        },
        None => {
            return Err(Error::FieldNotFoundError(Field::Symbol));
        },
    };
    let position_id = required(res, Field::PosMaintRptID)?;
    let long_qty = required_decimal(res, Field::LongQty)?;
    let short_qty = required_decimal(res, Field::ShortQty)?;
    let settle_price = required_decimal(res, Field::SettlPrice)?;
    let absolute_tp = optional_decimal(res, Field::AbsoluteTP)?;
    let absolute_sl = optional_decimal(res, Field::AbsoluteSL)?;
    let trailing_sl = optional_flag(res, Field::TrailingSL);
    let trigger_method_sl = optional_number(res, Field::TriggerMethodSL)?;
    let guaranteed_sl = optional_flag(res, Field::GuaranteedSL);
    Ok(
        Some(
            PositionReport {
                symbol_id,
                position_id,
                long_qty,
                short_qty,
                settle_price,
                absolute_tp,
                absolute_sl,
                trailing_sl,
                trigger_method_sl,
                guaranteed_sl,
            },
        ),
    )
}

/// Reads the positions of a list of position reports: of each report whose request
/// result is `0` and that carries exactly one position, that position; the first
/// report that cannot be read fails the list.
pub fn parse_positions(res: &Vec<ResponseMessage>) -> (r: Result<Vec<PositionReport>, Error>)
    ensures
        match r {
            Ok(list) => positions_of(fields_of_each(res@)) == Ok::<Seq<PositionView>, Field>(
                positions_view(list@),
            ),
            Err(e) => positions_of(fields_of_each(res@)) is Err && e@
                == ErrorView::FieldNotFoundError(positions_of(fields_of_each(res@))->Err_0),
        },
{
    let ghost msgs = fields_of_each(res@);
    let mut result: Vec<PositionReport> = Vec::new();
    let mut i: usize = 0;
    assert(msgs.subrange(0, 0) =~= Seq::empty());
    assert(positions_view(result@) =~= Seq::empty());
    while i < res.len()
        invariant
            i <= res@.len(),
            msgs == fields_of_each(res@),
            positions_of(msgs.subrange(0, i as int)) == Ok::<Seq<PositionView>, Field>(
                positions_view(result@),
            ),
        decreases res@.len() - i,
    {
        let ghost before = positions_view(result@);
        assert(msgs.subrange(0, i + 1).drop_last() =~= msgs.subrange(0, i as int));
        assert(msgs.subrange(0, i + 1).last() == res@[i as int].fields());
        match read_position(&res[i]) {
            Ok(Some(p)) => {
                let ghost pv = p@;
                result.push(p);
                assert(positions_view(result@) =~= before.push(pv));
            },
            Ok(None) => {},
            Err(e) => {
                proof {
                    let upto = msgs.subrange(0, i + 1);
                    assert(positions_of(upto.drop_last()) is Ok);
                    assert(positions_of(upto) == Err::<Seq<PositionView>, Field>(
                        position_of(upto.last())->Err_0,
                    ));
                    lemma_positions_fail(msgs, i + 1);
                }
                return Err(e);
            },
        }
        i = i + 1;
    }
    assert(msgs.subrange(0, i as int) =~= msgs);
    Ok(result)
}

} // verus!
