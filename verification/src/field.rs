//! The tags of the FIX fields that the venue uses.

use vstd::prelude::*;

verus! {

/// A FIX field, named as in the FIX 4.4 dictionary. Its number on the wire is `tag()`.
#[derive(Debug, Clone, Copy, PartialEq, Eq, Hash, Structural)]
pub enum Field {
    AvgPx,
    BeginSeqNo,
    BeginString,
    BodyLength,
    CheckSum,
    ClOrdId,
    CumQty,
    EndSeqNo,
    OrdQty,
    MsgSeqNum,
    MsgType,
    NewSeqNo,
    OrderID,
    OrderQty,
    OrdStatus,
    OrdType,
    OrigClOrdID,
    Price,
    RefSeqNum,
    SenderCompID,
    SenderSubID,
    SendingTime,
    Side,
    Symbol,
    TargetCompID,
    TargetSubID,
    Text,
    TimeInForce,
    TransactTime,
    EncryptMethod,
    StopPx,
    OrdRejReason,
    HeartBtInt,
    TestReqID,
    GapFillFlag,
    ExpireTime,
    ResetSeqNumFlag,
    NoRelatedSym,
    ExecType,
    LeavesQty,
    IssueDate,
    MDReqID,
    SubscriptionRequestType,
    MarketDepth,
    MDUpdateType,
    NoMDEntryTypes,
    NoMDEntries,
    MDEntryType,
    MDEntryPx,
    MDEntrySize,
    MDEntryID,
    MDUpdateAction,
    SecurityReqID,
    SecurityResponseID,
    EncodedTextLen,
    EncodedText,
    RefTagID,
    RefMsgType,
    SessionRejectReason,
    BusinessRejectRefID,
    BusinessRejectReason,
    CxlRejResponseTo,
    Designation,
    Username,
    Password,
    SecurityListRequestType,
    SecurityRequestResult,
    MassStatusReqID,
    MassStatusReqType,
    NoPositions,
    LongQty,
    ShortQty,
    PosReqID,
    PosMaintRptID,
    TotalNumPosReports,
    PosReqResult,
    SettlPrice,
    TotNumReports,
    AbsoluteTP,
    RelativeTP,
    AbsoluteSL,
    RelativeSL,
    TrailingSL,
    TriggerMethodSL,
    GuaranteedSL,
    SymbolName,
    SymbolDigits,
}

impl Field {
    /// The tag number that stands before `=` on the wire.
    pub open spec fn tag_spec(self) -> u32 {
        match self {
            Field::AvgPx => 6,
            Field::BeginSeqNo => 7,
            Field::BeginString => 8,
            Field::BodyLength => 9,
            Field::CheckSum => 10,
            Field::ClOrdId => 11,
            Field::CumQty => 14,
            Field::EndSeqNo => 16,
            Field::OrdQty => 32,
            Field::MsgSeqNum => 34,
            Field::MsgType => 35,
            Field::NewSeqNo => 36,
            Field::OrderID => 37,
            Field::OrderQty => 38,
            Field::OrdStatus => 39,
            Field::OrdType => 40,
            Field::OrigClOrdID => 41,
            Field::Price => 44,
            Field::RefSeqNum => 45,
            Field::SenderCompID => 49,
            Field::SenderSubID => 50,
            Field::SendingTime => 52,
            Field::Side => 54,
            Field::Symbol => 55,
            Field::TargetCompID => 56,
            Field::TargetSubID => 57,
            Field::Text => 58,
            Field::TimeInForce => 59,
            Field::TransactTime => 60,
            Field::EncryptMethod => 98,
            Field::StopPx => 99,
            Field::OrdRejReason => 103,
            Field::HeartBtInt => 108,
            Field::TestReqID => 112,
            Field::GapFillFlag => 123,
            Field::ExpireTime => 126,
            Field::ResetSeqNumFlag => 141,
            Field::NoRelatedSym => 146,
            Field::ExecType => 150,
            Field::LeavesQty => 151,
            Field::IssueDate => 225,
            Field::MDReqID => 262,
            Field::SubscriptionRequestType => 263,
            Field::MarketDepth => 264,
            Field::MDUpdateType => 265,
            Field::NoMDEntryTypes => 267,
            Field::NoMDEntries => 268,
            Field::MDEntryType => 269,
            Field::MDEntryPx => 270,
            Field::MDEntrySize => 271,
            Field::MDEntryID => 278,
            Field::MDUpdateAction => 279,
            Field::SecurityReqID => 320,
            Field::SecurityResponseID => 322,
            Field::EncodedTextLen => 354,
            Field::EncodedText => 355,
            Field::RefTagID => 371,
            Field::RefMsgType => 372,
            Field::SessionRejectReason => 373,
            Field::BusinessRejectRefID => 379,
            Field::BusinessRejectReason => 380,
            Field::CxlRejResponseTo => 434,
            Field::Designation => 494,
            Field::Username => 553,
            Field::Password => 554,
            Field::SecurityListRequestType => 559,
            Field::SecurityRequestResult => 560,
            Field::MassStatusReqID => 584,
            Field::MassStatusReqType => 585,
            Field::NoPositions => 702,
            Field::LongQty => 704,
            Field::ShortQty => 705,
            Field::PosReqID => 710,
            Field::PosMaintRptID => 721,
            Field::TotalNumPosReports => 727,
            Field::PosReqResult => 728,
            Field::SettlPrice => 730,
            Field::TotNumReports => 911,
            Field::AbsoluteTP => 1000,
            Field::RelativeTP => 1001,
            Field::AbsoluteSL => 1002,
            Field::RelativeSL => 1003,
            Field::TrailingSL => 1004,
            Field::TriggerMethodSL => 1005,
            Field::GuaranteedSL => 1006,
            Field::SymbolName => 1007,
            Field::SymbolDigits => 1008,
        }
    }

    #[verifier::when_used_as_spec(tag_spec)]
    pub fn tag(self) -> (r: u32)
        ensures
            r == self.tag_spec(),
    {
        match self {
            Field::AvgPx => 6,
            Field::BeginSeqNo => 7,
            Field::BeginString => 8,
            Field::BodyLength => 9,
            Field::CheckSum => 10,
            Field::ClOrdId => 11,
            Field::CumQty => 14,
            Field::EndSeqNo => 16,
            Field::OrdQty => 32,
            Field::MsgSeqNum => 34,
            Field::MsgType => 35,
            Field::NewSeqNo => 36,
            Field::OrderID => 37,
            Field::OrderQty => 38,
            Field::OrdStatus => 39,
            Field::OrdType => 40,
            Field::OrigClOrdID => 41,
            Field::Price => 44,
            Field::RefSeqNum => 45,
            Field::SenderCompID => 49,
            Field::SenderSubID => 50,
            Field::SendingTime => 52,
            Field::Side => 54,
            Field::Symbol => 55,
            Field::TargetCompID => 56,
            Field::TargetSubID => 57,
            Field::Text => 58,
            Field::TimeInForce => 59,
            Field::TransactTime => 60,
            Field::EncryptMethod => 98,
            Field::StopPx => 99,
            Field::OrdRejReason => 103,
            Field::HeartBtInt => 108,
            Field::TestReqID => 112,
            Field::GapFillFlag => 123,
            Field::ExpireTime => 126,
            Field::ResetSeqNumFlag => 141,
            Field::NoRelatedSym => 146,
            Field::ExecType => 150,
            Field::LeavesQty => 151,
            Field::IssueDate => 225,
            Field::MDReqID => 262,
            Field::SubscriptionRequestType => 263,
            Field::MarketDepth => 264,
            Field::MDUpdateType => 265,
            Field::NoMDEntryTypes => 267,
            Field::NoMDEntries => 268,
            Field::MDEntryType => 269,
            Field::MDEntryPx => 270,
            Field::MDEntrySize => 271,
            Field::MDEntryID => 278,
            Field::MDUpdateAction => 279,
            Field::SecurityReqID => 320,
            Field::SecurityResponseID => 322,
            Field::EncodedTextLen => 354,
            Field::EncodedText => 355,
            Field::RefTagID => 371,
            Field::RefMsgType => 372,
            Field::SessionRejectReason => 373,
            Field::BusinessRejectRefID => 379,
            Field::BusinessRejectReason => 380,
            Field::CxlRejResponseTo => 434,
            Field::Designation => 494,
            Field::Username => 553,
            Field::Password => 554,
            Field::SecurityListRequestType => 559,
            Field::SecurityRequestResult => 560,
            Field::MassStatusReqID => 584,
            Field::MassStatusReqType => 585,
            Field::NoPositions => 702,
            Field::LongQty => 704,
            Field::ShortQty => 705,
            Field::PosReqID => 710,
            Field::PosMaintRptID => 721,
            Field::TotalNumPosReports => 727,
            Field::PosReqResult => 728,
            Field::SettlPrice => 730,
            Field::TotNumReports => 911,
            Field::AbsoluteTP => 1000,
            Field::RelativeTP => 1001,
            Field::AbsoluteSL => 1002,
            Field::RelativeSL => 1003,
            Field::TrailingSL => 1004,
            Field::TriggerMethodSL => 1005,
            Field::GuaranteedSL => 1006,
            Field::SymbolName => 1007,
            Field::SymbolDigits => 1008,
        }
    }

    /// The field with tag `tag`, if the dictionary has one.
    pub fn from_tag(tag: u32) -> (r: Option<Field>)
        ensures
            match r {
                Some(f) => f.tag_spec() == tag,
                None => forall|f: Field| f.tag_spec() != tag,
            },
    {
        match tag {
            6 => Some(Field::AvgPx),
            7 => Some(Field::BeginSeqNo),
            8 => Some(Field::BeginString),
            9 => Some(Field::BodyLength),
            10 => Some(Field::CheckSum),
            11 => Some(Field::ClOrdId),
            14 => Some(Field::CumQty),
            16 => Some(Field::EndSeqNo),
            32 => Some(Field::OrdQty),
            34 => Some(Field::MsgSeqNum),
            35 => Some(Field::MsgType),
            36 => Some(Field::NewSeqNo),
            37 => Some(Field::OrderID),
            38 => Some(Field::OrderQty),
            39 => Some(Field::OrdStatus),
            40 => Some(Field::OrdType),
            41 => Some(Field::OrigClOrdID),
            44 => Some(Field::Price),
            45 => Some(Field::RefSeqNum),
            49 => Some(Field::SenderCompID),
            50 => Some(Field::SenderSubID),
            52 => Some(Field::SendingTime),
            54 => Some(Field::Side),
            55 => Some(Field::Symbol),
            56 => Some(Field::TargetCompID),
            57 => Some(Field::TargetSubID),
            58 => Some(Field::Text),
            59 => Some(Field::TimeInForce),
            60 => Some(Field::TransactTime),
            98 => Some(Field::EncryptMethod),
            99 => Some(Field::StopPx),
            103 => Some(Field::OrdRejReason),
            108 => Some(Field::HeartBtInt),
            112 => Some(Field::TestReqID),
            123 => Some(Field::GapFillFlag),
            126 => Some(Field::ExpireTime),
            141 => Some(Field::ResetSeqNumFlag),
            146 => Some(Field::NoRelatedSym),
            150 => Some(Field::ExecType),
            151 => Some(Field::LeavesQty),
            225 => Some(Field::IssueDate),
            262 => Some(Field::MDReqID),
            263 => Some(Field::SubscriptionRequestType),
            264 => Some(Field::MarketDepth),
            265 => Some(Field::MDUpdateType),
            267 => Some(Field::NoMDEntryTypes),
            268 => Some(Field::NoMDEntries),
            269 => Some(Field::MDEntryType),
            270 => Some(Field::MDEntryPx),
            271 => Some(Field::MDEntrySize),
            278 => Some(Field::MDEntryID),
            279 => Some(Field::MDUpdateAction),
            320 => Some(Field::SecurityReqID),
            322 => Some(Field::SecurityResponseID),
            354 => Some(Field::EncodedTextLen),
            355 => Some(Field::EncodedText),
            371 => Some(Field::RefTagID),
            372 => Some(Field::RefMsgType),
            373 => Some(Field::SessionRejectReason),
            379 => Some(Field::BusinessRejectRefID),
            380 => Some(Field::BusinessRejectReason),
            434 => Some(Field::CxlRejResponseTo),
            494 => Some(Field::Designation),
            553 => Some(Field::Username),
            554 => Some(Field::Password),
            559 => Some(Field::SecurityListRequestType),
            560 => Some(Field::SecurityRequestResult),
            584 => Some(Field::MassStatusReqID),
            585 => Some(Field::MassStatusReqType),
            702 => Some(Field::NoPositions),
            704 => Some(Field::LongQty),
            705 => Some(Field::ShortQty),
            710 => Some(Field::PosReqID),
            721 => Some(Field::PosMaintRptID),
            727 => Some(Field::TotalNumPosReports),
            728 => Some(Field::PosReqResult),
            730 => Some(Field::SettlPrice),
            911 => Some(Field::TotNumReports),
            1000 => Some(Field::AbsoluteTP),
            1001 => Some(Field::RelativeTP),
            1002 => Some(Field::AbsoluteSL),
            1003 => Some(Field::RelativeSL),
            1004 => Some(Field::TrailingSL),
            1005 => Some(Field::TriggerMethodSL),
            1006 => Some(Field::GuaranteedSL),
            1007 => Some(Field::SymbolName),
            1008 => Some(Field::SymbolDigits),
            _ => None,
        }
    }
}

/// No two fields share a tag.
pub proof fn lemma_tag_injective(a: Field, b: Field)
    requires
        a.tag_spec() == b.tag_spec(),
    ensures
        a == b,
{
}

} // verus!
