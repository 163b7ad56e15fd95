use vstd::prelude::*;

use crate::layout::{kind_of_code, values_of, Field, FieldValue, MessageKind, ParseError, Value};
use crate::record::{decode_as, decode_record, fits, fits_all, layout, lemma_decode_as_fits, read_message, CODE_OFFSET};

verus! {

/// The number at index `i` of decoded values that fit the layout `fs`.
fn number_at(v: &Vec<FieldValue>, i: usize, Ghost(fs): Ghost<Seq<Field>>) -> (r: u64)
    requires
        fits_all(fs, values_of(v@)),
        i < fs.len(),
        fs[i as int] is Decimal || fs[i as int] is Base36,
    ensures
        values_of(v@)[i as int] == Value::Number(r as int),
        fs[i as int] is Decimal ==> r <= fs[i as int]->max,
{
    assert(fits(fs[i as int], values_of(v@)[i as int]));
    assert(values_of(v@)[i as int] == v@[i as int]@);
    match &v[i] {
        FieldValue::Number(n) => *n,
        _ => 0,
    }
}

/// The text at index `i` of decoded values that fit the layout `fs`.
fn text_at(v: &Vec<FieldValue>, i: usize, Ghost(fs): Ghost<Seq<Field>>) -> (r: String)
    requires
        fits_all(fs, values_of(v@)),
        i < fs.len(),
        fs[i as int] is Text || fs[i as int] is Trailing,
    ensures
        values_of(v@)[i as int] == Value::Text(r@),
{
    assert(fits(fs[i as int], values_of(v@)[i as int]));
    assert(values_of(v@)[i as int] == v@[i as int]@);
    match &v[i] {
        FieldValue::Text(t) => t.clone(),
        _ => String::new(),
    }
}

/// The character at index `i` of decoded values that fit the layout `fs`.
fn char_at(v: &Vec<FieldValue>, i: usize, Ghost(fs): Ghost<Seq<Field>>) -> (r: char)
    requires
        fits_all(fs, values_of(v@)),
        i < fs.len(),
        fs[i as int] is AnyChar || fs[i as int] is CharIn,
    ensures
        values_of(v@)[i as int] == Value::Character(r),
{
    assert(fits(fs[i as int], values_of(v@)[i as int]));
    assert(values_of(v@)[i as int] == v@[i as int]@);
    match &v[i] {
        FieldValue::Character(c) => *c,
        _ => ' ',
    }
}

/// An auction summary (`J`).
#[derive(Debug)]
pub struct AuctionSummaryMsg {
    pub timestamp: u32,
    pub msg_type: char,
    pub symbol: String,
    pub auction_type: char,
    pub price: u64,
    pub shares: u32,
}

impl View for AuctionSummaryMsg {
    type V = Seq<Value>;

    open spec fn view(&self) -> Seq<Value> {
        seq![
            Value::Number(self.timestamp as int),
            Value::Character(self.msg_type),
            Value::Text(self.symbol@),
            Value::Character(self.auction_type),
            Value::Number(self.price as int),
            Value::Number(self.shares as int),
        ]
    }
}

impl AuctionSummaryMsg {
    /// Decodes a record as an auction summary: the fields in wire order, the first
    /// that fails giving the error.
    pub fn parse_msg(msg: &str) -> (r: Result<AuctionSummaryMsg, ParseError>)
        ensures
            match r {
                Ok(m) => decode_as(MessageKind::AuctionSummary, msg@) == Ok::<Seq<Value>, ParseError>(m@),
                Err(e) => decode_as(MessageKind::AuctionSummary, msg@) == Err::<Seq<Value>, ParseError>(e),
            },
    {
        let v = match read_message(msg, MessageKind::AuctionSummary) {
            Ok(v) => v,
            Err(e) => return Err(e),
        };
        proof {
            lemma_decode_as_fits(MessageKind::AuctionSummary, msg@);
        }
        let ghost fs = layout(msg@[CODE_OFFSET as int]);
        let m = AuctionSummaryMsg {
            timestamp: number_at(&v, 0, Ghost(fs)) as u32,
            msg_type: char_at(&v, 1, Ghost(fs)),
            symbol: text_at(&v, 2, Ghost(fs)),
            auction_type: char_at(&v, 3, Ghost(fs)),
            price: number_at(&v, 4, Ghost(fs)),
            shares: number_at(&v, 5, Ghost(fs)) as u32,
        };
        assert(m@ =~= values_of(v@));
        Ok(m)
    }
}

/// An add order (`A`, or `d` in its long form).
#[derive(Debug)]
pub struct AddOrderMsg {
    pub timestamp: u32,
    pub msg_type: char,
    pub order_id: u64,
    pub side: char,
    pub shares: u32,
    pub symbol: String,
    pub price: u64,
    pub display: char,
    pub part_id: String,
}

impl View for AddOrderMsg {
    type V = Seq<Value>;

    open spec fn view(&self) -> Seq<Value> {
        seq![
            Value::Number(self.timestamp as int),
            Value::Character(self.msg_type),
            Value::Number(self.order_id as int),
            Value::Character(self.side),
            Value::Number(self.shares as int),
            Value::Text(self.symbol@),
            Value::Number(self.price as int),
            Value::Character(self.display),
            Value::Text(self.part_id@),
        ]
    }
}

impl AddOrderMsg {
    /// Decodes a record as an add order: the fields in wire order, the first
    /// that fails giving the error.
    pub fn parse_msg(msg: &str) -> (r: Result<AddOrderMsg, ParseError>)
        ensures
            match r {
                Ok(m) => decode_as(MessageKind::AddOrder, msg@) == Ok::<Seq<Value>, ParseError>(m@),
                Err(e) => decode_as(MessageKind::AddOrder, msg@) == Err::<Seq<Value>, ParseError>(e),
            },
    {
        let v = match read_message(msg, MessageKind::AddOrder) {
            Ok(v) => v,
            Err(e) => return Err(e),
        };
        proof {
            lemma_decode_as_fits(MessageKind::AddOrder, msg@);
        }
        let ghost fs = layout(msg@[CODE_OFFSET as int]);
        let m = AddOrderMsg {
            timestamp: number_at(&v, 0, Ghost(fs)) as u32,
            msg_type: char_at(&v, 1, Ghost(fs)),
            order_id: number_at(&v, 2, Ghost(fs)),
            side: char_at(&v, 3, Ghost(fs)),
            shares: number_at(&v, 4, Ghost(fs)) as u32,
            symbol: text_at(&v, 5, Ghost(fs)),
            price: number_at(&v, 6, Ghost(fs)),
            display: char_at(&v, 7, Ghost(fs)),
            part_id: text_at(&v, 8, Ghost(fs)),
        };
        assert(m@ =~= values_of(v@));
        Ok(m)
    }
}

/// An auction update (`I`).
#[derive(Debug)]
pub struct AuctionUpdateMsg {
    pub timestamp: u32,
    pub msg_type: char,
    pub symbol: String,
    pub auction_type: char,
    pub reference_price: u64,
    pub buyshares: u32,
    pub sellshares: u32,
    pub indicative_price: u64,
    pub auction_only_price: u64,
}

impl View for AuctionUpdateMsg {
    type V = Seq<Value>;

    open spec fn view(&self) -> Seq<Value> {
        seq![
            Value::Number(self.timestamp as int),
            Value::Character(self.msg_type),
            Value::Text(self.symbol@),
            Value::Character(self.auction_type),
            Value::Number(self.reference_price as int),
            Value::Number(self.buyshares as int),
            Value::Number(self.sellshares as int),
            Value::Number(self.indicative_price as int),
            Value::Number(self.auction_only_price as int),
        ]
    }
}

impl AuctionUpdateMsg {
    /// Decodes a record as an auction update: the fields in wire order, the first
    /// that fails giving the error.
    pub fn parse_msg(msg: &str) -> (r: Result<AuctionUpdateMsg, ParseError>)
        ensures
            match r {
                Ok(m) => decode_as(MessageKind::AuctionUpdate, msg@) == Ok::<Seq<Value>, ParseError>(m@),
                Err(e) => decode_as(MessageKind::AuctionUpdate, msg@) == Err::<Seq<Value>, ParseError>(e),
            },
    {
        let v = match read_message(msg, MessageKind::AuctionUpdate) {
            Ok(v) => v,
            Err(e) => return Err(e),
        };
        proof {
            lemma_decode_as_fits(MessageKind::AuctionUpdate, msg@);
        }
        let ghost fs = layout(msg@[CODE_OFFSET as int]);
        let m = AuctionUpdateMsg {
            timestamp: number_at(&v, 0, Ghost(fs)) as u32,
            msg_type: char_at(&v, 1, Ghost(fs)),
            symbol: text_at(&v, 2, Ghost(fs)),
            auction_type: char_at(&v, 3, Ghost(fs)),
            reference_price: number_at(&v, 4, Ghost(fs)),
            buyshares: number_at(&v, 5, Ghost(fs)) as u32,
            sellshares: number_at(&v, 6, Ghost(fs)) as u32,
            indicative_price: number_at(&v, 7, Ghost(fs)),
            auction_only_price: number_at(&v, 8, Ghost(fs)),
        };
        assert(m@ =~= values_of(v@));
        Ok(m)
    }
}

/// An order cancel (`X`).
#[derive(Debug)]
pub struct OrderCancelMsg {
    pub timestamp: u32,
    pub msg_type: char,
    pub order_id: u64,
    pub shares: u32,
}

impl View for OrderCancelMsg {
    type V = Seq<Value>;

    open spec fn view(&self) -> Seq<Value> {
        seq![
            Value::Number(self.timestamp as int),
            Value::Character(self.msg_type),
            Value::Number(self.order_id as int),
            Value::Number(self.shares as int),
        ]
    }
}

impl OrderCancelMsg {
    /// Decodes a record as an order cancel: the fields in wire order, the first
    /// that fails giving the error.
    pub fn parse_msg(msg: &str) -> (r: Result<OrderCancelMsg, ParseError>)
        ensures
            match r {
                Ok(m) => decode_as(MessageKind::OrderCancel, msg@) == Ok::<Seq<Value>, ParseError>(m@),
                Err(e) => decode_as(MessageKind::OrderCancel, msg@) == Err::<Seq<Value>, ParseError>(e),
            },
    {
        let v = match read_message(msg, MessageKind::OrderCancel) {
            Ok(v) => v,
            Err(e) => return Err(e),
        };
        proof {
            lemma_decode_as_fits(MessageKind::OrderCancel, msg@);
        }
        let ghost fs = layout(msg@[CODE_OFFSET as int]);
        let m = OrderCancelMsg {
            timestamp: number_at(&v, 0, Ghost(fs)) as u32,
            msg_type: char_at(&v, 1, Ghost(fs)),
            order_id: number_at(&v, 2, Ghost(fs)),
            shares: number_at(&v, 3, Ghost(fs)) as u32,
        };
        assert(m@ =~= values_of(v@));
        Ok(m)
    }
}

/// An order execution (`E`).
#[derive(Debug)]
pub struct OrderExecutedMsg {
    pub timestamp: u32,
    pub msg_type: char,
    pub order_id: u64,
    pub shares: u32,
    pub exec_id: u64,
}

impl View for OrderExecutedMsg {
    type V = Seq<Value>;

    open spec fn view(&self) -> Seq<Value> {
        seq![
            Value::Number(self.timestamp as int),
            Value::Character(self.msg_type),
            Value::Number(self.order_id as int),
            Value::Number(self.shares as int),
            Value::Number(self.exec_id as int),
        ]
    }
}

impl OrderExecutedMsg {
    /// Decodes a record as an order execution: the fields in wire order, the first
    /// that fails giving the error.
    pub fn parse_msg(msg: &str) -> (r: Result<OrderExecutedMsg, ParseError>)
        ensures
            match r {
                Ok(m) => decode_as(MessageKind::OrderExecuted, msg@) == Ok::<Seq<Value>, ParseError>(m@),
                Err(e) => decode_as(MessageKind::OrderExecuted, msg@) == Err::<Seq<Value>, ParseError>(e),
            },
    {
        let v = match read_message(msg, MessageKind::OrderExecuted) {
            Ok(v) => v,
            Err(e) => return Err(e),
        };
        proof {
            lemma_decode_as_fits(MessageKind::OrderExecuted, msg@);
        }
        let ghost fs = layout(msg@[CODE_OFFSET as int]);
        let m = OrderExecutedMsg {
            timestamp: number_at(&v, 0, Ghost(fs)) as u32,
            msg_type: char_at(&v, 1, Ghost(fs)),
            order_id: number_at(&v, 2, Ghost(fs)),
            shares: number_at(&v, 3, Ghost(fs)) as u32,
            exec_id: number_at(&v, 4, Ghost(fs)),
        };
        assert(m@ =~= values_of(v@));
        Ok(m)
    }
}

/// A retail price improvement (`R`).
#[derive(Debug)]
pub struct RetailPriceImproveMsg {
    pub timestamp: u32,
    pub msg_type: char,
    pub symbol: String,
    pub retail_price_improve: char,
}

impl View for RetailPriceImproveMsg {
    type V = Seq<Value>;

    open spec fn view(&self) -> Seq<Value> {
        seq![
            Value::Number(self.timestamp as int),
            Value::Character(self.msg_type),
            Value::Text(self.symbol@),
            Value::Character(self.retail_price_improve),
        ]
    }
}

impl RetailPriceImproveMsg {
    /// Decodes a record as a retail price improvement: the fields in wire order, the first
    /// that fails giving the error.
    pub fn parse_msg(msg: &str) -> (r: Result<RetailPriceImproveMsg, ParseError>)
        ensures
            match r {
                Ok(m) => decode_as(MessageKind::RetailPriceImprove, msg@) == Ok::<Seq<Value>, ParseError>(m@),
                Err(e) => decode_as(MessageKind::RetailPriceImprove, msg@) == Err::<Seq<Value>, ParseError>(e),
            },
    {
        let v = match read_message(msg, MessageKind::RetailPriceImprove) {
            Ok(v) => v,
            Err(e) => return Err(e),
        };
        proof {
            lemma_decode_as_fits(MessageKind::RetailPriceImprove, msg@);
        }
        let ghost fs = layout(msg@[CODE_OFFSET as int]);
        let m = RetailPriceImproveMsg {
            timestamp: number_at(&v, 0, Ghost(fs)) as u32,
            msg_type: char_at(&v, 1, Ghost(fs)),
            symbol: text_at(&v, 2, Ghost(fs)),
            retail_price_improve: char_at(&v, 3, Ghost(fs)),
        };
        assert(m@ =~= values_of(v@));
        Ok(m)
    }
}

/// A trade break (`B`).
#[derive(Debug)]
pub struct TradeBreakMsg {
    pub timestamp: u32,
    pub msg_type: char,
    pub exec_id: u64,
}

impl View for TradeBreakMsg {
    type V = Seq<Value>;

    open spec fn view(&self) -> Seq<Value> {
        seq![
            Value::Number(self.timestamp as int),
            Value::Character(self.msg_type),
            Value::Number(self.exec_id as int),
        ]
    }
}

impl TradeBreakMsg {
    /// Decodes a record as a trade break: the fields in wire order, the first
    /// that fails giving the error.
    pub fn parse_msg(msg: &str) -> (r: Result<TradeBreakMsg, ParseError>)
        ensures
            match r {
                Ok(m) => decode_as(MessageKind::TradeBreak, msg@) == Ok::<Seq<Value>, ParseError>(m@),
                Err(e) => decode_as(MessageKind::TradeBreak, msg@) == Err::<Seq<Value>, ParseError>(e),
            },
    {
        let v = match read_message(msg, MessageKind::TradeBreak) {
            Ok(v) => v,
            Err(e) => return Err(e),
        };
        proof {
            lemma_decode_as_fits(MessageKind::TradeBreak, msg@);
        }
        let ghost fs = layout(msg@[CODE_OFFSET as int]);
        let m = TradeBreakMsg {
            timestamp: number_at(&v, 0, Ghost(fs)) as u32,
            msg_type: char_at(&v, 1, Ghost(fs)),
            exec_id: number_at(&v, 2, Ghost(fs)),
        };
        assert(m@ =~= values_of(v@));
        Ok(m)
    }
}

/// A trade (`P`, with a six-character symbol, or `r`, with an eight-character one).
#[derive(Debug)]
pub struct TradeMsg {
    pub timestamp: u32,
    pub msg_type: char,
    pub order_id: u64,
    pub side: char,
    pub shares: u32,
    pub symbol: String,
    pub price: u64,
    pub exec_id: u64,
}

impl View for TradeMsg {
    type V = Seq<Value>;

    open spec fn view(&self) -> Seq<Value> {
        seq![
            Value::Number(self.timestamp as int),
            Value::Character(self.msg_type),
            Value::Number(self.order_id as int),
            Value::Character(self.side),
            Value::Number(self.shares as int),
            Value::Text(self.symbol@),
            Value::Number(self.price as int),
            Value::Number(self.exec_id as int),
        ]
    }
}

impl TradeMsg {
    /// Decodes a record as a trade: the fields in wire order, the first
    /// that fails giving the error.
    pub fn parse_msg(msg: &str) -> (r: Result<TradeMsg, ParseError>)
        ensures
            match r {
                Ok(m) => decode_as(MessageKind::Trade, msg@) == Ok::<Seq<Value>, ParseError>(m@),
                Err(e) => decode_as(MessageKind::Trade, msg@) == Err::<Seq<Value>, ParseError>(e),
            },
    {
        let v = match read_message(msg, MessageKind::Trade) {
            Ok(v) => v,
            Err(e) => return Err(e),
        };
        proof {
            lemma_decode_as_fits(MessageKind::Trade, msg@);
        }
        let ghost fs = layout(msg@[CODE_OFFSET as int]);
        let m = TradeMsg {
            timestamp: number_at(&v, 0, Ghost(fs)) as u32,
            msg_type: char_at(&v, 1, Ghost(fs)),
            order_id: number_at(&v, 2, Ghost(fs)),
            side: char_at(&v, 3, Ghost(fs)),
            shares: number_at(&v, 4, Ghost(fs)) as u32,
            symbol: text_at(&v, 5, Ghost(fs)),
            price: number_at(&v, 6, Ghost(fs)),
            exec_id: number_at(&v, 7, Ghost(fs)),
        };
        assert(m@ =~= values_of(v@));
        Ok(m)
    }
}

/// A trading status (`H`).
#[derive(Debug)]
pub struct TradingStatusMsg {
    pub timestamp: u32,
    pub msg_type: char,
    pub symbol: String,
    pub halt_status: char,
    pub reg_sho_action: u8,
    pub reserved1: char,
    pub reserved2: char,
}

impl View for TradingStatusMsg {
    type V = Seq<Value>;

    open spec fn view(&self) -> Seq<Value> {
        seq![
            Value::Number(self.timestamp as int),
            Value::Character(self.msg_type),
            Value::Text(self.symbol@),
            Value::Character(self.halt_status),
            Value::Number(self.reg_sho_action as int),
            Value::Character(self.reserved1),
            Value::Character(self.reserved2),
        ]
    }
}

impl TradingStatusMsg {
    /// Decodes a record as a trading status: the fields in wire order, the first
    /// that fails giving the error.
    pub fn parse_msg(msg: &str) -> (r: Result<TradingStatusMsg, ParseError>)
        ensures
            match r {
                Ok(m) => decode_as(MessageKind::TradingStatus, msg@) == Ok::<Seq<Value>, ParseError>(m@),
                Err(e) => decode_as(MessageKind::TradingStatus, msg@) == Err::<Seq<Value>, ParseError>(e),
            },
    {
        let v = match read_message(msg, MessageKind::TradingStatus) {
            Ok(v) => v,
            Err(e) => return Err(e),
        };
        proof {
            lemma_decode_as_fits(MessageKind::TradingStatus, msg@);
        }
        let ghost fs = layout(msg@[CODE_OFFSET as int]);
        let m = TradingStatusMsg {
            timestamp: number_at(&v, 0, Ghost(fs)) as u32,
            msg_type: char_at(&v, 1, Ghost(fs)),
            symbol: text_at(&v, 2, Ghost(fs)),
            halt_status: char_at(&v, 3, Ghost(fs)),
            reg_sho_action: number_at(&v, 4, Ghost(fs)) as u8,
            reserved1: char_at(&v, 5, Ghost(fs)),
            reserved2: char_at(&v, 6, Ghost(fs)),
        };
        assert(m@ =~= values_of(v@));
        Ok(m)
    }
}

/// One decoded record: exactly one of the nine messages.
#[derive(Debug)]
pub enum BATSMessage {
    AuctionSummaryMsg(AuctionSummaryMsg),
    AddOrderMsg(AddOrderMsg),
    AuctionUpdateMsg(AuctionUpdateMsg),
    OrderCancelMsg(OrderCancelMsg),
    OrderExecutedMsg(OrderExecutedMsg),
    RetailPriceImproveMsg(RetailPriceImproveMsg),
    TradeBreakMsg(TradeBreakMsg),
    TradeMsg(TradeMsg),
    TradingStatusMsg(TradingStatusMsg),
}

impl View for BATSMessage {
    type V = (MessageKind, Seq<Value>);

    open spec fn view(&self) -> (MessageKind, Seq<Value>) {
        match self {
            BATSMessage::AuctionSummaryMsg(m) => (MessageKind::AuctionSummary, m@),
            BATSMessage::AddOrderMsg(m) => (MessageKind::AddOrder, m@),
            BATSMessage::AuctionUpdateMsg(m) => (MessageKind::AuctionUpdate, m@),
            BATSMessage::OrderCancelMsg(m) => (MessageKind::OrderCancel, m@),
            BATSMessage::OrderExecutedMsg(m) => (MessageKind::OrderExecuted, m@),
            BATSMessage::RetailPriceImproveMsg(m) => (MessageKind::RetailPriceImprove, m@),
            BATSMessage::TradeBreakMsg(m) => (MessageKind::TradeBreak, m@),
            BATSMessage::TradeMsg(m) => (MessageKind::Trade, m@),
            BATSMessage::TradingStatusMsg(m) => (MessageKind::TradingStatus, m@),
        }
    }
}

impl BATSMessage {
    /// The kind of the message held.
    pub fn kind(&self) -> (r: MessageKind)
        ensures
            r == self@.0,
    {
        match self {
            BATSMessage::AuctionSummaryMsg(_) => MessageKind::AuctionSummary,
            BATSMessage::AddOrderMsg(_) => MessageKind::AddOrder,
            BATSMessage::AuctionUpdateMsg(_) => MessageKind::AuctionUpdate,
            BATSMessage::OrderCancelMsg(_) => MessageKind::OrderCancel,
            BATSMessage::OrderExecutedMsg(_) => MessageKind::OrderExecuted,
            BATSMessage::RetailPriceImproveMsg(_) => MessageKind::RetailPriceImprove,
            BATSMessage::TradeBreakMsg(_) => MessageKind::TradeBreak,
            BATSMessage::TradeMsg(_) => MessageKind::Trade,
            BATSMessage::TradingStatusMsg(_) => MessageKind::TradingStatus,
        }
    }

    /// The auctionSummaryMsg held, if that is what this is.
    pub fn into_auction_summary_msg(self) -> (r: Option<AuctionSummaryMsg>)
        ensures
            match self {
                BATSMessage::AuctionSummaryMsg(m) => r == Some(m),
                _ => r is None,
            },
    {
        match self {
            BATSMessage::AuctionSummaryMsg(m) => Some(m),
            _ => None,
        }
    }

    /// The addOrderMsg held, if that is what this is.
    pub fn into_add_order_msg(self) -> (r: Option<AddOrderMsg>)
        ensures
            match self {
                BATSMessage::AddOrderMsg(m) => r == Some(m),
                _ => r is None,
            },
    {
        match self {
            BATSMessage::AddOrderMsg(m) => Some(m),
            _ => None,
        }
    }

    /// The auctionUpdateMsg held, if that is what this is.
    pub fn into_auction_update_msg(self) -> (r: Option<AuctionUpdateMsg>)
        ensures
            match self {
                BATSMessage::AuctionUpdateMsg(m) => r == Some(m),
                _ => r is None,
            },
    {
        match self {
            BATSMessage::AuctionUpdateMsg(m) => Some(m),
            _ => None,
        }
    }

    /// The orderCancelMsg held, if that is what this is.
    pub fn into_order_cancel_msg(self) -> (r: Option<OrderCancelMsg>)
        ensures
            match self {
                BATSMessage::OrderCancelMsg(m) => r == Some(m),
                _ => r is None,
            },
    {
        match self {
            BATSMessage::OrderCancelMsg(m) => Some(m),
            _ => None,
        }
    }

    /// The orderExecutedMsg held, if that is what this is.
    pub fn into_order_executed_msg(self) -> (r: Option<OrderExecutedMsg>)
        ensures
            match self {
                BATSMessage::OrderExecutedMsg(m) => r == Some(m),
                _ => r is None,
            },
    {
        match self {
            BATSMessage::OrderExecutedMsg(m) => Some(m),
            _ => None,
        }
    }

    /// The retailPriceImproveMsg held, if that is what this is.
    pub fn into_retail_price_improve_msg(self) -> (r: Option<RetailPriceImproveMsg>)
        ensures
            match self {
                BATSMessage::RetailPriceImproveMsg(m) => r == Some(m),
                _ => r is None,
            },
    {
        match self {
            BATSMessage::RetailPriceImproveMsg(m) => Some(m),
            _ => None,
        }
    }

    /// The tradeBreakMsg held, if that is what this is.
    pub fn into_trade_break_msg(self) -> (r: Option<TradeBreakMsg>)
        ensures
            match self {
                BATSMessage::TradeBreakMsg(m) => r == Some(m),
                _ => r is None,
            },
    {
        match self {
            BATSMessage::TradeBreakMsg(m) => Some(m),
            _ => None,
        }
    }

    /// The tradeMsg held, if that is what this is.
    pub fn into_trade_msg(self) -> (r: Option<TradeMsg>)
        ensures
            match self {
                BATSMessage::TradeMsg(m) => r == Some(m),
                _ => r is None,
            },
    {
        match self {
            BATSMessage::TradeMsg(m) => Some(m),
            _ => None,
        }
    }

    /// The tradingStatusMsg held, if that is what this is.
    pub fn into_trading_status_msg(self) -> (r: Option<TradingStatusMsg>)
        ensures
            match self {
                BATSMessage::TradingStatusMsg(m) => r == Some(m),
                _ => r is None,
            },
    {
        match self {
            BATSMessage::TradingStatusMsg(m) => Some(m),
            _ => None,
        }
    }
}

/// Decodes records of any kind, choosing the parser by the type code.
pub struct BATSMsgFactory {}

impl BATSMsgFactory {
    /// Decodes a record: the character at offset 8 selects the message kind,
    /// whose parser then reads the whole record.
    pub fn parse(msg: &str) -> (r: Result<BATSMessage, ParseError>)
        ensures
            match r {
                Ok(m) => decode_record(msg@) == Ok::<(MessageKind, Seq<Value>), ParseError>(m@),
                Err(e) => decode_record(msg@) == Err::<(MessageKind, Seq<Value>), ParseError>(e),
            },
    {
        if msg.unicode_len() <= CODE_OFFSET {
            return Err(ParseError::IncompleteMessage);
        }
        match kind_of_code(msg.get_char(CODE_OFFSET)) {
            None => Err(ParseError::UnknownMessageType),
            Some(MessageKind::AuctionSummary) => match AuctionSummaryMsg::parse_msg(msg) {
                Ok(m) => Ok(BATSMessage::AuctionSummaryMsg(m)),
                Err(e) => Err(e),
            },
            Some(MessageKind::AddOrder) => match AddOrderMsg::parse_msg(msg) {
                Ok(m) => Ok(BATSMessage::AddOrderMsg(m)),
                Err(e) => Err(e),
            },
            Some(MessageKind::AuctionUpdate) => match AuctionUpdateMsg::parse_msg(msg) {
                Ok(m) => Ok(BATSMessage::AuctionUpdateMsg(m)),
                Err(e) => Err(e),
            },
            Some(MessageKind::OrderCancel) => match OrderCancelMsg::parse_msg(msg) {
                Ok(m) => Ok(BATSMessage::OrderCancelMsg(m)),
                Err(e) => Err(e),
            },
            Some(MessageKind::OrderExecuted) => match OrderExecutedMsg::parse_msg(msg) {
                Ok(m) => Ok(BATSMessage::OrderExecutedMsg(m)),
                Err(e) => Err(e),
            },
            Some(MessageKind::RetailPriceImprove) => match RetailPriceImproveMsg::parse_msg(msg) {
                Ok(m) => Ok(BATSMessage::RetailPriceImproveMsg(m)),
                Err(e) => Err(e),
            },
            Some(MessageKind::TradeBreak) => match TradeBreakMsg::parse_msg(msg) {
                Ok(m) => Ok(BATSMessage::TradeBreakMsg(m)),
                Err(e) => Err(e),
            },
            Some(MessageKind::Trade) => match TradeMsg::parse_msg(msg) {
                Ok(m) => Ok(BATSMessage::TradeMsg(m)),
                Err(e) => Err(e),
            },
            Some(MessageKind::TradingStatus) => match TradingStatusMsg::parse_msg(msg) {
                Ok(m) => Ok(BATSMessage::TradingStatusMsg(m)),
                Err(e) => Err(e),
            },
        }
    }
}

} // verus!
