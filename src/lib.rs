//! Decoding of fixed-width PITCH market-data records into typed messages.
//!
//! Every record starts with an eight-digit timestamp and a one-character type
//! code at offset 8; the code selects a row of the layout table in `record`,
//! whose fields are decoded one after another by `layout`. The contracts of
//! the parsers are stated over that table, and `encoding` and `outcomes`
//! prove what follows from it.

pub mod codec;
pub mod layout;
pub mod record;
pub mod messages;
pub mod encoding;
pub mod outcomes;

pub use codec::{from_base36, from_decimal};
pub use layout::{MessageKind, ParseError};
pub use messages::{
    AddOrderMsg, AuctionSummaryMsg, AuctionUpdateMsg, BATSMessage, BATSMsgFactory, OrderCancelMsg,
    OrderExecutedMsg, RetailPriceImproveMsg, TradeBreakMsg, TradeMsg, TradingStatusMsg,
};
