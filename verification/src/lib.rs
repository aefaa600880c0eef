//! A client library for a trading venue that speaks FIX 4.4 over two sessions, one for
//! market data and one for trading.
//!
//! The library holds the logic of the client and proves it: the wire codec, the framer,
//! the session engine with its sequence numbers and resend buffer, the subscriptions
//! and books of the quote client, and the requests and answers of the trade client. It
//! performs no I/O. A driver dials, reads and writes, keeps the timers, and hands the
//! library what arrived and when; the library says what is to be written and what the
//! caller's handlers are to be told.

pub mod book;
pub mod codec;
pub mod decimal;
pub mod field;
pub mod fixapi;
pub mod framer;
pub mod ident;
pub mod market_client;
pub mod messages;
pub mod parse_func;
pub mod requests;
pub mod subscriptions;
pub mod text;
pub mod time;
pub mod trade_client;
pub mod types;

pub use market_client::MarketClient;
pub use trade_client::TradeClient;
