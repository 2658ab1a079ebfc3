//! Venues: what they support, what they publish, and the interface of their drivers.
pub mod hyperliquid;
pub mod ibkr;
pub mod laws;
pub mod reader;
pub mod reader_laws;

use crate::clock::{duration_nanos, is_measured_age, is_older, is_staleness, max_duration_nanos};
use crate::order_book::half;
use crate::text::{decimal, push_decimal};
use crate::types::{in_i64, Order, OrderId, Position, Price};
use std::time::{Duration, Instant};
use vstd::prelude::*;

verus! {

/// What a venue supports. It is checked before an operation that a venue may not offer.
#[derive(Debug, Clone)]
pub struct VenueCapabilities {
    /// Limit orders can be placed and cancelled.
    pub can_place_limit_orders: bool,
    /// A full order book is streamed.
    pub can_stream_order_book: bool,
    /// There is a reference price for an underlying asset.
    pub provides_reference_price: bool,
}

/// Top-of-book market data from IBKR.
#[derive(Debug, Clone)]
pub struct IbkrMarketData {
    pub best_bid: Option<Price>,
    pub best_ask: Option<Price>,
    pub last_trade: Option<Price>,
    pub timestamp: Instant,
}

impl IbkrMarketData {
    /// The price halfway between bid and ask, rounded towards zero.
    pub fn mid(&self) -> (price: Option<Price>)
        requires
            self.best_bid matches Some(bid) ==> self.best_ask matches Some(ask) ==> in_i64(
                bid + ask,
            ),
        ensures
            price == (match (self.best_bid, self.best_ask) {
                (Some(bid), Some(ask)) => Some(half(bid + ask) as Price),
                _ => None,
            }),
    {
        match (self.best_bid, self.best_ask) {
            (Some(bid), Some(ask)) => Some((bid + ask) / 2),
            _ => None,
        }
    }

    /// True if the data was taken longer ago than `threshold`, by the clock at the time of the
    /// call.
    pub fn is_stale(&self, threshold: Duration) -> (stale: bool)
        ensures
            is_staleness(stale, self.timestamp, threshold),
            exists|age: Duration| #[trigger]
                call_ensures(Instant::elapsed, (&self.timestamp,), age) && stale == (duration_nanos(
                    age,
                ) > duration_nanos(threshold)),
            duration_nanos(threshold) == max_duration_nanos() ==> !stale,
    {
        let age = self.timestamp.elapsed();
        assert(is_measured_age(self.timestamp, age));
        is_older(age, threshold)
    }
}

/// Reference price, which is live during market hours only.
#[derive(Debug, Clone)]
pub enum ReferencePrice {
    /// Live data: use it directly.
    Live(IbkrMarketData),
    /// Data that went stale a short time ago.
    Stale { last: IbkrMarketData, age: Duration },
    /// No recent data, as overnight or at the weekend.
    Unavailable,
}

/// State of the connection to a venue.
#[derive(Debug, Clone, PartialEq)]
pub enum ConnectionState {
    Connected,
    Reconnecting { since: Instant, attempts: u32 },
    Failed { reason: String },
}

/// Response to an order placement.
#[derive(Debug)]
pub enum OrderResult {
    Acknowledged { order_id: OrderId },
    Rejected { reason: String },
    Timeout,
}

#[derive(Debug)]
pub enum DriverError {
    NotConnected,
    NotSupported,
    OrderRejected { reason: String },
    OrderNotFound { id: OrderId },
    Connection(String),
    Protocol(String),
    Serialization(String),
    Timeout { ms: u64 },
}

/// A `DriverError` with its text as a sequence of characters.
pub enum DriverFault {
    NotConnected,
    NotSupported,
    OrderRejected { reason: Seq<char> },
    OrderNotFound { id: Seq<char> },
    Connection(Seq<char>),
    Protocol(Seq<char>),
    Serialization(Seq<char>),
    Timeout { ms: u64 },
}

impl View for DriverError {
    type V = DriverFault;

    open spec fn view(&self) -> DriverFault {
        match *self {
            DriverError::NotConnected => DriverFault::NotConnected,
            DriverError::NotSupported => DriverFault::NotSupported,
            DriverError::OrderRejected { reason } => DriverFault::OrderRejected {
                reason: reason@,
            },
            DriverError::OrderNotFound { id } => DriverFault::OrderNotFound { id: id@ },
            DriverError::Connection(text) => DriverFault::Connection(text@),
            DriverError::Protocol(text) => DriverFault::Protocol(text@),
            DriverError::Serialization(text) => DriverFault::Serialization(text@),
            DriverError::Timeout { ms } => DriverFault::Timeout { ms },
        }
    }
}

impl DriverFault {
    /// The sentence that reports the fault.
    pub open spec fn message(self) -> Seq<char> {
        match self {
            DriverFault::NotConnected => "Not connected"@,
            DriverFault::NotSupported => "Not supported by this venue"@,
            DriverFault::OrderRejected { reason } => "Order rejected by venue: "@ + reason,
            DriverFault::OrderNotFound { id } => "Order not found: "@ + id,
            DriverFault::Connection(text) => "Connection error: "@ + text,
            DriverFault::Protocol(text) => "Protocol error: "@ + text,
            DriverFault::Serialization(text) => "Serialization error: "@ + text,
            DriverFault::Timeout { ms } => "Timeout after "@ + decimal(ms as nat) + "ms"@,
        }
    }
}

fn prefixed(prefix: &str, rest: &str) -> (text: String)
    ensures
        text@ == prefix@ + rest@,
{
    let mut text = prefix.to_string();
    text.append(rest);
    text
}

impl DriverError {
    /// The sentence that reports the error.
    pub fn message(&self) -> (text: String)
        ensures
            text@ == self@.message(),
    {
        match self {
            DriverError::NotConnected => "Not connected".to_string(),
            DriverError::NotSupported => "Not supported by this venue".to_string(),
            DriverError::OrderRejected { reason } => prefixed(
                "Order rejected by venue: ",
                reason.as_str(),
            ),
            DriverError::OrderNotFound { id } => prefixed("Order not found: ", id.as_str()),
            DriverError::Connection(text) => prefixed("Connection error: ", text.as_str()),
            DriverError::Protocol(text) => prefixed("Protocol error: ", text.as_str()),
            DriverError::Serialization(text) => prefixed("Serialization error: ", text.as_str()),
            DriverError::Timeout { ms } => {
                let mut text = "Timeout after ".to_string();
                push_decimal(&mut text, *ms as u128);
                text.append("ms");
                text
            },
        }
    }
}

/// A protocol error whose text is `prefix` followed by `rest`.
pub(crate) fn protocol_error(prefix: &str, rest: &str) -> (error: DriverError)
    ensures
        error@ == DriverFault::Protocol(prefix@ + rest@),
{
    DriverError::Protocol(prefixed(prefix, rest))
}

/// Why a venue does not take an order, if it does not.
pub open spec fn refusal(
    connected: bool,
    capabilities: VenueCapabilities,
    order: Order,
) -> Option<DriverFault> {
    if !connected {
        Some(DriverFault::NotConnected)
    } else if order.order_type is Limit && !capabilities.can_place_limit_orders {
        Some(DriverFault::NotSupported)
    } else {
        None
    }
}

/// The interface of all venues. The calls decide; sending and receiving is up to the caller.
pub trait ExchangeDriver {
    /// The driver is connected.
    spec fn is_connected(&self) -> bool;

    /// What the venue supports.
    spec fn offers(&self) -> VenueCapabilities;

    /// There is a number left for a request, where the venue numbers its requests.
    spec fn has_next_id(&self) -> bool;

    /// There is a number left for an order.
    spec fn has_order_id(&self) -> bool;

    /// Says whether there is a number left for a request.
    fn can_request(&self) -> (yes: bool)
        ensures
            yes == self.has_next_id(),
    ;

    /// Says whether there is a number left for an order.
    fn can_order(&self) -> (yes: bool)
        ensures
            yes == self.has_order_id(),
    ;

    /// Connects. The answer says whether a connection has to be opened.
    fn connect(&mut self) -> (result: Result<bool, DriverError>)
        ensures
            result is Ok,
            !old(self).is_connected() ==> result == Ok::<bool, DriverError>(true),
            final(self).is_connected(),
            final(self).offers() == old(self).offers(),
    ;

    /// Disconnects.
    fn disconnect(&mut self) -> (result: Result<(), DriverError>)
        ensures
            result is Ok,
            !final(self).is_connected(),
            final(self).offers() == old(self).offers(),
    ;

    /// Subscribes to the market data feed.
    fn subscribe_market_data(&mut self) -> (result: Result<(), DriverError>)
        requires
            old(self).is_connected() ==> old(self).has_next_id(),
        ensures
            match result {
                Ok(_) => old(self).is_connected(),
                Err(error) => !old(self).is_connected() && error is NotConnected,
            },
            final(self).is_connected() == old(self).is_connected(),
            final(self).offers() == old(self).offers(),
    ;

    /// Places an order at the Unix time `now_ms` in milliseconds, and gives the identifier
    /// that the venue knows it by.
    fn place_order(&mut self, order: Order, now_ms: u128) -> (result: Result<OrderId, DriverError>)
        requires
            refusal(old(self).is_connected(), old(self).offers(), order) is None
                ==> old(self).has_order_id(),
        ensures
            match result {
                Ok(_) => refusal(old(self).is_connected(), old(self).offers(), order) is None,
                Err(error) => refusal(old(self).is_connected(), old(self).offers(), order) == Some(
                    error@,
                ),
            },
            old(self).is_connected() && (order.order_type is Market
                || old(self).offers().can_place_limit_orders) ==> result is Ok,
            old(self).is_connected() && order.order_type is Limit
                && !old(self).offers().can_place_limit_orders ==> result matches Err(
                DriverError::NotSupported,
            ),
            !old(self).is_connected() ==> result matches Err(DriverError::NotConnected),
            final(self).is_connected() == old(self).is_connected(),
            final(self).offers() == old(self).offers(),
    ;

    /// Cancels an open order.
    fn cancel_order(&mut self, id: &OrderId) -> (result: Result<(), DriverError>)
        ensures
            match result {
                Ok(_) => old(self).is_connected(),
                Err(error) => !old(self).is_connected() && error is NotConnected,
            },
            final(self).is_connected() == old(self).is_connected(),
            final(self).offers() == old(self).offers(),
    ;

    /// The current positions at the venue.
    fn get_positions(&self) -> (result: Result<Vec<Position>, DriverError>)
        ensures
            match result {
                Ok(_) => self.is_connected(),
                Err(error) => !self.is_connected() && error is NotConnected,
            },
    ;

    /// What the venue supports.
    fn capabilities(&self) -> (capabilities: VenueCapabilities)
        ensures
            capabilities == self.offers(),
    ;

    /// The name of the venue.
    fn venue_name(&self) -> &'static str;
}

} // verus!
