//! Interactive Brokers driver: market orders for hedging, and top-of-book market data.
use crate::clock::is_clock_reading;
use crate::exchange::{refusal, DriverError, ExchangeDriver, IbkrMarketData, VenueCapabilities};
use crate::text::{decimal, law_decimal_is_injective, push_decimal};
use crate::types::{InstrumentSpec, Order, OrderId, OrderType, Position, Price};
use std::time::Instant;
use vstd::prelude::*;

verus! {

/// Hands out the numbers that IBKR tags its answers with.
struct PendingOrders {
    next_req_id: u32,
}

impl PendingOrders {
    fn new() -> (pending: Self)
        ensures
            pending.next_req_id == 1,
    {
        PendingOrders { next_req_id: 1 }
    }

    fn next_req_id(&mut self) -> (id: u32)
        requires
            old(self).next_req_id < u32::MAX,
        ensures
            id == old(self).next_req_id,
            final(self).next_req_id == old(self).next_req_id + 1,
    {
        let id: u32 = self.next_req_id;
        self.next_req_id += 1;
        id
    }
}

/// Driver state: whether it is connected, and which requests it has numbered.
pub struct IbkrDriver {
    instrument: InstrumentSpec,
    pending: PendingOrders,
    connected: bool,
}

/// The state of an `IbkrDriver` as a mathematical value.
#[verifier::ext_equal]
pub struct IbkrModel {
    pub instrument: InstrumentSpec,
    pub next_req_id: u32,
    pub connected: bool,
}

impl View for IbkrDriver {
    type V = IbkrModel;

    closed spec fn view(&self) -> IbkrModel {
        IbkrModel {
            instrument: self.instrument,
            next_req_id: self.pending.next_req_id,
            connected: self.connected,
        }
    }
}

/// The identifier of the order with this request number.
pub open spec fn ibkr_order_id(req_id: u32) -> Seq<char> {
    "ibkr-order-"@ + decimal(req_id as nat)
}

/// Hedging takes market orders only, and there is top-of-book data but no full book.
pub open spec fn ibkr_capabilities() -> VenueCapabilities {
    VenueCapabilities {
        can_place_limit_orders: false,
        can_stream_order_book: false,
        provides_reference_price: true,
    }
}

/// Orders with different request numbers have different identifiers.
pub proof fn law_ibkr_order_ids_differ(a: u32, b: u32)
    requires
        a != b,
    ensures
        ibkr_order_id(a) != ibkr_order_id(b),
{
    let prefix = "ibkr-order-"@;
    if ibkr_order_id(a) == ibkr_order_id(b) {
        assert(ibkr_order_id(a).skip(prefix.len() as int) =~= decimal(a as nat));
        assert(ibkr_order_id(b).skip(prefix.len() as int) =~= decimal(b as nat));
        law_decimal_is_injective(a as nat, b as nat);
    }
}

/// No limit order is ever taken.
pub proof fn law_ibkr_takes_no_limit_order(connected: bool, order: Order)
    requires
        order.order_type is Limit,
    ensures
        refusal(connected, ibkr_capabilities(), order) is Some,
{
}

impl IbkrDriver {
    pub fn new(instrument: InstrumentSpec) -> (driver: Self)
        ensures
            driver@ == (IbkrModel { instrument, next_req_id: 1, connected: false }),
    {
        IbkrDriver { instrument, pending: PendingOrders::new(), connected: false }
    }

    /// The number of the next request.
    pub fn next_req_id(&self) -> (id: u32)
        ensures
            id == self@.next_req_id,
    {
        self.pending.next_req_id
    }

    /// The market data for these prices, taken at the present time.
    pub fn inject_market_data(&self, bid: Price, ask: Price, last: Price) -> (data: IbkrMarketData)
        ensures
            data.best_bid == Some(bid),
            data.best_ask == Some(ask),
            data.last_trade == Some(last),
            is_clock_reading(data.timestamp),
            call_ensures(Instant::now, (), data.timestamp),
    {
        let timestamp = Instant::now();
        assert(is_clock_reading(timestamp));
        IbkrMarketData {
            best_bid: Some(bid),
            best_ask: Some(ask),
            last_trade: Some(last),
            timestamp,
        }
    }
}

impl ExchangeDriver for IbkrDriver {
    open spec fn is_connected(&self) -> bool {
        self@.connected
    }

    open spec fn offers(&self) -> VenueCapabilities {
        ibkr_capabilities()
    }

    open spec fn has_next_id(&self) -> bool {
        self@.next_req_id < u32::MAX
    }

    /// An order is a request.
    open spec fn has_order_id(&self) -> bool {
        self.has_next_id()
    }

    fn can_request(&self) -> (yes: bool) {
        self.pending.next_req_id < u32::MAX
    }

    fn can_order(&self) -> (yes: bool) {
        self.can_request()
    }

    /// Connects. The connection counts as opened on each call.
    fn connect(&mut self) -> (result: Result<bool, DriverError>)
        ensures
            result == Ok::<bool, DriverError>(true),
            final(self)@ == (IbkrModel { connected: true, ..old(self)@ }),
    {
        self.connected = true;
        Ok(true)
    }

    fn disconnect(&mut self) -> (result: Result<(), DriverError>)
        ensures
            final(self)@ == (IbkrModel { connected: false, ..old(self)@ }),
    {
        self.connected = false;
        Ok(())
    }

    /// Subscribes to the market data feed with a request of its own.
    fn subscribe_market_data(&mut self) -> (result: Result<(), DriverError>)
        ensures
            final(self)@ == (if old(self)@.connected {
                IbkrModel { next_req_id: (old(self)@.next_req_id + 1) as u32, ..old(self)@ }
            } else {
                old(self)@
            }),
    {
        if !self.connected {
            return Err(DriverError::NotConnected);
        }
        let _req_id: u32 = self.pending.next_req_id();
        Ok(())
    }

    /// Places a market order with a request of its own.
    fn place_order(&mut self, order: Order, now_ms: u128) -> (result: Result<OrderId, DriverError>)
        ensures
            result matches Ok(id) ==> {
                &&& id@ == ibkr_order_id(old(self)@.next_req_id)
                &&& final(self)@ == (IbkrModel {
                    next_req_id: (old(self)@.next_req_id + 1) as u32,
                    ..old(self)@
                })
            },
            result is Err ==> final(self)@ == old(self)@,
    {
        if !self.connected {
            return Err(DriverError::NotConnected);
        }
        match &order.order_type {
            OrderType::Limit { .. } => {
                return Err(DriverError::NotSupported);
            },
            OrderType::Market => {},
        }
        let req_id: u32 = self.pending.next_req_id();
        let mut order_id = "ibkr-order-".to_string();
        push_decimal(&mut order_id, req_id as u128);
        Ok(order_id)
    }

    fn cancel_order(&mut self, id: &OrderId) -> (result: Result<(), DriverError>)
        ensures
            final(self)@ == old(self)@,
    {
        if !self.connected {
            return Err(DriverError::NotConnected);
        }
        Ok(())
    }

    fn get_positions(&self) -> (result: Result<Vec<Position>, DriverError>)
        ensures
            result matches Ok(positions) ==> positions@.len() == 0,
    {
        if !self.connected {
            return Err(DriverError::NotConnected);
        }
        Ok(Vec::new())
    }

    fn capabilities(&self) -> (capabilities: VenueCapabilities) {
        VenueCapabilities {
            can_place_limit_orders: false,
            can_stream_order_book: false,
            provides_reference_price: true,
        }
    }

    fn venue_name(&self) -> (name: &'static str)
        ensures
            name@ == "IBKR"@,
    {
        "IBKR"
    }
}

} // verus!
